//! Model-railway control stack: track graph, track description language,
//! route-following controller, and the framed serial wire protocol shared
//! between the host controller and the microcontroller firmware.
pub mod assoc;
pub mod command;
pub mod controller;
pub mod controller_event;
pub mod deser;
pub mod direction;
pub mod eval;
pub mod event;
pub mod firmware;
pub mod flow;
pub mod laws;
pub mod parser;
pub mod pretty;
pub mod route;
pub mod scheduler;
pub mod section;
pub mod serial;
pub mod sim;
pub mod strbytes;
pub mod stream;
pub mod switch;
pub mod track;
pub mod train;
pub mod transition;
