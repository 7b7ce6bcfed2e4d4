//! The serial port abstraction shared by the host and the firmware: a
//! byte interface implemented by the platform, and the buffered reader
//! and frame writer built over it.
use vstd::prelude::*;
use crate::command::HardwareCommand;
use crate::deser::DeserError;
use crate::event::HardwareEvent;
use crate::stream::{
    encode_command_frame, encode_event_frame, spec_read_command, spec_read_event, ReadStep,
    SerialStream,
};

verus! {

/// Errors of a serial interface.
#[derive(Debug)]
pub enum SerialError<E> {
    /// A byte could not be written.
    FailedToWrite,
    /// An error of the underlying platform.
    Error(E),
}

/// A byte-oriented serial port, implemented by the platform around the
/// library. Nothing is promised of the bytes themselves; a read hands
/// back at most the requested number of bytes.
pub trait SerialInterface: Sized {
    type Error;

    /// Write a single byte.
    fn write_byte(&mut self, byte: u8) -> Result<(), SerialError<Self::Error>>;

    /// Write bytes; returns how many were written.
    fn write_bytes(&mut self, bytes: &[u8]) -> Result<usize, SerialError<Self::Error>>;

    /// Read up to `max` bytes; a timeout reads zero bytes.
    fn read_max_bytes(&mut self, max: usize) -> (r: Result<Vec<u8>, SerialError<Self::Error>>)
        ensures
            r matches Ok(bytes) ==> bytes@.len() <= max,
    ;

    /// Flush the output.
    fn flush(&mut self) -> Result<(), SerialError<Self::Error>>;
}

/// How many bytes one update reads from the interface at most.
pub const SERIAL_BUFFER_SIZE: usize = 128;

/// A serial port together with the stream of bytes read from it.
#[derive(Debug)]
pub struct Serial<I: SerialInterface> {
    interface: I,
    read_stream: SerialStream,
}

impl<I: SerialInterface> Serial<I> {
    /// The bytes read from the port and not yet consumed.
    pub closed spec fn stream_view(&self) -> Seq<u8> {
        self.read_stream@
    }

    /// A port with an empty read stream.
    pub fn new(interface: I) -> (r: Serial<I>)
        ensures
            r.stream_view() == Seq::<u8>::empty(),
    {
        Serial { interface, read_stream: SerialStream::new() }
    }

    /// The underlying interface.
    pub fn interface(&self) -> &I {
        &self.interface
    }

    /// The underlying interface, mutably.
    pub fn interface_mut(&mut self) -> (r: &mut I)
        ensures
            final(self).stream_view() == old(self).stream_view(),
    {
        &mut self.interface
    }

    /// The buffered read stream.
    pub fn stream(&self) -> (r: &SerialStream)
        ensures
            r@ == self.stream_view(),
    {
        &self.read_stream
    }

    /// The buffered read stream, mutably.
    pub fn stream_mut(&mut self) -> (r: &mut SerialStream)
        ensures
            r@ == old(self).stream_view(),
            final(self).stream_view() == final(r)@,
    {
        &mut self.read_stream
    }

    /// Write one byte to the port.
    pub fn write_byte(&mut self, byte: u8) -> (r: Result<(), SerialError<I::Error>>)
        ensures
            final(self).stream_view() == old(self).stream_view(),
    {
        self.interface.write_byte(byte)
    }

    /// Write bytes to the port; returns how many were written.
    pub fn write_bytes(&mut self, bytes: &[u8]) -> (r: Result<usize, SerialError<I::Error>>)
        ensures
            final(self).stream_view() == old(self).stream_view(),
    {
        self.interface.write_bytes(bytes)
    }

    /// Flush the port.
    pub fn flush(&mut self) -> (r: Result<(), SerialError<I::Error>>)
        ensures
            final(self).stream_view() == old(self).stream_view(),
    {
        self.interface.flush()
    }

    /// Read whatever the port has and append it to the read stream.
    pub fn update(&mut self) -> (r: Result<(), SerialError<I::Error>>)
        ensures
            r is Ok ==> exists|bs: Seq<u8>|
                final(self).stream_view() == old(self).stream_view() + bs,
    {
        let bytes = match self.interface.read_max_bytes(SERIAL_BUFFER_SIZE) {
            Ok(b) => b,
            Err(e) => {
                return Err(e);
            },
        };
        self.read_stream.push_bytes(bytes.as_slice());
        proof {
            assert(final(self).stream_view() == old(self).stream_view() + bytes@);
        }
        Ok(())
    }

    /// Write one command as a frame and flush.
    pub fn write_command(&mut self, command: &HardwareCommand) -> (r: Result<
        (),
        SerialError<I::Error>,
    >)
        requires
            command@.wf(),
        ensures
            final(self).stream_view() == old(self).stream_view(),
    {
        let frame = encode_command_frame(command);
        let _written = self.interface.write_bytes(frame.as_slice())?;
        self.interface.flush()
    }

    /// Write one event as a frame and flush.
    pub fn write_event(&mut self, event: &HardwareEvent) -> (r: Result<(), SerialError<I::Error>>)
        requires
            event@.wf(),
        ensures
            final(self).stream_view() == old(self).stream_view(),
    {
        let frame = encode_event_frame(event);
        let _written = self.interface.write_bytes(frame.as_slice())?;
        self.interface.flush()
    }

    /// Try to read one command frame from the buffered stream.
    pub fn read_command(&mut self) -> (r: Result<Option<HardwareCommand>, DeserError>)
        ensures
            final(self).stream_view() == spec_read_command(old(self).stream_view()).1,
            match r {
                Ok(Option::None) => spec_read_command(old(self).stream_view()).0 is Pending,
                Ok(Option::Some(c)) => spec_read_command(old(self).stream_view()).0
                    == ReadStep::Frame(c@) && c@.wf(),
                Err(e) => spec_read_command(old(self).stream_view()).0 == ReadStep::<
                    crate::command::CommandView,
                >::Failed(e),
            },
    {
        self.read_stream.read_command()
    }

    /// Try to read one event frame from the buffered stream.
    pub fn read_event(&mut self) -> (r: Result<Option<HardwareEvent>, DeserError>)
        ensures
            final(self).stream_view() == spec_read_event(old(self).stream_view()).1,
            match r {
                Ok(Option::None) => spec_read_event(old(self).stream_view()).0 is Pending,
                Ok(Option::Some(e)) => spec_read_event(old(self).stream_view()).0
                    == ReadStep::Frame(e@) && e@.wf(),
                Err(err) => spec_read_event(old(self).stream_view()).0 == ReadStep::<
                    crate::event::EventView,
                >::Failed(err),
            },
    {
        self.read_stream.read_event()
    }
}

} // verus!
