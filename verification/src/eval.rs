//! Evaluation of track definitions into a validated track graph:
//! sections and switches are created on first sight, and every switch
//! port may be bound exactly once.
use vstd::prelude::*;
use crate::direction::Direction;
use crate::parser::{def_views, ConnectionExpr, ConnectionExprView, TrackDefinition, TrackDefinitionView};
use crate::section::{Connection, ConnectionView, Section, SectionEnd, SectionId, SectionView};
use crate::strbytes::string_from_utf8;
use crate::switch::{
    invalid_switch_connection, Switch, SwitchConnection, SwitchConnectionView, SwitchId,
    SwitchState, SwitchView,
};
use crate::track::{Track, TrackView};
use vstd::string::StringExecFns;
use vstd::utf8::{decode_utf8, valid_utf8};

verus! {

/// Errors of evaluating track definitions.
#[derive(Debug)]
pub enum EvaluationError {
    /// A section was defined twice.
    SectionWasAlreadyDefined(String),
    /// The common pole of a switch was bound twice.
    SwitchFromAlreadyConnected(String),
    /// A branch of a switch was bound twice.
    SwitchToAlreadyConnected(String, SwitchState),
    /// A switch name in the source is not valid text.
    InvalidSwitchName(Vec<u8>),
    /// At finalization, some switch was left with its pole or every
    /// branch unbound, or a connection did not resolve.
    InvalidGraph,
}

/// Mathematical model of an `EvaluationError`.
pub ghost enum EvaluationErrorView {
    SectionWasAlreadyDefined(Seq<char>),
    SwitchFromAlreadyConnected(Seq<char>),
    SwitchToAlreadyConnected(Seq<char>, SwitchState),
    InvalidSwitchName(Seq<u8>),
    InvalidGraph,
}

impl View for EvaluationError {
    type V = EvaluationErrorView;

    open spec fn view(&self) -> EvaluationErrorView {
        match self {
            EvaluationError::SectionWasAlreadyDefined(n) => {
                EvaluationErrorView::SectionWasAlreadyDefined(n@)
            },
            EvaluationError::SwitchFromAlreadyConnected(n) => {
                EvaluationErrorView::SwitchFromAlreadyConnected(n@)
            },
            EvaluationError::SwitchToAlreadyConnected(n, st) => {
                EvaluationErrorView::SwitchToAlreadyConnected(n@, *st)
            },
            EvaluationError::InvalidSwitchName(b) => EvaluationErrorView::InvalidSwitchName(b@),
            EvaluationError::InvalidGraph => EvaluationErrorView::InvalidGraph,
        }
    }
}

/// The decimal digit character of a value below ten.
pub open spec fn digit_char(d: int) -> char {
    if d == 0 {
        '0'
    } else if d == 1 {
        '1'
    } else if d == 2 {
        '2'
    } else if d == 3 {
        '3'
    } else if d == 4 {
        '4'
    } else if d == 5 {
        '5'
    } else if d == 6 {
        '6'
    } else if d == 7 {
        '7'
    } else if d == 8 {
        '8'
    } else {
        '9'
    }
}

/// The decimal digits of a nonnegative number.
pub open spec fn dec_chars(n: int) -> Seq<char>
    decreases n,
{
    if n < 10 {
        seq![digit_char(n)]
    } else {
        dec_chars(n / 10) + seq![digit_char(n % 10)]
    }
}

/// The canonical name of a section: `S` followed by its number.
pub open spec fn spec_section_name(id: int) -> Seq<char> {
    seq!['S'] + dec_chars(id)
}

/// Create the section on first sight.
pub open spec fn spec_ensure_section(tv: TrackView, id: int) -> TrackView {
    if tv.sections.contains_key(id) {
        tv
    } else {
        TrackView {
            sections: tv.sections.insert(
                id,
                SectionView {
                    name: spec_section_name(id),
                    forward: ConnectionView::Dead,
                    backward: ConnectionView::Dead,
                },
            ),
            ..tv
        }
    }
}

/// Create the switch on first sight.
pub open spec fn spec_ensure_switch(tv: TrackView, name: Seq<char>) -> TrackView {
    if tv.switches.contains_key(name) {
        tv
    } else {
        TrackView {
            switches: tv.switches.insert(
                name,
                SwitchView {
                    name,
                    from: invalid_switch_connection(),
                    to_left: invalid_switch_connection(),
                    to_right: invalid_switch_connection(),
                },
            ),
            ..tv
        }
    }
}

/// Install a connection on one end of a section.
pub open spec fn spec_set_conn(tv: TrackView, sid: int, dir: Direction, c: ConnectionView) -> TrackView {
    let sec = tv.sections[sid];
    TrackView {
        sections: tv.sections.insert(
            sid,
            match dir {
                Direction::Forward => SectionView { forward: c, ..sec },
                Direction::Backward => SectionView { backward: c, ..sec },
            },
        ),
        ..tv
    }
}

/// A switch view with one branch bound.
pub open spec fn spec_switch_with_to(
    sw: SwitchView,
    state: SwitchState,
    to: SwitchConnectionView,
) -> SwitchView {
    match state {
        SwitchState::Left => SwitchView { to_left: to, ..sw },
        SwitchState::Right => SwitchView { to_right: to, ..sw },
    }
}

/// Evaluate one connection expression on one end of a section: a dead
/// end or a direct neighbour is installed; a switch occurrence claims
/// the switch's common pole, and a `back` occurrence claims a branch —
/// each slot at most once, else the matching error.
pub open spec fn spec_eval_conn(
    tv: TrackView,
    sid: int,
    c: ConnectionExprView,
    dir: Direction,
) -> Result<TrackView, EvaluationErrorView> {
    match c {
        ConnectionExprView::Dead => Ok(spec_set_conn(tv, sid, dir, ConnectionView::Dead)),
        ConnectionExprView::Direct { to } => {
            let tv1 = spec_ensure_section(tv, to);
            Ok(
                spec_set_conn(
                    tv1,
                    sid,
                    dir,
                    ConnectionView::Direct {
                        to: to,
                        section_end: crate::section::spec_end_when(dir),
                    },
                ),
            )
        },
        ConnectionExprView::Switch { switch_name } => {
            if !valid_utf8(switch_name) {
                Err(EvaluationErrorView::InvalidSwitchName(switch_name))
            } else {
                let nm = decode_utf8(switch_name);
                let tv1 = spec_ensure_switch(tv, nm);
                let sw = tv1.switches[nm];
                if sw.from != invalid_switch_connection() {
                    Err(EvaluationErrorView::SwitchFromAlreadyConnected(nm))
                } else {
                    let tv2 = TrackView {
                        switches: tv1.switches.insert(
                            nm,
                            SwitchView {
                                from: SwitchConnectionView::Section {
                                    section_id: sid,
                                    section_end: crate::section::spec_end_when(dir),
                                },
                                ..sw
                            },
                        ),
                        ..tv1
                    };
                    Ok(spec_set_conn(tv2, sid, dir, ConnectionView::Switch { switch_id: nm }))
                }
            }
        },
        ConnectionExprView::SwitchBack { switch_name, required_state } => {
            if !valid_utf8(switch_name) {
                Err(EvaluationErrorView::InvalidSwitchName(switch_name))
            } else {
                let nm = decode_utf8(switch_name);
                let tv1 = spec_ensure_switch(tv, nm);
                let sw = tv1.switches[nm];
                if sw.to(required_state) != invalid_switch_connection() {
                    Err(EvaluationErrorView::SwitchToAlreadyConnected(nm, required_state))
                } else {
                    let tv2 = TrackView {
                        switches: tv1.switches.insert(
                            nm,
                            spec_switch_with_to(
                                sw,
                                required_state,
                                SwitchConnectionView::Section {
                                    section_id: sid,
                                    section_end: crate::section::spec_end_when(dir),
                                },
                            ),
                        ),
                        ..tv1
                    };
                    Ok(
                        spec_set_conn(
                            tv2,
                            sid,
                            dir,
                            ConnectionView::SwitchBack { switch_id: nm, required_state },
                        ),
                    )
                }
            }
        },
    }
}

/// Evaluate one definition.
pub open spec fn spec_eval_def(tv: TrackView, d: TrackDefinitionView) -> Result<
    TrackView,
    EvaluationErrorView,
> {
    match d {
        TrackDefinitionView::Section(sd) => {
            let tv1 = spec_ensure_section(tv, sd.section_id);
            match spec_eval_conn(tv1, sd.section_id, sd.forward, Direction::Forward) {
                Result::Err(e) => Err(e),
                Result::Ok(tv2) => spec_eval_conn(
                    tv2,
                    sd.section_id,
                    sd.backward,
                    Direction::Backward,
                ),
            }
        },
        TrackDefinitionView::Switch(link) => {
            if !valid_utf8(link.from.switch_name) {
                Err(EvaluationErrorView::InvalidSwitchName(link.from.switch_name))
            } else if !valid_utf8(link.to.switch_name) {
                Err(EvaluationErrorView::InvalidSwitchName(link.to.switch_name))
            } else {
                let n1 = decode_utf8(link.from.switch_name);
                let n2 = decode_utf8(link.to.switch_name);
                let tv1 = spec_ensure_switch(tv, n1);
                let tv2 = spec_ensure_switch(tv1, n2);
                let a = tv2.switches[n1];
                if a.to(link.from.state) != invalid_switch_connection() {
                    Err(EvaluationErrorView::SwitchToAlreadyConnected(n1, link.from.state))
                } else {
                    let tv3 = TrackView {
                        switches: tv2.switches.insert(
                            n1,
                            spec_switch_with_to(
                                a,
                                link.from.state,
                                SwitchConnectionView::SwitchBack {
                                    switch_id: n2,
                                    state: link.to.state,
                                },
                            ),
                        ),
                        ..tv2
                    };
                    let b = tv3.switches[n2];
                    if b.to(link.to.state) != invalid_switch_connection() {
                        Err(EvaluationErrorView::SwitchToAlreadyConnected(n2, link.to.state))
                    } else {
                        Ok(
                            TrackView {
                                switches: tv3.switches.insert(
                                    n2,
                                    spec_switch_with_to(
                                        b,
                                        link.to.state,
                                        SwitchConnectionView::SwitchBack {
                                            switch_id: n1,
                                            state: link.from.state,
                                        },
                                    ),
                                ),
                                ..tv3
                            },
                        )
                    }
                }
            }
        },
    }
}

/// Evaluate definitions in file order over a starting graph.
pub open spec fn spec_evaluate(defs: Seq<TrackDefinitionView>, tv: TrackView) -> Result<
    TrackView,
    EvaluationErrorView,
>
    decreases defs.len(),
{
    if defs.len() == 0 {
        Ok(tv)
    } else {
        match spec_eval_def(tv, defs[0]) {
            Result::Err(e) => Err(e),
            Result::Ok(tv1) => spec_evaluate(defs.skip(1), tv1),
        }
    }
}

/// Append one decimal digit string.
fn digit_str(d: u64) -> (r: &'static str)
    requires
        d < 10,
    ensures
        r@ == seq![digit_char(d as int)],
{
    proof {
        reveal_strlit("0");
        reveal_strlit("1");
        reveal_strlit("2");
        reveal_strlit("3");
        reveal_strlit("4");
        reveal_strlit("5");
        reveal_strlit("6");
        reveal_strlit("7");
        reveal_strlit("8");
        reveal_strlit("9");
    }
    if d == 0 {
        "0"
    } else if d == 1 {
        "1"
    } else if d == 2 {
        "2"
    } else if d == 3 {
        "3"
    } else if d == 4 {
        "4"
    } else if d == 5 {
        "5"
    } else if d == 6 {
        "6"
    } else if d == 7 {
        "7"
    } else if d == 8 {
        "8"
    } else {
        "9"
    }
}

/// Append the decimal digits of a number to a string.
fn push_dec(s: &mut String, n: u64)
    ensures
        final(s)@ == old(s)@ + dec_chars(n as int),
    decreases n,
{
    if n >= 10 {
        push_dec(s, n / 10);
        s.append(digit_str(n % 10));
        proof {
            assert(s@ =~= old(s)@ + dec_chars(n as int));
        }
    } else {
        s.append(digit_str(n));
        proof {
            assert(s@ =~= old(s)@ + dec_chars(n as int));
        }
    }
}

/// The canonical name of a section.
fn section_name(id: u64) -> (r: String)
    ensures
        r@ == spec_section_name(id as int),
{
    proof {
        reveal_strlit("S");
    }
    let mut s: String = "S".to_owned();
    push_dec(&mut s, id);
    proof {
        assert(s@ =~= spec_section_name(id as int));
    }
    s
}

/// Create the section on first sight.
fn ensure_section(track: &mut Track, id: SectionId)
    requires
        old(track).wf(),
    ensures
        final(track).wf(),
        final(track)@ == spec_ensure_section(old(track)@, id@),
        final(track)@.sections.contains_key(id@),
{
    if !track.has_section(&id) {
        let name = section_name(id.as_usize() as u64);
        let result = track.insert_section(id, Section::new(name));
        proof {
            assert(result is Ok);
        }
    }
}

/// Create the switch on first sight.
fn ensure_switch(track: &mut Track, id: &SwitchId)
    requires
        old(track).wf(),
    ensures
        final(track).wf(),
        final(track)@ == spec_ensure_switch(old(track)@, id@),
        final(track)@.switches.contains_key(id@),
{
    if !track.has_switch(id) {
        let result = track.insert_switch(id.clone(), Switch::new(id.name().clone()));
        proof {
            assert(result is Ok);
        }
    }
}

/// Turn parsed switch-name bytes into a switch id, or the error for a
/// name that is not valid text.
fn switch_name_id(bytes: &Vec<u8>) -> (r: Result<SwitchId, EvaluationError>)
    ensures
        match r {
            Ok(id) => valid_utf8(bytes@) && id@ == decode_utf8(bytes@),
            Err(e) => !valid_utf8(bytes@) && e@ == EvaluationErrorView::InvalidSwitchName(bytes@),
        },
{
    match string_from_utf8(bytes.clone()) {
        Some(name) => {
            proof {
                vstd::utf8::encode_utf8_decode_utf8(name@);
            }
            Ok(SwitchId::from_name(name))
        },
        None => Err(EvaluationError::InvalidSwitchName(bytes.clone())),
    }
}

/// The evaluator of track definitions.
#[derive(Debug)]
pub struct Evaluator {
}

impl Default for Evaluator {
    /// A fresh evaluator.
    fn default() -> (r: Evaluator) {
        Evaluator {  }
    }
}

impl Evaluator {
    /// Evaluate one connection expression on one end of a section.
    fn evaluate_connection(
        track: &mut Track,
        section_id: SectionId,
        connection: &ConnectionExpr,
        direction: Direction,
    ) -> (r: Result<(), EvaluationError>)
        requires
            old(track).wf(),
            old(track)@.sections.contains_key(section_id@),
        ensures
            final(track).wf(),
            match r {
                Ok(()) => spec_eval_conn(
                    old(track)@,
                    section_id@,
                    connection@,
                    direction,
                ) == Ok::<TrackView, EvaluationErrorView>(final(track)@),
                Err(e) => spec_eval_conn(old(track)@, section_id@, connection@, direction)
                    == Err::<TrackView, EvaluationErrorView>(e@) && final(track)@ == old(track)@,
            },
    {
        match connection {
            ConnectionExpr::Dead => {
                let sec = track.section_mut(&section_id);
                sec.set_connection(direction, Connection::Dead);
                Ok(())
            },
            ConnectionExpr::Direct { to } => {
                ensure_section(track, *to);
                let end = SectionEnd::end_when(direction);
                let sec = track.section_mut(&section_id);
                sec.set_connection(direction, Connection::Direct { to: *to, section_end: end });
                Ok(())
            },
            ConnectionExpr::Switch { switch_name } => {
                let sw_id = match switch_name_id(switch_name) {
                    Ok(id) => id,
                    Err(e) => {
                        return Err(e);
                    },
                };
                ensure_switch(track, &sw_id);
                let claimed = {
                    let sw = match track.switch(&sw_id) {
                        Some(sw) => sw,
                        None => {
                            proof {
                                assert(false);
                            }
                            return Err(EvaluationError::InvalidSwitchName(switch_name.clone()));
                        },
                    };
                    !sw.from().is_invalid()
                };
                if claimed {
                    return Err(
                        EvaluationError::SwitchFromAlreadyConnected(sw_id.name().clone()),
                    );
                }
                let end = SectionEnd::end_when(direction);
                let sw = track.switch_mut(&sw_id);
                sw.set_from(SwitchConnection::section(section_id, end));
                let sec = track.section_mut(&section_id);
                sec.set_connection(direction, Connection::Switch { switch_id: sw_id });
                Ok(())
            },
            ConnectionExpr::SwitchBack { switch_name, required_state } => {
                let sw_id = match switch_name_id(switch_name) {
                    Ok(id) => id,
                    Err(e) => {
                        return Err(e);
                    },
                };
                ensure_switch(track, &sw_id);
                let claimed = {
                    let sw = match track.switch(&sw_id) {
                        Some(sw) => sw,
                        None => {
                            proof {
                                assert(false);
                            }
                            return Err(EvaluationError::InvalidSwitchName(switch_name.clone()));
                        },
                    };
                    !sw.to(*required_state).is_invalid()
                };
                if claimed {
                    return Err(
                        EvaluationError::SwitchToAlreadyConnected(
                            sw_id.name().clone(),
                            *required_state,
                        ),
                    );
                }
                let end = SectionEnd::end_when(direction);
                let sw = track.switch_mut(&sw_id);
                sw.set_to(SwitchConnection::section(section_id, end), *required_state);
                let sec = track.section_mut(&section_id);
                sec.set_connection(
                    direction,
                    Connection::SwitchBack { switch_id: sw_id, required_state: *required_state },
                );
                Ok(())
            },
        }
    }

    /// Evaluate one definition.
    fn evaluate_def(track: &mut Track, def: &TrackDefinition) -> (r: Result<(), EvaluationError>)
        requires
            old(track).wf(),
        ensures
            final(track).wf(),
            match r {
                Ok(()) => spec_eval_def(old(track)@, def@) == Ok::<
                    TrackView,
                    EvaluationErrorView,
                >(final(track)@),
                Err(e) => spec_eval_def(old(track)@, def@) == Err::<
                    TrackView,
                    EvaluationErrorView,
                >(e@),
            },
    {
        match def {
            TrackDefinition::Section(sd) => {
                ensure_section(track, sd.section_id);
                match Self::evaluate_connection(
                    track,
                    sd.section_id,
                    &sd.forward,
                    Direction::Forward,
                ) {
                    Ok(()) => {},
                    Err(e) => {
                        return Err(e);
                    },
                }
                proof {
                    assert(track@.sections.contains_key(sd.section_id@));
                }
                Self::evaluate_connection(track, sd.section_id, &sd.backward, Direction::Backward)
            },
            TrackDefinition::Switch(link) => {
                let n1 = match switch_name_id(&link.from.switch_name) {
                    Ok(id) => id,
                    Err(e) => {
                        return Err(e);
                    },
                };
                let n2 = match switch_name_id(&link.to.switch_name) {
                    Ok(id) => id,
                    Err(e) => {
                        return Err(e);
                    },
                };
                ensure_switch(track, &n1);
                ensure_switch(track, &n2);
                let claimed = {
                    let a = match track.switch(&n1) {
                        Some(a) => a,
                        None => {
                            proof {
                                assert(false);
                            }
                            return Err(EvaluationError::InvalidSwitchName(Vec::new()));
                        },
                    };
                    !a.to(link.from.state).is_invalid()
                };
                if claimed {
                    return Err(
                        EvaluationError::SwitchToAlreadyConnected(
                            n1.name().clone(),
                            link.from.state,
                        ),
                    );
                }
                let a = track.switch_mut(&n1);
                a.set_to(
                    SwitchConnection::SwitchBack { switch_id: n2.clone(), state: link.to.state },
                    link.from.state,
                );
                let claimed2 = {
                    let b = match track.switch(&n2) {
                        Some(b) => b,
                        None => {
                            proof {
                                assert(false);
                            }
                            return Err(EvaluationError::InvalidSwitchName(Vec::new()));
                        },
                    };
                    !b.to(link.to.state).is_invalid()
                };
                if claimed2 {
                    return Err(
                        EvaluationError::SwitchToAlreadyConnected(n2.name().clone(), link.to.state),
                    );
                }
                let b = track.switch_mut(&n2);
                b.set_to(
                    SwitchConnection::SwitchBack { switch_id: n1.clone(), state: link.from.state },
                    link.to.state,
                );
                Ok(())
            },
        }
    }

    /// Evaluate definitions in file order into a validated track graph,
    /// then finalize it: a graph that leaves a switch's pole or all its
    /// branches unbound, or whose pole does not resolve to a powering
    /// section, is rejected.
    pub fn evaluate(self, track_defs: Vec<TrackDefinition>) -> (r: Result<Track, EvaluationError>)
        ensures
            match r {
                Ok(track) => track.wf() && spec_evaluate(def_views(track_defs@), Track::spec_empty())
                    == Ok::<TrackView, EvaluationErrorView>(track@) && crate::track::graph_valid(
                    track@,
                ),
                Err(e) => (match spec_evaluate(def_views(track_defs@), Track::spec_empty()) {
                    Result::Ok(tv) => !crate::track::graph_valid(tv) && e@
                        == EvaluationErrorView::InvalidGraph,
                    Result::Err(e0) => e@ == e0,
                }),
            },
    {
        let mut track = Track::new();
        let ghost all = def_views(track_defs@);
        proof {
            assert(all.skip(0) =~= all);
        }
        let n = track_defs.len();
        let mut i: usize = 0;
        while i < n
            invariant
                n == track_defs@.len(),
                all == def_views(track_defs@),
                i <= n,
                track.wf(),
                spec_evaluate(all, Track::spec_empty()) == spec_evaluate(
                    all.skip(i as int),
                    track@,
                ),
            decreases n - i,
        {
            proof {
                assert(all.skip(i as int)[0] == all[i as int]);
                assert(all.skip(i as int).skip(1) =~= all.skip(i as int + 1));
            }
            match Self::evaluate_def(&mut track, &track_defs[i]) {
                Ok(()) => {},
                Err(e) => {
                    return Err(e);
                },
            }
            i = i + 1;
        }
        proof {
            assert(all.skip(n as int) =~= Seq::<TrackDefinitionView>::empty());
        }
        if !track.check_valid() {
            return Err(EvaluationError::InvalidGraph);
        }
        Ok(track)
    }
}

} // verus!
