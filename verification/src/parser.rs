//! The track description language: a line-oriented text format with
//! section definitions and switch back-to-back links, parsed byte by
//! byte into track definitions.
use vstd::prelude::*;
use crate::section::SectionId;
use crate::switch::SwitchState;
use vstd::string::StringSliceAdditionalSpecFns;

verus! {

/// A connection expression on one end of a section definition.
#[derive(Debug)]
pub enum ConnectionExpr {
    /// Direct connection to another section.
    Direct { to: SectionId },
    /// The section goes into the common pole of a switch.
    Switch { switch_name: Vec<u8> },
    /// The section is reached through a branch of a switch.
    SwitchBack { switch_name: Vec<u8>, required_state: SwitchState },
    /// The section has a dead end.
    Dead,
}

/// Mathematical model of a `ConnectionExpr`.
pub ghost enum ConnectionExprView {
    Direct { to: int },
    Switch { switch_name: Seq<u8> },
    SwitchBack { switch_name: Seq<u8>, required_state: SwitchState },
    Dead,
}

impl View for ConnectionExpr {
    type V = ConnectionExprView;

    open spec fn view(&self) -> ConnectionExprView {
        match self {
            ConnectionExpr::Direct { to } => ConnectionExprView::Direct { to: to@ },
            ConnectionExpr::Switch { switch_name } => {
                ConnectionExprView::Switch { switch_name: switch_name@ }
            },
            ConnectionExpr::SwitchBack { switch_name, required_state } => {
                ConnectionExprView::SwitchBack {
                    switch_name: switch_name@,
                    required_state: *required_state,
                }
            },
            ConnectionExpr::Dead => ConnectionExprView::Dead,
        }
    }
}

/// A section definition: its id and the connections of its two ends.
#[derive(Debug)]
pub struct SectionDef {
    pub section_id: SectionId,
    pub forward: ConnectionExpr,
    pub backward: ConnectionExpr,
}

/// Mathematical model of a `SectionDef`.
pub ghost struct SectionDefView {
    pub section_id: int,
    pub forward: ConnectionExprView,
    pub backward: ConnectionExprView,
}

impl View for SectionDef {
    type V = SectionDefView;

    open spec fn view(&self) -> SectionDefView {
        SectionDefView {
            section_id: self.section_id@,
            forward: self.forward@,
            backward: self.backward@,
        }
    }
}

/// One side of a switch back-to-back link: a switch and a branch.
#[derive(Debug)]
pub struct SwitchWithState {
    pub switch_name: Vec<u8>,
    pub state: SwitchState,
}

/// Mathematical model of a `SwitchWithState`.
pub ghost struct SwitchWithStateView {
    pub switch_name: Seq<u8>,
    pub state: SwitchState,
}

impl View for SwitchWithState {
    type V = SwitchWithStateView;

    open spec fn view(&self) -> SwitchWithStateView {
        SwitchWithStateView { switch_name: self.switch_name@, state: self.state }
    }
}

/// A back-to-back link between branches of two switches.
#[derive(Debug)]
pub struct SwitchConnection {
    pub from: SwitchWithState,
    pub to: SwitchWithState,
}

/// Mathematical model of a `SwitchConnection`.
pub ghost struct SwitchConnectionDefView {
    pub from: SwitchWithStateView,
    pub to: SwitchWithStateView,
}

impl View for SwitchConnection {
    type V = SwitchConnectionDefView;

    open spec fn view(&self) -> SwitchConnectionDefView {
        SwitchConnectionDefView { from: self.from@, to: self.to@ }
    }
}

/// One definition of a track description file.
#[derive(Debug)]
pub enum TrackDefinition {
    Section(SectionDef),
    Switch(SwitchConnection),
}

/// Mathematical model of a `TrackDefinition`.
pub ghost enum TrackDefinitionView {
    Section(SectionDefView),
    Switch(SwitchConnectionDefView),
}

impl View for TrackDefinition {
    type V = TrackDefinitionView;

    open spec fn view(&self) -> TrackDefinitionView {
        match self {
            TrackDefinition::Section(d) => TrackDefinitionView::Section(d@),
            TrackDefinition::Switch(d) => TrackDefinitionView::Switch(d@),
        }
    }
}

/// The views of a list of definitions.
pub open spec fn def_views(v: Seq<TrackDefinition>) -> Seq<TrackDefinitionView> {
    v.map_values(|d: TrackDefinition| d@)
}

/// A parse failure, with the byte position the parser stopped at.
#[derive(Debug, Copy, Clone, PartialEq, Eq, Structural)]
pub struct ParseError {
    pub position: usize,
}

/// Whitespace bytes of the language.
pub open spec fn is_space(b: u8) -> bool {
    b == 32 || b == 9 || b == 10 || b == 13
}

/// ASCII digits.
pub open spec fn is_digit(b: u8) -> bool {
    48 <= b <= 57
}

/// Bytes that may start an identifier.
pub open spec fn is_ident_start(b: u8) -> bool {
    (65 <= b <= 90) || (97 <= b <= 122) || b == 95
}

/// Bytes that may continue an identifier.
pub open spec fn is_ident_char(b: u8) -> bool {
    is_ident_start(b) || is_digit(b)
}

/// Skipping whitespace and `#` comments from `i`; `in_comment` carries
/// whether the position is inside a comment running to end of line.
pub open spec fn spec_skip_ws2(s: Seq<u8>, i: int, in_comment: bool) -> int
    decreases s.len() - i,
{
    if i < 0 || i >= s.len() {
        i
    } else if in_comment {
        if s[i] == 10 {
            spec_skip_ws2(s, i + 1, false)
        } else {
            spec_skip_ws2(s, i + 1, true)
        }
    } else if is_space(s[i]) {
        spec_skip_ws2(s, i + 1, false)
    } else if s[i] == 35 {
        spec_skip_ws2(s, i + 1, true)
    } else {
        i
    }
}

/// The position after whitespace and comments starting at `i`.
pub open spec fn spec_skip_ws(s: Seq<u8>, i: int) -> int {
    spec_skip_ws2(s, i, false)
}

/// Reading an unsigned decimal number from `i` with accumulator `acc`:
/// stops at the first non-digit; a value over `u32::MAX` fails.
pub open spec fn spec_int_loop(s: Seq<u8>, i: int, acc: int) -> Option<(u32, int)>
    decreases s.len() - i,
{
    if 0 <= i < s.len() && is_digit(s[i]) {
        let acc2 = acc * 10 + (s[i] - 48);
        if acc2 > u32::MAX {
            None
        } else {
            spec_int_loop(s, i + 1, acc2)
        }
    } else {
        Some((acc as u32, i))
    }
}

/// A decimal number at `i`: at least one digit, value at most `u32::MAX`.
pub open spec fn spec_parse_int(s: Seq<u8>, i: int) -> Option<(u32, int)> {
    if 0 <= i < s.len() && is_digit(s[i]) {
        spec_int_loop(s, i, 0)
    } else {
        None
    }
}

/// The end of the identifier starting at `i`.
pub open spec fn spec_ident_end(s: Seq<u8>, i: int) -> int
    decreases s.len() - i,
{
    if 0 <= i < s.len() && is_ident_char(s[i]) {
        spec_ident_end(s, i + 1)
    } else {
        i
    }
}

/// An identifier at `i`: an identifier-start byte followed by
/// identifier bytes.
pub open spec fn spec_parse_ident(s: Seq<u8>, i: int) -> Option<(Seq<u8>, int)> {
    if 0 <= i < s.len() && is_ident_start(s[i]) {
        let end = spec_ident_end(s, i);
        Some((s.subrange(i, end), end))
    } else {
        None
    }
}

/// The literal token at `i`, if the input continues with exactly `tok`.
pub open spec fn spec_expect(s: Seq<u8>, i: int, tok: Seq<u8>) -> Option<int> {
    if 0 <= i && i + tok.len() <= s.len() && s.subrange(i, i + tok.len()) == tok {
        Some(i + tok.len())
    } else {
        None
    }
}

/// A switch state keyword at `i`: `left` or `right`.
pub open spec fn spec_parse_state(s: Seq<u8>, i: int) -> Option<(SwitchState, int)> {
    match spec_expect(s, i, spec_bytes_of("left")) {
        Option::Some(j) => Some((SwitchState::Left, j)),
        Option::None => match spec_expect(s, i, spec_bytes_of("right")) {
            Option::Some(j) => Some((SwitchState::Right, j)),
            Option::None => None,
        },
    }
}

/// The bytes of a keyword literal.
pub open spec fn spec_bytes_of(tok: &str) -> Seq<u8> {
    tok.spec_bytes()
}

/// A connection expression at `i`: `none`, `direct(S<int>)`,
/// `switch(<ident>)` or `back(<ident>, <state>)`, with free-form
/// whitespace between tokens.
#[verifier::opaque]
pub open spec fn spec_parse_conn(s: Seq<u8>, i0: int) -> Option<(ConnectionExprView, int)> {
    let i = spec_skip_ws(s, i0);
    match spec_expect(s, i, spec_bytes_of("none")) {
        Option::Some(j) => Some((ConnectionExprView::Dead, j)),
        Option::None => match spec_expect(s, i, spec_bytes_of("direct")) {
            Option::Some(j) => {
                match spec_expect(s, spec_skip_ws(s, j), spec_bytes_of("(")) {
                    Option::None => None,
                    Option::Some(j2) => {
                        match spec_expect(s, spec_skip_ws(s, j2), spec_bytes_of("S")) {
                            Option::None => None,
                            Option::Some(j3) => match spec_parse_int(s, j3) {
                                Option::None => None,
                                Option::Some((v, j4)) => {
                                    match spec_expect(s, spec_skip_ws(s, j4), spec_bytes_of(")")) {
                                        Option::None => None,
                                        Option::Some(j5) => Some(
                                            (ConnectionExprView::Direct { to: v as int }, j5),
                                        ),
                                    }
                                },
                            },
                        }
                    },
                }
            },
            Option::None => match spec_expect(s, i, spec_bytes_of("switch")) {
                Option::Some(j) => {
                    match spec_expect(s, spec_skip_ws(s, j), spec_bytes_of("(")) {
                        Option::None => None,
                        Option::Some(j2) => match spec_parse_ident(s, spec_skip_ws(s, j2)) {
                            Option::None => None,
                            Option::Some((name, j3)) => {
                                match spec_expect(s, spec_skip_ws(s, j3), spec_bytes_of(")")) {
                                    Option::None => None,
                                    Option::Some(j4) => Some(
                                        (ConnectionExprView::Switch { switch_name: name }, j4),
                                    ),
                                }
                            },
                        },
                    }
                },
                Option::None => match spec_expect(s, i, spec_bytes_of("back")) {
                    Option::None => None,
                    Option::Some(j) => {
                        match spec_expect(s, spec_skip_ws(s, j), spec_bytes_of("(")) {
                            Option::None => None,
                            Option::Some(j2) => match spec_parse_ident(s, spec_skip_ws(s, j2)) {
                                Option::None => None,
                                Option::Some((name, j3)) => {
                                    match spec_expect(s, spec_skip_ws(s, j3), spec_bytes_of(",")) {
                                        Option::None => None,
                                        Option::Some(j4) => {
                                            match spec_parse_state(s, spec_skip_ws(s, j4)) {
                                                Option::None => None,
                                                Option::Some((st, j5)) => {
                                                    match spec_expect(
                                                        s,
                                                        spec_skip_ws(s, j5),
                                                        spec_bytes_of(")"),
                                                    ) {
                                                        Option::None => None,
                                                        Option::Some(j6) => Some(
                                                            (
                                                                ConnectionExprView::SwitchBack {
                                                                    switch_name: name,
                                                                    required_state: st,
                                                                },
                                                                j6,
                                                            ),
                                                        ),
                                                    }
                                                },
                                            }
                                        },
                                    }
                                },
                            },
                        }
                    },
                },
            },
        },
    }
}

/// A `switch(<ident>, <state>)` occurrence at `i`.
#[verifier::opaque]
pub open spec fn spec_parse_switch_with_state(s: Seq<u8>, i0: int) -> Option<
    (SwitchWithStateView, int),
> {
    let i = spec_skip_ws(s, i0);
    match spec_expect(s, i, spec_bytes_of("switch")) {
        Option::None => None,
        Option::Some(j) => {
            match spec_expect(s, spec_skip_ws(s, j), spec_bytes_of("(")) {
                Option::None => None,
                Option::Some(j2) => match spec_parse_ident(s, spec_skip_ws(s, j2)) {
                    Option::None => None,
                    Option::Some((name, j3)) => {
                        match spec_expect(s, spec_skip_ws(s, j3), spec_bytes_of(",")) {
                            Option::None => None,
                            Option::Some(j4) => match spec_parse_state(s, spec_skip_ws(s, j4)) {
                                Option::None => None,
                                Option::Some((st, j5)) => {
                                    match spec_expect(s, spec_skip_ws(s, j5), spec_bytes_of(")")) {
                                        Option::None => None,
                                        Option::Some(j6) => Some(
                                            (
                                                SwitchWithStateView {
                                                    switch_name: name,
                                                    state: st,
                                                },
                                                j6,
                                            ),
                                        ),
                                    }
                                },
                            },
                        }
                    },
                },
            }
        },
    }
}

/// One definition at `i`: a section definition when the input starts
/// with `S` and a digit, else a switch back-to-back link.
#[verifier::opaque]
pub open spec fn spec_parse_def(s: Seq<u8>, i: int) -> Option<(TrackDefinitionView, int)> {
    if 0 <= i && i + 1 < s.len() && s[i] == 83 && is_digit(s[i + 1]) {
        match spec_parse_int(s, i + 1) {
            Option::None => None,
            Option::Some((sid, j)) => {
                match spec_expect(s, spec_skip_ws(s, j), spec_bytes_of(":")) {
                    Option::None => None,
                    Option::Some(j2) => {
                        match spec_expect(s, spec_skip_ws(s, j2), spec_bytes_of("->")) {
                            Option::None => None,
                            Option::Some(j3) => match spec_parse_conn(s, j3) {
                                Option::None => None,
                                Option::Some((fwd, j4)) => {
                                    match spec_expect(s, spec_skip_ws(s, j4), spec_bytes_of("|")) {
                                        Option::None => None,
                                        Option::Some(j5) => {
                                            match spec_expect(
                                                s,
                                                spec_skip_ws(s, j5),
                                                spec_bytes_of("<-"),
                                            ) {
                                                Option::None => None,
                                                Option::Some(j6) => match spec_parse_conn(s, j6) {
                                                    Option::None => None,
                                                    Option::Some((bwd, j7)) => Some(
                                                        (
                                                            TrackDefinitionView::Section(
                                                                SectionDefView {
                                                                    section_id: sid as int,
                                                                    forward: fwd,
                                                                    backward: bwd,
                                                                },
                                                            ),
                                                            j7,
                                                        ),
                                                    ),
                                                },
                                            }
                                        },
                                    }
                                },
                            },
                        }
                    },
                }
            },
        }
    } else {
        match spec_parse_switch_with_state(s, i) {
            Option::None => None,
            Option::Some((from, j)) => {
                match spec_expect(s, spec_skip_ws(s, j), spec_bytes_of("->")) {
                    Option::None => None,
                    Option::Some(j2) => match spec_parse_switch_with_state(s, j2) {
                        Option::None => None,
                        Option::Some((to, j3)) => Some(
                            (
                                TrackDefinitionView::Switch(
                                    SwitchConnectionDefView { from, to },
                                ),
                                j3,
                            ),
                        ),
                    },
                }
            },
        }
    }
}

/// The whole file from `i`: definitions separated by whitespace and
/// comments, running to the end of the input.
#[verifier::rlimit(100)]
pub open spec fn spec_parse_defs(s: Seq<u8>, i: int) -> Option<Seq<TrackDefinitionView>>
    decreases s.len() - i,
{
    if i < 0 {
        None
    } else {
        let j = spec_skip_ws(s, i);
        if j < i {
            None
        } else if j >= s.len() {
            Some(Seq::empty())
        } else {
            match spec_parse_def(s, j) {
                Option::None => None,
                Option::Some((d, k)) => {
                    if k <= j || k > s.len() {
                        None
                    } else {
                        match spec_parse_defs(s, k) {
                            Option::None => None,
                            Option::Some(rest) => Some(seq![d] + rest),
                        }
                    }
                },
            }
        }
    }
}

/// The definitions of a track description, when the whole input parses.
pub open spec fn spec_parse_ttl(s: Seq<u8>) -> Option<Seq<TrackDefinitionView>> {
    spec_parse_defs(s, 0)
}

/// Skip whitespace and comments.
fn skip_ws(s: &[u8], i: usize) -> (r: usize)
    requires
        i <= s@.len(),
    ensures
        r == spec_skip_ws(s@, i as int),
        i <= r <= s@.len(),
{
    let n = s.len();
    let mut j = i;
    let mut in_comment = false;
    loop
        invariant
            n == s@.len(),
            i <= j <= n,
            spec_skip_ws2(s@, i as int, false) == spec_skip_ws2(s@, j as int, in_comment),
        decreases n - j,
    {
        if j >= n {
            return j;
        }
        let b = s[j];
        if in_comment {
            if b == 10 {
                in_comment = false;
            }
            j = j + 1;
        } else if b == 32 || b == 9 || b == 10 || b == 13 {
            j = j + 1;
        } else if b == 35 {
            in_comment = true;
            j = j + 1;
        } else {
            return j;
        }
    }
}

/// Match a literal token.
fn expect(s: &[u8], i: usize, tok: &[u8]) -> (r: Option<usize>)
    requires
        i <= s@.len(),
    ensures
        match r {
            Some(j) => spec_expect(s@, i as int, tok@) == Some(j as int) && i <= j <= s@.len(),
            None => spec_expect(s@, i as int, tok@) is None,
        },
{
    let m = tok.len();
    let total = s.len();
    if total - i < m {
        return None;
    }
    let mut k: usize = 0;
    while k < m
        invariant
            m == tok@.len(),
            total == s@.len(),
            i + m <= total,
            k <= m,
            forall|a: int| 0 <= a < k ==> s@[i + a] == tok@[a],
        decreases m - k,
    {
        if s[i + k] != tok[k] {
            proof {
                if s@.subrange(i as int, i + m) == tok@ {
                    assert(s@.subrange(i as int, i + m)[k as int] == tok@[k as int]);
                }
            }
            return None;
        }
        k = k + 1;
    }
    proof {
        assert(s@.subrange(i as int, i + m) =~= tok@);
    }
    Some(i + m)
}

/// Parse a decimal number of at most `u32::MAX`.
fn parse_int(s: &[u8], i: usize) -> (r: Option<(u32, usize)>)
    requires
        i <= s@.len(),
    ensures
        match r {
            Some((v, j)) => spec_parse_int(s@, i as int) == Some((v, j as int)) && i <= j
                <= s@.len(),
            None => spec_parse_int(s@, i as int) is None,
        },
{
    let n = s.len();
    if i >= n || !(48 <= s[i] && s[i] <= 57) {
        return None;
    }
    let mut acc: u32 = 0;
    let mut j = i;
    loop
        invariant
            n == s@.len(),
            i <= j <= n,
            spec_parse_int(s@, i as int) == spec_int_loop(s@, j as int, acc as int),
        decreases n - j,
    {
        if j >= n || !(48 <= s[j] && s[j] <= 57) {
            return Some((acc, j));
        }
        let d = (s[j] - 48) as u64;
        let acc2 = acc as u64 * 10 + d;
        if acc2 > u32::MAX as u64 {
            return None;
        }
        acc = acc2 as u32;
        j = j + 1;
    }
}

/// Parse an identifier.
fn parse_ident(s: &[u8], i: usize) -> (r: Option<(Vec<u8>, usize)>)
    requires
        i <= s@.len(),
    ensures
        match r {
            Some((name, j)) => spec_parse_ident(s@, i as int) == Some((name@, j as int)) && i <= j
                <= s@.len(),
            None => spec_parse_ident(s@, i as int) is None,
        },
{
    let n = s.len();
    if i >= n {
        return None;
    }
    let b0 = s[i];
    if !((65 <= b0 && b0 <= 90) || (97 <= b0 && b0 <= 122) || b0 == 95) {
        return None;
    }
    let mut j = i;
    while j < n && ((65 <= s[j] && s[j] <= 90) || (97 <= s[j] && s[j] <= 122) || s[j] == 95 || (48
        <= s[j] && s[j] <= 57))
        invariant
            n == s@.len(),
            i <= j <= n,
            spec_ident_end(s@, i as int) == spec_ident_end(s@, j as int),
            forall|a: int| i <= a < j ==> is_ident_char(s@[a]),
        decreases n - j,
    {
        j = j + 1;
    }
    proof {
        assert(spec_ident_end(s@, j as int) == j as int);
    }
    let name = vstd::slice::slice_to_vec(&s[i..j]);
    Some((name, j))
}

/// Parse a `left` or `right` keyword.
fn parse_state(s: &[u8], i: usize) -> (r: Option<(SwitchState, usize)>)
    requires
        i <= s@.len(),
    ensures
        match r {
            Some((st, j)) => spec_parse_state(s@, i as int) == Some((st, j as int)) && i <= j
                <= s@.len(),
            None => spec_parse_state(s@, i as int) is None,
        },
{
    match expect(s, i, "left".as_bytes()) {
        Some(j) => Some((SwitchState::Left, j)),
        None => match expect(s, i, "right".as_bytes()) {
            Some(j) => Some((SwitchState::Right, j)),
            None => None,
        },
    }
}

/// Parse a connection expression.
fn parse_conn(s: &[u8], i0: usize) -> (r: Option<(ConnectionExpr, usize)>)
    requires
        i0 <= s@.len(),
    ensures
        match r {
            Some((c, j)) => spec_parse_conn(s@, i0 as int) == Some((c@, j as int)) && i0 <= j
                <= s@.len(),
            None => spec_parse_conn(s@, i0 as int) is None,
        },
{
    proof {
        reveal(spec_parse_conn);
    }
    let i = skip_ws(s, i0);
    match expect(s, i, "none".as_bytes()) {
        Some(j) => {
            return Some((ConnectionExpr::Dead, j));
        },
        None => {},
    }
    match expect(s, i, "direct".as_bytes()) {
        Some(j) => {
            let j2 = match expect(s, skip_ws(s, j), "(".as_bytes()) {
                Some(j2) => j2,
                None => {
                    return None;
                },
            };
            let j3 = match expect(s, skip_ws(s, j2), "S".as_bytes()) {
                Some(j3) => j3,
                None => {
                    return None;
                },
            };
            let (v, j4) = match parse_int(s, j3) {
                Some(p) => p,
                None => {
                    return None;
                },
            };
            let j5 = match expect(s, skip_ws(s, j4), ")".as_bytes()) {
                Some(j5) => j5,
                None => {
                    return None;
                },
            };
            return Some((ConnectionExpr::Direct { to: SectionId::new(v as usize) }, j5));
        },
        None => {},
    }
    match expect(s, i, "switch".as_bytes()) {
        Some(j) => {
            let j2 = match expect(s, skip_ws(s, j), "(".as_bytes()) {
                Some(j2) => j2,
                None => {
                    return None;
                },
            };
            let (name, j3) = match parse_ident(s, skip_ws(s, j2)) {
                Some(p) => p,
                None => {
                    return None;
                },
            };
            let j4 = match expect(s, skip_ws(s, j3), ")".as_bytes()) {
                Some(j4) => j4,
                None => {
                    return None;
                },
            };
            return Some((ConnectionExpr::Switch { switch_name: name }, j4));
        },
        None => {},
    }
    match expect(s, i, "back".as_bytes()) {
        Some(j) => {
            let j2 = match expect(s, skip_ws(s, j), "(".as_bytes()) {
                Some(j2) => j2,
                None => {
                    return None;
                },
            };
            let (name, j3) = match parse_ident(s, skip_ws(s, j2)) {
                Some(p) => p,
                None => {
                    return None;
                },
            };
            let j4 = match expect(s, skip_ws(s, j3), ",".as_bytes()) {
                Some(j4) => j4,
                None => {
                    return None;
                },
            };
            let (st, j5) = match parse_state(s, skip_ws(s, j4)) {
                Some(p) => p,
                None => {
                    return None;
                },
            };
            let j6 = match expect(s, skip_ws(s, j5), ")".as_bytes()) {
                Some(j6) => j6,
                None => {
                    return None;
                },
            };
            return Some(
                (ConnectionExpr::SwitchBack { switch_name: name, required_state: st }, j6),
            );
        },
        None => {},
    }
    None
}

/// Parse a `switch(<ident>, <state>)` occurrence.
fn parse_switch_with_state(s: &[u8], i0: usize) -> (r: Option<(SwitchWithState, usize)>)
    requires
        i0 <= s@.len(),
    ensures
        match r {
            Some((w, j)) => spec_parse_switch_with_state(s@, i0 as int) == Some((w@, j as int))
                && i0 <= j <= s@.len(),
            None => spec_parse_switch_with_state(s@, i0 as int) is None,
        },
{
    proof {
        reveal(spec_parse_switch_with_state);
    }
    let i = skip_ws(s, i0);
    let j = match expect(s, i, "switch".as_bytes()) {
        Some(j) => j,
        None => {
            return None;
        },
    };
    let j2 = match expect(s, skip_ws(s, j), "(".as_bytes()) {
        Some(j2) => j2,
        None => {
            return None;
        },
    };
    let (name, j3) = match parse_ident(s, skip_ws(s, j2)) {
        Some(p) => p,
        None => {
            return None;
        },
    };
    let j4 = match expect(s, skip_ws(s, j3), ",".as_bytes()) {
        Some(j4) => j4,
        None => {
            return None;
        },
    };
    let (st, j5) = match parse_state(s, skip_ws(s, j4)) {
        Some(p) => p,
        None => {
            return None;
        },
    };
    let j6 = match expect(s, skip_ws(s, j5), ")".as_bytes()) {
        Some(j6) => j6,
        None => {
            return None;
        },
    };
    Some((SwitchWithState { switch_name: name, state: st }, j6))
}

/// Parse one definition.
#[verifier::rlimit(100)]
fn parse_def(s: &[u8], i: usize) -> (r: Option<(TrackDefinition, usize)>)
    requires
        i <= s@.len(),
    ensures
        match r {
            Some((d, j)) => spec_parse_def(s@, i as int) == Some((d@, j as int)) && i <= j
                <= s@.len(),
            None => spec_parse_def(s@, i as int) is None,
        },
{
    proof {
        reveal(spec_parse_def);
    }
    let n = s.len();
    if i < n && i + 1 < n && s[i] == 83 && (48 <= s[i + 1] && s[i + 1] <= 57) {
        let (sid, j) = match parse_int(s, i + 1) {
            Some(p) => p,
            None => {
                return None;
            },
        };
        let j2 = match expect(s, skip_ws(s, j), ":".as_bytes()) {
            Some(j2) => j2,
            None => {
                return None;
            },
        };
        let j3 = match expect(s, skip_ws(s, j2), "->".as_bytes()) {
            Some(j3) => j3,
            None => {
                return None;
            },
        };
        let (fwd, j4) = match parse_conn(s, j3) {
            Some(p) => p,
            None => {
                return None;
            },
        };
        let j5 = match expect(s, skip_ws(s, j4), "|".as_bytes()) {
            Some(j5) => j5,
            None => {
                return None;
            },
        };
        let j6 = match expect(s, skip_ws(s, j5), "<-".as_bytes()) {
            Some(j6) => j6,
            None => {
                return None;
            },
        };
        let (bwd, j7) = match parse_conn(s, j6) {
            Some(p) => p,
            None => {
                return None;
            },
        };
        Some(
            (
                TrackDefinition::Section(
                    SectionDef {
                        section_id: SectionId::new(sid as usize),
                        forward: fwd,
                        backward: bwd,
                    },
                ),
                j7,
            ),
        )
    } else {
        let (from, j) = match parse_switch_with_state(s, i) {
            Some(p) => p,
            None => {
                return None;
            },
        };
        let j2 = match expect(s, skip_ws(s, j), "->".as_bytes()) {
            Some(j2) => j2,
            None => {
                return None;
            },
        };
        let (to, j3) = match parse_switch_with_state(s, j2) {
            Some(p) => p,
            None => {
                return None;
            },
        };
        Some((TrackDefinition::Switch(SwitchConnection { from, to }), j3))
    }
}

/// Parse a whole track description into its definitions, in file order.
#[verifier::rlimit(100)]
pub fn parser(input: &str) -> (r: Result<Vec<TrackDefinition>, ParseError>)
    ensures
        match r {
            Ok(defs) => spec_parse_ttl(input.spec_bytes()) == Some(def_views(defs@)),
            Err(_) => spec_parse_ttl(input.spec_bytes()) is None,
        },
{
    let s = input.as_bytes();
    let n = s.len();
    let mut out: Vec<TrackDefinition> = Vec::new();
    let mut i: usize = 0;
    loop
        invariant
            n == s@.len(),
            s@ == input.spec_bytes(),
            i <= n,
            spec_parse_defs(s@, 0) == (match spec_parse_defs(s@, i as int) {
                Option::None => Option::<Seq<TrackDefinitionView>>::None,
                Option::Some(rest) => Option::Some(def_views(out@) + rest),
            }),
        decreases n - i,
    {
        let j = skip_ws(s, i);
        if j >= n {
            proof {
                assert(def_views(out@) + Seq::<TrackDefinitionView>::empty() =~= def_views(out@));
            }
            return Ok(out);
        }
        let (d, k) = match parse_def(s, j) {
            Some(p) => p,
            None => {
                return Err(ParseError { position: j });
            },
        };
        if k <= j {
            return Err(ParseError { position: j });
        }
        let ghost pre = def_views(out@);
        let ghost dv = d@;
        out.push(d);
        proof {
            assert(def_views(out@) =~= pre.push(dv));
            if spec_parse_defs(s@, k as int) is Some {
                let rest = spec_parse_defs(s@, k as int)->Some_0;
                assert((pre + (seq![dv] + rest)) =~= (def_views(out@) + rest));
            }
        }
        i = k;
    }
}

} // verus!
