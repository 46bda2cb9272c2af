use vstd::prelude::*;

use crate::movie::{Frame, Movie, MovieView};
use crate::pad::{Axis, Button, PORTS, Pad, centred, neutral_pad};
use crate::text::{
    decimal, hex_fixed, int_text, push_decimal, push_hex, push_int, push_str, pieces_from, before_first, before_first_of, chars_eq_ignore_case, chars_of, digits_value, eq_ignore_case,
    is_whitespace, is_ws, lines, lines_of, parse_integer, parse_natural, parse_signed,
    parse_unsigned, pieces, pieces_of, slice_chars, string_of, trim, trim_of, views, words,
    words_of, words_from,
};

verus! {

/// The seed of a script that does not name one.
pub const DEFAULT_SEED: u32 = 1;

/// A script line that cannot be read, with its one-based line number.
#[derive(Debug, PartialEq, Eq)]
pub struct ScriptError {
    pub line: usize,
    pub kind: ErrorKind,
}

/// What is wrong with a script line.
#[derive(Debug, PartialEq, Eq)]
pub enum ErrorKind {
    BadNumber(String),
    BadPort(String),
    PortNotDeclared(u8),
    DuplicatePort(u8),
    UnknownToken(String),
    MissingValue(&'static str),
    BadAxis(String),
    ZeroRepeat,
    DirectiveAfterFrames(&'static str),
    EmptyClause,
}

pub enum ErrorKindView {
    BadNumber(Seq<char>),
    BadPort(Seq<char>),
    PortNotDeclared(u8),
    DuplicatePort(u8),
    UnknownToken(Seq<char>),
    MissingValue(Seq<char>),
    BadAxis(Seq<char>),
    ZeroRepeat,
    DirectiveAfterFrames(Seq<char>),
    EmptyClause,
}

impl View for ErrorKind {
    type V = ErrorKindView;

    open spec fn view(&self) -> ErrorKindView {
        match self {
            ErrorKind::BadNumber(t) => ErrorKindView::BadNumber(t@),
            ErrorKind::BadPort(t) => ErrorKindView::BadPort(t@),
            ErrorKind::PortNotDeclared(p) => ErrorKindView::PortNotDeclared(*p),
            ErrorKind::DuplicatePort(p) => ErrorKindView::DuplicatePort(*p),
            ErrorKind::UnknownToken(t) => ErrorKindView::UnknownToken(t@),
            ErrorKind::MissingValue(t) => ErrorKindView::MissingValue(t@),
            ErrorKind::BadAxis(t) => ErrorKindView::BadAxis(t@),
            ErrorKind::ZeroRepeat => ErrorKindView::ZeroRepeat,
            ErrorKind::DirectiveAfterFrames(t) => ErrorKindView::DirectiveAfterFrames(t@),
            ErrorKind::EmptyClause => ErrorKindView::EmptyClause,
        }
    }
}

pub struct ScriptErrorView {
    pub line: usize,
    pub kind: ErrorKindView,
}

impl View for ScriptError {
    type V = ScriptErrorView;

    open spec fn view(&self) -> ScriptErrorView {
        ScriptErrorView { line: self.line, kind: self.kind@ }
    }
}

/// The text that says what is wrong, without the line number.
pub open spec fn error_kind_text(k: ErrorKindView) -> Seq<char> {
    match k {
        ErrorKindView::BadNumber(t) => "'"@ + t + "' is not a valid number"@,
        ErrorKindView::BadPort(t) => "'"@ + t + "' is not a port, expected p1 to p"@ + decimal(PORTS as nat),
        ErrorKindView::PortNotDeclared(p) => "p"@ + decimal(p as nat) + " is used but not listed in 'ports'"@,
        ErrorKindView::DuplicatePort(p) => "p"@ + decimal(p as nat) + " appears twice"@,
        ErrorKindView::UnknownToken(t) => "unknown input '"@ + t + "'"@,
        ErrorKindView::MissingValue(w) => "'"@ + w + "' needs a value"@,
        ErrorKindView::BadAxis(t) => "'"@ + t + "' is not an axis, expected X,Y in -128..=127"@,
        ErrorKindView::ZeroRepeat => "repeat count must be at least 1"@,
        ErrorKindView::DirectiveAfterFrames(n) => "'"@ + n + "' must come before the first frame"@,
        ErrorKindView::EmptyClause => "port clause has no port"@,
    }
}

/// The message of a script error: `line N: ` and what is wrong.
pub open spec fn script_error_text(e: ScriptErrorView) -> Seq<char> {
    "line "@ + decimal(e.line as nat) + ": "@ + error_kind_text(e.kind)
}

fn push_quoted(out: &mut String, t: &str, tail: &str)
    ensures
        final(out)@ == old(out)@ + ("'"@ + t@ + tail@),
{
    push_str(out, "'");
    push_str(out, t);
    push_str(out, tail);
    assert(out@ =~= old(out)@ + ("'"@ + t@ + tail@));
}

impl ErrorKind {
    /// What is wrong, in words.
    pub fn message(&self) -> (s: String)
        ensures
            s@ == error_kind_text(self@),
    {
        let mut s = String::new();
        match self {
            ErrorKind::BadNumber(t) => push_quoted(&mut s, t.as_str(), "' is not a valid number"),
            ErrorKind::BadPort(t) => {
                push_quoted(&mut s, t.as_str(), "' is not a port, expected p1 to p");
                push_decimal(&mut s, PORTS as u64);
            },
            ErrorKind::PortNotDeclared(p) => {
                push_str(&mut s, "p");
                push_decimal(&mut s, *p as u64);
                push_str(&mut s, " is used but not listed in 'ports'");
            },
            ErrorKind::DuplicatePort(p) => {
                push_str(&mut s, "p");
                push_decimal(&mut s, *p as u64);
                push_str(&mut s, " appears twice");
            },
            ErrorKind::UnknownToken(t) => {
                push_str(&mut s, "unknown input '");
                push_str(&mut s, t.as_str());
                push_str(&mut s, "'");
            },
            ErrorKind::MissingValue(w) => push_quoted(&mut s, w, "' needs a value"),
            ErrorKind::BadAxis(t) => push_quoted(&mut s, t.as_str(), "' is not an axis, expected X,Y in -128..=127"),
            ErrorKind::ZeroRepeat => push_str(&mut s, "repeat count must be at least 1"),
            ErrorKind::DirectiveAfterFrames(n) => push_quoted(&mut s, n, "' must come before the first frame"),
            ErrorKind::EmptyClause => push_str(&mut s, "port clause has no port"),
        }
        assert(s@ =~= error_kind_text(self@));
        s
    }
}

impl ScriptError {
    /// The error's message: `line N: ` and what is wrong.
    pub fn message(&self) -> (s: String)
        ensures
            s@ == script_error_text(self@),
    {
        let mut s = String::new();
        push_str(&mut s, "line ");
        push_decimal(&mut s, self.line as u64);
        push_str(&mut s, ": ");
        let k = self.kind.message();
        push_str(&mut s, k.as_str());
        assert(s@ =~= script_error_text(self@));
        s
    }
}

pub open spec fn kw_seed() -> Seq<char> { seq!['s', 'e', 'e', 'd'] }
pub open spec fn kw_ports() -> Seq<char> { seq!['p', 'o', 'r', 't', 's'] }
pub open spec fn kw_wait() -> Seq<char> { seq!['w', 'a', 'i', 't'] }
pub open spec fn kw_stick() -> Seq<char> { seq!['s', 't', 'i', 'c', 'k'] }
pub open spec fn kw_cstick() -> Seq<char> { seq!['c', 's', 't', 'i', 'c', 'k'] }
pub open spec fn kw_lt() -> Seq<char> { seq!['l', 't'] }
pub open spec fn kw_rt() -> Seq<char> { seq!['r', 't'] }

/// The port a clause names: `p` or `P` and a number from 1 to 4.
pub open spec fn clause_port(text: Seq<char>) -> Option<u8> {
    if text.len() > 0 && (text[0] == 'p' || text[0] == 'P') {
        match parse_natural(text.drop_first(), 10, 255) {
            Some(n) => if 1 <= n && n <= PORTS { Some(n as u8) } else { None },
            None => None,
        }
    } else {
        None
    }
}

/// The port a `ports` directive lists: a bare number from 1 to 4.
pub open spec fn listed_port(text: Seq<char>) -> Option<u8> {
    match parse_natural(text, 10, 255) {
        Some(n) => if 1 <= n && n <= PORTS { Some(n as u8) } else { None },
        None => None,
    }
}

/// A 32-bit number in decimal, or in hexadecimal after `0x` or `0X`.
pub open spec fn script_u32(text: Seq<char>) -> Option<u32> {
    let value = if text.len() >= 2 && text[0] == '0' && (text[1] == 'x' || text[1] == 'X') {
        parse_natural(text.skip(2), 16, u32::MAX as nat)
    } else {
        parse_natural(text, 10, u32::MAX as nat)
    };
    match value {
        Some(v) => Some(v as u32),
        None => None,
    }
}

/// A stick position `X,Y`, split at the first comma.
pub open spec fn script_axis(text: Seq<char>) -> Option<Axis> {
    let parts = pieces(text, ',');
    if parts.len() < 2 {
        None
    } else {
        let x = parts[0];
        let y = text.skip(x.len() + 1 as int);
        match (parse_integer(x, 128, 127), parse_integer(y, 128, 127)) {
            (Some(a), Some(b)) => Some(Axis { x: a as i8, y: b as i8 }),
            _ => None,
        }
    }
}

/// The inputs of a clause from word `i` on, applied to `pad`.
pub open spec fn apply_inputs(pad: Pad, toks: Seq<Seq<char>>, i: int) -> Result<Pad, ErrorKindView>
    decreases toks.len() - i,
{
    if i < 0 || i >= toks.len() {
        Ok(pad)
    } else {
        let t = toks[i];
        if eq_ignore_case(t, kw_stick()) || eq_ignore_case(t, kw_cstick()) {
            let name = if eq_ignore_case(t, kw_stick()) { kw_stick() } else { kw_cstick() };
            if i + 1 >= toks.len() {
                Err(ErrorKindView::MissingValue(name))
            } else {
                match script_axis(toks[i + 1]) {
                    Some(a) => apply_inputs(
                        if eq_ignore_case(t, kw_stick()) { Pad { stick: a, ..pad } } else { Pad { cstick: a, ..pad } },
                        toks,
                        i + 2,
                    ),
                    None => Err(ErrorKindView::BadAxis(toks[i + 1])),
                }
            }
        } else if eq_ignore_case(t, kw_lt()) || eq_ignore_case(t, kw_rt()) {
            let name = if eq_ignore_case(t, kw_lt()) { kw_lt() } else { kw_rt() };
            if i + 1 >= toks.len() {
                Err(ErrorKindView::MissingValue(name))
            } else {
                match parse_natural(toks[i + 1], 10, 255) {
                    Some(v) => apply_inputs(
                        if eq_ignore_case(t, kw_lt()) {
                            Pad { left_trigger: v as u8, ..pad }
                        } else {
                            Pad { right_trigger: v as u8, ..pad }
                        },
                        toks,
                        i + 2,
                    ),
                    None => Err(ErrorKindView::BadNumber(toks[i + 1])),
                }
            }
        } else {
            match Button::spec_from_name(t) {
                Some(b) => apply_inputs(Pad { buttons: pad.buttons | b.spec_mask(), ..pad }, toks, i + 1),
                None => Err(ErrorKindView::UnknownToken(t)),
            }
        }
    }
}

/// `f` with the pad of port index `idx` replaced.
pub open spec fn frame_with(f: Frame, idx: int, pad: Pad) -> Frame {
    [
        if idx == 0 { pad } else { f[0] },
        if idx == 1 { pad } else { f[1] },
        if idx == 2 { pad } else { f[2] },
        if idx == 3 { pad } else { f[3] },
    ]
}

/// The state a clause is read in: which ports are declared, the frame built
/// so far and which ports a clause of this line already named.
pub struct ClauseState {
    pub frame: Frame,
    pub used: Seq<bool>,
}

/// One `pN inputs...` clause applied to `st`.
pub open spec fn apply_clause(clause: Seq<char>, connected: Seq<bool>, st: ClauseState) -> Result<ClauseState, ErrorKindView> {
    let toks = words(clause);
    if toks.len() == 0 {
        Err(ErrorKindView::EmptyClause)
    } else {
        match clause_port(toks[0]) {
            None => Err(ErrorKindView::BadPort(toks[0])),
            Some(port) => {
                let idx = port - 1;
                if !connected[idx] {
                    Err(ErrorKindView::PortNotDeclared(port))
                } else if st.used[idx] {
                    Err(ErrorKindView::DuplicatePort(port))
                } else {
                    match apply_inputs(st.frame[idx], toks, 1) {
                        Ok(pad) => Ok(ClauseState {
                            frame: frame_with(st.frame, idx as int, pad),
                            used: st.used.update(idx, true),
                        }),
                        Err(k) => Err(k),
                    }
                }
            }
        }
    }
}

/// The clauses from `i` on, applied in order.
pub open spec fn apply_clauses(cls: Seq<Seq<char>>, i: int, connected: Seq<bool>, st: ClauseState) -> Result<ClauseState, ErrorKindView>
    decreases cls.len() - i,
{
    if i < 0 || i >= cls.len() {
        Ok(st)
    } else {
        match apply_clause(cls[i], connected, st) {
            Ok(next) => apply_clauses(cls, i + 1, connected, next),
            Err(k) => Err(k),
        }
    }
}

/// The position of the last white-space character among the first `n` of `s`.
pub open spec fn last_ws_before(s: Seq<char>, n: int) -> Option<int>
    decreases n,
{
    if n <= 0 {
        None
    } else if is_ws(s[n - 1]) {
        Some(n - 1)
    } else {
        last_ws_before(s, n - 1)
    }
}

/// Whether `s` is one or more ASCII digits.
pub open spec fn all_digits(s: Seq<char>) -> bool {
    s.len() > 0 && forall|i: int| 0 <= i < s.len() ==> '0' <= #[trigger] s[i] && s[i] <= '9'
}

/// A frame line split into its clauses and how many frames it holds: a last
/// word `xN` or `XN` of digits repeats the frame `N` times.
pub open spec fn split_repeat(line: Seq<char>) -> Result<(Seq<char>, nat), ErrorKindView> {
    match last_ws_before(line, line.len() as int) {
        None => Ok((line, 1)),
        Some(p) => {
            let last = line.skip(p + 1);
            if last.len() > 0 && (last[0] == 'x' || last[0] == 'X') && all_digits(last.drop_first()) {
                match digits_value(last.drop_first(), 10) {
                    Some(n) => if n == 0 {
                        Err(ErrorKindView::ZeroRepeat)
                    } else if n > usize::MAX {
                        Err(ErrorKindView::BadNumber(last))
                    } else {
                        Ok((line.take(p), n))
                    },
                    None => Err(ErrorKindView::BadNumber(last)),
                }
            } else {
                Ok((line, 1))
            }
        },
    }
}

/// What has been read of a script so far.
pub struct ParseState {
    pub seed: u32,
    pub connected: Seq<bool>,
    pub frames: Seq<Frame>,
}

/// The frame with nothing held, each port plugged in as declared.
pub open spec fn neutral_frame(connected: Seq<bool>) -> Frame {
    [neutral_pad(connected[0]), neutral_pad(connected[1]), neutral_pad(connected[2]), neutral_pad(connected[3])]
}

/// `n` copies of `f`.
pub open spec fn copies(f: Frame, n: nat) -> Seq<Frame> {
    Seq::new(n, |i: int| f)
}

/// The ports a `ports` directive lists, from word `i` on.
pub open spec fn listed_ports(toks: Seq<Seq<char>>, i: int, connected: Seq<bool>) -> Result<Seq<bool>, ErrorKindView>
    decreases toks.len() - i,
{
    if i < 0 || i >= toks.len() {
        Ok(connected)
    } else {
        match listed_port(toks[i]) {
            Some(p) => listed_ports(toks, i + 1, connected.update(p - 1, true)),
            None => Err(ErrorKindView::BadPort(toks[i])),
        }
    }
}

/// Ports 1 to 4 all unplugged.
pub open spec fn no_ports() -> Seq<bool> {
    seq![false, false, false, false]
}

/// The error of line number `line`.
pub open spec fn at_line(line: int, kind: ErrorKindView) -> ScriptErrorView {
    ScriptErrorView { line: line as usize, kind }
}

/// One line, numbered `number`, read in state `st`. Comments after `#`,
/// blank lines and surrounding white space are ignored; `seed` and `ports` must
/// come before the first frame; `wait N` adds `N` neutral frames; anything else
/// is a frame of `|`-separated clauses with an optional repeat count.
pub open spec fn read_line(raw: Seq<char>, number: int, st: ParseState) -> Result<ParseState, ScriptErrorView> {
    let line = trim(before_first(raw, '#'));
    let toks = words(line);
    if toks.len() == 0 {
        Ok(st)
    } else {
        let first = toks[0];
        let rest = trim(line.skip(first.len() as int));
        if (eq_ignore_case(first, kw_seed()) || eq_ignore_case(first, kw_ports())) && st.frames.len() > 0 {
            Err(at_line(
                number,
                ErrorKindView::DirectiveAfterFrames(if eq_ignore_case(first, kw_seed()) { kw_seed() } else { kw_ports() }),
            ))
        } else if eq_ignore_case(first, kw_seed()) {
            match script_u32(rest) {
                Some(v) => Ok(ParseState { seed: v, ..st }),
                None => Err(at_line(number, ErrorKindView::BadNumber(rest))),
            }
        } else if eq_ignore_case(first, kw_ports()) {
            match listed_ports(words(rest), 0, no_ports()) {
                Ok(c) => Ok(ParseState { connected: c, ..st }),
                Err(k) => Err(at_line(number, k)),
            }
        } else if eq_ignore_case(first, kw_wait()) {
            match script_u32(rest) {
                Some(n) => Ok(ParseState { frames: st.frames + copies(neutral_frame(st.connected), n as nat), ..st }),
                None => Err(at_line(number, ErrorKindView::BadNumber(rest))),
            }
        } else {
            match split_repeat(line) {
                Err(k) => Err(at_line(number, k)),
                Ok((body, count)) => {
                    let start = ClauseState { frame: neutral_frame(st.connected), used: no_ports() };
                    match apply_clauses(pieces(body, '|'), 0, st.connected, start) {
                        Ok(done) => Ok(ParseState { frames: st.frames + copies(done.frame, count), ..st }),
                        Err(k) => Err(at_line(number, k)),
                    }
                },
            }
        }
    }
}

/// The lines from `i` on, read in order; line `i` is numbered `i + 1`.
pub open spec fn read_lines(ls: Seq<Seq<char>>, i: int, st: ParseState) -> Result<ParseState, ScriptErrorView>
    decreases ls.len() - i,
{
    if i < 0 || i >= ls.len() {
        Ok(st)
    } else {
        match read_line(ls[i], i + 1, st) {
            Ok(next) => read_lines(ls, i + 1, next),
            Err(e) => Err(e),
        }
    }
}

/// The state before the first line: the default seed, only port 1 plugged in.
pub open spec fn initial_state() -> ParseState {
    ParseState { seed: DEFAULT_SEED, connected: seq![true, false, false, false], frames: seq![] }
}

/// The movie a script describes, or the first line that cannot be read.
pub open spec fn script_movie(text: Seq<char>) -> Result<MovieView, ScriptErrorView> {
    match read_lines(lines(text), 0, initial_state()) {
        Ok(st) => Ok(MovieView { seed: st.seed, frames: st.frames }),
        Err(e) => Err(e),
    }
}

fn keyword(tok: &[char], kw: &str) -> (r: bool)
    ensures
        r == eq_ignore_case(tok@, kw@),
{
    let k = chars_of(kw);
    chars_eq_ignore_case(tok, k.as_slice())
}

fn text_of(v: &[char]) -> (s: String)
    ensures
        s@ == v@,
{
    string_of(v)
}

fn clause_port_of(text: &[char]) -> (r: Option<u8>)
    ensures
        r == clause_port(text@),
{
    if text.len() > 0 && (text[0] == 'p' || text[0] == 'P') {
        let digits = slice_chars(text, 1, text.len());
        assert(digits@ =~= text@.drop_first());
        match parse_unsigned(digits.as_slice(), 10, 255) {
            Some(n) => if 1 <= n && n <= 4 { Some(n as u8) } else { None },
            None => None,
        }
    } else {
        None
    }
}

fn listed_port_of(text: &[char]) -> (r: Option<u8>)
    ensures
        r == listed_port(text@),
{
    match parse_unsigned(text, 10, 255) {
        Some(n) => if 1 <= n && n <= 4 { Some(n as u8) } else { None },
        None => None,
    }
}

fn script_u32_of(text: &[char]) -> (r: Option<u32>)
    ensures
        r == script_u32(text@),
{
    let value = if text.len() >= 2 && text[0] == '0' && (text[1] == 'x' || text[1] == 'X') {
        let digits = slice_chars(text, 2, text.len());
        assert(digits@ =~= text@.skip(2));
        parse_unsigned(digits.as_slice(), 16, 0xFFFF_FFFF)
    } else {
        parse_unsigned(text, 10, 0xFFFF_FFFF)
    };
    match value {
        Some(v) => Some(v as u32),
        None => None,
    }
}

fn script_axis_of(text: &[char]) -> (r: Option<Axis>)
    ensures
        r == script_axis(text@),
{
    let parts = pieces_of(text, ',');
    if parts.len() < 2 {
        return None;
    }
    assert(views(parts@)[0] == parts@[0]@);
    assert(views(parts@).len() == parts@.len());
    let n = parts[0].len();
    proof {
        lemma_first_piece_len(text@, ',');
        assert(pieces(text@, ',').len() >= 2);
        assert(pieces(text@, ',')[0] == parts@[0]@);
        assert(n + 1 <= text@.len());
    }
    let len = text.len();
    assert(n < len);
    let y = slice_chars(text, n + 1, len);
    assert(y@ =~= text@.skip(n + 1 as int));
    match (parse_signed(parts[0].as_slice(), 128, 127), parse_signed(y.as_slice(), 128, 127)) {
        (Some(a), Some(b)) => Some(Axis { x: a as i8, y: b as i8 }),
        _ => None,
    }
}

proof fn lemma_pieces_from_len(s: Seq<char>, sep: char, cur: Seq<char>)
    ensures
        pieces_from(s, sep, cur).len() >= 2 ==> pieces_from(s, sep, cur)[0].len() + 1 <= cur.len() + s.len(),
        pieces_from(s, sep, cur).len() >= 1,
    decreases s.len(),
{
    if s.len() > 0 {
        if s[0] == sep {
            crate::text::lemma_pieces_nonempty(s.drop_first(), sep, seq![]);
        } else {
            lemma_pieces_from_len(s.drop_first(), sep, cur.push(s[0]));
        }
    }
}

proof fn lemma_first_piece_len(s: Seq<char>, sep: char)
    ensures
        pieces(s, sep).len() >= 2 ==> pieces(s, sep)[0].len() + 1 <= s.len(),
{
    lemma_pieces_from_len(s, sep, seq![]);
}

fn apply_inputs_of(start: Pad, toks: &Vec<Vec<char>>) -> (r: Result<Pad, ErrorKind>)
    ensures
        match r {
            Ok(p) => apply_inputs(start, views(toks@), 1) == Ok::<Pad, ErrorKindView>(p),
            Err(k) => apply_inputs(start, views(toks@), 1) == Err::<Pad, ErrorKindView>(k@),
        },
{
    let ghost ts = views(toks@);
    let mut pad = start;
    let mut i: usize = 1;
    assert(ts.len() == toks@.len());
    while i < toks.len()
        invariant
            1 <= i,
            ts == views(toks@),
            ts.len() == toks@.len(),
            apply_inputs(pad, ts, i as int) == apply_inputs(start, ts, 1),
        decreases toks@.len() - i,
    {
        let tok = &toks[i];
        assert(ts[i as int] == tok@);
        proof {
            reveal_strlit("stick");
            reveal_strlit("cstick");
            reveal_strlit("lt");
            reveal_strlit("rt");
        }
        let is_stick = keyword(tok.as_slice(), "stick");
        let is_cstick = keyword(tok.as_slice(), "cstick");
        let is_lt = keyword(tok.as_slice(), "lt");
        let is_rt = keyword(tok.as_slice(), "rt");
        assert("stick"@ =~= kw_stick());
        assert("cstick"@ =~= kw_cstick());
        assert("lt"@ =~= kw_lt());
        assert("rt"@ =~= kw_rt());
        if is_stick || is_cstick {
            let name: &'static str = if is_stick { "stick" } else { "cstick" };
            if i + 1 >= toks.len() {
                return Err(ErrorKind::MissingValue(name));
            }
            assert(ts[i + 1] == toks@[i + 1]@);
            match script_axis_of(toks[i + 1].as_slice()) {
                Some(a) => {
                    if is_stick {
                        pad.stick = a;
                    } else {
                        pad.cstick = a;
                    }
                },
                None => return Err(ErrorKind::BadAxis(text_of(toks[i + 1].as_slice()))),
            }
            i += 2;
        } else if is_lt || is_rt {
            let name: &'static str = if is_lt { "lt" } else { "rt" };
            if i + 1 >= toks.len() {
                return Err(ErrorKind::MissingValue(name));
            }
            assert(ts[i + 1] == toks@[i + 1]@);
            match parse_unsigned(toks[i + 1].as_slice(), 10, 255) {
                Some(v) => {
                    if is_lt {
                        pad.left_trigger = v as u8;
                    } else {
                        pad.right_trigger = v as u8;
                    }
                },
                None => return Err(ErrorKind::BadNumber(text_of(toks[i + 1].as_slice()))),
            }
            i += 2;
        } else {
            let name = text_of(tok.as_slice());
            match Button::from_name(name.as_str()) {
                Some(b) => {
                    pad.buttons = pad.buttons | b.mask();
                },
                None => return Err(ErrorKind::UnknownToken(name)),
            }
            i += 1;
        }
    }
    Ok(pad)
}

fn apply_clause_of(
    clause: &[char],
    connected: &[bool; 4],
    frame: &mut Frame,
    used: &mut [bool; 4],
) -> (r: Result<(), ErrorKind>)
    ensures
        match r {
            Ok(()) => apply_clause(clause@, connected@, ClauseState { frame: *old(frame), used: old(used)@ })
                == Ok::<ClauseState, ErrorKindView>(ClauseState { frame: *final(frame), used: final(used)@ }),
            Err(k) => apply_clause(clause@, connected@, ClauseState { frame: *old(frame), used: old(used)@ })
                is Err && apply_clause(clause@, connected@, ClauseState { frame: *old(frame), used: old(used)@ })
                ->Err_0 == k@,
        },
{
    let toks = words_of(clause);
    let ghost ts = views(toks@);
    assert(ts.len() == toks@.len());
    if toks.len() == 0 {
        return Err(ErrorKind::EmptyClause);
    }
    assert(ts[0] == toks@[0]@);
    let port = match clause_port_of(toks[0].as_slice()) {
        Some(p) => p,
        None => return Err(ErrorKind::BadPort(text_of(toks[0].as_slice()))),
    };
    let idx = (port - 1) as usize;
    if !connected[idx] {
        return Err(ErrorKind::PortNotDeclared(port));
    }
    if used[idx] {
        return Err(ErrorKind::DuplicatePort(port));
    }
    used[idx] = true;
    let pad = apply_inputs_of(frame[idx], &toks)?;
    frame[idx] = pad;
    assert(*frame =~= frame_with(*old(frame), idx as int, pad));
    assert(used@ =~= old(used)@.update(idx as int, true));
    Ok(())
}

/// What reading the clauses of a frame line on top of `frame` gives.
pub open spec fn clauses_on(cls: Seq<Seq<char>>, connected: Seq<bool>, frame: Frame) -> Result<ClauseState, ErrorKindView> {
    apply_clauses(cls, 0, connected, ClauseState { frame, used: no_ports() })
}

fn apply_clauses_of(
    cls: &Vec<Vec<char>>,
    connected: &[bool; 4],
    frame: &mut Frame,
) -> (r: Result<(), ErrorKind>)
    ensures
        r is Ok ==> clauses_on(views(cls@), connected@, *old(frame)) is Ok,
        r is Ok ==> clauses_on(views(cls@), connected@, *old(frame))->Ok_0.frame == *final(frame),
        r matches Err(k) ==> clauses_on(views(cls@), connected@, *old(frame)) == Err::<ClauseState, ErrorKindView>(k@),
{
    let ghost cs = views(cls@);
    let ghost start = ClauseState { frame: *frame, used: no_ports() };
    let mut used = [false, false, false, false];
    assert(used@ =~= no_ports());
    let mut i: usize = 0;
    assert(cs.len() == cls@.len());
    while i < cls.len()
        invariant
            i <= cls@.len(),
            cs == views(cls@),
            cs.len() == cls@.len(),
            start == (ClauseState { frame: *old(frame), used: no_ports() }),
            apply_clauses(cs, i as int, connected@, ClauseState { frame: *frame, used: used@ })
                == apply_clauses(cs, 0, connected@, start),
        decreases cls@.len() - i,
    {
        assert(cs[i as int] == cls@[i as int]@);
        let ghost st = ClauseState { frame: *frame, used: used@ };
        match apply_clause_of(cls[i].as_slice(), connected, frame, &mut used) {
            Ok(()) => {},
            Err(k) => {
                assert(apply_clause(cs[i as int], connected@, st) is Err);
                assert(apply_clauses(cs, i as int, connected@, st) == Err::<ClauseState, ErrorKindView>(k@));
                return Err(k);
            },
        }
        i += 1;
    }
    Ok(())
}

fn last_ws_of(s: &[char]) -> (r: Option<usize>)
    ensures
        match r {
            Some(p) => last_ws_before(s@, s@.len() as int) == Some(p as int) && p < s@.len(),
            None => last_ws_before(s@, s@.len() as int) is None,
        },
{
    let mut n = s.len();
    while n > 0
        invariant
            n <= s@.len(),
            last_ws_before(s@, s@.len() as int) == last_ws_before(s@, n as int),
        decreases n,
    {
        if is_whitespace(s[n - 1]) {
            return Some(n - 1);
        }
        n -= 1;
    }
    None
}

fn all_digits_of(s: &[char]) -> (r: bool)
    ensures
        r == all_digits(s@),
{
    if s.len() == 0 {
        return false;
    }
    let mut i: usize = 0;
    while i < s.len()
        invariant
            i <= s@.len(),
            forall|j: int| 0 <= j < i ==> '0' <= #[trigger] s@[j] && s@[j] <= '9',
        decreases s@.len() - i,
    {
        if !('0' <= s[i] && s[i] <= '9') {
            return false;
        }
        i += 1;
    }
    true
}

fn split_repeat_of(line: &[char]) -> (r: Result<(Vec<char>, usize), ErrorKind>)
    ensures
        match r {
            Ok((body, n)) => split_repeat(line@) == Ok::<(Seq<char>, nat), ErrorKindView>((body@, n as nat)),
            Err(k) => split_repeat(line@) == Err::<(Seq<char>, nat), ErrorKindView>(k@),
        },
{
    let whole = slice_chars(line, 0, line.len());
    assert(whole@ =~= line@);
    let p = match last_ws_of(line) {
        None => return Ok((whole, 1)),
        Some(p) => p,
    };
    let last = slice_chars(line, p + 1, line.len());
    assert(last@ =~= line@.skip(p + 1));
    if last.len() > 0 && (last[0] == 'x' || last[0] == 'X') {
        let digits = slice_chars(last.as_slice(), 1, last.len());
        assert(digits@ =~= last@.drop_first());
        if all_digits_of(digits.as_slice()) {
            proof {
                lemma_digits_value_of_digits(digits@);
            }
            assert(digits@.len() > 0 && digits@[0] != '+');
            return match parse_unsigned(digits.as_slice(), 10, usize::MAX as u64) {
                Some(0) => Err(ErrorKind::ZeroRepeat),
                Some(n) => Ok((slice_chars(line, 0, p), n as usize)),
                None => Err(ErrorKind::BadNumber(text_of(last.as_slice()))),
            };
        }
    }
    Ok((whole, 1))
}

proof fn lemma_digits_value_of_digits(s: Seq<char>)
    requires
        forall|i: int| 0 <= i < s.len() ==> '0' <= #[trigger] s[i] && s[i] <= '9',
    ensures
        digits_value(s, 10) is Some,
    decreases s.len(),
{
    if s.len() > 0 {
        assert forall|i: int| 0 <= i < s.drop_last().len() implies '0' <= #[trigger] s.drop_last()[i] && s.drop_last()[i] <= '9' by {
            assert(s.drop_last()[i] == s[i]);
        }
        lemma_digits_value_of_digits(s.drop_last());
        assert('0' <= s[s.len() - 1] <= '9');
    }
}

proof fn lemma_words_from_first_len(s: Seq<char>, cur: Seq<char>)
    ensures
        words_from(s, cur).len() > 0 ==> words_from(s, cur)[0].len() <= cur.len() + s.len(),
    decreases s.len(),
{
    if s.len() > 0 {
        if is_ws(s[0]) {
            lemma_words_from_first_len(s.drop_first(), seq![]);
        } else {
            lemma_words_from_first_len(s.drop_first(), cur.push(s[0]));
        }
    }
}

/// The parse state made of its three parts.
pub open spec fn state_of(seed: u32, connected: Seq<bool>, frames: Seq<Frame>) -> ParseState {
    ParseState { seed, connected, frames }
}

fn neutral_frame_of(connected: &[bool; 4]) -> (f: Frame)
    ensures
        f == neutral_frame(connected@),
{
    [Pad::neutral(connected[0]), Pad::neutral(connected[1]), Pad::neutral(connected[2]), Pad::neutral(connected[3])]
}

fn push_copies(frames: &mut Vec<Frame>, f: Frame, n: usize)
    ensures
        final(frames)@ == old(frames)@ + copies(f, n as nat),
{
    let mut k: usize = 0;
    while k < n
        invariant
            k <= n,
            frames@ == old(frames)@ + copies(f, k as nat),
        decreases n - k,
    {
        frames.push(f);
        k += 1;
        assert(frames@ =~= old(frames)@ + copies(f, k as nat));
    }
    assert(frames@ =~= old(frames)@ + copies(f, n as nat));
}

fn ports_of(toks: &Vec<Vec<char>>) -> (r: Result<[bool; 4], ErrorKind>)
    ensures
        r matches Ok(c) ==> listed_ports(views(toks@), 0, no_ports()) == Ok::<Seq<bool>, ErrorKindView>(c@),
        r matches Err(k) ==> listed_ports(views(toks@), 0, no_ports()) == Err::<Seq<bool>, ErrorKindView>(k@),
{
    let ghost ts = views(toks@);
    let mut c = [false, false, false, false];
    assert(c@ =~= no_ports());
    let mut i: usize = 0;
    assert(ts.len() == toks@.len());
    while i < toks.len()
        invariant
            i <= toks@.len(),
            ts == views(toks@),
            ts.len() == toks@.len(),
            listed_ports(ts, i as int, c@) == listed_ports(ts, 0, no_ports()),
        decreases toks@.len() - i,
    {
        assert(ts[i as int] == toks@[i as int]@);
        match listed_port_of(toks[i].as_slice()) {
            Some(p) => {
                let ghost before = c@;
                c[(p - 1) as usize] = true;
                assert(c@ =~= before.update(p - 1, true));
            },
            None => return Err(ErrorKind::BadPort(text_of(toks[i].as_slice()))),
        }
        i += 1;
    }
    Ok(c)
}

fn read_line_of(
    raw: &[char],
    number: usize,
    seed: &mut u32,
    connected: &mut [bool; 4],
    frames: &mut Vec<Frame>,
) -> (r: Result<(), ScriptError>)
    ensures
        r is Ok ==> read_line(raw@, number as int, state_of(*old(seed), old(connected)@, old(frames)@))
            == Ok::<ParseState, ScriptErrorView>(state_of(*final(seed), final(connected)@, final(frames)@)),
        r matches Err(e) ==> read_line(raw@, number as int, state_of(*old(seed), old(connected)@, old(frames)@))
            == Err::<ParseState, ScriptErrorView>(e@),
{
    let code = before_first_of(raw, '#');
    let line = trim_of(code.as_slice());
    let toks = words_of(line.as_slice());
    let ghost ts = views(toks@);
    assert(ts.len() == toks@.len());
    if toks.len() == 0 {
        return Ok(());
    }
    let first = toks[0].as_slice();
    assert(ts[0] == first@);
    proof {
        lemma_words_from_first_len(line@, seq![]);
    }
    let tail = slice_chars(line.as_slice(), first.len(), line.len());
    assert(tail@ =~= line@.skip(first@.len() as int));
    let rest = trim_of(tail.as_slice());
    proof {
        reveal_strlit("seed");
        reveal_strlit("ports");
        reveal_strlit("wait");
    }
    assert("seed"@ =~= kw_seed());
    assert("ports"@ =~= kw_ports());
    assert("wait"@ =~= kw_wait());
    let is_seed = keyword(first, "seed");
    let is_ports = keyword(first, "ports");
    let is_wait = keyword(first, "wait");
    if (is_seed || is_ports) && frames.len() > 0 {
        let name: &'static str = if is_seed { "seed" } else { "ports" };
        return Err(ScriptError { line: number, kind: ErrorKind::DirectiveAfterFrames(name) });
    }
    if is_seed {
        match script_u32_of(rest.as_slice()) {
            Some(v) => {
                *seed = v;
                return Ok(());
            },
            None => return Err(ScriptError { line: number, kind: ErrorKind::BadNumber(text_of(rest.as_slice())) }),
        }
    }
    if is_ports {
        let rest_words = words_of(rest.as_slice());
        match ports_of(&rest_words) {
            Ok(c) => {
                *connected = c;
                return Ok(());
            },
            Err(k) => return Err(ScriptError { line: number, kind: k }),
        }
    }
    if is_wait {
        match script_u32_of(rest.as_slice()) {
            Some(n) => {
                let f = neutral_frame_of(connected);
                push_copies(frames, f, n as usize);
                return Ok(());
            },
            None => return Err(ScriptError { line: number, kind: ErrorKind::BadNumber(text_of(rest.as_slice())) }),
        }
    }
    match split_repeat_of(line.as_slice()) {
        Err(k) => Err(ScriptError { line: number, kind: k }),
        Ok((body, count)) => {
            let clauses = pieces_of(body.as_slice(), '|');
            let mut frame = neutral_frame_of(connected);
            match apply_clauses_of(&clauses, connected, &mut frame) {
                Ok(()) => {
                    push_copies(frames, frame, count);
                    Ok(())
                },
                Err(k) => Err(ScriptError { line: number, kind: k }),
            }
        },
    }
}

/// Reads a TAS script into a movie, stopping at the first line that cannot
/// be read.
pub fn parse(text: &str) -> (r: Result<Movie, ScriptError>)
    ensures
        r matches Ok(m) ==> script_movie(text@) == Ok::<MovieView, ScriptErrorView>(m@),
        r matches Err(e) ==> script_movie(text@) == Err::<MovieView, ScriptErrorView>(e@),
{
    let chars = chars_of(text);
    let ls = lines_of(chars.as_slice());
    let ghost all = views(ls@);
    assert(all.len() == ls@.len());
    let mut seed: u32 = DEFAULT_SEED;
    let mut connected = [true, false, false, false];
    let mut frames: Vec<Frame> = Vec::new();
    assert(state_of(seed, connected@, frames@) =~= initial_state());
    let mut i: usize = 0;
    while i < ls.len()
        invariant
            i <= ls@.len(),
            all == views(ls@),
            all.len() == ls@.len(),
            all == lines(text@),
            read_lines(all, i as int, state_of(seed, connected@, frames@)) == read_lines(all, 0, initial_state()),
        decreases ls@.len() - i,
    {
        assert(all[i as int] == ls@[i as int]@);
        match read_line_of(ls[i].as_slice(), i + 1, &mut seed, &mut connected, &mut frames) {
            Ok(()) => {},
            Err(e) => return Err(e),
        }
        i += 1;
    }
    Ok(Movie { seed, frames })
}

/// The ports a movie is written with: those plugged in on its first frame, or
/// port 1 alone when it has no frame.
pub open spec fn format_ports(frames: Seq<Frame>) -> Seq<bool> {
    if frames.len() > 0 {
        seq![frames[0][0].connected, frames[0][1].connected, frames[0][2].connected, frames[0][3].connected]
    } else {
        seq![true, false, false, false]
    }
}

/// What a frame holds on the ports in `c`; every other port reads as unplugged
/// and idle.
pub open spec fn held(f: Frame, c: Seq<bool>) -> Frame {
    [
        if c[0] { Pad { connected: true, ..f[0] } } else { neutral_pad(false) },
        if c[1] { Pad { connected: true, ..f[1] } } else { neutral_pad(false) },
        if c[2] { Pad { connected: true, ..f[2] } } else { neutral_pad(false) },
        if c[3] { Pad { connected: true, ..f[3] } } else { neutral_pad(false) },
    ]
}

/// The end of the run of frames holding what frame `i` holds, looking from `j` on.
pub open spec fn run_end(frames: Seq<Frame>, c: Seq<bool>, i: int, j: int) -> int
    decreases frames.len() - j,
{
    if 0 <= j < frames.len() && held(frames[j], c) == held(frames[i], c) {
        run_end(frames, c, i, j + 1)
    } else {
        j
    }
}

/// Whether frame `i` holds something other than the frame before it.
pub open spec fn starts_run(frames: Seq<Frame>, c: Seq<bool>, i: int) -> bool {
    i == 0 || held(frames[i - 1], c) != held(frames[i], c)
}

/// The names of the first `n` buttons of [`Button::ALL`] that `p` holds, each
/// after a space.
pub open spec fn button_words(p: Pad, n: int) -> Seq<char>
    decreases n,
{
    if n <= 0 {
        seq![]
    } else {
        button_words(p, n - 1) + if n <= 12 && p.buttons & Button::ALL@[n - 1].spec_mask() != 0 {
            seq![' '] + Button::ALL@[n - 1].spec_name()
        } else {
            seq![]
        }
    }
}

/// A stick position written `X,Y`.
pub open spec fn axis_text(a: Axis) -> Seq<char> {
    int_text(a.x as int) + seq![','] + int_text(a.y as int)
}

/// The sticks and triggers of `p` that are not at rest, each with its keyword.
pub open spec fn pad_extras(p: Pad) -> Seq<char> {
    (if p.stick != centred() { " stick "@ + axis_text(p.stick) } else { seq![] })
        + (if p.cstick != centred() { " cstick "@ + axis_text(p.cstick) } else { seq![] })
        + (if p.left_trigger != 0 { " lt "@ + decimal(p.left_trigger as nat) } else { seq![] })
        + (if p.right_trigger != 0 { " rt "@ + decimal(p.right_trigger as nat) } else { seq![] })
}

/// The clause for port index `port`: its name, its buttons, then the sticks and
/// triggers that are not at rest.
pub open spec fn pad_clause(port: int, p: Pad) -> Seq<char> {
    seq!['p'] + decimal((port + 1) as nat) + button_words(p, 12) + pad_extras(p)
}

/// Whether port index `k` is written for frame `f`: it is plugged in and
/// something is held on it.
pub open spec fn active(f: Frame, c: Seq<bool>, k: int) -> bool {
    c[k] && f[k] != neutral_pad(f[k].connected)
}

/// The clauses of the active ports among the first `n`, joined by ` | `.
pub open spec fn clauses_text(f: Frame, c: Seq<bool>, n: int) -> Seq<char>
    decreases n,
{
    if n <= 0 {
        seq![]
    } else {
        let before = clauses_text(f, c, n - 1);
        if active(f, c, n - 1) {
            (if before.len() > 0 { before + " | "@ } else { before }) + pad_clause(n - 1, f[n - 1])
        } else {
            before
        }
    }
}

/// The line for a run of `count` frames like `f`: `wait N` when nothing is
/// held, else the clauses and, for more than one frame, ` xN`.
pub open spec fn run_line(f: Frame, c: Seq<bool>, count: nat) -> Seq<char> {
    let cl = clauses_text(f, c, 4);
    if cl.len() == 0 {
        "wait "@ + decimal(count) + seq!['\n']
    } else {
        cl + (if count > 1 { " x"@ + decimal(count) } else { seq![] }) + seq!['\n']
    }
}

/// The lines for the runs that start among the first `n` frames.
pub open spec fn runs_text(frames: Seq<Frame>, c: Seq<bool>, n: int) -> Seq<char>
    decreases n,
{
    if n <= 0 {
        seq![]
    } else {
        runs_text(frames, c, n - 1) + if starts_run(frames, c, n - 1) {
            run_line(frames[n - 1], c, (run_end(frames, c, n - 1, n) - (n - 1)) as nat)
        } else {
            seq![]
        }
    }
}

/// ` N` for each port among the first `n` that is plugged in.
pub open spec fn port_list(c: Seq<bool>, n: int) -> Seq<char>
    decreases n,
{
    if n <= 0 {
        seq![]
    } else {
        port_list(c, n - 1) + if c[n - 1] { seq![' '] + decimal(n as nat) } else { seq![] }
    }
}

/// The script for a movie: the seed in eight hexadecimal digits, the plugged-in
/// ports, then one line per run of frames that hold the same inputs.
pub open spec fn script_text(m: MovieView) -> Seq<char> {
    let c = format_ports(m.frames);
    "seed 0x"@ + hex_fixed(m.seed as nat, 8) + "\nports"@ + port_list(c, 4) + seq!['\n']
        + runs_text(m.frames, c, m.frames.len() as int)
}

fn held_of(f: &Frame, c: &[bool; 4]) -> (r: Frame)
    ensures
        r == held(*f, c@),
{
    let p0 = if c[0] { Pad { connected: true, ..f[0] } } else { Pad::neutral(false) };
    let p1 = if c[1] { Pad { connected: true, ..f[1] } } else { Pad::neutral(false) };
    let p2 = if c[2] { Pad { connected: true, ..f[2] } } else { Pad::neutral(false) };
    let p3 = if c[3] { Pad { connected: true, ..f[3] } } else { Pad::neutral(false) };
    let r = [p0, p1, p2, p3];
    assert(r =~= held(*f, c@));
    r
}

fn same_held(a: &Frame, b: &Frame, c: &[bool; 4]) -> (r: bool)
    ensures
        r == (held(*a, c@) == held(*b, c@)),
{
    let x = held_of(a, c);
    let y = held_of(b, c);
    let r = x[0] == y[0] && x[1] == y[1] && x[2] == y[2] && x[3] == y[3];
    if r {
        assert(x =~= y);
    }
    r
}

fn push_axis(out: &mut String, a: Axis)
    ensures
        final(out)@ == old(out)@ + axis_text(a),
{
    push_int(out, a.x as i64);
    out.push(',');
    push_int(out, a.y as i64);
    assert(final(out)@ =~= old(out)@ + axis_text(a));
}

fn push_buttons(out: &mut String, p: &Pad)
    ensures
        final(out)@ == old(out)@ + button_words(*p, 12),
{
    let all = Button::ALL;
    let mut k: usize = 0;
    assert(out@ =~= old(out)@ + button_words(*p, 0));
    while k < 12
        invariant
            k <= 12,
            all@ == Button::ALL@,
            out@ == old(out)@ + button_words(*p, k as int),
        decreases 12 - k,
    {
        if p.pressed(all[k]) {
            out.push(' ');
            push_str(out, all[k].name());
        }
        k += 1;
        assert(out@ =~= old(out)@ + button_words(*p, k as int));
    }
}

fn push_axis_part(out: &mut String, keyword: &str, a: Axis)
    ensures
        final(out)@ == old(out)@ + (if a != centred() { keyword@ + axis_text(a) } else { seq![] }),
{
    if a.x != 0 || a.y != 0 {
        push_str(out, keyword);
        push_axis(out, a);
        assert(out@ =~= old(out)@ + (keyword@ + axis_text(a)));
    } else {
        assert(out@ =~= old(out)@ + Seq::<char>::empty());
    }
}

fn push_trigger_part(out: &mut String, keyword: &str, t: u8)
    ensures
        final(out)@ == old(out)@ + (if t != 0 { keyword@ + decimal(t as nat) } else { seq![] }),
{
    if t != 0 {
        push_str(out, keyword);
        push_decimal(out, t as u64);
        assert(out@ =~= old(out)@ + (keyword@ + decimal(t as nat)));
    } else {
        assert(out@ =~= old(out)@ + Seq::<char>::empty());
    }
}

fn push_extras(out: &mut String, p: &Pad)
    ensures
        final(out)@ == old(out)@ + pad_extras(*p),
{
    push_axis_part(out, " stick ", p.stick);
    push_axis_part(out, " cstick ", p.cstick);
    push_trigger_part(out, " lt ", p.left_trigger);
    push_trigger_part(out, " rt ", p.right_trigger);
    assert(out@ =~= old(out)@ + pad_extras(*p));
}

fn push_clause(out: &mut String, port: usize, p: &Pad)
    requires
        port < 4,
    ensures
        final(out)@ == old(out)@ + pad_clause(port as int, *p),
{
    out.push('p');
    push_decimal(out, (port + 1) as u64);
    push_buttons(out, p);
    push_extras(out, p);
    assert(out@ =~= old(out)@ + pad_clause(port as int, *p));
}

fn push_run(out: &mut String, f: &Frame, c: &[bool; 4], count: usize)
    ensures
        final(out)@ == old(out)@ + run_line(*f, c@, count as nat),
{
    let ghost start = out@;
    let mut any = false;
    let mut k: usize = 0;
    while k < 4
        invariant
            k <= 4,
            out@ == start + clauses_text(*f, c@, k as int),
            any == (clauses_text(*f, c@, k as int).len() > 0),
        decreases 4 - k,
    {
        if c[k] && !f[k].is_neutral() {
            if any {
                push_str(out, " | ");
            }
            push_clause(out, k, &f[k]);
            any = true;
        }
        k += 1;
        assert(out@ =~= start + clauses_text(*f, c@, k as int));
    }
    let ghost cl = out@;
    if !any {
        push_str(out, "wait ");
        push_decimal(out, count as u64);
    } else if count > 1 {
        push_str(out, " x");
        push_decimal(out, count as u64);
    }
    out.push('\n');
    assert(out@ =~= old(out)@ + run_line(*f, c@, count as nat));
}

/// Writes a movie as a script: the seed, the ports plugged in on the first
/// frame, then one line per run of frames that hold the same inputs on those
/// ports.
pub fn format(movie: &Movie) -> (s: String)
    ensures
        s@ == script_text(movie@),
{
    let c: [bool; 4] = if movie.frames.len() > 0 {
        [movie.frames[0][0].connected, movie.frames[0][1].connected, movie.frames[0][2].connected, movie.frames[0][3].connected]
    } else {
        [true, false, false, false]
    };
    assert(c@ =~= format_ports(movie.frames@));
    let mut out = String::new();
    push_str(&mut out, "seed 0x");
    push_hex(&mut out, movie.seed as u64, 8);
    push_str(&mut out, "\nports");
    let ghost top = out@;
    let mut k: usize = 0;
    while k < 4
        invariant
            k <= 4,
            out@ == top + port_list(c@, k as int),
        decreases 4 - k,
    {
        if c[k] {
            out.push(' ');
            push_decimal(&mut out, (k + 1) as u64);
        }
        k += 1;
        assert(out@ =~= top + port_list(c@, k as int));
    }
    out.push('\n');
    let ghost header = out@;
    let frames = &movie.frames;
    let n = frames.len();
    let mut i: usize = 0;
    while i < n
        invariant
            i <= n,
            n == frames@.len(),
            out@ == header + runs_text(frames@, c@, i as int),
        decreases n - i,
    {
        if i == 0 || !same_held(&frames[i - 1], &frames[i], &c) {
            let mut j = i + 1;
            while j < n && same_held(&frames[j], &frames[i], &c)
                invariant
                    i < j <= n,
                    n == frames@.len(),
                    run_end(frames@, c@, i as int, j as int) == run_end(frames@, c@, i as int, i + 1),
                decreases n - j,
            {
                j += 1;
            }
            push_run(&mut out, &frames[i], &c, j - i);
        }
        i += 1;
        assert(out@ =~= header + runs_text(frames@, c@, i as int));
    }
    assert(out@ =~= script_text(movie@));
    out
}

} // verus!
