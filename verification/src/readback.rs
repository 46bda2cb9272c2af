use vstd::prelude::*;

use crate::pad::{Axis, Button, Pad, button_names_round_trip, centred, neutral_pad};
use crate::script::{
    ClauseState, ErrorKindView, ParseState, ScriptErrorView, active, all_digits, apply_clause, apply_clauses,
    apply_inputs, axis_text, button_words, copies, split_repeat, clause_port, clauses_text, frame_with, kw_cstick, kw_lt,
    kw_ports, kw_rt, kw_seed, kw_stick, kw_wait, last_ws_before, listed_ports, neutral_frame, no_ports,
    pad_clause, pad_extras, port_list, read_line, read_lines, initial_state, held, format_ports,
    script_text, script_movie, run_end, run_line, runs_text, script_axis, script_u32,
    starts_run,
};
use crate::movie::{Frame, MovieView};
use crate::text::{
    decimal, digit_char, digit_value, digits_value, hex_char, hex_fixed, int_text, is_ws, lines_from,
    before_first, eq_ignore_case, parse_integer, parse_natural, pieces, pieces_from, trim, trim_end,
    trim_start, words, words_from,
};

verus! {

proof fn lemma_digit_char_value(d: nat)
    requires
        d < 10,
    ensures
        digit_value(digit_char(d), 10) == Some(d),
        digit_value(digit_char(d), 16) == Some(d),
        '0' <= digit_char(d) <= '9',
{
}

proof fn lemma_hex_char_value(d: nat)
    requires
        d < 16,
    ensures
        digit_value(hex_char(d), 16) == Some(d),
        !is_ws(hex_char(d)),
        hex_char(d) != '+',
{
    if d < 10 {
        lemma_digit_char_value(d);
    }
}

/// Decimal text reads back as its number.
proof fn lemma_decimal_value(n: nat)
    ensures
        digits_value(decimal(n), 10) == Some(n),
        decimal(n).len() > 0,
        '0' <= decimal(n)[0] <= '9',
        forall|i: int| 0 <= i < decimal(n).len() ==> '0' <= #[trigger] decimal(n)[i] <= '9',
    decreases n,
{
    if n < 10 {
        lemma_digit_char_value(n);
        assert(decimal(n).drop_last() =~= Seq::<char>::empty());
        assert(digits_value(Seq::<char>::empty(), 10) == Some(0nat));
    } else {
        lemma_decimal_value(n / 10);
        lemma_digit_char_value(n % 10);
        let s = decimal(n);
        assert(s.drop_last() =~= decimal(n / 10));
        assert(s.last() == digit_char(n % 10));
        assert(s[0] == decimal(n / 10)[0]);
        assert((n / 10) * 10 + n % 10 == n);
        assert forall|i: int| 0 <= i < s.len() implies '0' <= #[trigger] s[i] <= '9' by {
            if i < s.len() - 1 {
                assert(s[i] == decimal(n / 10)[i]);
            }
        }
    }
}

/// Decimal text parses as its number wherever the number is in range.
proof fn lemma_parse_decimal(n: nat, max: nat)
    requires
        n <= max,
    ensures
        parse_natural(decimal(n), 10, max) == Some(n),
{
    lemma_decimal_value(n);
}

/// A signed number written out parses back within its range.
proof fn lemma_parse_int_text(v: int, lowest: nat, highest: nat)
    requires
        -lowest <= v <= highest,
    ensures
        parse_integer(int_text(v), lowest, highest) == Some(v),
{
    if v < 0 {
        lemma_decimal_value((-v) as nat);
        let s = int_text(v);
        assert(s.drop_first() =~= decimal((-v) as nat));
    } else {
        lemma_decimal_value(v as nat);
        assert(int_text(v)[0] != '-');
    }
}

/// Sixteen to the power `w`.
pub open spec fn pow16(w: nat) -> nat
    decreases w,
{
    if w == 0 { 1 } else { 16 * pow16((w - 1) as nat) }
}

/// `width` hexadecimal digits read back as the number, if it fits in them.
proof fn lemma_hex_value(n: nat, width: nat)
    requires
        n < pow16(width),
    ensures
        digits_value(hex_fixed(n, width), 16) == Some(n),
        hex_fixed(n, width).len() == width,
        forall|i: int| 0 <= i < width ==> !is_ws(#[trigger] hex_fixed(n, width)[i]) && hex_fixed(n, width)[i] != '+',
    decreases width,
{
    if width == 0 {
        assert(n == 0);
    } else {
        let smaller = pow16((width - 1) as nat);
        assert(n / 16 < smaller) by (nonlinear_arith)
            requires
                n < 16 * smaller,
        ;
        lemma_hex_value(n / 16, (width - 1) as nat);
        lemma_hex_char_value(n % 16);
        let s = hex_fixed(n, width);
        assert(s.drop_last() =~= hex_fixed(n / 16, (width - 1) as nat));
        assert(s.last() == hex_char(n % 16));
        assert((n / 16) * 16 + n % 16 == n) by (nonlinear_arith);
        assert forall|i: int| 0 <= i < width implies !is_ws(#[trigger] s[i]) && s[i] != '+' by {
            if i < width - 1 {
                assert(s[i] == hex_fixed(n / 16, (width - 1) as nat)[i]);
            }
        }
    }
}

/// Whether `w` is a word: some characters, none of them white space.
pub open spec fn is_word(w: Seq<char>) -> bool {
    w.len() > 0 && forall|i: int| 0 <= i < w.len() ==> !is_ws(#[trigger] w[i])
}

/// Whether `w` reads as a repeat count: `x` or `X` and then digits.
pub open spec fn repeat_word(w: Seq<char>) -> bool {
    w.len() > 0 && (w[0] == 'x' || w[0] == 'X') && all_digits(w.drop_first())
}

/// A word that can stand on a written line: no `#` and no line feed.
pub open spec fn line_word(w: Seq<char>) -> bool {
    is_word(w) && free_of(w, '#') && one_line(w)
}

/// A word of a written clause: a line word without `|` that is no repeat count.
pub open spec fn clause_word(w: Seq<char>) -> bool {
    line_word(w) && free_of(w, '|') && !repeat_word(w)
}

/// Whether `s` holds no white space.
pub open spec fn no_ws(s: Seq<char>) -> bool {
    forall|i: int| 0 <= i < s.len() ==> !is_ws(#[trigger] s[i])
}

/// The words, each after a space.
pub open spec fn spaced(ws: Seq<Seq<char>>) -> Seq<char>
    decreases ws.len(),
{
    if ws.len() == 0 {
        seq![]
    } else {
        seq![' '] + ws[0] + spaced(ws.drop_first())
    }
}

/// The word being read, as a list of at most one word.
pub open spec fn pending(cur: Seq<char>) -> Seq<Seq<char>> {
    if cur.len() == 0 { seq![] } else { seq![cur] }
}

proof fn lemma_words_consume(w: Seq<char>, rest: Seq<char>, cur: Seq<char>)
    requires
        no_ws(w),
    ensures
        words_from(w + rest, cur) == words_from(rest, cur + w),
    decreases w.len(),
{
    if w.len() == 0 {
        assert(w + rest =~= rest);
        assert(cur + w =~= cur);
    } else {
        assert((w + rest).drop_first() =~= w.drop_first() + rest);
        assert((w + rest)[0] == w[0]);
        lemma_words_consume(w.drop_first(), rest, cur.push(w[0]));
        assert(cur.push(w[0]) + w.drop_first() =~= cur + w);
    }
}

proof fn lemma_words_spaced(ws: Seq<Seq<char>>, cur: Seq<char>)
    requires
        no_ws(cur),
        forall|i: int| 0 <= i < ws.len() ==> is_word(#[trigger] ws[i]),
    ensures
        words_from(spaced(ws), cur) == pending(cur) + ws,
    decreases ws.len(),
{
    if ws.len() == 0 {
        assert(pending(cur) + ws =~= pending(cur));
    } else {
        let w = ws[0];
        let rest = spaced(ws.drop_first());
        let s = spaced(ws);
        assert(s =~= seq![' '] + (w + rest));
        assert(s.drop_first() =~= w + rest);
        assert(is_ws(s[0]));
        lemma_words_consume(w, rest, seq![]);
        assert(seq![] + w =~= w);
        assert forall|i: int| 0 <= i < ws.drop_first().len() implies is_word(#[trigger] ws.drop_first()[i]) by {
            assert(ws.drop_first()[i] == ws[i + 1]);
        }
        assert(no_ws(w)) by {
            assert(is_word(ws[0]));
        }
        lemma_words_spaced(ws.drop_first(), w);
        assert(pending(w) =~= seq![w]);
        assert(pending(cur) + (seq![w] + ws.drop_first()) =~= pending(cur) + ws);
    }
}

proof fn lemma_spaced_append(a: Seq<Seq<char>>, b: Seq<Seq<char>>)
    ensures
        spaced(a + b) == spaced(a) + spaced(b),
    decreases a.len(),
{
    if a.len() == 0 {
        assert(a + b =~= b);
        assert(spaced(a) + spaced(b) =~= spaced(b));
    } else {
        assert((a + b).drop_first() =~= a.drop_first() + b);
        assert((a + b)[0] == a[0]);
        lemma_spaced_append(a.drop_first(), b);
        assert(spaced(a + b) =~= spaced(a) + spaced(b));
    }
}

proof fn lemma_spaced_one(w: Seq<char>)
    ensures
        spaced(seq![w]) == seq![' '] + w,
{
    assert(seq![w].drop_first() =~= Seq::<Seq<char>>::empty());
    assert(spaced(Seq::<Seq<char>>::empty()) == Seq::<char>::empty());
    assert(seq![w][0] == w);
    assert(spaced(seq![w]) =~= seq![' '] + w);
}

/// White space before or after the text does not change its words.
proof fn lemma_words_trailing_space(x: Seq<char>, cur: Seq<char>)
    ensures
        words_from(x + seq![' '], cur) == words_from(x, cur),
    decreases x.len(),
{
    assert(is_ws(' '));
    if x.len() == 0 {
        assert(x + seq![' '] =~= seq![' ']);
        assert(seq![' '].drop_first() =~= Seq::<char>::empty());
        assert(words_from(Seq::<char>::empty(), Seq::<char>::empty()) == Seq::<Seq<char>>::empty());
        assert(pending(cur) + Seq::<Seq<char>>::empty() =~= pending(cur));
    } else {
        assert((x + seq![' ']).drop_first() =~= x.drop_first() + seq![' ']);
        assert((x + seq![' '])[0] == x[0]);
        if is_ws(x[0]) {
            lemma_words_trailing_space(x.drop_first(), seq![]);
        } else {
            lemma_words_trailing_space(x.drop_first(), cur.push(x[0]));
        }
    }
}

proof fn lemma_words_leading_space(x: Seq<char>)
    ensures
        words_from(seq![' '] + x, seq![]) == words_from(x, seq![]),
{
    assert((seq![' '] + x).drop_first() =~= x);
    assert(is_ws((seq![' '] + x)[0]));
    assert(pending(seq![]) + words_from(x, seq![]) =~= words_from(x, seq![]));
}

/// Whether `s` holds no line feed.
pub open spec fn one_line(s: Seq<char>) -> bool {
    free_of(s, '\n')
}

proof fn lemma_lines_consume(l: Seq<char>, rest: Seq<char>, cur: Seq<char>)
    requires
        one_line(l),
    ensures
        lines_from(l + rest, cur) == lines_from(rest, cur + l),
    decreases l.len(),
{
    if l.len() == 0 {
        assert(l + rest =~= rest);
        assert(cur + l =~= cur);
    } else {
        assert((l + rest).drop_first() =~= l.drop_first() + rest);
        assert((l + rest)[0] == l[0]);
        lemma_lines_consume(l.drop_first(), rest, cur.push(l[0]));
        assert(cur.push(l[0]) + l.drop_first() =~= cur + l);
    }
}

/// A line that ends in a line feed, and holds no other and no carriage return
/// at its end, is the first line of whatever follows it.
proof fn lemma_lines_line(l: Seq<char>, rest: Seq<char>)
    requires
        one_line(l),
        l.len() == 0 || l.last() != '\r',
    ensures
        lines_from(l + seq!['\n'] + rest, seq![]) == seq![l] + lines_from(rest, seq![]),
{
    lemma_lines_consume(l, seq!['\n'] + rest, seq![]);
    assert(l + seq!['\n'] + rest =~= l + (seq!['\n'] + rest));
    assert(seq![] + l =~= l);
    assert((seq!['\n'] + rest).drop_first() =~= rest);
}

/// Whether `s` holds no `sep`.
pub open spec fn free_of(s: Seq<char>, sep: char) -> bool {
    forall|i: int| 0 <= i < s.len() ==> #[trigger] s[i] != sep
}

proof fn lemma_pieces_consume(a: Seq<char>, rest: Seq<char>, sep: char, cur: Seq<char>)
    requires
        free_of(a, sep),
    ensures
        pieces_from(a + rest, sep, cur) == pieces_from(rest, sep, cur + a),
    decreases a.len(),
{
    if a.len() == 0 {
        assert(a + rest =~= rest);
        assert(cur + a =~= cur);
    } else {
        assert((a + rest).drop_first() =~= a.drop_first() + rest);
        assert((a + rest)[0] == a[0]);
        lemma_pieces_consume(a.drop_first(), rest, sep, cur.push(a[0]));
        assert(cur.push(a[0]) + a.drop_first() =~= cur + a);
    }
}

/// Text without the separator is one piece.
proof fn lemma_pieces_whole(a: Seq<char>, sep: char, cur: Seq<char>)
    requires
        free_of(a, sep),
    ensures
        pieces_from(a, sep, cur) == seq![cur + a],
{
    lemma_pieces_consume(a, seq![], sep, cur);
    assert(a + Seq::<char>::empty() =~= a);
}

/// Text after the last separator extends the last piece.
proof fn lemma_pieces_extend(s: Seq<char>, t: Seq<char>, sep: char, cur: Seq<char>)
    requires
        free_of(t, sep),
    ensures
        pieces_from(s + t, sep, cur) == pieces_from(s, sep, cur).drop_last().push(pieces_from(s, sep, cur).last() + t),
        pieces_from(s, sep, cur).len() >= 1,
    decreases s.len(),
{
    crate::text::lemma_pieces_nonempty(s, sep, cur);
    if s.len() == 0 {
        assert(s + t =~= t);
        lemma_pieces_whole(t, sep, cur);
        assert(seq![cur].drop_last().push(cur + t) =~= seq![cur + t]);
    } else {
        assert((s + t).drop_first() =~= s.drop_first() + t);
        assert((s + t)[0] == s[0]);
        if s[0] == sep {
            lemma_pieces_extend(s.drop_first(), t, sep, seq![]);
            crate::text::lemma_pieces_nonempty(s.drop_first(), sep, seq![]);
            let tail = pieces_from(s.drop_first(), sep, seq![]);
            assert(seq![cur] + tail.drop_last().push(tail.last() + t)
                =~= (seq![cur] + tail).drop_last().push((seq![cur] + tail).last() + t));
        } else {
            lemma_pieces_extend(s.drop_first(), t, sep, cur.push(s[0]));
        }
    }
}

/// A separator and text without one add a last piece.
proof fn lemma_pieces_push(s: Seq<char>, t: Seq<char>, sep: char, cur: Seq<char>)
    requires
        free_of(t, sep),
    ensures
        pieces_from(s + seq![sep] + t, sep, cur) == pieces_from(s, sep, cur) + seq![t],
    decreases s.len(),
{
    if s.len() == 0 {
        assert(s + seq![sep] + t =~= seq![sep] + t);
        assert((seq![sep] + t).drop_first() =~= t);
        lemma_pieces_whole(t, sep, seq![]);
        assert(seq![] + t =~= t);
    } else {
        assert((s + seq![sep] + t).drop_first() =~= s.drop_first() + seq![sep] + t);
        assert((s + seq![sep] + t)[0] == s[0]);
        if s[0] == sep {
            lemma_pieces_push(s.drop_first(), t, sep, seq![]);
            assert(seq![cur] + (pieces_from(s.drop_first(), sep, seq![]) + seq![t])
                =~= seq![cur] + pieces_from(s.drop_first(), sep, seq![]) + seq![t]);
        } else {
            lemma_pieces_push(s.drop_first(), t, sep, cur.push(s[0]));
        }
    }
}

/// The last white space before a last word is the one in front of it.
proof fn lemma_last_ws_before_word(s: Seq<char>, w: Seq<char>)
    requires
        no_ws(w),
    ensures
        last_ws_before(s + seq![' '] + w, (s.len() + 1 + w.len()) as int) == Some(s.len() as int),
{
    lemma_last_ws_skip(s, w, w.len() as int);
}

proof fn lemma_last_ws_skip(s: Seq<char>, w: Seq<char>, k: int)
    requires
        no_ws(w),
        0 <= k <= w.len(),
    ensures
        last_ws_before(s + seq![' '] + w, s.len() + 1 + k) == Some(s.len() as int),
    decreases k,
{
    let t = s + seq![' '] + w;
    if k == 0 {
        assert(t[s.len() as int] == ' ');
    } else {
        assert(t[s.len() + 1 + k - 1] == w[k - 1]);
        lemma_last_ws_skip(s, w, k - 1);
    }
}

/// The names of the first `n` buttons of [`Button::ALL`] that `p` holds.
pub open spec fn button_tokens(p: Pad, n: int) -> Seq<Seq<char>>
    decreases n,
{
    if n <= 0 {
        seq![]
    } else {
        button_tokens(p, n - 1) + if n <= 12 && p.buttons & Button::ALL@[n - 1].spec_mask() != 0 {
            seq![Button::ALL@[n - 1].spec_name()]
        } else {
            seq![]
        }
    }
}

/// The masks of the first `n` buttons of [`Button::ALL`] that `p` holds.
pub open spec fn held_mask(p: Pad, n: int) -> u16
    decreases n,
{
    if n <= 0 {
        0
    } else {
        held_mask(p, n - 1) | if n <= 12 && p.buttons & Button::ALL@[n - 1].spec_mask() != 0 {
            Button::ALL@[n - 1].spec_mask()
        } else {
            0
        }
    }
}

/// The words after the buttons: each stick and trigger not at rest, with its value.
pub open spec fn extra_tokens(p: Pad) -> Seq<Seq<char>> {
    (if p.stick != centred() { seq![kw_stick(), axis_text(p.stick)] } else { seq![] })
        + (if p.cstick != centred() { seq![kw_cstick(), axis_text(p.cstick)] } else { seq![] })
        + (if p.left_trigger != 0 { seq![kw_lt(), decimal(p.left_trigger as nat)] } else { seq![] })
        + (if p.right_trigger != 0 { seq![kw_rt(), decimal(p.right_trigger as nat)] } else { seq![] })
}

/// The words of a written clause.
pub open spec fn clause_tokens(port: int, p: Pad) -> Seq<Seq<char>> {
    seq![seq!['p'] + decimal((port + 1) as nat)] + button_tokens(p, 12) + extra_tokens(p)
}

proof fn lemma_button_name_word(b: Button)
    ensures
        clause_word(b.spec_name()),
        !eq_ignore_case(b.spec_name(), kw_stick()),
        !eq_ignore_case(b.spec_name(), kw_cstick()),
        !eq_ignore_case(b.spec_name(), kw_lt()),
        !eq_ignore_case(b.spec_name(), kw_rt()),
{
    let n = b.spec_name();
    assert(n.len() > 0);
    assert forall|i: int| 0 <= i < n.len() implies !is_ws(#[trigger] n[i]) && n[i] != '|' && n[i] != '\n' && n[i] != '#'
        && 'A' <= n[i] <= 'Z' by {
    }
    if n.len() > 1 {
        assert(n.drop_first()[0] == n[1]);
    }
    if n.len() == 5 {
        assert(crate::text::ascii_lower(n[2]) != crate::text::ascii_lower(kw_stick()[2]));
    }
    if n.len() == 2 {
        assert(crate::text::ascii_lower(n[0]) != crate::text::ascii_lower(kw_lt()[0]));
        assert(crate::text::ascii_lower(n[0]) != crate::text::ascii_lower(kw_rt()[0]));
    }
}

proof fn lemma_button_tokens(p: Pad, n: int)
    requires
        0 <= n <= 12,
    ensures
        button_words(p, n) == spaced(button_tokens(p, n)),
        forall|i: int| 0 <= i < button_tokens(p, n).len() ==> clause_word(#[trigger] button_tokens(p, n)[i]),
    decreases n,
{
    if n > 0 {
        lemma_button_tokens(p, n - 1);
        let b = Button::ALL@[n - 1];
        lemma_button_name_word(b);
        let more = if p.buttons & b.spec_mask() != 0 { seq![b.spec_name()] } else { Seq::<Seq<char>>::empty() };
        lemma_spaced_append(button_tokens(p, n - 1), more);
        if p.buttons & b.spec_mask() != 0 {
            lemma_spaced_one(b.spec_name());
        } else {
            assert(spaced(more) == Seq::<char>::empty());
        }
        assert(button_words(p, n) =~= spaced(button_tokens(p, n)));
    } else {
        assert(spaced(button_tokens(p, n)) == Seq::<char>::empty());
    }
}

proof fn lemma_decimal_word(n: nat)
    ensures
        clause_word(decimal(n)),
        free_of(decimal(n), ','),
        decimal(n)[0] != 'x' && decimal(n)[0] != 'X',
{
    lemma_decimal_value(n);
    assert forall|i: int| 0 <= i < decimal(n).len() implies !is_ws(#[trigger] decimal(n)[i]) by {
        assert('0' <= decimal(n)[i] <= '9');
    }
}

proof fn lemma_int_text_word(v: int)
    ensures
        clause_word(int_text(v)),
        free_of(int_text(v), ','),
        int_text(v)[0] != 'x' && int_text(v)[0] != 'X',
{
    if v < 0 {
        lemma_decimal_word((-v) as nat);
        let t = int_text(v);
        assert forall|i: int| 0 <= i < t.len() implies !is_ws(#[trigger] t[i]) && t[i] != '|' && t[i] != ',' && t[i] != '\n'
            && t[i] != '#' by {
            if i > 0 {
                assert(t[i] == decimal((-v) as nat)[i - 1]);
                assert('0' <= decimal((-v) as nat)[i - 1] <= '9') by {
                    lemma_decimal_value((-v) as nat);
                }
            }
        }
    } else {
        lemma_decimal_word(v as nat);
    }
}

proof fn lemma_axis_word(a: Axis)
    ensures
        clause_word(axis_text(a)),
        script_axis(axis_text(a)) == Some(a),
{
    let x = int_text(a.x as int);
    let y = int_text(a.y as int);
    lemma_int_text_word(a.x as int);
    lemma_int_text_word(a.y as int);
    let t = axis_text(a);
    assert(t =~= x + seq![','] + y);
    assert forall|i: int| 0 <= i < t.len() implies !is_ws(#[trigger] t[i]) && t[i] != '|' && t[i] != '\n' && t[i] != '#' by {
        if i < x.len() {
            assert(t[i] == x[i]);
        } else if i > x.len() {
            assert(t[i] == y[i - x.len() - 1]);
        }
    }
    lemma_pieces_push(x, y, ',', seq![]);
    lemma_pieces_whole(x, ',', seq![]);
    assert(seq![] + x =~= x);
    assert(pieces(t, ',') =~= seq![x, y]);
    assert(t.skip(x.len() + 1 as int) =~= y);
    lemma_parse_int_text(a.x as int, 128, 127);
    lemma_parse_int_text(a.y as int, 128, 127);
}

proof fn lemma_spaced_two(k: Seq<char>, v: Seq<char>)
    ensures
        spaced(seq![k, v]) == seq![' '] + k + seq![' '] + v,
{
    assert(seq![k, v].drop_first() =~= seq![v]);
    assert(seq![k, v][0] == k);
    lemma_spaced_one(v);
    assert(spaced(seq![k, v]) =~= seq![' '] + k + seq![' '] + v);
}

proof fn lemma_extra_tokens(p: Pad)
    ensures
        pad_extras(p) == spaced(extra_tokens(p)),
        forall|i: int| 0 <= i < extra_tokens(p).len() ==> clause_word(#[trigger] extra_tokens(p)[i]),
{
    reveal_strlit(" stick ");
    reveal_strlit(" cstick ");
    reveal_strlit(" lt ");
    reveal_strlit(" rt ");
    let s1 = if p.stick != centred() { seq![kw_stick(), axis_text(p.stick)] } else { Seq::<Seq<char>>::empty() };
    let s2 = if p.cstick != centred() { seq![kw_cstick(), axis_text(p.cstick)] } else { Seq::<Seq<char>>::empty() };
    let s3 = if p.left_trigger != 0 { seq![kw_lt(), decimal(p.left_trigger as nat)] } else { Seq::<Seq<char>>::empty() };
    let s4 = if p.right_trigger != 0 { seq![kw_rt(), decimal(p.right_trigger as nat)] } else { Seq::<Seq<char>>::empty() };
    lemma_spaced_append(s1, s2);
    lemma_spaced_append(s1 + s2, s3);
    lemma_spaced_append(s1 + s2 + s3, s4);
    lemma_axis_word(p.stick);
    lemma_axis_word(p.cstick);
    lemma_decimal_word(p.left_trigger as nat);
    lemma_decimal_word(p.right_trigger as nat);
    lemma_spaced_two(kw_stick(), axis_text(p.stick));
    lemma_spaced_two(kw_cstick(), axis_text(p.cstick));
    lemma_spaced_two(kw_lt(), decimal(p.left_trigger as nat));
    lemma_spaced_two(kw_rt(), decimal(p.right_trigger as nat));
    assert(spaced(s1) =~= (if p.stick != centred() { " stick "@ + axis_text(p.stick) } else { Seq::<char>::empty() }));
    assert(spaced(s2) =~= (if p.cstick != centred() { " cstick "@ + axis_text(p.cstick) } else { Seq::<char>::empty() }));
    assert(spaced(s3) =~= (if p.left_trigger != 0 { " lt "@ + decimal(p.left_trigger as nat) } else { Seq::<char>::empty() }));
    assert(spaced(s4) =~= (if p.right_trigger != 0 { " rt "@ + decimal(p.right_trigger as nat) } else { Seq::<char>::empty() }));
    assert(pad_extras(p) =~= spaced(extra_tokens(p)));
    let e = extra_tokens(p);
    assert forall|i: int| 0 <= i < e.len() implies clause_word(#[trigger] e[i]) by {
        assert(clause_word(kw_stick()));
        assert(clause_word(kw_cstick()));
        assert(clause_word(kw_lt()));
        assert(clause_word(kw_rt()));
    }
}

proof fn lemma_spaced_free(ws: Seq<Seq<char>>, c: char)
    requires
        c != ' ',
        forall|i: int| 0 <= i < ws.len() ==> free_of(#[trigger] ws[i], c),
    ensures
        free_of(spaced(ws), c),
    decreases ws.len(),
{
    if ws.len() > 0 {
        assert forall|i: int| 0 <= i < ws.drop_first().len() implies free_of(#[trigger] ws.drop_first()[i], c) by {
            assert(ws.drop_first()[i] == ws[i + 1]);
        }
        lemma_spaced_free(ws.drop_first(), c);
        let t = spaced(ws);
        let w = ws[0];
        let r = spaced(ws.drop_first());
        assert(t =~= seq![' '] + w + r);
        assert(free_of(w, c));
        assert forall|i: int| 0 <= i < t.len() implies #[trigger] t[i] != c by {
            if i >= 1 && i < 1 + w.len() {
                assert(t[i] == w[i - 1]);
            } else if i >= 1 + w.len() {
                assert(t[i] == r[i - 1 - w.len()]);
            }
        }
    }
}

/// A written clause is its first word followed by the others, each after a
/// space; it holds no `|`, no `#` and no line feed.
proof fn lemma_clause_words(port: int, p: Pad)
    requires
        0 <= port < 4,
    ensures
        words(pad_clause(port, p)) == clause_tokens(port, p),
        pad_clause(port, p) == clause_tokens(port, p)[0] + spaced(clause_tokens(port, p).drop_first()),
        clause_tokens(port, p)[0] == seq!['p'] + decimal((port + 1) as nat),
        clause_tokens(port, p)[0].len() == 2,
        free_of(pad_clause(port, p), '|'),
        free_of(pad_clause(port, p), '#'),
        one_line(pad_clause(port, p)),
        pad_clause(port, p).len() > 0,
        forall|i: int| 0 <= i < clause_tokens(port, p).len() ==> clause_word(#[trigger] clause_tokens(port, p)[i]),
{
    let head = seq!['p'] + decimal((port + 1) as nat);
    let bt = button_tokens(p, 12);
    let et = extra_tokens(p);
    lemma_button_tokens(p, 12);
    lemma_extra_tokens(p);
    lemma_spaced_append(bt, et);
    lemma_decimal_word((port + 1) as nat);
    assert(decimal((port + 1) as nat).len() == 1);
    let rest = bt + et;
    assert(pad_clause(port, p) =~= head + spaced(rest));
    assert(clause_word(head)) by {
        assert forall|i: int| 0 <= i < head.len() implies !is_ws(#[trigger] head[i]) && head[i] != '|' && head[i] != '#'
            && head[i] != '\n' by {
            if i > 0 {
                assert(head[i] == decimal((port + 1) as nat)[i - 1]);
            }
        }
    }
    assert forall|i: int| 0 <= i < rest.len() implies clause_word(#[trigger] rest[i]) by {
        if i < bt.len() {
            assert(rest[i] == bt[i]);
        } else {
            assert(rest[i] == et[i - bt.len()]);
        }
    }
    lemma_words_consume(head, spaced(rest), seq![]);
    assert(seq![] + head =~= head);
    lemma_words_spaced(rest, head);
    assert(pending(head) =~= seq![head]);
    assert(clause_tokens(port, p) =~= seq![head] + rest);
    assert(clause_tokens(port, p).drop_first() =~= rest);
    lemma_spaced_free(rest, '|');
    lemma_spaced_free(rest, '#');
    lemma_spaced_free(rest, '\n');
    let t = pad_clause(port, p);
    let sr = spaced(rest);
    assert forall|i: int| 0 <= i < t.len() implies #[trigger] t[i] != '|' && t[i] != '\n' && t[i] != '#' by {
        if i < head.len() {
            assert(t[i] == head[i]);
        } else {
            assert(t[i] == sr[i - head.len()]);
        }
    }
    assert forall|i: int| 0 <= i < clause_tokens(port, p).len() implies clause_word(#[trigger] clause_tokens(port, p)[i]) by {
        if i > 0 {
            assert(clause_tokens(port, p)[i] == rest[i - 1]);
        }
    }
}

proof fn lemma_apply_button(pad: Pad, toks: Seq<Seq<char>>, j: int, b: Button)
    requires
        0 <= j < toks.len(),
        toks[j] == b.spec_name(),
    ensures
        apply_inputs(pad, toks, j) == apply_inputs(Pad { buttons: pad.buttons | b.spec_mask(), ..pad }, toks, j + 1),
{
    lemma_button_name_word(b);
    button_names_round_trip(b);
}

proof fn lemma_apply_buttons(pad: Pad, toks: Seq<Seq<char>>, i: int, p: Pad, n: int)
    requires
        0 <= n <= 12,
        0 <= i,
        i + button_tokens(p, n).len() <= toks.len(),
        toks.subrange(i, i + button_tokens(p, n).len()) == button_tokens(p, n),
    ensures
        apply_inputs(pad, toks, i) == apply_inputs(
            Pad { buttons: pad.buttons | held_mask(p, n), ..pad },
            toks,
            i + button_tokens(p, n).len(),
        ),
    decreases n,
{
    if n == 0 {
        let b = pad.buttons;
        assert(b | 0u16 == b) by (bit_vector);
        assert(Pad { buttons: pad.buttons | held_mask(p, n), ..pad } == pad);
    } else {
        let before = button_tokens(p, n - 1);
        let k = before.len();
        assert(toks.subrange(i, i + k) =~= toks.subrange(i, i + button_tokens(p, n).len()).subrange(0, k as int));
        assert(button_tokens(p, n).subrange(0, k as int) =~= before);
        lemma_apply_buttons(pad, toks, i, p, n - 1);
        let b = Button::ALL@[n - 1];
        let mid = Pad { buttons: pad.buttons | held_mask(p, n - 1), ..pad };
        if p.buttons & b.spec_mask() != 0 {
            assert(toks[i + k] == button_tokens(p, n)[k as int]);
            lemma_apply_button(mid, toks, i + k, b);
            let x = pad.buttons;
            let h = held_mask(p, n - 1);
            let m = b.spec_mask();
            assert((x | h) | m == x | (h | m)) by (bit_vector);
        } else {
            let x = pad.buttons;
            let h = held_mask(p, n - 1);
            assert(h | 0u16 == h) by (bit_vector);
            assert(button_tokens(p, n) =~= before);
        }
    }
}

proof fn lemma_apply_stick(pad: Pad, toks: Seq<Seq<char>>, j: int, a: Axis)
    requires
        0 <= j,
        j + 1 < toks.len(),
        toks[j] == kw_stick(),
        toks[j + 1] == axis_text(a),
    ensures
        apply_inputs(pad, toks, j) == apply_inputs(Pad { stick: a, ..pad }, toks, j + 2),
{
    lemma_axis_word(a);
}

proof fn lemma_apply_cstick(pad: Pad, toks: Seq<Seq<char>>, j: int, a: Axis)
    requires
        0 <= j,
        j + 1 < toks.len(),
        toks[j] == kw_cstick(),
        toks[j + 1] == axis_text(a),
    ensures
        apply_inputs(pad, toks, j) == apply_inputs(Pad { cstick: a, ..pad }, toks, j + 2),
{
    lemma_axis_word(a);
    assert(!eq_ignore_case(kw_cstick(), kw_stick()));
}

proof fn lemma_apply_lt(pad: Pad, toks: Seq<Seq<char>>, j: int, v: u8)
    requires
        0 <= j,
        j + 1 < toks.len(),
        toks[j] == kw_lt(),
        toks[j + 1] == decimal(v as nat),
    ensures
        apply_inputs(pad, toks, j) == apply_inputs(Pad { left_trigger: v, ..pad }, toks, j + 2),
{
    lemma_parse_decimal(v as nat, 255);
    assert(!eq_ignore_case(kw_lt(), kw_stick()));
    assert(!eq_ignore_case(kw_lt(), kw_cstick()));
}

proof fn lemma_apply_rt(pad: Pad, toks: Seq<Seq<char>>, j: int, v: u8)
    requires
        0 <= j,
        j + 1 < toks.len(),
        toks[j] == kw_rt(),
        toks[j + 1] == decimal(v as nat),
    ensures
        apply_inputs(pad, toks, j) == apply_inputs(Pad { right_trigger: v, ..pad }, toks, j + 2),
{
    lemma_parse_decimal(v as nat, 255);
    assert(!eq_ignore_case(kw_rt(), kw_stick()));
    assert(!eq_ignore_case(kw_rt(), kw_cstick()));
    assert(!eq_ignore_case(kw_rt(), kw_lt())) by {
        assert(crate::text::ascii_lower(kw_rt()[0]) != crate::text::ascii_lower(kw_lt()[0]));
    }
}

/// `pad` with the sticks and triggers of `p` that are not at rest.
pub open spec fn with_extras(pad: Pad, p: Pad) -> Pad {
    Pad {
        stick: if p.stick != centred() { p.stick } else { pad.stick },
        cstick: if p.cstick != centred() { p.cstick } else { pad.cstick },
        left_trigger: if p.left_trigger != 0 { p.left_trigger } else { pad.left_trigger },
        right_trigger: if p.right_trigger != 0 { p.right_trigger } else { pad.right_trigger },
        ..pad
    }
}

proof fn lemma_apply_extras(pad: Pad, toks: Seq<Seq<char>>, i: int, p: Pad)
    requires
        0 <= i,
        i + extra_tokens(p).len() <= toks.len(),
        toks.subrange(i, i + extra_tokens(p).len()) == extra_tokens(p),
    ensures
        apply_inputs(pad, toks, i) == apply_inputs(with_extras(pad, p), toks, i + extra_tokens(p).len()),
{
    let e = extra_tokens(p);
    assert forall|k: int| 0 <= k < e.len() implies toks[i + k] == #[trigger] e[k] by {
        assert(toks.subrange(i, i + e.len())[k] == toks[i + k]);
    }
    let s1: int = if p.stick != centred() { 2 } else { 0 };
    let s2: int = if p.cstick != centred() { 2 } else { 0 };
    let s3: int = if p.left_trigger != 0 { 2 } else { 0 };
    let p1 = if p.stick != centred() { Pad { stick: p.stick, ..pad } } else { pad };
    let p2 = if p.cstick != centred() { Pad { cstick: p.cstick, ..p1 } } else { p1 };
    let p3 = if p.left_trigger != 0 { Pad { left_trigger: p.left_trigger, ..p2 } } else { p2 };
    let p4 = if p.right_trigger != 0 { Pad { right_trigger: p.right_trigger, ..p3 } } else { p3 };
    if p.stick != centred() {
        assert(e[0] == kw_stick() && e[1] == axis_text(p.stick));
        lemma_apply_stick(pad, toks, i, p.stick);
    }
    if p.cstick != centred() {
        assert(e[s1] == kw_cstick() && e[s1 + 1] == axis_text(p.cstick));
        lemma_apply_cstick(p1, toks, i + s1, p.cstick);
    }
    if p.left_trigger != 0 {
        assert(e[s1 + s2] == kw_lt() && e[s1 + s2 + 1] == decimal(p.left_trigger as nat));
        lemma_apply_lt(p2, toks, i + s1 + s2, p.left_trigger);
    }
    if p.right_trigger != 0 {
        assert(e[s1 + s2 + s3] == kw_rt() && e[s1 + s2 + s3 + 1] == decimal(p.right_trigger as nat));
        lemma_apply_rt(p3, toks, i + s1 + s2 + s3, p.right_trigger);
    }
    assert(p4 == with_extras(pad, p));
}

/// Only the twelve named buttons lie in a pad's button word: the names held
/// give the word back.
proof fn lemma_held_mask_all(p: Pad)
    requires
        p.buttons & 0xE080u16 == 0,
    ensures
        held_mask(p, 12) == p.buttons,
{
    reveal_with_fuel(held_mask, 13);
    let all = Button::ALL@;
    assert(all[0] == Button::A && all[1] == Button::B && all[2] == Button::X && all[3] == Button::Y);
    assert(all[4] == Button::Z && all[5] == Button::L && all[6] == Button::R && all[7] == Button::Start);
    assert(all[8] == Button::Up && all[9] == Button::Down && all[10] == Button::Left && all[11] == Button::Right);
    let b = p.buttons;
    assert(
        (((((((((((((0u16 | (if b & 0x0100u16 != 0 { 0x0100u16 } else { 0u16 }))
        | (if b & 0x0200u16 != 0 { 0x0200u16 } else { 0u16 }))
        | (if b & 0x0400u16 != 0 { 0x0400u16 } else { 0u16 }))
        | (if b & 0x0800u16 != 0 { 0x0800u16 } else { 0u16 }))
        | (if b & 0x0010u16 != 0 { 0x0010u16 } else { 0u16 }))
        | (if b & 0x0040u16 != 0 { 0x0040u16 } else { 0u16 }))
        | (if b & 0x0020u16 != 0 { 0x0020u16 } else { 0u16 }))
        | (if b & 0x1000u16 != 0 { 0x1000u16 } else { 0u16 }))
        | (if b & 0x0008u16 != 0 { 0x0008u16 } else { 0u16 }))
        | (if b & 0x0004u16 != 0 { 0x0004u16 } else { 0u16 }))
        | (if b & 0x0001u16 != 0 { 0x0001u16 } else { 0u16 }))
        | (if b & 0x0002u16 != 0 { 0x0002u16 } else { 0u16 }))) == b
    ) by (bit_vector)
        requires
            b & 0xE080u16 == 0,
    ;
}

/// Reading a written clause's words after its port gives the pad back, for a
/// plugged-in pad whose button word holds only named buttons.
proof fn lemma_read_clause_pad(port: int, p: Pad)
    requires
        0 <= port < 4,
        p.connected,
        p.buttons & 0xE080u16 == 0,
    ensures
        apply_inputs(neutral_pad(true), clause_tokens(port, p), 1) == Ok::<Pad, ErrorKindView>(p),
{
    let toks = clause_tokens(port, p);
    let bt = button_tokens(p, 12);
    let et = extra_tokens(p);
    let nb: int = bt.len() as int;
    let ne: int = et.len() as int;
    assert(toks.subrange(1, 1 + nb) =~= bt);
    lemma_apply_buttons(neutral_pad(true), toks, 1, p, 12);
    lemma_held_mask_all(p);
    let b = p.buttons;
    assert(0u16 | b == b) by (bit_vector);
    let pad1 = Pad { buttons: p.buttons, ..neutral_pad(true) };
    assert(toks.subrange(1 + nb, 1 + nb + ne) =~= et);
    lemma_apply_extras(pad1, toks, 1 + nb, p);
    assert(with_extras(pad1, p) == p);
}

/// The ports written for frame `f` among the first `n`: those plugged in with
/// something held.
pub open spec fn written_ports(f: Frame, c: Seq<bool>, n: int) -> Seq<int>
    decreases n,
{
    if n <= 0 {
        seq![]
    } else {
        written_ports(f, c, n - 1) + if active(f, c, n - 1) { seq![n - 1] } else { seq![] }
    }
}

/// The clauses written for frame `f` among its first `n` ports.
pub open spec fn written_clauses(f: Frame, c: Seq<bool>, n: int) -> Seq<Seq<char>> {
    Seq::new(written_ports(f, c, n).len(), |i: int| pad_clause(written_ports(f, c, n)[i], f[written_ports(f, c, n)[i]]))
}

/// The texts joined with ` | `.
pub open spec fn joined(xs: Seq<Seq<char>>) -> Seq<char>
    decreases xs.len(),
{
    if xs.len() == 0 {
        seq![]
    } else if xs.len() == 1 {
        xs[0]
    } else {
        joined(xs.drop_last()) + " | "@ + xs.last()
    }
}

/// The pieces of joined texts split at `|`: each text with the space on
/// either side of its bars.
pub open spec fn bar_pieces(xs: Seq<Seq<char>>) -> Seq<Seq<char>> {
    Seq::new(xs.len(), |i: int| (if i > 0 { seq![' '] } else { seq![] }) + xs[i] + (if i + 1 < xs.len() { seq![' '] } else { seq![] }))
}

proof fn lemma_written_ports(f: Frame, c: Seq<bool>, n: int)
    requires
        0 <= n <= 4,
    ensures
        forall|i: int| 0 <= i < written_ports(f, c, n).len() ==> 0 <= #[trigger] written_ports(f, c, n)[i] < n
            && active(f, c, written_ports(f, c, n)[i]),
        forall|i: int, j: int| 0 <= i < j < written_ports(f, c, n).len() ==> written_ports(f, c, n)[i] < written_ports(f, c, n)[j],
        forall|k: int| 0 <= k < n && active(f, c, k) ==> written_ports(f, c, n).contains(k),
    decreases n,
{
    if n > 0 {
        lemma_written_ports(f, c, n - 1);
        let w = written_ports(f, c, n);
        let v = written_ports(f, c, n - 1);
        assert forall|i: int| 0 <= i < v.len() implies w[i] == v[i] by {}
        assert forall|k: int| 0 <= k < n && active(f, c, k) implies w.contains(k) by {
            if k < n - 1 {
                let j = choose|j: int| 0 <= j < v.len() && v[j] == k;
                assert(w[j] == k);
            } else {
                assert(w[v.len() as int] == k);
            }
        }
    }
}

proof fn lemma_clauses_joined(f: Frame, c: Seq<bool>, n: int)
    requires
        0 <= n <= 4,
    ensures
        clauses_text(f, c, n) == joined(written_clauses(f, c, n)),
        (clauses_text(f, c, n).len() > 0) == (written_ports(f, c, n).len() > 0),
    decreases n,
{
    if n > 0 {
        lemma_clauses_joined(f, c, n - 1);
        lemma_written_ports(f, c, n);
        let xs = written_clauses(f, c, n - 1);
        let ys = written_clauses(f, c, n);
        if active(f, c, n - 1) {
            lemma_clause_words(n - 1, f[n - 1]);
            assert(ys.drop_last() =~= xs);
            assert(ys.last() == pad_clause(n - 1, f[n - 1]));
            if xs.len() == 0 {
                assert(ys =~= seq![pad_clause(n - 1, f[n - 1])]);
            }
            assert(clauses_text(f, c, n) =~= joined(ys));
        } else {
            assert(ys =~= xs);
        }
    }
}

proof fn lemma_joined_pieces(xs: Seq<Seq<char>>)
    requires
        xs.len() >= 1,
        forall|i: int| 0 <= i < xs.len() ==> free_of(#[trigger] xs[i], '|'),
    ensures
        pieces(joined(xs), '|') == bar_pieces(xs),
    decreases xs.len(),
{
    if xs.len() == 1 {
        lemma_pieces_whole(xs[0], '|', seq![]);
        assert(seq![] + xs[0] =~= xs[0]);
        assert(bar_pieces(xs) =~= seq![xs[0]]);
    } else {
        let ys = xs.drop_last();
        let x = xs.last();
        assert forall|i: int| 0 <= i < ys.len() implies free_of(#[trigger] ys[i], '|') by {
            assert(ys[i] == xs[i]);
        }
        lemma_joined_pieces(ys);
        reveal_strlit(" | ");
        let j = joined(ys);
        assert(joined(xs) =~= (j + seq![' ']) + seq!['|'] + (seq![' '] + x));
        assert(free_of(seq![' '] + x, '|')) by {
            let t = seq![' '] + x;
            assert forall|i: int| 0 <= i < t.len() implies #[trigger] t[i] != '|' by {
                if i > 0 {
                    assert(t[i] == x[i - 1]);
                    assert(free_of(xs[xs.len() - 1], '|'));
                }
            }
        }
        lemma_pieces_push(j + seq![' '], seq![' '] + x, '|', seq![]);
        assert(free_of(seq![' '], '|'));
        lemma_pieces_extend(j, seq![' '], '|', seq![]);
        assert(pieces(joined(xs), '|') =~= bar_pieces(xs));
    }
}

/// Spaces around a clause do not change its words.
proof fn lemma_bar_piece_words(xs: Seq<Seq<char>>, i: int)
    requires
        0 <= i < xs.len(),
    ensures
        words(bar_pieces(xs)[i]) == words(xs[i]),
{
    let x = xs[i];
    let inner = if i > 0 { seq![' '] + x } else { x };
    if i > 0 {
        lemma_words_leading_space(x);
    }
    if i + 1 < xs.len() {
        lemma_words_trailing_space(inner, seq![]);
        assert(bar_pieces(xs)[i] =~= inner + seq![' ']);
    } else {
        assert(bar_pieces(xs)[i] =~= inner);
    }
}

/// A frame a script can hold: each port plugged in as `c` says, an unplugged
/// port idle, and only the twelve named buttons in each button word.
pub open spec fn writable_frame(f: Frame, c: Seq<bool>) -> bool {
    forall|k: int| 0 <= k < 4 ==> (#[trigger] f[k]).connected == c[k] && (!c[k] ==> f[k] == neutral_pad(false))
        && f[k].buttons & 0xE080u16 == 0
}

/// The frame after the first `i` clauses of a line are read.
pub open spec fn partial_frame(f: Frame, c: Seq<bool>, ports: Seq<int>, i: int) -> Frame
    decreases i,
{
    if i <= 0 {
        neutral_frame(c)
    } else {
        frame_with(partial_frame(f, c, ports, i - 1), ports[i - 1], f[ports[i - 1]])
    }
}

/// The ports named by the first `i` clauses of a line.
pub open spec fn partial_used(ports: Seq<int>, i: int) -> Seq<bool>
    decreases i,
{
    if i <= 0 {
        no_ports()
    } else {
        partial_used(ports, i - 1).update(ports[i - 1], true)
    }
}

proof fn lemma_frame_with(fr: Frame, idx: int, pad: Pad, k: int)
    requires
        0 <= idx < 4,
        0 <= k < 4,
    ensures
        frame_with(fr, idx, pad)[k] == (if k == idx { pad } else { fr[k] }),
{
}

proof fn lemma_partial(f: Frame, c: Seq<bool>, ports: Seq<int>, i: int)
    requires
        0 <= i <= ports.len(),
        forall|j: int| 0 <= j < ports.len() ==> 0 <= #[trigger] ports[j] < 4,
    ensures
        partial_used(ports, i).len() == 4,
        forall|k: int| 0 <= k < 4 && (forall|j: int| 0 <= j < i ==> ports[j] != k) ==>
            (#[trigger] partial_frame(f, c, ports, i)[k]) == neutral_frame(c)[k] && !partial_used(ports, i)[k],
        forall|j: int| 0 <= j < i ==> partial_frame(f, c, ports, i)[#[trigger] ports[j]] == f[ports[j]],
    decreases i,
{
    if i > 0 {
        lemma_partial(f, c, ports, i - 1);
        let p = ports[i - 1];
        assert forall|k: int| 0 <= k < 4 && (forall|j: int| 0 <= j < i ==> ports[j] != k) implies
            (#[trigger] partial_frame(f, c, ports, i)[k]) == neutral_frame(c)[k] && !partial_used(ports, i)[k] by {
            lemma_frame_with(partial_frame(f, c, ports, i - 1), p, f[p], k);
            assert(ports[i - 1] != k);
        }
        assert forall|j: int| 0 <= j < i implies partial_frame(f, c, ports, i)[#[trigger] ports[j]] == f[ports[j]] by {
            lemma_frame_with(partial_frame(f, c, ports, i - 1), p, f[p], ports[j]);
        }
    }
}

proof fn lemma_clause_port(port: int)
    requires
        0 <= port < 4,
    ensures
        clause_port(seq!['p'] + decimal((port + 1) as nat)) == Some((port + 1) as u8),
{
    let t = seq!['p'] + decimal((port + 1) as nat);
    assert(t.drop_first() =~= decimal((port + 1) as nat));
    lemma_parse_decimal((port + 1) as nat, 255);
}

proof fn lemma_read_clauses(f: Frame, c: Seq<bool>, i: int)
    requires
        c.len() == 4,
        writable_frame(f, c),
        0 <= i <= written_ports(f, c, 4).len(),
    ensures
        apply_clauses(
            bar_pieces(written_clauses(f, c, 4)),
            i,
            c,
            ClauseState {
                frame: partial_frame(f, c, written_ports(f, c, 4), i),
                used: partial_used(written_ports(f, c, 4), i),
            },
        ) == Ok::<ClauseState, ErrorKindView>(ClauseState {
            frame: partial_frame(f, c, written_ports(f, c, 4), written_ports(f, c, 4).len() as int),
            used: partial_used(written_ports(f, c, 4), written_ports(f, c, 4).len() as int),
        }),
    decreases written_ports(f, c, 4).len() - i,
{
    let ports = written_ports(f, c, 4);
    let xs = written_clauses(f, c, 4);
    let cls = bar_pieces(xs);
    let m = ports.len() as int;
    lemma_written_ports(f, c, 4);
    if i < m {
        let port = ports[i];
        let pad = f[port];
        lemma_partial(f, c, ports, i);
        lemma_bar_piece_words(xs, i);
        lemma_clause_words(port, pad);
        lemma_clause_port(port);
        let st = ClauseState { frame: partial_frame(f, c, ports, i), used: partial_used(ports, i) };
        assert forall|j: int| 0 <= j < i implies ports[j] != port by {
            assert(ports[j] < ports[i]);
        }
        assert(st.frame[port] == neutral_frame(c)[port]);
        assert(!st.used[port]);
        assert(active(f, c, port));
        assert(c[port]);
        assert(neutral_frame(c)[port] == neutral_pad(true));
        assert(pad.connected && pad.buttons & 0xE080u16 == 0);
        lemma_read_clause_pad(port, pad);
        let toks = words(cls[i]);
        assert(toks == clause_tokens(port, pad));
        assert(toks[0] == seq!['p'] + decimal((port + 1) as nat));
        assert(((port + 1) as u8) - 1 == port);
        assert(apply_clause(cls[i], c, st) == Ok::<ClauseState, ErrorKindView>(ClauseState {
            frame: partial_frame(f, c, ports, i + 1),
            used: partial_used(ports, i + 1),
        }));
        lemma_read_clauses(f, c, i + 1);
    }
}

/// Text that starts and ends with something other than white space is its own trim.
proof fn lemma_trim_plain(s: Seq<char>)
    requires
        s.len() == 0 || (!is_ws(s[0]) && !is_ws(s.last())),
    ensures
        trim(s) == s,
{
}

/// Text without `#` is all code.
proof fn lemma_no_comment(s: Seq<char>)
    requires
        free_of(s, '#'),
    ensures
        before_first(s, '#') == s,
{
    lemma_pieces_whole(s, '#', seq![]);
    assert(seq![] + s =~= s);
}

proof fn lemma_spaced_ends(ws: Seq<Seq<char>>)
    requires
        ws.len() > 0,
        forall|i: int| 0 <= i < ws.len() ==> is_word(#[trigger] ws[i]),
    ensures
        spaced(ws).len() > 0,
        !is_ws(spaced(ws).last()),
        spaced(ws).last() == ws.last().last(),
        spaced(ws) == spaced(ws.drop_last()) + seq![' '] + ws.last(),
{
    lemma_spaced_append(ws.drop_last(), seq![ws.last()]);
    assert(ws.drop_last() + seq![ws.last()] =~= ws);
    lemma_spaced_one(ws.last());
    assert(is_word(ws[ws.len() - 1]));
}

/// The words of spaced words, with the white space around them trimmed.
proof fn lemma_trimmed_spaced(ws: Seq<Seq<char>>)
    requires
        forall|i: int| 0 <= i < ws.len() ==> is_word(#[trigger] ws[i]),
    ensures
        words(trim(spaced(ws))) == ws,
{
    if ws.len() == 0 {
        assert(trim(spaced(ws)) == Seq::<char>::empty());
    } else {
        let t = spaced(ws);
        let inner = ws[0] + spaced(ws.drop_first());
        assert(t =~= seq![' '] + inner);
        assert(is_word(ws[0]));
        assert(t.drop_first() =~= inner);
        assert(trim_start(t) == trim_start(inner));
        assert(!is_ws(inner[0]));
        assert(trim_start(inner) == inner);
        lemma_spaced_ends(ws);
        assert(inner.last() == t.last());
        assert(trim_end(inner) == inner);
        assert(no_ws(ws[0]));
        lemma_words_consume(ws[0], spaced(ws.drop_first()), seq![]);
        assert(seq![] + ws[0] =~= ws[0]);
        assert forall|i: int| 0 <= i < ws.drop_first().len() implies is_word(#[trigger] ws.drop_first()[i]) by {
            assert(ws.drop_first()[i] == ws[i + 1]);
        }
        lemma_words_spaced(ws.drop_first(), ws[0]);
        assert(pending(ws[0]) + ws.drop_first() =~= ws);
    }
}

/// A line of a keyword and words after it splits into them; what follows the
/// keyword, trimmed, is the rest.
proof fn lemma_keyword_line(kw: Seq<char>, ws: Seq<Seq<char>>)
    requires
        is_word(kw),
        forall|i: int| 0 <= i < ws.len() ==> is_word(#[trigger] ws[i]),
    ensures
        words(kw + spaced(ws)) == seq![kw] + ws,
        trim(kw + spaced(ws)) == kw + spaced(ws),
        (kw + spaced(ws)).skip(kw.len() as int) == spaced(ws),
{
    lemma_words_consume(kw, spaced(ws), seq![]);
    assert(seq![] + kw =~= kw);
    lemma_words_spaced(ws, kw);
    assert(pending(kw) =~= seq![kw]);
    let t = kw + spaced(ws);
    assert(t[0] == kw[0]);
    if ws.len() > 0 {
        lemma_spaced_ends(ws);
        assert(t.last() == spaced(ws).last());
    } else {
        assert(t =~= kw);
    }
    lemma_trim_plain(t);
    assert(t.skip(kw.len() as int) =~= spaced(ws));
}

proof fn lemma_keywords()
    ensures
        is_word(kw_seed()),
        is_word(kw_ports()),
        is_word(kw_wait()),
        free_of(kw_seed(), '#'),
        free_of(kw_ports(), '#'),
        free_of(kw_wait(), '#'),
        one_line(kw_seed()),
        one_line(kw_ports()),
        one_line(kw_wait()),
        eq_ignore_case(kw_seed(), kw_seed()),
        eq_ignore_case(kw_ports(), kw_ports()),
        eq_ignore_case(kw_wait(), kw_wait()),
        !eq_ignore_case(kw_ports(), kw_seed()),
        !eq_ignore_case(kw_wait(), kw_seed()),
        !eq_ignore_case(kw_wait(), kw_ports()),
{
    assert(crate::text::ascii_lower(kw_wait()[0]) != crate::text::ascii_lower(kw_seed()[0]));
}

/// The seed line reads back as the seed, before any frame.
proof fn lemma_seed_line(seed: u32, number: int, st: ParseState)
    requires
        st.frames.len() == 0,
    ensures
        read_line("seed 0x"@ + hex_fixed(seed as nat, 8), number, st) == Ok::<ParseState, ScriptErrorView>(ParseState { seed, ..st }),
{
    reveal_strlit("seed 0x");
    reveal_with_fuel(pow16, 9);
    let hex = hex_fixed(seed as nat, 8);
    lemma_hex_value(seed as nat, 8);
    let hx = seq!['0', 'x'] + hex;
    assert(is_word(hx)) by {
        assert forall|i: int| 0 <= i < hx.len() implies !is_ws(#[trigger] hx[i]) by {
            if i >= 2 {
                assert(hx[i] == hex[i - 2]);
            }
        }
    }
    lemma_keywords();
    lemma_spaced_one(hx);
    let line = "seed 0x"@ + hex;
    assert(line =~= kw_seed() + spaced(seq![hx]));
    assert(free_of(line, '#')) by {
        assert forall|i: int| 0 <= i < line.len() implies #[trigger] line[i] != '#' by {
            if i >= 7 {
                assert(line[i] == hex[i - 7]);
                assert(!is_ws(hex[i - 7]) && hex[i - 7] != '+');
                assert(digit_value(hex[i - 7], 16) is Some) by {
                    assert(digits_value(hex, 16) is Some);
                    lemma_digits_all(hex, 16, i - 7);
                }
            }
        }
    }
    lemma_no_comment(line);
    lemma_keyword_line(kw_seed(), seq![hx]);
    assert(hx.skip(2) =~= hex);
    assert(trim(spaced(seq![hx])) == hx) by {
        lemma_trimmed_spaced(seq![hx]);
        let t = spaced(seq![hx]);
        assert(t =~= seq![' '] + hx);
        assert(t.drop_first() =~= hx);
        assert(trim_start(hx) == hx);
        assert(hx.last() == hex.last());
        assert(trim_end(hx) == hx);
    }
}

/// Every character of text with a value in base `radix` is a digit of it.
proof fn lemma_digits_all(s: Seq<char>, radix: nat, i: int)
    requires
        digits_value(s, radix) is Some,
        0 <= i < s.len(),
    ensures
        digit_value(s[i], radix) is Some,
    decreases s.len(),
{
    if i < s.len() - 1 {
        assert(s.drop_last()[i] == s[i]);
        lemma_digits_all(s.drop_last(), radix, i);
    }
}

/// The ports plugged in among the first `n`.
pub open spec fn connected_ports(c: Seq<bool>, n: int) -> Seq<int>
    decreases n,
{
    if n <= 0 {
        seq![]
    } else {
        connected_ports(c, n - 1) + if c[n - 1] { seq![n - 1] } else { seq![] }
    }
}

/// The numbers of the plugged-in ports among the first `n`, as written.
pub open spec fn listed_numbers(c: Seq<bool>, n: int) -> Seq<Seq<char>> {
    Seq::new(connected_ports(c, n).len(), |i: int| decimal((connected_ports(c, n)[i] + 1) as nat))
}

proof fn lemma_connected_ports(c: Seq<bool>, n: int)
    requires
        0 <= n <= 4,
    ensures
        forall|i: int| 0 <= i < connected_ports(c, n).len() ==> 0 <= #[trigger] connected_ports(c, n)[i] < n
            && c[connected_ports(c, n)[i]],
        forall|i: int, j: int| 0 <= i < j < connected_ports(c, n).len() ==> connected_ports(c, n)[i] < connected_ports(c, n)[j],
        forall|k: int| 0 <= k < n && c[k] ==> connected_ports(c, n).contains(k),
        port_list(c, n) == spaced(listed_numbers(c, n)),
        forall|i: int| 0 <= i < listed_numbers(c, n).len() ==> is_word(#[trigger] listed_numbers(c, n)[i])
            && free_of(listed_numbers(c, n)[i], '#') && one_line(listed_numbers(c, n)[i]),
    decreases n,
{
    if n > 0 {
        lemma_connected_ports(c, n - 1);
        let w = connected_ports(c, n);
        let v = connected_ports(c, n - 1);
        assert forall|i: int| 0 <= i < v.len() implies w[i] == v[i] by {}
        assert forall|k: int| 0 <= k < n && c[k] implies w.contains(k) by {
            if k < n - 1 {
                let j = choose|j: int| 0 <= j < v.len() && v[j] == k;
                assert(w[j] == k);
            } else {
                assert(w[v.len() as int] == k);
            }
        }
        let more = if c[n - 1] { seq![decimal(n as nat)] } else { Seq::<Seq<char>>::empty() };
        assert(listed_numbers(c, n) =~= listed_numbers(c, n - 1) + more);
        lemma_spaced_append(listed_numbers(c, n - 1), more);
        if c[n - 1] {
            lemma_spaced_one(decimal(n as nat));
        }
        assert(port_list(c, n) =~= spaced(listed_numbers(c, n)));
        assert forall|i: int| 0 <= i < listed_numbers(c, n).len() implies is_word(#[trigger] listed_numbers(c, n)[i])
            && free_of(listed_numbers(c, n)[i], '#') && one_line(listed_numbers(c, n)[i]) by {
            let k = connected_ports(c, n)[i];
            lemma_decimal_word((k + 1) as nat);
            lemma_decimal_value((k + 1) as nat);
            let d = decimal((k + 1) as nat);
            assert forall|j: int| 0 <= j < d.len() implies #[trigger] d[j] != '#' by {
                assert('0' <= d[j] <= '9');
            }
        }
    }
}

proof fn lemma_partial_used(ports: Seq<int>, i: int)
    requires
        0 <= i <= ports.len(),
        forall|j: int| 0 <= j < ports.len() ==> 0 <= #[trigger] ports[j] < 4,
    ensures
        partial_used(ports, i).len() == 4,
        forall|k: int| 0 <= k < 4 ==> #[trigger] partial_used(ports, i)[k] == (exists|j: int| 0 <= j < i && ports[j] == k),
    decreases i,
{
    if i > 0 {
        lemma_partial_used(ports, i - 1);
        assert forall|k: int| 0 <= k < 4 implies #[trigger] partial_used(ports, i)[k] == (exists|j: int| 0 <= j < i && ports[j] == k) by {
            if ports[i - 1] == k {
                assert(exists|j: int| 0 <= j < i && ports[j] == k) by {
                    assert(ports[i - 1] == k);
                }
            } else if partial_used(ports, i - 1)[k] {
                let j = choose|j: int| 0 <= j < i - 1 && ports[j] == k;
                assert(0 <= j < i && ports[j] == k);
            } else {
                if exists|j: int| 0 <= j < i && ports[j] == k {
                    let j = choose|j: int| 0 <= j < i && ports[j] == k;
                    assert(j != i - 1);
                    assert(0 <= j < i - 1 && ports[j] == k);
                }
            }
        }
    }
}

proof fn lemma_listed_ports(c: Seq<bool>, i: int)
    requires
        c.len() == 4,
        0 <= i <= connected_ports(c, 4).len(),
    ensures
        listed_ports(listed_numbers(c, 4), i, partial_used(connected_ports(c, 4), i))
            == Ok::<Seq<bool>, ErrorKindView>(partial_used(connected_ports(c, 4), connected_ports(c, 4).len() as int)),
    decreases connected_ports(c, 4).len() - i,
{
    let ps = connected_ports(c, 4);
    lemma_connected_ports(c, 4);
    if i < ps.len() {
        let k = ps[i];
        lemma_parse_decimal((k + 1) as nat, 255);
        assert(listed_numbers(c, 4)[i] == decimal((k + 1) as nat));
        lemma_listed_ports(c, i + 1);
    }
}

/// The ports line reads back as the ports plugged in, before any frame.
proof fn lemma_ports_line(c: Seq<bool>, number: int, st: ParseState)
    requires
        c.len() == 4,
        st.frames.len() == 0,
    ensures
        read_line("ports"@ + port_list(c, 4), number, st) == Ok::<ParseState, ScriptErrorView>(ParseState { connected: c, ..st }),
{
    reveal_strlit("ports");
    assert("ports"@ =~= kw_ports());
    lemma_keywords();
    lemma_connected_ports(c, 4);
    let ln = listed_numbers(c, 4);
    let line = kw_ports() + spaced(ln);
    lemma_spaced_free(ln, '#');
    assert(free_of(line, '#')) by {
        let sp = spaced(ln);
        assert forall|i: int| 0 <= i < line.len() implies #[trigger] line[i] != '#' by {
            if i >= 5 {
                assert(line[i] == sp[i - 5]);
            }
        }
    }
    lemma_no_comment(line);
    lemma_keyword_line(kw_ports(), ln);
    lemma_trimmed_spaced(ln);
    lemma_listed_ports(c, 0);
    let ps = connected_ports(c, 4);
    lemma_partial_used(ps, 0);
    lemma_partial_used(ps, ps.len() as int);
    assert(partial_used(ps, 0) =~= no_ports());
    assert forall|k: int| 0 <= k < 4 implies #[trigger] partial_used(ps, ps.len() as int)[k] == c[k] by {
        if c[k] {
            assert(ps.contains(k));
            let j = choose|j: int| 0 <= j < ps.len() && ps[j] == k;
            assert(exists|j: int| 0 <= j < ps.len() && ps[j] == k);
        } else {
            if exists|j: int| 0 <= j < ps.len() && ps[j] == k {
                let j = choose|j: int| 0 <= j < ps.len() && ps[j] == k;
                assert(c[ps[j]]);
            }
        }
    }
    assert(partial_used(ps, ps.len() as int) =~= c);
}


/// Reading every written clause of a writable frame rebuilds the frame.
proof fn lemma_partial_whole(f: Frame, c: Seq<bool>)
    requires
        c.len() == 4,
        writable_frame(f, c),
    ensures
        partial_frame(f, c, written_ports(f, c, 4), written_ports(f, c, 4).len() as int) == f,
{
    let ports = written_ports(f, c, 4);
    let m = ports.len() as int;
    lemma_written_ports(f, c, 4);
    lemma_partial(f, c, ports, m);
    let g = partial_frame(f, c, ports, m);
    assert forall|k: int| 0 <= k < 4 implies g[k] == f[k] by {
        if ports.contains(k) {
            let j = choose|j: int| 0 <= j < m && ports[j] == k;
            assert(g[ports[j]] == f[ports[j]]);
        } else {
            assert forall|j: int| 0 <= j < m implies ports[j] != k by {
                if ports[j] == k {
                    assert(ports.contains(k));
                }
            }
            assert(g[k] == neutral_frame(c)[k]);
            assert(!active(f, c, k));
            assert(f[k].connected == c[k]);
        }
    }
    assert(g =~= f);
}

/// A writable frame with nothing written holds nothing.
proof fn lemma_idle_frame(f: Frame, c: Seq<bool>)
    requires
        c.len() == 4,
        writable_frame(f, c),
        written_ports(f, c, 4).len() == 0,
    ensures
        f == neutral_frame(c),
{
    lemma_written_ports(f, c, 4);
    assert forall|k: int| 0 <= k < 4 implies f[k] == neutral_frame(c)[k] by {
        if active(f, c, k) {
            assert(written_ports(f, c, 4).contains(k));
        }
        assert(f[k].connected == c[k]);
    }
    assert(f =~= neutral_frame(c));
}

/// The words of clauses written one after another, `|` between each two.
pub open spec fn joined_tokens(ts: Seq<Seq<Seq<char>>>) -> Seq<Seq<char>>
    decreases ts.len(),
{
    if ts.len() == 0 {
        seq![]
    } else if ts.len() == 1 {
        ts[0]
    } else {
        joined_tokens(ts.drop_last()) + seq![seq!['|']] + ts.last()
    }
}

/// Clauses, each a first word and the others after spaces, joined by ` | `
/// are the first word of all and the others after spaces.
proof fn lemma_joined_tokens(xs: Seq<Seq<char>>, ts: Seq<Seq<Seq<char>>>)
    requires
        xs.len() == ts.len(),
        xs.len() >= 1,
        forall|i: int| 0 <= i < ts.len() ==> (#[trigger] ts[i]).len() >= 1 && xs[i] == ts[i][0] + spaced(ts[i].drop_first()),
        forall|i: int, j: int| 0 <= i < ts.len() && 0 <= j < ts[i].len() ==> line_word(#[trigger] ts[i][j]),
    ensures
        joined_tokens(ts).len() >= 1,
        joined_tokens(ts)[0] == ts[0][0],
        joined_tokens(ts).last() == ts.last().last(),
        joined(xs) == joined_tokens(ts)[0] + spaced(joined_tokens(ts).drop_first()),
        forall|k: int| 0 <= k < joined_tokens(ts).len() ==> line_word(#[trigger] joined_tokens(ts)[k]),
    decreases xs.len(),
{
    let jt = joined_tokens(ts);
    if xs.len() == 1 {
        assert(joined(xs) == xs[0]);
        assert(jt == ts[0]);
        assert(forall|k: int| 0 <= k < ts[0].len() ==> line_word(#[trigger] ts[0][k]));
    } else {
        let xs1 = xs.drop_last();
        let ts1 = ts.drop_last();
        assert forall|i: int| 0 <= i < ts1.len() implies (#[trigger] ts1[i]).len() >= 1 && xs1[i] == ts1[i][0] + spaced(ts1[i].drop_first()) by {
            assert(ts1[i] == ts[i]);
            assert(xs1[i] == xs[i]);
        }
        assert forall|i: int, j: int| 0 <= i < ts1.len() && 0 <= j < ts1[i].len() implies line_word(#[trigger] ts1[i][j]) by {
            assert(ts1[i] == ts[i]);
        }
        lemma_joined_tokens(xs1, ts1);
        let j1 = joined_tokens(ts1);
        let t = ts.last();
        let bar = seq![seq!['|']];
        assert(t == ts[ts.len() - 1]);
        assert(xs.last() == xs[xs.len() - 1]);
        assert(jt == j1 + bar + t);
        assert(jt.drop_first() =~= j1.drop_first() + bar + t);
        lemma_spaced_append(j1.drop_first() + bar, t);
        lemma_spaced_append(j1.drop_first(), bar);
        lemma_spaced_one(seq!['|']);
        assert(t.drop_first() =~= t.drop_first());
        assert(spaced(t) =~= seq![' '] + t[0] + spaced(t.drop_first()));
        reveal_strlit(" | ");
        assert(joined(xs) == joined(xs1) + " | "@ + xs.last());
        assert(joined(xs) =~= jt[0] + spaced(jt.drop_first()));
        assert(jt.last() == t.last());
        assert forall|k: int| 0 <= k < jt.len() implies line_word(#[trigger] jt[k]) by {
            if k < j1.len() {
                assert(jt[k] == j1[k]);
            } else if k == j1.len() {
                assert(jt[k] == seq!['|']);
            } else {
                assert(jt[k] == t[k - j1.len() - 1]);
                assert(line_word(ts[ts.len() - 1][k - j1.len() - 1]));
            }
        }
    }
}

/// Text without white space has none before any point.
proof fn lemma_no_ws_before(s: Seq<char>, n: int)
    requires
        no_ws(s),
        n <= s.len(),
    ensures
        last_ws_before(s, n) == None::<int>,
    decreases n,
{
    if n > 0 {
        lemma_no_ws_before(s, n - 1);
    }
}

/// A line of a first word and line words after it, each after a space: how
/// it splits into words, that it needs no trimming and has no comment, and
/// where its last white space stands.
proof fn lemma_line_parts(w: Seq<char>, ws: Seq<Seq<char>>)
    requires
        line_word(w),
        forall|i: int| 0 <= i < ws.len() ==> line_word(#[trigger] ws[i]),
    ensures
        words(w + spaced(ws)) == seq![w] + ws,
        trim(before_first(w + spaced(ws), '#')) == w + spaced(ws),
        one_line(w + spaced(ws)),
        (w + spaced(ws)).len() > 0,
        !is_ws((w + spaced(ws)).last()),
        ws.len() == 0 ==> last_ws_before(w + spaced(ws), (w + spaced(ws)).len() as int) == None::<int>,
        ws.len() > 0 ==> last_ws_before(w + spaced(ws), (w + spaced(ws)).len() as int)
            == Some((w + spaced(ws.drop_last())).len() as int),
        ws.len() > 0 ==> (w + spaced(ws)).skip((w + spaced(ws.drop_last())).len() + 1int) == ws.last(),
        ws.len() > 0 ==> (w + spaced(ws)).take((w + spaced(ws.drop_last())).len() as int) == w + spaced(ws.drop_last()),
{
    let line = w + spaced(ws);
    assert forall|i: int| 0 <= i < ws.len() implies is_word(#[trigger] ws[i]) by {
        assert(line_word(ws[i]));
    }
    lemma_keyword_line(w, ws);
    assert forall|i: int| 0 <= i < ws.len() implies free_of(#[trigger] ws[i], '#') && one_line(ws[i]) by {
        assert(line_word(ws[i]));
    }
    lemma_spaced_free(ws, '#');
    lemma_spaced_free(ws, '\n');
    let sp = spaced(ws);
    assert forall|i: int| 0 <= i < line.len() implies #[trigger] line[i] != '#' && line[i] != '\n' by {
        if i < w.len() {
            assert(line[i] == w[i]);
        } else {
            assert(line[i] == sp[i - w.len()]);
        }
    }
    lemma_no_comment(line);
    if ws.len() == 0 {
        assert(line =~= w);
        assert(no_ws(w));
        lemma_no_ws_before(line, line.len() as int);
    } else {
        lemma_spaced_ends(ws);
        let front = w + spaced(ws.drop_last());
        assert(line =~= front + seq![' '] + ws.last());
        assert(line_word(ws[ws.len() - 1]));
        lemma_last_ws_before_word(front, ws.last());
        assert(line.skip(front.len() + 1int) =~= ws.last());
        assert(line.take(front.len() as int) =~= front);
        assert(line.last() == ws.last().last());
    }
}

/// The line for a run of `count` frames like `f`, without its line feed.
pub open spec fn run_body(f: Frame, c: Seq<bool>, count: nat) -> Seq<char> {
    let cl = clauses_text(f, c, 4);
    if cl.len() == 0 {
        "wait "@ + decimal(count)
    } else {
        cl + (if count > 1 { " x"@ + decimal(count) } else { seq![] })
    }
}

/// The clauses written for a frame with something held: a first word `pN`
/// and line words after it, the last of them no repeat count.
proof fn lemma_written_tokens(f: Frame, c: Seq<bool>) -> (r: (Seq<char>, Seq<Seq<char>>))
    requires
        c.len() == 4,
        writable_frame(f, c),
        written_ports(f, c, 4).len() > 0,
    ensures
        clauses_text(f, c, 4) == r.0 + spaced(r.1),
        line_word(r.0),
        r.0.len() == 2,
        r.0[0] == 'p',
        forall|i: int| 0 <= i < r.1.len() ==> line_word(#[trigger] r.1[i]),
        r.1.len() > 0 ==> !repeat_word(r.1.last()),
{
    let ports = written_ports(f, c, 4);
    let m = ports.len() as int;
    let xs = written_clauses(f, c, 4);
    let ts = Seq::new(m as nat, |i: int| clause_tokens(ports[i], f[ports[i]]));
    lemma_written_ports(f, c, 4);
    lemma_clauses_joined(f, c, 4);
    assert forall|i: int| 0 <= i < ts.len() implies (#[trigger] ts[i]).len() >= 1 && xs[i] == ts[i][0] + spaced(ts[i].drop_first())
        && (forall|j: int| 0 <= j < ts[i].len() ==> clause_word(#[trigger] ts[i][j])) by {
        lemma_clause_words(ports[i], f[ports[i]]);
    }
    assert forall|i: int, j: int| 0 <= i < ts.len() && 0 <= j < ts[i].len() implies line_word(#[trigger] ts[i][j]) by {
        assert(clause_word(ts[i][j]));
    }
    lemma_joined_tokens(xs, ts);
    let jt = joined_tokens(ts);
    let w = jt[0];
    let rest = jt.drop_first();
    lemma_clause_words(ports[0], f[ports[0]]);
    assert(clause_word(ts[m - 1][ts[m - 1].len() - 1]));
    assert forall|i: int| 0 <= i < rest.len() implies line_word(#[trigger] rest[i]) by {
        assert(rest[i] == jt[i + 1]);
    }
    if rest.len() > 0 {
        assert(rest.last() == jt.last());
    }
    (w, rest)
}

/// The clauses of a frame line, read from the neutral frame, give the frame.
proof fn lemma_clauses_read(f: Frame, c: Seq<bool>)
    requires
        c.len() == 4,
        writable_frame(f, c),
        written_ports(f, c, 4).len() > 0,
    ensures
        apply_clauses(pieces(clauses_text(f, c, 4), '|'), 0, c, ClauseState { frame: neutral_frame(c), used: no_ports() })
            matches Ok(done) && done.frame == f,
{
    let ports = written_ports(f, c, 4);
    let xs = written_clauses(f, c, 4);
    lemma_written_ports(f, c, 4);
    lemma_clauses_joined(f, c, 4);
    assert forall|i: int| 0 <= i < xs.len() implies free_of(#[trigger] xs[i], '|') by {
        lemma_clause_words(ports[i], f[ports[i]]);
    }
    lemma_joined_pieces(xs);
    assert(partial_used(ports, 0) == no_ports());
    lemma_read_clauses(f, c, 0);
    lemma_partial_whole(f, c);
}

/// A frame line reads back as `count` copies of its frame.
proof fn lemma_frame_line(f: Frame, c: Seq<bool>, count: nat, number: int, st: ParseState)
    requires
        c.len() == 4,
        writable_frame(f, c),
        written_ports(f, c, 4).len() > 0,
        1 <= count <= usize::MAX,
        st.connected == c,
    ensures
        read_line(run_body(f, c, count), number, st)
            == Ok::<ParseState, ScriptErrorView>(ParseState { frames: st.frames + copies(f, count), ..st }),
        one_line(run_body(f, c, count)),
        run_body(f, c, count).len() > 0,
        !is_ws(run_body(f, c, count).last()),
{
    let (w, rest) = lemma_written_tokens(f, c);
    lemma_clauses_read(f, c);
    let body = clauses_text(f, c, 4);
    assert(body.len() > 0);
    assert(!eq_ignore_case(w, kw_seed()) && !eq_ignore_case(w, kw_ports()) && !eq_ignore_case(w, kw_wait()));
    if count > 1 {
        let xw = seq!['x'] + decimal(count);
        lemma_decimal_word(count);
        lemma_decimal_value(count);
        assert(line_word(xw)) by {
            assert forall|i: int| 0 <= i < xw.len() implies !is_ws(#[trigger] xw[i]) && xw[i] != '#' && xw[i] != '\n' by {
                if i > 0 {
                    assert(xw[i] == decimal(count)[i - 1]);
                }
            }
        }
        let ws = rest + seq![xw];
        assert forall|i: int| 0 <= i < ws.len() implies line_word(#[trigger] ws[i]) by {
            if i < rest.len() {
                assert(ws[i] == rest[i]);
            }
        }
        lemma_spaced_append(rest, seq![xw]);
        lemma_spaced_one(xw);
        reveal_strlit(" x");
        assert(run_body(f, c, count) =~= w + spaced(ws));
        lemma_line_parts(w, ws);
        assert(ws.drop_last() =~= rest);
        assert(ws.last() == xw);
        assert(xw.drop_first() =~= decimal(count));
        assert(all_digits(decimal(count)));
        assert(split_repeat(run_body(f, c, count)) == Ok::<(Seq<char>, nat), ErrorKindView>((body, count)));
    } else {
        assert(run_body(f, c, count) =~= w + spaced(rest));
        lemma_line_parts(w, rest);
        assert(split_repeat(run_body(f, c, count)) == Ok::<(Seq<char>, nat), ErrorKindView>((body, 1nat)));
    }
}

/// A `wait` line reads back as `count` neutral frames.
proof fn lemma_wait_line(f: Frame, c: Seq<bool>, count: nat, number: int, st: ParseState)
    requires
        c.len() == 4,
        writable_frame(f, c),
        written_ports(f, c, 4).len() == 0,
        count <= u32::MAX,
        st.connected == c,
    ensures
        read_line(run_body(f, c, count), number, st)
            == Ok::<ParseState, ScriptErrorView>(ParseState { frames: st.frames + copies(f, count), ..st }),
        one_line(run_body(f, c, count)),
        run_body(f, c, count).len() > 0,
        !is_ws(run_body(f, c, count).last()),
{
    lemma_clauses_joined(f, c, 4);
    lemma_idle_frame(f, c);
    let d = decimal(count);
    lemma_decimal_word(count);
    lemma_decimal_value(count);
    lemma_keywords();
    lemma_spaced_one(d);
    reveal_strlit("wait ");
    let line = kw_wait() + spaced(seq![d]);
    assert(run_body(f, c, count) =~= line);
    assert(forall|i: int| 0 <= i < seq![d].len() ==> line_word(#[trigger] seq![d][i]));
    lemma_line_parts(kw_wait(), seq![d]);
    lemma_keyword_line(kw_wait(), seq![d]);
    assert(trim(spaced(seq![d])) == d) by {
        let t = spaced(seq![d]);
        assert(t =~= seq![' '] + d);
        assert(t.drop_first() =~= d);
        assert(trim_start(d) == d);
        assert(trim_end(d) == d);
    }
    if d.len() >= 2 {
        assert('0' <= d[1] <= '9');
    }
    lemma_parse_decimal(count, u32::MAX as nat);
    assert(script_u32(d) == Some(count as u32));
}

/// The lines, each followed by a line feed.
pub open spec fn feed(ls: Seq<Seq<char>>) -> Seq<char>
    decreases ls.len(),
{
    if ls.len() == 0 {
        seq![]
    } else {
        ls[0] + seq!['\n'] + feed(ls.drop_first())
    }
}

proof fn lemma_feed_append(a: Seq<Seq<char>>, b: Seq<Seq<char>>)
    ensures
        feed(a + b) == feed(a) + feed(b),
    decreases a.len(),
{
    if a.len() == 0 {
        assert(a + b =~= b);
        assert(feed(a) + feed(b) =~= feed(b));
    } else {
        assert((a + b).drop_first() =~= a.drop_first() + b);
        assert((a + b)[0] == a[0]);
        lemma_feed_append(a.drop_first(), b);
        assert(feed(a + b) =~= feed(a) + feed(b));
    }
}

/// Lines with no line feed in them, none ending in a carriage return, are
/// the lines of their text.
proof fn lemma_feed_lines(ls: Seq<Seq<char>>)
    requires
        forall|i: int| 0 <= i < ls.len() ==> one_line(#[trigger] ls[i]) && ls[i].len() > 0 && !is_ws(ls[i].last()),
    ensures
        lines_from(feed(ls), seq![]) == ls,
    decreases ls.len(),
{
    if ls.len() > 0 {
        let rest = ls.drop_first();
        assert forall|i: int| 0 <= i < rest.len() implies one_line(#[trigger] rest[i]) && rest[i].len() > 0 && !is_ws(rest[i].last()) by {
            assert(rest[i] == ls[i + 1]);
        }
        lemma_feed_lines(rest);
        assert(one_line(ls[0]) && !is_ws(ls[0].last()));
        lemma_lines_line(ls[0], feed(rest));
        assert(seq![ls[0]] + rest =~= ls);
    }
}

/// The lines, without their line feeds, of the runs that start among the
/// first `n` frames.
pub open spec fn run_bodies(frames: Seq<Frame>, c: Seq<bool>, n: int) -> Seq<Seq<char>>
    decreases n,
{
    if n <= 0 {
        seq![]
    } else {
        run_bodies(frames, c, n - 1) + if starts_run(frames, c, n - 1) {
            seq![run_body(frames[n - 1], c, (run_end(frames, c, n - 1, n) - (n - 1)) as nat)]
        } else {
            seq![]
        }
    }
}

proof fn lemma_runs_fed(frames: Seq<Frame>, c: Seq<bool>, n: int)
    requires
        0 <= n,
    ensures
        runs_text(frames, c, n) == feed(run_bodies(frames, c, n)),
    decreases n,
{
    if n > 0 {
        lemma_runs_fed(frames, c, n - 1);
        let more = if starts_run(frames, c, n - 1) {
            seq![run_body(frames[n - 1], c, (run_end(frames, c, n - 1, n) - (n - 1)) as nat)]
        } else {
            Seq::<Seq<char>>::empty()
        };
        lemma_feed_append(run_bodies(frames, c, n - 1), more);
        if starts_run(frames, c, n - 1) {
            let b = more[0];
            assert(more.drop_first() =~= Seq::<Seq<char>>::empty());
            assert(feed(more.drop_first()) == Seq::<char>::empty());
            assert(feed(more) =~= b + seq!['\n']);
            assert(run_line(frames[n - 1], c, (run_end(frames, c, n - 1, n) - (n - 1)) as nat) =~= b + seq!['\n']);
        } else {
            assert(feed(more) =~= Seq::<char>::empty());
        }
        assert(runs_text(frames, c, n) =~= feed(run_bodies(frames, c, n)));
    }
}

/// The seed line of a script.
pub open spec fn seed_line(seed: u32) -> Seq<char> {
    "seed 0x"@ + hex_fixed(seed as nat, 8)
}

/// The ports line of a script.
pub open spec fn ports_line(c: Seq<bool>) -> Seq<char> {
    "ports"@ + port_list(c, 4)
}

proof fn lemma_header_lines(seed: u32, c: Seq<bool>)
    requires
        c.len() == 4,
    ensures
        one_line(seed_line(seed)),
        seed_line(seed).len() > 0,
        !is_ws(seed_line(seed).last()),
        one_line(ports_line(c)),
        ports_line(c).len() > 0,
        !is_ws(ports_line(c).last()),
{
    reveal_strlit("seed 0x");
    reveal_strlit("ports");
    reveal_with_fuel(pow16, 9);
    lemma_hex_value(seed as nat, 8);
    let hex = hex_fixed(seed as nat, 8);
    let sl = seed_line(seed);
    assert forall|i: int| 0 <= i < sl.len() implies #[trigger] sl[i] != '\n' by {
        if i >= 7 {
            assert(sl[i] == hex[i - 7]);
        }
    }
    assert(sl.last() == hex[7]);
    lemma_connected_ports(c, 4);
    let ln = listed_numbers(c, 4);
    lemma_spaced_free(ln, '\n');
    let pl = ports_line(c);
    let sp = spaced(ln);
    assert(pl =~= kw_ports() + sp);
    assert forall|i: int| 0 <= i < pl.len() implies #[trigger] pl[i] != '\n' by {
        if i >= 5 {
            assert(pl[i] == sp[i - 5]);
        }
    }
    if ln.len() > 0 {
        lemma_spaced_ends(ln);
        assert(pl.last() == sp.last());
    } else {
        assert(pl =~= kw_ports());
    }
}

/// A writable frame holds exactly itself.
proof fn lemma_held_writable(f: Frame, c: Seq<bool>)
    requires
        c.len() == 4,
        writable_frame(f, c),
    ensures
        held(f, c) == f,
{
    assert forall|k: int| 0 <= k < 4 implies held(f, c)[k] == f[k] by {
        assert(f[k].connected == c[k]);
    }
    assert(held(f, c) =~= f);
}

/// Every frame from `j` up to the end of a run holds what frame `i` holds.
proof fn lemma_run_end(frames: Seq<Frame>, c: Seq<bool>, i: int, j: int)
    requires
        0 <= j <= frames.len(),
    ensures
        j <= run_end(frames, c, i, j) <= frames.len(),
        forall|k: int| j <= k < run_end(frames, c, i, j) ==> held(#[trigger] frames[k], c) == held(frames[i], c),
    decreases frames.len() - j,
{
    if j < frames.len() && held(frames[j], c) == held(frames[i], c) {
        lemma_run_end(frames, c, i, j + 1);
    }
}

/// Runs measured against frames that hold the same end at the same place.
proof fn lemma_run_end_same(frames: Seq<Frame>, c: Seq<bool>, i1: int, i2: int, j: int)
    requires
        held(frames[i1], c) == held(frames[i2], c),
    ensures
        run_end(frames, c, i1, j) == run_end(frames, c, i2, j),
    decreases frames.len() - j,
{
    if 0 <= j < frames.len() && held(frames[j], c) == held(frames[i1], c) {
        lemma_run_end_same(frames, c, i1, i2, j + 1);
    }
}

/// Reading one more line after others.
proof fn lemma_read_lines_snoc(ls: Seq<Seq<char>>, x: Seq<char>, i: int, st: ParseState)
    requires
        0 <= i <= ls.len(),
    ensures
        read_lines(ls.push(x), i, st) == (match read_lines(ls, i, st) {
            Ok(next) => read_line(x, ls.len() + 1int, next),
            Err(e) => Err(e),
        }),
    decreases ls.len() - i,
{
    let lx = ls.push(x);
    if i == ls.len() {
        assert(lx[i] == x);
        assert(read_lines(lx, i + 1, st) == Ok::<ParseState, ScriptErrorView>(st)) by {
            assert(i + 1 >= lx.len());
        }
        match read_line(x, i + 1, st) {
            Ok(next) => {
                assert(read_lines(lx, i + 1, next) == Ok::<ParseState, ScriptErrorView>(next));
            },
            Err(e) => {},
        }
    } else {
        assert(lx[i] == ls[i]);
        match read_line(ls[i], i + 1, st) {
            Ok(next) => {
                lemma_read_lines_snoc(ls, x, i + 1, next);
            },
            Err(e) => {},
        }
    }
}

/// A movie a script can hold: every frame is writable with the ports of the
/// first frame, and no run of idle frames is longer than a `wait` can count.
pub open spec fn writable_movie(m: MovieView) -> bool {
    let c = format_ports(m.frames);
    &&& m.frames.len() <= usize::MAX
    &&& forall|i: int| 0 <= i < m.frames.len() ==> writable_frame(#[trigger] m.frames[i], c)
    &&& forall|i: int|
        0 <= i < m.frames.len() && starts_run(m.frames, c, i) && clauses_text(m.frames[i], c, 4).len() == 0
            ==> #[trigger] run_end(m.frames, c, i, i + 1) - i <= u32::MAX
}

/// How far into the frames the runs starting among the first `n` reach.
pub open spec fn covered(frames: Seq<Frame>, c: Seq<bool>, n: int) -> int {
    if n <= 0 { 0 } else { run_end(frames, c, n - 1, n) }
}

/// The header and the lines of the runs starting among the first `n` frames
/// read back as the frames those runs cover.
proof fn lemma_read_runs(m: MovieView, n: int)
    requires
        writable_movie(m),
        0 <= n <= m.frames.len(),
    ensures
        read_lines(seq![seed_line(m.seed), ports_line(format_ports(m.frames))] + run_bodies(m.frames, format_ports(m.frames), n), 0, initial_state())
            == Ok::<ParseState, ScriptErrorView>(ParseState {
                seed: m.seed,
                connected: format_ports(m.frames),
                frames: m.frames.take(covered(m.frames, format_ports(m.frames), n)),
            }),
    decreases n,
{
    let frames = m.frames;
    let c = format_ports(frames);
    let head = seq![seed_line(m.seed), ports_line(c)];
    if n == 0 {
        let s1 = ParseState { seed: m.seed, ..initial_state() };
        let s2 = ParseState { connected: c, ..s1 };
        lemma_seed_line(m.seed, 1, initial_state());
        lemma_ports_line(c, 2, s1);
        assert(head + run_bodies(frames, c, 0) =~= seq![seed_line(m.seed)].push(ports_line(c)));
        lemma_read_lines_snoc(seq![seed_line(m.seed)], ports_line(c), 0, initial_state());
        lemma_read_lines_snoc(Seq::<Seq<char>>::empty(), seed_line(m.seed), 0, initial_state());
        assert(Seq::<Seq<char>>::empty().push(seed_line(m.seed)) =~= seq![seed_line(m.seed)]);
        assert(frames.take(0) =~= Seq::<Frame>::empty());
    } else {
        lemma_read_runs(m, n - 1);
        let before = head + run_bodies(frames, c, n - 1);
        let st = ParseState { seed: m.seed, connected: c, frames: frames.take(covered(frames, c, n - 1)) };
        let i = n - 1;
        lemma_run_end(frames, c, i, n);
        if i > 0 {
            lemma_run_end(frames, c, i - 1, i);
        }
        if starts_run(frames, c, i) {
            assert(covered(frames, c, i) == i);
            let end = run_end(frames, c, i, n);
            let count = (end - i) as nat;
            let f = frames[i];
            let body = run_body(f, c, count);
            assert(head + run_bodies(frames, c, n) =~= before.push(body));
            lemma_read_lines_snoc(before, body, 0, initial_state());
            lemma_clauses_joined(f, c, 4);
            if written_ports(f, c, 4).len() > 0 {
                lemma_frame_line(f, c, count, before.len() + 1int, st);
            } else {
                assert(run_end(frames, c, i, i + 1) - i <= u32::MAX);
                lemma_wait_line(f, c, count, before.len() + 1int, st);
            }
            lemma_held_writable(f, c);
            assert forall|k: int| i <= k < end implies #[trigger] frames[k] == f by {
                if k > i {
                    lemma_held_writable(frames[k], c);
                }
            }
            assert(frames.take(i) + copies(f, count) =~= frames.take(end));
        } else {
            assert(run_bodies(frames, c, n) =~= run_bodies(frames, c, n - 1));
            lemma_run_end_same(frames, c, i - 1, i, n);
            assert(covered(frames, c, n) == covered(frames, c, n - 1));
        }
    }
}

/// Each run line is one line, not empty, and ends in something other than white space.
proof fn lemma_bodies_lines(m: MovieView, n: int)
    requires
        writable_movie(m),
        0 <= n <= m.frames.len(),
    ensures
        forall|j: int| 0 <= j < run_bodies(m.frames, format_ports(m.frames), n).len() ==>
            one_line(#[trigger] run_bodies(m.frames, format_ports(m.frames), n)[j])
            && run_bodies(m.frames, format_ports(m.frames), n)[j].len() > 0
            && !is_ws(run_bodies(m.frames, format_ports(m.frames), n)[j].last()),
    decreases n,
{
    if n > 0 {
        let frames = m.frames;
        let c = format_ports(frames);
        lemma_bodies_lines(m, n - 1);
        let prev = run_bodies(frames, c, n - 1);
        let all = run_bodies(frames, c, n);
        let i = n - 1;
        if starts_run(frames, c, i) {
            lemma_run_end(frames, c, i, n);
            let count = (run_end(frames, c, i, n) - i) as nat;
            let f = frames[i];
            let st = ParseState { seed: 0, connected: c, frames: seq![] };
            lemma_clauses_joined(f, c, 4);
            if written_ports(f, c, 4).len() > 0 {
                lemma_frame_line(f, c, count, 1, st);
            } else {
                assert(run_end(frames, c, i, i + 1) - i <= u32::MAX);
                lemma_wait_line(f, c, count, 1, st);
            }
            assert forall|j: int| 0 <= j < all.len() implies one_line(#[trigger] all[j]) && all[j].len() > 0
                && !is_ws(all[j].last()) by {
                if j < prev.len() {
                    assert(all[j] == prev[j]);
                } else {
                    assert(all[j] == run_body(f, c, count));
                }
            }
        } else {
            assert(all =~= prev);
        }
    }
}

/// Writing a movie as a script and reading the script back gives the movie,
/// for every movie a script can hold.
pub proof fn written_scripts_read_back(m: MovieView)
    requires
        writable_movie(m),
    ensures
        script_movie(script_text(m)) == Ok::<MovieView, ScriptErrorView>(m),
{
    let frames = m.frames;
    let c = format_ports(frames);
    let n = frames.len() as int;
    let head = seq![seed_line(m.seed), ports_line(c)];
    let bodies = run_bodies(frames, c, n);
    lemma_read_runs(m, n);
    lemma_runs_fed(frames, c, n);
    lemma_feed_append(head, bodies);
    assert(head.drop_first() =~= seq![ports_line(c)]);
    assert(seq![ports_line(c)].drop_first() =~= Seq::<Seq<char>>::empty());
    assert(feed(seq![ports_line(c)].drop_first()) == Seq::<char>::empty());
    reveal_strlit("\nports");
    reveal_strlit("ports");
    assert("\nports"@ =~= seq!['\n'] + "ports"@);
    assert(feed(seq![ports_line(c)]) =~= ports_line(c) + seq!['\n']);
    assert(feed(head) =~= seed_line(m.seed) + seq!['\n'] + ports_line(c) + seq!['\n']);
    assert(runs_text(frames, c, n) == feed(bodies));
    assert(script_text(m) =~= feed(head) + feed(bodies));
    assert(script_text(m) =~= feed(head + bodies));
    lemma_header_lines(m.seed, c);
    lemma_bodies_lines(m, n);
    assert forall|k: int| 0 <= k < (head + bodies).len() implies one_line(#[trigger] (head + bodies)[k])
        && (head + bodies)[k].len() > 0 && !is_ws((head + bodies)[k].last()) by {
        if k >= 2 {
            assert((head + bodies)[k] == bodies[k - 2]);
        }
    }
    lemma_feed_lines(head + bodies);
    if n > 0 {
        lemma_run_end(frames, c, n - 1, n);
    }
    assert(frames.take(covered(frames, c, n)) =~= frames);
}

} // verus!
