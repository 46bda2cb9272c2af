use vstd::prelude::*;

verus! {

/// `String::push` of std: appends one character to the end of the string,
/// as its documentation says; nothing else about the string changes.
pub assume_specification[ String::push ](s: &mut String, ch: char)
    ensures
        final(s)@ == old(s)@.push(ch),
;

/// The characters of `s`, in order.
pub fn chars_of(s: &str) -> (v: Vec<char>)
    ensures
        v@ == s@,
{
    let mut v: Vec<char> = Vec::new();
    for c in it: s.chars()
        invariant
            v@ == it.seq().take(it.index() as int),
            it.seq() == s@,
    {
        v.push(c);
    }
    v
}

/// A string holding exactly the characters of `v`.
pub fn string_of(v: &[char]) -> (s: String)
    ensures
        s@ == v@,
{
    let mut s = String::new();
    let mut i: usize = 0;
    while i < v.len()
        invariant
            i <= v@.len(),
            s@ == v@.take(i as int),
        decreases v@.len() - i,
    {
        s.push(v[i]);
        i += 1;
        assert(v@.take(i as int) == v@.take(i - 1).push(v@[i - 1]));
    }
    assert(v@.take(v@.len() as int) == v@);
    s
}

/// Whether `a` and `b` hold the same characters.
pub fn str_eq(a: &str, b: &str) -> (r: bool)
    ensures
        r == (a@ == b@),
{
    let x = chars_of(a);
    let y = chars_of(b);
    chars_eq(&x, &y)
}

/// Whether two character slices are equal.
pub fn chars_eq(x: &[char], y: &[char]) -> (r: bool)
    ensures
        r == (x@ == y@),
{
    if x.len() != y.len() {
        return false;
    }
    let mut i: usize = 0;
    while i < x.len()
        invariant
            i <= x@.len(),
            x@.len() == y@.len(),
            forall|j: int| 0 <= j < i ==> x@[j] == y@[j],
        decreases x@.len() - i,
    {
        if x[i] != y[i] {
            return false;
        }
        i += 1;
    }
    assert(x@ =~= y@);
    true
}

/// The decimal digit for `d`.
pub open spec fn digit_char(d: nat) -> char {
    if d == 0 { '0' }
    else if d == 1 { '1' }
    else if d == 2 { '2' }
    else if d == 3 { '3' }
    else if d == 4 { '4' }
    else if d == 5 { '5' }
    else if d == 6 { '6' }
    else if d == 7 { '7' }
    else if d == 8 { '8' }
    else { '9' }
}

/// `n` written in decimal, without leading zeros.
pub open spec fn decimal(n: nat) -> Seq<char>
    decreases n,
{
    if n < 10 {
        seq![digit_char(n)]
    } else {
        decimal(n / 10).push(digit_char(n % 10))
    }
}

/// `n` written in decimal, with a minus sign when negative.
pub open spec fn int_text(n: int) -> Seq<char> {
    if n < 0 {
        seq!['-'] + decimal((-n) as nat)
    } else {
        decimal(n as nat)
    }
}

/// `n` in decimal, padded with zeros on the left to at least two digits.
pub open spec fn two_digits(n: nat) -> Seq<char> {
    if n < 10 {
        seq!['0', digit_char(n)]
    } else {
        decimal(n)
    }
}

fn digit_of(d: u64) -> (c: char)
    requires
        d < 10,
    ensures
        c == digit_char(d as nat),
{
    if d == 0 { '0' }
    else if d == 1 { '1' }
    else if d == 2 { '2' }
    else if d == 3 { '3' }
    else if d == 4 { '4' }
    else if d == 5 { '5' }
    else if d == 6 { '6' }
    else if d == 7 { '7' }
    else if d == 8 { '8' }
    else { '9' }
}

/// Appends `n` in decimal.
pub fn push_decimal(out: &mut String, n: u64)
    ensures
        final(out)@ == old(out)@ + decimal(n as nat),
    decreases n,
{
    if n >= 10 {
        push_decimal(out, n / 10);
    }
    out.push(digit_of(n % 10));
    assert(decimal(n as nat) == if n < 10 { seq![digit_char(n as nat)] } else { decimal((n / 10) as nat).push(digit_char((n % 10) as nat)) });
}

/// Appends `n` in decimal, with a minus sign when negative.
pub fn push_int(out: &mut String, n: i64)
    ensures
        final(out)@ == old(out)@ + int_text(n as int),
{
    if n < 0 {
        out.push('-');
        let m: u64 = if n == i64::MIN { 9223372036854775808u64 } else { (-n) as u64 };
        push_decimal(out, m);
        assert(old(out)@.push('-') + decimal(m as nat) == old(out)@ + (seq!['-'] + decimal(m as nat)));
    } else {
        push_decimal(out, n as u64);
    }
}

/// Appends `n` padded to at least two digits.
pub fn push_two_digits(out: &mut String, n: u64)
    ensures
        final(out)@ == old(out)@ + two_digits(n as nat),
{
    if n < 10 {
        out.push('0');
        out.push(digit_of(n));
        assert(old(out)@.push('0').push(digit_char(n as nat)) == old(out)@ + seq!['0', digit_char(n as nat)]);
    } else {
        push_decimal(out, n);
    }
}

/// The lower-case hexadecimal digit for `d`.
pub open spec fn hex_char(d: nat) -> char {
    if d < 10 { digit_char(d) }
    else if d == 10 { 'a' }
    else if d == 11 { 'b' }
    else if d == 12 { 'c' }
    else if d == 13 { 'd' }
    else if d == 14 { 'e' }
    else { 'f' }
}

/// The last `width` hexadecimal digits of `n`, zeros on the left.
pub open spec fn hex_fixed(n: nat, width: nat) -> Seq<char>
    decreases width,
{
    if width == 0 {
        seq![]
    } else {
        hex_fixed(n / 16, (width - 1) as nat).push(hex_char(n % 16))
    }
}

fn hex_of(d: u64) -> (c: char)
    requires
        d < 16,
    ensures
        c == hex_char(d as nat),
{
    if d < 10 { digit_of(d) }
    else if d == 10 { 'a' }
    else if d == 11 { 'b' }
    else if d == 12 { 'c' }
    else if d == 13 { 'd' }
    else if d == 14 { 'e' }
    else { 'f' }
}

/// Appends the last `width` hexadecimal digits of `n`, zeros on the left.
pub fn push_hex(out: &mut String, n: u64, width: u64)
    ensures
        final(out)@ == old(out)@ + hex_fixed(n as nat, width as nat),
    decreases width,
{
    if width > 0 {
        push_hex(out, n / 16, width - 1);
        out.push(hex_of(n % 16));
    }
}

/// Appends the characters of `s`.
pub fn push_str(out: &mut String, s: &str)
    ensures
        final(out)@ == old(out)@ + s@,
{
    let v = chars_of(s);
    let mut i: usize = 0;
    while i < v.len()
        invariant
            i <= v@.len(),
            v@ == s@,
            out@ == old(out)@ + v@.take(i as int),
        decreases v@.len() - i,
    {
        out.push(v[i]);
        i += 1;
        assert(v@.take(i as int) == v@.take(i - 1).push(v@[i - 1]));
    }
    assert(v@.take(v@.len() as int) == v@);
}

/// Unicode white space, as `char::is_whitespace` decides it.
pub open spec fn is_ws(c: char) -> bool {
    let u = c as u32;
    (0x09 <= u && u <= 0x0d) || u == 0x20 || u == 0x85 || u == 0xa0 || u == 0x1680
        || (0x2000 <= u && u <= 0x200a) || u == 0x2028 || u == 0x2029 || u == 0x202f
        || u == 0x205f || u == 0x3000
}

/// Whether `c` is white space.
pub fn is_whitespace(c: char) -> (r: bool)
    ensures
        r == is_ws(c),
{
    let u = c as u32;
    (0x09 <= u && u <= 0x0d) || u == 0x20 || u == 0x85 || u == 0xa0 || u == 0x1680
        || (0x2000 <= u && u <= 0x200a) || u == 0x2028 || u == 0x2029 || u == 0x202f
        || u == 0x205f || u == 0x3000
}

/// `s` without its trailing white space.
pub open spec fn trim_end(s: Seq<char>) -> Seq<char>
    decreases s.len(),
{
    if s.len() > 0 && is_ws(s.last()) {
        trim_end(s.drop_last())
    } else {
        s
    }
}

/// `s` without its leading white space.
pub open spec fn trim_start(s: Seq<char>) -> Seq<char>
    decreases s.len(),
{
    if s.len() > 0 && is_ws(s[0]) {
        trim_start(s.drop_first())
    } else {
        s
    }
}

/// `s` without white space at either end.
pub open spec fn trim(s: Seq<char>) -> Seq<char> {
    trim_end(trim_start(s))
}

/// Length of `s` once trailing white space is dropped.
pub fn trim_end_len(s: &[char]) -> (n: usize)
    ensures
        n <= s@.len(),
        s@.take(n as int) == trim_end(s@),
{
    let mut n = s.len();
    assert(s@.take(n as int) =~= s@);
    while n > 0 && is_whitespace(s[n - 1])
        invariant
            n <= s@.len(),
            trim_end(s@.take(n as int)) == trim_end(s@),
        decreases n,
    {
        assert(s@.take(n as int).drop_last() =~= s@.take(n - 1));
        n -= 1;
    }
    n
}

/// Number of leading white-space characters of `s`.
pub fn trim_start_len(s: &[char]) -> (n: usize)
    ensures
        n <= s@.len(),
        s@.skip(n as int) == trim_start(s@),
{
    let mut n: usize = 0;
    assert(s@.skip(0) =~= s@);
    while n < s.len() && is_whitespace(s[n])
        invariant
            n <= s@.len(),
            trim_start(s@.skip(n as int)) == trim_start(s@),
        decreases s@.len() - n,
    {
        assert(s@.skip(n as int).drop_first() =~= s@.skip(n + 1));
        n += 1;
    }
    n
}

/// The characters of `v` from `start` up to `end`.
pub fn slice_chars(v: &[char], start: usize, end: usize) -> (r: Vec<char>)
    requires
        start <= end <= v@.len(),
    ensures
        r@ == v@.subrange(start as int, end as int),
{
    let mut r: Vec<char> = Vec::new();
    let mut i = start;
    while i < end
        invariant
            start <= i <= end <= v@.len(),
            r@ == v@.subrange(start as int, i as int),
        decreases end - i,
    {
        r.push(v[i]);
        i += 1;
        assert(r@ =~= v@.subrange(start as int, i as int));
    }
    r
}

/// `c` with ASCII upper case mapped to lower case.
pub open spec fn ascii_lower(c: char) -> char {
    if 'A' <= c && c <= 'Z' {
        ((c as u32) + 32) as char
    } else {
        c
    }
}

/// Whether `a` and `b` are equal once ASCII letters are compared without case.
pub open spec fn eq_ignore_case(a: Seq<char>, b: Seq<char>) -> bool {
    a.len() == b.len() && forall|i: int| 0 <= i < a.len() ==> #[trigger] ascii_lower(a[i]) == ascii_lower(b[i])
}

/// `c` with ASCII upper case mapped to lower case.
pub fn to_ascii_lower(c: char) -> (r: char)
    ensures
        r == ascii_lower(c),
{
    if 'A' <= c && c <= 'Z' {
        let u = ((c as u32) + 32) as u8;
        u as char
    } else {
        c
    }
}

/// Compares two character slices without regard to ASCII case.
pub fn chars_eq_ignore_case(a: &[char], b: &[char]) -> (r: bool)
    ensures
        r == eq_ignore_case(a@, b@),
{
    if a.len() != b.len() {
        return false;
    }
    let mut i: usize = 0;
    while i < a.len()
        invariant
            i <= a@.len(),
            a@.len() == b@.len(),
            forall|j: int| 0 <= j < i ==> #[trigger] ascii_lower(a@[j]) == ascii_lower(b@[j]),
        decreases a@.len() - i,
    {
        if to_ascii_lower(a[i]) != to_ascii_lower(b[i]) {
            return false;
        }
        i += 1;
    }
    true
}

/// Compares two strings without regard to ASCII case.
pub fn str_eq_ignore_case(a: &str, b: &str) -> (r: bool)
    ensures
        r == eq_ignore_case(a@, b@),
{
    let x = chars_of(a);
    let y = chars_of(b);
    chars_eq_ignore_case(x.as_slice(), y.as_slice())
}

/// The character sequences of a list of character vectors.
pub open spec fn views(v: Seq<Vec<char>>) -> Seq<Seq<char>> {
    v.map_values(|x: Vec<char>| x@)
}

proof fn lemma_views_push(v: Seq<Vec<char>>, x: Vec<char>)
    ensures
        views(v.push(x)) == views(v).push(x@),
{
    assert(views(v.push(x)) =~= views(v).push(x@));
}

/// The lines of `s` still to come when `cur` has been read of the current
/// one: a line ends at a line feed, which is dropped together with a carriage
/// return just before it; text after the last line feed is a last line.
pub open spec fn lines_from(s: Seq<char>, cur: Seq<char>) -> Seq<Seq<char>>
    decreases s.len(),
{
    if s.len() == 0 {
        if cur.len() == 0 { seq![] } else { seq![cur] }
    } else if s[0] == '\n' {
        let line = if cur.len() > 0 && cur.last() == '\r' { cur.drop_last() } else { cur };
        seq![line] + lines_from(s.drop_first(), seq![])
    } else {
        lines_from(s.drop_first(), cur.push(s[0]))
    }
}

/// The lines of `s`, as `str::lines` gives them.
pub open spec fn lines(s: Seq<char>) -> Seq<Seq<char>> {
    lines_from(s, seq![])
}

/// Splits text into lines.
pub fn lines_of(s: &[char]) -> (r: Vec<Vec<char>>)
    ensures
        views(r@) == lines(s@),
{
    let mut r: Vec<Vec<char>> = Vec::new();
    let mut cur: Vec<char> = Vec::new();
    let mut i: usize = 0;
    assert(s@.skip(0) =~= s@);
    assert(views(r@) =~= Seq::<Seq<char>>::empty());
    while i < s.len()
        invariant
            i <= s@.len(),
            views(r@) + lines_from(s@.skip(i as int), cur@) == lines(s@),
        decreases s@.len() - i,
    {
        let ghost rest = s@.skip(i as int);
        assert(rest.drop_first() =~= s@.skip(i + 1));
        if s[i] == '\n' {
            let n = cur.len();
            let line = if n > 0 && cur[n - 1] == '\r' {
                slice_chars(cur.as_slice(), 0, n - 1)
            } else {
                slice_chars(cur.as_slice(), 0, n)
            };
            assert(line@ == if cur@.len() > 0 && cur@.last() == '\r' { cur@.drop_last() } else { cur@ });
            proof {
                lemma_views_push(r@, line);
            }
            r.push(line);
            cur = Vec::new();
            assert(views(r@) + lines_from(s@.skip(i + 1), cur@) =~= lines(s@));
        } else {
            cur.push(s[i]);
        }
        i += 1;
    }
    if cur.len() > 0 {
        proof {
            lemma_views_push(r@, cur);
        }
        r.push(cur);
    }
    assert(views(r@) =~= lines(s@));
    r
}

/// The white-space separated words of `s` still to come when `cur` has been
/// read of the current one.
pub open spec fn words_from(s: Seq<char>, cur: Seq<char>) -> Seq<Seq<char>>
    decreases s.len(),
{
    if s.len() == 0 {
        if cur.len() == 0 { seq![] } else { seq![cur] }
    } else if is_ws(s[0]) {
        (if cur.len() == 0 { seq![] } else { seq![cur] }) + words_from(s.drop_first(), seq![])
    } else {
        words_from(s.drop_first(), cur.push(s[0]))
    }
}

/// The white-space separated words of `s`, as `str::split_whitespace` gives them.
pub open spec fn words(s: Seq<char>) -> Seq<Seq<char>> {
    words_from(s, seq![])
}

/// Splits text at white space.
pub fn words_of(s: &[char]) -> (r: Vec<Vec<char>>)
    ensures
        views(r@) == words(s@),
{
    let mut r: Vec<Vec<char>> = Vec::new();
    let mut cur: Vec<char> = Vec::new();
    let mut i: usize = 0;
    assert(s@.skip(0) =~= s@);
    assert(views(r@) =~= Seq::<Seq<char>>::empty());
    while i < s.len()
        invariant
            i <= s@.len(),
            views(r@) + words_from(s@.skip(i as int), cur@) == words(s@),
        decreases s@.len() - i,
    {
        let ghost rest = s@.skip(i as int);
        assert(rest.drop_first() =~= s@.skip(i + 1));
        if is_whitespace(s[i]) {
            let ghost before = if cur@.len() == 0 { Seq::<Seq<char>>::empty() } else { seq![cur@] };
            assert(words_from(rest, cur@) == before + words_from(rest.drop_first(), Seq::<char>::empty()));
            let ghost r_old = views(r@);
            if cur.len() > 0 {
                proof {
                    lemma_views_push(r@, cur);
                }
                r.push(cur);
                cur = Vec::new();
            }
            assert(views(r@) =~= r_old + before);
            let ghost w = words_from(s@.skip(i + 1), Seq::<char>::empty());
            assert((r_old + before) + w =~= r_old + (before + w));
            assert(cur@ =~= Seq::<char>::empty());
        } else {
            cur.push(s[i]);
        }
        i += 1;
    }
    if cur.len() > 0 {
        proof {
            lemma_views_push(r@, cur);
        }
        r.push(cur);
    }
    assert(views(r@) =~= words(s@));
    r
}

/// The pieces of `s` between occurrences of `sep`, still to come when `cur`
/// has been read of the current piece; empty pieces count.
pub open spec fn pieces_from(s: Seq<char>, sep: char, cur: Seq<char>) -> Seq<Seq<char>>
    decreases s.len(),
{
    if s.len() == 0 {
        seq![cur]
    } else if s[0] == sep {
        seq![cur] + pieces_from(s.drop_first(), sep, seq![])
    } else {
        pieces_from(s.drop_first(), sep, cur.push(s[0]))
    }
}

/// The pieces of `s` between occurrences of `sep`, as `str::split` gives them.
pub open spec fn pieces(s: Seq<char>, sep: char) -> Seq<Seq<char>> {
    pieces_from(s, sep, seq![])
}

/// Splits text at every `sep`.
pub fn pieces_of(s: &[char], sep: char) -> (r: Vec<Vec<char>>)
    ensures
        views(r@) == pieces(s@, sep),
{
    let mut r: Vec<Vec<char>> = Vec::new();
    let mut cur: Vec<char> = Vec::new();
    let mut i: usize = 0;
    assert(s@.skip(0) =~= s@);
    assert(views(r@) =~= Seq::<Seq<char>>::empty());
    while i < s.len()
        invariant
            i <= s@.len(),
            views(r@) + pieces_from(s@.skip(i as int), sep, cur@) == pieces(s@, sep),
        decreases s@.len() - i,
    {
        let ghost rest = s@.skip(i as int);
        assert(rest.drop_first() =~= s@.skip(i + 1));
        if s[i] == sep {
            proof {
                lemma_views_push(r@, cur);
            }
            r.push(cur);
            cur = Vec::new();
            assert(views(r@) + pieces_from(s@.skip(i + 1), sep, cur@) =~= pieces(s@, sep));
        } else {
            cur.push(s[i]);
        }
        i += 1;
    }
    proof {
        lemma_views_push(r@, cur);
    }
    r.push(cur);
    assert(views(r@) =~= pieces(s@, sep));
    r
}

pub proof fn lemma_pieces_nonempty(s: Seq<char>, sep: char, cur: Seq<char>)
    ensures
        pieces_from(s, sep, cur).len() >= 1,
    decreases s.len(),
{
    if s.len() > 0 {
        lemma_pieces_nonempty(s.drop_first(), sep, if s[0] == sep { seq![] } else { cur.push(s[0]) });
    }
}

/// The text before the first `sep`, all of it when there is none.
pub open spec fn before_first(s: Seq<char>, sep: char) -> Seq<char> {
    pieces(s, sep)[0]
}

/// The text before the first `sep`.
pub fn before_first_of(s: &[char], sep: char) -> (r: Vec<char>)
    ensures
        r@ == before_first(s@, sep),
{
    let ps = pieces_of(s, sep);
    proof {
        lemma_pieces_nonempty(s@, sep, seq![]);
    }
    assert(views(ps@)[0] == ps@[0]@);
    slice_chars(ps[0].as_slice(), 0, ps[0].len())
}

/// `s` without white space at either end.
pub fn trim_of(s: &[char]) -> (r: Vec<char>)
    ensures
        r@ == trim(s@),
{
    let start = trim_start_len(s);
    let tail = slice_chars(s, start, s.len());
    assert(tail@ == s@.skip(start as int));
    let n = trim_end_len(tail.as_slice());
    slice_chars(tail.as_slice(), 0, n)
}

/// The value of `c` as a digit in base `radix`, if it is one.
pub open spec fn digit_value(c: char, radix: nat) -> Option<nat> {
    let u = c as u32;
    let d: int = if '0' <= c && c <= '9' {
        u - 48
    } else if 'a' <= c && c <= 'z' {
        u - 97 + 10
    } else if 'A' <= c && c <= 'Z' {
        u - 65 + 10
    } else {
        radix as int
    };
    if d < radix { Some(d as nat) } else { None }
}

/// The number `s` spells in base `radix`; `None` if any character is not a
/// digit. The empty text is zero.
pub open spec fn digits_value(s: Seq<char>, radix: nat) -> Option<nat>
    decreases s.len(),
{
    if s.len() == 0 {
        Some(0)
    } else {
        match (digits_value(s.drop_last(), radix), digit_value(s.last(), radix)) {
            (Some(v), Some(d)) => Some(v * radix + d),
            _ => None,
        }
    }
}

/// What parsing `s` as an unsigned number no larger than `max` gives, the way
/// Rust's integer parsing does it: an optional plus sign, then at least one
/// digit, and no overflow.
pub open spec fn parse_natural(s: Seq<char>, radix: nat, max: nat) -> Option<nat> {
    let body = if s.len() > 0 && s[0] == '+' { s.drop_first() } else { s };
    if body.len() == 0 {
        None
    } else {
        match digits_value(body, radix) {
            Some(v) => if v <= max { Some(v) } else { None },
            None => None,
        }
    }
}

/// What parsing `s` as a signed decimal number from `-lowest` to `highest`
/// gives: a minus sign is allowed too.
pub open spec fn parse_integer(s: Seq<char>, lowest: nat, highest: nat) -> Option<int> {
    if s.len() > 0 && s[0] == '-' {
        let body = s.drop_first();
        if body.len() == 0 {
            None
        } else {
            match digits_value(body, 10) {
                Some(v) => if v <= lowest { Some(-(v as int)) } else { None },
                None => None,
            }
        }
    } else {
        match parse_natural(s, 10, highest) {
            Some(v) => Some(v as int),
            None => None,
        }
    }
}

proof fn lemma_digits_prefix(s: Seq<char>, radix: nat, k: int)
    requires
        0 <= k <= s.len(),
        radix >= 1,
        digits_value(s, radix) is Some,
    ensures
        digits_value(s.take(k), radix) is Some,
        digits_value(s.take(k), radix)->Some_0 <= digits_value(s, radix)->Some_0,
    decreases s.len(),
{
    if k == s.len() {
        assert(s.take(k) =~= s);
    } else {
        let shorter = s.drop_last();
        assert(shorter.take(k) =~= s.take(k));
        lemma_digits_prefix(shorter, radix, k);
        let v = digits_value(shorter, radix)->Some_0;
        let d = digit_value(s.last(), radix)->Some_0;
        assert(v * radix + d >= v) by (nonlinear_arith)
            requires radix >= 1;
    }
}

fn digit_of_char(c: char, radix: u64) -> (r: Option<u64>)
    requires
        2 <= radix <= 36,
    ensures
        match r {
            Some(d) => digit_value(c, radix as nat) == Some(d as nat),
            None => digit_value(c, radix as nat) is None,
        },
{
    let u = c as u32;
    let d: u64 = if '0' <= c && c <= '9' {
        (u - 48) as u64
    } else if 'a' <= c && c <= 'z' {
        (u - 97 + 10) as u64
    } else if 'A' <= c && c <= 'Z' {
        (u - 65 + 10) as u64
    } else {
        radix
    };
    if d < radix { Some(d) } else { None }
}

/// Parses `s` as an unsigned number no larger than `max`.
pub fn parse_unsigned(s: &[char], radix: u64, max: u64) -> (r: Option<u64>)
    requires
        2 <= radix <= 36,
        max >= 36,
    ensures
        match r {
            Some(v) => parse_natural(s@, radix as nat, max as nat) == Some(v as nat),
            None => parse_natural(s@, radix as nat, max as nat) is None,
        },
{
    let start: usize = if s.len() > 0 && s[0] == '+' { 1 } else { 0 };
    let ghost body = if s@.len() > 0 && s@[0] == '+' { s@.drop_first() } else { s@ };
    assert(body =~= s@.skip(start as int));
    if start == s.len() {
        return None;
    }
    let mut acc: u64 = 0;
    let mut i: usize = start;
    assert(body.take(0) =~= Seq::<char>::empty());
    while i < s.len()
        invariant
            start <= i <= s@.len(),
            2 <= radix <= 36,
            max >= 36,
            body == s@.skip(start as int),
            body == (if s@.len() > 0 && s@[0] == '+' { s@.drop_first() } else { s@ }),
            body.len() > 0,
            digits_value(body.take(i - start), radix as nat) == Some(acc as nat),
            acc <= max,
        decreases s@.len() - i,
    {
        let ghost prefix = body.take(i - start);
        assert(body.take(i + 1 - start).drop_last() =~= prefix);
        assert(body.take(i + 1 - start).last() == s@[i as int]);
        match digit_of_char(s[i], radix) {
            None => {
                assert(digits_value(body.take(i + 1 - start), radix as nat) is None);
                proof {
                    if digits_value(body, radix as nat) is Some {
                        lemma_digits_prefix(body, radix as nat, i + 1 - start);
                    }
                }
                return None;
            },
            Some(d) => {
                if acc > max / radix {
                    proof {
                        assert(acc * radix + d > max) by (nonlinear_arith)
                            requires
                                acc > max / radix,
                                radix >= 2;
                        assert(digits_value(body.take(i + 1 - start), radix as nat) == Some((acc * radix + d) as nat));
                        if digits_value(body, radix as nat) is Some {
                            lemma_digits_prefix(body, radix as nat, i + 1 - start);
                        }
                    }
                    return None;
                }
                assert(acc * radix <= max) by (nonlinear_arith)
                    requires acc <= max / radix, radix >= 2;
                let scaled = acc * radix;
                if scaled > max - d {
                    proof {
                        assert(digits_value(body.take(i + 1 - start), radix as nat) == Some((acc * radix + d) as nat));
                        if digits_value(body, radix as nat) is Some {
                            lemma_digits_prefix(body, radix as nat, i + 1 - start);
                        }
                    }
                    return None;
                }
                acc = scaled + d;
            },
        }
        i += 1;
    }
    assert(body.take(s@.len() - start) =~= body);
    Some(acc)
}

/// Parses `s` as a signed decimal number from `-lowest` to `highest`.
pub fn parse_signed(s: &[char], lowest: u64, highest: u64) -> (r: Option<i64>)
    requires
        36 <= lowest <= i64::MAX,
        36 <= highest <= i64::MAX,
    ensures
        match r {
            Some(v) => parse_integer(s@, lowest as nat, highest as nat) == Some(v as int),
            None => parse_integer(s@, lowest as nat, highest as nat) is None,
        },
{
    if s.len() > 0 && s[0] == '-' {
        let body = slice_chars(s, 1, s.len());
        assert(body@ =~= s@.drop_first());
        if body.len() == 0 {
            return None;
        }
        if body[0] == '+' {
            proof {
                lemma_leading_non_digit(body@, 10);
            }
            return None;
        }
        match parse_unsigned(body.as_slice(), 10, lowest) {
            Some(v) => Some(-(v as i64)),
            None => None,
        }
    } else {
        match parse_unsigned(s, 10, highest) {
            Some(v) => Some(v as i64),
            None => None,
        }
    }
}

proof fn lemma_leading_non_digit(s: Seq<char>, radix: nat)
    requires
        s.len() > 0,
        digit_value(s[0], radix) is None,
    ensures
        digits_value(s, radix) is None,
    decreases s.len(),
{
    if s.len() > 1 {
        assert(s.drop_last()[0] == s[0]);
        lemma_leading_non_digit(s.drop_last(), radix);
    } else {
        assert(s.drop_last() =~= Seq::<char>::empty());
    }
}

} // verus!
