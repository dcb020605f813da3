//! Character-level helpers: whitespace, indentation width, UTF-8 widths,
//! byte-bounded truncation and decimal rendering.
use vstd::prelude::*;

verus! {

/// Column width of a tab character when measuring indentation.
pub const TAB_WIDTH: usize = 4;

/// Longest rendering of a line, in UTF-8 bytes.
pub const MAX_LINE_LENGTH: usize = 500;

/// The Unicode `White_Space` property, as `char::is_whitespace` documents it.
pub open spec fn is_white(c: char) -> bool {
    let v = c as u32;
    (0x09 <= v && v <= 0x0d) || v == 0x20 || v == 0x85 || v == 0xa0 || v == 0x1680 || (0x2000
        <= v && v <= 0x200a) || v == 0x2028 || v == 0x2029 || v == 0x202f || v == 0x205f || v
        == 0x3000
}

/// True when every character of `s` is whitespace (the empty line included).
pub open spec fn all_white(s: Seq<char>) -> bool {
    forall|k: int| 0 <= k < s.len() ==> is_white(#[trigger] s[k])
}

/// Number of leading whitespace characters of `s`.
pub open spec fn leading_white(s: Seq<char>) -> nat
    decreases s.len(),
{
    if s.len() > 0 && is_white(s[0]) {
        1 + leading_white(s.drop_first())
    } else {
        0
    }
}

/// `s` without its leading whitespace.
pub open spec fn trim_start(s: Seq<char>) -> Seq<char> {
    s.skip(leading_white(s) as int)
}

/// Indentation width of `s`: its leading run of spaces and tabs, a space
/// counting one column and a tab `TAB_WIDTH` columns.
pub open spec fn indent_of(s: Seq<char>) -> nat
    decreases s.len(),
{
    if s.len() > 0 && s[0] == ' ' {
        1 + indent_of(s.drop_first())
    } else if s.len() > 0 && s[0] == '\t' {
        TAB_WIDTH as nat + indent_of(s.drop_first())
    } else {
        0
    }
}

/// Number of bytes that the UTF-8 encoding of `c` takes.
pub open spec fn utf8_width(c: char) -> nat {
    let v = c as u32;
    if v < 0x80 {
        1
    } else if v < 0x800 {
        2
    } else if v < 0x10000 {
        3
    } else {
        4
    }
}

/// Longest prefix of `s` whose UTF-8 encoding fits in `budget` bytes.
pub open spec fn take_bytes(s: Seq<char>, budget: nat) -> Seq<char>
    decreases s.len(),
{
    if s.len() > 0 && utf8_width(s[0]) <= budget {
        seq![s[0]] + take_bytes(s.drop_first(), (budget - utf8_width(s[0])) as nat)
    } else {
        Seq::empty()
    }
}

/// What a line shows: its text, cut to at most `MAX_LINE_LENGTH` bytes at a
/// character boundary.
pub open spec fn display_of(s: Seq<char>) -> Seq<char> {
    take_bytes(s, MAX_LINE_LENGTH as nat)
}

/// Decimal digits of `n`, most significant first, without leading zeros.
pub open spec fn decimal(n: nat) -> Seq<char>
    decreases n,
{
    if n < 10 {
        seq![digit_char(n)]
    } else {
        decimal(n / 10) + seq![digit_char(n % 10)]
    }
}

pub open spec fn digit_char(d: nat) -> char {
    if d == 0 { '0' }
    else if d == 1 { '1' }
    else if d == 2 { '2' }
    else if d == 3 { '3' }
    else if d == 4 { '4' }
    else if d == 5 { '5' }
    else if d == 6 { '6' }
    else if d == 7 { '7' }
    else if d == 8 { '8' }
    else { '9' }
}

/// Whether `c` is whitespace, by the Unicode `White_Space` property.
pub fn is_whitespace(c: char) -> (r: bool)
    ensures
        r == is_white(c),
{
    let v = c as u32;
    (0x09 <= v && v <= 0x0d) || v == 0x20 || v == 0x85 || v == 0xa0 || v == 0x1680 || (0x2000
        <= v && v <= 0x200a) || v == 0x2028 || v == 0x2029 || v == 0x202f || v == 0x205f || v
        == 0x3000
}

/// Number of bytes that the UTF-8 encoding of `c` takes.
pub fn char_width(c: char) -> (r: usize)
    ensures
        r == utf8_width(c),
        1 <= r <= 4,
{
    let v = c as u32;
    if v < 0x80 {
        1
    } else if v < 0x800 {
        2
    } else if v < 0x10000 {
        3
    } else {
        4
    }
}

/// Number of leading whitespace characters of `s`.
pub fn count_leading_white(s: &Vec<char>) -> (r: usize)
    ensures
        r == leading_white(s@),
        r <= s@.len(),
{
    let mut i: usize = 0;
    assert(s@.skip(0) =~= s@);
    while i < s.len() && is_whitespace(s[i])
        invariant
            i <= s@.len(),
            leading_white(s@) == i + leading_white(s@.skip(i as int)),
        decreases s@.len() - i,
    {
        assert(s@.skip(i as int).drop_first() =~= s@.skip(i + 1));
        i += 1;
    }
    assert(s@.skip(i as int).len() == 0 || !is_white(s@.skip(i as int)[0]));
    i
}

/// Whether every character of `s` is whitespace.
pub fn is_all_white(s: &Vec<char>) -> (r: bool)
    ensures
        r == all_white(s@),
{
    let mut i: usize = 0;
    while i < s.len()
        invariant
            i <= s@.len(),
            forall|k: int| 0 <= k < i ==> is_white(#[trigger] s@[k]),
        decreases s@.len() - i,
    {
        if !is_whitespace(s[i]) {
            return false;
        }
        i += 1;
    }
    true
}

/// Indentation width of `line`: spaces count one column, tabs `TAB_WIDTH`.
pub fn measure_indent(line: &Vec<char>) -> (r: usize)
    requires
        line@.len() * TAB_WIDTH <= usize::MAX,
    ensures
        r == indent_of(line@),
{
    let mut i: usize = 0;
    let mut width: usize = 0;
    assert(line@.skip(0) =~= line@);
    while i < line.len() && (line[i] == ' ' || line[i] == '\t')
        invariant
            i <= line@.len(),
            width <= i * TAB_WIDTH,
            line@.len() * TAB_WIDTH <= usize::MAX,
            indent_of(line@) == width + indent_of(line@.skip(i as int)),
        decreases line@.len() - i,
    {
        assert(line@.skip(i as int).drop_first() =~= line@.skip(i + 1));
        if line[i] == '\t' {
            width += TAB_WIDTH;
        } else {
            width += 1;
        }
        i += 1;
    }
    width
}

/// The longest prefix of `s` that fits in `max_bytes` bytes of UTF-8,
/// never cutting a character in two.
pub fn take_bytes_at_char_boundary(s: &Vec<char>, max_bytes: usize) -> (r: Vec<char>)
    ensures
        r@ == take_bytes(s@, max_bytes as nat),
{
    let mut out: Vec<char> = Vec::new();
    let mut i: usize = 0;
    let mut budget: usize = max_bytes;
    assert(s@.skip(0) =~= s@);
    assert(out@ + take_bytes(s@, max_bytes as nat) =~= take_bytes(s@, max_bytes as nat));
    while i < s.len() && char_width(s[i]) <= budget
        invariant
            i <= s@.len(),
            budget <= max_bytes,
            take_bytes(s@, max_bytes as nat) == out@ + take_bytes(s@.skip(i as int), budget as nat),
        decreases s@.len() - i,
    {
        assert(s@.skip(i as int).drop_first() =~= s@.skip(i + 1));
        let w = char_width(s[i]);
        out.push(s[i]);
        budget -= w;
        i += 1;
        assert(take_bytes(s@, max_bytes as nat) == out@ + take_bytes(s@.skip(i as int), budget as nat));
    }
    assert(take_bytes(s@.skip(i as int), budget as nat) == Seq::<char>::empty());
    assert(out@ + Seq::<char>::empty() =~= out@);
    out
}

/// What a line shows: `line` cut to `MAX_LINE_LENGTH` bytes at a character
/// boundary.
pub fn format_line(line: &Vec<char>) -> (r: Vec<char>)
    ensures
        r@ == display_of(line@),
{
    take_bytes_at_char_boundary(line, MAX_LINE_LENGTH)
}

/// Decimal digit `d` as a character.
fn digit(d: usize) -> (r: char)
    requires
        d < 10,
    ensures
        r == digit_char(d as nat),
{
    if d == 0 { '0' }
    else if d == 1 { '1' }
    else if d == 2 { '2' }
    else if d == 3 { '3' }
    else if d == 4 { '4' }
    else if d == 5 { '5' }
    else if d == 6 { '6' }
    else if d == 7 { '7' }
    else if d == 8 { '8' }
    else { '9' }
}

/// Appends the decimal digits of `n` to `out`.
pub fn push_decimal(out: &mut Vec<char>, n: usize)
    ensures
        final(out)@ == old(out)@ + decimal(n as nat),
    decreases n,
{
    if n < 10 {
        out.push(digit(n));
    } else {
        push_decimal(out, n / 10);
        out.push(digit(n % 10));
        assert(out@ =~= old(out)@ + decimal(n as nat));
    }
}

/// Relies on `String::push`: appends one character.
#[verifier::external_body]
fn push_char(s: &mut String, c: char)
    ensures
        final(s)@ == old(s)@.push(c),
{
    s.push(c)
}

/// Relies on `str::chars` collected into a `Vec`: the characters of `s` in order.
#[verifier::external_body]
pub(crate) fn chars_of(s: &str) -> (r: Vec<char>)
    ensures
        r@ == s@,
{
    s.chars().collect()
}

/// The string made of the characters of `cs`, in order.
pub fn string_of(cs: &Vec<char>) -> (r: String)
    ensures
        r@ == cs@,
{
    let mut s = String::new();
    let mut i: usize = 0;
    while i < cs.len()
        invariant
            i <= cs@.len(),
            s@ == cs@.take(i as int),
        decreases cs@.len() - i,
    {
        push_char(&mut s, cs[i]);
        i += 1;
        assert(s@ =~= cs@.take(i as int));
    }
    assert(cs@.take(i as int) =~= cs@);
    s
}

} // verus!
