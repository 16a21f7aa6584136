//! Numbers as text, and searching in text.

use vstd::prelude::*;

verus! {

/// The hexadecimal digit of a number below sixteen, in lower case.
pub open spec fn hex_digit(n: int) -> char {
    if n == 0 {
        '0'
    } else if n == 1 {
        '1'
    } else if n == 2 {
        '2'
    } else if n == 3 {
        '3'
    } else if n == 4 {
        '4'
    } else if n == 5 {
        '5'
    } else if n == 6 {
        '6'
    } else if n == 7 {
        '7'
    } else if n == 8 {
        '8'
    } else if n == 9 {
        '9'
    } else if n == 10 {
        'a'
    } else if n == 11 {
        'b'
    } else if n == 12 {
        'c'
    } else if n == 13 {
        'd'
    } else if n == 14 {
        'e'
    } else {
        'f'
    }
}

/// The hexadecimal digits of bytes, two for each.
pub open spec fn hex_text(data: Seq<u8>) -> Seq<char> {
    Seq::new(
        2 * data.len(),
        |i: int|
            hex_digit(
                if i % 2 == 0 {
                    data[i / 2] as int / 16
                } else {
                    data[i / 2] as int % 16
                },
            ),
    )
}

/// The last `n` hexadecimal digits of a number, the highest first.
pub open spec fn hex_digits(v: nat, n: nat) -> Seq<char>
    decreases n,
{
    if n == 0 {
        Seq::empty()
    } else {
        hex_digits(v / 16, (n - 1) as nat).push(hex_digit(v as int % 16))
    }
}

/// A machine word as `0x` and sixteen hexadecimal digits.
pub open spec fn hex_word(v: u64) -> Seq<char> {
    "0x"@ + hex_digits(v as nat, 16)
}

/// A number in decimal.
pub open spec fn decimal(v: nat) -> Seq<char>
    decreases v,
{
    if v < 10 {
        seq![hex_digit(v as int)]
    } else {
        decimal(v / 10).push(hex_digit(v as int % 10))
    }
}

/// A digit as text.
fn digit_text(n: u64) -> (r: &'static str)
    requires
        n < 16,
    ensures
        r@ == seq![hex_digit(n as int)],
{
    proof {
        reveal_strlit("0");
        reveal_strlit("1");
        reveal_strlit("2");
        reveal_strlit("3");
        reveal_strlit("4");
        reveal_strlit("5");
        reveal_strlit("6");
        reveal_strlit("7");
        reveal_strlit("8");
        reveal_strlit("9");
        reveal_strlit("a");
        reveal_strlit("b");
        reveal_strlit("c");
        reveal_strlit("d");
        reveal_strlit("e");
        reveal_strlit("f");
    }
    let r: &'static str = match n {
        0 => "0",
        1 => "1",
        2 => "2",
        3 => "3",
        4 => "4",
        5 => "5",
        6 => "6",
        7 => "7",
        8 => "8",
        9 => "9",
        10 => "a",
        11 => "b",
        12 => "c",
        13 => "d",
        14 => "e",
        _ => "f",
    };
    assert(r@ =~= seq![hex_digit(n as int)]);
    r
}

/// Appends the last `n` hexadecimal digits of a number.
fn push_hex_digits(out: &mut String, v: u64, n: u64)
    ensures
        final(out)@ == old(out)@ + hex_digits(v as nat, n as nat),
    decreases n,
{
    if n == 0 {
        assert(out@ =~= old(out)@ + hex_digits(v as nat, 0));
    } else {
        push_hex_digits(out, v / 16, n - 1);
        out.append(digit_text(v % 16));
        assert(out@ =~= old(out)@ + hex_digits(v as nat, n as nat));
    }
}

/// Appends a machine word as `0x` and sixteen hexadecimal digits.
pub fn push_hex_word(out: &mut String, v: u64)
    ensures
        final(out)@ == old(out)@ + hex_word(v),
{
    out.append("0x");
    push_hex_digits(out, v, 16);
    assert(out@ =~= old(out)@ + hex_word(v));
}

/// Appends a number in decimal.
pub fn push_decimal(out: &mut String, v: u64)
    ensures
        final(out)@ == old(out)@ + decimal(v as nat),
    decreases v,
{
    if v < 10 {
        out.append(digit_text(v));
    } else {
        push_decimal(out, v / 10);
        out.append(digit_text(v % 10));
    }
    assert(out@ =~= old(out)@ + decimal(v as nat));
}

/// The characters that Unicode calls white space.
pub open spec fn is_space(c: char) -> bool {
    ||| '\u{9}' <= c && c <= '\u{d}'
    ||| c == ' '
    ||| c == '\u{85}'
    ||| c == '\u{a0}'
    ||| c == '\u{1680}'
    ||| '\u{2000}' <= c && c <= '\u{200a}'
    ||| c == '\u{2028}'
    ||| c == '\u{2029}'
    ||| c == '\u{202f}'
    ||| c == '\u{205f}'
    ||| c == '\u{3000}'
}

/// There is nothing but white space.
pub open spec fn is_blank(s: Seq<char>) -> bool {
    forall|i: int| 0 <= i < s.len() ==> is_space(#[trigger] s[i])
}

/// An ASCII letter in lower case; any other character as it is.
pub open spec fn lower(c: char) -> char {
    if 'A' <= c && c <= 'Z' {
        (c as u8 + 32) as char
    } else {
        c
    }
}

/// `needle` stands at position `at` of `s`, but for the case of letters.
pub open spec fn matches_at(s: Seq<char>, needle: Seq<char>, at: int) -> bool {
    &&& 0 <= at
    &&& at + needle.len() <= s.len()
    &&& forall|k: int| 0 <= k < needle.len() ==> lower(#[trigger] s[at + k]) == needle[k]
}

/// `needle` occurs in `s`, but for the case of letters.
pub open spec fn mentions(s: Seq<char>, needle: Seq<char>) -> bool {
    exists|at: int| #[trigger] matches_at(s, needle, at)
}

/// The characters of a text.
pub fn characters(s: &str) -> (r: Vec<char>)
    ensures
        r@ == s@,
{
    let mut r: Vec<char> = Vec::new();
    for c in it: s.chars()
        invariant
            r@ =~= it.seq().take(it.index() as int),
            it.seq() == s@,
    {
        r.push(c);
    }
    assert(r@ =~= s@);
    r
}

/// Tests for white space.
fn space(c: char) -> (r: bool)
    ensures
        r == is_space(c),
{
    ('\u{9}' <= c && c <= '\u{d}') || c == ' ' || c == '\u{85}' || c == '\u{a0}' || c == '\u{1680}'
        || ('\u{2000}' <= c && c <= '\u{200a}') || c == '\u{2028}' || c == '\u{2029}' || c
        == '\u{202f}' || c == '\u{205f}' || c == '\u{3000}'
}

/// Tests whether a text is nothing but white space.
pub fn blank(s: &str) -> (r: bool)
    ensures
        r == is_blank(s@),
{
    let cs: Vec<char> = characters(s);
    let mut i: usize = 0;
    while i < cs.len()
        invariant
            i <= cs@.len(),
            cs@ == s@,
            forall|k: int| 0 <= k < i ==> is_space(#[trigger] cs@[k]),
        decreases cs@.len() - i,
    {
        if !space(cs[i]) {
            assert(!is_space(cs@[i as int]));
            return false;
        }
        i = i + 1;
    }
    true
}

/// Puts an ASCII letter in lower case.
fn to_lower(c: char) -> (r: char)
    ensures
        r == lower(c),
{
    if 'A' <= c && c <= 'Z' {
        (c as u8 + 32) as char
    } else {
        c
    }
}

/// Tests whether `needle` stands at position `at`.
fn stands_at(s: &Vec<char>, needle: &Vec<char>, at: usize) -> (r: bool)
    requires
        at + needle@.len() <= s@.len(),
    ensures
        r == matches_at(s@, needle@, at as int),
{
    let len: usize = s.len();
    let mut k: usize = 0;
    while k < needle.len()
        invariant
            k <= needle@.len(),
            len == s@.len(),
            at + needle@.len() <= len,
            forall|j: int| 0 <= j < k ==> lower(#[trigger] s@[at + j]) == needle@[j],
        decreases needle@.len() - k,
    {
        if to_lower(s[at + k]) != needle[k] {
            assert(lower(s@[at + k as int]) != needle@[k as int]);
            return false;
        }
        k = k + 1;
    }
    true
}

/// Tests whether `needle` occurs in `s`, but for the case of letters.
pub fn mentioned(s: &str, needle: &str) -> (r: bool)
    ensures
        r == mentions(s@, needle@),
{
    let cs: Vec<char> = characters(s);
    let ns: Vec<char> = characters(needle);
    if cs.len() < ns.len() {
        return false;
    }
    let last: usize = cs.len() - ns.len();
    let mut at: usize = 0;
    while at <= last
        invariant
            cs@ == s@,
            ns@ == needle@,
            last == cs@.len() - ns@.len(),
            at <= last + 1,
            forall|k: int| 0 <= k < at ==> !#[trigger] matches_at(cs@, ns@, k),
        decreases last + 1 - at,
    {
        if stands_at(&cs, &ns, at) {
            return true;
        }
        if at == last {
            assert forall|k: int| !#[trigger] matches_at(cs@, ns@, k) by {}
            return false;
        }
        at = at + 1;
    }
    false
}

} // verus!
