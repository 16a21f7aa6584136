//! What texts say when they are read: digits, numbers and bytes.

use vstd::prelude::*;

use crate::text::decimal;
use crate::text::hex_digit;
use crate::text::hex_digits;
use crate::text::hex_text;
use crate::text::hex_word;
use crate::text::is_blank;
use crate::text::is_space;

verus! {

/// The value of a digit, in decimal or in hexadecimal with small letters; less
/// than zero where the character is no digit.
pub open spec fn digit_value(c: char) -> int {
    if 48 <= c as int <= 57 {
        c as int - 48
    } else if 97 <= c as int <= 102 {
        c as int - 87
    } else {
        -1
    }
}

/// The number that digits stand for in the given base, the highest first.
pub open spec fn number_read(s: Seq<char>, base: int) -> int
    decreases s.len(),
{
    if s.len() == 0 {
        0
    } else {
        base * number_read(s.drop_last(), base) + digit_value(s.last())
    }
}

/// Every character is a digit of the given base.
pub open spec fn all_digits(s: Seq<char>, base: int) -> bool {
    forall|i: int| 0 <= i < s.len() ==> 0 <= digit_value(#[trigger] s[i]) < base
}

/// Digits are read as what they were written for.
pub proof fn digits_read_back(n: int)
    requires
        0 <= n < 16,
    ensures
        digit_value(hex_digit(n)) == n,
{
}

/// A number in decimal is read as the number. It is all digits, and has no zero
/// in front unless it is zero.
pub proof fn decimal_reads_back(v: nat)
    ensures
        decimal(v).len() > 0,
        all_digits(decimal(v), 10),
        number_read(decimal(v), 10) == v,
        v > 0 ==> digit_value(decimal(v)[0]) > 0,
        v == 0 ==> decimal(v).len() == 1,
    decreases v,
{
    let s = decimal(v);
    digits_read_back(v as int % 10);
    if v < 10 {
        assert(s.drop_last() =~= Seq::<char>::empty());
        assert(number_read(s.drop_last(), 10) == 0);
    } else {
        decimal_reads_back(v / 10);
        let t = decimal(v / 10);
        assert(s.drop_last() =~= t);
        assert forall|i: int| 0 <= i < s.len() implies 0 <= digit_value(#[trigger] s[i]) < 10 by {
            if i < t.len() {
                assert(s[i] == t[i]);
            }
        }
        assert(s[0] == t[0]);
    }
}

/// Sixteen to the power `n`.
pub open spec fn sixteens(n: nat) -> nat
    decreases n,
{
    if n == 0 {
        1
    } else {
        16 * sixteens((n - 1) as nat)
    }
}

/// The last `n` hexadecimal digits of a number that has no more are read as the
/// number.
pub proof fn hex_reads_back(v: nat, n: nat)
    requires
        v < sixteens(n),
    ensures
        hex_digits(v, n).len() == n,
        all_digits(hex_digits(v, n), 16),
        number_read(hex_digits(v, n), 16) == v,
    decreases n,
{
    if n > 0 {
        let m = (n - 1) as nat;
        let s = hex_digits(v, n);
        let t = hex_digits(v / 16, m);
        assert(v / 16 < sixteens(m));
        hex_reads_back(v / 16, m);
        digits_read_back(v as int % 16);
        assert(s.drop_last() =~= t);
        assert forall|i: int| 0 <= i < s.len() implies 0 <= digit_value(#[trigger] s[i]) < 16 by {
            if i < t.len() {
                assert(s[i] == t[i]);
            }
        }
    }
}

/// A machine word in hexadecimal is `0x` and sixteen digits that are read as it.
pub proof fn hex_word_reads_back(v: u64)
    ensures
        hex_word(v).len() == 18,
        hex_word(v)[0] == '0',
        hex_word(v)[1] == 'x',
        all_digits(hex_word(v).subrange(2, 18), 16),
        number_read(hex_word(v).subrange(2, 18), 16) == v,
{
    reveal_strlit("0x");
    assert(sixteens(16) == 0x1_0000_0000_0000_0000) by {
        reveal_with_fuel(sixteens, 17);
    }
    hex_reads_back(v as nat, 16);
    assert(hex_word(v).subrange(2, 18) =~= hex_digits(v as nat, 16));
}

/// A text spells bytes: two digits for each, the higher one first.
pub open spec fn spells(text: Seq<char>, bytes: Seq<u8>) -> bool {
    &&& text.len() == 2 * bytes.len()
    &&& all_digits(text, 16)
    &&& forall|i: int|
        0 <= i < bytes.len() ==> 16 * digit_value(text[2 * i]) + digit_value(text[2 * i + 1])
            == #[trigger] bytes[i]
}

/// Bytes in hexadecimal are spelled.
pub proof fn hex_spells(bytes: Seq<u8>)
    ensures
        spells(hex_text(bytes), bytes),
{
    let t = hex_text(bytes);
    assert forall|i: int| 0 <= i < t.len() implies 0 <= digit_value(#[trigger] t[i]) < 16 by {
        let b = bytes[i / 2] as int;
        digits_read_back(b / 16);
        digits_read_back(b % 16);
    }
    assert forall|i: int| 0 <= i < bytes.len() implies 16 * digit_value(t[2 * i]) + digit_value(
        t[2 * i + 1],
    ) == #[trigger] bytes[i] by {
        let b = bytes[i] as int;
        assert(2 * i / 2 == i && (2 * i + 1) / 2 == i);
        assert((2 * i) % 2 == 0 && (2 * i + 1) % 2 == 1);
        digits_read_back(b / 16);
        digits_read_back(b % 16);
    }
}

/// Digits with the same value are the same.
proof fn same_digit(a: char, b: char)
    requires
        0 <= digit_value(a),
        digit_value(a) == digit_value(b),
    ensures
        a == b,
{
}

/// One text spells given bytes, and it spells no others.
pub proof fn spelling_is_unique(text: Seq<char>, bytes: Seq<u8>)
    ensures
        spells(text, bytes) <==> text == hex_text(bytes),
{
    hex_spells(bytes);
    if spells(text, bytes) {
        let t = hex_text(bytes);
        assert forall|i: int| 0 <= i < text.len() implies text[i] == t[i] by {
            let k = i / 2;
            let b = bytes[k];
            assert(16 * digit_value(text[2 * k]) + digit_value(text[2 * k + 1]) == b);
            assert(16 * digit_value(t[2 * k]) + digit_value(t[2 * k + 1]) == b);
            assert(0 <= digit_value(text[2 * k]) < 16 && 0 <= digit_value(text[2 * k + 1]) < 16);
            assert(0 <= digit_value(t[2 * k]) < 16 && 0 <= digit_value(t[2 * k + 1]) < 16);
            same_digit(text[2 * k], t[2 * k]);
            same_digit(text[2 * k + 1], t[2 * k + 1]);
            assert(i == 2 * k || i == 2 * k + 1);
        }
        assert(text =~= t);
    }
}

/// A text is blank exactly if each of its characters is white space: one of the
/// controls from tab to return, a space, or one of Unicode's other spaces.
pub proof fn blank_is_white_space(s: Seq<char>)
    ensures
        is_blank(s) <==> forall|i: int|
            0 <= i < s.len() ==> {
                let c = #[trigger] s[i] as int;
                ||| 9 <= c <= 13
                ||| c == 32
                ||| c == 133
                ||| c == 160
                ||| c == 5760
                ||| 8192 <= c <= 8202
                ||| c == 8232
                ||| c == 8233
                ||| c == 8239
                ||| c == 8287
                ||| c == 12288
            },
{
    assert forall|i: int| 0 <= i < s.len() implies is_space(#[trigger] s[i]) == {
        let c = s[i] as int;
        ||| 9 <= c <= 13
        ||| c == 32
        ||| c == 133
        ||| c == 160
        ||| c == 5760
        ||| 8192 <= c <= 8202
        ||| c == 8232
        ||| c == 8233
        ||| c == 8239
        ||| c == 8287
        ||| c == 12288
    } by {}
}

} // verus!
