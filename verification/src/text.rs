//! Small text utilities on `String` and `str`.
use vstd::prelude::*;

verus! {

/// Append one character to a string, through `String::push`.
///
/// Claims what the documentation of `String::push` states: the character is
/// added at the end and nothing else changes.
#[verifier::external_body]
pub(crate) fn push_char(s: &mut String, c: char)
    ensures
        final(s)@ == old(s)@.push(c),
{
    s.push(c);
}

/// Whether two strings hold the same characters.
pub fn str_equal(a: &str, b: &str) -> (res: bool)
    ensures
        res == (a@ == b@),
{
    let n = a.unicode_len();
    let m = b.unicode_len();
    if n != m {
        return false;
    }
    let mut i: usize = 0;
    while i < n
        invariant
            0 <= i <= n,
            n == a@.len(),
            m == b@.len(),
            n == m,
            forall|j: int| 0 <= j < i ==> a@[j] == b@[j],
        decreases n - i,
    {
        if a.get_char(i) != b.get_char(i) {
            return false;
        }
        i = i + 1;
    }
    assert(a@ =~= b@);
    true
}

/// The decimal digit character of a value below 10.
pub open spec fn decimal_digit(d: nat) -> char
    recommends
        d < 10,
{
    (d + 48) as char
}

/// The decimal numeral of `n`, as `Display` writes an unsigned integer: its
/// digits, most significant first, without leading zeros ("0" for zero).
pub open spec fn decimal(n: nat) -> Seq<char>
    decreases n,
{
    if n < 10 {
        seq![decimal_digit(n)]
    } else {
        decimal(n / 10).push(decimal_digit(n % 10))
    }
}

/// The lowercase hexadecimal digit of a value below 16.
pub open spec fn spec_hex_digit(n: u8) -> char
    recommends
        n < 16,
{
    if n < 10 {
        (n + 48) as char
    } else {
        (n + 87) as char
    }
}

/// The lowercase hexadecimal digit of a value below 16.
pub fn hex_digit(n: u8) -> (c: char)
    requires
        n < 16,
    ensures
        c == spec_hex_digit(n),
{
    if n < 10 {
        (n + 48) as char
    } else {
        (n + 87) as char
    }
}

/// Two lowercase hexadecimal digits for each byte, most significant first.
pub open spec fn spec_hex(bytes: Seq<u8>) -> Seq<char>
    decreases bytes.len(),
{
    if bytes.len() == 0 {
        Seq::empty()
    } else {
        let b = bytes.last();
        spec_hex(bytes.drop_last()).push(spec_hex_digit(b / 16)).push(spec_hex_digit(b % 16))
    }
}

/// Each byte takes two digits.
pub proof fn lemma_hex_length(bytes: Seq<u8>)
    ensures
        spec_hex(bytes).len() == 2 * bytes.len(),
    decreases bytes.len(),
{
    if bytes.len() > 0 {
        lemma_hex_length(bytes.drop_last());
    }
}

} // verus!

verus! {

/// Every digit of a value below 16 is the character at that position in
/// "0123456789abcdef".
pub proof fn law_hex_digit_alphabet(n: u8)
    requires
        n < 16,
    ensures
        spec_hex_digit(n) == "0123456789abcdef"@[n as int],
{
    reveal_strlit("0123456789abcdef");
    assert(n == 0 || n == 1 || n == 2 || n == 3 || n == 4 || n == 5 || n == 6 || n == 7 || n == 8 || n
        == 9 || n == 10 || n == 11 || n == 12 || n == 13 || n == 14 || n == 15);
}

/// The hexadecimal form of bytes has two digits for each byte, in order: the
/// one for its high four bits, then the one for its low four bits.
pub proof fn law_hex_digits_in_order(bytes: Seq<u8>)
    ensures
        spec_hex(bytes).len() == 2 * bytes.len(),
        forall|k: int|
            0 <= k < bytes.len() ==> spec_hex(bytes)[2 * k] == "0123456789abcdef"@[((#[trigger] bytes[k]) / 16) as int]
                && spec_hex(bytes)[2 * k + 1] == "0123456789abcdef"@[(bytes[k] % 16) as int],
    decreases bytes.len(),
{
    lemma_hex_length(bytes);
    if bytes.len() > 0 {
        let d = bytes.drop_last();
        let n = bytes.len() - 1;
        law_hex_digits_in_order(d);
        let b = bytes.last();
        law_hex_digit_alphabet(b / 16);
        law_hex_digit_alphabet(b % 16);
        assert forall|k: int| 0 <= k < bytes.len() implies spec_hex(bytes)[2 * k] == "0123456789abcdef"@[((
        #[trigger] bytes[k]) / 16) as int] && spec_hex(bytes)[2 * k + 1] == "0123456789abcdef"@[(bytes[k] % 16) as int] by {
            if k < n {
                assert(d[k] == bytes[k]);
            } else {
                assert(bytes[k] == b);
            }
        }
    }
}

} // verus!

verus! {

/// The number that a string of decimal digits stands for, reading the last
/// digit as the units.
pub open spec fn digits_value(s: Seq<char>) -> int
    decreases s.len(),
{
    if s.len() == 0 {
        0
    } else {
        10 * digits_value(s.drop_last()) + (s.last() as int - 48)
    }
}

/// The decimal numeral of a number is made of the digits '0' to '9', reads
/// back as that number, and starts with '0' only when the number is 0.
pub proof fn law_decimal_reads_back(n: nat)
    ensures
        decimal(n).len() > 0,
        forall|k: int| 0 <= k < decimal(n).len() ==> '0' <= #[trigger] decimal(n)[k] <= '9',
        digits_value(decimal(n)) == n,
        n > 0 ==> decimal(n)[0] != '0',
    decreases n,
{
    if n >= 10 {
        let q = n / 10;
        law_decimal_reads_back(q);
        let s = decimal(n);
        assert(s == decimal(q).push(decimal_digit(n % 10)));
        assert(s.drop_last() =~= decimal(q));
        assert forall|k: int| 0 <= k < s.len() implies '0' <= #[trigger] s[k] <= '9' by {
            if k < decimal(q).len() {
                assert(s[k] == decimal(q)[k]);
            }
        }
        assert(s[0] == decimal(q)[0]);
        assert(decimal_digit(n % 10) as int == n % 10 + 48);
        assert(digits_value(s) == 10 * digits_value(decimal(q)) + (n % 10));
        assert(10 * q + n % 10 == n);
    } else {
        assert(decimal_digit(n) as int == n + 48);
        assert(decimal(n).drop_last() =~= Seq::<char>::empty());
        assert(digits_value(Seq::<char>::empty()) == 0);
        assert(digits_value(decimal(n)) == 10 * digits_value(decimal(n).drop_last()) + (decimal(n).last() as int - 48));
    }
}

} // verus!
