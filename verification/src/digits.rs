//! Numbers as text: hexadecimal and decimal digits.
use vstd::prelude::*;

use crate::text;

verus! {

/// The digit for `d`, in lower case: `0` to `9`, then `a` to `f`.
pub open spec fn digit(d: int) -> char
    recommends
        0 <= d < 16,
{
    if d < 10 {
        (d + 48) as char
    } else {
        (d + 87) as char
    }
}

/// Whether `c` is a decimal digit.
pub open spec fn is_decimal(c: char) -> bool {
    '0' <= c <= '9'
}

/// Whether `c` is a hexadecimal digit, of either case.
pub open spec fn is_hex(c: char) -> bool {
    is_decimal(c) || 'a' <= c <= 'f' || 'A' <= c <= 'F'
}

/// What a hexadecimal digit is worth.
pub open spec fn hex_value(c: char) -> int
    recommends
        is_hex(c),
{
    if is_decimal(c) {
        c as int - 48
    } else if 'a' <= c <= 'f' {
        c as int - 87
    } else {
        c as int - 55
    }
}

/// Whether `s` spells whole bytes, two hexadecimal digits for each.
pub open spec fn spells_bytes(s: Seq<char>) -> bool {
    &&& s.len() % 2 == 0
    &&& forall|i: int| 0 <= i < s.len() ==> is_hex(#[trigger] s[i])
}

/// The byte that two hexadecimal digits spell.
pub open spec fn spelled_byte(high: char, low: char) -> u8 {
    (16 * hex_value(high) + hex_value(low)) as u8
}

/// The bytes that `s` spells.
pub open spec fn spelled_bytes(s: Seq<char>) -> Seq<u8> {
    Seq::new(s.len() / 2, |i: int| spelled_byte(s[2 * i], s[2 * i + 1]))
}

/// `n` in two hexadecimal digits.
pub open spec fn two_digits(n: u8) -> Seq<char> {
    seq![digit(n as int / 16), digit(n as int % 16)]
}

/// `n` in four hexadecimal digits.
pub open spec fn four_digits(n: u16) -> Seq<char> {
    two_digits((n / 256) as u8) + two_digits((n % 256) as u8)
}

/// `n` in as few hexadecimal digits as it takes.
pub open spec fn few_digits(n: u8) -> Seq<char> {
    if n < 16 {
        seq![digit(n as int)]
    } else {
        two_digits(n)
    }
}

/// `n` in decimal, without leading zeros.
pub open spec fn decimal(n: nat) -> Seq<char>
    decreases n,
{
    if n < 10 {
        seq![digit(n as int)]
    } else {
        decimal(n / 10).push(digit(n as int % 10))
    }
}

/// The number that a row of decimal digits stands for.
pub open spec fn decimal_value(s: Seq<char>) -> nat
    decreases s.len(),
{
    if s.len() == 0 {
        0
    } else {
        10 * decimal_value(s.drop_last()) + (s.last() as int - 48) as nat
    }
}

/// Whether `s` is a decimal number: one digit or more, and a plus sign in front at most.
pub open spec fn is_number(s: Seq<char>) -> bool {
    let digits = without_plus(s);
    &&& digits.len() > 0
    &&& forall|i: int| 0 <= i < digits.len() ==> is_decimal(#[trigger] digits[i])
}

/// `s` without a plus sign in front.
pub open spec fn without_plus(s: Seq<char>) -> Seq<char> {
    if s.len() > 0 && s[0] == '+' {
        s.skip(1)
    } else {
        s
    }
}

/// The decimal number that `s` spells, if it spells one that is at most `max`.
pub open spec fn number(s: Seq<char>, max: nat) -> Option<nat> {
    if is_number(s) && decimal_value(without_plus(s)) <= max {
        Some(decimal_value(without_plus(s)))
    } else {
        None
    }
}

/// Reading two digits gives back the byte that was written.
pub proof fn lemma_two_digits_read_back(n: u8)
    ensures
        is_hex(two_digits(n)[0]),
        is_hex(two_digits(n)[1]),
        spelled_byte(two_digits(n)[0], two_digits(n)[1]) == n,
        two_digits(n).len() == 2,
{
    assert(n as int == 16 * (n as int / 16) + n as int % 16);
}

/// A digit is never one of the marks that separate the parts of an address.
pub proof fn lemma_digit_is_no_mark(d: int)
    requires
        0 <= d < 16,
    ensures
        is_hex(digit(d)),
        hex_value(digit(d)) == d,
        digit(d) != ':',
        digit(d) != '.',
        digit(d) != '+',
{
}

/// What a row of digits stands for only grows as digits are added to it.
proof fn lemma_value_grows(s: Seq<char>, n: int)
    requires
        0 <= n <= s.len(),
    ensures
        decimal_value(s.take(n)) <= decimal_value(s),
    decreases s.len() - n,
{
    if n == s.len() {
        assert(s.take(n) == s);
    } else {
        lemma_value_grows(s, n + 1);
        assert(s.take(n + 1).drop_last() == s.take(n));
    }
}

/// Decimal text consists of digits alone and has at least one.
proof fn lemma_decimal_digits(n: nat)
    ensures
        decimal(n).len() > 0,
        forall|i: int| 0 <= i < decimal(n).len() ==> is_decimal(#[trigger] decimal(n)[i]),
        decimal_value(decimal(n)) == n,
    decreases n,
{
    if n < 10 {
        reveal_with_fuel(decimal_value, 2);
        assert(seq![digit(n as int)].drop_last() == Seq::<char>::empty());
    } else {
        lemma_decimal_digits(n / 10);
        assert(decimal(n).drop_last() == decimal(n / 10));
    }
}

/// Reading a decimal number gives back the number that was written.
pub proof fn law_decimal_reads_back(n: nat, max: nat)
    requires
        n <= max,
    ensures
        number(decimal(n), max) == Some(n),
{
    lemma_decimal_digits(n);
    assert(decimal(n)[0] != '+');
}

/// Numbers that differ are written differently.
pub proof fn law_decimal_is_injective(m: nat, n: nat)
    requires
        decimal(m) == decimal(n),
    ensures
        m == n,
{
    lemma_decimal_digits(m);
    lemma_decimal_digits(n);
}

/// The error of `hex::decode`, of which nothing is claimed.
#[verifier::external_type_specification]
#[verifier::external_body]
pub struct ExFromHexError(hex::FromHexError);

/// Calls `hex::decode`, which reads two hexadecimal digits of either case as one byte.
///
/// It succeeds exactly on text that consists of such digits alone and has an even number of them.
/// The text is handed over as UTF-8; a character that takes more than one byte there is no digit
/// either way. Which error it returns otherwise is left unsaid, as the callers drop it.
#[verifier::external_body]
pub(crate) fn decode_hex(s: &str) -> (r: Result<Vec<u8>, hex::FromHexError>)
    ensures
        r is Ok <==> spells_bytes(s@),
        r matches Ok(bytes) ==> bytes@ == spelled_bytes(s@),
{
    hex::decode(s)
}

/// The digit for `d` as text.
fn digit_text(d: u8) -> (r: &'static str)
    requires
        d < 16,
    ensures
        r@ == seq![digit(d as int)],
{
    proof {
        reveal_strlit("0");
        reveal_strlit("1");
        reveal_strlit("2");
        reveal_strlit("3");
        reveal_strlit("4");
        reveal_strlit("5");
        reveal_strlit("6");
        reveal_strlit("7");
        reveal_strlit("8");
        reveal_strlit("9");
        reveal_strlit("a");
        reveal_strlit("b");
        reveal_strlit("c");
        reveal_strlit("d");
        reveal_strlit("e");
        reveal_strlit("f");
    }
    match d {
        0 => "0",
        1 => "1",
        2 => "2",
        3 => "3",
        4 => "4",
        5 => "5",
        6 => "6",
        7 => "7",
        8 => "8",
        9 => "9",
        10 => "a",
        11 => "b",
        12 => "c",
        13 => "d",
        14 => "e",
        _ => "f",
    }
}

/// Writes `n` in two hexadecimal digits.
pub fn hex2(n: u8) -> (r: String)
    ensures
        r@ == two_digits(n),
{
    text::concat(digit_text(n / 16), digit_text(n % 16))
}

/// Writes `n` in four hexadecimal digits.
pub fn hex4(n: u16) -> (r: String)
    ensures
        r@ == four_digits(n),
{
    text::concat(hex2((n / 256) as u8).as_str(), hex2((n % 256) as u8).as_str())
}

/// Writes `n` in one hexadecimal digit, or in two if one is not enough.
pub fn hex1(n: u8) -> (r: String)
    ensures
        r@ == few_digits(n),
{
    if n < 16 {
        digit_text(n).to_owned()
    } else {
        hex2(n)
    }
}

/// Writes `n` in decimal.
pub fn decimal_text(n: usize) -> (r: String)
    ensures
        r@ == decimal(n as nat),
    decreases n,
{
    if n < 10 {
        digit_text(n as u8).to_owned()
    } else {
        let front = decimal_text(n / 10);
        let r = text::concat(front.as_str(), digit_text((n % 10) as u8));
        assert(r@ == decimal(n as nat));
        r
    }
}

/// Reads a decimal number that is at most `max`.
pub fn parse_number(s: &str, max: u32) -> (r: Option<u32>)
    ensures
        match number(s@, max as nat) {
            Some(n) => r matches Some(m) && m == n,
            None => r is None,
        },
{
    let n: usize = s.unicode_len();
    let start: usize = if n > 0 && s.get_char(0) == '+' {
        1
    } else {
        0
    };
    let ghost digits = without_plus(s@);
    assert(digits == s@.skip(start as int));
    if start == n {
        return None;
    }
    let mut i: usize = start;
    let mut value: u64 = 0;
    assert(digits.take(0) == Seq::<char>::empty());
    while i < n
        invariant
            n == s@.len(),
            start <= i <= n,
            start < n,
            digits == without_plus(s@),
            digits == s@.skip(start as int),
            forall|j: int| 0 <= j < i - start ==> is_decimal(#[trigger] digits[j]),
            value == decimal_value(digits.take(i - start)),
            value <= max,
        decreases n - i,
    {
        let c: char = s.get_char(i);
        assert(c == digits[i - start]);
        if !('0' <= c && c <= '9') {
            return None;
        }
        value = value * 10 + (c as u64 - 48);
        proof {
            assert(digits.take(i + 1 - start).drop_last() == digits.take(i - start));
            lemma_value_grows(digits, i + 1 - start);
        }
        if value > max as u64 {
            return None;
        }
        i = i + 1;
    }
    assert(digits.take(n - start) == digits);
    Some(value as u32)
}

/// Reads a decimal number that fits in a byte.
pub fn parse_u8(s: &str) -> (r: Option<u8>)
    ensures
        match number(s@, u8::MAX as nat) {
            Some(n) => r matches Some(m) && m == n,
            None => r is None,
        },
{
    match parse_number(s, 255) {
        Some(n) => Some(n as u8),
        None => None,
    }
}

/// Reads a decimal number that fits in 32 bits.
pub fn parse_u32(s: &str) -> (r: Option<u32>)
    ensures
        match number(s@, u32::MAX as nat) {
            Some(n) => r matches Some(m) && m == n,
            None => r is None,
        },
{
    parse_number(s, u32::MAX)
}


/// The hexadecimal digits, in their order and in both cases, and what each is worth.
pub proof fn law_hexadecimal_digits(d: int)
    requires
        0 <= d < 16,
    ensures
        digit(d) == "0123456789abcdef"@[d],
        hex_value("0123456789abcdef"@[d]) == d,
        hex_value("0123456789ABCDEF"@[d]) == d,
        is_hex("0123456789abcdef"@[d]),
        is_hex("0123456789ABCDEF"@[d]),
{
    reveal_strlit("0123456789abcdef");
    reveal_strlit("0123456789ABCDEF");
}

/// No other character is a hexadecimal digit.
pub proof fn law_no_other_digits(c: char)
    ensures
        is_hex(c) ==> 0 <= hex_value(c) < 16 && (c == "0123456789abcdef"@[hex_value(c)] || c
            == "0123456789ABCDEF"@[hex_value(c)]),
{
    reveal_strlit("0123456789abcdef");
    reveal_strlit("0123456789ABCDEF");
    if is_hex(c) {
        let d = hex_value(c);
        assert(0 <= d < 16);
    }
}

/// The number that a row of hexadecimal digits stands for.
pub open spec fn hex_number(s: Seq<char>) -> int
    decreases s.len(),
{
    if s.len() == 0 {
        0
    } else {
        16 * hex_number(s.drop_last()) + hex_value(s.last())
    }
}

/// Whether a text consists of hexadecimal digits alone.
pub open spec fn all_hex(s: Seq<char>) -> bool {
    forall|i: int| 0 <= i < s.len() ==> is_hex(#[trigger] s[i])
}

/// Decimal text has no leading zeros and no other characters than digits.
pub proof fn law_decimal_is_plain(n: nat, i: int)
    ensures
        decimal(n).len() > 0,
        decimal(n)[0] == '0' ==> n == 0 && decimal(n).len() == 1,
        0 <= i < decimal(n).len() ==> is_decimal(decimal(n)[i]),
    decreases n,
{
    lemma_decimal_digits(n);
    if n >= 10 {
        law_decimal_is_plain(n / 10, i);
        assert(decimal(n)[0] == decimal(n / 10)[0]);
    }
}

/// A number is read digit by digit, each worth ten times what follows; one that grows over the limit
/// is none.
pub proof fn law_numbers_are_positional(s: Seq<char>, c: char, max: nat)
    ensures
        is_decimal(c) && c as int - 48 <= max ==> number(seq![c], max) == Some(
            (c as int - 48) as nat,
        ),
        is_number(s) && is_decimal(c) ==> {
            let v = decimal_value(without_plus(s));
            let w = 10 * v + (c as int - 48);
            &&& v <= max ==> number(s, max) == Some(v)
            &&& v > max ==> number(s, max) is None
            &&& w <= max ==> number(s.push(c), max) == Some(w as nat)
            &&& w > max ==> number(s.push(c), max) is None
        },
{
    reveal_with_fuel(decimal_value, 2);
    assert(seq![c].drop_last() =~= Seq::<char>::empty());
    assert(without_plus(seq![c]).len() == 1 || c == '+');
    if is_decimal(c) {
        assert(without_plus(seq![c]) == seq![c]);
        assert forall|i: int| 0 <= i < 1 implies is_decimal(#[trigger] seq![c][i]) by {}
    }
    if is_number(s) && is_decimal(c) {
        let digits = without_plus(s);
        assert(without_plus(s.push(c)) =~= digits.push(c));
        assert(digits.push(c).drop_last() =~= digits);
        assert forall|i: int| 0 <= i < digits.push(c).len() implies is_decimal(
            #[trigger] digits.push(c)[i],
        ) by {
            if i < digits.len() {
                assert(digits.push(c)[i] == digits[i]);
            }
        }
    }
}

/// A plus sign may stand in front of a number. Nothing else may, and nothing but digits may follow;
/// there has to be one.
pub proof fn law_what_is_a_number(s: Seq<char>, max: nat, i: int)
    ensures
        number(Seq::empty(), max) is None,
        number(seq!['+'], max) is None,
        s.len() > 0 && s[0] != '+' ==> number(seq!['+'] + s, max) == number(s, max),
        0 <= i < s.len() && !is_decimal(s[i]) && !(i == 0 && s[0] == '+') ==> number(s, max) is None,
{
    assert(without_plus(seq!['+']) =~= Seq::<char>::empty());
    if s.len() > 0 && s[0] != '+' {
        assert((seq!['+'] + s).skip(1) =~= s);
    }
    if 0 <= i < s.len() && !is_decimal(s[i]) && !(i == 0 && s[0] == '+') {
        let digits = without_plus(s);
        if s[0] == '+' {
            assert(digits[i - 1] == s[i]);
        } else {
            assert(digits[i] == s[i]);
        }
    }
}

} // verus!
