//! Text encodings used on the wire: lowercase hexadecimal, decimal integers,
//! amounts in cents and hyphenated identifiers.
use vstd::prelude::*;
use vstd::string::*;

verus! {

/// The sixteen lowercase hexadecimal digits, in order.
pub open spec fn lower_hex_digits() -> Seq<char> {
    seq!['0', '1', '2', '3', '4', '5', '6', '7', '8', '9', 'a', 'b', 'c', 'd', 'e', 'f']
}

/// The lowercase hexadecimal digit for a value below sixteen.
pub open spec fn hex_digit(n: int) -> char {
    lower_hex_digits()[n]
}

/// Lowercase hexadecimal text of a byte string: two digits per byte, the high
/// nibble first.
pub open spec fn hex_lower(bytes: Seq<u8>) -> Seq<char> {
    Seq::new(
        2 * bytes.len(),
        |i: int|
            if i % 2 == 0 {
                hex_digit(bytes[i / 2] as int / 16)
            } else {
                hex_digit(bytes[i / 2] as int % 16)
            },
    )
}

/// `hex::encode`: the lowercase hexadecimal text of `data`, two digits per
/// byte with the high nibble first (the crate's table "0123456789abcdef").
#[verifier::external_body]
pub(crate) fn encode_hex(data: &[u8]) -> (text: String)
    ensures
        text@ == hex_lower(data@),
{
    hex::encode(data)
}


/// The decimal digits of a natural number, most significant first, without
/// leading zeros ("0" for zero).
pub open spec fn decimal_digits(n: nat) -> Seq<char>
    decreases n,
{
    if n < 10 {
        seq![hex_digit(n as int)]
    } else {
        decimal_digits(n / 10).push(hex_digit((n % 10) as int))
    }
}

/// The decimal text of an integer, with a leading '-' when it is negative.
pub open spec fn decimal_text(i: int) -> Seq<char> {
    if i < 0 {
        seq!['-'] + decimal_digits((-i) as nat)
    } else {
        decimal_digits(i as nat)
    }
}

/// An amount of cents written in units with two decimals: "12.34",
/// "-0.05", "0.00".
pub open spec fn cents_text(cents: int) -> Seq<char> {
    let magnitude: nat = if cents < 0 { (-cents) as nat } else { cents as nat };
    let sign: Seq<char> = if cents < 0 { seq!['-'] } else { seq![] };
    sign + decimal_digits(magnitude / 100) + seq!['.', hex_digit((magnitude % 100) as int / 10), hex_digit((magnitude % 10) as int)]
}

/// A decimal digit character, '0' to '9'.
pub open spec fn is_decimal_digit(c: char) -> bool {
    '0' <= c <= '9'
}

/// The value of a text of decimal digits, read most significant first.
pub open spec fn digits_value(text: Seq<char>) -> int
    decreases text.len(),
{
    if text.len() == 0 {
        0
    } else {
        digits_value(text.drop_last()) * 10 + (text.last() as int - '0' as int)
    }
}

/// The number of cents that a text of the form "[-]units.dd" reads as: the
/// digits before the point are whole units, the two after are hundredths,
/// and a leading '-' makes it negative.
pub open spec fn read_cents(text: Seq<char>) -> int {
    let negative = text.len() > 0 && text[0] == '-';
    let body = if negative { text.skip(1) } else { text };
    let value = digits_value(body.take(body.len() - 3)) * 100 + digits_value(body.skip(body.len() - 2));
    if negative { -value } else { value }
}

/// The text is "[-]units.dd": an optional '-', at least one decimal digit,
/// a point, and exactly two decimal digits.
pub open spec fn is_cents_form(text: Seq<char>) -> bool {
    let negative = text.len() > 0 && text[0] == '-';
    let body = if negative { text.skip(1) } else { text };
    &&& body.len() >= 4
    &&& body[body.len() - 3] == '.'
    &&& forall|i: int| 0 <= i < body.len() && i != body.len() - 3 ==> is_decimal_digit(#[trigger] body[i])
}

proof fn lemma_digit(d: int)
    requires
        0 <= d < 10,
    ensures
        is_decimal_digit(hex_digit(d)),
        hex_digit(d) as int - '0' as int == d,
{
    if d == 0 {
        assert(hex_digit(0) == '0');
    } else if d == 1 {
        assert(hex_digit(1) == '1');
    } else if d == 2 {
        assert(hex_digit(2) == '2');
    } else if d == 3 {
        assert(hex_digit(3) == '3');
    } else if d == 4 {
        assert(hex_digit(4) == '4');
    } else if d == 5 {
        assert(hex_digit(5) == '5');
    } else if d == 6 {
        assert(hex_digit(6) == '6');
    } else if d == 7 {
        assert(hex_digit(7) == '7');
    } else if d == 8 {
        assert(hex_digit(8) == '8');
    } else {
        assert(hex_digit(9) == '9');
    }
}

proof fn lemma_decimal_digits_read_back(n: nat)
    ensures
        decimal_digits(n).len() >= 1,
        forall|i: int| 0 <= i < decimal_digits(n).len() ==> is_decimal_digit(#[trigger] decimal_digits(n)[i]),
        digits_value(decimal_digits(n)) == n,
    decreases n,
{
    lemma_digit((n % 10) as int);
    let t = decimal_digits(n);
    if n < 10 {
        assert(t.drop_last() =~= Seq::<char>::empty());
        assert(digits_value(Seq::<char>::empty()) == 0);
        assert(digits_value(t) == digits_value(t.drop_last()) * 10 + (t.last() as int - '0' as int));
        assert(n % 10 == n);
    } else {
        lemma_decimal_digits_read_back(n / 10);
        assert(t.drop_last() =~= decimal_digits(n / 10));
        assert(digits_value(t) == digits_value(t.drop_last()) * 10 + (t.last() as int - '0' as int));
        assert(n == (n / 10) * 10 + n % 10);
        assert forall|i: int| 0 <= i < t.len() implies is_decimal_digit(#[trigger] t[i]) by {
            if i < t.len() - 1 {
                assert(t[i] == decimal_digits(n / 10)[i]);
            }
        }
    }
}

/// An amount written with two decimals reads back as the amount: the text
/// is "[-]units.dd", the units are the whole amount (however many digits
/// it takes) and the two decimals the cents.
pub proof fn law_cents_text_reads_back(cents: int)
    ensures
        is_cents_form(cents_text(cents)),
        read_cents(cents_text(cents)) == cents,
{
    let magnitude: nat = if cents < 0 { (-cents) as nat } else { cents as nat };
    let units = decimal_digits(magnitude / 100);
    let tens = hex_digit((magnitude % 100) as int / 10);
    let ones = hex_digit((magnitude % 10) as int);
    let body = units + seq!['.', tens, ones];
    let text = cents_text(cents);
    lemma_decimal_digits_read_back(magnitude / 100);
    lemma_digit((magnitude % 100) as int / 10);
    lemma_digit((magnitude % 10) as int);
    if cents < 0 {
        assert(text =~= seq!['-'] + body);
        assert(text.skip(1) =~= body);
    } else {
        assert(text =~= body);
        assert(is_decimal_digit(units[0]));
    }
    assert(body.take(body.len() - 3) =~= units);
    let fraction = body.skip(body.len() - 2);
    assert(fraction =~= seq![tens, ones]);
    assert(fraction.drop_last() =~= seq![tens]);
    assert(fraction.drop_last().drop_last() =~= Seq::<char>::empty());
    assert(digits_value(Seq::<char>::empty()) == 0);
    assert(digits_value(fraction.drop_last()) == digits_value(fraction.drop_last().drop_last()) * 10 + (tens as int
        - '0' as int));
    assert(digits_value(fraction) == digits_value(fraction.drop_last()) * 10 + (ones as int - '0' as int));
    assert(digits_value(fraction) == ((magnitude % 100) as int / 10) * 10 + (magnitude % 10) as int);
    assert forall|i: int| 0 <= i < body.len() && i != body.len() - 3 implies is_decimal_digit(#[trigger] body[i]) by {
        if i < units.len() {
            assert(body[i] == units[i]);
        }
    }
    assert(((magnitude % 100) as int / 10) * 10 + (magnitude % 10) as int == magnitude % 100) by (nonlinear_arith)
        requires magnitude >= 0;
    assert((magnitude / 100) * 100 + magnitude % 100 == magnitude) by (nonlinear_arith);
}

/// The integer that a text of the form "[-]digits" reads as.
pub open spec fn read_decimal(text: Seq<char>) -> int {
    if text.len() > 0 && text[0] == '-' {
        -digits_value(text.skip(1))
    } else {
        digits_value(text)
    }
}

/// An integer written in decimal reads back as the integer: the text is an
/// optional '-' and at least one decimal digit, the '-' exactly for a
/// negative integer, and the digits start with no '0' unless the integer is
/// zero.
pub proof fn law_decimal_text_reads_back(i: int)
    ensures
        read_decimal(decimal_text(i)) == i,
        (decimal_text(i)[0] == '-') <==> i < 0,
        ({
            let digits = if i < 0 { decimal_text(i).skip(1) } else { decimal_text(i) };
            &&& digits.len() >= 1
            &&& forall|k: int| 0 <= k < digits.len() ==> is_decimal_digit(#[trigger] digits[k])
            &&& digits[0] == '0' ==> i == 0
        }),
{
    let magnitude: nat = if i < 0 { (-i) as nat } else { i as nat };
    lemma_decimal_digits_read_back(magnitude);
    lemma_leading_digit(magnitude);
    if i < 0 {
        assert(decimal_text(i).skip(1) =~= decimal_digits(magnitude));
    }
}

proof fn lemma_leading_digit(n: nat)
    ensures
        decimal_digits(n)[0] == '0' ==> n == 0,
    decreases n,
{
    if n < 10 {
        if n != 0 {
            lemma_digit(n as int);
            assert(decimal_digits(n)[0] == hex_digit(n as int));
        }
    } else {
        lemma_leading_digit(n / 10);
        lemma_decimal_digits_read_back(n / 10);
        assert(decimal_digits(n)[0] == decimal_digits(n / 10)[0]);
    }
}

/// The character for a digit below sixteen.
pub fn digit_char(d: u64) -> (c: char)
    requires
        d < 16,
    ensures
        c == hex_digit(d as int),
{
    match d {
        0 => '0',
        1 => '1',
        2 => '2',
        3 => '3',
        4 => '4',
        5 => '5',
        6 => '6',
        7 => '7',
        8 => '8',
        9 => '9',
        10 => 'a',
        11 => 'b',
        12 => 'c',
        13 => 'd',
        14 => 'e',
        _ => 'f',
    }
}

/// `String::push`: appends one character.
#[verifier::external_body]
pub(crate) fn push_char(text: &mut String, c: char)
    ensures
        final(text)@ == old(text)@.push(c),
{
    text.push(c);
}

/// Appends the decimal digits of `n`.
pub fn push_decimal(text: &mut String, n: u64)
    ensures
        final(text)@ == old(text)@ + decimal_digits(n as nat),
    decreases n,
{
    if n >= 10 {
        push_decimal(text, n / 10);
    }
    push_char(text, digit_char(n % 10));
    proof {
        assert(old(text)@ + decimal_digits(n as nat) =~= if n >= 10 {
            (old(text)@ + decimal_digits((n / 10) as nat)).push(hex_digit((n % 10) as int))
        } else {
            old(text)@.push(hex_digit((n % 10) as int))
        });
    }
}

/// The magnitude of a signed value.
fn magnitude(value: i64) -> (m: u64)
    ensures
        m as int == if value < 0 { -value } else { value as int },
{
    if value < 0 {
        ((-(value as i128)) as u64)
    } else {
        value as u64
    }
}

/// The decimal text of a signed integer.
pub fn decimal_string(value: i64) -> (text: String)
    ensures
        text@ == decimal_text(value as int),
{
    let mut text = String::new();
    if value < 0 {
        push_char(&mut text, '-');
    }
    push_decimal(&mut text, magnitude(value));
    proof {
        if value >= 0 {
            assert(text@ =~= decimal_text(value as int));
        } else {
            assert(text@ =~= decimal_text(value as int));
        }
    }
    text
}

/// Appends an amount of cents written with two decimals.
pub fn push_cents(text: &mut String, cents: i64)
    ensures
        final(text)@ == old(text)@ + cents_text(cents as int),
{
    let m = magnitude(cents);
    if cents < 0 {
        push_char(text, '-');
    }
    push_decimal(text, m / 100);
    push_char(text, '.');
    push_char(text, digit_char((m % 100) / 10));
    push_char(text, digit_char(m % 10));
    assert(text@ =~= old(text)@ + cents_text(cents as int));
}

/// The 32 lowercase hexadecimal digits of a 128-bit identifier, most
/// significant first.
pub open spec fn id_hex(id: u128) -> Seq<char> {
    Seq::new(32, |i: int| hex_digit((id as int / vstd::arithmetic::power::pow(16, (31 - i) as nat)) % 16))
}

/// The hyphenated text of an identifier: 8-4-4-4-12 lowercase hexadecimal
/// digits.
pub open spec fn uuid_text(id: u128) -> Seq<char> {
    let h = id_hex(id);
    h.subrange(0, 8) + seq!['-'] + h.subrange(8, 12) + seq!['-'] + h.subrange(12, 16) + seq!['-']
        + h.subrange(16, 20) + seq!['-'] + h.subrange(20, 32)
}

/// `uuid::Uuid::from_u128(id).to_string()`: the UUID whose big-endian value is
/// `id`, displayed hyphenated in lowercase. Claimed: the text is
/// `uuid_text(id)`.
#[verifier::external_body]
pub(crate) fn uuid_string(id: u128) -> (text: String)
    ensures
        text@ == uuid_text(id),
{
    uuid::Uuid::from_u128(id).to_string()
}

/// What `uuid::Uuid::parse_str` makes of a text: the value of the UUID it
/// reads, or `None` where it refuses the text.
pub uninterp spec fn parsed_uuid(text: Seq<char>) -> Option<u128>;

/// `uuid::Uuid::parse_str`: reads a UUID in any of the crate's accepted
/// forms. Claimed: the result is `parsed_uuid(text)`, as a 128-bit value.
#[verifier::external_body]
pub(crate) fn parse_uuid(text: &str) -> (id: Option<u128>)
    ensures
        id == parsed_uuid(text@),
{
    match uuid::Uuid::parse_str(text) {
        Ok(u) => Some(u.as_u128()),
        Err(_) => None,
    }
}

} // verus!
