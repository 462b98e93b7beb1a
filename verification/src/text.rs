//! Text and byte-string primitives shared by every module.
//!
//! Strings are modelled by their characters (`s@`); rules that speak of bytes
//! are stated over the UTF-8 encoding of those characters, [`utf8`].

use vstd::prelude::*;
use vstd::utf8::*;

verus! {

/// The bytes of a string: the UTF-8 encoding of its characters.
pub open spec fn utf8(s: Seq<char>) -> Seq<u8> {
    encode_utf8(s)
}

/// The characters of an optional string.
pub open spec fn opt_text(value: Option<String>) -> Option<Seq<char>> {
    match value {
        Some(text) => Some(text@),
        None => None,
    }
}

/// The characters of every string of a list.
pub open spec fn texts(values: Seq<String>) -> Seq<Seq<char>> {
    Seq::new(values.len(), |i: int| values[i]@)
}

/// `String::push` appends one character to the string.
pub assume_specification[ String::push ](s: &mut String, c: char)
    ensures
        final(s)@ == old(s)@.push(c),
;

/// Two character sequences are equal exactly when their encodings are.
pub proof fn lemma_utf8_injective(a: Seq<char>, b: Seq<char>)
    ensures
        utf8(a) == utf8(b) <==> a == b,
{
    encode_utf8_decode_utf8(a);
    encode_utf8_decode_utf8(b);
}

/// The encoding of a concatenation is the concatenation of the encodings.
pub proof fn lemma_utf8_concat(a: Seq<char>, b: Seq<char>)
    ensures
        utf8(a + b) == utf8(a) + utf8(b),
    decreases a.len(),
{
    if a.len() == 0 {
        assert(a + b =~= b);
        assert(utf8(a) =~= Seq::<u8>::empty());
        assert(utf8(a) + utf8(b) =~= utf8(b));
    } else {
        lemma_utf8_concat(a.drop_first(), b);
        assert((a + b).drop_first() =~= a.drop_first() + b);
        assert((a + b)[0] == a[0]);
        assert(utf8(a + b) =~= utf8(a) + utf8(b));
    }
}

/// The encoding of a string is empty exactly when the string is.
pub proof fn lemma_utf8_empty(a: Seq<char>)
    ensures
        utf8(a).len() == 0 <==> a.len() == 0,
{
    lemma_utf8_injective(a, Seq::<char>::empty());
    assert(utf8(Seq::<char>::empty()) =~= Seq::<u8>::empty());
    if utf8(a).len() == 0 {
        assert(utf8(a) =~= Seq::<u8>::empty());
    }
}

/// Length of a string in bytes.
pub fn byte_len(s: &str) -> (n: usize)
    ensures
        n == utf8(s@).len(),
{
    s.as_bytes().len()
}

/// Byte-for-byte equality of two slices.
pub fn same_bytes(a: &[u8], b: &[u8]) -> (r: bool)
    ensures
        r == (a@ == b@),
{
    if a.len() != b.len() {
        return false;
    }
    let mut i: usize = 0;
    while i < a.len()
        invariant
            a@.len() == b@.len(),
            i <= a@.len(),
            forall|j: int| 0 <= j < i ==> a@[j] == b@[j],
        decreases a@.len() - i,
    {
        if a[i] != b[i] {
            return false;
        }
        i += 1;
    }
    assert(a@ =~= b@);
    true
}

/// Equality of two strings.
pub fn same_text(a: &str, b: &str) -> (r: bool)
    ensures
        r == (a@ == b@),
{
    proof {
        lemma_utf8_injective(a@, b@);
    }
    same_bytes(a.as_bytes(), b.as_bytes())
}

/// Equality of two optional strings.
pub fn same_opt_text(a: &Option<String>, b: &Option<String>) -> (r: bool)
    ensures
        r == (opt_text(*a) == opt_text(*b)),
{
    match (a, b) {
        (None, None) => true,
        (Some(x), Some(y)) => same_text(x.as_str(), y.as_str()),
        _ => false,
    }
}

/// Whether an optional string holds exactly `value`.
pub fn opt_text_is(a: &Option<String>, value: &str) -> (r: bool)
    ensures
        r == (opt_text(*a) == Some(value@)),
{
    match a {
        Some(text) => same_text(text.as_str(), value),
        None => false,
    }
}

/// A copy of an optional string.
pub fn copy_opt_text(a: &Option<String>) -> (r: Option<String>)
    ensures
        opt_text(r) == opt_text(*a),
{
    match a {
        Some(text) => Some(text.clone()),
        None => None,
    }
}

/// A copy of a byte string.
pub fn copy_bytes(a: &[u8]) -> (r: Vec<u8>)
    ensures
        r@ == a@,
{
    let mut out: Vec<u8> = Vec::new();
    push_bytes(&mut out, a);
    assert(out@ =~= a@);
    out
}

/// Appends a byte string.
pub fn push_bytes(output: &mut Vec<u8>, bytes: &[u8])
    ensures
        final(output)@ == old(output)@ + bytes@,
{
    output.extend_from_slice(bytes);
    assert(output@ =~= old(output)@ + bytes@);
}

/// Whether every byte of a string is drawn from lower-case letters, digits and `_`.
pub open spec fn is_lower_alnum_underscore(b: u8) -> bool {
    (97 <= b <= 122) || (48 <= b <= 57) || b == 95
}

/// An ASCII decimal digit.
pub open spec fn is_digit_byte(b: u8) -> bool {
    48 <= b <= 57
}

/// An ASCII letter or decimal digit.
pub open spec fn is_alnum_byte(b: u8) -> bool {
    is_digit_byte(b) || (65 <= b <= 90) || (97 <= b <= 122)
}

/// An ASCII hexadecimal digit of either case.
pub open spec fn is_hex_byte(b: u8) -> bool {
    is_digit_byte(b) || (65 <= b <= 70) || (97 <= b <= 102)
}

/// The value of a run of decimal digits.
pub open spec fn digits_value(s: Seq<u8>) -> nat
    decreases s.len(),
{
    if s.len() == 0 {
        0
    } else {
        digits_value(s.drop_last()) * 10 + (s.last() - 48) as nat
    }
}

/// Whether every byte is a decimal digit.
pub open spec fn all_digits(s: Seq<u8>) -> bool {
    forall|i: int| 0 <= i < s.len() ==> is_digit_byte(#[trigger] s[i])
}

/// The digits that carry the value of an unsigned number: what follows an
/// optional leading `+`.
pub open spec fn unsigned_digits(s: Seq<u8>) -> Seq<u8> {
    if s.len() > 0 && s[0] == 43 {
        s.drop_first()
    } else {
        s
    }
}

/// The number that the text of an unsigned decimal integer stands for, where it
/// stands for one that is at most `max`: an optional `+`, then one or more digits.
pub open spec fn unsigned_value(s: Seq<u8>, max: nat) -> Option<nat> {
    let d = unsigned_digits(s);
    if d.len() > 0 && all_digits(d) && digits_value(d) <= max {
        Some(digits_value(d))
    } else {
        None
    }
}

proof fn lemma_digits_prefix(s: Seq<u8>, i: int)
    requires
        0 <= i <= s.len(),
        all_digits(s),
    ensures
        digits_value(s.subrange(0, i)) <= digits_value(s),
    decreases s.len() - i,
{
    if i < s.len() {
        lemma_digits_prefix(s, i + 1);
        assert(s.subrange(0, i + 1).drop_last() =~= s.subrange(0, i));
    } else {
        assert(s.subrange(0, i) =~= s);
    }
}

/// Reads a run of digits as a number that is at most `max`.
fn digits_at_most(s: &[u8], from: usize, max: u64) -> (r: Option<u64>)
    requires
        from <= s@.len(),
    ensures
        ({
            let d = s@.subrange(from as int, s@.len() as int);
            match r {
                Some(v) => d.len() > 0 && all_digits(d) && digits_value(d) == v && v <= max,
                None => !(d.len() > 0 && all_digits(d) && digits_value(d) <= max),
            }
        }),
{
    let ghost d = s@.subrange(from as int, s@.len() as int);
    if from >= s.len() {
        return None;
    }
    let mut value: u64 = 0;
    let mut i: usize = from;
    while i < s.len()
        invariant
            from <= i <= s@.len(),
            d == s@.subrange(from as int, s@.len() as int),
            forall|j: int| 0 <= j < i - from ==> is_digit_byte(#[trigger] d[j]),
            value == digits_value(d.subrange(0, i - from)),
            value <= max,
        decreases s@.len() - i,
    {
        let b: u8 = s[i];
        assert(b == d[i - from]);
        if b < 48 || b > 57 {
            return None;
        }
        let digit: u64 = (b - 48) as u64;
        proof {
            assert(d.subrange(0, i - from + 1).drop_last() =~= d.subrange(0, i - from));
            assert(digits_value(d.subrange(0, i - from + 1)) == value * 10 + digit);
        }
        if digit > max || value > max / 10 || value * 10 > max - digit {
            proof {
                assert(value * 10 + digit > max);
                if all_digits(d) {
                    lemma_digits_prefix(d, i - from + 1);
                }
            }
            return None;
        }
        value = value * 10 + digit;
        i += 1;
    }
    assert(d.subrange(0, i - from) =~= d);
    Some(value)
}

/// Reads the text of an unsigned decimal integer that is at most `max`.
pub fn parse_unsigned(s: &[u8], max: u64) -> (r: Option<u64>)
    ensures
        match r {
            Some(v) => unsigned_value(s@, max as nat) == Some(v as nat),
            None => unsigned_value(s@, max as nat) is None,
        },
{
    if s.len() > 0 && s[0] == 43 {
        assert(s@.subrange(1, s@.len() as int) =~= s@.drop_first());
        digits_at_most(s, 1, max)
    } else {
        assert(s@.subrange(0, s@.len() as int) =~= s@);
        digits_at_most(s, 0, max)
    }
}

/// The number that the text of a signed decimal integer stands for, where it
/// stands for one of `i64`: an optional sign, then one or more digits.
pub open spec fn signed_value(s: Seq<u8>) -> Option<int> {
    if s.len() > 0 && s[0] == 45 {
        let d = s.drop_first();
        if d.len() > 0 && all_digits(d) && digits_value(d) <= 0x8000_0000_0000_0000 {
            Some(-(digits_value(d) as int))
        } else {
            None
        }
    } else {
        match unsigned_value(s, 0x7fff_ffff_ffff_ffff) {
            Some(v) => Some(v as int),
            None => None,
        }
    }
}

/// Reads the text of a signed decimal integer of 64 bits.
pub fn parse_signed(s: &[u8]) -> (r: Option<i64>)
    ensures
        match r {
            Some(v) => signed_value(s@) == Some(v as int),
            None => signed_value(s@) is None,
        },
{
    if s.len() > 0 && s[0] == 45 {
        assert(s@.subrange(1, s@.len() as int) =~= s@.drop_first());
        match digits_at_most(s, 1, 0x8000_0000_0000_0000) {
            Some(v) => {
                if v == 0x8000_0000_0000_0000 {
                    Some(i64::MIN)
                } else {
                    Some(-(v as i64))
                }
            },
            None => None,
        }
    } else {
        match parse_unsigned(s, 0x7fff_ffff_ffff_ffff) {
            Some(v) => Some(v as i64),
            None => None,
        }
    }
}

/// The decimal digits of a number, as bytes, without leading zeros.
pub open spec fn decimal_bytes(n: nat) -> Seq<u8>
    decreases n,
{
    if n < 10 {
        seq![(48 + n) as u8]
    } else {
        decimal_bytes(n / 10).push((48 + n % 10) as u8)
    }
}

/// The decimal digits of an integer, as bytes, with a leading `-` where negative.
pub open spec fn signed_decimal_bytes(n: int) -> Seq<u8> {
    if n < 0 {
        seq![45u8] + decimal_bytes((-n) as nat)
    } else {
        decimal_bytes(n as nat)
    }
}

/// ASCII bytes read as characters.
pub open spec fn ascii_chars(b: Seq<u8>) -> Seq<char> {
    Seq::new(b.len(), |i: int| b[i] as char)
}

/// Whether every byte is ASCII.
pub open spec fn is_ascii_bytes(b: Seq<u8>) -> bool {
    forall|i: int| 0 <= i < b.len() ==> #[trigger] b[i] < 128
}

/// The decimal text of a number.
pub open spec fn decimal(n: nat) -> Seq<char> {
    ascii_chars(decimal_bytes(n))
}

/// The decimal text of an integer.
pub open spec fn signed_decimal(n: int) -> Seq<char> {
    ascii_chars(signed_decimal_bytes(n))
}

/// ASCII characters encode to the bytes they were read from.
pub proof fn lemma_ascii_round_trip(b: Seq<u8>)
    requires
        is_ascii_bytes(b),
    ensures
        utf8(ascii_chars(b)) == b,
{
    let c = ascii_chars(b);
    assert forall|i: int| 0 <= i < c.len() implies '\0' <= #[trigger] c[i] <= '\u{7f}' by {
        assert(b[i] < 128);
    }
    assert(is_ascii_chars(c));
    is_ascii_chars_encode_utf8(c);
    assert(utf8(c) =~= b) by {
        assert forall|i: int| 0 <= i < b.len() implies utf8(c)[i] == b[i] by {
            assert(c[i] as u8 == encode_utf8(c)[i]);
            assert(b[i] < 128);
        }
    }
}

/// Decimal digits are digits, there is at least one, and they stand for the number.
pub proof fn lemma_decimal(n: nat)
    ensures
        decimal_bytes(n).len() > 0,
        all_digits(decimal_bytes(n)),
        digits_value(decimal_bytes(n)) == n,
        is_ascii_bytes(decimal_bytes(n)),
    decreases n,
{
    if n < 10 {
        let s = seq![(48 + n) as u8];
        assert(s.drop_last() =~= Seq::<u8>::empty());
        reveal_with_fuel(digits_value, 2);
    } else {
        lemma_decimal(n / 10);
        let p = decimal_bytes(n / 10);
        let s = p.push((48 + n % 10) as u8);
        assert(s.drop_last() =~= p);
        assert(s.last() == (48 + n % 10) as u8);
    }
}

/// Reading the decimal text of a 64-bit integer gives the integer back.
pub proof fn lemma_signed_decimal(n: i64)
    ensures
        signed_value(signed_decimal_bytes(n as int)) == Some(n as int),
        is_ascii_bytes(signed_decimal_bytes(n as int)),
        utf8(signed_decimal(n as int)) == signed_decimal_bytes(n as int),
        forall|i: int| 0 <= i < signed_decimal_bytes(n as int).len() ==> {
            let b = #[trigger] signed_decimal_bytes(n as int)[i];
            is_digit_byte(b) || b == 45
        },
{
    let s = signed_decimal_bytes(n as int);
    if n < 0 {
        let d = decimal_bytes((-n) as nat);
        lemma_decimal((-n) as nat);
        assert(s.drop_first() =~= d);
        assert forall|i: int| 0 <= i < s.len() implies #[trigger] s[i] < 128 && (is_digit_byte(s[i]) || s[i] == 45) by {
            if i > 0 {
                assert(s[i] == d[i - 1]);
            }
        }
    } else {
        lemma_decimal(n as nat);
        assert(is_digit_byte(s[0]));
    }
    lemma_ascii_round_trip(s);
}

/// Reading the decimal text of a number gives the number back.
pub proof fn lemma_unsigned_decimal(n: nat, max: nat)
    requires
        n <= max,
    ensures
        unsigned_value(decimal_bytes(n), max) == Some(n),
        utf8(decimal(n)) == decimal_bytes(n),
{
    lemma_decimal(n);
    assert(is_digit_byte(decimal_bytes(n)[0]));
    lemma_ascii_round_trip(decimal_bytes(n));
}

fn push_decimal(out: &mut String, n: u64)
    ensures
        final(out)@ == old(out)@ + decimal(n as nat),
    decreases n,
{
    let ghost before = out@;
    if n >= 10 {
        push_decimal(out, n / 10);
    }
    let digit: u8 = 48 + (n % 10) as u8;
    out.push(digit as char);
    proof {
        if n >= 10 {
            assert(decimal_bytes(n as nat) == decimal_bytes((n / 10) as nat).push(digit));
        }
        assert(out@ =~= before + decimal(n as nat));
    }
}

/// The decimal text of an unsigned number.
pub fn decimal_text(n: u64) -> (r: String)
    ensures
        r@ == decimal(n as nat),
{
    let mut out: String = String::new();
    push_decimal(&mut out, n);
    assert(out@ =~= decimal(n as nat));
    out
}

/// The decimal text of a signed number.
pub fn signed_decimal_text(n: i64) -> (r: String)
    ensures
        r@ == signed_decimal(n as int),
{
    let mut out: String = String::new();
    if n < 0 {
        out.push('-');
        let magnitude: u64 = if n == i64::MIN {
            0x8000_0000_0000_0000
        } else {
            (-n) as u64
        };
        push_decimal(&mut out, magnitude);
        assert(out@ =~= signed_decimal(n as int));
    } else {
        push_decimal(&mut out, n as u64);
        assert(out@ =~= signed_decimal(n as int));
    }
    out
}

/// The lower-case hexadecimal digit of a nibble.
pub open spec fn hex_digit(n: int) -> u8 {
    if n < 10 {
        (48 + n) as u8
    } else {
        (87 + n) as u8
    }
}

/// Two lower-case hexadecimal digits per byte.
pub open spec fn hex_bytes(b: Seq<u8>) -> Seq<u8> {
    Seq::new(
        b.len() * 2,
        |i: int|
            if i % 2 == 0 {
                hex_digit((b[i / 2] / 16) as int)
            } else {
                hex_digit((b[i / 2] % 16) as int)
            },
    )
}

/// The lower-case hexadecimal text of a byte string.
pub open spec fn hex(b: Seq<u8>) -> Seq<char> {
    ascii_chars(hex_bytes(b))
}

fn hex_char(n: u8) -> (c: char)
    requires
        n < 16,
    ensures
        c == hex_digit(n as int) as char,
{
    if n < 10 {
        (48 + n) as char
    } else {
        (87 + n) as char
    }
}

/// The lower-case hexadecimal text of a byte string.
pub fn hex_text(b: &[u8]) -> (r: String)
    ensures
        r@ == hex(b@),
{
    let mut out: String = String::new();
    let mut i: usize = 0;
    while i < b.len()
        invariant
            i <= b@.len(),
            out@ == hex(b@).subrange(0, i * 2),
        decreases b@.len() - i,
    {
        let v: u8 = b[i];
        out.push(hex_char(v / 16));
        out.push(hex_char(v % 16));
        proof {
            let k = (i * 2) as int;
            assert(k / 2 == i && k % 2 == 0 && (k + 1) / 2 == i && (k + 1) % 2 == 1);
            assert(hex_bytes(b@)[k] == hex_digit((b@[i as int] / 16) as int));
            assert(hex_bytes(b@)[k + 1] == hex_digit((b@[i as int] % 16) as int));
            assert(out@ =~= hex(b@).subrange(0, (i + 1) * 2));
        }
        i += 1;
    }
    assert(out@ =~= hex(b@));
    out
}

/// Hexadecimal text determines the bytes it was made from.
pub proof fn lemma_hex_injective(a: Seq<u8>, b: Seq<u8>)
    requires
        hex(a) == hex(b),
    ensures
        a == b,
{
    assert(hex(a).len() == a.len() * 2 && hex(b).len() == b.len() * 2);
    assert forall|i: int| 0 <= i < a.len() implies a[i] == b[i] by {
        let k = i * 2;
        assert(k / 2 == i && k % 2 == 0 && (k + 1) / 2 == i && (k + 1) % 2 == 1);
        assert(hex(a)[k] == hex(b)[k]);
        assert(hex(a)[k + 1] == hex(b)[k + 1]);
        assert(hex_bytes(a).len() == a.len() * 2 && hex_bytes(b).len() == b.len() * 2);
        assert(0 <= k && k + 1 < hex_bytes(a).len());
        assert(hex(a)[k] == hex_bytes(a)[k] as char && hex(b)[k] == hex_bytes(b)[k] as char);
        assert(hex(a)[k + 1] == hex_bytes(a)[k + 1] as char && hex(b)[k + 1] == hex_bytes(b)[k + 1] as char);
        assert(hex_digit((a[i] / 16) as int) == hex_digit((b[i] / 16) as int));
        assert(hex_digit((a[i] % 16) as int) == hex_digit((b[i] % 16) as int));
    }
    assert(a =~= b);
}

/// Eight bytes, most significant first.
#[verifier::opaque]
pub open spec fn be64(x: u64) -> Seq<u8> {
    seq![
        (x / 0x100_0000_0000_0000) as u8,
        ((x / 0x1_0000_0000_0000) % 256) as u8,
        ((x / 0x100_0000_0000) % 256) as u8,
        ((x / 0x1_0000_0000) % 256) as u8,
        ((x / 0x100_0000) % 256) as u8,
        ((x / 0x1_0000) % 256) as u8,
        ((x / 0x100) % 256) as u8,
        (x % 256) as u8,
    ]
}

/// Four bytes, most significant first.
#[verifier::opaque]
pub open spec fn be32(x: u32) -> Seq<u8> {
    seq![
        (x / 0x100_0000) as u8,
        ((x / 0x1_0000) % 256) as u8,
        ((x / 0x100) % 256) as u8,
        (x % 256) as u8,
    ]
}

/// The two's-complement reading of a signed number as an unsigned one.
pub open spec fn two_complement(x: i64) -> u64 {
    if x < 0 {
        (x + 0x1_0000_0000_0000_0000) as u64
    } else {
        x as u64
    }
}

/// Eight bytes of a signed number, most significant first.
pub open spec fn be_i64(x: i64) -> Seq<u8> {
    be64(two_complement(x))
}

/// Eight bytes determine the number they were made from.
pub proof fn lemma_be64_injective(a: u64, b: u64)
    ensures
        be64(a) == be64(b) <==> a == b,
        be64(a).len() == 8,
{
    reveal(be64);
    if be64(a) == be64(b) {
        assert(be64(a)[0] == be64(b)[0]);
        assert(be64(a)[1] == be64(b)[1]);
        assert(be64(a)[2] == be64(b)[2]);
        assert(be64(a)[3] == be64(b)[3]);
        assert(be64(a)[4] == be64(b)[4]);
        assert(be64(a)[5] == be64(b)[5]);
        assert(be64(a)[6] == be64(b)[6]);
        assert(be64(a)[7] == be64(b)[7]);
        assert(a == b) by (bit_vector)
            requires
                a / 0x100_0000_0000_0000u64 == b / 0x100_0000_0000_0000u64,
                (a / 0x1_0000_0000_0000u64) % 256u64 == (b / 0x1_0000_0000_0000u64) % 256u64,
                (a / 0x100_0000_0000u64) % 256u64 == (b / 0x100_0000_0000u64) % 256u64,
                (a / 0x1_0000_0000u64) % 256u64 == (b / 0x1_0000_0000u64) % 256u64,
                (a / 0x100_0000u64) % 256u64 == (b / 0x100_0000u64) % 256u64,
                (a / 0x1_0000u64) % 256u64 == (b / 0x1_0000u64) % 256u64,
                (a / 0x100u64) % 256u64 == (b / 0x100u64) % 256u64,
                a % 256u64 == b % 256u64,
        ;
    }
}

/// Four bytes determine the number they were made from.
pub proof fn lemma_be32_injective(a: u32, b: u32)
    ensures
        be32(a) == be32(b) <==> a == b,
        be32(a).len() == 4,
{
    reveal(be32);
    if be32(a) == be32(b) {
        assert(be32(a)[0] == be32(b)[0]);
        assert(be32(a)[1] == be32(b)[1]);
        assert(be32(a)[2] == be32(b)[2]);
        assert(be32(a)[3] == be32(b)[3]);
    }
}

/// Appends eight bytes, most significant first.
pub fn push_be64(output: &mut Vec<u8>, x: u64)
    ensures
        final(output)@ == old(output)@ + be64(x),
{
    output.push((x / 0x100_0000_0000_0000) as u8);
    output.push(((x / 0x1_0000_0000_0000) % 256) as u8);
    output.push(((x / 0x100_0000_0000) % 256) as u8);
    output.push(((x / 0x1_0000_0000) % 256) as u8);
    output.push(((x / 0x100_0000) % 256) as u8);
    output.push(((x / 0x1_0000) % 256) as u8);
    output.push(((x / 0x100) % 256) as u8);
    output.push((x % 256) as u8);
    proof {
        reveal(be64);
        assert(output@ =~= old(output)@ + be64(x));
    }
}

/// Appends four bytes, most significant first.
pub fn push_be32(output: &mut Vec<u8>, x: u32)
    ensures
        final(output)@ == old(output)@ + be32(x),
{
    output.push((x / 0x100_0000) as u8);
    output.push(((x / 0x1_0000) % 256) as u8);
    output.push(((x / 0x100) % 256) as u8);
    output.push((x % 256) as u8);
    proof {
        reveal(be32);
        assert(output@ =~= old(output)@ + be32(x));
    }
}

/// Appends the eight bytes of a signed number, most significant first.
pub fn push_be_i64(output: &mut Vec<u8>, x: i64)
    ensures
        final(output)@ == old(output)@ + be_i64(x),
{
    if x < 0 {
        let wide: i128 = (x as i128) + 0x1_0000_0000_0000_0000i128;
        push_be64(output, wide as u64);
    } else {
        push_be64(output, x as u64);
    }
}

/// A byte string behind its length, so that what follows cannot run into it.
pub open spec fn framed(bytes: Seq<u8>) -> Seq<u8> {
    be64(bytes.len() as u64) + bytes
}

/// Appends a byte string behind its length.
pub fn push_len(output: &mut Vec<u8>, bytes: &[u8])
    ensures
        final(output)@ == old(output)@ + framed(bytes@),
{
    let n: usize = bytes.len();
    push_be64(output, n as u64);
    push_bytes(output, bytes);
    assert(output@ =~= old(output)@ + framed(bytes@));
}

/// Framed byte strings can be told apart from what follows them: equal streams
/// that begin with a framed string begin with the same one.
pub proof fn lemma_framed_prefix(a: Seq<u8>, b: Seq<u8>, rest_a: Seq<u8>, rest_b: Seq<u8>)
    requires
        a.len() <= u64::MAX,
        b.len() <= u64::MAX,
        framed(a) + rest_a == framed(b) + rest_b,
    ensures
        a == b,
        rest_a == rest_b,
{
    lemma_be64_injective(a.len() as u64, b.len() as u64);
    lemma_be64_injective(b.len() as u64, b.len() as u64);
    let x = framed(a) + rest_a;
    let y = framed(b) + rest_b;
    assert(x.subrange(0, 8) =~= be64(a.len() as u64));
    assert(y.subrange(0, 8) =~= be64(b.len() as u64));
    assert(x.subrange(8, 8 + a.len() as int) =~= a);
    assert(y.subrange(8, 8 + b.len() as int) =~= b);
    assert(x.subrange(8 + a.len() as int, x.len() as int) =~= rest_a);
    assert(y.subrange(8 + b.len() as int, y.len() as int) =~= rest_b);
}

/// Eight bytes stand for their number in base 256, the most significant first.
pub proof fn law_eight_bytes_are_big_endian(x: u64)
    ensures
        be64(x).len() == 8,
        be64(x)[0] * 0x100_0000_0000_0000 + be64(x)[1] * 0x1_0000_0000_0000 + be64(x)[2] * 0x100_0000_0000 + be64(
            x,
        )[3] * 0x1_0000_0000 + be64(x)[4] * 0x100_0000 + be64(x)[5] * 0x1_0000 + be64(x)[6] * 0x100 + be64(x)[7] == x,
{
    reveal(be64);
    assert((x / 0x100_0000_0000_0000u64) < 256u64 && (x / 0x100_0000_0000_0000u64) * 0x100_0000_0000_0000u64 + ((x
        / 0x1_0000_0000_0000u64) % 256u64) * 0x1_0000_0000_0000u64 + ((x / 0x100_0000_0000u64) % 256u64)
        * 0x100_0000_0000u64 + ((x / 0x1_0000_0000u64) % 256u64) * 0x1_0000_0000u64 + ((x / 0x100_0000u64) % 256u64)
        * 0x100_0000u64 + ((x / 0x1_0000u64) % 256u64) * 0x1_0000u64 + ((x / 0x100u64) % 256u64) * 0x100u64 + (x
        % 256u64) == x) by (bit_vector);
}

/// Four bytes stand for their number in base 256, the most significant first.
pub proof fn law_four_bytes_are_big_endian(x: u32)
    ensures
        be32(x).len() == 4,
        be32(x)[0] * 0x100_0000 + be32(x)[1] * 0x1_0000 + be32(x)[2] * 0x100 + be32(x)[3] == x,
{
    reveal(be32);
}

/// A signed number is written as the unsigned one that it is congruent to modulo two to the
/// sixty-fourth.
pub proof fn law_signed_numbers_wrap_around(x: i64)
    ensures
        0 <= x ==> two_complement(x) == x,
        x < 0 ==> two_complement(x) == x + 0x1_0000_0000_0000_0000,
        be_i64(x) == be64(two_complement(x)),
{
}

/// Streams that begin with a signed number begin with the same one.
pub proof fn lemma_signed_prefix(a: i64, b: i64, rest_a: Seq<u8>, rest_b: Seq<u8>)
    requires
        be_i64(a) + rest_a == be_i64(b) + rest_b,
    ensures
        a == b,
        rest_a == rest_b,
{
    lemma_be64_injective(two_complement(a), two_complement(b));
    lemma_be64_injective(two_complement(b), two_complement(b));
    let x = be_i64(a) + rest_a;
    let y = be_i64(b) + rest_b;
    assert(x.subrange(0, 8) =~= be_i64(a));
    assert(y.subrange(0, 8) =~= be_i64(b));
    assert(x.subrange(8, x.len() as int) =~= rest_a);
    assert(y.subrange(8, y.len() as int) =~= rest_b);
}

/// A text with every occurrence of `from` replaced, from left to right.
pub open spec fn replaced(s: Seq<char>, from: Seq<char>, to: Seq<char>) -> Seq<char>
    decreases s.len(),
{
    if from.len() == 0 || s.len() < from.len() {
        s
    } else if s.subrange(0, from.len() as int) == from {
        to + replaced(s.skip(from.len() as int), from, to)
    } else {
        seq![s[0]] + replaced(s.skip(1), from, to)
    }
}

fn char_list(s: &str) -> (r: Vec<char>)
    ensures
        r@ == s@,
{
    let mut out: Vec<char> = Vec::new();
    for c in it: s.chars()
        invariant
            it.seq() == s@,
            out@ == s@.take(it.index() as int),
    {
        out.push(c);
        assert(out@ =~= s@.take(it.index() + 1));
    }
    assert(s@.take(s@.len() as int) =~= s@);
    out
}

fn stands_at(list: &Vec<char>, at: usize, head: &Vec<char>) -> (r: bool)
    requires
        at + head@.len() <= list@.len(),
    ensures
        r == (list@.subrange(at as int, at + head@.len()) == head@),
{
    let n: usize = list.len();
    let mut k: usize = 0;
    while k < head.len()
        invariant
            k <= head@.len(),
            n == list@.len(),
            at + head@.len() <= n,
            forall|j: int| 0 <= j < k ==> #[trigger] head@[j] == list@[at + j],
        decreases head@.len() - k,
    {
        if list[at + k] != head[k] {
            assert(list@.subrange(at as int, at + head@.len())[k as int] != head@[k as int]);
            return false;
        }
        k += 1;
    }
    assert(list@.subrange(at as int, at + head@.len()) =~= head@);
    true
}

/// Replaces every occurrence of a text that is not empty, from left to right. What was
/// put in is not searched again.
pub(crate) fn replace_text(s: &str, from: &str, to: &str) -> (r: String)
    requires
        from@.len() > 0,
    ensures
        r@ == replaced(s@, from@, to@),
{
    let list = char_list(s);
    let head = char_list(from);
    let mut out = String::new();
    let mut i: usize = 0;
    assert(s@.skip(0) =~= s@);
    assert(out@ + replaced(s@.skip(0), from@, to@) =~= replaced(s@, from@, to@));
    while head.len() <= list.len() - i
        invariant
            i <= list@.len(),
            list@ == s@,
            head@ == from@,
            head@.len() > 0,
            out@ + replaced(s@.skip(i as int), from@, to@) == replaced(s@, from@, to@),
        decreases list@.len() - i,
    {
        let ghost before = out@;
        let ghost rest = s@.skip(i as int);
        assert(rest.subrange(0, from@.len() as int) =~= list@.subrange(i as int, i + head@.len()));
        if stands_at(&list, i, &head) {
            out.append(to);
            i += head.len();
            proof {
                assert(rest.skip(from@.len() as int) =~= s@.skip(i as int));
                assert(before + (to@ + replaced(s@.skip(i as int), from@, to@)) =~= out@ + replaced(
                    s@.skip(i as int),
                    from@,
                    to@,
                ));
            }
        } else {
            out.push(list[i]);
            i += 1;
            proof {
                assert(rest.skip(1) =~= s@.skip(i as int));
                assert(before + (seq![rest[0]] + replaced(s@.skip(i as int), from@, to@)) =~= out@ + replaced(
                    s@.skip(i as int),
                    from@,
                    to@,
                ));
            }
        }
    }
    let ghost tail = s@.skip(i as int);
    let ghost start = i as int;
    let ghost before = out@;
    assert(tail.take(0) =~= Seq::<char>::empty());
    while i < list.len()
        invariant
            start <= i <= list@.len(),
            list@ == s@,
            0 <= start,
            tail == s@.skip(start),
            out@ == before + tail.take(i - start),
        decreases list@.len() - i,
    {
        out.push(list[i]);
        i += 1;
        assert(out@ =~= before + tail.take(i - start));
    }
    assert(tail.take(i - start) =~= tail);
    out
}

/// Whether a text begins with another.
pub open spec fn begins_with(s: Seq<u8>, head: Seq<u8>) -> bool {
    head.len() <= s.len() && s.subrange(0, head.len() as int) == head
}

/// Whether a text ends with another.
pub open spec fn ends_with(s: Seq<u8>, tail: Seq<u8>) -> bool {
    tail.len() <= s.len() && s.subrange(s.len() - tail.len(), s.len() as int) == tail
}

/// Whether a byte string holds another at a position.
pub open spec fn holds_at(s: Seq<u8>, part: Seq<u8>, i: int) -> bool {
    0 <= i && i + part.len() <= s.len() && s.subrange(i, i + part.len()) == part
}

/// Whether a byte string holds another anywhere.
pub open spec fn holds(s: Seq<u8>, part: Seq<u8>) -> bool {
    exists|i: int| #[trigger] holds_at(s, part, i)
}

/// Whether a byte string holds another at a position.
pub fn is_at(s: &[u8], part: &[u8], i: usize) -> (r: bool)
    ensures
        r == holds_at(s@, part@, i as int),
{
    if part.len() > s.len() || i > s.len() - part.len() {
        return false;
    }
    let n: usize = s.len();
    let mut j: usize = 0;
    while j < part.len()
        invariant
            n == s@.len(),
            i + part@.len() <= n,
            j <= part@.len(),
            forall|k: int| 0 <= k < j ==> s@[i + k] == part@[k],
        decreases part@.len() - j,
    {
        if s[i + j] != part[j] {
            assert(s@.subrange(i as int, i + part@.len())[j as int] != part@[j as int]);
            return false;
        }
        j += 1;
    }
    assert(s@.subrange(i as int, i + part@.len()) =~= part@);
    true
}

/// Whether a byte string holds another anywhere.
pub fn contains_bytes(s: &[u8], part: &[u8]) -> (r: bool)
    ensures
        r == holds(s@, part@),
{
    if part.len() > s.len() {
        assert forall|i: int| !#[trigger] holds_at(s@, part@, i) by {}
        return false;
    }
    let last: usize = s.len() - part.len();
    let mut i: usize = 0;
    while i <= last
        invariant
            last == s@.len() - part@.len(),
            i <= last + 1,
            forall|k: int| 0 <= k < i ==> !#[trigger] holds_at(s@, part@, k),
        decreases last + 1 - i,
    {
        if is_at(s, part, i) {
            return true;
        }
        if i == last {
            assert forall|k: int| !#[trigger] holds_at(s@, part@, k) by {
                if 0 <= k < i {
                } else if k == i {
                }
            }
            return false;
        }
        i += 1;
    }
    false
}

/// Whether a byte string begins with another.
pub fn starts_with_bytes(s: &[u8], head: &[u8]) -> (r: bool)
    ensures
        r == begins_with(s@, head@),
{
    is_at(s, head, 0)
}

/// Whether a byte string ends with another.
pub fn ends_with_bytes(s: &[u8], tail: &[u8]) -> (r: bool)
    ensures
        r == ends_with(s@, tail@),
{
    if tail.len() > s.len() {
        return false;
    }
    is_at(s, tail, s.len() - tail.len())
}

/// Texts joined by a separator.
pub open spec fn joined(parts: Seq<Seq<char>>, separator: Seq<char>) -> Seq<char>
    decreases parts.len(),
{
    if parts.len() == 0 {
        Seq::empty()
    } else if parts.len() == 1 {
        parts[0]
    } else {
        joined(parts.drop_last(), separator) + separator + parts.last()
    }
}

/// Joins texts by a separator.
pub fn join_texts(parts: &Vec<String>, separator: &str) -> (r: String)
    ensures
        r@ == joined(texts(parts@), separator@),
{
    let mut out = String::new();
    let mut i: usize = 0;
    let ghost all = texts(parts@);
    assert(all.subrange(0, 0) =~= Seq::<Seq<char>>::empty());
    while i < parts.len()
        invariant
            i <= parts@.len(),
            all == texts(parts@),
            out@ == joined(all.subrange(0, i as int), separator@),
        decreases parts@.len() - i,
    {
        if i > 0 {
            out.append(separator);
        }
        out.append(parts[i].as_str());
        proof {
            let step = all.subrange(0, i + 1);
            assert(step.drop_last() =~= all.subrange(0, i as int));
            assert(step.last() == parts@[i as int]@);
            assert(out@ =~= joined(step, separator@));
        }
        i += 1;
    }
    assert(all.subrange(0, i as int) =~= all);
    out
}

/// The pieces of a byte string between separators.
pub open spec fn pieces(s: Seq<u8>, separator: u8) -> Seq<Seq<u8>>
    decreases s.len(),
{
    if s.len() == 0 {
        seq![Seq::<u8>::empty()]
    } else if s.last() == separator {
        pieces(s.drop_last(), separator).push(Seq::empty())
    } else {
        let before = pieces(s.drop_last(), separator);
        before.drop_last().push(before.last().push(s.last()))
    }
}

/// Byte strings as sequences.
pub open spec fn byte_views(items: Seq<Vec<u8>>) -> Seq<Seq<u8>> {
    Seq::new(items.len(), |i: int| items[i]@)
}

/// Splits a byte string at every separator.
pub fn split_bytes(s: &[u8], separator: u8) -> (r: Vec<Vec<u8>>)
    ensures
        byte_views(r@) == pieces(s@, separator),
        r@.len() >= 1,
{
    let mut out: Vec<Vec<u8>> = Vec::new();
    let mut piece: Vec<u8> = Vec::new();
    let mut i: usize = 0;
    assert(s@.subrange(0, 0) =~= Seq::<u8>::empty());
    assert(byte_views(out@).push(piece@) =~= seq![Seq::<u8>::empty()]);
    while i < s.len()
        invariant
            i <= s@.len(),
            byte_views(out@).push(piece@) == pieces(s@.subrange(0, i as int), separator),
        decreases s@.len() - i,
    {
        let ghost step = s@.subrange(0, i + 1);
        let ghost before = byte_views(out@).push(piece@);
        proof {
            assert(step.drop_last() =~= s@.subrange(0, i as int));
            assert(step.last() == s@[i as int]);
            assert(before.drop_last() =~= byte_views(out@));
            assert(before.last() == piece@);
        }
        if s[i] == separator {
            let ghost done = piece@;
            let ghost old_out = out@;
            out.push(piece);
            piece = Vec::new();
            proof {
                assert(byte_views(out@) =~= byte_views(old_out).push(done));
                assert(byte_views(out@).push(piece@) =~= pieces(step, separator));
            }
        } else {
            let ghost was = piece@;
            piece.push(s[i]);
            proof {
                assert(piece@ =~= was.push(s@[i as int]));
                assert(byte_views(out@).push(piece@) =~= pieces(step, separator));
            }
        }
        i += 1;
    }
    assert(s@.subrange(0, i as int) =~= s@);
    let ghost last = piece@;
    let ghost old_out = out@;
    out.push(piece);
    assert(byte_views(out@) =~= byte_views(old_out).push(last));
    out
}

/// The fields of a text between separators.
pub open spec fn fields(s: Seq<char>, separator: char) -> Seq<Seq<char>>
    decreases s.len(),
{
    if s.len() == 0 {
        seq![Seq::<char>::empty()]
    } else if s.last() == separator {
        fields(s.drop_last(), separator).push(Seq::empty())
    } else {
        let before = fields(s.drop_last(), separator);
        before.drop_last().push(before.last().push(s.last()))
    }
}

/// Splits a text at every separator.
pub fn split_fields(s: &str, separator: char) -> (r: Vec<String>)
    ensures
        texts(r@) == fields(s@, separator),
{
    let mut out: Vec<String> = Vec::new();
    let mut field = String::new();
    assert(s@.subrange(0, 0) =~= Seq::<char>::empty());
    assert(texts(out@).push(field@) =~= seq![Seq::<char>::empty()]);
    for c in it: s.chars()
        invariant
            it.seq() == s@,
            texts(out@).push(field@) == fields(s@.subrange(0, it.index() as int), separator),
    {
        let ghost i = it.index() as int;
        let ghost step = s@.subrange(0, i + 1);
        let ghost before = texts(out@).push(field@);
        proof {
            assert(c == s@[i]);
            assert(step.drop_last() =~= s@.subrange(0, i));
            assert(step.last() == s@[i]);
            assert(before.drop_last() =~= texts(out@));
            assert(before.last() == field@);
        }
        if c == separator {
            let ghost done = field@;
            let ghost old_out = out@;
            out.push(field);
            field = String::new();
            proof {
                assert(texts(out@) =~= texts(old_out).push(done));
                assert(texts(out@).push(field@) =~= fields(step, separator));
            }
        } else {
            field.push(c);
            assert(texts(out@).push(field@) =~= fields(step, separator));
        }
    }
    assert(s@.subrange(0, s@.len() as int) =~= s@);
    let ghost last = field@;
    let ghost old_out = out@;
    out.push(field);
    assert(texts(out@) =~= texts(old_out).push(last));
    out
}

/// A text has at least one field, and exactly one where it has no separator.
pub proof fn lemma_single_field(s: Seq<char>, separator: char)
    ensures
        fields(s, separator).len() >= 1,
        !s.contains(separator) ==> fields(s, separator) == seq![s],
    decreases s.len(),
{
    if s.len() > 0 {
        lemma_single_field(s.drop_last(), separator);
        if !s.contains(separator) {
            assert(s[s.len() - 1] == s.last());
            assert forall|i: int| 0 <= i < s.len() - 1 implies s.drop_last()[i] != separator by {
                assert(s[i] == s.drop_last()[i]);
            }
            assert(!s.drop_last().contains(separator));
            assert(fields(s, separator) =~= seq![s]) by {
                assert(s.drop_last().push(s.last()) =~= s);
            }
        }
    } else {
        assert(s =~= Seq::<char>::empty());
    }
}

/// The fields of two texts with a separator between them are those of each.
pub proof fn lemma_fields_concat(a: Seq<char>, separator: char, b: Seq<char>)
    ensures
        fields(a.push(separator) + b, separator) == fields(a, separator) + fields(b, separator),
    decreases b.len(),
{
    let s = a.push(separator) + b;
    lemma_single_field(a, separator);
    lemma_single_field(b, separator);
    if b.len() == 0 {
        assert(s =~= a.push(separator));
        assert(s.drop_last() =~= a);
        assert(fields(s, separator) =~= fields(a, separator) + fields(b, separator));
    } else {
        lemma_fields_concat(a, separator, b.drop_last());
        assert(s.drop_last() =~= a.push(separator) + b.drop_last());
        assert(s.last() == b.last());
        lemma_single_field(b.drop_last(), separator);
        let left = fields(a, separator);
        let right = fields(b.drop_last(), separator);
        assert((left + right).last() == right.last());
        assert((left + right).drop_last() =~= left + right.drop_last());
        assert(fields(s, separator) =~= left + fields(b, separator));
    }
}

/// The position of the first separator.
pub open spec fn first_at(s: Seq<char>, separator: char) -> Option<int>
    decreases s.len(),
{
    if s.len() == 0 {
        None
    } else {
        match first_at(s.drop_last(), separator) {
            Some(i) => Some(i),
            None => if s.last() == separator {
                Some(s.len() - 1)
            } else {
                None
            },
        }
    }
}

/// Where the first separator stands, nothing before it is one.
pub proof fn lemma_first_at(s: Seq<char>, separator: char)
    ensures
        match first_at(s, separator) {
            Some(i) => 0 <= i < s.len() && s[i] == separator && forall|j: int| 0 <= j < i ==> s[j] != separator,
            None => forall|j: int| 0 <= j < s.len() ==> s[j] != separator,
        },
    decreases s.len(),
{
    if s.len() > 0 {
        lemma_first_at(s.drop_last(), separator);
        assert forall|j: int| 0 <= j < s.len() - 1 implies s[j] == s.drop_last()[j] by {}
    }
}

/// Splits a text at its first separator.
pub fn split_first(s: &str, separator: char) -> (r: Option<(String, String)>)
    ensures
        match r {
            Some(parts) => first_at(s@, separator) matches Some(i) && parts.0@ == s@.subrange(0, i) && parts.1@
                == s@.subrange(i + 1, s@.len() as int),
            None => first_at(s@, separator) is None,
        },
{
    let mut before = String::new();
    let mut after = String::new();
    let mut found = false;
    assert(s@.subrange(0, 0) =~= Seq::<char>::empty());
    for c in it: s.chars()
        invariant
            it.seq() == s@,
            it.index() <= s@.len(),
            ({
                let head = s@.subrange(0, it.index() as int);
                match first_at(head, separator) {
                    Some(i) => found && 0 <= i < head.len() && before@ == head.subrange(0, i) && after@
                        == head.subrange(i + 1, head.len() as int),
                    None => !found && before@ == head && after@.len() == 0,
                }
            }),
    {
        let ghost i = it.index() as int;
        let ghost head = s@.subrange(0, i);
        let ghost step = s@.subrange(0, i + 1);
        proof {
            assert(c == s@[i]);
            assert(step.drop_last() =~= head);
            assert(step.last() == s@[i]);
        }
        if found {
            let ghost was = after@;
            after.push(c);
            proof {
                let k = first_at(head, separator)->0;
                assert(before@ =~= step.subrange(0, k));
                assert(after@ =~= step.subrange(k + 1, step.len() as int));
            }
        } else if c == separator {
            found = true;
            proof {
                assert(before@ =~= step.subrange(0, i));
                assert(after@ =~= step.subrange(i + 1, step.len() as int));
            }
        } else {
            before.push(c);
            assert(before@ =~= step);
        }
    }
    assert(s@.subrange(0, s@.len() as int) =~= s@);
    if found {
        Some((before, after))
    } else {
        None
    }
}

/// The decimal digits of a number are digits, have no leading zero unless the number is zero, and
/// are read back as the number.
pub proof fn law_numbers_are_read_as_written(n: nat)
    ensures
        decimal_bytes(n).len() >= 1,
        all_digits(decimal_bytes(n)),
        digits_value(decimal_bytes(n)) == n,
        n > 0 ==> decimal_bytes(n)[0] != 48,
        unsigned_value(decimal_bytes(n), n) == Some(n),
        n > 0 ==> unsigned_value(decimal_bytes(n), (n - 1) as nat) is None,
    decreases n,
{
    reveal_with_fuel(digits_value, 2);
    let d = decimal_bytes(n);
    if n < 10 {
        assert(d.drop_last() =~= Seq::empty());
    } else {
        law_numbers_are_read_as_written(n / 10);
        assert(d.drop_last() =~= decimal_bytes(n / 10));
        assert(d.last() == 48 + n % 10);
        assert(d[0] == decimal_bytes(n / 10)[0]);
    }
    assert(is_digit_byte(d[0]));
}

/// The decimal text of every integer of 64 bits is read back as that integer.
pub proof fn law_signed_numbers_are_read_as_written(n: i64)
    ensures
        signed_value(signed_decimal_bytes(n as int)) == Some(n as int),
        n < 0 <==> signed_decimal_bytes(n as int)[0] == 45,
{
    if n < 0 {
        let m = (-(n as int)) as nat;
        law_numbers_are_read_as_written(m);
        assert(signed_decimal_bytes(n as int).drop_first() =~= decimal_bytes(m));
    } else {
        law_numbers_are_read_as_written(n as nat);
        assert(is_digit_byte(decimal_bytes(n as nat)[0]));
    }
}

/// Hexadecimal text has two digits to a byte, the upper half first.
pub proof fn law_hexadecimal_digits_are_halves(b: Seq<u8>, i: int)
    requires
        0 <= i < b.len(),
    ensures
        hex(b).len() == 2 * b.len(),
        hex(b)[2 * i] as int == (if b[i] < 160 {
            '0' as int + b[i] / 16
        } else {
            'a' as int + b[i] / 16 - 10
        }),
        hex(b)[2 * i + 1] as int == (if b[i] % 16 < 10 {
            '0' as int + b[i] % 16
        } else {
            'a' as int + b[i] % 16 - 10
        }),
{
    let k = 2 * i;
    assert(k / 2 == i && k % 2 == 0 && (k + 1) / 2 == i && (k + 1) % 2 == 1);
    assert(hex_bytes(b)[k] == hex_digit((b[i] / 16) as int));
    assert(hex_bytes(b)[k + 1] == hex_digit((b[i] % 16) as int));
}

/// A byte string without the separator is one piece, and what a separator stands between is split
/// there: the pieces are those of what is before it and of what is after it.
pub proof fn law_pieces_stand_between_separators(a: Seq<u8>, separator: u8, b: Seq<u8>)
    ensures
        pieces(a, separator).len() >= 1,
        !a.contains(separator) ==> pieces(a, separator) == seq![a],
        pieces(a.push(separator) + b, separator) == pieces(a, separator) + pieces(b, separator),
    decreases a.len() + b.len(),
{
    if a.len() > 0 {
        law_pieces_stand_between_separators(a.drop_last(), separator, Seq::empty());
        if !a.contains(separator) {
            assert(a[a.len() - 1] == a.last());
            assert forall|i: int| 0 <= i < a.len() - 1 implies a.drop_last()[i] != separator by {
                assert(a[i] == a.drop_last()[i]);
            }
            assert(!a.drop_last().contains(separator));
            assert(pieces(a, separator) =~= seq![a]) by {
                assert(a.drop_last().push(a.last()) =~= a);
            }
        }
    } else {
        assert(a =~= Seq::<u8>::empty());
    }
    let s = a.push(separator) + b;
    if b.len() == 0 {
        assert(s =~= a.push(separator));
        assert(s.drop_last() =~= a);
        assert(pieces(s, separator) =~= pieces(a, separator) + pieces(b, separator));
    } else {
        law_pieces_stand_between_separators(a, separator, b.drop_last());
        law_pieces_stand_between_separators(b.drop_last(), separator, Seq::empty());
        assert(s.drop_last() =~= a.push(separator) + b.drop_last());
        assert(s.last() == b.last());
        let left = pieces(a, separator);
        let right = pieces(b.drop_last(), separator);
        assert((left + right).last() == right.last());
        assert((left + right).drop_last() =~= left + right.drop_last());
        assert(pieces(s, separator) =~= left + pieces(b, separator));
    }
}

/// Texts that are joined have one separator between each two: joining one more text adds a
/// separator and that text.
pub proof fn law_joined_texts_have_separators_between(parts: Seq<Seq<char>>, separator: Seq<char>, next: Seq<char>)
    ensures
        joined(Seq::empty(), separator) == Seq::<char>::empty(),
        joined(seq![next], separator) == next,
        parts.len() > 0 ==> joined(parts.push(next), separator) == joined(parts, separator) + separator + next,
{
    assert(parts.push(next).drop_last() =~= parts);
}

/// Replacing goes from left to right: where the text begins with what is looked for, the
/// replacement stands in its place, and otherwise its first character stays. Where there is
/// nothing to replace, nothing changes.
pub proof fn law_replacements_stand_in_place(s: Seq<char>, from: Seq<char>, to: Seq<char>, rest: Seq<char>)
    requires
        from.len() > 0,
    ensures
        replaced(from + rest, from, to) == to + replaced(rest, from, to),
        s.len() < from.len() ==> replaced(s, from, to) == s,
        (forall|i: int| 0 <= i <= s.len() - from.len() ==> #[trigger] s.subrange(i, i + from.len()) != from) ==> replaced(
            s,
            from,
            to,
        ) == s,
    decreases s.len(),
{
    assert((from + rest).subrange(0, from.len() as int) =~= from);
    assert((from + rest).skip(from.len() as int) =~= rest);
    if s.len() >= from.len() && (forall|i: int|
        0 <= i <= s.len() - from.len() ==> #[trigger] s.subrange(i, i + from.len()) != from) {
        assert(s.subrange(0, 0int + from.len()) != from);
        assert forall|i: int| 0 <= i <= s.skip(1).len() - from.len() implies #[trigger] s.skip(1).subrange(
            i,
            i + from.len(),
        ) != from by {
            assert(s.skip(1).subrange(i, i + from.len()) =~= s.subrange(i + 1, i + 1 + from.len()));
        }
        law_replacements_stand_in_place(s.skip(1), from, to, rest);
        assert(seq![s[0]] + s.skip(1) =~= s);
    }
}

/// A text that is led by one field without the separator has that field first, and then the fields
/// of the rest.
pub proof fn law_leading_fields_come_first(first: Seq<char>, separator: char, rest: Seq<char>)
    requires
        !first.contains(separator),
    ensures
        fields(first.push(separator) + rest, separator) == seq![first] + fields(rest, separator),
        !rest.contains(separator) ==> fields(rest, separator) == seq![rest],
{
    lemma_fields_concat(first, separator, rest);
    lemma_single_field(first, separator);
    lemma_single_field(rest, separator);
}

/// The first separator is the one with nothing but other characters before it.
pub proof fn law_texts_are_split_at_the_first_separator(before: Seq<char>, separator: char, after: Seq<char>)
    requires
        !before.contains(separator),
    ensures
        first_at(before.push(separator) + after, separator) == Some(before.len() as int),
        first_at(before, separator) is None,
{
    let s = before.push(separator) + after;
    lemma_first_at(s, separator);
    lemma_first_at(before, separator);
    let n = before.len() as int;
    assert(s[n] == separator);
    if first_at(before, separator) is Some {
        assert(before.contains(before[first_at(before, separator)->0]));
    }
    if first_at(s, separator) is Some && first_at(s, separator)->0 < n {
        assert(s[first_at(s, separator)->0] == before[first_at(s, separator)->0]);
        assert(before.contains(before[first_at(s, separator)->0]));
    }
}

} // verus!
