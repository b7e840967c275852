//! Base64 with the standard alphabet and padding.

use ::base64::engine::general_purpose::STANDARD;
use ::base64::Engine;
use vstd::prelude::*;

verus! {

/// The outcome of decoding: bytes, or a reason.
pub type Decoded = Result<Seq<u8>, Seq<char>>;

/// A digit of base64: the capital letters, the small letters, the decimal digits,
/// `+` and `/`, in this order.
pub open spec fn base64_digit(n: int) -> char {
    if n < 26 {
        ((65 + n) as u32) as char
    } else if n < 52 {
        ((71 + n) as u32) as char
    } else if n < 62 {
        ((n - 4) as u32) as char
    } else if n == 62 {
        '+'
    } else {
        '/'
    }
}

/// The base64 text of bytes. Three bytes at a time are one number of four digits
/// to the base 64. One or two bytes at the end are filled up with zeros, and `=`
/// stands for each digit that holds nothing else.
pub open spec fn base64_text(bytes: Seq<u8>) -> Seq<char>
    decreases bytes.len(),
{
    if bytes.len() == 0 {
        Seq::empty()
    } else if bytes.len() == 1 {
        let n = bytes[0] * 16;
        seq![base64_digit(n / 64), base64_digit(n % 64), '=', '=']
    } else if bytes.len() == 2 {
        let n = (bytes[0] * 256 + bytes[1]) * 4;
        seq![base64_digit(n / 4096), base64_digit(n / 64 % 64), base64_digit(n % 64), '=']
    } else {
        let n = bytes[0] * 65536 + bytes[1] * 256 + bytes[2];
        seq![
            base64_digit(n / 262144),
            base64_digit(n / 4096 % 64),
            base64_digit(n / 64 % 64),
            base64_digit(n % 64),
        ] + base64_text(bytes.skip(3))
    }
}

/// What a base64 text decodes to, or what is wrong with it.
pub uninterp spec fn base64_bytes(text: Seq<char>) -> Decoded;

/// Whether a character can stand in a base64 text.
pub open spec fn is_base64_char(c: char) -> bool {
    ||| 'A' <= c <= 'Z'
    ||| 'a' <= c <= 'z'
    ||| '0' <= c <= '9'
    ||| c == '+'
    ||| c == '/'
    ||| c == '='
}

/// A base64 text holds no characters but those of the alphabet and the padding.
pub proof fn lemma_base64_alphabet(bytes: Seq<u8>)
    ensures
        forall|i: int|
            0 <= i < base64_text(bytes).len() ==> is_base64_char(#[trigger] base64_text(bytes)[i]),
    decreases bytes.len(),
{
    assert forall|n: int| 0 <= n < 64 implies is_base64_char(#[trigger] base64_digit(n)) by {}
    if bytes.len() > 2 {
        let rest = base64_text(bytes.skip(3));
        lemma_base64_alphabet(bytes.skip(3));
        assert forall|i: int| 0 <= i < base64_text(bytes).len() implies is_base64_char(
            #[trigger] base64_text(bytes)[i],
        ) by {
            if i >= 4 {
                assert(base64_text(bytes)[i] == rest[i - 4]);
            }
        }
    }
}

proof fn lemma_digit(n: int)
    requires
        0 <= n < 64,
    ensures
        base64_digit(n) != '=',
{
}

proof fn lemma_digits_differ(m: int, n: int)
    requires
        0 <= m < 64,
        0 <= n < 64,
        base64_digit(m) == base64_digit(n),
    ensures
        m == n,
{
}

/// Three bytes as a number.
spec fn number(bytes: Seq<u8>) -> int {
    bytes[0] * 65536 + bytes[1] * 256 + bytes[2]
}

proof fn lemma_numbers_differ(m: int, n: int)
    requires
        0 <= m < 16777216,
        0 <= n < 16777216,
        base64_digit(m / 262144) == base64_digit(n / 262144),
        base64_digit(m / 4096 % 64) == base64_digit(n / 4096 % 64),
        base64_digit(m / 64 % 64) == base64_digit(n / 64 % 64),
        base64_digit(m % 64) == base64_digit(n % 64),
    ensures
        m == n,
{
    lemma_digits_differ(m / 262144, n / 262144);
    lemma_digits_differ(m / 4096 % 64, n / 4096 % 64);
    lemma_digits_differ(m / 64 % 64, n / 64 % 64);
    lemma_digits_differ(m % 64, n % 64);
}

/// The number of bytes in a text's last group of four, told by the padding.
proof fn lemma_padding(bytes: Seq<u8>)
    requires
        bytes.len() > 0,
    ensures
        base64_text(bytes).len() >= 4,
        bytes.len() == 1 <==> base64_text(bytes)[2] == '=',
        bytes.len() <= 2 <==> base64_text(bytes)[3] == '=',
{
    if bytes.len() == 2 {
        lemma_digit((bytes[0] * 256 + bytes[1]) * 4 % 64);
    } else if bytes.len() > 2 {
        lemma_digit(number(bytes) / 64 % 64);
        lemma_digit(number(bytes) % 64);
    }
}

proof fn lemma_one_byte(a: u8, b: u8)
    requires
        base64_digit(a * 16 / 64) == base64_digit(b * 16 / 64),
        base64_digit(a * 16 % 64) == base64_digit(b * 16 % 64),
    ensures
        a == b,
{
    lemma_digits_differ(a * 16 / 64, b * 16 / 64);
    lemma_digits_differ(a * 16 % 64, b * 16 % 64);
}

proof fn lemma_two_bytes(m: int, n: int)
    requires
        0 <= m < 262144,
        0 <= n < 262144,
        base64_digit(m / 4096) == base64_digit(n / 4096),
        base64_digit(m / 64 % 64) == base64_digit(n / 64 % 64),
        base64_digit(m % 64) == base64_digit(n % 64),
    ensures
        m == n,
{
    lemma_digits_differ(m / 4096, n / 4096);
    lemma_digits_differ(m / 64 % 64, n / 64 % 64);
    lemma_digits_differ(m % 64, n % 64);
}

proof fn lemma_first_group(bytes: Seq<u8>)
    requires
        bytes.len() > 2,
    ensures
        0 <= number(bytes) < 16777216,
        base64_text(bytes).take(4) == seq![
            base64_digit(number(bytes) / 262144),
            base64_digit(number(bytes) / 4096 % 64),
            base64_digit(number(bytes) / 64 % 64),
            base64_digit(number(bytes) % 64),
        ],
        base64_text(bytes).skip(4) == base64_text(bytes.skip(3)),
{
    let head = seq![
        base64_digit(number(bytes) / 262144),
        base64_digit(number(bytes) / 4096 % 64),
        base64_digit(number(bytes) / 64 % 64),
        base64_digit(number(bytes) % 64),
    ];
    assert(base64_text(bytes) == head + base64_text(bytes.skip(3)));
    assert((head + base64_text(bytes.skip(3))).take(4) =~= head);
    assert((head + base64_text(bytes.skip(3))).skip(4) =~= base64_text(bytes.skip(3)));
}

proof fn lemma_same_group(a: Seq<u8>, b: Seq<u8>)
    requires
        a.len() > 2,
        b.len() > 2,
        base64_text(a) == base64_text(b),
    ensures
        a[0] == b[0],
        a[1] == b[1],
        a[2] == b[2],
        base64_text(a.skip(3)) == base64_text(b.skip(3)),
{
    lemma_first_group(a);
    lemma_first_group(b);
    let s = base64_text(a).take(4);
    let t = base64_text(b).take(4);
    assert(s[0] == t[0] && s[1] == t[1] && s[2] == t[2] && s[3] == t[3]);
    lemma_numbers_differ(number(a), number(b));
}

/// Different bytes have different base64 texts.
pub proof fn law_base64_texts_differ(a: Seq<u8>, b: Seq<u8>)
    requires
        base64_text(a) == base64_text(b),
    ensures
        a == b,
    decreases a.len(),
{
    let s = base64_text(a);
    let t = base64_text(b);
    if a.len() > 0 {
        lemma_padding(a);
    }
    if b.len() > 0 {
        lemma_padding(b);
    }
    assert(a.len() == 0 <==> s.len() == 0);
    assert(b.len() == 0 <==> t.len() == 0);
    if a.len() == 1 {
        assert(s[0] == t[0] && s[1] == t[1]);
        lemma_one_byte(a[0], b[0]);
        assert(a =~= b);
    } else if a.len() == 2 {
        assert(s[0] == t[0] && s[1] == t[1] && s[2] == t[2]);
        lemma_two_bytes((a[0] * 256 + a[1]) * 4, (b[0] * 256 + b[1]) * 4);
        assert(a[0] == b[0] && a[1] == b[1]);
        assert(a =~= b);
    } else if a.len() > 2 {
        lemma_same_group(a, b);
        law_base64_texts_differ(a.skip(3), b.skip(3));
        assert(a =~= seq![a[0], a[1], a[2]] + a.skip(3));
        assert(b =~= seq![b[0], b[1], b[2]] + b.skip(3));
    }
}

/// `base64::Engine::encode` of the `STANDARD` engine. It is trusted to write the
/// bytes in the standard alphabet with padding, and that decoding the text gives
/// the bytes back.
#[verifier::external_body]
pub(crate) fn encode(bytes: &Vec<u8>) -> (r: String)
    ensures
        r@ == base64_text(bytes@),
        base64_bytes(r@) == Decoded::Ok(bytes@),
{
    STANDARD.encode(bytes)
}

/// `base64::Engine::decode` of the `STANDARD` engine, with its error as text. It
/// is trusted that the result depends on the text alone.
#[verifier::external_body]
pub(crate) fn decode(text: &str) -> (r: Result<Vec<u8>, String>)
    ensures
        match r {
            Ok(bytes) => base64_bytes(text@) == Decoded::Ok(bytes@),
            Err(e) => base64_bytes(text@) == Decoded::Err(e@),
        },
{
    match STANDARD.decode(text) {
        Ok(bytes) => Ok(bytes),
        Err(e) => Err(e.to_string()),
    }
}

} // verus!
