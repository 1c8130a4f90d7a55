//! Base64 transcoding, in the standard padded form and in the unpadded
//! URL-safe form.

use crate::cli::base64::Base64Format;
use base64::engine::general_purpose::{STANDARD, URL_SAFE_NO_PAD};
use base64::Engine;
use vstd::prelude::*;

verus! {

/// Why a text could not be decoded.
#[derive(Debug, Clone, Copy, PartialEq, Eq, Structural)]
pub enum Base64Error {
    /// The text is not the base64 text of any byte sequence.
    NotBase64,
}

impl Base64Error {
    /// What went wrong, in words.
    pub fn message(&self) -> (text: &'static str)
        ensures
            text@ == "the text is not valid base64"@,
    {
        "the text is not valid base64"
    }
}

/// `base64::DecodeError`, which the decoders hand back and nothing here
/// looks into.
#[verifier::external_type_specification]
#[verifier::external_body]
pub struct ExDecodeError(base64::DecodeError);

/// The byte at position `i`, or zero past the end.
pub open spec fn byte_or_zero(data: Seq<u8>, i: int) -> int {
    if 0 <= i < data.len() {
        data[i] as int
    } else {
        0
    }
}

/// The `k`-th group of six bits of `data`, read most significant bit first
/// and filled up with zero bits past the end.
pub open spec fn sextet(data: Seq<u8>, k: int) -> int {
    let b0 = byte_or_zero(data, 3 * (k / 4));
    let b1 = byte_or_zero(data, 3 * (k / 4) + 1);
    let b2 = byte_or_zero(data, 3 * (k / 4) + 2);
    if k % 4 == 0 {
        b0 / 4
    } else if k % 4 == 1 {
        (b0 % 4) * 16 + b1 / 16
    } else if k % 4 == 2 {
        (b1 % 16) * 4 + b2 / 64
    } else {
        b2 % 64
    }
}

/// The character that stands for the six-bit value `v`.
pub open spec fn symbol(v: int, format: Base64Format) -> char {
    if v < 26 {
        (('A' as u8) + v) as u8 as char
    } else if v < 52 {
        (('a' as u8) + (v - 26)) as u8 as char
    } else if v < 62 {
        (('0' as u8) + (v - 52)) as u8 as char
    } else if v == 62 {
        if format == Base64Format::UrlSafe { '-' } else { '+' }
    } else {
        if format == Base64Format::UrlSafe { '_' } else { '/' }
    }
}

/// How many symbols carry `n` bytes.
pub open spec fn symbol_count(n: nat) -> nat {
    ((4 * n + 2) / 3) as nat
}

/// How many characters the text of `n` bytes has.
pub open spec fn text_len(n: nat, format: Base64Format) -> nat {
    if format == Base64Format::Standard {
        (4 * ((n + 2) / 3)) as nat
    } else {
        symbol_count(n)
    }
}

/// The base64 text of `data`: one symbol for each group of six bits, then,
/// in the standard form, `=` up to a multiple of four characters.
pub open spec fn base64_text(data: Seq<u8>, format: Base64Format) -> Seq<char> {
    Seq::new(
        text_len(data.len(), format),
        |k: int| if k < symbol_count(data.len()) { symbol(sextet(data, k), format) } else { '=' },
    )
}

/// Whether `c` belongs to the alphabet of `format`.
pub open spec fn in_alphabet(c: char, format: Base64Format) -> bool {
    ||| 'A' <= c <= 'Z'
    ||| 'a' <= c <= 'z'
    ||| '0' <= c <= '9'
    ||| (format == Base64Format::UrlSafe && (c == '-' || c == '_'))
    ||| (format == Base64Format::Standard && (c == '+' || c == '/'))
}

/// Whether `text` is the base64 text of some bytes.
pub open spec fn is_base64_text(text: Seq<char>, format: Base64Format) -> bool {
    exists|data: Seq<u8>| #[trigger] base64_text(data, format) == text
}

/// The bytes that `text` stands for, where it stands for any.
pub open spec fn base64_data(text: Seq<char>, format: Base64Format) -> Seq<u8> {
    choose|data: Seq<u8>| #[trigger] base64_text(data, format) == text
}

/// Whether `c` is white space: a character with the Unicode property
/// `White_Space`.
pub open spec fn is_white_space(c: char) -> bool {
    let u = c as u32;
    ||| 0x09 <= u <= 0x0D
    ||| u == 0x20
    ||| u == 0x85
    ||| u == 0xA0
    ||| u == 0x1680
    ||| 0x2000 <= u <= 0x200A
    ||| u == 0x2028
    ||| u == 0x2029
    ||| u == 0x202F
    ||| u == 0x205F
    ||| u == 0x3000
}

/// `text` without the white space at its end.
pub open spec fn without_trailing_space(text: Seq<char>) -> Seq<char>
    decreases text.len(),
{
    if text.len() > 0 && is_white_space(text.last()) {
        without_trailing_space(text.drop_last())
    } else {
        text
    }
}

/// Every group of six bits is a value below 64.
pub proof fn lemma_sextet_range(data: Seq<u8>, k: int)
    ensures
        0 <= sextet(data, k) < 64,
{
}

/// Distinct six-bit values have distinct symbols, all of them in the
/// alphabet, and none of them is the padding character.
pub proof fn lemma_symbol_distinct(v: int, w: int, format: Base64Format)
    requires
        0 <= v < 64,
        0 <= w < 64,
    ensures
        in_alphabet(symbol(v, format), format),
        symbol(v, format) != '=',
        symbol(v, format) == symbol(w, format) ==> v == w,
{
}

/// Each byte can be read back from the two groups of six bits that it spans.
pub proof fn lemma_byte_from_sextets(data: Seq<u8>, i: int)
    requires
        0 <= i < data.len(),
    ensures
        i % 3 == 0 ==> data[i] == sextet(data, 4 * (i / 3)) * 4 + sextet(data, 4 * (i / 3) + 1) / 16,
        i % 3 == 1 ==> data[i] == (sextet(data, 4 * (i / 3) + 1) % 16) * 16 + sextet(
            data,
            4 * (i / 3) + 2,
        ) / 4,
        i % 3 == 2 ==> data[i] == (sextet(data, 4 * (i / 3) + 2) % 4) * 64 + sextet(
            data,
            4 * (i / 3) + 3,
        ),
        (4 * i) / 3 + 1 < symbol_count(data.len()),
        i % 3 == 0 ==> (4 * i) / 3 == 4 * (i / 3),
        i % 3 == 1 ==> (4 * i) / 3 == 4 * (i / 3) + 1,
        i % 3 == 2 ==> (4 * i) / 3 == 4 * (i / 3) + 2,
{
}

/// The position of the first padding character tells how many symbols a
/// text has: texts that agree have the same number of symbols.
proof fn lemma_same_symbol_count(a: Seq<u8>, b: Seq<u8>, format: Base64Format)
    requires
        base64_text(a, format) == base64_text(b, format),
    ensures
        symbol_count(a.len()) == symbol_count(b.len()),
{
    let ta = base64_text(a, format);
    let tb = base64_text(b, format);
    let ca = symbol_count(a.len()) as int;
    let cb = symbol_count(b.len()) as int;
    assert(ta.len() == tb.len());
    if format == Base64Format::Standard {
        if ca < cb {
            lemma_sextet_range(b, ca);
            lemma_symbol_distinct(sextet(b, ca), 0, format);
            assert(tb[ca] == symbol(sextet(b, ca), format));
        } else if cb < ca {
            lemma_sextet_range(a, cb);
            lemma_symbol_distinct(sextet(a, cb), 0, format);
            assert(ta[cb] == symbol(sextet(a, cb), format));
        }
    }
}

/// Texts that agree carry the same groups of six bits.
proof fn lemma_same_sextets(a: Seq<u8>, b: Seq<u8>, format: Base64Format, k: int)
    requires
        base64_text(a, format) == base64_text(b, format),
        0 <= k < symbol_count(a.len()),
    ensures
        sextet(a, k) == sextet(b, k),
{
    lemma_same_symbol_count(a, b, format);
    lemma_sextet_range(a, k);
    lemma_sextet_range(b, k);
    lemma_symbol_distinct(sextet(a, k), sextet(b, k), format);
    assert(base64_text(b, format)[k] == symbol(sextet(b, k), format));
}

/// No two byte sequences share a text.
pub proof fn lemma_text_injective(a: Seq<u8>, b: Seq<u8>, format: Base64Format)
    requires
        base64_text(a, format) == base64_text(b, format),
    ensures
        a == b,
{
    lemma_same_symbol_count(a, b, format);
    assert forall|i: int| 0 <= i < a.len() implies a[i] == b[i] by {
        lemma_byte_from_sextets(a, i);
        lemma_byte_from_sextets(b, i);
        lemma_same_sextets(a, b, format, (4 * i) / 3);
        lemma_same_sextets(a, b, format, (4 * i) / 3 + 1);
    }
}

/// Decoding undoes encoding: the text of `data` stands for `data` and for
/// nothing else.
pub proof fn lemma_decode_encode(data: Seq<u8>, format: Base64Format)
    ensures
        is_base64_text(base64_text(data, format), format),
        base64_data(base64_text(data, format), format) == data,
{
    let text = base64_text(data, format);
    lemma_text_injective(base64_data(text, format), data, format);
}

/// A text with a character that is neither in the alphabet nor, in the
/// standard form, the padding character stands for no bytes.
pub proof fn lemma_foreign_character_rejected(text: Seq<char>, format: Base64Format, i: int)
    requires
        0 <= i < text.len(),
        !in_alphabet(text[i], format),
        format == Base64Format::UrlSafe || text[i] != '=',
    ensures
        !is_base64_text(text, format),
{
    if is_base64_text(text, format) {
        let data = base64_data(text, format);
        lemma_sextet_range(data, i);
        lemma_symbol_distinct(sextet(data, i), 0, format);
    }
}

/// A text of a length that no number of bytes gives stands for no bytes:
/// in the standard form the length is a multiple of four, and in the
/// unpadded form it is never one more than a multiple of four.
pub proof fn lemma_impossible_length_rejected(text: Seq<char>, format: Base64Format)
    requires
        if format == Base64Format::Standard {
            text.len() % 4 != 0
        } else {
            text.len() % 4 == 1
        },
    ensures
        !is_base64_text(text, format),
{
}

/// A text whose last symbol carries bits that belong to no byte stands for
/// no bytes. `count` is the number of symbols in the text, and `v` is the
/// value of the last of them: after two symbols of a group its low four
/// bits are spare, after three its low two bits.
pub proof fn lemma_stray_bits_rejected(text: Seq<char>, format: Base64Format, count: int, v: int)
    requires
        0 < count <= text.len(),
        0 <= v < 64,
        text[count - 1] == symbol(v, format),
        count == text.len() || text[count] == '=',
        (count % 4 == 2 && v % 16 != 0) || (count % 4 == 3 && v % 4 != 0),
    ensures
        !is_base64_text(text, format),
{
    if is_base64_text(text, format) {
        let data = base64_data(text, format);
        let symbols = symbol_count(data.len()) as int;
        if count < symbols {
            lemma_sextet_range(data, count);
            lemma_symbol_distinct(sextet(data, count), 0, format);
        } else if count > symbols {
            lemma_symbol_distinct(v, 0, format);
        } else {
            lemma_sextet_range(data, count - 1);
            lemma_symbol_distinct(sextet(data, count - 1), v, format);
        }
    }
}

/// The six-bit value that `c` stands for; 64 where it stands for none.
pub open spec fn symbol_value(c: char, format: Base64Format) -> int {
    if 'A' <= c <= 'Z' {
        (c as u8) - ('A' as u8)
    } else if 'a' <= c <= 'z' {
        (c as u8) - ('a' as u8) + 26
    } else if '0' <= c <= '9' {
        (c as u8) - ('0' as u8) + 52
    } else if c == symbol(62, format) {
        62
    } else if c == symbol(63, format) {
        63
    } else {
        64
    }
}

/// How many characters of `text` come before its padding: all of them in
/// the unpadded form, and all but at most two `=` at the end in the
/// standard form.
pub open spec fn symbols_in(text: Seq<char>, format: Base64Format) -> int {
    if format == Base64Format::Standard && text.len() >= 1 && text.last() == '=' {
        if text.len() >= 2 && text[text.len() - 2] == '=' {
            text.len() - 2
        } else {
            text.len() - 1
        }
    } else {
        text.len() as int
    }
}

/// The value of the `k`-th symbol of `text`, or zero past its symbols.
pub open spec fn value_or_zero(text: Seq<char>, format: Base64Format, k: int) -> int {
    if 0 <= k < symbols_in(text, format) {
        symbol_value(text[k], format)
    } else {
        0
    }
}

/// Whether `text` has the shape of a base64 text: symbols of the alphabet
/// in a number that some byte count gives, no bits set that belong to no
/// byte, and, in the standard form, padding up to a multiple of four.
pub open spec fn is_well_formed(text: Seq<char>, format: Base64Format) -> bool {
    let count = symbols_in(text, format);
    &&& forall|k: int| 0 <= k < count ==> in_alphabet(#[trigger] text[k], format)
    &&& count % 4 != 1
    &&& count % 4 == 2 ==> symbol_value(text[count - 1], format) % 16 == 0
    &&& count % 4 == 3 ==> symbol_value(text[count - 1], format) % 4 == 0
    &&& format == Base64Format::Standard ==> text.len() % 4 == 0
}

/// The bytes that the symbols of `text` carry: each byte is put together
/// from the two symbols that it spans.
pub open spec fn decoded_bytes(text: Seq<char>, format: Base64Format) -> Seq<u8> {
    Seq::new(
        (symbols_in(text, format) * 3 / 4) as nat,
        |i: int|
            {
                let v0 = value_or_zero(text, format, 4 * (i / 3));
                let v1 = value_or_zero(text, format, 4 * (i / 3) + 1);
                let v2 = value_or_zero(text, format, 4 * (i / 3) + 2);
                let v3 = value_or_zero(text, format, 4 * (i / 3) + 3);
                if i % 3 == 0 {
                    (v0 * 4 + v1 / 16) as u8
                } else if i % 3 == 1 {
                    ((v1 % 16) * 16 + v2 / 4) as u8
                } else {
                    ((v2 % 4) * 64 + v3) as u8
                }
            },
    )
}

/// Each character of the alphabet is the symbol of its value, and each
/// value is the value of its symbol.
pub proof fn lemma_symbol_value(c: char, v: int, format: Base64Format)
    ensures
        in_alphabet(c, format) ==> 0 <= symbol_value(c, format) < 64 && symbol(
            symbol_value(c, format),
            format,
        ) == c,
        0 <= v < 64 ==> symbol_value(symbol(v, format), format) == v,
{
}

/// A text of the right shape is the text of the bytes that its symbols
/// carry.
pub proof fn lemma_well_formed_text_decodes(text: Seq<char>, format: Base64Format)
    requires
        is_well_formed(text, format),
    ensures
        base64_text(decoded_bytes(text, format), format) == text,
{
    let data = decoded_bytes(text, format);
    let count = symbols_in(text, format);
    assert(symbol_count(data.len()) == count);
    assert(text_len(data.len(), format) == text.len());
    assert forall|k: int| 0 <= k < text.len() implies base64_text(data, format)[k] == text[k] by {
        if k < count {
            lemma_symbol_value(text[k], 0, format);
            lemma_sextet_of_decoded(text, format, k);
        }
    }
}

/// Four six-bit values, put together as three bytes, can be read back
/// from those bytes.
proof fn lemma_regroup(v0: int, v1: int, v2: int, v3: int)
    requires
        0 <= v0 < 64,
        0 <= v1 < 64,
        0 <= v2 < 64,
        0 <= v3 < 64,
    ensures
        0 <= v0 * 4 + v1 / 16 < 256,
        0 <= (v1 % 16) * 16 + v2 / 4 < 256,
        0 <= (v2 % 4) * 64 + v3 < 256,
        (v0 * 4 + v1 / 16) / 4 == v0,
        ((v0 * 4 + v1 / 16) % 4) * 16 + ((v1 % 16) * 16 + v2 / 4) / 16 == v1,
        (((v1 % 16) * 16 + v2 / 4) % 16) * 4 + ((v2 % 4) * 64 + v3) / 64 == v2,
        ((v2 % 4) * 64 + v3) % 64 == v3,
        v1 % 16 == 0 ==> ((v0 * 4 + v1 / 16) % 4) * 16 == v1,
        v2 % 4 == 0 ==> (((v1 % 16) * 16 + v2 / 4) % 16) * 4 == v2,
{
}

/// The bytes that a group of four symbols carries, as far as they lie
/// within the decoded bytes.
proof fn lemma_decoded_group(text: Seq<char>, format: Base64Format, j: int)
    requires
        is_well_formed(text, format),
        0 <= 4 * j < symbols_in(text, format),
    ensures
        ({
            let data = decoded_bytes(text, format);
            let v0 = value_or_zero(text, format, 4 * j);
            let v1 = value_or_zero(text, format, 4 * j + 1);
            let v2 = value_or_zero(text, format, 4 * j + 2);
            let v3 = value_or_zero(text, format, 4 * j + 3);
            &&& 0 <= v0 < 64 && 0 <= v1 < 64 && 0 <= v2 < 64 && 0 <= v3 < 64
            &&& byte_or_zero(data, 3 * j) == v0 * 4 + v1 / 16
            &&& byte_or_zero(data, 3 * j + 1) == (if 4 * j + 2 < symbols_in(text, format) {
                (v1 % 16) * 16 + v2 / 4
            } else {
                0
            })
            &&& byte_or_zero(data, 3 * j + 2) == (if 4 * j + 3 < symbols_in(text, format) {
                (v2 % 4) * 64 + v3
            } else {
                0
            })
            &&& 4 * j + 2 >= symbols_in(text, format) ==> v1 % 16 == 0 && v2 == 0 && v3 == 0
            &&& 4 * j + 3 == symbols_in(text, format) ==> v2 % 4 == 0 && v3 == 0
        }),
{
    let count = symbols_in(text, format);
    let v0 = value_or_zero(text, format, 4 * j);
    let v1 = value_or_zero(text, format, 4 * j + 1);
    let v2 = value_or_zero(text, format, 4 * j + 2);
    let v3 = value_or_zero(text, format, 4 * j + 3);
    lemma_symbol_value(text[4 * j], 0, format);
    lemma_symbol_value(text[4 * j + 1], 0, format);
    if 4 * j + 2 < count {
        lemma_symbol_value(text[4 * j + 2], 0, format);
    }
    if 4 * j + 3 < count {
        lemma_symbol_value(text[4 * j + 3], 0, format);
    }
    lemma_regroup(v0, v1, v2, v3);
}

/// The groups of six bits of the decoded bytes are the values of the
/// symbols that were decoded.
proof fn lemma_sextet_of_decoded(text: Seq<char>, format: Base64Format, k: int)
    requires
        is_well_formed(text, format),
        0 <= k < symbols_in(text, format),
    ensures
        sextet(decoded_bytes(text, format), k) == symbol_value(text[k], format),
{
    let j = k / 4;
    lemma_decoded_group(text, format, j);
    lemma_regroup(
        value_or_zero(text, format, 4 * j),
        value_or_zero(text, format, 4 * j + 1),
        value_or_zero(text, format, 4 * j + 2),
        value_or_zero(text, format, 4 * j + 3),
    );
}

/// The base64 texts are exactly the texts of the right shape, and what
/// such a text stands for is what its symbols carry.
pub proof fn lemma_base64_texts(text: Seq<char>, format: Base64Format)
    ensures
        is_base64_text(text, format) <==> is_well_formed(text, format),
        is_well_formed(text, format) ==> base64_data(text, format) == decoded_bytes(text, format),
{
    if is_well_formed(text, format) {
        lemma_well_formed_text_decodes(text, format);
        lemma_text_injective(base64_data(text, format), decoded_bytes(text, format), format);
    }
    if is_base64_text(text, format) {
        let data = base64_data(text, format);
        lemma_text_is_well_formed(data, format);
    }
}

/// The text of any bytes has the right shape.
pub proof fn lemma_text_is_well_formed(data: Seq<u8>, format: Base64Format)
    ensures
        is_well_formed(base64_text(data, format), format),
        symbols_in(base64_text(data, format), format) == symbol_count(data.len()),
{
    let text = base64_text(data, format);
    let count = symbol_count(data.len()) as int;
    if count > 0 {
        lemma_sextet_range(data, count - 1);
        lemma_symbol_distinct(sextet(data, count - 1), 0, format);
        lemma_symbol_value('=', sextet(data, count - 1), format);
    }
    assert forall|k: int| 0 <= k < count implies in_alphabet(#[trigger] text[k], format) by {
        lemma_sextet_range(data, k);
        lemma_symbol_distinct(sextet(data, k), 0, format);
    }
}

/// A base64 text ends in no white space, so trimming leaves it as it is.
pub proof fn lemma_text_has_no_trailing_space(data: Seq<u8>, format: Base64Format)
    ensures
        without_trailing_space(base64_text(data, format)) == base64_text(data, format),
{
    let text = base64_text(data, format);
    if text.len() > 0 {
        let k = text.len() - 1;
        lemma_sextet_range(data, k);
        lemma_symbol_distinct(sextet(data, k), 0, format);
    }
}

/// `base64::Engine::encode` on the engine `STANDARD`: the padded text of
/// `data` over the standard alphabet.
#[verifier::external_body]
fn encode_standard(data: &[u8]) -> (text: String)
    ensures
        text@ == base64_text(data@, Base64Format::Standard),
{
    STANDARD.encode(data)
}

/// `base64::Engine::encode` on the engine `URL_SAFE_NO_PAD`: the unpadded
/// text of `data` over the URL-safe alphabet.
#[verifier::external_body]
pub(crate) fn encode_url_safe(data: &[u8]) -> (text: String)
    ensures
        text@ == base64_text(data@, Base64Format::UrlSafe),
{
    URL_SAFE_NO_PAD.encode(data)
}

/// `base64::Engine::decode` on the engine `STANDARD`. It accepts a text
/// exactly when it is the canonical padded text of some bytes, and then
/// returns those bytes.
#[verifier::external_body]
fn decode_standard(text: &str) -> (r: Result<Vec<u8>, base64::DecodeError>)
    ensures
        r matches Ok(data) ==> base64_text(data@, Base64Format::Standard) == text@,
        r is Err ==> !is_base64_text(text@, Base64Format::Standard),
{
    STANDARD.decode(text)
}

/// `base64::Engine::decode` on the engine `URL_SAFE_NO_PAD`. It accepts a
/// text exactly when it is the unpadded text of some bytes, with no padding
/// and no stray trailing bits, and then returns those bytes.
#[verifier::external_body]
pub(crate) fn decode_url_safe(text: &str) -> (r: Result<Vec<u8>, base64::DecodeError>)
    ensures
        r matches Ok(data) ==> base64_text(data@, Base64Format::UrlSafe) == text@,
        r is Err ==> !is_base64_text(text@, Base64Format::UrlSafe),
{
    URL_SAFE_NO_PAD.decode(text)
}

/// `str::trim_end`: the text without its trailing white space.
#[verifier::external_body]
fn trim_end(text: &str) -> (trimmed: &str)
    ensures
        trimmed@ == without_trailing_space(text@),
{
    text.trim_end()
}

/// Encodes `data` in the given form.
pub fn process_encode(data: &[u8], format: Base64Format) -> (text: String)
    ensures
        text@ == base64_text(data@, format),
{
    match format {
        Base64Format::Standard => encode_standard(data),
        Base64Format::UrlSafe => encode_url_safe(data),
    }
}

/// Decodes `text` in the given form, after dropping white space at its end
/// (such as the newline that ends a file).
///
/// Succeeds exactly when what is left is the base64 text of some bytes,
/// which is to say when it has the shape of one, and then returns those
/// bytes: the ones that its symbols carry.
pub fn process_decode(text: &str, format: Base64Format) -> (r: Result<Vec<u8>, Base64Error>)
    ensures
        r is Ok <==> is_base64_text(without_trailing_space(text@), format),
        r is Ok <==> is_well_formed(without_trailing_space(text@), format),
        r matches Ok(data) ==> data@ == base64_data(without_trailing_space(text@), format),
        r matches Ok(data) ==> data@ == decoded_bytes(without_trailing_space(text@), format),
        r matches Ok(data) ==> base64_text(data@, format) == without_trailing_space(text@),
{
    let trimmed = trim_end(text);
    proof {
        lemma_base64_texts(trimmed@, format);
    }
    let decoded = match format {
        Base64Format::Standard => decode_standard(trimmed),
        Base64Format::UrlSafe => decode_url_safe(trimmed),
    };
    match decoded {
        Ok(data) => {
            proof {
                lemma_text_injective(data@, base64_data(trimmed@, format), format);
            }
            Ok(data)
        },
        Err(_) => Err(Base64Error::NotBase64),
    }
}

/// Decoding what was encoded gives the bytes back, in either form.
pub proof fn lemma_process_round_trip(data: Seq<u8>, format: Base64Format)
    ensures
        is_base64_text(without_trailing_space(base64_text(data, format)), format),
        base64_data(without_trailing_space(base64_text(data, format)), format) == data,
{
    lemma_text_has_no_trailing_space(data, format);
    lemma_decode_encode(data, format);
}

} // verus!
