//! Checks on a contract message before it is signed: it must be Base58 text
//! that decodes to a JSON document.
use vstd::prelude::*;
use vstd::string::{StrSliceExecFns, StringExecFns};
use vstd::utf8::*;

use crate::utf8_text::string_from_utf8;

verus! {

/// Whether a character has the Unicode `White_Space` property.
pub open spec fn is_white_space(c: char) -> bool {
    let v = c as u32;
    ||| 0x09 <= v <= 0x0D
    ||| v == 0x20
    ||| v == 0x85
    ||| v == 0xA0
    ||| v == 0x1680
    ||| 0x2000 <= v <= 0x200A
    ||| v == 0x2028
    ||| v == 0x2029
    ||| v == 0x202F
    ||| v == 0x205F
    ||| v == 0x3000
}

/// `s` without its leading white space.
pub open spec fn trim_start(s: Seq<char>) -> Seq<char>
    decreases s.len(),
{
    if s.len() > 0 && is_white_space(s[0]) {
        trim_start(s.drop_first())
    } else {
        s
    }
}

/// `s` without its trailing white space.
pub open spec fn trim_end(s: Seq<char>) -> Seq<char>
    decreases s.len(),
{
    if s.len() > 0 && is_white_space(s.last()) {
        trim_end(s.drop_last())
    } else {
        s
    }
}

/// `s` without leading and trailing white space.
pub open spec fn trim(s: Seq<char>) -> Seq<char> {
    trim_end(trim_start(s))
}

proof fn lemma_trim_start_push(t: Seq<char>, c: char)
    ensures
        trim_start(t.push(c)) == (if trim_start(t).len() == 0 {
            trim_start(seq![c])
        } else {
            trim_start(t).push(c)
        }),
    decreases t.len(),
{
    if t.len() == 0 {
        assert(t.push(c) =~= seq![c]);
    } else {
        assert(t.push(c)[0] == t[0]);
        assert(t.push(c).drop_first() =~= t.drop_first().push(c));
        if is_white_space(t[0]) {
            lemma_trim_start_push(t.drop_first(), c);
        }
    }
}

proof fn lemma_trim_end_push_white(x: Seq<char>, c: char)
    requires
        is_white_space(c),
    ensures
        trim_end(x.push(c)) == trim_end(x),
{
    assert(x.push(c).last() == c);
    assert(x.push(c).drop_last() =~= x);
}

/// Law: trimming drops every `White_Space` character from either end: a
/// text with such a character (U+0009 to U+000D, U+0020, U+0085, U+00A0,
/// U+1680, U+2000 to U+200A, U+2028, U+2029, U+202F, U+205F, U+3000) added at
/// its end or at its start trims to the same text as before.
pub proof fn law_trim_drops_white_space_ends(t: Seq<char>, c: char)
    requires
        (0x09 <= c as u32 && c as u32 <= 0x0D) || c as u32 == 0x20 || c as u32 == 0x85 || c as u32
            == 0xA0 || c as u32 == 0x1680 || (0x2000 <= c as u32 && c as u32 <= 0x200A) || c as u32
            == 0x2028 || c as u32 == 0x2029 || c as u32 == 0x202F || c as u32 == 0x205F || c as u32
            == 0x3000,
    ensures
        trim(t.push(c)) == trim(t),
        trim(seq![c] + t) == trim(t),
{
    assert(is_white_space(c));
    lemma_trim_start_push(t, c);
    if trim_start(t).len() == 0 {
        assert(seq![c].drop_first() =~= Seq::<char>::empty());
        assert(trim_start(seq![c]) == trim_start(Seq::<char>::empty()));
        assert(trim_start(t.push(c)).len() == 0);
    } else {
        lemma_trim_end_push_white(trim_start(t), c);
    }
    let u = seq![c] + t;
    assert(u[0] == c);
    assert(u.drop_first() =~= t);
}

/// Law: trimming keeps everything between the first and the last character
/// that is not `White_Space`: the result is a contiguous part of the text.
pub proof fn law_trim_is_part_of_text(t: Seq<char>)
    ensures
        exists|i: int, j: int|
            0 <= i <= j <= t.len() && trim(t) == #[trigger] t.subrange(i, j),
    decreases t.len(),
{
    lemma_trim_start_part(t);
    let a = choose|i: int| 0 <= i <= t.len() && trim_start(t) == #[trigger] t.subrange(i, t.len() as int);
    lemma_trim_end_part(trim_start(t));
    let b = choose|j: int| 0 <= j <= trim_start(t).len() && trim_end(trim_start(t)) == #[trigger] trim_start(t).subrange(0, j);
    assert(t.subrange(a, t.len() as int).subrange(0, b) =~= t.subrange(a, a + b));
}

proof fn lemma_trim_start_part(t: Seq<char>)
    ensures
        exists|i: int| 0 <= i <= t.len() && trim_start(t) == #[trigger] t.subrange(i, t.len() as int),
    decreases t.len(),
{
    if t.len() > 0 && is_white_space(t[0]) {
        lemma_trim_start_part(t.drop_first());
        let i = choose|i: int| 0 <= i <= t.drop_first().len() && trim_start(t.drop_first()) == #[trigger] t.drop_first().subrange(i, t.drop_first().len() as int);
        assert(t.drop_first().subrange(i, t.drop_first().len() as int) =~= t.subrange(i + 1, t.len() as int));
    } else {
        assert(t.subrange(0, t.len() as int) =~= t);
    }
}

proof fn lemma_trim_end_part(t: Seq<char>)
    ensures
        exists|j: int| 0 <= j <= t.len() && trim_end(t) == #[trigger] t.subrange(0, j),
    decreases t.len(),
{
    if t.len() > 0 && is_white_space(t.last()) {
        lemma_trim_end_part(t.drop_last());
        let j = choose|j: int| 0 <= j <= t.drop_last().len() && trim_end(t.drop_last()) == #[trigger] t.drop_last().subrange(0, j);
        assert(t.drop_last().subrange(0, j) =~= t.subrange(0, j));
    } else {
        assert(t.subrange(0, t.len() as int) =~= t);
    }
}

/// Whether a character has the Unicode `White_Space` property.
fn white_space(c: char) -> (w: bool)
    ensures
        w == is_white_space(c),
{
    let v = c as u32;
    (0x09 <= v && v <= 0x0D) || v == 0x20 || v == 0x85 || v == 0xA0 || v == 0x1680 || (0x2000
        <= v && v <= 0x200A) || v == 0x2028 || v == 0x2029 || v == 0x202F || v == 0x205F || v
        == 0x3000
}

/// The text without leading and trailing white space, as `str::trim`
/// computes it.
pub fn trim_text(s: &str) -> (res: &str)
    ensures
        res@ == trim(s@),
{
    let n = s.unicode_len();
    proof {
        assert(s@.subrange(0, n as int) =~= s@);
    }
    let mut i: usize = 0;
    while i < n && white_space(s.get_char(i))
        invariant
            n == s@.len(),
            i <= n,
            trim_start(s@) == trim_start(s@.subrange(i as int, n as int)),
        decreases n - i,
    {
        proof {
            let t = s@.subrange(i as int, n as int);
            assert(t[0] == s@[i as int]);
            assert(t.drop_first() =~= s@.subrange(i + 1, n as int));
        }
        i = i + 1;
    }
    proof {
        let t = s@.subrange(i as int, n as int);
        if i < n {
            assert(t[0] == s@[i as int]);
        }
        assert(trim_start(t) == t);
        assert(s@.subrange(0, n as int) =~= s@);
    }
    let mut j: usize = n;
    while j > i && white_space(s.get_char(j - 1))
        invariant
            n == s@.len(),
            i <= j <= n,
            trim(s@) == trim_end(s@.subrange(i as int, j as int)),
        decreases j - i,
    {
        proof {
            let t = s@.subrange(i as int, j as int);
            assert(t.last() == s@[j - 1]);
            assert(t.drop_last() =~= s@.subrange(i as int, j - 1));
        }
        j = j - 1;
    }
    proof {
        let t = s@.subrange(i as int, j as int);
        if j > i {
            assert(t.last() == s@[j - 1]);
        }
        assert(trim_end(t) == t);
    }
    s.substring_char(i, j)
}

/// The value of a Base58 digit in the Bitcoin alphabet
/// `123456789ABCDEFGHJKLMNPQRSTUVWXYZabcdefghijkmnopqrstuvwxyz`, `None` for
/// a character outside it.
pub open spec fn base58_digit(c: char) -> Option<nat> {
    let v = c as u32 as int;
    if 0x31 <= v <= 0x39 {
        Some((v - 0x31) as nat)
    } else if 0x41 <= v <= 0x48 {
        Some((v - 0x41 + 9) as nat)
    } else if 0x4A <= v <= 0x4E {
        Some((v - 0x4A + 17) as nat)
    } else if 0x50 <= v <= 0x5A {
        Some((v - 0x50 + 22) as nat)
    } else if 0x61 <= v <= 0x6B {
        Some((v - 0x61 + 33) as nat)
    } else if 0x6D <= v <= 0x7A {
        Some((v - 0x6D + 44) as nat)
    } else {
        None
    }
}

/// Whether every character of the text is a Base58 digit.
pub open spec fn is_base58_text(text: Seq<char>) -> bool {
    forall|i: int| 0 <= i < text.len() ==> (#[trigger] base58_digit(text[i])) is Some
}

/// The number that the Base58 digits of the text write, most significant
/// digit first.
pub open spec fn base58_value(text: Seq<char>) -> nat
    decreases text.len(),
{
    if text.len() == 0 {
        0
    } else {
        base58_value(text.drop_last()) * 58 + base58_digit(text.last())->0
    }
}

/// The big-endian bytes of `n` without leading zero bytes (none for 0).
pub open spec fn big_endian_bytes(n: nat) -> Seq<u8>
    decreases n,
{
    if n == 0 {
        Seq::empty()
    } else {
        big_endian_bytes(n / 256).push((n % 256) as u8)
    }
}

/// The number of `1` characters (the digit zero) that the text starts with.
pub open spec fn leading_zero_digits(text: Seq<char>) -> nat
    decreases text.len(),
{
    if text.len() > 0 && text[0] == '1' {
        1 + leading_zero_digits(text.drop_first())
    } else {
        0
    }
}

/// What Base58 text (Bitcoin alphabet) decodes to: one zero byte for each
/// leading `1`, then the big-endian bytes of the number the digits write;
/// `None` when a character is not a Base58 digit.
pub open spec fn base58_decoded(text: Seq<char>) -> Option<Seq<u8>> {
    if is_base58_text(text) {
        Some(
            Seq::new(leading_zero_digits(text), |i: int| 0u8) + big_endian_bytes(
                base58_value(text),
            ),
        )
    } else {
        None
    }
}

/// `bs58::decode(text).into_vec()` with the default (Bitcoin) alphabet, the
/// error dropped: it fails on any byte that is not a Base58 digit, and
/// otherwise writes one zero byte per leading `1` followed by the big-endian
/// bytes of the number that the digits write.
#[verifier::external_body]
fn decode_base58(text: &str) -> (res: Option<Vec<u8>>)
    ensures
        res is Some <==> base58_decoded(text@) is Some,
        res matches Some(bytes) ==> base58_decoded(text@) == Some(bytes@),
{
    bs58::decode(text).into_vec().ok()
}

/// Whether the bytes are one JSON document, as `serde_json` reads it.
pub uninterp spec fn is_json_document(bytes: Seq<u8>) -> bool;

/// Whether `serde_json::from_slice::<serde_json::Value>` accepts the bytes.
/// It also claims that accepted bytes are valid UTF-8: outside strings a JSON
/// document holds only ASCII, and `serde_json` reads every string of a
/// `Value` through `str::from_utf8`, failing on invalid bytes.
#[verifier::external_body]
fn parses_as_json(bytes: &[u8]) -> (ok: bool)
    ensures
        ok == is_json_document(bytes@),
        ok ==> valid_utf8(bytes@),
{
    serde_json::from_slice::<serde_json::Value>(bytes).is_ok()
}

/// Why a contract message cannot be signed.
#[derive(Clone, Copy, Debug, PartialEq, Eq, Structural)]
pub enum SignError {
    /// The message is not Base58 text.
    NotBase58,
    /// The message decodes to bytes that are not a JSON document.
    NotJson,
}

impl SignError {
    /// The text shown to the user for this error.
    pub fn message(&self) -> (text: String)
        ensures
            *self == SignError::NotBase58 ==> text@ == "decoded: it seems you have incorrectly copied the message to sign. Make sure you didn't accidentally skip any characters"@,
            *self == SignError::NotJson ==> text@ == "serde_json: it seems you have incorrectly copied the message to sign. Make sure you didn't accidentally skip any characters"@,
    {
        match self {
            SignError::NotBase58 => String::from_str(
                "decoded: it seems you have incorrectly copied the message to sign. Make sure you didn't accidentally skip any characters",
            ),
            SignError::NotJson => String::from_str(
                "serde_json: it seems you have incorrectly copied the message to sign. Make sure you didn't accidentally skip any characters",
            ),
        }
    }
}

/// A contract message ready to be signed: its bytes, and the same bytes as
/// text.
pub struct ContractMessage {
    pub bytes: Vec<u8>,
    pub text: String,
}

/// The outcome of `prepare_contract_msg` as plain values.
pub open spec fn spec_prepare_contract_msg(raw: Seq<char>) -> Result<Seq<u8>, SignError> {
    match base58_decoded(trim(raw)) {
        None => Err(SignError::NotBase58),
        Some(bytes) => if is_json_document(bytes) {
            Ok(bytes)
        } else {
            Err(SignError::NotJson)
        },
    }
}

/// Trims the raw message and decodes it from Base58.
pub fn decode_contract_msg(raw_msg: &str) -> (res: Result<Vec<u8>, SignError>)
    ensures
        res is Ok <==> base58_decoded(trim(raw_msg@)) is Some,
        res matches Ok(bytes) ==> base58_decoded(trim(raw_msg@)) == Some(bytes@),
        res matches Err(e) ==> e == SignError::NotBase58,
{
    let trimmed = trim_text(raw_msg);
    match decode_base58(trimmed) {
        Some(d) => Ok(d),
        None => Err(SignError::NotBase58),
    }
}

/// Checks that decoded bytes are a JSON document; returns the bytes to sign
/// and their text.
pub fn check_contract_json(decoded: Vec<u8>) -> (res: Result<ContractMessage, SignError>)
    ensures
        res is Ok <==> is_json_document(decoded@),
        res matches Ok(m) ==> m.bytes@ == decoded@ && m.text@ == decode_utf8(decoded@),
        res matches Err(e) ==> e == SignError::NotJson,
{
    if !parses_as_json(decoded.as_slice()) {
        return Err(SignError::NotJson);
    }
    let bytes = decoded.clone();
    match string_from_utf8(decoded) {
        Some(text) => Ok(ContractMessage { bytes, text }),
        None => {
            proof {
                assert(false);
            }
            Err(SignError::NotJson)
        },
    }
}

/// Trims the raw message, decodes it from Base58 and checks that the result
/// is a JSON document; returns the bytes to sign and their text.
pub fn prepare_contract_msg(raw_msg: &str) -> (res: Result<ContractMessage, SignError>)
    ensures
        res is Ok <==> spec_prepare_contract_msg(raw_msg@) is Ok,
        res matches Err(e) ==> spec_prepare_contract_msg(raw_msg@) == Err::<Seq<u8>, SignError>(e),
        res matches Ok(m) ==> spec_prepare_contract_msg(raw_msg@) == Ok::<Seq<u8>, SignError>(m.bytes@)
            && m.text@ == decode_utf8(m.bytes@),
{
    let decoded = match decode_contract_msg(raw_msg) {
        Ok(d) => d,
        Err(e) => {
            return Err(e);
        },
    };
    check_contract_json(decoded)
}

/// Law: a line ending pasted after a message does not change what becomes of
/// it: the message followed by a carriage return and a line feed is prepared
/// exactly as the message alone.
pub proof fn law_line_ending_does_not_matter(raw: Seq<char>)
    ensures
        spec_prepare_contract_msg(raw + seq!['\r', '\n']) == spec_prepare_contract_msg(raw),
{
    assert(raw + seq!['\r', '\n'] =~= raw.push('\r').push('\n'));
    law_trim_drops_white_space_ends(raw.push('\r'), '\n');
    law_trim_drops_white_space_ends(raw, '\r');
}

/// Law: trimming keeps a text whose first and last characters are not
/// `White_Space` (none of U+0009 to U+000D, U+0020, U+0085, U+00A0, U+1680,
/// U+2000 to U+200A, U+2028, U+2029, U+202F, U+205F, U+3000) as it is.
pub proof fn law_trim_keeps_text_without_white_ends(t: Seq<char>)
    requires
        t.len() > 0,
        !((0x09 <= t[0] as u32 && t[0] as u32 <= 0x0D) || t[0] as u32 == 0x20 || t[0] as u32
            == 0x85 || t[0] as u32 == 0xA0 || t[0] as u32 == 0x1680 || (0x2000 <= t[0] as u32
            && t[0] as u32 <= 0x200A) || t[0] as u32 == 0x2028 || t[0] as u32 == 0x2029 || t[0]
            as u32 == 0x202F || t[0] as u32 == 0x205F || t[0] as u32 == 0x3000),
        !((0x09 <= t.last() as u32 && t.last() as u32 <= 0x0D) || t.last() as u32 == 0x20
            || t.last() as u32 == 0x85 || t.last() as u32 == 0xA0 || t.last() as u32 == 0x1680
            || (0x2000 <= t.last() as u32 && t.last() as u32 <= 0x200A) || t.last() as u32
            == 0x2028 || t.last() as u32 == 0x2029 || t.last() as u32 == 0x202F || t.last() as u32
            == 0x205F || t.last() as u32 == 0x3000),
    ensures
        trim(t) == t,
{
}

/// The Bitcoin Base58 alphabet, digit 0 first.
pub open spec fn bitcoin_alphabet() -> Seq<char> {
    seq![
        '1', '2', '3', '4', '5', '6', '7', '8', '9',
        'A', 'B', 'C', 'D', 'E', 'F', 'G', 'H', 'J', 'K', 'L', 'M', 'N', 'P', 'Q', 'R', 'S',
        'T', 'U', 'V', 'W', 'X', 'Y', 'Z',
        'a', 'b', 'c', 'd', 'e', 'f', 'g', 'h', 'i', 'j', 'k', 'm', 'n', 'o', 'p', 'q', 'r',
        's', 't', 'u', 'v', 'w', 'x', 'y', 'z',
    ]
}

/// Law: the characters of the Bitcoin alphabet are exactly the Base58 digits,
/// and each stands for its position in the alphabet.
pub proof fn law_base58_digits_are_the_alphabet(c: char)
    ensures
        bitcoin_alphabet().len() == 58,
        base58_digit(c) is Some <==> bitcoin_alphabet().contains(c),
        base58_digit(c) matches Some(d) ==> d < 58 && bitcoin_alphabet()[d as int] == c,
{
    let a = bitcoin_alphabet();
    assert(a.len() == 58);
    if base58_digit(c) is Some {
        let d = base58_digit(c)->0;
        assert(a[d as int] == c);
    }
    if a.contains(c) {
        let k = choose|k: int| 0 <= k < a.len() && a[k] == c;
        assert(base58_digit(a[k]) is Some);
    }
}

/// The number that big-endian bytes are read as.
pub open spec fn big_endian_value(bytes: Seq<u8>) -> nat
    decreases bytes.len(),
{
    if bytes.len() == 0 {
        0
    } else {
        big_endian_value(bytes.drop_last()) * 256 + (bytes.last() as nat)
    }
}

/// Law: the bytes of a number read back as the number, and the first of them
/// is never zero.
pub proof fn law_big_endian_reads_back(n: nat)
    ensures
        big_endian_value(big_endian_bytes(n)) == n,
        big_endian_bytes(n).len() > 0 ==> big_endian_bytes(n)[0] != 0,
    decreases n,
{
    if n > 0 {
        law_big_endian_reads_back(n / 256);
        let p = big_endian_bytes(n / 256);
        let b = big_endian_bytes(n);
        assert(b == p.push((n % 256) as u8));
        assert(b.drop_last() =~= p);
        assert(big_endian_value(b) == big_endian_value(p) * 256 + (n % 256));
        if p.len() == 0 {
            assert(n / 256 == 0) by {
                if n / 256 > 0 {
                    assert(big_endian_bytes(n / 256) == big_endian_bytes(n / 256 / 256).push(((n / 256) % 256) as u8));
                }
            }
            assert(b[0] == (n % 256) as u8);
        } else {
            assert(b[0] == p[0]);
        }
    }
}

/// Law: decoded Base58 text starts with exactly one zero byte for each
/// leading `1` and continues with bytes that read back as the number the
/// digits write.
pub proof fn law_base58_decoded_layout(text: Seq<char>)
    requires
        base58_decoded(text) is Some,
    ensures
        ({
            let bytes = base58_decoded(text)->0;
            let k = leading_zero_digits(text);
            &&& k <= text.len()
            &&& forall|i: int| 0 <= i < k ==> text[i] == '1' && bytes[i] == 0u8
            &&& big_endian_value(bytes.subrange(k as int, bytes.len() as int)) == base58_value(text)
            &&& (k < bytes.len() ==> bytes[k as int] != 0u8)
        }),
{
    lemma_leading_ones(text);
    law_big_endian_reads_back(base58_value(text));
    let k = leading_zero_digits(text);
    let bytes = base58_decoded(text)->0;
    let v = big_endian_bytes(base58_value(text));
    assert(bytes.subrange(k as int, bytes.len() as int) =~= v);
}

proof fn lemma_leading_ones(text: Seq<char>)
    ensures
        leading_zero_digits(text) <= text.len(),
        forall|i: int| 0 <= i < leading_zero_digits(text) ==> text[i] == '1',
    decreases text.len(),
{
    if text.len() > 0 && text[0] == '1' {
        lemma_leading_ones(text.drop_first());
        assert forall|i: int| 0 <= i < leading_zero_digits(text) implies text[i] == '1' by {
            if i > 0 {
                assert(text[i] == text.drop_first()[i - 1]);
            }
        }
    }
}

} // verus!
