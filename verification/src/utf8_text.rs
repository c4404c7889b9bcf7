//! Facts about UTF-8 text that the framing code relies on, and the one std
//! conversion from bytes to a `String`.
use vstd::prelude::*;
use vstd::utf8::*;

verus! {

broadcast use vstd::utf8::group_utf8_lib;

/// The byte value of the ASCII line feed, `b'\n'`.
pub open spec fn line_feed() -> u8 {
    10u8
}

/// The text decoded from `bytes` when they are valid UTF-8, and the empty
/// text otherwise (what `String::from_utf8(..).unwrap_or_default()` yields).
pub open spec fn decode_or_empty(bytes: Seq<u8>) -> Seq<char> {
    if valid_utf8(bytes) {
        decode_utf8(bytes)
    } else {
        Seq::empty()
    }
}

/// UTF-8 encoding distributes over concatenation.
pub proof fn lemma_encode_concat(a: Seq<char>, b: Seq<char>)
    ensures
        encode_utf8(a + b) == encode_utf8(a) + encode_utf8(b),
    decreases a.len(),
{
    if a.len() == 0 {
        assert(a + b =~= b);
        assert(encode_utf8(a) =~= Seq::<u8>::empty());
        assert(encode_utf8(a) + encode_utf8(b) =~= encode_utf8(b));
    } else {
        lemma_encode_concat(a.drop_first(), b);
        assert((a + b).drop_first() =~= a.drop_first() + b);
        assert((a + b)[0] == a[0]);
        assert(encode_utf8(a + b) =~= encode_scalar(a[0] as u32) + encode_utf8(a.drop_first() + b));
        assert(encode_utf8(a) =~= encode_scalar(a[0] as u32) + encode_utf8(a.drop_first()));
        assert(encode_utf8(a + b) =~= encode_utf8(a) + encode_utf8(b));
    }
}

/// The UTF-8 encoding of a single character sequence.
pub proof fn lemma_encode_single(c: char)
    ensures
        encode_utf8(seq![c]) == encode_scalar(c as u32),
{
    let s = seq![c];
    assert(s[0] == c);
    assert(s.drop_first() =~= Seq::<char>::empty());
    assert(encode_utf8(s.drop_first()) =~= Seq::<u8>::empty());
    assert(encode_utf8(s) == encode_scalar(s[0] as u32) + encode_utf8(s.drop_first()));
    assert(encode_scalar(c as u32) + Seq::<u8>::empty() =~= encode_scalar(c as u32));
}

proof fn lemma_width_1_byte(v: u32)
    by (bit_vector)
    requires
        v <= 0x7f,
    ensures
        (v & 0x7f) as u8 == v as u8,
        v as u8 == 10u8 <==> v == 10u32,
{
}

proof fn lemma_multibyte_not_line_feed(v: u32)
    by (bit_vector)
    ensures
        (0xC0u8 | ((v >> 6u32) & 0x1F) as u8) != 10u8,
        (0xE0u8 | ((v >> 12u32) & 0x0F) as u8) != 10u8,
        (0xF0u8 | ((v >> 18u32) & 0x7) as u8) != 10u8,
        (0x80u8 | (v & 0x3F) as u8) != 10u8,
        (0x80u8 | ((v >> 6u32) & 0x3F) as u8) != 10u8,
        (0x80u8 | ((v >> 12u32) & 0x3F) as u8) != 10u8,
{
}

/// The line-feed byte occurs in the encoding of a character only when the
/// character is the line feed itself.
pub proof fn lemma_scalar_line_feed(c: char)
    ensures
        encode_scalar(c as u32).contains(line_feed()) <==> c == '\n',
{
    let v = c as u32;
    let e = encode_scalar(v);
    lemma_multibyte_not_line_feed(v);
    if has_width_1_encoding(v) {
        lemma_width_1_byte(v);
        assert(e =~= seq![v as u8]);
        if c == '\n' {
            assert(e[0] == line_feed());
        }
        if e.contains(line_feed()) {
            let k = choose|k: int| 0 <= k < e.len() && e[k] == line_feed();
            assert(k == 0);
            char_u32_cast(c, 10u32);
            assert(10u32 as char == '\n');
        }
    } else {
        assert(c != '\n');
        assert forall|k: int| 0 <= k < e.len() implies e[k] != line_feed() by {}
    }
}

/// A text holds no line feed exactly when its UTF-8 encoding holds no
/// line-feed byte.
pub proof fn lemma_encode_line_feed_free(s: Seq<char>)
    ensures
        !s.contains('\n') <==> !encode_utf8(s).contains(line_feed()),
    decreases s.len(),
{
    if s.len() == 0 {
        assert(encode_utf8(s) =~= Seq::<u8>::empty());
    } else {
        let rest = s.drop_first();
        lemma_encode_line_feed_free(rest);
        lemma_scalar_line_feed(s[0]);
        let head = encode_scalar(s[0] as u32);
        let tail = encode_utf8(rest);
        assert(encode_utf8(s) =~= head + tail);
        if s.contains('\n') {
            let k = choose|k: int| 0 <= k < s.len() && s[k] == '\n';
            if k == 0 {
                let j = choose|j: int| 0 <= j < head.len() && head[j] == line_feed();
                assert((head + tail)[j] == line_feed());
            } else {
                assert(rest[k - 1] == '\n');
                let j = choose|j: int| 0 <= j < tail.len() && tail[j] == line_feed();
                assert((head + tail)[head.len() + j] == line_feed());
            }
        }
        if encode_utf8(s).contains(line_feed()) {
            let j = choose|j: int| 0 <= j < (head + tail).len() && (head + tail)[j] == line_feed();
            if j < head.len() {
                assert(head[j] == line_feed());
                assert(s[0] == '\n');
            } else {
                assert(tail[j - head.len()] == line_feed());
                let k = choose|k: int| 0 <= k < rest.len() && rest[k] == '\n';
                assert(s[k + 1] == '\n');
            }
        }
    }
}

/// Decoding the encoding of a text gives the text back.
pub proof fn lemma_decode_or_empty_encode(s: Seq<char>)
    ensures
        decode_or_empty(encode_utf8(s)) == s,
{
    encode_utf8_valid_utf8(s);
    encode_utf8_decode_utf8(s);
}

/// `String::from_utf8`: `Ok` exactly when the bytes are valid UTF-8, and then
/// the string holds the characters that the bytes encode. The error value is
/// dropped; callers only need to know that the conversion failed.
#[verifier::external_body]
pub(crate) fn string_from_utf8(bytes: Vec<u8>) -> (res: Option<String>)
    ensures
        res is Some <==> valid_utf8(bytes@),
        res matches Some(s) ==> s@ == decode_utf8(bytes@),
{
    String::from_utf8(bytes).ok()
}

} // verus!
