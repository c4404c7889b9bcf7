//! The upstream header that the first message of a session carries: the
//! marker `UPSTREAM:`, the upstream address, a line feed, then the payload.
use vstd::prelude::*;
use vstd::slice::{slice_subrange, slice_to_vec};
use vstd::utf8::*;

use crate::utf8_text::{
    decode_or_empty, lemma_decode_or_empty_encode, lemma_encode_concat,
    lemma_encode_line_feed_free, lemma_encode_single, line_feed, string_from_utf8,
};

verus! {

broadcast use vstd::utf8::group_utf8_lib;

/// The marker text that starts an upstream header.
pub open spec fn upstream_marker() -> Seq<char> {
    seq!['U', 'P', 'S', 'T', 'R', 'E', 'A', 'M', ':']
}

/// The bytes of the marker.
pub open spec fn upstream_marker_bytes() -> Seq<u8> {
    encode_utf8(upstream_marker())
}

/// The text of the header line for `address`, line feed included.
pub open spec fn header_line(address: Seq<char>) -> Seq<char> {
    upstream_marker() + address + seq!['\n']
}

/// What `add_upstream_header` produces: the encoded header line, then the
/// payload unchanged.
pub open spec fn spec_add_upstream_header(address: Seq<char>, payload: Seq<u8>) -> Seq<u8> {
    encode_utf8(header_line(address)) + payload
}

/// Whether `data` starts with the marker bytes.
pub open spec fn starts_with_marker(data: Seq<u8>) -> bool {
    data.len() >= upstream_marker_bytes().len() && data.subrange(
        0,
        upstream_marker_bytes().len() as int,
    ) == upstream_marker_bytes()
}

/// What `extract_upstream_header` produces. With the marker in front and a
/// line feed somewhere in `data`, the address is the text between the marker
/// and the first line feed (empty when those bytes are not UTF-8) and the
/// payload is everything after that line feed. Otherwise the address is empty
/// and the payload is all of `data`.
pub open spec fn spec_extract_upstream_header(data: Seq<u8>) -> (Seq<char>, Seq<u8>) {
    if starts_with_marker(data) {
        match data.index_of_first(line_feed()) {
            Some(p) => (
                decode_or_empty(data.subrange(upstream_marker_bytes().len() as int, p)),
                data.subrange(p + 1, data.len() as int),
            ),
            None => (Seq::empty(), data),
        }
    } else {
        (Seq::empty(), data)
    }
}

proof fn lemma_marker_bytes()
    ensures
        upstream_marker_bytes() == seq![0x55u8, 0x50u8, 0x53u8, 0x54u8, 0x52u8, 0x45u8, 0x41u8, 0x4du8, 0x3au8],
        !upstream_marker_bytes().contains(line_feed()),
{
    let m = upstream_marker();
    assert(is_ascii_chars(m));
    is_ascii_chars_encode_utf8(m);
    let b = upstream_marker_bytes();
    assert(b.len() == 9);
    assert(b[0] == m[0] as u8);
    assert(b[1] == m[1] as u8);
    assert(b[2] == m[2] as u8);
    assert(b[3] == m[3] as u8);
    assert(b[4] == m[4] as u8);
    assert(b[5] == m[5] as u8);
    assert(b[6] == m[6] as u8);
    assert(b[7] == m[7] as u8);
    assert(b[8] == m[8] as u8);
    assert(b =~= seq![0x55u8, 0x50u8, 0x53u8, 0x54u8, 0x52u8, 0x45u8, 0x41u8, 0x4du8, 0x3au8]);
}

/// The header bytes split into marker, encoded address and line feed.
pub proof fn lemma_header_bytes(address: Seq<char>)
    ensures
        encode_utf8(header_line(address)) == upstream_marker_bytes() + encode_utf8(address) + seq![
            line_feed(),
        ],
{
    lemma_encode_concat(upstream_marker() + address, seq!['\n']);
    lemma_encode_concat(upstream_marker(), address);
    lemma_encode_single('\n');
    assert(('\n' as u32) == 10u32);
    assert((10u32 & 0x7f) as u8 == 10u8) by (bit_vector);
    assert(encode_scalar('\n' as u32) =~= seq![line_feed()]);
}

/// Law: the framed data is the nine bytes `U`, `P`, `S`, `T`, `R`, `E`, `A`,
/// `M`, `:`, then the UTF-8 bytes of the address, then one line-feed byte,
/// then the payload unchanged.
pub proof fn law_add_layout(address: Seq<char>, payload: Seq<u8>)
    ensures
        spec_add_upstream_header(address, payload) == seq![0x55u8, 0x50u8, 0x53u8, 0x54u8, 0x52u8, 0x45u8, 0x41u8, 0x4du8, 0x3au8]
            + encode_utf8(address) + seq![0x0au8] + payload,
{
    lemma_marker_bytes();
    lemma_header_bytes(address);
}

/// Law: the header that `add_upstream_header` writes is read back by
/// `extract_upstream_header`, address and payload alike, for every address
/// that holds no line feed and every payload.
pub proof fn law_extract_inverts_add(address: Seq<char>, payload: Seq<u8>)
    requires
        !address.contains('\n'),
    ensures
        spec_extract_upstream_header(spec_add_upstream_header(address, payload)) == (
            address,
            payload,
        ),
{
    lemma_marker_bytes();
    lemma_header_bytes(address);
    lemma_encode_line_feed_free(address);
    let m = upstream_marker_bytes();
    let e = encode_utf8(address);
    let data = spec_add_upstream_header(address, payload);
    assert(data =~= m + e + seq![line_feed()] + payload);
    let p: int = (m.len() + e.len()) as int;
    assert(data.subrange(0, m.len() as int) =~= m);
    assert(starts_with_marker(data));
    assert(data[p] == line_feed());
    assert(data.contains(line_feed()));
    data.index_of_first_ensures(line_feed());
    let q = data.index_of_first(line_feed()).unwrap();
    if q < p {
        if q < m.len() {
            assert(m[q] == data[q]);
            assert(m.contains(line_feed()));
        } else {
            assert(e[q - m.len()] == data[q]);
            assert(e.contains(line_feed()));
        }
    }
    assert(q == p);
    assert(data.subrange(m.len() as int, p) =~= e);
    assert(data.subrange(p + 1, data.len() as int) =~= payload);
    lemma_decode_or_empty_encode(address);
}

/// Law: framed data is rebuilt from what `extract_upstream_header` reads
/// out of it. For data that starts with the marker, holds a line feed, and
/// has valid UTF-8 between the marker and the first line feed, writing the
/// extracted address and payload with `add_upstream_header` gives the data
/// back.
pub proof fn law_add_inverts_extract(data: Seq<u8>)
    requires
        starts_with_marker(data),
        data.contains(line_feed()),
        valid_utf8(
            data.subrange(
                upstream_marker_bytes().len() as int,
                data.index_of_first(line_feed())->0,
            ),
        ),
    ensures
        spec_add_upstream_header(
            spec_extract_upstream_header(data).0,
            spec_extract_upstream_header(data).1,
        ) == data,
{
    lemma_marker_bytes();
    data.index_of_first_ensures(line_feed());
    let p = data.index_of_first(line_feed())->0;
    let m = upstream_marker_bytes();
    if p < 9 {
        assert(m[p] == data[p]);
        assert(m.contains(line_feed()));
    }
    let raw = data.subrange(9, p);
    let address = decode_utf8(raw);
    decode_utf8_encode_utf8(raw);
    lemma_header_bytes(address);
    assert(data.subrange(0, 9) =~= m);
    assert(m + raw + seq![line_feed()] + data.subrange(p + 1, data.len() as int) =~= data);
}

/// Law: data without a line feed names no upstream: the address is empty and
/// the payload is all of the data, marker or not.
pub proof fn law_extract_needs_line_feed(data: Seq<u8>)
    requires
        !data.contains(line_feed()),
    ensures
        spec_extract_upstream_header(data) == (Seq::<char>::empty(), data),
{
    data.index_of_first_ensures(line_feed());
}

/// Law: whenever an upstream address is read out of data, the data is exactly
/// the header for that address followed by the payload that was read out.
pub proof fn law_extracted_address_frames_data(data: Seq<u8>)
    ensures
        spec_extract_upstream_header(data).0.len() > 0 ==> spec_add_upstream_header(
            spec_extract_upstream_header(data).0,
            spec_extract_upstream_header(data).1,
        ) == data,
{
    if spec_extract_upstream_header(data).0.len() > 0 {
        assert(starts_with_marker(data));
        data.index_of_first_ensures(line_feed());
        assert(data.index_of_first(line_feed()) is Some);
        law_add_inverts_extract(data);
    }
}

/// Law: data that does not start with the marker is handed back whole, with
/// an empty address.
pub proof fn law_extract_without_marker(data: Seq<u8>)
    requires
        !starts_with_marker(data),
    ensures
        spec_extract_upstream_header(data) == (Seq::<char>::empty(), data),
{
}

/// Law: the payload that `extract_upstream_header` returns is always a
/// suffix of its input; nothing is added to the data.
pub proof fn law_extract_payload_is_suffix(data: Seq<u8>)
    ensures
        spec_extract_upstream_header(data).1.len() <= data.len(),
        spec_extract_upstream_header(data).1 == data.subrange(
            data.len() - spec_extract_upstream_header(data).1.len(),
            data.len() as int,
        ),
{
    if starts_with_marker(data) {
        data.index_of_first_ensures(line_feed());
        match data.index_of_first(line_feed()) {
            Some(p) => {
                assert(data.subrange(p + 1, data.len() as int).len() == data.len() - (p + 1));
            },
            None => {
                assert(data.subrange(0, data.len() as int) =~= data);
            },
        }
    } else {
        assert(data.subrange(0, data.len() as int) =~= data);
    }
}

/// The marker as bytes.
fn marker_bytes() -> (res: &'static [u8])
    ensures
        res@ == upstream_marker_bytes(),
        res@.len() == 9,
{
    let marker: &'static str = "UPSTREAM:";
    proof {
        reveal_strlit("UPSTREAM:");
        assert(marker@ =~= upstream_marker());
        lemma_marker_bytes();
    }
    marker.as_bytes()
}

/// Adds the upstream address to the payload data.
/// Format: `UPSTREAM:` and the address, a line feed, then the payload.
pub fn add_upstream_header(upstream_address: &str, bytes: &[u8]) -> (res: Vec<u8>)
    ensures
        res@ == spec_add_upstream_header(upstream_address@, bytes@),
{
    let marker = marker_bytes();
    let address = upstream_address.as_bytes();
    let mut out: Vec<u8> = slice_to_vec(marker);
    let mut i: usize = 0;
    while i < address.len()
        invariant
            i <= address@.len(),
            out@ == marker@ + address@.subrange(0, i as int),
        decreases address@.len() - i,
    {
        out.push(address[i]);
        assert(address@.subrange(0, i + 1) =~= address@.subrange(0, i as int).push(address@[i as int]));
        i = i + 1;
    }
    out.push(10u8);
    let mut j: usize = 0;
    while j < bytes.len()
        invariant
            j <= bytes@.len(),
            out@ == marker@ + address@ + seq![line_feed()] + bytes@.subrange(0, j as int),
        decreases bytes@.len() - j,
    {
        out.push(bytes[j]);
        assert(bytes@.subrange(0, j + 1) =~= bytes@.subrange(0, j as int).push(bytes@[j as int]));
        j = j + 1;
    }
    proof {
        assert(address@.subrange(0, address@.len() as int) =~= address@);
        assert(bytes@.subrange(0, bytes@.len() as int) =~= bytes@);
        lemma_header_bytes(upstream_address@);
        assert(out@ =~= spec_add_upstream_header(upstream_address@, bytes@));
    }
    out
}

/// Whether `data` starts with the marker bytes.
fn has_marker(data: &[u8]) -> (res: bool)
    ensures
        res == starts_with_marker(data@),
{
    let marker = marker_bytes();
    if data.len() < marker.len() {
        return false;
    }
    let mut i: usize = 0;
    while i < marker.len()
        invariant
            i <= marker@.len(),
            marker@.len() <= data@.len(),
            marker@ == upstream_marker_bytes(),
            forall|k: int| 0 <= k < i ==> data@[k] == marker@[k],
        decreases marker@.len() - i,
    {
        if data[i] != marker[i] {
            proof {
                assert(data@.subrange(0, marker@.len() as int)[i as int] != marker@[i as int]);
            }
            return false;
        }
        i = i + 1;
    }
    proof {
        assert(data@.subrange(0, marker@.len() as int) =~= marker@);
    }
    true
}

/// Index of the first line feed in `data`, if any.
fn first_line_feed(data: &[u8]) -> (res: Option<usize>)
    ensures
        res matches Some(p) ==> data@.index_of_first(line_feed()) == Some(p as int),
        res is None ==> data@.index_of_first(line_feed()) is None,
{
    proof {
        data@.index_of_first_ensures(line_feed());
    }
    let mut i: usize = 0;
    while i < data.len()
        invariant
            i <= data@.len(),
            forall|k: int| 0 <= k < i ==> data@[k] != line_feed(),
        decreases data@.len() - i,
    {
        if data[i] == 10u8 {
            proof {
                data@.index_of_first_ensures(line_feed());
                assert(data@[i as int] == line_feed());
                assert(data@.contains(line_feed()));
                let idx = data@.index_of_first(line_feed()).unwrap();
                if idx < i {
                    assert(data@[idx] != line_feed());
                }
                if idx > i {
                    assert(data@[i as int] != line_feed());
                }
            }
            return Some(i);
        }
        i = i + 1;
    }
    proof {
        if data@.contains(line_feed()) {
            let k = choose|k: int| 0 <= k < data@.len() && data@[k] == line_feed();
            assert(data@[k] != line_feed());
        }
    }
    None
}

/// Extracts the upstream address from the payload data.
/// Expected format: `UPSTREAM:` and the address, a line feed, then the
/// payload. Data without that header comes back whole, with an empty address.
pub fn extract_upstream_header(data: &[u8]) -> (res: (String, Vec<u8>))
    ensures
        (res.0@, res.1@) == spec_extract_upstream_header(data@),
{
    if has_marker(data) {
        match first_line_feed(data) {
            Some(pos) => {
                proof {
                    lemma_marker_bytes();
                    data@.index_of_first_ensures(line_feed());
                    assert(pos < data@.len());
                    if pos < 9 {
                        assert(upstream_marker_bytes()[pos as int] == data@[pos as int]);
                        assert(upstream_marker_bytes().contains(line_feed()));
                    }
                }
                let raw = slice_to_vec(slice_subrange(data, 9, pos));
                let address = match string_from_utf8(raw) {
                    Some(s) => s,
                    None => String::new(),
                };
                let n = data.len();
                assert(pos < n);
                let payload = slice_to_vec(slice_subrange(data, pos + 1, n));
                (address, payload)
            },
            None => (String::new(), slice_to_vec(data)),
        }
    } else {
        (String::new(), slice_to_vec(data))
    }
}

} // verus!
