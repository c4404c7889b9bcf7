use nym_rpc::upstream::{add_upstream_header, extract_upstream_header};

#[test]
fn test_add_upstream_header() {
    let data = b"Hello, World!";
    let upstream_address = "192.168.1.100:8080";
    let result = add_upstream_header(upstream_address, data);
    assert_eq!(result, b"UPSTREAM:192.168.1.100:8080\nHello, World!");
}

#[test]
fn test_extract_upstream_header() {
    // Test with upstream header
    let data_with_header: &[u8] = "UPSTREAM:192.168.1.100:8080\n".as_bytes();
    let (upstream_address, payload) = extract_upstream_header(data_with_header);
    assert_eq!(upstream_address, "192.168.1.100:8080");
    assert_eq!(payload, b"");

    // Test with upstream header and binary data
    let mut data_with_header_binary = "UPSTREAM:localhost:3000\n".as_bytes().to_vec();
    data_with_header_binary.extend_from_slice(&[0x00, 0x01, 0x02, 0xFF]);
    let (upstream_address, payload) = extract_upstream_header(&data_with_header_binary);
    assert_eq!(upstream_address, "localhost:3000");
    assert_eq!(payload, &[0x00, 0x01, 0x02, 0xFF]);

    // Test without upstream header (should return original data)
    let data_without_header = "This is normal data".as_bytes();
    let (_, result) = extract_upstream_header(data_without_header);
    assert_eq!(result, data_without_header);

    // Test with malformed upstream header (no newline)
    let malformed_data = "UPSTREAM:localhost:3000 no newline".as_bytes();
    let (_, result) = extract_upstream_header(malformed_data);
    assert_eq!(result, malformed_data); // Should return original data

    // Test with empty data
    let empty_data: &[u8] = &[];
    let (_, result) = extract_upstream_header(empty_data);
    assert_eq!(result, empty_data);
}

#[test]
fn extract_reads_back_what_add_wrote() {
    let payload = vec![0x0au8, 0x00, 0xff, b'U', b'P'];
    for address in ["", "rpc.example.org:443", "höst-ü:8545", "a b\tc"] {
        let framed = add_upstream_header(address, &payload);
        let (read_address, read_payload) = extract_upstream_header(&framed);
        assert_eq!(read_address, address);
        assert_eq!(read_payload, payload);
    }
}

#[test]
fn extract_stops_at_first_line_feed() {
    let data = b"UPSTREAM:a\nb\nc";
    let (address, payload) = extract_upstream_header(data);
    assert_eq!(address, "a");
    assert_eq!(payload, b"b\nc");
}

#[test]
fn extract_gives_empty_address_for_invalid_utf8() {
    let data = [b"UPSTREAM:".as_slice(), &[0xff, 0xfe], b"\nrest"].concat();
    let (address, payload) = extract_upstream_header(&data);
    assert_eq!(address, "");
    assert_eq!(payload, b"rest");
}

#[test]
fn extract_needs_the_whole_marker() {
    let data = b"UPSTREAM";
    let (address, payload) = extract_upstream_header(data);
    assert_eq!(address, "");
    assert_eq!(payload, b"UPSTREAM");
    let data = b"upstream:x\ny";
    let (address, payload) = extract_upstream_header(data);
    assert_eq!(address, "");
    assert_eq!(payload, b"upstream:x\ny");
}

#[test]
fn address_with_line_feed_is_cut() {
    let framed = add_upstream_header("a\nb", b"data");
    let (address, payload) = extract_upstream_header(&framed);
    assert_eq!(address, "a");
    assert_eq!(payload, b"b\ndata");
}

#[test]
fn add_rebuilds_extracted_data() {
    let data = b"UPSTREAM:host:1\n\x00payload\nmore".to_vec();
    let (address, payload) = extract_upstream_header(&data);
    assert_eq!(add_upstream_header(&address, &payload), data);
}
