use nisvc::assembler::build_header;

#[test]
fn header_holds_signature_and_lengths() {
    let header = build_header(&vec![1, 2, 3], &vec![9; 0x102]);
    let mut expected = b"NISVC-EF".to_vec();
    expected.extend_from_slice(&3u64.to_le_bytes());
    expected.extend_from_slice(&0x102u64.to_le_bytes());
    assert_eq!(header, expected);
}

#[test]
fn header_of_empty_sections() {
    let header = build_header(&vec![], &vec![]);
    assert_eq!(header.len(), 24);
    assert_eq!(&header[8..], &[0u8; 16]);
}
