use nisvc::error::ExecutionError;
use nisvc::loader::{
    build_breakpoint_vector, consume_double_word_ref, consume_double_word_vec, DebugSymbols,
    NISVCEF,
};

fn file_with(entry: u64, image: &[u8], tail: &[u8]) -> Vec<u8> {
    let mut f = b"NISVC-EF".to_vec();
    f.extend_from_slice(&entry.to_le_bytes());
    f.extend_from_slice(&(image.len() as u64).to_le_bytes());
    f.extend_from_slice(image);
    f.extend_from_slice(tail);
    f
}

#[test]
fn image_round_trips() {
    let f = file_with(0x1234, &[1, 2, 3, 4], &[0; 16]);
    let package = NISVCEF::load(f).ok().unwrap();
    assert_eq!(package.entry_point, 0x1234);
    assert_eq!(package.image, vec![1, 2, 3, 4]);
    assert!(package.debug_symbols.labels.is_empty());
}

#[test]
fn bad_signature_reports_the_first_bytes() {
    assert!(matches!(
        NISVCEF::load(b"NISVC-XX123".to_vec()),
        Err(ExecutionError::InvalidSignature { signature }) if signature == b"NISVC-XX".to_vec()
    ));
    assert!(matches!(
        NISVCEF::load(b"NIS".to_vec()),
        Err(ExecutionError::InvalidSignature { signature }) if signature == b"NIS".to_vec()
    ));
}

#[test]
fn truncated_fields_report_what_was_read() {
    let mut f = b"NISVC-EF".to_vec();
    f.extend_from_slice(&[5, 6]);
    assert!(matches!(
        NISVCEF::load(f),
        Err(ExecutionError::IncompleteDoubleWord { consumed }) if consumed == vec![5, 6]
    ));
    let f = file_with(0, &[1, 2], &[7; 10]);
    assert!(matches!(
        NISVCEF::load(f),
        Err(ExecutionError::IncompleteDoubleWord { consumed }) if consumed == vec![7, 7]
    ));
}

#[test]
fn image_length_past_the_end_takes_what_is_there() {
    let mut f = b"NISVC-EF".to_vec();
    f.extend_from_slice(&9u64.to_le_bytes());
    f.extend_from_slice(&1000u64.to_le_bytes());
    f.extend_from_slice(&[1, 2, 3]);
    assert!(matches!(
        NISVCEF::load(f),
        Err(ExecutionError::IncompleteDoubleWord { consumed }) if consumed.is_empty()
    ));
}

#[test]
fn double_words() {
    let stream = [1u8, 0, 0, 0, 0, 0, 0, 0, 2, 0, 0];
    let mut pos = 0usize;
    assert_eq!(consume_double_word_vec(&stream, &mut pos), Ok(1));
    assert_eq!(pos, 8);
    assert_eq!(
        consume_double_word_vec(&stream, &mut pos),
        Err(ExecutionError::IncompleteDoubleWord { consumed: vec![2, 0, 0] })
    );
    assert_eq!(pos, 11);
    let mut pos = 0usize;
    assert_eq!(consume_double_word_ref(&stream, &mut pos), Some(1));
    assert_eq!(consume_double_word_ref(&stream, &mut pos), None);
    assert_eq!(pos, 11);
}

#[test]
fn breakpoint_table() {
    let mut table = 7u64.to_le_bytes().to_vec();
    table.extend_from_slice(&0x100u64.to_le_bytes());
    assert_eq!(build_breakpoint_vector(table), Ok(vec![7, 0x100]));
    assert_eq!(build_breakpoint_vector(vec![1, 2, 3]), Err(ExecutionError::MisalignedBreakpoints));
    assert_eq!(build_breakpoint_vector(vec![]), Ok(vec![]));
}

fn entry(addr: u64, label: &[u8]) -> Vec<u8> {
    let mut e = addr.to_le_bytes().to_vec();
    e.extend_from_slice(&(label.len() as u64).to_le_bytes());
    e.extend_from_slice(label);
    e
}

#[test]
fn symbol_entries_build_labels() {
    let block = entry(0x40, b"main");
    let mut pos = 0usize;
    let (addr, label) = DebugSymbols::deserialize_entry(&block, &mut pos).unwrap().unwrap();
    assert_eq!(addr, 0x40);
    assert_eq!(label, "main");
    assert_eq!(pos, block.len());
    assert_eq!(DebugSymbols::deserialize_entry(&block, &mut pos), Ok(None));
}

#[test]
fn symbol_blocks_map_addresses_to_labels() {
    let mut block = entry(0x40, b"main");
    block.extend(entry(0x80, b"loop"));
    block.extend(entry(0x40, b"start"));
    let symbols = DebugSymbols::load_symbols(&block).ok().unwrap();
    assert_eq!(symbols.labels.len(), 2);
    assert_eq!(symbols.labels.get(&0x40).map(|s| s.as_str()), Some("start"));
    assert_eq!(symbols.labels.get(&0x80).map(|s| s.as_str()), Some("loop"));
}

#[test]
fn a_cut_label_is_refused() {
    let mut block = entry(0x40, b"main");
    block.truncate(block.len() - 1);
    assert!(matches!(
        DebugSymbols::load_symbols(&block),
        Err(ExecutionError::IncompleteLabel { address: 0x40 })
    ));
}
