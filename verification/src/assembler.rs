use vstd::prelude::*;

use crate::bytes::{le_bytes, u64_to_le_bytes};
use crate::constant::{signature, signature_spec};

verus! {

/// The header that opens an assembled file: the signature, then the lengths
/// of the data section and of the program, each as eight little-endian
/// bytes.
pub open spec fn header_spec(data_len: nat, program_len: nat) -> Seq<u8> {
    signature_spec() + le_bytes(data_len as u64, 8) + le_bytes(program_len as u64, 8)
}

/// Builds the header of an assembled file from its data section and its
/// program.
pub fn build_header(datarom: &Vec<u8>, program_rom: &Vec<u8>) -> (header: Vec<u8>)
    ensures
        header@ == header_spec(datarom@.len(), program_rom@.len()),
{
    let mut header: Vec<u8> = signature();
    let mut datarom_length = u64_to_le_bytes(datarom.len() as u64);
    let mut programrom_length = u64_to_le_bytes(program_rom.len() as u64);
    header.append(&mut datarom_length);
    header.append(&mut programrom_length);
    header
}

} // verus!
