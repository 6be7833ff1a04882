use std::collections::HashMap;

use vstd::prelude::*;

use crate::bytes::{bytes_to_u64, le_bytes, lemma_u64_le_roundtrip};
use crate::constant::{signature, signature_spec};
use crate::constant::{FRAME_POINTER, PROGRAM_COUNTER, STACK_POINTER};
use crate::cpu::{lemma_pointer_registers, word_at, CPU};
use crate::heap::load_spec;
use crate::error::ExecutionError;

verus! {

broadcast use vstd::std_specs::hash::group_hash_axioms;

/// An executable image: where execution starts, the bytes to load, and the
/// debug labels.
pub struct NISVCEF {
    pub entry_point: u64,
    pub image: Vec<u8>,
    pub debug_symbols: DebugSymbols,
}

/// Labels of addresses, for debugging.
pub struct DebugSymbols {
    pub labels: HashMap<u64, String>,
}

/// `String::push`: appends one character.
#[verifier::external_body]
fn push_char(s: &mut String, c: char)
    ensures
        final(s)@ == old(s)@.push(c),
{
    s.push(c);
}

/// The character whose code is the byte `b`.
pub open spec fn byte_char(b: u8) -> char {
    b as char
}

/// Whether a file opens with the image signature.
pub open spec fn signature_ok(file: Seq<u8>) -> bool {
    file.len() >= 8 && file.subrange(0, 8) == signature_spec()
}

/// The header fields of an image with a valid signature: the entry point and
/// the program bytes, or `None` when the file ends inside a header field.
/// After the signature come the entry point, the program length, the program
/// (cut short when the file ends first), and two more eight-byte fields that
/// must be present.
pub open spec fn image_spec(file: Seq<u8>) -> Option<(u64, Seq<u8>)> {
    if file.len() < 24 {
        None
    } else {
        let entry = word_at(file, 8);
        let img_len = word_at(file, 16);
        let img_end: int = if 24 + img_len <= file.len() {
            24 + img_len
        } else {
            file.len() as int
        };
        if file.len() < img_end + 16 {
            None
        } else {
            Some((entry, file.subrange(24, img_end)))
        }
    }
}

/// The bytes that the field starting at `pos` got before the file ended.
pub open spec fn partial_field(file: Seq<u8>, pos: int) -> Seq<u8> {
    if pos >= file.len() {
        Seq::empty()
    } else {
        file.subrange(pos, file.len() as int)
    }
}

/// The error detail of a refused image: the bytes read for the signature, or
/// the bytes of the eight-byte field that the file cut short.
pub open spec fn image_error_bytes(file: Seq<u8>) -> Seq<u8> {
    if !signature_ok(file) {
        if file.len() < 8 {
            file
        } else {
            file.subrange(0, 8)
        }
    } else if file.len() < 16 {
        partial_field(file, 8)
    } else if file.len() < 24 {
        partial_field(file, 16)
    } else {
        let img_len = word_at(file, 16);
        let img_end: int = if 24 + img_len <= file.len() {
            24 + img_len
        } else {
            file.len() as int
        };
        if file.len() < img_end + 8 {
            partial_field(file, img_end)
        } else {
            partial_field(file, img_end + 8)
        }
    }
}

/// Reads the eight-byte little-endian word at `*pos` and moves past it; when
/// fewer than eight bytes are left, moves to the end and reports them.
pub fn consume_double_word_vec(stream: &[u8], pos: &mut usize) -> (r: Result<u64, ExecutionError>)
    requires
        *old(pos) <= stream@.len(),
    ensures
        *old(pos) + 8 <= stream@.len() ==> r == Ok::<u64, ExecutionError>(
            word_at(stream@, *old(pos) as int),
        ) && *final(pos) == *old(pos) + 8,
        *old(pos) + 8 > stream@.len() ==> *final(pos) == stream@.len() && match r {
            Err(ExecutionError::IncompleteDoubleWord { consumed }) => consumed@ == partial_field(
                stream@,
                *old(pos) as int,
            ),
            _ => false,
        },
{
    let n = stream.len();
    if stream.len() - *pos >= 8 {
        let mut buf: Vec<u8> = Vec::new();
        let mut i: usize = 0;
        while i < 8
            invariant
                n == stream@.len(),
                i <= 8,
                *pos + 8 <= stream@.len(),
                buf@ =~= stream@.subrange(*pos as int, *pos + i),
            decreases 8 - i,
        {
            buf.push(stream[*pos + i]);
            i = i + 1;
        }
        *pos = *pos + 8;
        Ok(bytes_to_u64(buf.as_slice()))
    } else {
        let mut consumed: Vec<u8> = Vec::new();
        let start = *pos;
        while *pos < stream.len()
            invariant
                start <= *pos <= stream@.len(),
                consumed@ =~= stream@.subrange(start as int, *pos as int),
            decreases stream@.len() - *pos,
        {
            consumed.push(stream[*pos]);
            *pos = *pos + 1;
        }
        Err(ExecutionError::IncompleteDoubleWord { consumed })
    }
}

/// Reads the eight-byte little-endian word at `*pos` and moves past it;
/// `None` when fewer than eight bytes are left (the position then moves to
/// the end).
pub fn consume_double_word_ref(stream: &[u8], pos: &mut usize) -> (r: Option<u64>)
    requires
        *old(pos) <= stream@.len(),
    ensures
        *old(pos) + 8 <= stream@.len() ==> r == Some(word_at(stream@, *old(pos) as int))
            && *final(pos) == *old(pos) + 8,
        *old(pos) + 8 > stream@.len() ==> r is None && *final(pos) == stream@.len(),
{
    match consume_double_word_vec(stream, pos) {
        Ok(v) => Some(v),
        Err(_) => None,
    }
}

/// The labels that the block from `pos` on adds to `labels`, entry by entry:
/// an address, a length, and that many bytes of label.  The block ends where
/// fewer than sixteen bytes remain; a label cut short is an error.
pub open spec fn symbols_spec(block: Seq<u8>, pos: int, labels: Map<u64, Seq<char>>) -> Result<
    Map<u64, Seq<char>>,
    ExecutionError,
>
    decreases block.len() - pos,
{
    if pos < 0 || pos + 16 > block.len() {
        Ok(labels)
    } else {
        let addr = word_at(block, pos);
        let n = word_at(block, pos + 8);
        if pos + 16 + n > block.len() {
            Err(ExecutionError::IncompleteLabel { address: addr })
        } else {
            let label = Seq::new(n as nat, |i: int| byte_char(block[pos + 16 + i]));
            symbols_spec(block, pos + 16 + n, labels.insert(addr, label))
        }
    }
}

/// The string views of a label map.
pub open spec fn labels_view(m: Map<u64, String>) -> Map<u64, Seq<char>> {
    Map::new(|k: u64| m.dom().contains(k), |k: u64| m[k]@)
}

impl DebugSymbols {
    /// Reads the labels of a serialized block.
    pub fn load_symbols(serialized_block: &[u8]) -> (r: Result<Self, ExecutionError>)
        ensures
            match (r, symbols_spec(serialized_block@, 0, Map::empty())) {
                (Ok(d), Ok(m)) => labels_view(d.labels@) == m,
                (Err(e), Err(f)) => e == f,
                _ => false,
            },
    {
        let mut labels: HashMap<u64, String> = HashMap::new();
        let mut pos: usize = 0;
        assert(labels_view(labels@) =~= Map::<u64, Seq<char>>::empty());
        loop
            invariant
                pos <= serialized_block@.len(),
                symbols_spec(serialized_block@, pos as int, labels_view(labels@)) == symbols_spec(
                    serialized_block@,
                    0,
                    Map::empty(),
                ),
            decreases serialized_block@.len() - pos,
        {
            let ghost before = labels_view(labels@);
            let ghost p0 = pos;
            match Self::deserialize_entry(serialized_block, &mut pos)? {
                Some((addr, label)) => {
                    labels.insert(addr, label);
                    assert(labels_view(labels@) =~= before.insert(addr, label@));
                },
                None => {
                    return Ok(DebugSymbols { labels });
                },
            }
        }
    }

    /// Reads one label entry at `*pos`; `None` when the block ends first.
    pub fn deserialize_entry(stream: &[u8], pos: &mut usize) -> (r: Result<
        Option<(u64, String)>,
        ExecutionError,
    >)
        requires
            *old(pos) <= stream@.len(),
        ensures
            *final(pos) <= stream@.len(),
            ({
                let p = *old(pos) as int;
                let block = stream@;
                if p + 16 > block.len() {
                    r == Ok::<Option<(u64, String)>, ExecutionError>(None)
                } else {
                    let addr = word_at(block, p);
                    let n = word_at(block, p + 8);
                    if p + 16 + n > block.len() {
                        r == Err::<Option<(u64, String)>, ExecutionError>(
                            ExecutionError::IncompleteLabel { address: addr },
                        )
                    } else {
                        &&& r is Ok
                        &&& r->Ok_0 is Some
                        &&& r->Ok_0->Some_0.0 == addr
                        &&& r->Ok_0->Some_0.1@ == Seq::new(
                            n as nat,
                            |i: int| byte_char(block[p + 16 + i]),
                        )
                        &&& *final(pos) == p + 16 + n
                    }
                }
            }),
    {
        let ghost p0 = *pos;
        let addr = match consume_double_word_ref(stream, pos) {
            Some(dw) => dw,
            None => {
                return Ok(None);
            },
        };
        let str_len = match consume_double_word_ref(stream, pos) {
            Some(dw) => dw,
            None => {
                return Ok(None);
            },
        };
        let ghost start = *pos;
        let mut label = String::new();
        let mut i: u64 = 0;
        while i < str_len
            invariant
                p0 == *old(pos),
                p0 + 16 == start,
                p0 + 16 <= stream@.len(),
                addr == word_at(stream@, p0 as int),
                str_len == word_at(stream@, p0 + 8),
                start <= stream@.len(),
                *pos == start + i,
                i <= str_len,
                start + i <= stream@.len(),
                label@ =~= Seq::new(i as nat, |k: int| byte_char(stream@[start + k])),
            decreases str_len - i,
        {
            if *pos >= stream.len() {
                return Err(ExecutionError::IncompleteLabel { address: addr });
            }
            let b = stream[*pos];
            push_char(&mut label, b as char);
            *pos = *pos + 1;
            i = i + 1;
        }
        Ok(Some((addr, label)))
    }
}

/// Whether the first eight bytes are the image signature.
fn signature_matches(file: &[u8]) -> (r: bool)
    ensures
        r == signature_ok(file@),
{
    if file.len() < 8 {
        return false;
    }
    let sig = signature();
    let mut i: usize = 0;
    while i < 8
        invariant
            file@.len() >= 8,
            sig@ == signature_spec(),
            i <= 8,
            forall|j: int| 0 <= j < i ==> file@[j] == sig@[j],
        decreases 8 - i,
    {
        if file[i] != sig[i] {
            assert(file@.subrange(0, 8)[i as int] != signature_spec()[i as int]);
            return false;
        }
        i = i + 1;
    }
    assert(file@.subrange(0, 8) =~= signature_spec());
    true
}

impl NISVCEF {
    /// Reads an executable image: checks the signature, then takes the entry
    /// point, the program and the header fields after it.
    pub fn load(file: Vec<u8>) -> (r: Result<Self, ExecutionError>)
        ensures
            !signature_ok(file@) ==> match r {
                Err(ExecutionError::InvalidSignature { signature }) => signature@
                    == image_error_bytes(file@),
                _ => false,
            },
            signature_ok(file@) && image_spec(file@) is None ==> match r {
                Err(ExecutionError::IncompleteDoubleWord { consumed }) => consumed@
                    == image_error_bytes(file@),
                _ => false,
            },
            signature_ok(file@) && image_spec(file@) is Some ==> match r {
                Ok(x) => x.entry_point == image_spec(file@)->Some_0.0 && x.image@ == image_spec(
                    file@,
                )->Some_0.1 && x.debug_symbols.labels@ == Map::<u64, String>::empty(),
                _ => false,
            },
    {
        if !signature_matches(file.as_slice()) {
            let mut read_signature: Vec<u8> = Vec::new();
            let mut i: usize = 0;
            while i < 8 && i < file.len()
                invariant
                    i <= 8,
                    i <= file@.len(),
                    read_signature@ =~= file@.subrange(0, i as int),
                decreases 8 - i,
            {
                read_signature.push(file[i]);
                i = i + 1;
            }
            assert(file@.len() < 8 ==> file@.subrange(0, file@.len() as int) =~= file@);
            return Err(ExecutionError::InvalidSignature { signature: read_signature });
        }
        let mut pos: usize = 8;
        let entry_point = consume_double_word_vec(file.as_slice(), &mut pos)?;
        let program_img_len = consume_double_word_vec(file.as_slice(), &mut pos)?;
        let img_end: usize = if program_img_len <= (file.len() - 24) as u64 {
            24 + program_img_len as usize
        } else {
            file.len()
        };
        let mut image: Vec<u8> = Vec::new();
        while pos < img_end
            invariant
                24 <= pos <= img_end <= file@.len(),
                image@ =~= file@.subrange(24, pos as int),
            decreases img_end - pos,
        {
            image.push(file[pos]);
            pos = pos + 1;
        }
        let _break_point_len = consume_double_word_vec(file.as_slice(), &mut pos)?;
        let _debug_symbols_len = consume_double_word_vec(file.as_slice(), &mut pos)?;
        let debug_symbols_len: usize = 0;
        let debug_symbols_img: Vec<u8> = Vec::new();
        let debug_symbols = match DebugSymbols::load_symbols(debug_symbols_img.as_slice()) {
            Ok(d) => d,
            Err(e) => {
                return Err(e);
            },
        };
        proof {
            assert(labels_view(debug_symbols.labels@) == Map::<u64, Seq<char>>::empty());
            assert forall|k: u64| !debug_symbols.labels@.dom().contains(k) by {
                if debug_symbols.labels@.dom().contains(k) {
                    assert(labels_view(debug_symbols.labels@).dom().contains(k));
                }
            }
            assert(debug_symbols.labels@ =~= Map::<u64, String>::empty());
        }
        Ok(NISVCEF { entry_point, image, debug_symbols })
    }
}

/// Reads a table of eight-byte little-endian addresses.
pub fn build_breakpoint_vector(image: Vec<u8>) -> (r: Result<Vec<u64>, ExecutionError>)
    ensures
        image@.len() % 8 != 0 ==> r == Err::<Vec<u64>, ExecutionError>(
            ExecutionError::MisalignedBreakpoints,
        ),
        image@.len() % 8 == 0 ==> r is Ok && r->Ok_0@ == Seq::new(
            image@.len() / 8,
            |i: int| word_at(image@, 8 * i),
        ),
{
    if image.len() % 8 != 0 {
        return Err(ExecutionError::MisalignedBreakpoints);
    }
    let mut buf: Vec<u64> = Vec::new();
    let mut pos: usize = 0;
    let n = image.len();
    while pos < n
        invariant
            n == image@.len(),
            n % 8 == 0,
            pos % 8 == 0,
            pos <= n,
            buf@ =~= Seq::new((pos / 8) as nat, |i: int| word_at(image@, 8 * i)),
        decreases n - pos,
    {
        let v = consume_double_word_ref(image.as_slice(), &mut pos);
        match v {
            Some(w) => buf.push(w),
            None => {
                assert(false);
            },
        }
    }
    Ok(buf)
}

/// A file made of the signature, an entry point, a program length, that
/// many program bytes and at least sixteen more bytes is read back as that
/// entry point and program.
pub proof fn law_image_roundtrip(entry: u64, program: Seq<u8>, tail: Seq<u8>)
    requires
        program.len() <= u64::MAX,
        tail.len() >= 16,
    ensures
        ({
            let file = signature_spec() + le_bytes(entry, 8) + le_bytes(program.len() as u64, 8)
                + program + tail;
            &&& signature_ok(file)
            &&& image_spec(file) == Some((entry, program))
        }),
{
    let file = signature_spec() + le_bytes(entry, 8) + le_bytes(program.len() as u64, 8) + program
        + tail;
    lemma_u64_le_roundtrip(entry);
    lemma_u64_le_roundtrip(program.len() as u64);
    assert(file.subrange(0, 8) =~= signature_spec());
    assert(file.subrange(8, 16) =~= le_bytes(entry, 8));
    assert(file.subrange(16, 24) =~= le_bytes(program.len() as u64, 8));
    assert(file.subrange(24, 24 + program.len() as int) =~= program);
}

impl CPU {
    /// Loads the executable file `contents`: its image goes into memory after
    /// whatever is there, with the heap and stack behind it; then the
    /// program counter is set to the entry point and the stack and frame
    /// pointers to the start of the stack.
    pub fn load(&mut self, contents: Vec<u8>) -> (r: Result<(), ExecutionError>)
        requires
            contents@.len() + old(self).memory.heap_size + old(self).memory.stack_size + 18
                <= u64::MAX,
        ensures
            !signature_ok(contents@) ==> match r {
                Err(ExecutionError::InvalidSignature { signature }) => signature@
                    == image_error_bytes(contents@),
                _ => false,
            } && *final(self) == *old(self),
            signature_ok(contents@) && image_spec(contents@) is None ==> match r {
                Err(ExecutionError::IncompleteDoubleWord { consumed }) => consumed@
                    == image_error_bytes(contents@),
                _ => false,
            } && *final(self) == *old(self),
            signature_ok(contents@) && image_spec(contents@) is Some ==> ({
                let (entry, image) = image_spec(contents@)->Some_0;
                let h = old(self).memory.heap_size;
                let s = old(self).memory.stack_size;
                let stack_start = (image.len() + h + 18) as u64;
                let (lr, m) = load_spec(old(self).memory.physical@, image, h, s);
                &&& final(self).memory.physical@ == m
                &&& final(self).memory.heap_start == image.len() + 9
                &&& final(self).memory.stack_start == stack_start
                &&& final(self).memory.range == image.len() + h + s
                &&& final(self).memory.heap_size == h
                &&& final(self).memory.stack_size == s
                &&& final(self).pending_interrupt == old(self).pending_interrupt
                &&& r == lr
                &&& (r is Ok <==> old(self).memory.physical@.len() + s >= 18)
                &&& lr is Ok ==> final(self).registers@ == old(self).registers@.update(
                    1,
                    entry,
                ).update(2, stack_start).update(3, stack_start)
                &&& lr is Err ==> final(self).registers@ == old(self).registers@
            }),
    {
        let package = NISVCEF::load(contents)?;
        proof {
            self.registers.lemma_shape();
        }
        self.memory.load(package.image)?;
        let stack_start = self.memory.stack_start;
        proof {
            lemma_pointer_registers(self.registers@, package.entry_point);
        }
        self.registers.write(PROGRAM_COUNTER, package.entry_point);
        proof {
            lemma_pointer_registers(self.registers@, stack_start);
        }
        self.registers.write(STACK_POINTER, stack_start);
        proof {
            lemma_pointer_registers(self.registers@, stack_start);
        }
        self.registers.write(FRAME_POINTER, stack_start);
        Ok(())
    }
}

} // verus!
