use vstd::prelude::*;
use vstd::string::*;

use crate::constant::UNINITIALIZED_REGISTER;

verus! {

/// A register handle: the low nibble picks one of sixteen registers, the high
/// nibble picks the window of that register that is read or written.
pub type RegHandle = u8;

/// The part of a 64-bit register that an instruction sees.
#[derive(Clone, Copy, Debug, PartialEq, Eq, Structural)]
pub enum RegWindow {
    B1,
    B2,
    B3,
    B4,
    B5,
    B6,
    B7,
    B8,
    Q1,
    Q2,
    Q3,
    Q4,
    L,
    H,
    F,
}

/// The bit at which a window starts.
pub open spec fn window_shift(w: RegWindow) -> u64 {
    match w {
        RegWindow::B1 => 0,
        RegWindow::B2 => 8,
        RegWindow::B3 => 16,
        RegWindow::B4 => 24,
        RegWindow::B5 => 32,
        RegWindow::B6 => 40,
        RegWindow::B7 => 48,
        RegWindow::B8 => 56,
        RegWindow::Q1 => 0,
        RegWindow::Q2 => 16,
        RegWindow::Q3 => 32,
        RegWindow::Q4 => 48,
        RegWindow::L => 0,
        RegWindow::H => 32,
        RegWindow::F => 0,
    }
}

/// The mask of a window's width, unshifted.
pub open spec fn window_mask(w: RegWindow) -> u64 {
    match w {
        RegWindow::Q1 | RegWindow::Q2 | RegWindow::Q3 | RegWindow::Q4 => 0xffff,
        RegWindow::L | RegWindow::H => 0xffff_ffff,
        RegWindow::F => 0xffff_ffff_ffff_ffff,
        _ => 0xff,
    }
}

/// The width of a window in bytes.
pub open spec fn window_bytes(w: RegWindow) -> u64 {
    match w {
        RegWindow::Q1 | RegWindow::Q2 | RegWindow::Q3 | RegWindow::Q4 => 2,
        RegWindow::L | RegWindow::H => 4,
        RegWindow::F => 8,
        _ => 1,
    }
}

/// What reading window `w` of a register holding `v` gives.
pub open spec fn window_read(v: u64, w: RegWindow) -> u64 {
    (v >> window_shift(w)) & window_mask(w)
}

/// The register value after writing `x` through window `w` of a register
/// holding `v`: the window takes the low bits of `x`, the rest of `v` stays.
pub open spec fn window_write(v: u64, w: RegWindow, x: u64) -> u64 {
    (v & !(window_mask(w) << window_shift(w))) | ((x & window_mask(w)) << window_shift(w))
}

/// The window that the high nibble `sub` of a handle selects.
pub open spec fn window_of_nibble(sub: u8) -> RegWindow {
    if sub == 1 {
        RegWindow::B1
    } else if sub == 2 {
        RegWindow::B2
    } else if sub == 3 {
        RegWindow::B3
    } else if sub == 4 {
        RegWindow::B4
    } else if sub == 5 {
        RegWindow::B5
    } else if sub == 6 {
        RegWindow::B6
    } else if sub == 7 {
        RegWindow::B7
    } else if sub == 8 {
        RegWindow::B8
    } else if sub == 9 {
        RegWindow::Q1
    } else if sub == 10 {
        RegWindow::Q2
    } else if sub == 11 {
        RegWindow::Q3
    } else if sub == 12 {
        RegWindow::Q4
    } else if sub == 13 {
        RegWindow::L
    } else if sub == 14 {
        RegWindow::H
    } else {
        RegWindow::F
    }
}

/// The register index that a handle names.
pub open spec fn handle_index(code: u8) -> u8 {
    code & 0x0f
}

/// The window that a handle names.
pub open spec fn handle_window(code: u8) -> RegWindow {
    window_of_nibble(((code & 0xf0) >> 4) as u8)
}

/// The suffix that names a window.
pub open spec fn suffix_spec(w: RegWindow) -> Seq<char> {
    match w {
        RegWindow::B1 => "b1"@,
        RegWindow::B2 => "b2"@,
        RegWindow::B3 => "b3"@,
        RegWindow::B4 => "b4"@,
        RegWindow::B5 => "b5"@,
        RegWindow::B6 => "b6"@,
        RegWindow::B7 => "b7"@,
        RegWindow::B8 => "b8"@,
        RegWindow::Q1 => "q1"@,
        RegWindow::Q2 => "q2"@,
        RegWindow::Q3 => "q3"@,
        RegWindow::Q4 => "q4"@,
        RegWindow::L => "l"@,
        RegWindow::H => "h"@,
        RegWindow::F => "f"@,
    }
}

/// The window that a suffix names; an unknown suffix names the full register.
pub open spec fn from_suffix_spec(s: Seq<char>) -> RegWindow {
    if s == "b1"@ {
        RegWindow::B1
    } else if s == "b2"@ {
        RegWindow::B2
    } else if s == "b3"@ {
        RegWindow::B3
    } else if s == "b4"@ {
        RegWindow::B4
    } else if s == "b5"@ {
        RegWindow::B5
    } else if s == "b6"@ {
        RegWindow::B6
    } else if s == "b7"@ {
        RegWindow::B7
    } else if s == "b8"@ {
        RegWindow::B8
    } else if s == "q1"@ {
        RegWindow::Q1
    } else if s == "q2"@ {
        RegWindow::Q2
    } else if s == "q3"@ {
        RegWindow::Q3
    } else if s == "q4"@ {
        RegWindow::Q4
    } else if s == "l"@ {
        RegWindow::L
    } else if s == "h"@ {
        RegWindow::H
    } else {
        RegWindow::F
    }
}

/// Whether two strings hold the same characters.
pub fn str_equals(a: &str, b: &str) -> (r: bool)
    ensures
        r == (a@ == b@),
{
    let n = a.unicode_len();
    if n != b.unicode_len() {
        return false;
    }
    let mut i: usize = 0;
    while i < n
        invariant
            n == a@.len(),
            n == b@.len(),
            i <= n,
            forall|j: int| 0 <= j < i ==> a@[j] == b@[j],
        decreases n - i,
    {
        if a.get_char(i) != b.get_char(i) {
            return false;
        }
        i = i + 1;
    }
    assert(a@ =~= b@);
    true
}

impl RegWindow {
    /// The suffix that names this window.
    pub fn to_suffix(&self) -> (s: &'static str)
        ensures
            s@ == suffix_spec(*self),
    {
        match self {
            RegWindow::B1 => "b1",
            RegWindow::B2 => "b2",
            RegWindow::B3 => "b3",
            RegWindow::B4 => "b4",
            RegWindow::B5 => "b5",
            RegWindow::B6 => "b6",
            RegWindow::B7 => "b7",
            RegWindow::B8 => "b8",
            RegWindow::Q1 => "q1",
            RegWindow::Q2 => "q2",
            RegWindow::Q3 => "q3",
            RegWindow::Q4 => "q4",
            RegWindow::L => "l",
            RegWindow::H => "h",
            RegWindow::F => "f",
        }
    }

    /// The window that a suffix names; an unknown suffix names the full register.
    pub fn from_suffix(suffix: &str) -> (w: Self)
        ensures
            w == from_suffix_spec(suffix@),
    {
        if str_equals(suffix, "b1") {
            RegWindow::B1
        } else if str_equals(suffix, "b2") {
            RegWindow::B2
        } else if str_equals(suffix, "b3") {
            RegWindow::B3
        } else if str_equals(suffix, "b4") {
            RegWindow::B4
        } else if str_equals(suffix, "b5") {
            RegWindow::B5
        } else if str_equals(suffix, "b6") {
            RegWindow::B6
        } else if str_equals(suffix, "b7") {
            RegWindow::B7
        } else if str_equals(suffix, "b8") {
            RegWindow::B8
        } else if str_equals(suffix, "q1") {
            RegWindow::Q1
        } else if str_equals(suffix, "q2") {
            RegWindow::Q2
        } else if str_equals(suffix, "q3") {
            RegWindow::Q3
        } else if str_equals(suffix, "q4") {
            RegWindow::Q4
        } else if str_equals(suffix, "l") {
            RegWindow::L
        } else if str_equals(suffix, "h") {
            RegWindow::H
        } else {
            RegWindow::F
        }
    }

    /// The width of this window in bytes.
    pub fn byte_length(&self) -> (n: u64)
        ensures
            n == window_bytes(*self),
    {
        match self {
            RegWindow::Q1 | RegWindow::Q2 | RegWindow::Q3 | RegWindow::Q4 => 2,
            RegWindow::L | RegWindow::H => 4,
            RegWindow::F => 8,
            _ => 1,
        }
    }

    fn shift(&self) -> (s: u64)
        ensures
            s == window_shift(*self),
            s < 64,
    {
        match self {
            RegWindow::B1 => 0,
            RegWindow::B2 => 8,
            RegWindow::B3 => 16,
            RegWindow::B4 => 24,
            RegWindow::B5 => 32,
            RegWindow::B6 => 40,
            RegWindow::B7 => 48,
            RegWindow::B8 => 56,
            RegWindow::Q1 => 0,
            RegWindow::Q2 => 16,
            RegWindow::Q3 => 32,
            RegWindow::Q4 => 48,
            RegWindow::L => 0,
            RegWindow::H => 32,
            RegWindow::F => 0,
        }
    }

    fn mask(&self) -> (m: u64)
        ensures
            m == window_mask(*self),
    {
        match self {
            RegWindow::Q1 | RegWindow::Q2 | RegWindow::Q3 | RegWindow::Q4 => 0xffff,
            RegWindow::L | RegWindow::H => 0xffff_ffff,
            RegWindow::F => 0xffff_ffff_ffff_ffff,
            _ => 0xff,
        }
    }
}

/// Splits a handle into the register index and the window.
pub fn decode_register(code: RegHandle) -> (r: (u8, RegWindow))
    ensures
        r.0 == handle_index(code),
        r.0 < 16,
        r.1 == handle_window(code),
{
    let base = code & 0x0f;
    let sub = (code & 0xf0) >> 4;
    assert(code & 0x0f < 16) by (bit_vector);
    let window = match sub {
        1 => RegWindow::B1,
        2 => RegWindow::B2,
        3 => RegWindow::B3,
        4 => RegWindow::B4,
        5 => RegWindow::B5,
        6 => RegWindow::B6,
        7 => RegWindow::B7,
        8 => RegWindow::B8,
        9 => RegWindow::Q1,
        10 => RegWindow::Q2,
        11 => RegWindow::Q3,
        12 => RegWindow::Q4,
        13 => RegWindow::L,
        14 => RegWindow::H,
        _ => RegWindow::F,
    };
    (base, window)
}

/// One 64-bit register.
#[derive(Clone, Copy)]
pub struct Register {
    base_name: &'static str,
    value: u64,
    code: RegHandle,
    immutable: bool,
}

impl Register {
    pub closed spec fn spec_value(&self) -> u64 {
        self.value
    }

    pub closed spec fn spec_code(&self) -> u8 {
        self.code
    }

    pub closed spec fn spec_immutable(&self) -> bool {
        self.immutable
    }

    pub closed spec fn spec_base_name(&self) -> Seq<char> {
        self.base_name@
    }

    /// A writable register holding the uninitialized pattern.
    pub fn new(name: &'static str, code: RegHandle) -> (r: Self)
        ensures
            r.spec_value() == UNINITIALIZED_REGISTER,
            r.spec_code() == code,
            !r.spec_immutable(),
            r.spec_base_name() == name@,
    {
        Register { base_name: name, value: UNINITIALIZED_REGISTER, code, immutable: false }
    }

    /// The register's name as seen through `window`: the four registers with
    /// the lowest codes have no window suffix.
    pub fn name(&self, window: RegWindow) -> (s: String)
        ensures
            s@ == register_name_spec(self.spec_base_name(), self.spec_code(), window),
    {
        let mut s = String::from_str(self.base_name);
        if (self.code & 0x0f) > 4 {
            s.append(window.to_suffix());
        }
        s
    }

    /// Writes `value` through `window`; an immutable register ignores writes.
    pub fn write(&mut self, window: RegWindow, value: u64)
        ensures
            final(self).spec_code() == old(self).spec_code(),
            final(self).spec_immutable() == old(self).spec_immutable(),
            final(self).spec_base_name() == old(self).spec_base_name(),
            old(self).spec_immutable() ==> final(self).spec_value() == old(self).spec_value(),
            !old(self).spec_immutable() ==> final(self).spec_value() == window_write(
                old(self).spec_value(),
                window,
                value,
            ),
    {
        if !self.immutable {
            let shift = window.shift();
            let mask = window.mask();
            self.value = (self.value & !(mask << shift)) | ((value & mask) << shift);
        }
    }

    /// The value seen through `window`.
    pub fn read(&self, window: RegWindow) -> (v: u64)
        ensures
            v == window_read(self.spec_value(), window),
    {
        let shift = window.shift();
        let mask = window.mask();
        (self.value >> shift) & mask
    }
}

/// A register's name through a window.
pub open spec fn register_name_spec(base: Seq<char>, code: u8, window: RegWindow) -> Seq<char> {
    if (code & 0x0f) <= 4 {
        base
    } else {
        base + suffix_spec(window)
    }
}

/// The base name of the register with index `i`.
pub open spec fn base_name_spec(i: int) -> Seq<char> {
    if i == 0 {
        "null"@
    } else if i == 1 {
        "pc"@
    } else if i == 2 {
        "sp"@
    } else if i == 3 {
        "fp"@
    } else if i == 4 {
        "r1"@
    } else if i == 5 {
        "r2"@
    } else if i == 6 {
        "r3"@
    } else if i == 7 {
        "r4"@
    } else if i == 8 {
        "r5"@
    } else if i == 9 {
        "r6"@
    } else if i == 10 {
        "r7"@
    } else if i == 11 {
        "r8"@
    } else if i == 12 {
        "r9"@
    } else if i == 13 {
        "r10"@
    } else if i == 14 {
        "r11"@
    } else {
        "r12"@
    }
}

/// What reading a handle from register values `regs` gives.
pub open spec fn reg_read(regs: Seq<u64>, handle: u8) -> u64 {
    window_read(regs[handle_index(handle) as int], handle_window(handle))
}

/// Register values after writing `value` through a handle: the null
/// register (index 0) ignores writes.
pub open spec fn reg_write(regs: Seq<u64>, handle: u8, value: u64) -> Seq<u64> {
    let i = handle_index(handle) as int;
    if i == 0 {
        regs
    } else {
        regs.update(i, window_write(regs[i], handle_window(handle), value))
    }
}

/// The weight of the lowest bit of the part of a register that the window
/// nibble `k` of a handle selects: bytes 1 to 8 for nibbles 1 to 8, 16-bit
/// quarters 1 to 4 for nibbles 9 to 12, the low and the high 32-bit halves
/// for 13 and 14, the whole register for 0 and 15.
pub open spec fn window_scale(k: int) -> int {
    if k == 2 {
        0x100
    } else if k == 3 || k == 10 {
        0x1_0000
    } else if k == 4 {
        0x100_0000
    } else if k == 5 || k == 11 || k == 14 {
        0x1_0000_0000
    } else if k == 6 {
        0x100_0000_0000
    } else if k == 7 || k == 12 {
        0x1_0000_0000_0000
    } else if k == 8 {
        0x100_0000_0000_0000
    } else {
        1
    }
}

/// The number of values of the part of a register that the window nibble
/// `k` selects (see `window_scale`).
pub open spec fn window_size(k: int) -> int {
    if 1 <= k <= 8 {
        0x100
    } else if 9 <= k <= 12 {
        0x1_0000
    } else if k == 13 || k == 14 {
        0x1_0000_0000
    } else {
        0x1_0000_0000_0000_0000
    }
}

/// Reading the byte, quarter and half windows by shifts and by division.
proof fn lemma_window_reads(v: u64)
    by (bit_vector)
    ensures
        (v >> 0u64) & 0xff == v % 0x100,
        (v >> 8u64) & 0xff == (v / 0x100) % 0x100,
        (v >> 16u64) & 0xff == (v / 0x1_0000) % 0x100,
        (v >> 24u64) & 0xff == (v / 0x100_0000) % 0x100,
        (v >> 32u64) & 0xff == (v / 0x1_0000_0000) % 0x100,
        (v >> 40u64) & 0xff == (v / 0x100_0000_0000) % 0x100,
        (v >> 48u64) & 0xff == (v / 0x1_0000_0000_0000) % 0x100,
        (v >> 56u64) & 0xff == (v / 0x100_0000_0000_0000) % 0x100,
        (v >> 0u64) & 0xffff == v % 0x1_0000,
        (v >> 16u64) & 0xffff == (v / 0x1_0000) % 0x1_0000,
        (v >> 32u64) & 0xffff == (v / 0x1_0000_0000) % 0x1_0000,
        (v >> 48u64) & 0xffff == (v / 0x1_0000_0000_0000) % 0x1_0000,
        (v >> 0u64) & 0xffff_ffff == v % 0x1_0000_0000,
        (v >> 32u64) & 0xffff_ffff == (v / 0x1_0000_0000) % 0x1_0000_0000,
{
}

/// Writing a byte window by masks and by arithmetic.
proof fn lemma_byte_writes(v: u64, x: u64)
    by (bit_vector)
    ensures
        (v & !(0xffu64 << 0u64)) | ((x & 0xff) << 0u64) == v - (v % 0x100) + (x % 0x100),
        (v & !(0xffu64 << 8u64)) | ((x & 0xff) << 8u64) == v - ((v / 0x100) % 0x100) * 0x100 + (x
            % 0x100) * 0x100,
        (v & !(0xffu64 << 16u64)) | ((x & 0xff) << 16u64) == v - ((v / 0x1_0000) % 0x100)
            * 0x1_0000 + (x % 0x100) * 0x1_0000,
        (v & !(0xffu64 << 24u64)) | ((x & 0xff) << 24u64) == v - ((v / 0x100_0000) % 0x100)
            * 0x100_0000 + (x % 0x100) * 0x100_0000,
{
}

/// Writing a high byte window by masks and by arithmetic.
proof fn lemma_high_byte_writes(v: u64, x: u64)
    by (bit_vector)
    ensures
        (v & !(0xffu64 << 32u64)) | ((x & 0xff) << 32u64) == v - ((v / 0x1_0000_0000) % 0x100)
            * 0x1_0000_0000 + (x % 0x100) * 0x1_0000_0000,
        (v & !(0xffu64 << 40u64)) | ((x & 0xff) << 40u64) == v - ((v / 0x100_0000_0000) % 0x100)
            * 0x100_0000_0000 + (x % 0x100) * 0x100_0000_0000,
        (v & !(0xffu64 << 48u64)) | ((x & 0xff) << 48u64) == v - ((v / 0x1_0000_0000_0000)
            % 0x100) * 0x1_0000_0000_0000 + (x % 0x100) * 0x1_0000_0000_0000,
        (v & !(0xffu64 << 56u64)) | ((x & 0xff) << 56u64) == v - ((v / 0x100_0000_0000_0000)
            % 0x100) * 0x100_0000_0000_0000 + (x % 0x100) * 0x100_0000_0000_0000,
{
}

/// Writing a quarter or half window by masks and by arithmetic.
proof fn lemma_wide_writes(v: u64, x: u64)
    by (bit_vector)
    ensures
        (v & !(0xffffu64 << 0u64)) | ((x & 0xffff) << 0u64) == v - (v % 0x1_0000) + (x
            % 0x1_0000),
        (v & !(0xffffu64 << 16u64)) | ((x & 0xffff) << 16u64) == v - ((v / 0x1_0000) % 0x1_0000)
            * 0x1_0000 + (x % 0x1_0000) * 0x1_0000,
        (v & !(0xffffu64 << 32u64)) | ((x & 0xffff) << 32u64) == v - ((v / 0x1_0000_0000)
            % 0x1_0000) * 0x1_0000_0000 + (x % 0x1_0000) * 0x1_0000_0000,
        (v & !(0xffffu64 << 48u64)) | ((x & 0xffff) << 48u64) == v - ((v / 0x1_0000_0000_0000)
            % 0x1_0000) * 0x1_0000_0000_0000 + (x % 0x1_0000) * 0x1_0000_0000_0000,
        (v & !(0xffff_ffffu64 << 0u64)) | ((x & 0xffff_ffff) << 0u64) == v - (v % 0x1_0000_0000)
            + (x % 0x1_0000_0000),
        (v & !(0xffff_ffffu64 << 32u64)) | ((x & 0xffff_ffff) << 32u64) == v - ((v
            / 0x1_0000_0000) % 0x1_0000_0000) * 0x1_0000_0000 + (x % 0x1_0000_0000)
            * 0x1_0000_0000,
{
}

/// A handle names register `h % 16` through window nibble `h / 16`.
proof fn lemma_handle_parts(h: u8)
    by (bit_vector)
    ensures
        h & 0x0f == h % 16,
        (h & 0xf0) >> 4 == h / 16,
{
}

/// What a handle reads and writes, by arithmetic on the register's value:
/// reading gives the part of the register that the handle's window selects,
/// `(v / scale) % size` with the scale and size of `window_scale` and
/// `window_size`; writing `x` replaces that part with the low part of `x`
/// and keeps the rest of the register, except that the `null` register
/// ignores writes.
#[verifier::spinoff_prover]
pub proof fn law_register_windows(regs: Seq<u64>, h: u8, x: u64)
    requires
        regs.len() == 16,
    ensures
        ({
            let i = (h % 16) as int;
            let k = (h / 16) as int;
            let v = regs[i] as int;
            let scale = window_scale(k);
            let size = window_size(k);
            &&& reg_read(regs, h) == (v / scale) % size
            &&& i == 0 ==> reg_write(regs, h, x) == regs
            &&& i != 0 ==> reg_write(regs, h, x) == regs.update(
                i,
                (v - ((v / scale) % size) * scale + (x as int % size) * scale) as u64,
            )
        }),
{
    lemma_handle_parts(h);
    let i = (h % 16) as int;
    let k = (h / 16) as int;
    let v = regs[i];
    assert(handle_index(h) as int == i);
    assert(handle_window(h) == window_of_nibble(k as u8));
    let w = window_of_nibble(k as u8);
    if k == 0 || k == 15 {
        assert(w == RegWindow::F);
        assert((v >> 0u64) & 0xffff_ffff_ffff_ffffu64 == v) by (bit_vector);
        assert((v & !(0xffff_ffff_ffff_ffffu64 << 0u64)) | ((x & 0xffff_ffff_ffff_ffffu64)
            << 0u64) == x) by (bit_vector);
        assert(v as int / 1 == v as int);
    } else if k <= 8 {
        lemma_window_reads(v);
        if k <= 4 {
            lemma_byte_writes(v, x);
        } else {
            lemma_high_byte_writes(v, x);
        }
    } else {
        lemma_window_reads(v);
        lemma_wide_writes(v, x);
    }
}

/// The sixteen registers: `null` (always zero), `pc`, `sp`, `fp` and
/// `r1` to `r12`.
pub struct CPURegisters {
    registers: [Register; 16],
}

impl View for CPURegisters {
    type V = Seq<u64>;

    closed spec fn view(&self) -> Seq<u64> {
        Seq::new(16, |i: int| if i == 0 { 0 } else { self.registers[i].value })
    }
}

impl CPURegisters {
    #[verifier::type_invariant]
    closed spec fn well_formed(self) -> bool {
        forall|i: int|
            0 <= i < 16 ==> {
                &&& (#[trigger] self.registers[i]).code == i
                &&& self.registers[i].immutable == (i == 0)
                &&& self.registers[i].base_name@ == base_name_spec(i)
                &&& (i == 0 ==> self.registers[i].value == 0)
            }
    }

    /// There are sixteen registers and the first always holds zero.
    pub proof fn lemma_shape(&self)
        ensures
            self@.len() == 16,
            self@[0] == 0,
    {
    }

    /// All registers but `null` hold the uninitialized pattern.
    pub fn new() -> (r: Self)
        ensures
            r@ == Seq::new(16, |i: int| if i == 0 { 0 } else { UNINITIALIZED_REGISTER }),
    {
        let mut null = Register::new("null", 0);
        null.write(RegWindow::F, 0);
        null.immutable = true;
        assert(window_write(UNINITIALIZED_REGISTER, RegWindow::F, 0) == 0) by {
            assert(((0xfdfdfdfdfdfdfdfdu64 & !(0xffff_ffff_ffff_ffffu64 << 0u64)) | ((0u64
                & 0xffff_ffff_ffff_ffffu64) << 0u64)) == 0) by (bit_vector);
        }
        let registers = [
            null,
            Register::new("pc", 1),
            Register::new("sp", 2),
            Register::new("fp", 3),
            Register::new("r1", 4),
            Register::new("r2", 5),
            Register::new("r3", 6),
            Register::new("r4", 7),
            Register::new("r5", 8),
            Register::new("r6", 9),
            Register::new("r7", 10),
            Register::new("r8", 11),
            Register::new("r9", 12),
            Register::new("r10", 13),
            Register::new("r11", 14),
            Register::new("r12", 15),
        ];
        let r = CPURegisters { registers };
        assert(r@ =~= Seq::new(16, |i: int| if i == 0 { 0 } else { UNINITIALIZED_REGISTER }));
        r
    }

    /// The value that a handle reads.
    pub fn read(&self, register_handle: RegHandle) -> (v: u64)
        ensures
            v == reg_read(self@, register_handle),
    {
        proof {
            use_type_invariant(self);
        }
        let (idx, window) = decode_register(register_handle);
        self.registers[idx as usize].read(window)
    }

    /// Writes `value` through a handle.
    pub fn write(&mut self, register_handle: RegHandle, value: u64)
        ensures
            final(self)@ == reg_write(old(self)@, register_handle, value),
    {
        proof {
            use_type_invariant(&*self);
        }
        let (idx, window) = decode_register(register_handle);
        let mut r = self.registers[idx as usize];
        r.write(window, value);
        self.registers[idx as usize] = r;
        assert(self@ =~= reg_write(old(self)@, register_handle, value));
    }

    /// The name of the register window that a handle reads.
    pub fn name(&self, register_handle: RegHandle) -> (s: String)
        ensures
            s@ == register_name_spec(
                base_name_spec(handle_index(register_handle) as int),
                handle_index(register_handle),
                handle_window(register_handle),
            ),
    {
        proof {
            use_type_invariant(self);
        }
        let (idx, window) = decode_register(register_handle);
        self.registers[idx as usize].name(window)
    }

    /// The width in bytes of the window that a handle names.
    pub fn get_bytelength(&self, register_handle: RegHandle) -> (n: u64)
        ensures
            n == window_bytes(handle_window(register_handle)),
    {
        let (_, window) = decode_register(register_handle);
        window.byte_length()
    }
}

/// Reading a window right after writing `x` through it gives the low bits
/// of `x` that fit the window.
pub proof fn law_window_write_read(v: u64, w: RegWindow, x: u64)
    ensures
        window_read(window_write(v, w, x), w) == x & window_mask(w),
{
    let s = window_shift(w);
    let m = window_mask(w);
    match w {
        RegWindow::F => {
            assert((((v & !(0xffff_ffff_ffff_ffffu64 << 0u64)) | ((x & 0xffff_ffff_ffff_ffffu64)
                << 0u64)) >> 0u64) & 0xffff_ffff_ffff_ffffu64 == x & 0xffff_ffff_ffff_ffffu64)
                by (bit_vector);
        },
        RegWindow::L | RegWindow::H => {
            assert((((v & !(m << s)) | ((x & m) << s)) >> s) & m == x & m) by (bit_vector)
                requires
                    m == 0xffff_ffffu64,
                    s == 0 || s == 32,
            ;
        },
        RegWindow::Q1 | RegWindow::Q2 | RegWindow::Q3 | RegWindow::Q4 => {
            assert((((v & !(m << s)) | ((x & m) << s)) >> s) & m == x & m) by (bit_vector)
                requires
                    m == 0xffffu64,
                    s == 0 || s == 16 || s == 32 || s == 48,
            ;
        },
        _ => {
            assert((((v & !(m << s)) | ((x & m) << s)) >> s) & m == x & m) by (bit_vector)
                requires
                    m == 0xffu64,
                    s <= 56,
            ;
        },
    }
}

/// Writing one byte window of a register leaves every other byte window as
/// it was.
pub proof fn law_byte_window_frame(v: u64, w1: RegWindow, w2: RegWindow, x: u64)
    requires
        window_mask(w1) == 0xff,
        window_mask(w2) == 0xff,
        w1 != w2,
    ensures
        window_read(window_write(v, w1, x), w2) == window_read(v, w2),
{
    let s1 = window_shift(w1);
    let s2 = window_shift(w2);
    assert(s1 != s2);
    assert(s1 <= 56 && s2 <= 56 && s1 % 8 == 0 && s2 % 8 == 0);
    assert((((v & !(0xffu64 << s1)) | ((x & 0xffu64) << s1)) >> s2) & 0xffu64 == (v >> s2)
        & 0xffu64) by (bit_vector)
        requires
            s1 != s2,
            s1 <= 56,
            s2 <= 56,
            s1 % 8 == 0,
            s2 % 8 == 0,
    ;
}

/// The null register reads zero through every window, whatever was written.
pub proof fn law_null_register_reads_zero(regs: Seq<u64>, handle: u8, value: u64, w: RegWindow)
    requires
        regs.len() == 16,
        regs[0] == 0,
        handle_index(handle) == 0,
    ensures
        reg_write(regs, handle, value) == regs,
        window_read(regs[0], w) == 0,
{
    let s = window_shift(w);
    let m = window_mask(w);
    assert((0u64 >> s) & m == 0) by (bit_vector);
}

/// Each window's suffix names that window again.
pub proof fn law_suffix_roundtrip(w: RegWindow)
    ensures
        from_suffix_spec(suffix_spec(w)) == w,
{
    reveal_strlit("b1");
    reveal_strlit("b2");
    reveal_strlit("b3");
    reveal_strlit("b4");
    reveal_strlit("b5");
    reveal_strlit("b6");
    reveal_strlit("b7");
    reveal_strlit("b8");
    reveal_strlit("q1");
    reveal_strlit("q2");
    reveal_strlit("q3");
    reveal_strlit("q4");
    reveal_strlit("l");
    reveal_strlit("h");
    reveal_strlit("f");
    assert("b1"@.len() == 2 && "b1"@[0] == 'b' && "b1"@[1] == '1');
    assert("b2"@.len() == 2 && "b2"@[0] == 'b' && "b2"@[1] == '2');
    assert("b3"@.len() == 2 && "b3"@[0] == 'b' && "b3"@[1] == '3');
    assert("b4"@.len() == 2 && "b4"@[0] == 'b' && "b4"@[1] == '4');
    assert("b5"@.len() == 2 && "b5"@[0] == 'b' && "b5"@[1] == '5');
    assert("b6"@.len() == 2 && "b6"@[0] == 'b' && "b6"@[1] == '6');
    assert("b7"@.len() == 2 && "b7"@[0] == 'b' && "b7"@[1] == '7');
    assert("b8"@.len() == 2 && "b8"@[0] == 'b' && "b8"@[1] == '8');
    assert("q1"@.len() == 2 && "q1"@[0] == 'q' && "q1"@[1] == '1');
    assert("q2"@.len() == 2 && "q2"@[0] == 'q' && "q2"@[1] == '2');
    assert("q3"@.len() == 2 && "q3"@[0] == 'q' && "q3"@[1] == '3');
    assert("q4"@.len() == 2 && "q4"@[0] == 'q' && "q4"@[1] == '4');
    assert("l"@.len() == 1 && "l"@[0] == 'l');
    assert("h"@.len() == 1 && "h"@[0] == 'h');
    assert("f"@.len() == 1 && "f"@[0] == 'f');
}

} // verus!
