use nisvc::error::ExecutionError;
use nisvc::registers::{decode_register, str_equals, CPURegisters, RegWindow, Register};

#[test]
fn handles_decode_into_index_and_window() {
    assert_eq!(decode_register(0x04), (4, RegWindow::F));
    assert_eq!(decode_register(0x14), (4, RegWindow::B1));
    assert_eq!(decode_register(0x85), (5, RegWindow::B8));
    assert_eq!(decode_register(0x96), (6, RegWindow::Q1));
    assert_eq!(decode_register(0xc7), (7, RegWindow::Q4));
    assert_eq!(decode_register(0xd8), (8, RegWindow::L));
    assert_eq!(decode_register(0xe9), (9, RegWindow::H));
    assert_eq!(decode_register(0xf9), (9, RegWindow::F));
}

#[test]
fn suffixes_round_trip() {
    for w in [RegWindow::B1, RegWindow::B8, RegWindow::Q2, RegWindow::L, RegWindow::H, RegWindow::F] {
        assert_eq!(RegWindow::from_suffix(w.to_suffix()), w);
    }
    assert_eq!(RegWindow::B3.to_suffix(), "b3");
    assert_eq!(RegWindow::from_suffix("zz"), RegWindow::F);
    assert_eq!(RegWindow::Q3.byte_length(), 2);
    assert_eq!(RegWindow::L.byte_length(), 4);
    assert_eq!(RegWindow::F.byte_length(), 8);
    assert_eq!(RegWindow::B5.byte_length(), 1);
}

#[test]
fn register_names() {
    let regs = CPURegisters::new();
    assert_eq!(regs.name(0x01), "pc");
    assert_eq!(regs.name(0x04), "r1");
    assert_eq!(regs.name(0x14), "r1");
    assert_eq!(regs.name(0x05), "r2f");
    assert_eq!(regs.name(0x15), "r2b1");
    assert_eq!(regs.name(0xd5), "r2l");
    assert_eq!(regs.name(0x12), "sp");
    assert_eq!(regs.get_bytelength(0x94), 2);
    assert_eq!(regs.get_bytelength(0x04), 8);
}

#[test]
fn register_windows() {
    let mut r = Register::new("r2", 5);
    assert_eq!(r.read(RegWindow::F), 0xfdfd_fdfd_fdfd_fdfd);
    r.write(RegWindow::F, 0);
    r.write(RegWindow::B2, 0x1ab);
    assert_eq!(r.read(RegWindow::F), 0xab00);
    assert_eq!(r.read(RegWindow::B2), 0xab);
    assert_eq!(r.read(RegWindow::B1), 0);
    assert_eq!(r.name(RegWindow::H), "r2h");
}

#[test]
fn the_null_register_ignores_writes() {
    let mut regs = CPURegisters::new();
    regs.write(0x00, 55);
    regs.write(0x10, 55);
    assert_eq!(regs.read(0x00), 0);
    assert_eq!(regs.read(0xf0), 0);
}

#[test]
fn string_equality() {
    assert!(str_equals("abc", "abc"));
    assert!(!str_equals("abc", "abd"));
    assert!(!str_equals("ab", "abc"));
    assert!(str_equals("", ""));
}

#[test]
fn errors_carry_text() {
    let e = ExecutionError::new("disk".to_string());
    assert_eq!(e, ExecutionError::Message { text: "disk".to_string() });
    let p = e.prepend("open: ".to_string());
    assert_eq!(
        p,
        ExecutionError::Prefixed {
            prelude: "open: ".to_string(),
            inner: Box::new(ExecutionError::Message { text: "disk".to_string() })
        }
    );
}

#[test]
fn registers_are_found_by_name() {
    let regs = CPURegisters::new();
    assert_eq!(regs.find_handle("null"), Some(0x00));
    assert_eq!(regs.find_handle("pc"), Some(0x01));
    assert_eq!(regs.find_handle("r1"), Some(0x04));
    assert_eq!(regs.find_handle("r2l"), Some(0xd5));
    assert_eq!(regs.find_handle("zz"), None);
}
