use nisvc::mmio::{
    cell_size, glyph_for, map_grid_coord, mmio_read_handler, mmio_write_handler, read_key,
    translate_key, Cursor, Direction, DisplayAction, Key, KeyModifier,
};

#[test]
fn cursor_moves_within_the_row() {
    let mut c = Cursor::new(3, 10);
    assert_eq!(c.to_tuple(), (0, 0));
    c.right();
    assert_eq!(c.to_tuple(), (1, 0));
    c.right();
    c.right();
    assert_eq!(c.to_tuple(), (0, 1));
    c.left();
    assert_eq!(c.to_tuple(), (0, 0));
    c.set(2, 5);
    c.left();
    assert_eq!(c.to_tuple(), (1, 5));
    c.up();
    assert_eq!(c.to_tuple(), (1, 6));
    c.down();
    c.down();
    assert_eq!(c.to_tuple(), (1, 4));
    c.new_line();
    assert_eq!(c.to_tuple(), (0, 5));
}

#[test]
fn cursor_saturates() {
    let mut c = Cursor::new(4, 4);
    c.down();
    assert_eq!(c.to_tuple(), (0, 0));
    c.set(0, u32::MAX);
    c.up();
    assert_eq!(c.to_tuple(), (0, u32::MAX));
    c.step(Direction::Down);
    assert_eq!(c.to_tuple(), (0, u32::MAX - 1));
    c.step(Direction::Right);
    assert_eq!(c.to_tuple(), (1, u32::MAX - 1));
}

#[test]
fn display_writes() {
    assert_eq!(mmio_write_handler(0x1, 0), DisplayAction::Hide);
    assert_eq!(mmio_write_handler(0x1, 1), DisplayAction::Show);
    assert_eq!(mmio_write_handler(0x1, 2), DisplayAction::Refresh);
    assert_eq!(mmio_write_handler(0x1, 3), DisplayAction::Nothing);
    assert_eq!(mmio_write_handler(0x2, 7), DisplayAction::SetCursorX(7));
    assert_eq!(mmio_write_handler(0x3, 9), DisplayAction::SetCursorY(9));
    assert_eq!(mmio_write_handler(0x4, 0), DisplayAction::MoveCursor(Direction::Left));
    assert_eq!(mmio_write_handler(0x4, 1), DisplayAction::MoveCursor(Direction::Right));
    assert_eq!(mmio_write_handler(0x4, 2), DisplayAction::MoveCursor(Direction::Up));
    assert_eq!(mmio_write_handler(0x4, 3), DisplayAction::MoveCursor(Direction::Down));
    assert_eq!(mmio_write_handler(0x4, 4), DisplayAction::Nothing);
    assert_eq!(mmio_write_handler(0x5, 0), DisplayAction::Nothing);
    assert_eq!(mmio_write_handler(0x5, 10), DisplayAction::NewLine);
    assert_eq!(mmio_write_handler(0x5, b'A'), DisplayAction::WriteAtCursor(b'A'));
    assert_eq!(mmio_write_handler(0x9, 1), DisplayAction::Nothing);
}

#[test]
fn display_reads() {
    assert!(mmio_read_handler(0));
    assert!(!mmio_read_handler(1));
}

#[test]
fn key_stack_pops_the_latest_key() {
    let mut keys = vec![b'a', b'b'];
    assert_eq!(read_key(&mut keys), b'b');
    assert_eq!(read_key(&mut keys), b'a');
    assert_eq!(read_key(&mut keys), 0);
    assert!(keys.is_empty());
}

#[test]
fn keys_translate() {
    assert_eq!(translate_key(Key::Named('A'), KeyModifier::NoModifier), Some(b'a'));
    assert_eq!(translate_key(Key::Named('A'), KeyModifier::LeftShift), Some(b'A'));
    assert_eq!(translate_key(Key::Named('1'), KeyModifier::LeftShift), Some(b'!'));
    assert_eq!(translate_key(Key::Named('0'), KeyModifier::LeftShift), Some(b')'));
    assert_eq!(translate_key(Key::Named('/'), KeyModifier::LeftShift), Some(b'?'));
    assert_eq!(translate_key(Key::Named('['), KeyModifier::LeftShift), Some(b'{'));
    assert_eq!(translate_key(Key::Named('7'), KeyModifier::Other), Some(b'7'));
    assert_eq!(translate_key(Key::Return, KeyModifier::NoModifier), Some(b'\n'));
    assert_eq!(translate_key(Key::Backspace, KeyModifier::NoModifier), Some(8));
    assert_eq!(translate_key(Key::Tab, KeyModifier::NoModifier), Some(b'\t'));
    assert_eq!(translate_key(Key::Space, KeyModifier::LeftShift), Some(b' '));
    assert_eq!(translate_key(Key::Left, KeyModifier::NoModifier), Some(128));
    assert_eq!(translate_key(Key::Down, KeyModifier::NoModifier), Some(131));
    assert_eq!(translate_key(Key::LShift, KeyModifier::LeftShift), None);
    assert_eq!(translate_key(Key::RShift, KeyModifier::NoModifier), None);
}

#[test]
fn glyphs() {
    assert_eq!(glyph_for(b'a'), 'a');
    assert_eq!(glyph_for(b' '), ' ');
    assert_eq!(glyph_for(b'\n'), '\n');
    assert_eq!(glyph_for(0x7f), '?');
    assert_eq!(glyph_for(200), '?');
    assert_eq!(glyph_for(1), '?');
}

#[test]
fn text_cells() {
    assert_eq!(cell_size(400, 300, 40, 30), (10, 16));
    assert_eq!(map_grid_coord((3, 2), 10, 16), (30, 32));
}

#[test]
fn greyscale_palette() {
    let palette = nisvc::gpu::build_palette_8bpp_greyscale();
    assert_eq!(palette.len(), 256);
    assert_eq!(palette[0], (0, 0, 0));
    assert_eq!(palette[128], (128, 128, 128));
    assert_eq!(palette[255], (255, 255, 255));
}
