use vstd::prelude::*;

verus! {

/// A direction the text cursor moves in.
#[derive(Clone, Copy, Debug, PartialEq, Eq, Structural)]
pub enum Direction {
    Up,
    Down,
    Left,
    Right,
}

/// The text cursor: a column and a row, and the number of columns and rows.
#[derive(Clone, Copy, Debug, PartialEq, Eq, Structural)]
pub struct Cursor {
    pub x: u32,
    pub y: u32,
    pub x_bound: u32,
    pub y_bound: u32,
}

/// `x - 1`, or 0 at 0.
pub open spec fn sat_dec(x: u32) -> u32 {
    if x == 0 {
        0
    } else {
        (x - 1) as u32
    }
}

/// `x + 1`, or the largest value at the largest value.
pub open spec fn sat_inc(x: u32) -> u32 {
    if x == u32::MAX {
        u32::MAX
    } else {
        (x + 1) as u32
    }
}

/// Saturating steps: a step up and a step down undo each other away from
/// the ends, a step up goes one further below the largest value, a step
/// down one back above 0, and the ends stay where they are.
pub proof fn law_saturating_steps(x: u32)
    ensures
        x < u32::MAX ==> sat_inc(x) == x + 1 && sat_dec(sat_inc(x)) == x,
        x > 0 ==> sat_dec(x) == x - 1 && sat_inc(sat_dec(x)) == x,
        sat_inc(u32::MAX) == u32::MAX,
        sat_dec(0) == 0,
{
}

impl Cursor {
    /// The cursor at column 0, row 0.
    pub fn new(x_bound: u32, y_bound: u32) -> (c: Self)
        ensures
            c == (Cursor { x: 0, y: 0, x_bound, y_bound }),
    {
        Cursor { x: 0, y: 0, x_bound, y_bound }
    }

    /// The column and the row.
    pub fn to_tuple(&self) -> (t: (u32, u32))
        ensures
            t == (self.x, self.y),
    {
        (self.x, self.y)
    }

    /// Moves the cursor to column `x`, row `y`.
    pub fn set(&mut self, x: u32, y: u32)
        ensures
            *final(self) == (Cursor { x, y, ..*old(self) }),
    {
        self.x = x;
        self.y = y;
    }

    /// One column back, within the row width; reaching column 0 moves up a
    /// row.
    pub fn left(&mut self)
        requires
            old(self).x_bound > 0,
        ensures
            final(self).x == sat_dec(old(self).x) % old(self).x_bound,
            final(self).y == (if final(self).x == 0 {
                sat_dec(old(self).y)
            } else {
                old(self).y
            }),
            final(self).x_bound == old(self).x_bound,
            final(self).y_bound == old(self).y_bound,
    {
        self.x = (self.x.saturating_sub(1)) % self.x_bound;
        if self.x == 0 {
            self.y = self.y.saturating_sub(1);
        }
    }

    /// One column on, within the row width; wrapping to column 0 moves down
    /// a row.
    pub fn right(&mut self)
        requires
            old(self).x_bound > 0,
        ensures
            final(self).x == sat_inc(old(self).x) % old(self).x_bound,
            final(self).y == (if final(self).x == 0 {
                sat_inc(old(self).y)
            } else {
                old(self).y
            }),
            final(self).x_bound == old(self).x_bound,
            final(self).y_bound == old(self).y_bound,
    {
        self.x = (self.x.saturating_add(1)) % self.x_bound;
        if self.x == 0 {
            self.y = self.y.saturating_add(1);
        }
    }

    /// One row on.
    pub fn up(&mut self)
        ensures
            *final(self) == (Cursor { y: sat_inc(old(self).y), ..*old(self) }),
    {
        self.y = self.y.saturating_add(1);
    }

    /// One row back.
    pub fn down(&mut self)
        ensures
            *final(self) == (Cursor { y: sat_dec(old(self).y), ..*old(self) }),
    {
        self.y = self.y.saturating_sub(1);
    }

    /// The start of the next row.
    pub fn new_line(&mut self)
        requires
            old(self).y < u32::MAX,
        ensures
            *final(self) == (Cursor { x: 0, y: (old(self).y + 1) as u32, ..*old(self) }),
    {
        self.x = 0;
        self.y = self.y + 1;
    }

    /// Moves one step in `direction`.
    pub fn step(&mut self, direction: Direction)
        requires
            old(self).x_bound > 0,
        ensures
            direction == Direction::Up ==> *final(self) == (Cursor {
                y: sat_inc(old(self).y),
                ..*old(self)
            }),
            direction == Direction::Down ==> *final(self) == (Cursor {
                y: sat_dec(old(self).y),
                ..*old(self)
            }),
            direction == Direction::Left ==> final(self).x == sat_dec(old(self).x)
                % old(self).x_bound && final(self).y == (if final(self).x == 0 {
                sat_dec(old(self).y)
            } else {
                old(self).y
            }),
            direction == Direction::Right ==> final(self).x == sat_inc(old(self).x)
                % old(self).x_bound && final(self).y == (if final(self).x == 0 {
                sat_inc(old(self).y)
            } else {
                old(self).y
            }),
            final(self).x_bound == old(self).x_bound,
            final(self).y_bound == old(self).y_bound,
    {
        match direction {
            Direction::Up => self.up(),
            Direction::Down => self.down(),
            Direction::Left => self.left(),
            Direction::Right => self.right(),
        }
    }
}

/// What a byte written to a display address asks of the display.
#[derive(Clone, Copy, Debug, PartialEq, Eq, Structural)]
pub enum DisplayAction {
    Hide,
    Show,
    Refresh,
    SetCursorX(u32),
    SetCursorY(u32),
    MoveCursor(Direction),
    NewLine,
    WriteAtCursor(u8),
    Nothing,
}

/// The display's memory-mapped addresses: `0x1` controls the window (0
/// hide, 1 show, 2 refresh), `0x2` and `0x3` set the cursor's column and
/// row, `0x4` moves the cursor (0 left, 1 right, 2 up, 3 down), and `0x5`
/// writes a character at the cursor (10 starts a new line, 0 is ignored).
pub open spec fn mmio_write_spec(address: u64, byte: u8) -> DisplayAction {
    if address == 0x1 {
        if byte == 0 {
            DisplayAction::Hide
        } else if byte == 1 {
            DisplayAction::Show
        } else if byte == 2 {
            DisplayAction::Refresh
        } else {
            DisplayAction::Nothing
        }
    } else if address == 0x2 {
        DisplayAction::SetCursorX(byte as u32)
    } else if address == 0x3 {
        DisplayAction::SetCursorY(byte as u32)
    } else if address == 0x4 {
        if byte == 0 {
            DisplayAction::MoveCursor(Direction::Left)
        } else if byte == 1 {
            DisplayAction::MoveCursor(Direction::Right)
        } else if byte == 2 {
            DisplayAction::MoveCursor(Direction::Up)
        } else if byte == 3 {
            DisplayAction::MoveCursor(Direction::Down)
        } else {
            DisplayAction::Nothing
        }
    } else if address == 0x5 {
        if byte == 0 {
            DisplayAction::Nothing
        } else if byte == 10 {
            DisplayAction::NewLine
        } else {
            DisplayAction::WriteAtCursor(byte)
        }
    } else {
        DisplayAction::Nothing
    }
}

/// The display's addresses: writing to `0x1` hides (0), shows (1) or
/// refreshes (2) the window; `0x2` and `0x3` set the cursor's column and
/// row to the byte; `0x4` moves the cursor left (0), right (1), up (2) or
/// down (3); `0x5` writes the byte at the cursor, a 10 starting a new line
/// and a 0 doing nothing; any other byte or address does nothing.
pub proof fn law_display_addresses(address: u64, byte: u8)
    ensures
        address == 0x1 ==> mmio_write_spec(address, byte) == (if byte == 0 {
            DisplayAction::Hide
        } else if byte == 1 {
            DisplayAction::Show
        } else if byte == 2 {
            DisplayAction::Refresh
        } else {
            DisplayAction::Nothing
        }),
        address == 0x2 ==> mmio_write_spec(address, byte) == DisplayAction::SetCursorX(
            byte as u32,
        ),
        address == 0x3 ==> mmio_write_spec(address, byte) == DisplayAction::SetCursorY(
            byte as u32,
        ),
        address == 0x4 && byte == 0 ==> mmio_write_spec(address, byte) == DisplayAction::MoveCursor(
            Direction::Left,
        ),
        address == 0x4 && byte == 1 ==> mmio_write_spec(address, byte) == DisplayAction::MoveCursor(
            Direction::Right,
        ),
        address == 0x4 && byte == 2 ==> mmio_write_spec(address, byte) == DisplayAction::MoveCursor(
            Direction::Up,
        ),
        address == 0x4 && byte == 3 ==> mmio_write_spec(address, byte) == DisplayAction::MoveCursor(
            Direction::Down,
        ),
        address == 0x4 && byte > 3 ==> mmio_write_spec(address, byte) == DisplayAction::Nothing,
        address == 0x5 && byte != 0 && byte != 10 ==> mmio_write_spec(address, byte)
            == DisplayAction::WriteAtCursor(byte),
        address == 0x5 && byte == 10 ==> mmio_write_spec(address, byte) == DisplayAction::NewLine,
        address == 0x5 && byte == 0 ==> mmio_write_spec(address, byte) == DisplayAction::Nothing,
        address == 0 || address > 5 ==> mmio_write_spec(address, byte) == DisplayAction::Nothing,
{
}

/// What writing `byte` to the display address `address` asks of the display.
pub fn mmio_write_handler(address: u64, byte: u8) -> (a: DisplayAction)
    ensures
        a == mmio_write_spec(address, byte),
{
    match address {
        0x1 => match byte {
            0 => DisplayAction::Hide,
            1 => DisplayAction::Show,
            2 => DisplayAction::Refresh,
            _ => DisplayAction::Nothing,
        },
        0x2 => DisplayAction::SetCursorX(byte as u32),
        0x3 => DisplayAction::SetCursorY(byte as u32),
        0x4 => match byte {
            0 => DisplayAction::MoveCursor(Direction::Left),
            1 => DisplayAction::MoveCursor(Direction::Right),
            2 => DisplayAction::MoveCursor(Direction::Up),
            3 => DisplayAction::MoveCursor(Direction::Down),
            _ => DisplayAction::Nothing,
        },
        0x5 => {
            if byte == 0 {
                DisplayAction::Nothing
            } else if byte == 10 {
                DisplayAction::NewLine
            } else {
                DisplayAction::WriteAtCursor(byte)
            }
        },
        _ => DisplayAction::Nothing,
    }
}

/// Whether reading display address `address` reads the keyboard: only
/// address 0 does; every other address reads 0.
pub fn mmio_read_handler(address: u64) -> (reads_key: bool)
    ensures
        reads_key == (address == 0),
{
    address == 0
}

/// The key most recently pressed, taken off the stack of pressed keys; 0
/// when no key is waiting.
pub fn read_key(key_stack: &mut Vec<u8>) -> (k: u8)
    ensures
        old(key_stack)@.len() == 0 ==> k == 0 && final(key_stack)@ == old(key_stack)@,
        old(key_stack)@.len() > 0 ==> k == old(key_stack)@.last() && final(key_stack)@ == old(
            key_stack,
        )@.drop_last(),
{
    match key_stack.pop() {
        Some(k) => k,
        None => 0,
    }
}

/// A key, as the keyboard reports it: a few named keys, or the first
/// character of the key's name.
#[derive(Clone, Copy, Debug, PartialEq, Eq, Structural)]
pub enum Key {
    Backspace,
    Return,
    LShift,
    RShift,
    Tab,
    Space,
    Left,
    Right,
    Up,
    Down,
    Named(char),
}

/// The modifiers held with a key.
#[derive(Clone, Copy, Debug, PartialEq, Eq, Structural)]
pub enum KeyModifier {
    LeftShift,
    NoModifier,
    Other,
}

/// `c` in lower case where it is an upper-case ASCII letter.
pub open spec fn ascii_lower(c: char) -> char {
    if 'A' <= c <= 'Z' {
        ((c as u32) + 32) as char
    } else {
        c
    }
}

/// `c` in upper case where it is a lower-case ASCII letter.
pub open spec fn ascii_upper(c: char) -> char {
    if 'a' <= c <= 'z' {
        ((c as u32) - 32) as char
    } else {
        c
    }
}

/// The character a key stands for before modifiers; the shift keys stand
/// for none.  The arrow keys are the codes 128 to 131.
pub open spec fn key_char_spec(key: Key) -> Option<char> {
    match key {
        Key::Backspace => Some('\x08'),
        Key::Return => Some('\n'),
        Key::LShift => None,
        Key::RShift => None,
        Key::Tab => Some('\t'),
        Key::Space => Some(' '),
        Key::Left => Some(128u32 as char),
        Key::Right => Some(129u32 as char),
        Key::Up => Some(130u32 as char),
        Key::Down => Some(131u32 as char),
        Key::Named(c) => Some(ascii_lower(c)),
    }
}

/// The character a key gives with the left shift held: the shifted
/// punctuation and digits of a US keyboard, and upper-case letters.
pub open spec fn shifted_spec(c: char) -> char {
    if c == '/' {
        '?'
    } else if c == ',' {
        '<'
    } else if c == '.' {
        '>'
    } else if c == ';' {
        ':'
    } else if c == '\'' {
        '"'
    } else if c == '[' {
        '{'
    } else if c == ']' {
        '}'
    } else if c == '-' {
        '_'
    } else if c == '=' {
        '+'
    } else if c == '\\' {
        '|'
    } else if c == '`' {
        '~'
    } else if c == '1' {
        '!'
    } else if c == '2' {
        '@'
    } else if c == '3' {
        '#'
    } else if c == '4' {
        '$'
    } else if c == '5' {
        '%'
    } else if c == '6' {
        '^'
    } else if c == '7' {
        '&'
    } else if c == '8' {
        '*'
    } else if c == '9' {
        '('
    } else if c == '0' {
        ')'
    } else {
        ascii_upper(c)
    }
}

/// The byte that a key press puts on the key stack, if any: the key's
/// character, shifted with the left shift, and then truncated to a byte.
pub open spec fn translate_key_spec(key: Key, modifier: KeyModifier) -> Option<u8> {
    match key_char_spec(key) {
        None => None,
        Some(c) => {
            let m = if modifier == KeyModifier::LeftShift {
                shifted_spec(c)
            } else {
                c
            };
            Some(m as u8)
        },
    }
}

/// The named keys give fixed codes whatever the modifier: backspace 8,
/// return 10, tab 9, space 32, and the arrows left 128, right 129, up 130
/// and down 131; a shift key alone gives nothing.
pub proof fn law_special_keys(m: KeyModifier)
    ensures
        translate_key_spec(Key::Backspace, m) == Some(8u8),
        translate_key_spec(Key::Return, m) == Some(10u8),
        translate_key_spec(Key::Tab, m) == Some(9u8),
        translate_key_spec(Key::Space, m) == Some(32u8),
        translate_key_spec(Key::Left, m) == Some(128u8),
        translate_key_spec(Key::Right, m) == Some(129u8),
        translate_key_spec(Key::Up, m) == Some(130u8),
        translate_key_spec(Key::Down, m) == Some(131u8),
        translate_key_spec(Key::LShift, m) is None,
        translate_key_spec(Key::RShift, m) is None,
{
}

/// A key named by an ASCII character gives that character's code, in lower
/// case for a letter, without the left shift; with the left shift a letter
/// gives its upper-case code and the digits and punctuation of a US keyboard
/// give their shifted characters.
pub proof fn law_character_keys(c: char)
    requires
        (c as u32) < 128,
    ensures
        forall|m: KeyModifier|
            m != KeyModifier::LeftShift ==> #[trigger] translate_key_spec(Key::Named(c), m) == Some(
                (if 'A' <= c <= 'Z' {
                    c as u32 + 32
                } else {
                    c as u32 as int
                }) as u8,
            ),
        ({
            let shifted = translate_key_spec(Key::Named(c), KeyModifier::LeftShift);
            &&& ('a' <= c <= 'z') ==> shifted == Some((c as u32 - 32) as u8)
            &&& ('A' <= c <= 'Z') ==> shifted == Some(c as u8)
            &&& c == '1' ==> shifted == Some(33u8)
            &&& c == '2' ==> shifted == Some(64u8)
            &&& c == '3' ==> shifted == Some(35u8)
            &&& c == '4' ==> shifted == Some(36u8)
            &&& c == '5' ==> shifted == Some(37u8)
            &&& c == '6' ==> shifted == Some(94u8)
            &&& c == '7' ==> shifted == Some(38u8)
            &&& c == '8' ==> shifted == Some(42u8)
            &&& c == '9' ==> shifted == Some(40u8)
            &&& c == '0' ==> shifted == Some(41u8)
            &&& c == '/' ==> shifted == Some(63u8)
            &&& c == ',' ==> shifted == Some(60u8)
            &&& c == '.' ==> shifted == Some(62u8)
            &&& c == ';' ==> shifted == Some(58u8)
            &&& c == '\'' ==> shifted == Some(34u8)
            &&& c == '[' ==> shifted == Some(123u8)
            &&& c == ']' ==> shifted == Some(125u8)
            &&& c == '-' ==> shifted == Some(95u8)
            &&& c == '=' ==> shifted == Some(43u8)
            &&& c == '\\' ==> shifted == Some(124u8)
            &&& c == '`' ==> shifted == Some(126u8)
        }),
{
}

/// `char::to_ascii_lowercase`, for what it does to ASCII letters.
fn to_lower(c: char) -> (r: char)
    ensures
        r == ascii_lower(c),
{
    if 'A' <= c && c <= 'Z' {
        ((c as u8) + 32) as char
    } else {
        c
    }
}

/// `char::to_ascii_uppercase`, for what it does to ASCII letters.
fn to_upper(c: char) -> (r: char)
    ensures
        r == ascii_upper(c),
{
    if 'a' <= c && c <= 'z' {
        ((c as u8) - 32) as char
    } else {
        c
    }
}

/// The character of a key with the left shift held.
fn shifted(c: char) -> (r: char)
    ensures
        r == shifted_spec(c),
{
    match c {
        '/' => '?',
        ',' => '<',
        '.' => '>',
        ';' => ':',
        '\'' => '"',
        '[' => '{',
        ']' => '}',
        '-' => '_',
        '=' => '+',
        '\\' => '|',
        '`' => '~',
        '1' => '!',
        '2' => '@',
        '3' => '#',
        '4' => '$',
        '5' => '%',
        '6' => '^',
        '7' => '&',
        '8' => '*',
        '9' => '(',
        '0' => ')',
        _ => to_upper(c),
    }
}

/// The byte that pressing `key` with `modifier` puts on the key stack;
/// `None` for a shift key alone.
pub fn translate_key(key: Key, modifier: KeyModifier) -> (r: Option<u8>)
    ensures
        r == translate_key_spec(key, modifier),
{
    let c = match key {
        Key::Backspace => '\x08',
        Key::Return => '\n',
        Key::LShift => {
            return None;
        },
        Key::RShift => {
            return None;
        },
        Key::Tab => '\t',
        Key::Space => ' ',
        Key::Left => 128u8 as char,
        Key::Right => 129u8 as char,
        Key::Up => 130u8 as char,
        Key::Down => 131u8 as char,
        Key::Named(n) => to_lower(n),
    };
    let m = match modifier {
        KeyModifier::LeftShift => shifted(c),
        _ => c,
    };
    Some(m as u8)
}

/// The glyph drawn for character code `code`: the character itself where it
/// is printable ASCII or ASCII white space, `?` otherwise.
pub fn glyph_for(code: u8) -> (c: char)
    ensures
        c == (if (0x21 <= code <= 0x7e) || code == 0x20 || code == 0x09 || code == 0x0a
            || code == 0x0c || code == 0x0d {
            code as char
        } else {
            '?'
        }),
{
    if (0x21 <= code && code <= 0x7e) || code == 0x20 || code == 0x09 || code == 0x0a || code
        == 0x0c || code == 0x0d {
        code as char
    } else {
        '?'
    }
}

/// The size of a text cell, in pixels, on a screen of the given size split
/// into `columns` by `rows` cells: the rows get six pixels more for spacing.
pub fn cell_size(screen_width: u32, screen_height: u32, columns: u32, rows: u32) -> (r: (u32, u32))
    requires
        columns > 0,
        rows > 0,
        screen_height / rows + 6 <= u32::MAX,
    ensures
        r == (screen_width / columns, (screen_height / rows + 6) as u32),
{
    (screen_width / columns, screen_height / rows + 6)
}

/// The pixel position of the cell at column and row `cursor`.
pub fn map_grid_coord(cursor: (u32, u32), cell_width: u32, cell_height: u32) -> (r: (u32, u32))
    requires
        cursor.0 * cell_width <= u32::MAX,
        cursor.1 * cell_height <= u32::MAX,
    ensures
        r == ((cursor.0 * cell_width) as u32, (cursor.1 * cell_height) as u32),
{
    (cursor.0 * cell_width, cursor.1 * cell_height)
}

} // verus!
