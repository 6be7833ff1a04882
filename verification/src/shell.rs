use vstd::prelude::*;

use crate::cpu::{lemma_pointer_registers, pop_spec, MachineState, CPU};
use crate::constant::STACK_POINTER;
use crate::error::ExecutionError;
use crate::registers::{
    base_name_spec, handle_index, handle_window, register_name_spec, str_equals, CPURegisters,
    RegHandle,
};

verus! {

/// A change to what the host logs.
#[derive(Clone, Copy, Debug, PartialEq, Eq, Structural)]
pub enum LogSetting {
    /// The verbosity level, 0 to 3.
    Verbosity(u8),
    /// Output logging on or off.
    Output(bool),
    /// Input logging on or off.
    Input(bool),
}

/// A command of the debug shell.
pub enum ShellCommand<'a> {
    /// Leave the shell.
    Exit,
    /// Stop the machine.
    Stop,
    /// Show the register of this name.
    ReadRegister { name: &'a str },
    /// Show the stack pointer and the word on top of the stack.
    Stack,
    /// Execute one instruction.
    Step,
    /// Change what is logged.
    LogCtl { setting: LogSetting },
    /// Go on executing.
    Exec,
    /// Show the word this many words away from the stack pointer.
    ReadStack { offset: i64 },
}

/// Why a shell command was refused.
pub enum ShellError<'a> {
    UnrecognizedCommand { name: &'a str },
    MissingSubcommand,
    MissingMode,
    InvalidOutputSubcommand { arg: &'a str },
    InvalidInputSubcommand { arg: &'a str },
    InvalidVerbositySubcommand { arg: &'a str },
    MissingRegisterName,
    MissingOffset,
    InvalidOffset { text: &'a str },
}

/// A shell command, as values.
pub enum CommandView {
    Exit,
    Stop,
    ReadRegister { name: Seq<char> },
    Stack,
    Step,
    LogCtl { setting: LogSetting },
    Exec,
    ReadStack { offset: i64 },
}

/// A refusal, as values.
pub enum ShellErrorView {
    UnrecognizedCommand { name: Seq<char> },
    MissingSubcommand,
    MissingMode,
    InvalidOutputSubcommand { arg: Seq<char> },
    InvalidInputSubcommand { arg: Seq<char> },
    InvalidVerbositySubcommand { arg: Seq<char> },
    MissingRegisterName,
    MissingOffset,
    InvalidOffset { text: Seq<char> },
}

impl<'a> View for ShellCommand<'a> {
    type V = CommandView;

    open spec fn view(&self) -> CommandView {
        match self {
            ShellCommand::Exit => CommandView::Exit,
            ShellCommand::Stop => CommandView::Stop,
            ShellCommand::ReadRegister { name } => CommandView::ReadRegister { name: name@ },
            ShellCommand::Stack => CommandView::Stack,
            ShellCommand::Step => CommandView::Step,
            ShellCommand::LogCtl { setting } => CommandView::LogCtl { setting: *setting },
            ShellCommand::Exec => CommandView::Exec,
            ShellCommand::ReadStack { offset } => CommandView::ReadStack { offset: *offset },
        }
    }
}

impl<'a> View for ShellError<'a> {
    type V = ShellErrorView;

    open spec fn view(&self) -> ShellErrorView {
        match self {
            ShellError::UnrecognizedCommand { name } => ShellErrorView::UnrecognizedCommand {
                name: name@,
            },
            ShellError::MissingSubcommand => ShellErrorView::MissingSubcommand,
            ShellError::MissingMode => ShellErrorView::MissingMode,
            ShellError::InvalidOutputSubcommand { arg } =>
                ShellErrorView::InvalidOutputSubcommand { arg: arg@ },
            ShellError::InvalidInputSubcommand { arg } => ShellErrorView::InvalidInputSubcommand {
                arg: arg@,
            },
            ShellError::InvalidVerbositySubcommand { arg } =>
                ShellErrorView::InvalidVerbositySubcommand { arg: arg@ },
            ShellError::MissingRegisterName => ShellErrorView::MissingRegisterName,
            ShellError::MissingOffset => ShellErrorView::MissingOffset,
            ShellError::InvalidOffset { text } => ShellErrorView::InvalidOffset { text: text@ },
        }
    }
}

/// Whether a character is an ASCII decimal digit.
pub open spec fn is_decimal_digit(c: char) -> bool {
    '0' <= c <= '9'
}

/// The number that a run of decimal digits spells.
pub open spec fn digits_value(s: Seq<char>) -> int
    decreases s.len(),
{
    if s.len() == 0 {
        0
    } else {
        digits_value(s.drop_last()) * 10 + (s.last() as int - '0' as int)
    }
}

/// Whether every character of `s` is an ASCII decimal digit.
pub open spec fn all_digits(s: Seq<char>) -> bool {
    forall|i: int| 0 <= i < s.len() ==> #[trigger] is_decimal_digit(s[i])
}

/// How many sign characters a text opens with: one for `+` or `-`.
pub open spec fn sign_len(text: Seq<char>) -> int {
    if text.len() > 0 && (text[0] == '-' || text[0] == '+') {
        1
    } else {
        0
    }
}

/// The `i64` that a text spells in decimal: an optional `+` or `-`, then one
/// or more ASCII digits and nothing else, with a value inside the `i64`
/// range; `None` for any other text.
pub open spec fn decimal_i64(text: Seq<char>) -> Option<i64> {
    let body = text.subrange(sign_len(text), text.len() as int);
    let value = if text.len() > 0 && text[0] == '-' {
        -digits_value(body)
    } else {
        digits_value(body)
    };
    if body.len() == 0 || !all_digits(body) {
        None
    } else if i64::MIN <= value <= i64::MAX {
        Some(value as i64)
    } else {
        None
    }
}

/// A run of digits is worth no less than any run that it starts with.
proof fn lemma_digits_prefix(s: Seq<char>, k: int)
    requires
        0 <= k <= s.len(),
        all_digits(s),
    ensures
        0 <= digits_value(s.subrange(0, k)) <= digits_value(s),
    decreases s.len(),
{
    if s.len() > 0 {
        assert(is_decimal_digit(s[s.len() - 1]));
        assert(all_digits(s.drop_last())) by {
            assert forall|i: int| 0 <= i < s.len() - 1 implies #[trigger] is_decimal_digit(
                s.drop_last()[i],
            ) by {
                assert(is_decimal_digit(s[i]));
            }
        }
    }
    if k < s.len() {
        let t = s.drop_last();
        lemma_digits_prefix(t, k);
        assert(t.subrange(0, k) =~= s.subrange(0, k));
    } else {
        assert(s.subrange(0, k) =~= s);
        if s.len() > 0 {
            lemma_digits_prefix(s.drop_last(), 0);
        }
    }
}

/// Decimal text: appending a digit multiplies the value of the digits so
/// far by ten and adds the digit; a run of digits with no sign reads as its
/// value, after `+` as its value and after `-` as its negation, within the
/// `i64` range; an empty run, with or without a sign, reads as nothing.
pub proof fn law_decimal_text(body: Seq<char>, d: char)
    requires
        '0' <= d <= '9',
        all_digits(body),
    ensures
        digits_value(body.push(d)) == 10 * digits_value(body) + (d as int - '0' as int),
        body.len() > 0 && digits_value(body) <= i64::MAX ==> decimal_i64(body) == Some(
            digits_value(body) as i64,
        ) && decimal_i64(seq!['+'] + body) == Some(digits_value(body) as i64) && decimal_i64(
            seq!['-'] + body,
        ) == Some((-digits_value(body)) as i64),
        decimal_i64(Seq::<char>::empty()) is None,
        decimal_i64(seq!['-']) is None,
        decimal_i64(seq!['+']) is None,
{
    assert(body.push(d).drop_last() =~= body);
    if body.len() > 0 {
        assert(is_decimal_digit(body[0]));
        assert(body[0] != '-' && body[0] != '+');
        assert(body.subrange(0, body.len() as int) =~= body);
        assert((seq!['+'] + body).subrange(1, body.len() as int + 1) =~= body);
        assert((seq!['-'] + body).subrange(1, body.len() as int + 1) =~= body);
        lemma_digits_prefix(body, 0);
    }
}

/// Parses an optional `+` or `-` followed by decimal digits into an `i64`;
/// `None` when anything else is in the text or the value leaves the `i64`
/// range.
fn parse_i64(text: &str) -> (r: Option<i64>)
    ensures
        r == decimal_i64(text@),
{
    let n = text.unicode_len();
    if n == 0 {
        return None;
    }
    let first = text.get_char(0);
    let negative = first == '-';
    let start: usize = if first == '-' || first == '+' {
        1
    } else {
        0
    };
    if start == n {
        return None;
    }
    let ghost body = text@.subrange(start as int, n as int);
    assert(start == sign_len(text@));
    let limit: u64 = if negative {
        0x8000_0000_0000_0000
    } else {
        0x7fff_ffff_ffff_ffff
    };
    let mut magnitude: u64 = 0;
    let mut i: usize = start;
    while i < n
        invariant
            start <= i <= n,
            n == text@.len(),
            body == text@.subrange(start as int, n as int),
            start == sign_len(text@),
            negative == (text@[0] == '-'),
            limit == (if negative {
                0x8000_0000_0000_0000u64
            } else {
                0x7fff_ffff_ffff_ffffu64
            }),
            forall|j: int| 0 <= j < i - start ==> is_decimal_digit(body[j]),
            magnitude == digits_value(body.subrange(0, i - start)),
            magnitude <= limit,
        decreases n - i,
    {
        let c = text.get_char(i);
        if !('0' <= c && c <= '9') {
            assert(!is_decimal_digit(body[i - start]));
            assert(!all_digits(body));
            return None;
        }
        let d: u64 = (c as u32 - '0' as u32) as u64;
        assert(d <= 9 && d == c as int - '0' as int);
        assert(body.subrange(0, i - start + 1).drop_last() =~= body.subrange(0, i - start));
        if magnitude > (limit - d) / 10 {
            proof {
                assert(magnitude * 10 + d > limit) by (nonlinear_arith)
                    requires
                        magnitude > (limit - d) / 10,
                        d <= 9,
                        limit >= 9,
                ;
                if all_digits(body) {
                    lemma_digits_prefix(body, i - start + 1);
                    assert(digits_value(body) > limit);
                }
            }
            return None;
        }
        magnitude = magnitude * 10 + d;
        i = i + 1;
    }
    assert(body.subrange(0, n - start) =~= body);
    assert(all_digits(body));
    if negative {
        if magnitude == 0x8000_0000_0000_0000 {
            Some(i64::MIN)
        } else {
            Some(-(magnitude as i64))
        }
    } else {
        Some(magnitude as i64)
    }
}

/// `logctl`: `0` to `3` set that verbosity; `output` and `input` followed by
/// `on` turn that logging on and followed by `off` turn it off, the on/off
/// word alone deciding; any other word after them is refused, naming the
/// subcommand, and a missing word is refused as a missing mode.
pub proof fn law_logctl(args: Seq<Seq<char>>)
    requires
        args.len() >= 1,
    ensures
        args[0] == "0"@ ==> logctl_spec(args) == Ok::<LogSetting, ShellErrorView>(LogSetting::Verbosity(0)),
        args[0] == "1"@ ==> logctl_spec(args) == Ok::<LogSetting, ShellErrorView>(LogSetting::Verbosity(1)),
        args[0] == "2"@ ==> logctl_spec(args) == Ok::<LogSetting, ShellErrorView>(LogSetting::Verbosity(2)),
        args[0] == "3"@ ==> logctl_spec(args) == Ok::<LogSetting, ShellErrorView>(LogSetting::Verbosity(3)),
        args[0] == "input"@ && args.len() >= 2 ==> logctl_spec(args) == (if args[1] == "on"@ {
            Ok::<LogSetting, ShellErrorView>(LogSetting::Input(true))
        } else if args[1] == "off"@ {
            Ok::<LogSetting, ShellErrorView>(LogSetting::Input(false))
        } else {
            Err::<LogSetting, ShellErrorView>(
                ShellErrorView::InvalidInputSubcommand { arg: "input"@ },
            )
        }),
        args[0] == "output"@ && args.len() >= 2 ==> logctl_spec(args) == (if args[1] == "on"@ {
            Ok::<LogSetting, ShellErrorView>(LogSetting::Output(true))
        } else if args[1] == "off"@ {
            Ok::<LogSetting, ShellErrorView>(LogSetting::Output(false))
        } else {
            Err::<LogSetting, ShellErrorView>(
                ShellErrorView::InvalidOutputSubcommand { arg: "output"@ },
            )
        }),
        (args[0] == "input"@ || args[0] == "output"@) && args.len() == 1 ==> logctl_spec(args)
            == Err::<LogSetting, ShellErrorView>(ShellErrorView::MissingMode),
{
    reveal_strlit("0");
    reveal_strlit("1");
    reveal_strlit("2");
    reveal_strlit("3");
    reveal_strlit("input");
    reveal_strlit("output");
    reveal_strlit("on");
    reveal_strlit("off");
    assert("0"@[0] != "1"@[0] && "0"@[0] != "2"@[0] && "1"@[0] != "2"@[0] && "0"@[0] != "3"@[0]
        && "1"@[0] != "3"@[0] && "2"@[0] != "3"@[0]);
    assert("0"@.len() == 1 && "1"@.len() == 1 && "2"@.len() == 1 && "3"@.len() == 1);
    assert("input"@.len() == 5 && "output"@.len() == 6 && "on"@.len() == 2 && "off"@.len() == 3);
    if args[0] == "input"@ {
        assert(args[0] != "0"@ && args[0] != "1"@ && args[0] != "2"@ && args[0] != "3"@);
        assert(args[0] != "output"@);
    }
    if args[0] == "output"@ {
        assert(args[0] != "0"@ && args[0] != "1"@ && args[0] != "2"@ && args[0] != "3"@);
    }
}

/// The debug shell's commands, by their first word: `exit`, `stop`, `exec`,
/// `s` or `step`, `sk` or `stack` take nothing more; `rr` or
/// `read-register` takes the register's name; `rsk` takes a signed decimal
/// offset; `logctl` takes its subcommand; any other word is refused, named.
pub proof fn law_commands(words: Seq<Seq<char>>)
    requires
        words.len() >= 2,
    ensures
        words[0] == "exit"@ ==> command_spec(words) == Ok::<CommandView, ShellErrorView>(CommandView::Exit),
        words[0] == "stop"@ ==> command_spec(words) == Ok::<CommandView, ShellErrorView>(CommandView::Stop),
        words[0] == "exec"@ ==> command_spec(words) == Ok::<CommandView, ShellErrorView>(CommandView::Exec),
        words[0] == "s"@ || words[0] == "step"@ ==> command_spec(words) == Ok::<
            CommandView,
            ShellErrorView,
        >(CommandView::Step),
        words[0] == "sk"@ || words[0] == "stack"@ ==> command_spec(words) == Ok::<
            CommandView,
            ShellErrorView,
        >(CommandView::Stack),
        words[0] == "rr"@ || words[0] == "read-register"@ ==> command_spec(words) == Ok::<
            CommandView,
            ShellErrorView,
        >(CommandView::ReadRegister { name: words[1] }),
        words[0] == "rsk"@ ==> command_spec(words) == (match decimal_i64(words[1]) {
            Some(offset) => Ok::<CommandView, ShellErrorView>(CommandView::ReadStack { offset }),
            None => Err::<CommandView, ShellErrorView>(
                ShellErrorView::InvalidOffset { text: words[1] },
            ),
        }),
        words[0] == "logctl"@ && words[1] == "input"@ && words.len() >= 3 && words[2] == "off"@
            ==> command_spec(words) == Ok::<CommandView, ShellErrorView>(
            CommandView::LogCtl { setting: LogSetting::Input(false) },
        ),
        words[0] == "logctl"@ && words[1] == "input"@ && words.len() >= 3 && words[2] == "on"@
            ==> command_spec(words) == Ok::<CommandView, ShellErrorView>(
            CommandView::LogCtl { setting: LogSetting::Input(true) },
        ),
{
    reveal_strlit("exit");
    reveal_strlit("stop");
    reveal_strlit("exec");
    reveal_strlit("s");
    reveal_strlit("step");
    reveal_strlit("sk");
    reveal_strlit("stack");
    reveal_strlit("rr");
    reveal_strlit("read-register");
    reveal_strlit("rsk");
    reveal_strlit("logctl");
    assert("exit"@ != "stop"@ && "exit"@ != "exec"@ && "stop"@ != "exec"@) by {
        assert("exit"@[1] != "stop"@[1] && "exit"@[2] != "exec"@[2] && "stop"@[1] != "exec"@[1]);
    }
    assert("s"@.len() == 1 && "sk"@.len() == 2 && "rr"@.len() == 2 && "rsk"@.len() == 3);
    assert("sk"@[0] != "rr"@[0]);
    assert("step"@.len() == 4 && "stop"@.len() == 4 && "exit"@.len() == 4 && "exec"@.len() == 4);
    assert("step"@[2] != "stop"@[2] && "step"@[0] != "exit"@[0] && "step"@[0] != "exec"@[0]);
    assert("stack"@.len() == 5 && "logctl"@.len() == 6 && "read-register"@.len() == 13);
    if words.len() >= 3 && words[0] == "logctl"@ {
        reveal_strlit("on");
        reveal_strlit("off");
        assert("on"@.len() == 2 && "off"@.len() == 3);
        let rest = words.drop_first();
        assert(rest[0] == words[1] && rest[1] == words[2]);
        law_logctl(rest);
    }
}

/// `on` or `off` after `output` or `input`.
pub open spec fn switch_spec(word: Seq<char>) -> Option<bool> {
    if word == "on"@ {
        Some(true)
    } else if word == "off"@ {
        Some(false)
    } else {
        None
    }
}

/// The `logctl` subcommand in `args`: a verbosity level 0 to 3, or `output`
/// or `input` followed by `on` or `off`.
pub open spec fn logctl_spec(args: Seq<Seq<char>>) -> Result<LogSetting, ShellErrorView> {
    if args.len() == 0 {
        Err(ShellErrorView::MissingSubcommand)
    } else {
        let a = args[0];
        if a == "0"@ {
            Ok(LogSetting::Verbosity(0))
        } else if a == "1"@ {
            Ok(LogSetting::Verbosity(1))
        } else if a == "2"@ {
            Ok(LogSetting::Verbosity(2))
        } else if a == "3"@ {
            Ok(LogSetting::Verbosity(3))
        } else if a == "output"@ {
            if args.len() < 2 {
                Err(ShellErrorView::MissingMode)
            } else {
                match switch_spec(args[1]) {
                    Some(on) => Ok(LogSetting::Output(on)),
                    None => Err(ShellErrorView::InvalidOutputSubcommand { arg: a }),
                }
            }
        } else if a == "input"@ {
            if args.len() < 2 {
                Err(ShellErrorView::MissingMode)
            } else {
                match switch_spec(args[1]) {
                    Some(on) => Ok(LogSetting::Input(on)),
                    None => Err(ShellErrorView::InvalidInputSubcommand { arg: a }),
                }
            }
        } else {
            Err(ShellErrorView::InvalidVerbositySubcommand { arg: a })
        }
    }
}

/// The command in `words`, the words of a command line.
pub open spec fn command_spec(words: Seq<Seq<char>>) -> Result<CommandView, ShellErrorView> {
    let name = words[0];
    if words.len() == 0 {
        Err(ShellErrorView::UnrecognizedCommand { name: ""@ })
    } else if name == "exit"@ {
        Ok(CommandView::Exit)
    } else if name == "stop"@ {
        Ok(CommandView::Stop)
    } else if name == "rr"@ || name == "read-register"@ {
        if words.len() < 2 {
            Err(ShellErrorView::MissingRegisterName)
        } else {
            Ok(CommandView::ReadRegister { name: words[1] })
        }
    } else if name == "sk"@ || name == "stack"@ {
        Ok(CommandView::Stack)
    } else if name == "s"@ || name == "step"@ {
        Ok(CommandView::Step)
    } else if name == "logctl"@ {
        match logctl_spec(words.drop_first()) {
            Ok(setting) => Ok(CommandView::LogCtl { setting }),
            Err(e) => Err(e),
        }
    } else if name == "exec"@ {
        Ok(CommandView::Exec)
    } else if name == "rsk"@ {
        if words.len() < 2 {
            Err(ShellErrorView::MissingOffset)
        } else {
            match decimal_i64(words[1]) {
                Some(offset) => Ok(CommandView::ReadStack { offset }),
                None => Err(ShellErrorView::InvalidOffset { text: words[1] }),
            }
        }
    } else {
        Err(ShellErrorView::UnrecognizedCommand { name })
    }
}

/// The characters of each word.
pub open spec fn words_view(words: Seq<&str>) -> Seq<Seq<char>> {
    words.map_values(|w: &str| w@)
}

/// `on` or `off`.
fn parse_switch(word: &str) -> (r: Option<bool>)
    ensures
        r == switch_spec(word@),
{
    if str_equals(word, "on") {
        Some(true)
    } else if str_equals(word, "off") {
        Some(false)
    } else {
        None
    }
}

/// Parses the arguments of `logctl`.
pub fn sh_logctl<'a>(args: &[&'a str]) -> (r: Result<LogSetting, ShellError<'a>>)
    ensures
        match logctl_spec(words_view(args@)) {
            Ok(s) => r == Ok::<LogSetting, ShellError<'a>>(s),
            Err(e) => r is Err && r->Err_0@ == e,
        },
{
    if args.len() == 0 {
        return Err(ShellError::MissingSubcommand);
    }
    let arg = args[0];
    assert(arg@ == words_view(args@)[0]);
    if str_equals(arg, "0") {
        Ok(LogSetting::Verbosity(0))
    } else if str_equals(arg, "1") {
        Ok(LogSetting::Verbosity(1))
    } else if str_equals(arg, "2") {
        Ok(LogSetting::Verbosity(2))
    } else if str_equals(arg, "3") {
        Ok(LogSetting::Verbosity(3))
    } else if str_equals(arg, "output") {
        if args.len() < 2 {
            return Err(ShellError::MissingMode);
        }
        assert(args[1]@ == words_view(args@)[1]);
        match parse_switch(args[1]) {
            Some(on) => Ok(LogSetting::Output(on)),
            None => Err(ShellError::InvalidOutputSubcommand { arg }),
        }
    } else if str_equals(arg, "input") {
        if args.len() < 2 {
            return Err(ShellError::MissingMode);
        }
        assert(args[1]@ == words_view(args@)[1]);
        match parse_switch(args[1]) {
            Some(on) => Ok(LogSetting::Input(on)),
            None => Err(ShellError::InvalidInputSubcommand { arg }),
        }
    } else {
        Err(ShellError::InvalidVerbositySubcommand { arg })
    }
}

/// Parses a shell command line given as its words.
pub fn parse_command<'a>(words: &[&'a str]) -> (r: Result<ShellCommand<'a>, ShellError<'a>>)
    ensures
        match command_spec(words_view(words@)) {
            Ok(c) => r is Ok && r->Ok_0@ == c,
            Err(e) => r is Err && r->Err_0@ == e,
        },
{
    if words.len() == 0 {
        return Err(ShellError::UnrecognizedCommand { name: "" });
    }
    let name: &'a str = words[0];
    assert(name@ == words_view(words@)[0]);
    if str_equals(name, "exit") {
        Ok(ShellCommand::Exit)
    } else if str_equals(name, "stop") {
        Ok(ShellCommand::Stop)
    } else if str_equals(name, "rr") || str_equals(name, "read-register") {
        if words.len() < 2 {
            Err(ShellError::MissingRegisterName)
        } else {
            assert(words[1]@ == words_view(words@)[1]);
            Ok(ShellCommand::ReadRegister { name: words[1] })
        }
    } else if str_equals(name, "sk") || str_equals(name, "stack") {
        Ok(ShellCommand::Stack)
    } else if str_equals(name, "s") || str_equals(name, "step") {
        Ok(ShellCommand::Step)
    } else if str_equals(name, "logctl") {
        let rest = words.split_at(1).1;
        assert(words_view(rest@) =~= words_view(words@).drop_first());
        match sh_logctl(rest) {
            Ok(setting) => Ok(ShellCommand::LogCtl { setting }),
            Err(e) => Err(e),
        }
    } else if str_equals(name, "exec") {
        Ok(ShellCommand::Exec)
    } else if str_equals(name, "rsk") {
        if words.len() < 2 {
            Err(ShellError::MissingOffset)
        } else {
            assert(words[1]@ == words_view(words@)[1]);
            match parse_i64(words[1]) {
                Some(offset) => Ok(ShellCommand::ReadStack { offset }),
                None => Err(ShellError::InvalidOffset { text: words[1] }),
            }
        }
    } else {
        Err(ShellError::UnrecognizedCommand { name })
    }
}

/// The stack address `delta` bytes away from `sp`, held inside the 64-bit
/// range.
pub open spec fn offset_target(sp: u64, delta: int) -> u64 {
    if sp + delta < 0 {
        0
    } else if sp + delta > u64::MAX {
        u64::MAX
    } else {
        (sp + delta) as u64
    }
}

impl CPU {
    /// The word `offset` words away from the stack pointer, read by popping
    /// from there; the stack pointer is then put back.  A failed pop leaves
    /// the stack pointer at the address it popped from.
    pub fn read_stack_from_offset(&mut self, offset: i64) -> (r: Result<u64, ExecutionError>)
        ensures
            final(self).memory == old(self).memory,
            final(self).pending_interrupt == old(self).pending_interrupt,
            offset * 8 < i64::MIN || offset * 8 > i64::MAX ==> r == Err::<u64, ExecutionError>(
                ExecutionError::AddressOverflow,
            ) && final(self).registers@ == old(self).registers@,
            i64::MIN <= offset * 8 <= i64::MAX ==> ({
                let s = old(self).state();
                let t = offset_target(s.regs[2], offset * 8);
                let s1 = MachineState { regs: s.regs.update(2, t), ..s };
                match pop_spec(s1).0 {
                    Ok(v) => r == Ok::<u64, ExecutionError>(v) && final(self).registers@
                        == s.regs,
                    Err(e) => r == Err::<u64, ExecutionError>(e) && final(self).registers@
                        == s1.regs,
                }
            }),
    {
        proof {
            self.registers.lemma_shape();
            lemma_pointer_registers(self.registers@, 0);
        }
        let delta = match offset.checked_mul(8) {
            Some(d) => d,
            None => {
                return Err(ExecutionError::AddressOverflow);
            },
        };
        let real_stack_ptr = self.registers.read(STACK_POINTER);
        let target: u64 = if delta >= 0 {
            real_stack_ptr.saturating_add(delta as u64)
        } else {
            let magnitude: u64 = (0i128 - delta as i128) as u64;
            real_stack_ptr.saturating_sub(magnitude)
        };
        assert(target == offset_target(real_stack_ptr, offset * 8));
        proof {
            lemma_pointer_registers(self.registers@, target);
        }
        self.registers.write(STACK_POINTER, target);
        let value = self.pop()?;
        proof {
            lemma_pointer_registers(self.registers@, real_stack_ptr);
        }
        self.registers.write(STACK_POINTER, real_stack_ptr);
        proof {
            assert(self.registers@ =~= old(self).registers@);
        }
        Ok(value)
    }
}

/// The name of the register a handle reads.
pub open spec fn handle_name(h: u8) -> Seq<char> {
    register_name_spec(base_name_spec(handle_index(h) as int), handle_index(h), handle_window(h))
}

impl CPURegisters {
    /// The first handle, counting from 0, whose register name is `name`.
    pub fn find_handle(&self, name: &str) -> (r: Option<RegHandle>)
        ensures
            r matches Some(h) ==> handle_name(h) == name@ && forall|j: u8|
                j < h ==> handle_name(j) != name@,
            r is None ==> forall|j: u8| handle_name(j) != name@,
    {
        let mut h: u16 = 0;
        while h < 256
            invariant
                h <= 256,
                forall|j: u8| j < h ==> handle_name(j) != name@,
            decreases 256 - h,
        {
            let candidate = self.name(h as u8);
            if str_equals(candidate.as_str(), name) {
                return Some(h as u8);
            }
            h = h + 1;
        }
        None
    }
}

} // verus!
