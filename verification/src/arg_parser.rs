use vstd::prelude::*;
use vstd::string::StrSliceExecFns;

use crate::registers::str_equals;

verus! {

/// A command-line flag: its full name (after `--`), its one-letter alias
/// (after `-`) and how many arguments follow it.
#[derive(Clone, Copy)]
pub struct FlagArg<'a> {
    pub name: &'a str,
    pub alias: char,
    pub fields: usize,
}

impl<'a> FlagArg<'a> {
    /// A flag definition.
    pub fn new(name: &'a str, alias: char, fields: usize) -> (f: Self)
        ensures
            f.name == name,
            f.alias == alias,
            f.fields == fields,
    {
        FlagArg { name, alias, fields }
    }
}

/// The flag definitions that parsing looks flags up in.  Where two
/// definitions share a name or an alias, the later one is found.
pub struct Flags<'a> {
    pub definitions: Vec<FlagArg<'a>>,
}

/// The position of the last definition with alias `alias`.
pub open spec fn alias_index(defs: Seq<FlagArg>, alias: char) -> Option<int>
    decreases defs.len(),
{
    if defs.len() == 0 {
        None
    } else if defs.last().alias == alias {
        Some(defs.len() - 1)
    } else {
        alias_index(defs.drop_last(), alias)
    }
}

/// The position of the last definition with full name `name`.
pub open spec fn name_index(defs: Seq<FlagArg>, name: Seq<char>) -> Option<int>
    decreases defs.len(),
{
    if defs.len() == 0 {
        None
    } else if defs.last().name@ == name {
        Some(defs.len() - 1)
    } else {
        name_index(defs.drop_last(), name)
    }
}

/// The definition found for an alias.
pub open spec fn alias_lookup<'a>(defs: Seq<FlagArg<'a>>, alias: char) -> Option<FlagArg<'a>> {
    match alias_index(defs, alias) {
        Some(i) => Some(defs[i]),
        None => None,
    }
}

/// The definition found for a full name.
pub open spec fn name_lookup<'a>(defs: Seq<FlagArg<'a>>, name: Seq<char>) -> Option<FlagArg<'a>> {
    match name_index(defs, name) {
        Some(i) => Some(defs[i]),
        None => None,
    }
}

proof fn lemma_alias_index_bound(defs: Seq<FlagArg>, alias: char)
    ensures
        alias_index(defs, alias) matches Some(i) ==> 0 <= i < defs.len() && defs[i].alias
            == alias,
    decreases defs.len(),
{
    if defs.len() > 0 && defs.last().alias != alias {
        lemma_alias_index_bound(defs.drop_last(), alias);
    }
}

proof fn lemma_name_index_bound(defs: Seq<FlagArg>, name: Seq<char>)
    ensures
        name_index(defs, name) matches Some(i) ==> 0 <= i < defs.len() && defs[i].name@
            == name,
    decreases defs.len(),
{
    if defs.len() > 0 && defs.last().name@ != name {
        lemma_name_index_bound(defs.drop_last(), name);
    }
}

impl<'a> Flags<'a> {
    /// Flags looked up in the given definitions.
    pub fn new(flag_definitions: &'a [FlagArg<'a>]) -> (f: Self)
        ensures
            f.definitions@ == flag_definitions@,
    {
        let mut definitions: Vec<FlagArg<'a>> = Vec::new();
        let mut i: usize = 0;
        while i < flag_definitions.len()
            invariant
                i <= flag_definitions@.len(),
                definitions@ =~= flag_definitions@.subrange(0, i as int),
            decreases flag_definitions@.len() - i,
        {
            definitions.push(flag_definitions[i]);
            i = i + 1;
        }
        Flags { definitions }
    }

    /// The definition with alias `alias`.
    pub fn get_flag_from_alias(&self, alias: char) -> (r: Option<FlagArg<'a>>)
        ensures
            r == alias_lookup(self.definitions@, alias),
    {
        let mut i: usize = self.definitions.len();
        assert(self.definitions@.subrange(0, i as int) =~= self.definitions@);
        while i > 0
            invariant
                i <= self.definitions@.len(),
                alias_index(self.definitions@, alias) == alias_index(
                    self.definitions@.subrange(0, i as int),
                    alias,
                ),
            decreases i,
        {
            let ghost prefix = self.definitions@.subrange(0, i as int);
            assert(prefix.drop_last() =~= self.definitions@.subrange(0, i - 1));
            if self.definitions[i - 1].alias == alias {
                return Some(self.definitions[i - 1]);
            }
            i = i - 1;
        }
        None
    }

    /// The definition with full name `name`.
    pub fn get_flag_from_full(&self, name: &str) -> (r: Option<FlagArg<'a>>)
        ensures
            r == name_lookup(self.definitions@, name@),
    {
        let mut i: usize = self.definitions.len();
        assert(self.definitions@.subrange(0, i as int) =~= self.definitions@);
        while i > 0
            invariant
                i <= self.definitions@.len(),
                name_index(self.definitions@, name@) == name_index(
                    self.definitions@.subrange(0, i as int),
                    name@,
                ),
            decreases i,
        {
            let ghost prefix = self.definitions@.subrange(0, i as int);
            assert(prefix.drop_last() =~= self.definitions@.subrange(0, i - 1));
            if str_equals(self.definitions[i - 1].name, name) {
                return Some(self.definitions[i - 1]);
            }
            i = i - 1;
        }
        None
    }
}

/// A flag found on the command line, with the arguments that followed it.
pub struct ParsedArgEntry<'a> {
    pub name: &'a str,
    pub data: Vec<&'a str>,
}

/// A parsed command line: the plain arguments, and the flags in order.
pub struct ParsedCLIArgs<'a> {
    pub raw: Vec<&'a str>,
    pub flags: Vec<ParsedArgEntry<'a>>,
}

/// Why a command line was refused.
pub enum ArgParseError<'a> {
    /// An alias that no flag has.
    UnknownAlias { alias: char },
    /// An alias whose flag needs more arguments than the command line has;
    /// `provided` is how many there were.
    MissingAliasArguments { name: &'a str, fields: usize, provided: usize },
    /// An alias that needs arguments is not the last in its group.
    ArgumentsNotLast { name: &'a str, arg: &'a str },
    /// A full flag name that no flag has.
    UnknownFlag { arg: &'a str },
    /// A full flag that needs more arguments than the command line has.
    MissingFlagArguments { name: &'a str, fields: usize },
}

/// A parsed flag, as values.
pub struct EntryView {
    pub name: Seq<char>,
    pub data: Seq<Seq<char>>,
}

/// A refusal, as values.
pub enum ArgErrorView {
    UnknownAlias { alias: char },
    MissingAliasArguments { name: Seq<char>, fields: usize, provided: usize },
    ArgumentsNotLast { name: Seq<char>, arg: Seq<char> },
    UnknownFlag { arg: Seq<char> },
    MissingFlagArguments { name: Seq<char>, fields: usize },
}

/// The characters of each string.
pub open spec fn strs_view(v: Seq<&str>) -> Seq<Seq<char>> {
    v.map_values(|s: &str| s@)
}

/// The characters of each command-line argument.
pub open spec fn args_view(v: Seq<String>) -> Seq<Seq<char>> {
    v.map_values(|s: String| s@)
}

impl<'a> View for ParsedArgEntry<'a> {
    type V = EntryView;

    open spec fn view(&self) -> EntryView {
        EntryView { name: self.name@, data: strs_view(self.data@) }
    }
}

impl<'a> View for ArgParseError<'a> {
    type V = ArgErrorView;

    open spec fn view(&self) -> ArgErrorView {
        match self {
            ArgParseError::UnknownAlias { alias } => ArgErrorView::UnknownAlias { alias: *alias },
            ArgParseError::MissingAliasArguments { name, fields, provided } =>
                ArgErrorView::MissingAliasArguments {
                name: name@,
                fields: *fields,
                provided: *provided,
            },
            ArgParseError::ArgumentsNotLast { name, arg } => ArgErrorView::ArgumentsNotLast {
                name: name@,
                arg: arg@,
            },
            ArgParseError::UnknownFlag { arg } => ArgErrorView::UnknownFlag { arg: arg@ },
            ArgParseError::MissingFlagArguments { name, fields } =>
                ArgErrorView::MissingFlagArguments { name: name@, fields: *fields },
        }
    }
}

/// The parsed flags, as values.
pub open spec fn entries_view(v: Seq<ParsedArgEntry>) -> Seq<EntryView> {
    v.map_values(|e: ParsedArgEntry| e@)
}

/// The `fields` arguments after position `index`.
pub open spec fn following(args: Seq<Seq<char>>, index: int, fields: int) -> Seq<Seq<char>> {
    args.subrange(index + 1, index + 1 + fields)
}

/// `--name` at position `index`: the flag with that full name and the
/// arguments it takes, and how many arguments that consumes.
pub open spec fn full_spec(defs: Seq<FlagArg>, args: Seq<Seq<char>>, index: int) -> Result<
    (EntryView, nat),
    ArgErrorView,
> {
    let arg = args[index];
    match name_lookup(defs, arg.subrange(2, arg.len() as int)) {
        None => Err(ArgErrorView::UnknownFlag { arg }),
        Some(f) => if index + f.fields < args.len() {
            Ok(
                (
                    EntryView { name: f.name@, data: following(args, index, f.fields as int) },
                    f.fields as nat,
                ),
            )
        } else {
            Err(ArgErrorView::MissingFlagArguments { name: f.name@, fields: f.fields })
        },
    }
}

/// Alias number `k` of the group `-abc` at position `index`: only the last
/// alias of a group may take arguments.
pub open spec fn alias_entry_spec(
    defs: Seq<FlagArg>,
    args: Seq<Seq<char>>,
    index: int,
    k: int,
) -> Result<(EntryView, nat), ArgErrorView> {
    let arg = args[index];
    let alias = arg[k + 1];
    match alias_lookup(defs, alias) {
        None => Err(ArgErrorView::UnknownAlias { alias }),
        Some(f) => if f.fields == 0 {
            Ok((EntryView { name: f.name@, data: Seq::empty() }, 0))
        } else if k == arg.len() - 2 {
            if index + f.fields < args.len() {
                Ok(
                    (
                        EntryView { name: f.name@, data: following(args, index, f.fields as int) },
                        f.fields as nat,
                    ),
                )
            } else {
                Err(
                    ArgErrorView::MissingAliasArguments {
                        name: f.name@,
                        fields: f.fields,
                        provided: (args.len() - index - 1) as usize,
                    },
                )
            }
        } else {
            Err(ArgErrorView::ArgumentsNotLast { name: f.name@, arg })
        },
    }
}

/// The flags of the first `k` aliases of the group at `index`, and the
/// arguments they consume; the first refusal stops it.
pub open spec fn aliases_upto(defs: Seq<FlagArg>, args: Seq<Seq<char>>, index: int, k: int) -> Result<
    (Seq<EntryView>, nat),
    ArgErrorView,
>
    decreases k,
{
    if k <= 0 {
        Ok((Seq::empty(), 0))
    } else {
        match aliases_upto(defs, args, index, k - 1) {
            Err(e) => Err(e),
            Ok((buf, skip)) => match alias_entry_spec(defs, args, index, k - 1) {
                Err(e) => Err(e),
                Ok((entry, s)) => Ok((buf.push(entry), skip + s)),
            },
        }
    }
}

/// The whole alias group at `index`.
pub open spec fn aliases_spec(defs: Seq<FlagArg>, args: Seq<Seq<char>>, index: int) -> Result<
    (Seq<EntryView>, nat),
    ArgErrorView,
> {
    aliases_upto(defs, args, index, args[index].len() - 1)
}

/// Parsing the first `i` arguments: the plain arguments, the flags, and how
/// many of the next arguments belong to the last flag (the program's name
/// is skipped first).
pub open spec fn parse_upto(defs: Seq<FlagArg>, args: Seq<Seq<char>>, i: int) -> Result<
    (Seq<Seq<char>>, Seq<EntryView>, nat),
    ArgErrorView,
>
    decreases i,
{
    if i <= 0 {
        Ok((Seq::empty(), Seq::empty(), 1))
    } else {
        match parse_upto(defs, args, i - 1) {
            Err(e) => Err(e),
            Ok((raw, flags, skip)) => {
                let a = args[i - 1];
                if skip > 0 {
                    Ok((raw, flags, (skip - 1) as nat))
                } else if a.len() >= 1 && a[0] == '-' {
                    if a.len() >= 2 && a[1] == '-' {
                        match full_spec(defs, args, i - 1) {
                            Err(e) => Err(e),
                            Ok((entry, s)) => Ok((raw, flags.push(entry), skip + s)),
                        }
                    } else {
                        match aliases_spec(defs, args, i - 1) {
                            Err(e) => Err(e),
                            Ok((entries, s)) => Ok((raw, flags + entries, skip + s)),
                        }
                    }
                } else {
                    Ok((raw.push(a), flags, skip))
                }
            },
        }
    }
}

/// Once the alias fold has refused, it refuses the same way to the end.
proof fn lemma_aliases_err_stays(
    defs: Seq<FlagArg>,
    args: Seq<Seq<char>>,
    index: int,
    k: int,
    m: int,
)
    requires
        0 <= k <= m,
        aliases_upto(defs, args, index, k) is Err,
    ensures
        aliases_upto(defs, args, index, m) == aliases_upto(defs, args, index, k),
    decreases m - k,
{
    if m > k {
        lemma_aliases_err_stays(defs, args, index, k, m - 1);
    }
}

/// Once parsing has refused, it refuses the same way to the end.
proof fn lemma_parse_err_stays(defs: Seq<FlagArg>, args: Seq<Seq<char>>, i: int, m: int)
    requires
        0 <= i <= m,
        parse_upto(defs, args, i) is Err,
    ensures
        parse_upto(defs, args, m) == parse_upto(defs, args, i),
    decreases m - i,
{
    if m > i {
        lemma_parse_err_stays(defs, args, i, m - 1);
    }
}

/// Collects the `fields` arguments after position `index`; `None` where the
/// command line ends first, with how many there were.
fn collect_fields<'a>(cli_args: &'a [String], index: usize, fields: usize) -> (r: Result<
    Vec<&'a str>,
    usize,
>)
    requires
        index < cli_args@.len(),
    ensures
        index + fields < cli_args@.len() ==> r is Ok && strs_view(r->Ok_0@) == following(
            args_view(cli_args@),
            index as int,
            fields as int,
        ),
        index + fields >= cli_args@.len() ==> r == Err::<Vec<&'a str>, usize>(
            (cli_args@.len() - index - 1) as usize,
        ),
{
    let ghost args = args_view(cli_args@);
    let len = cli_args.len();
    let mut data: Vec<&'a str> = Vec::new();
    let mut ii: usize = 1;
    while ii <= fields
        invariant
            len == cli_args@.len(),
            index < cli_args@.len(),
            args == args_view(cli_args@),
            1 <= ii,
            ii <= fields + 1,
            index + ii <= cli_args@.len(),
            strs_view(data@) =~= args.subrange(index + 1, index + ii),
        decreases fields + 1 - ii,
    {
        if index + ii >= len {
            return Err(ii - 1);
        }
        let ghost before = data@;
        let field = cli_args[index + ii].as_str();
        data.push(field);
        proof {
            assert(strs_view(data@) =~= strs_view(before).push(field@));
            assert(args.subrange(index + 1, index + ii + 1) =~= args.subrange(
                index + 1,
                index + ii,
            ).push(args[index + ii]));
        }
        ii = ii + 1;
    }
    Ok(data)
}

/// Parses the full flag `arg` at position `index`.
fn parse_full<'a>(arg: &'a str, flag_def: &Flags<'a>, cli_args: &'a [String], index: usize) -> (r:
    Result<(ParsedArgEntry<'a>, usize), ArgParseError<'a>>)
    requires
        index < cli_args@.len(),
        arg@ == cli_args@[index as int]@,
        arg@.len() >= 2,
    ensures
        match full_spec(flag_def.definitions@, args_view(cli_args@), index as int) {
            Ok((entry, s)) => r is Ok && r->Ok_0.0@ == entry && r->Ok_0.1 == s,
            Err(e) => r is Err && r->Err_0@ == e,
        },
        r matches Ok((_, s)) ==> index + s < cli_args@.len(),
{
    let n = arg.unicode_len();
    let name = arg.substring_char(2, n);
    let flag = match flag_def.get_flag_from_full(name) {
        Some(f) => f,
        None => {
            return Err(ArgParseError::UnknownFlag { arg });
        },
    };
    proof {
        lemma_name_index_bound(flag_def.definitions@, name@);
    }
    match collect_fields(cli_args, index, flag.fields) {
        Ok(data) => Ok((ParsedArgEntry { name: flag.name, data }, flag.fields)),
        Err(_) => Err(ArgParseError::MissingFlagArguments { name: flag.name, fields: flag.fields }),
    }
}

/// Parses the alias group `arg` (such as `-abc`) at position `index`.
fn parse_aliases<'a>(arg: &'a str, flag_def: &Flags<'a>, cli_args: &'a [String], index: usize) -> (r:
    Result<(Vec<ParsedArgEntry<'a>>, usize), ArgParseError<'a>>)
    requires
        index < cli_args@.len(),
        arg@ == cli_args@[index as int]@,
        arg@.len() >= 1,
    ensures
        match aliases_spec(flag_def.definitions@, args_view(cli_args@), index as int) {
            Ok((entries, s)) => r is Ok && entries_view(r->Ok_0.0@) == entries && r->Ok_0.1
                == s,
            Err(e) => r is Err && r->Err_0@ == e,
        },
        r matches Ok((_, s)) ==> index + s < cli_args@.len(),
{
    let ghost defs = flag_def.definitions@;
    let ghost args = args_view(cli_args@);
    let n = arg.unicode_len();
    let mut skip: usize = 0;
    let mut buf: Vec<ParsedArgEntry<'a>> = Vec::new();
    let mut k: usize = 1;
    assert(entries_view(buf@) =~= Seq::<EntryView>::empty());
    while k < n
        invariant
            k < n ==> skip == 0,
            n == arg@.len(),
            1 <= k <= n,
            defs == flag_def.definitions@,
            args == args_view(cli_args@),
            index < cli_args@.len(),
            arg@ == args[index as int],
            aliases_upto(defs, args, index as int, k - 1) == Ok::<
                (Seq<EntryView>, nat),
                ArgErrorView,
            >((entries_view(buf@), skip as nat)),
            index + skip < cli_args@.len(),
        decreases n - k,
    {
        let alias = arg.get_char(k);
        let flag = match flag_def.get_flag_from_alias(alias) {
            Some(f) => f,
            None => {
                proof {
                    lemma_aliases_err_stays(defs, args, index as int, k as int, n - 1);
                }
                return Err(ArgParseError::UnknownAlias { alias });
            },
        };
        proof {
            lemma_alias_index_bound(defs, alias);
        }
        let mut fields: Vec<&'a str> = Vec::new();
        let mut consumed: usize = 0;
        if flag.fields > 0 {
            if k == n - 1 {
                match collect_fields(cli_args, index, flag.fields) {
                    Ok(data) => {
                        fields = data;
                        consumed = flag.fields;
                    },
                    Err(provided) => {
                        proof {
                            lemma_aliases_err_stays(defs, args, index as int, k as int, n - 1);
                        }
                        return Err(
                            ArgParseError::MissingAliasArguments {
                                name: flag.name,
                                fields: flag.fields,
                                provided,
                            },
                        );
                    },
                }
            } else {
                proof {
                    lemma_aliases_err_stays(defs, args, index as int, k as int, n - 1);
                }
                return Err(ArgParseError::ArgumentsNotLast { name: flag.name, arg });
            }
        }
        let ghost before = buf@;
        let entry = ParsedArgEntry { name: flag.name, data: fields };
        proof {
            assert(strs_view(entry.data@) =~= (if flag.fields == 0 {
                Seq::<Seq<char>>::empty()
            } else {
                following(args, index as int, flag.fields as int)
            }));
        }
        buf.push(entry);
        proof {
            assert(entries_view(buf@) =~= entries_view(before).push(entry@));
        }
        skip = skip + consumed;
        k = k + 1;
    }
    Ok((buf, skip))
}

impl<'a> ParsedCLIArgs<'a> {
    /// Parses a command line whose first argument is the program's name:
    /// `--name` is a flag by its full name, `-abc` a group of flags by their
    /// aliases, anything else a plain argument; a flag's arguments follow it.
    pub fn parse_arguments(flag_def: &Flags<'a>, cli_args: &'a [String]) -> (r: Result<
        Self,
        ArgParseError<'a>,
    >)
        ensures
            match parse_upto(flag_def.definitions@, args_view(cli_args@), cli_args@.len() as int) {
                Ok((raw, flags, _)) => r is Ok && strs_view(r->Ok_0.raw@) == raw && entries_view(
                    r->Ok_0.flags@,
                ) == flags,
                Err(e) => r is Err && r->Err_0@ == e,
            },
    {
        let ghost defs = flag_def.definitions@;
        let ghost args = args_view(cli_args@);
        let len = cli_args.len();
        let mut raw: Vec<&'a str> = Vec::new();
        let mut flags: Vec<ParsedArgEntry<'a>> = Vec::new();
        let mut skip: usize = 1;
        let mut i: usize = 0;
        assert(entries_view(flags@) =~= Seq::<EntryView>::empty());
        assert(strs_view(raw@) =~= Seq::<Seq<char>>::empty());
        while i < len
            invariant
                len == cli_args@.len(),
                i <= len,
                defs == flag_def.definitions@,
                args == args_view(cli_args@),
                parse_upto(defs, args, i as int) == Ok::<
                    (Seq<Seq<char>>, Seq<EntryView>, nat),
                    ArgErrorView,
                >((strs_view(raw@), entries_view(flags@), skip as nat)),
                skip <= len - i + 1,
            decreases len - i,
        {
            let cli_arg = cli_args[i].as_str();
            assert(cli_arg@ == args[i as int]);
            let n = cli_arg.unicode_len();
            if skip > 0 {
                skip = skip - 1;
            } else if n >= 1 && cli_arg.get_char(0) == '-' {
                if n >= 2 && cli_arg.get_char(1) == '-' {
                    match parse_full(cli_arg, flag_def, cli_args, i) {
                        Ok((entry, skip_by)) => {
                            let ghost before = flags@;
                            flags.push(entry);
                            proof {
                                assert(entries_view(flags@) =~= entries_view(before).push(entry@));
                            }
                            skip = skip_by;
                        },
                        Err(e) => {
                            proof {
                                lemma_parse_err_stays(defs, args, i + 1, len as int);
                            }
                            return Err(e);
                        },
                    }
                } else {
                    match parse_aliases(cli_arg, flag_def, cli_args, i) {
                        Ok((entries, skip_by)) => {
                            let ghost before = flags@;
                            let mut j: usize = 0;
                            while j < entries.len()
                                invariant
                                    j <= entries@.len(),
                                    entries_view(flags@) =~= entries_view(before) + entries_view(
                                        entries@,
                                    ).subrange(0, j as int),
                                decreases entries@.len() - j,
                            {
                                let ghost mid = flags@;
                                let e = &entries[j];
                                flags.push(ParsedArgEntry { name: e.name, data: e.data.clone() });
                                proof {
                                    assert(entries_view(flags@) =~= entries_view(mid).push(
                                        entries@[j as int]@,
                                    ));
                                }
                                j = j + 1;
                            }
                            assert(entries_view(entries@).subrange(0, entries@.len() as int)
                                =~= entries_view(entries@));
                            skip = skip_by;
                        },
                        Err(e) => {
                            proof {
                                lemma_parse_err_stays(defs, args, i + 1, len as int);
                            }
                            return Err(e);
                        },
                    }
                }
            } else {
                let ghost before = raw@;
                raw.push(cli_arg);
                proof {
                    assert(strs_view(raw@) =~= strs_view(before).push(cli_arg@));
                }
            }
            i = i + 1;
        }
        Ok(ParsedCLIArgs { raw, flags })
    }
}

/// Whether an argument does not start with `-`.
pub open spec fn is_plain(a: Seq<char>) -> bool {
    a.len() == 0 || a[0] != '-'
}

/// A command line with no flags parses to its arguments after the program's
/// name, in order, as plain arguments.
pub proof fn law_plain_arguments(defs: Seq<FlagArg>, args: Seq<Seq<char>>)
    requires
        args.len() >= 1,
        forall|i: int| 1 <= i < args.len() ==> is_plain(#[trigger] args[i]),
    ensures
        parse_upto(defs, args, args.len() as int) == Ok::<
            (Seq<Seq<char>>, Seq<EntryView>, nat),
            ArgErrorView,
        >((args.subrange(1, args.len() as int), Seq::empty(), 0)),
{
    lemma_plain_prefix(defs, args, args.len() as int);
}

proof fn lemma_plain_prefix(defs: Seq<FlagArg>, args: Seq<Seq<char>>, i: int)
    requires
        1 <= i <= args.len(),
        forall|j: int| 1 <= j < args.len() ==> is_plain(#[trigger] args[j]),
    ensures
        parse_upto(defs, args, i) == Ok::<
            (Seq<Seq<char>>, Seq<EntryView>, nat),
            ArgErrorView,
        >((args.subrange(1, i), Seq::empty(), 0)),
    decreases i,
{
    if i == 1 {
        assert(args.subrange(1, 1) =~= Seq::<Seq<char>>::empty());
    } else {
        lemma_plain_prefix(defs, args, i - 1);
        assert(is_plain(args[i - 1]));
        assert(args.subrange(1, i) =~= args.subrange(1, i - 1).push(args[i - 1]));
    }
}

} // verus!
