use nisvc::arg_parser::{ArgParseError, FlagArg, Flags, ParsedCLIArgs};

fn definitions() -> Vec<FlagArg<'static>> {
    vec![
        FlagArg::new("verbose", 'v', 0),
        FlagArg::new("heap", 'h', 1),
        FlagArg::new("dims", 'd', 2),
    ]
}

fn args(words: &[&str]) -> Vec<String> {
    words.iter().map(|w| w.to_string()).collect()
}

fn names<'a>(parsed: &ParsedCLIArgs<'a>) -> Vec<(&'a str, Vec<&'a str>)> {
    parsed.flags.iter().map(|e| (e.name, e.data.clone())).collect()
}

#[test]
fn flag_definition_fields() {
    let f = FlagArg::new("heap", 'h', 1);
    assert_eq!((f.name, f.alias, f.fields), ("heap", 'h', 1));
}

#[test]
fn lookups_find_the_last_definition() {
    let defs = vec![FlagArg::new("a", 'x', 0), FlagArg::new("b", 'x', 1), FlagArg::new("a", 'y', 2)];
    let flags = Flags::new(&defs);
    assert_eq!(flags.get_flag_from_alias('x').map(|f| f.name), Some("b"));
    assert_eq!(flags.get_flag_from_full("a").map(|f| f.alias), Some('y'));
    assert!(flags.get_flag_from_alias('z').is_none());
    assert!(flags.get_flag_from_full("c").is_none());
}

#[test]
fn plain_arguments_only() {
    let defs = definitions();
    let flags = Flags::new(&defs);
    let cli = args(&["prog", "one", "two"]);
    let parsed = ParsedCLIArgs::parse_arguments(&flags, &cli).ok().unwrap();
    assert_eq!(parsed.raw, vec!["one", "two"]);
    assert!(parsed.flags.is_empty());
}

#[test]
fn the_program_name_is_skipped_even_as_a_flag() {
    let defs = definitions();
    let flags = Flags::new(&defs);
    let cli = args(&["--bogus", "x"]);
    let parsed = ParsedCLIArgs::parse_arguments(&flags, &cli).ok().unwrap();
    assert_eq!(parsed.raw, vec!["x"]);
}

#[test]
fn full_flags_take_their_arguments() {
    let defs = definitions();
    let flags = Flags::new(&defs);
    let cli = args(&["prog", "--heap", "100", "file", "--verbose", "--dims", "3", "4", "tail"]);
    let parsed = ParsedCLIArgs::parse_arguments(&flags, &cli).ok().unwrap();
    assert_eq!(parsed.raw, vec!["file", "tail"]);
    assert_eq!(
        names(&parsed),
        vec![("heap", vec!["100"]), ("verbose", vec![]), ("dims", vec!["3", "4"])]
    );
}

#[test]
fn alias_groups_give_one_flag_each() {
    let defs = definitions();
    let flags = Flags::new(&defs);
    let cli = args(&["prog", "-vh", "5", "x"]);
    let parsed = ParsedCLIArgs::parse_arguments(&flags, &cli).ok().unwrap();
    assert_eq!(names(&parsed), vec![("verbose", vec![]), ("heap", vec!["5"])]);
    assert_eq!(parsed.raw, vec!["x"]);
}

#[test]
fn a_lone_dash_is_an_empty_group() {
    let defs = definitions();
    let flags = Flags::new(&defs);
    let cli = args(&["prog", "-", "x"]);
    let parsed = ParsedCLIArgs::parse_arguments(&flags, &cli).ok().unwrap();
    assert!(parsed.flags.is_empty());
    assert_eq!(parsed.raw, vec!["x"]);
}

#[test]
fn arguments_only_for_the_last_alias() {
    let defs = definitions();
    let flags = Flags::new(&defs);
    let cli = args(&["prog", "-hv", "5"]);
    assert!(matches!(
        ParsedCLIArgs::parse_arguments(&flags, &cli),
        Err(ArgParseError::ArgumentsNotLast { name: "heap", arg: "-hv" })
    ));
}

#[test]
fn unknown_alias() {
    let defs = definitions();
    let flags = Flags::new(&defs);
    let cli = args(&["prog", "-vx"]);
    assert!(matches!(
        ParsedCLIArgs::parse_arguments(&flags, &cli),
        Err(ArgParseError::UnknownAlias { alias: 'x' })
    ));
}

#[test]
fn unknown_full_flag() {
    let defs = definitions();
    let flags = Flags::new(&defs);
    let cli = args(&["prog", "--nope"]);
    assert!(matches!(
        ParsedCLIArgs::parse_arguments(&flags, &cli),
        Err(ArgParseError::UnknownFlag { arg: "--nope" })
    ));
}

#[test]
fn missing_full_flag_arguments() {
    let defs = definitions();
    let flags = Flags::new(&defs);
    let cli = args(&["prog", "--dims", "1"]);
    assert!(matches!(
        ParsedCLIArgs::parse_arguments(&flags, &cli),
        Err(ArgParseError::MissingFlagArguments { name: "dims", fields: 2 })
    ));
}

#[test]
fn missing_alias_arguments_counts_what_was_given() {
    let defs = definitions();
    let flags = Flags::new(&defs);
    let cli = args(&["prog", "-d", "1"]);
    assert!(matches!(
        ParsedCLIArgs::parse_arguments(&flags, &cli),
        Err(ArgParseError::MissingAliasArguments { name: "dims", fields: 2, provided: 1 })
    ));
}

#[test]
fn empty_command_line() {
    let defs = definitions();
    let flags = Flags::new(&defs);
    let cli: Vec<String> = vec![];
    let parsed = ParsedCLIArgs::parse_arguments(&flags, &cli).ok().unwrap();
    assert!(parsed.raw.is_empty());
    assert!(parsed.flags.is_empty());
}
