use tapeworm::util::{
    choose_option, input, parse, parse_u16, remove_brackets, remove_duplicate_whitespace,
    remove_empty_brackets, remove_str_from_string, PromptOption,
};

#[test]
fn removes_brackets() {
    let inputs = [
        ("(official video)", "official video"),
        ("[hard remix]", "hard remix"),
        ("{instrumental}", "instrumental"),
        ("<remix>", "remix"),
        ("( extended mix )", "extended mix"),
        ("【mix】", "mix"),
        (" [remix]", "remix"),
        (" [ remix ]  ", "remix"),
        ("(OFFICIAL MUSIC VIDEO 🎵)", "OFFICIAL MUSIC VIDEO 🎵"),
    ];
    for (input, expected) in inputs {
        assert_eq!(remove_brackets(input), expected);
    }
}

#[test]
fn removes_str_from_string() {
    let inputs = [
        ("Official HD Video", "HD", "Official  Video"),
        ("03. Artist - Song", "03.", "Artist - Song"),
        ("A ➕ B", "B", "A ➕"),
        ("A ➕ B", "➕", "A  B"),
    ];
    for (input, to_remove, expected) in inputs {
        assert_eq!(remove_str_from_string(input.to_string(), to_remove), expected);
    }
}

#[test]
fn removes_empty_brackets() {
    let inputs = [
        ("", ""),
        ("(", "("),
        (")", ")"),
        ("()", ""),
        ("[]", ""),
        ("{}", ""),
        ("<>", ""),
        ("(<>)[]", ""),
        ("[(()<{}>)[]((()))]", ""),
        ("Song ()", "Song "),
        ("Song 🎵 []", "Song 🎵 "),
    ];
    for (input, expected) in inputs {
        assert_eq!(remove_empty_brackets(input.to_string()), expected);
    }
}

#[test]
fn removes_duplicate_whitespace() {
    let inputs = [
        ("  ", " "),
        ("a  b", "a b"),
        ("a   b", "a b"),
        ("a  bc  d", "a bc d"),
        ("Song  🎵", "Song 🎵"),
        ("🎵  Song", "🎵 Song"),
    ];
    for (input, expected) in inputs {
        assert_eq!(remove_duplicate_whitespace(input.to_string()), expected);
    }
}

#[test]
fn empty_bracket_removal_is_idempotent_on_samples() {
    for s in ["(<>)[]x", "a(()", "Song ()", "((((", "[x]()[]<z>{}"] {
        let once = remove_empty_brackets(s.to_string());
        let twice = remove_empty_brackets(once.clone());
        assert_eq!(once, twice);
    }
}

#[test]
fn whitespace_collapse_is_idempotent_on_samples() {
    for s in ["a    b  c", "   ", "x y", "a  b   c    d"] {
        let once = remove_duplicate_whitespace(s.to_string());
        let twice = remove_duplicate_whitespace(once.clone());
        assert_eq!(once, twice);
    }
}

#[test]
fn input_trims_and_lowercases() {
    assert_eq!(input(String::from("  Hello World \n"), false), "Hello World");
    assert_eq!(input(String::from("  YES\n"), true), "yes");
    assert_eq!(input(String::from("\n"), true), "");
}

#[test]
fn parses_optional_numbers() {
    assert_eq!(parse(None), Ok(None));
    assert_eq!(parse(Some(String::from("2024"))), Ok(Some(2024)));
    assert_eq!(parse(Some(String::from("-5"))), Ok(Some(-5)));
    assert_eq!(
        parse(Some(String::from("20x4"))),
        Err(String::from("Invalid value: 20x4"))
    );
    assert_eq!(parse_u16(None), Ok(None));
    assert_eq!(parse_u16(Some(String::from("04"))), Ok(Some(4)));
    assert_eq!(parse_u16(Some(String::from("65535"))), Ok(Some(65535)));
    assert_eq!(
        parse_u16(Some(String::from("65536"))),
        Err(String::from("Invalid value: 65536"))
    );
    assert_eq!(
        parse_u16(Some(String::from("-1"))),
        Err(String::from("Invalid value: -1"))
    );
    assert_eq!(
        parse_u16(Some(String::from(""))),
        Err(String::from("Invalid value: "))
    );
}

#[test]
fn chooses_prompt_options() {
    let options = vec![PromptOption::Yes, PromptOption::No, PromptOption::Edit];
    assert_eq!(
        choose_option(&String::from("y"), &options, PromptOption::Yes),
        Some(PromptOption::Yes)
    );
    assert_eq!(
        choose_option(&String::from("no thanks"), &options, PromptOption::Yes),
        Some(PromptOption::No)
    );
    assert_eq!(
        choose_option(&String::from("e"), &options, PromptOption::Yes),
        Some(PromptOption::Edit)
    );
    // the empty line takes the default
    assert_eq!(
        choose_option(&String::from(""), &options, PromptOption::No),
        Some(PromptOption::No)
    );
    // a letter that selects nothing on offer asks again
    assert_eq!(choose_option(&String::from("a"), &options, PromptOption::Yes), None);
    assert_eq!(choose_option(&String::from("x"), &options, PromptOption::Yes), None);
}

#[test]
fn prompt_option_text() {
    assert_eq!(PromptOption::Yes.symbol(), "y");
    assert_eq!(PromptOption::No.symbol(), "n");
    assert_eq!(PromptOption::Edit.symbol(), "e");
    assert_eq!(PromptOption::YesToAll.symbol(), "a");
    assert_eq!(PromptOption::Yes.info(), "Yes");
    assert_eq!(PromptOption::YesToAll.info(), "yes to All");
}
