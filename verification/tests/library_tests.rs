use tapeworm::alias::{add_alias, conf_content, remove_aliases_for_path, AliasMap};
use tapeworm::command::Command;
use tapeworm::deposit::{letter_for, target_components, DepositMode, FileMeta};

#[test]
fn overwrites_alias() {
    let mut aliases = AliasMap::new();
    add_alias(&mut aliases, &None, String::from("test"), String::from("test/library"));
    assert_eq!(aliases.len(), 1);
    assert_eq!(aliases.get("test"), Some(String::from("test/library")));

    add_alias(
        &mut aliases,
        &Some(String::from("test")),
        String::from("test2"),
        String::from("test/library"),
    );
    assert_eq!(aliases.len(), 1);
    assert_eq!(aliases.get("test2"), Some(String::from("test/library")));
}

#[test]
fn removes_aliases_for_path() {
    let mut aliases = AliasMap::new();
    add_alias(&mut aliases, &None, String::from("test"), String::from("test/library"));
    add_alias(&mut aliases, &None, String::from("alt"), String::from("alt/library"));
    add_alias(&mut aliases, &None, String::from("test2"), String::from("test/library"));

    remove_aliases_for_path(&mut aliases, &String::from("test/library"));
    assert_eq!(aliases.len(), 1);
    assert_eq!(aliases.get("alt"), Some(String::from("alt/library")));
}

#[test]
fn renders_alias_configuration() {
    let mut aliases = AliasMap::new();
    add_alias(&mut aliases, &None, String::from("a"), String::from("p/q"));
    add_alias(&mut aliases, &None, String::from("b"), String::from("r"));
    assert_eq!(conf_content(&aliases), "a=p/q\nb=r\n");
}

#[test]
fn uppercases_letter() {
    for letter in "abcdefghijklmnopqrstuvwxyz".chars() {
        assert_eq!(letter_for(&letter.to_string()), letter.to_ascii_uppercase().to_string());
    }
}

#[test]
fn handles_non_letters() {
    for symbol in ["42", "2U", ".band.", "アーティスト", "歌手"] {
        assert_eq!(letter_for(symbol), String::from("0-9#"));
    }
}

#[test]
fn parses_commands() {
    assert_eq!(Command::from("help"), Ok(Command::Help));
    assert_eq!(Command::from("-h"), Ok(Command::Help));
    assert_eq!(Command::from("ls"), Ok(Command::List));
    assert_eq!(Command::from("tag"), Ok(Command::Tag));
    assert_eq!(Command::from("process"), Ok(Command::Process));
    assert_eq!(
        Command::from("bogus"),
        Err(String::from("Unrecognized command: bogus. See 'help'"))
    );
}

#[test]
fn classifies_commands() {
    assert!(Command::Tag.uses_lib_conf());
    assert!(!Command::Add.uses_lib_conf());
    assert!(Command::Deposit.uses_cli());
    assert!(!Command::Alias.uses_cli());
    assert!(Command::Download.is_valid_processing_step());
    assert!(!Command::Show.is_valid_processing_step());
}

#[test]
fn parses_deposit_modes() {
    assert_eq!(DepositMode::from("A-Z"), Ok(DepositMode::Alphabetical));
    assert_eq!(DepositMode::from("DATE"), Ok(DepositMode::Chronological));
    assert_eq!(
        DepositMode::from("XYZ"),
        Err(String::from("Invalid organization mode: 'XYZ'. See 'help'"))
    );
}

fn meta(
    filename: &str,
    artist: Option<&str>,
    album: Option<&str>,
    created: Option<(i32, u32)>,
) -> FileMeta {
    FileMeta {
        filename: String::from(filename),
        artist: artist.map(String::from),
        album: album.map(String::from),
        created,
    }
}

#[test]
fn plans_deposit_targets() {
    // dropped files get no subfolder
    assert_eq!(
        target_components(DepositMode::Drop, &meta("x.mp3", None, None, None)),
        Ok(vec![])
    );
    // dated subfolders are year and zero-padded month
    assert_eq!(
        target_components(DepositMode::Chronological, &meta("x.mp3", None, None, Some((2024, 4)))),
        Ok(vec![String::from("2024"), String::from("04")])
    );
    assert_eq!(
        target_components(DepositMode::Chronological, &meta("x.mp3", None, None, None)),
        Err(String::from("! Unsupported platform: can't get file date"))
    );
    // the artist tag wins, with the album below it
    assert_eq!(
        target_components(
            DepositMode::Alphabetical,
            &meta("Song.mp3", Some("Band"), Some("Album"), None),
        ),
        Ok(vec![String::from("B"), String::from("Band"), String::from("Album")])
    );
    // without a tag the artist is guessed from the filename
    assert_eq!(
        target_components(DepositMode::Alphabetical, &meta("Band - Song.mp3", None, None, None)),
        Ok(vec![String::from("B"), String::from("Band")])
    );
    // without any artist the file's own letter decides
    assert_eq!(
        target_components(DepositMode::Alphabetical, &meta("randomfile.jpg", None, None, None)),
        Ok(vec![String::from("R")])
    );
}
