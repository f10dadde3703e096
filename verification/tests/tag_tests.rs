use tapeworm::proposal::TagProposal;
use tapeworm::tag::{session_step, SessionState, TagExtractor};
use tapeworm::util::PromptOption;

fn check(extractor: &TagExtractor, input: &str, expected: TagProposal) {
    assert_eq!(extractor.build_tags(input), expected);
}

fn artist_list(artists: &str) -> Option<Vec<String>> {
    Some(artists.split(';').map(String::from).collect())
}

fn song(artists: &str, title: &str) -> TagProposal {
    TagProposal {
        all_artists: artist_list(artists),
        title: Some(String::from(title)),
        ..Default::default()
    }
}

fn genre_song(genre: &str, artists: &str, title: &str) -> TagProposal {
    TagProposal {
        genre: Some(String::from(genre)),
        all_artists: artist_list(artists),
        title: Some(String::from(title)),
        ..Default::default()
    }
}

fn year(artists: &str, title: &str, year: i32) -> TagProposal {
    TagProposal {
        all_artists: artist_list(artists),
        title: Some(String::from(title)),
        year: Some(year),
        ..Default::default()
    }
}

fn rmx(artists: &str, title: &str, remix: &str) -> TagProposal {
    TagProposal {
        all_artists: artist_list(artists),
        title: Some(String::from(title)),
        remix: Some(String::from(remix)),
        ..Default::default()
    }
}

fn rmx_year(artists: &str, title: &str, remix: &str, year: i32) -> TagProposal {
    TagProposal {
        all_artists: artist_list(artists),
        title: Some(String::from(title)),
        remix: Some(String::from(remix)),
        year: Some(year),
        ..Default::default()
    }
}

fn track(track: u16, artists: &str, title: &str) -> TagProposal {
    TagProposal {
        track: Some(track),
        all_artists: artist_list(artists),
        title: Some(String::from(title)),
        ..Default::default()
    }
}

fn album(album: &str, artists: &str, title: &str) -> TagProposal {
    TagProposal {
        album: Some(String::from(album)),
        all_artists: artist_list(artists),
        title: Some(String::from(title)),
        ..Default::default()
    }
}

#[test]
fn parses_separator() {
    let r = TagExtractor::new(true);
    check(&r, "Band - Song", song("Band", "Song"));
    check(&r, "Band _ Song", song("Band", "Song"));
    check(&r, "Band ~ Song", song("Band", "Song"));
    check(&r, "Band ｜ Song", song("Band", "Song"));
}

#[test]
fn parses_separator_whitespace_variants() {
    let r = TagExtractor::new(false);
    check(&r, "A - B", song("A", "B"));
    check(&r, "A- B", song("A", "B"));
    check(&r, "A -B", song("A", "B"));
    check(&r, "A-B", song("A", "B"));
    check(&r, "A _ B", song("A", "B"));
    check(&r, "A ~ B", song("A", "B"));
    check(&r, "A ｜ B", song("A", "B"));
}

#[test]
fn parses_featuring_artists() {
    let r = TagExtractor::new(true);
    let inputs = [
        ("Artist & Band - Song", "Artist;Band"),
        ("Artist, Other & Another - Song", "Artist;Other;Another"),
        ("Artist ft. Other - Song", "Artist;Other"),
        ("Artist & Band feat. Other - Song", "Artist;Band;Other"),
        ("Soft Artist - Song", "Soft Artist"),
        ("Artist - Song (feat.Band)", "Artist;Band"),
        ("Artist - Song w/Band", "Artist;Band"),
        ("Artist - Song W/Band", "Artist;Band"),
        ("Artist ， Band - Song", "Artist;Band"),
        ("Artist x Band - Song", "Artist;Band"),
    ];
    for (input_str, expected_output) in inputs {
        check(&r, input_str, song(expected_output, "Song"));
    }
}

#[test]
fn parses_every_feature_connector() {
    let r = TagExtractor::new(false);
    let inputs = [
        "A & B - Song",
        "A, B - Song",
        "A and B - Song",
        "A feat B - Song",
        "A feat. B - Song",
        "A featuring B - Song",
        "A ft B - Song",
        "A ft. B - Song",
        "A w/B - Song",
        "A W/B - Song",
        "A ， B - Song",
        "A x B - Song",
    ];
    for input_str in inputs {
        check(&r, input_str, song("A;B", "Song"));
    }
}

#[test]
fn parses_year() {
    let r = TagExtractor::new(true);
    check(&r, "Band - Song (2024)", year("Band", "Song", 2024));
    check(&r, "Band - Song 2024", year("Band", "Song", 2024));
}

#[test]
fn leaves_year_unset_without_one() {
    let r = TagExtractor::new(false);
    let got = r.build_tags("Band - Song");
    assert_eq!(got.year, None);
}

#[test]
fn parses_track_number() {
    let r = TagExtractor::new(true);
    check(&r, "04. Band - Song", track(4, "Band", "Song"));
}

#[test]
fn parses_remix() {
    let r = TagExtractor::new(true);
    let inputs = [
        ("Band - Song [Club Remix]", "Club Remix"),
        ("Band - Song [Instrumental]", "Instrumental"),
        ("Band - Song (HQ REMASTER)", "HQ REMASTER"),
        ("Band - Song (Extended)", "Extended"),
        ("Band - Song (Extended Mix)", "Extended Mix"),
        ("Band - Song (Radio Edit)", "Radio Edit"),
        ("Band - Song (Edit)", "Edit"),
        ("Band - Song (Radio Cut)", "Radio Cut"),
    ];
    for (input_str, expected_output) in inputs {
        check(&r, input_str, rmx("Band", "Song", expected_output));
    }
}

#[test]
fn strips_useless_info() {
    let r = TagExtractor::new(true);
    let inputs = [
        "Artist - Song [HQ]",
        "Artist - Song [HD]",
        "Artist - Song [M/V]",
        "Artist - Song (Official Music Video)",
        "Artist - Song (Official Video)",
        "Artist - Song (Official HD Video)",
        "Artist - Song (Official Audio)",
        "Artist - Song (Music Video)",
        "Artist - Song [Original Mix]",
        "Artist - Song [Full version]",
    ];
    for input_str in inputs {
        check(&r, input_str, song("Artist", "Song"));
    }
}

#[test]
fn parses_complex_formats() {
    let r = TagExtractor::new(true);
    check(&r, "A & B - S (mix) 2003", rmx_year("A;B", "S", "mix", 2003));
    check(&r, "「Big」[Band] Song", genre_song("Big", "Band", "Song"));
    check(&r, "Artist 'Title'", song("Artist", "Title"));
    check(&r, "Artist 'Title' (Edit)", rmx("Artist", "Title", "Edit"));
    check(&r, "A ‘Title’ (Feat. B)", song("A;B", "Title"));
    check(&r, "A - Title (F/C Vibes)", album("Vibes", "A", "Title"));
}

#[test]
fn generates_filename_from_template() {
    let title_template = String::from("{title} ({feat}) [{remix}]");
    let filename_template = String::from("{artist} - {title}");

    let inputs = [
        (TagProposal::default(), "-"),
        (song("Artist", "Song"), "Artist - Song"),
        (song("A;B;C", "Song"), "A - Song (B & C)"),
        (rmx("Artist", "Song", "Remix"), "Artist - Song [Remix]"),
        (rmx("A;B", "Song", "Edit"), "A - Song (B) [Edit]"),
    ];
    for (mut proposal, expected) in inputs {
        proposal.update(&title_template, &filename_template);
        assert_eq!(proposal.filename, expected);
    }
}

#[test]
fn renders_final_title_and_artist() {
    let title_template = String::from("{title} ({feat}) [{remix}]");
    let filename_template = String::from("{artist} - {title}");
    let mut proposal = song("A;B;C", "Song");
    proposal.update(&title_template, &filename_template);
    assert_eq!(proposal.artist, Some(String::from("A")));
    assert_eq!(proposal.final_title, Some(String::from("Song (B & C)")));
    assert_eq!(proposal.filename, "A - Song (B & C)");
}

#[test]
fn sanitizes_filename() {
    let title_template = String::from("{title}");
    let filename_template = String::from("{title}");
    let mut proposal = song("X", "Who/What: Why?");
    proposal.update(&title_template, &filename_template);
    // the final title keeps the raw characters, the filename loses the
    // filesystem-illegal ones
    assert_eq!(proposal.final_title, Some(String::from("Who/What: Why?")));
    assert_eq!(proposal.filename, "WhoWhat Why");
}

#[test]
fn renders_track_and_year_tokens() {
    let title_template = String::from("{track}. {title} ({year})");
    let filename_template = String::from("{title}");
    let mut proposal = TagProposal {
        track: Some(7),
        year: Some(1999),
        title: Some(String::from("Song")),
        ..Default::default()
    };
    proposal.update(&title_template, &filename_template);
    assert_eq!(proposal.final_title, Some(String::from("7. Song (1999)")));
}

#[test]
fn features_deduplicate_and_keep_order() {
    let mut proposal = TagProposal::default();
    proposal.feature(vec![String::from("A"), String::from("B")]);
    proposal.feature(vec![String::from("B"), String::from("C"), String::from("A")]);
    proposal.feature(vec![String::from(""), String::from("C")]);
    assert_eq!(
        proposal.all_artists,
        Some(vec![String::from("A"), String::from("B"), String::from("C")])
    );
}

#[test]
fn builds_nothing_from_empty_title() {
    let r = TagExtractor::new(false);
    let got = r.build_tags("");
    assert_eq!(
        got,
        TagProposal { title: Some(String::from("")), ..Default::default() }
    );
}

#[test]
fn separates_artists() {
    let r = TagExtractor::new(false);
    assert_eq!(
        r.separate("Band ft Artist, Musician & Singer"),
        vec![
            String::from("Band"),
            String::from("Artist"),
            String::from("Musician"),
            String::from("Singer"),
        ]
    );
    assert_eq!(r.separate("  "), Vec::<String>::new());
}

#[test]
fn session_transitions() {
    assert_eq!(
        session_step(SessionState::Present, false, Some(PromptOption::Yes)),
        SessionState::Accept
    );
    assert_eq!(
        session_step(SessionState::Present, false, Some(PromptOption::Edit)),
        SessionState::Edit
    );
    assert_eq!(
        session_step(SessionState::Present, false, Some(PromptOption::No)),
        SessionState::Reject
    );
    // end of input rejects; automatic mode accepts without asking
    assert_eq!(session_step(SessionState::Present, false, None), SessionState::Reject);
    assert_eq!(session_step(SessionState::Present, true, None), SessionState::Accept);
    assert_eq!(session_step(SessionState::Edit, false, None), SessionState::Present);
    assert_eq!(session_step(SessionState::Accept, false, None), SessionState::Accept);
    assert_eq!(session_step(SessionState::Reject, false, None), SessionState::Reject);
}

#[test]
fn rejects_original_mix_label() {
    // the bracket leaves the title, but the label is noise, not a remix
    let r = TagExtractor::new(false);
    let got = r.build_tags("Artist - Song [Original Mix]");
    assert_eq!(got.remix, None);
    assert_eq!(got.title, Some(String::from("Song")));
}

#[test]
fn combines_format_and_decorations() {
    let r = TagExtractor::new(false);
    let got = r.build_tags("「House」[A & B] Song (2024) [Club Mix]");
    assert_eq!(got.genre, Some(String::from("House")));
    assert_eq!(
        got.all_artists,
        Some(vec![String::from("A"), String::from("B")])
    );
    assert_eq!(got.year, Some(2024));
    assert_eq!(got.remix, Some(String::from("Club Mix")));
    assert_eq!(got.title, Some(String::from("Song")));
}

#[test]
fn keeps_unrecognized_text_in_title() {
    // the extractor is lossy on purpose: unmatched text stays in the title
    let r = TagExtractor::new(false);
    let got = r.build_tags("Band - Song extra words");
    assert_eq!(got.title, Some(String::from("Song extra words")));
}

#[test]
fn bare_feature_words_match_inside_words() {
    // the bare feature clause has no word boundary: an `ft` inside a word
    // starts one, and it runs to the end of the text
    let r = TagExtractor::new(false);
    let got = r.build_tags("Band - Song leftover words");
    assert_eq!(got.title, Some(String::from("Song le")));
    assert_eq!(
        got.all_artists,
        Some(vec![String::from("Band"), String::from("over words")])
    );
}
