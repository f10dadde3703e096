use tapeworm::editor::{parse, TagKey};
use tapeworm::proposal::TagProposal;

#[test]
fn parses_editor_commands() {
    assert_eq!(
        parse(String::from("ARTIST The Band;Singer")),
        Some((TagKey::Artist, Some(String::from("The Band;Singer"))))
    );
    assert_eq!(parse(String::from("artist")), Some((TagKey::Artist, None)));
    assert_eq!(
        parse(String::from("album_artist Various")),
        Some((TagKey::AlbumArtist, Some(String::from("Various"))))
    );
    assert_eq!(parse(String::from("TITLE")), Some((TagKey::Title, None)));
    assert_eq!(
        parse(String::from("year 2001")),
        Some((TagKey::Year, Some(String::from("2001"))))
    );
    assert_eq!(parse(String::from("bogus 1")), None);
    assert_eq!(parse(String::from("")), None);
}

#[test]
fn artist_edit_replaces_and_clears() {
    let mut proposal = TagProposal::default();
    proposal.feature(vec![String::from("Old")]);
    proposal.apply_edit(TagKey::Artist, Some(String::from("The Band;Singer")));
    assert_eq!(
        proposal.all_artists,
        Some(vec![String::from("The Band"), String::from("Singer")])
    );

    // clearing the artist after earlier feature calls empties the list, and
    // the next update leaves the derived artist unset
    proposal.apply_edit(TagKey::Artist, None);
    assert_eq!(proposal.all_artists, None);
    proposal.update(&String::from("{title}"), &String::from("{artist} - {title}"));
    assert_eq!(proposal.artist, None);
}

#[test]
fn numeric_edits_validate() {
    let mut proposal = TagProposal::default();
    let rejected = proposal.apply_edit(TagKey::Track, Some(String::from("04")));
    assert!(!rejected);
    assert_eq!(proposal.track, Some(4));

    // an invalid number is reported and the prior value is retained
    let rejected = proposal.apply_edit(TagKey::Track, Some(String::from("x4")));
    assert!(rejected);
    assert_eq!(proposal.track, Some(4));

    let rejected = proposal.apply_edit(TagKey::Year, Some(String::from("1989")));
    assert!(!rejected);
    assert_eq!(proposal.year, Some(1989));
    let rejected = proposal.apply_edit(TagKey::Year, Some(String::from("198x")));
    assert!(rejected);
    assert_eq!(proposal.year, Some(1989));

    // an edit without a value clears the field
    let rejected = proposal.apply_edit(TagKey::Year, None);
    assert!(!rejected);
    assert_eq!(proposal.year, None);
}

#[test]
fn applies_edit_lists_in_order() {
    let mut proposal = TagProposal::default();
    let edits = vec![
        (TagKey::Album, Some(String::from("First"))),
        (TagKey::Genre, Some(String::from("Jazz"))),
        (TagKey::Album, Some(String::from("Second"))),
        (TagKey::Title, Some(String::from("Song"))),
    ];
    proposal.edit(&edits);
    assert_eq!(proposal.album, Some(String::from("Second")));
    assert_eq!(proposal.genre, Some(String::from("Jazz")));
    assert_eq!(proposal.title, Some(String::from("Song")));
}
