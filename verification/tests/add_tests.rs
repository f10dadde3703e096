use tapeworm::add::{parse, scrape_target};

#[test]
fn parses_terms() {
    let terms = vec![String::from("Darude"), String::from("Sandstorm")];
    assert_eq!(
        parse(&terms, &vec![None, None]),
        String::from("ytsearch:Darude\nytsearch:Sandstorm")
    );

    let terms = vec![String::from("Darude Sandstorm")];
    assert_eq!(parse(&terms, &vec![None]), String::from("ytsearch:Darude Sandstorm"));
}

#[test]
fn parses_urls() {
    let terms = vec![
        String::from("https://www.youtube.com/watch?v=dQw4w9WgXcQ"),
        String::from("https://www.youtube.com/watch?v=y6120QOlsfU"),
    ];
    assert_eq!(
        parse(&terms, &vec![None, None]),
        String::from(
            "\
https://www.youtube.com/watch?v=dQw4w9WgXcQ
https://www.youtube.com/watch?v=y6120QOlsfU"
        )
    );
}

#[test]
fn parses_terms_and_urls() {
    let terms = vec![
        String::from("https://www.youtube.com/watch?v=dQw4w9WgXcQ"),
        String::from("Darude Sandstorm"),
        String::from("Rickroll"),
        String::from("https://www.youtube.com/watch?v=y6120QOlsfU"),
    ];
    assert_eq!(
        parse(&terms, &vec![None, None, None, None]),
        String::from(
            "\
https://www.youtube.com/watch?v=dQw4w9WgXcQ
ytsearch:Darude Sandstorm
ytsearch:Rickroll
https://www.youtube.com/watch?v=y6120QOlsfU"
        )
    );
}

#[test]
fn normalizes_urls() {
    // the URL parser lowercases the scheme and the host but keeps the path
    let terms = vec![String::from("HTTPS://EXAMPLE.COM/MixedCase")];
    assert_eq!(parse(&terms, &vec![None]), String::from("https://example.com/MixedCase"));
}

#[test]
fn finds_playlist_targets() {
    assert_eq!(
        scrape_target(&String::from("https://open.spotify.com/playlist/37i9dQZF1DX0XUsuxWHRQd")),
        Some(String::from("https://open.spotify.com/playlist/37i9dQZF1DX0XUsuxWHRQd"))
    );
    assert_eq!(
        scrape_target(&String::from("https://www.youtube.com/watch?v=dQw4w9WgXcQ")),
        None
    );
    assert_eq!(
        scrape_target(&String::from("https://open.spotify.com/track/abc")),
        None
    );
    assert_eq!(scrape_target(&String::from("not a url")), None);
}

#[test]
fn expands_scraped_playlists() {
    let terms = vec![
        String::from("https://open.spotify.com/playlist/xyz"),
        String::from("Other Song"),
    ];
    let scraped = vec![
        Some(vec![String::from("Song One Artist"), String::from("Song Two Artist")]),
        None,
    ];
    assert_eq!(
        parse(&terms, &scraped),
        String::from(
            "ytsearch:Song One Artist\nytsearch:Song Two Artist\nytsearch:Other Song"
        )
    );
    // a failed scrape contributes nothing for its term
    let scraped = vec![None, None];
    assert_eq!(parse(&terms, &scraped), String::from("ytsearch:Other Song"));
}
