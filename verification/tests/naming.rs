use oggify::kinds::LinkKind;
use oggify::naming::{file_name, group_label, join, NameOrder, NamingRules};

const UNIX: NamingRules = NamingRules { order: NameOrder::ContributorsFirst, windows: false };
const WINDOWS: NamingRules = NamingRules { order: NameOrder::ContributorsFirst, windows: true };
const TITLE_FIRST: NamingRules = NamingRules { order: NameOrder::TitleFirst, windows: false };

fn names(list: &[&str]) -> Vec<String> {
    list.iter().map(|s| s.to_string()).collect()
}

fn reference(raw: &str, windows: bool) -> String {
    sanitize_filename::sanitize_with_options(
        raw,
        sanitize_filename::Options { windows, truncate: true, replacement: "" },
    )
}

#[test]
fn contributors_are_joined_with_commas() {
    assert_eq!(join(&names(&["A", "B", "C"]), ", "), "A, B, C");
    assert_eq!(join(&names(&["A"]), ", "), "A");
    assert_eq!(join(&names(&[]), ", "), "");
    assert_eq!(join(&names(&["", ""]), "-"), "-");
}

#[test]
fn file_name_lists_contributors_then_title() {
    assert_eq!(file_name(UNIX, &names(&["Miles Davis", "John Coltrane"]), "So What"), "Miles Davis, John Coltrane - So What.ogg");
    assert_eq!(file_name(UNIX, &names(&[]), "Untitled"), " - Untitled.ogg");
}

#[test]
fn file_name_can_list_the_title_first() {
    assert_eq!(file_name(TITLE_FIRST, &names(&["Miles Davis", "John Coltrane"]), "So What"), "So What - Miles Davis, John Coltrane.ogg");
}

#[test]
fn title_first_name_keeps_its_extension_when_cut() {
    let name = file_name(TITLE_FIRST, &names(&["b"]), &"a".repeat(300));
    assert_eq!(name, format!("{}.ogg", "a".repeat(255)));
    assert_eq!(name.len(), 259);
    let name = file_name(TITLE_FIRST, &names(&["b"]), &"é".repeat(200));
    assert_eq!(name, format!("{}.ogg", "é".repeat(127)));
    assert_eq!(name.len(), 258);
    let name = file_name(TITLE_FIRST, &names(&[&"b".repeat(300)]), "a");
    assert_eq!(name, format!("a - {}.ogg", "b".repeat(251)));
}

#[test]
fn title_first_name_is_sanitized_before_the_extension() {
    let windows = NamingRules { order: NameOrder::TitleFirst, windows: true };
    assert_eq!(file_name(windows, &names(&["y."]), "x"), "x - y.ogg");
    assert_eq!(file_name(TITLE_FIRST, &names(&["y."]), "x"), "x - y..ogg");
    assert_eq!(file_name(windows, &names(&["y. . "]), "x"), "x - y.ogg");
    assert_eq!(file_name(windows, &names(&[]), "x"), "x -.ogg");
    assert_eq!(file_name(TITLE_FIRST, &names(&[]), "x"), "x - .ogg");
    assert_eq!(file_name(TITLE_FIRST, &names(&["A/C"]), "a:b"), "ab - AC.ogg");
}

#[test]
fn contributors_first_name_is_sanitized_with_the_extension() {
    assert_eq!(file_name(WINDOWS, &names(&["y"]), "x."), "y - x..ogg");
    assert_eq!(file_name(UNIX, &names(&["y"]), "x."), "y - x..ogg");
}

#[test]
fn reserved_characters_are_taken_out() {
    let name = file_name(UNIX, &names(&["AC/DC"]), "Who: What? <Why> \"Now\" a\\b|c*");
    assert_eq!(name, "ACDC - Who What Why Now abc.ogg");
    for c in ['/', '?', '<', '>', '\\', ':', '*', '|', '"'] {
        assert!(!name.contains(c));
    }
}

#[test]
fn control_characters_are_taken_out() {
    assert_eq!(file_name(UNIX, &names(&["a\u{0}b\tc\u{85}d\u{9f}e"]), "x\ny\u{1f}z"), "abcde - xyz.ogg");
    assert_eq!(file_name(UNIX, &names(&["\u{7f}\u{a0}"]), "é"), "\u{7f}\u{a0} - é.ogg");
}

#[test]
fn sanitizing_a_file_name_again_changes_nothing() {
    for title in ["So What", "a/b:c", "é ü", "x?.y", "..", ""] {
        let once = file_name(UNIX, &names(&["A:B"]), title);
        assert_eq!(reference(&once, false), once);
        let once = file_name(WINDOWS, &names(&["A:B"]), title);
        assert_eq!(reference(&once, true), once);
    }
}

#[test]
fn long_names_are_cut_to_255_bytes() {
    let title = "x".repeat(300);
    let name = file_name(UNIX, &names(&["A"]), &title);
    assert_eq!(name, format!("A - {}", "x".repeat(251)));
    assert_eq!(name.len(), 255);
}

#[test]
fn long_names_are_cut_between_characters() {
    let title = "é".repeat(200);
    let name = file_name(UNIX, &names(&["A"]), &title);
    assert_eq!(name, format!("A - {}", "é".repeat(125)));
    assert_eq!(name.len(), 254);
    let name = file_name(UNIX, &names(&["AB"]), &"\u{10348}".repeat(100));
    assert_eq!(name, format!("AB - {}", "\u{10348}".repeat(62)));
    assert_eq!(name.len(), 253);
    let name = file_name(UNIX, &names(&["AB"]), &"\u{20ac}".repeat(100));
    assert_eq!(name, format!("AB - {}", "\u{20ac}".repeat(83)));
    assert_eq!(name.len(), 254);
}

#[test]
fn cutting_can_leave_a_name_that_is_not_kept() {
    let dots = ".".repeat(255);
    let name = file_name(UNIX, &names(&[&dots]), "x");
    assert_eq!(name, dots);
    assert_eq!(reference(&name, false), "");
}

#[test]
fn windows_rules_drop_trailing_dots_and_spaces() {
    let rules = NamingRules { order: NameOrder::TitleFirst, windows: true };
    assert_eq!(group_label(LinkKind::Album, "Live. . ", true), Some("albums/Live".to_string()));
    assert_eq!(group_label(LinkKind::Album, "Live. . ", false), Some("albums/Live. . ".to_string()));
    assert_eq!(file_name(rules, &names(&["B"]), "A"), "A - B.ogg");
}

#[test]
fn windows_rules_drop_device_names() {
    for name in ["con", "CON", "Prn", "aux.txt", "nul.", "COM1", "lpt9.tar.gz", "com0"] {
        assert_eq!(group_label(LinkKind::Playlist, name, true), Some("playlists/".to_string()), "name {:?}", name);
        assert_eq!(group_label(LinkKind::Playlist, name, false), Some(format!("playlists/{}", name)));
    }
    for name in ["cons", "com", "com10", "lpt", "con-", "xcon", "co", "auxiliary", "nul1", "comA", " con"] {
        assert_eq!(group_label(LinkKind::Playlist, name, true), Some(format!("playlists/{}", name)), "name {:?}", name);
    }
    assert_eq!(group_label(LinkKind::Playlist, "con ", true), Some("playlists/con".to_string()));
}

#[test]
fn names_of_dots_alone_become_empty() {
    for name in [".", "..", "...", "/..", "../"] {
        assert_eq!(group_label(LinkKind::Album, name, false), Some("albums/".to_string()));
    }
    assert_eq!(group_label(LinkKind::Album, ".a.", false), Some("albums/.a.".to_string()));
}

#[test]
fn groups_follow_the_kind_of_link() {
    assert_eq!(group_label(LinkKind::Playlist, "My: Mix", false), Some("playlists/My Mix".to_string()));
    assert_eq!(group_label(LinkKind::Album, "Kind/of Blue", false), Some("albums/Kindof Blue".to_string()));
    assert_eq!(group_label(LinkKind::Track, "anything", false), Some("tracks".to_string()));
    assert_eq!(group_label(LinkKind::Episode, "anything", false), None);
    assert_eq!(group_label(LinkKind::Show, "anything", false), None);
}

#[test]
fn names_are_cleaned_as_listed() {
    let cases = [
        ("the quick brown fox jumped over the lazy dog", "the quick brown fox jumped over the lazy dog"),
        ("résumé", "résumé"),
        ("hello\u{0}world", "helloworld"),
        ("hello\nworld", "helloworld"),
        ("semi;colon.js", "semi;colon.js"),
        ("slash\\.js", "slash.js"),
        ("slash/.js", "slash.js"),
        ("col:on.js", "colon.js"),
        ("star*.js", "star.js"),
        ("question?.js", "question.js"),
        ("quote\".js", "quote.js"),
        ("singlequote'.js", "singlequote'.js"),
        ("brack<e>ts.js", "brackets.js"),
        ("p|pes.js", "ppes.js"),
        (" space at front", " space at front"),
        ("space at end ", "space at end"),
        (".period", ".period"),
        ("period.", "period"),
        ("relative/path/to/some/dir", "relativepathtosomedir"),
        ("~/.\u{0}notssh/authorized_keys", "~.notsshauthorized_keys"),
        ("", ""),
        ("h?w", "hw"),
        (".", ""),
        ("..", ""),
        ("./", ""),
        ("/../", ""),
        ("*.|.", ""),
        ("./foobar", ".foobar"),
        ("../../foobar", "....foobar"),
        ("|*.what", ".what"),
        ("LPT9.asdf", ""),
        ("foobar...", "foobar"),
    ];
    for (name, cleaned) in cases {
        assert_eq!(group_label(LinkKind::Album, name, true), Some(format!("albums/{}", cleaned)), "name {:?}", name);
    }
    let unix = [("space at end ", "space at end "), ("period.", "period."), ("LPT9.asdf", "LPT9.asdf"), ("*.|.", ""), ("foobar...", "foobar...")];
    for (name, cleaned) in unix {
        assert_eq!(group_label(LinkKind::Album, name, false), Some(format!("albums/{}", cleaned)), "name {:?}", name);
    }
}
