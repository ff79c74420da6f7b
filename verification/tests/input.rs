use idk::input::{glob_result, glob_steps, GlobEntry, GlobStep};
use idk::input::{
    expansion, invalid_pattern_message, is_glob, is_mp3, matched, no_match_message, unique_files,
    Expansion, Inputs, Matched,
};

#[test]
fn collapses_duplicate_inputs() {
    let files = unique_files(&vec![
        ("/tmp/x/song.mp3".to_owned(), "/tmp/x/song.mp3".to_owned()),
        ("/tmp/x/./song.mp3".to_owned(), "/tmp/x/song.mp3".to_owned()),
        ("/tmp/x/song.mp3".to_owned(), "/tmp/x/song.mp3".to_owned()),
    ]);

    assert_eq!(files, vec!["/tmp/x/song.mp3"]);
}

#[test]
fn keeps_first_spellings_in_order() {
    let files = unique_files(&vec![
        ("b".to_owned(), "/b".to_owned()),
        ("a".to_owned(), "/a".to_owned()),
        ("./b".to_owned(), "/b".to_owned()),
        ("c".to_owned(), "/c".to_owned()),
    ]);
    assert_eq!(files, ["b", "a", "c"]);
    assert!(unique_files(&vec![]).is_empty());
}

#[test]
fn detects_glob_metacharacters() {
    assert!(is_glob("*.mp3"));
    assert!(is_glob("track?.mp3"));
    assert!(is_glob("Song [Live].mp3"));
    assert!(!is_glob("song.mp3"));
}

#[test]
fn recognizes_mp3_extensions_in_any_case() {
    assert!(is_mp3("a.mp3"));
    assert!(is_mp3("Artist/B Album/01.MP3"));
    assert!(is_mp3("dir.x/track.Mp3"));
    assert!(!is_mp3("track.mpeg"));
    assert!(!is_mp3("cover.jpg"));
    assert!(!is_mp3(".mp3"));
    assert!(!is_mp3("mp3"));
    assert!(!is_mp3("a.mp3/.."));
}

#[test]
fn arguments_expand_by_kind() {
    assert_eq!(expansion("dir", true, true, true), Expansion::Walk);
    assert_eq!(
        expansion("dir", false, true, true),
        Expansion::Fail("dir: is a directory (use -r)".to_owned())
    );
    assert_eq!(expansion("Song [Live].mp3", false, false, true), Expansion::Literal);
    assert_eq!(expansion("missing.mp3", false, false, false), Expansion::Literal);
    assert_eq!(expansion("*.flac", false, false, false), Expansion::Glob);
}

#[test]
fn glob_matches_descend_only_with_recursive() {
    assert_eq!(matched(false, false), Matched::Keep);
    assert_eq!(matched(true, true), Matched::Walk);
    assert_eq!(matched(true, false), Matched::Ignore);
    assert_eq!(no_match_message("*.flac"), "*.flac: no files match");
    assert_eq!(
        invalid_pattern_message("[", "bad"),
        "[: invalid pattern: bad"
    );
    let inputs = Inputs::new(vec!["a.mp3".into()]);
    assert_eq!((inputs.files.len(), inputs.failures), (1, 0));
}

#[test]
fn glob_steps_follow_the_matches_and_report_no_match() {
    let entries = vec![
        GlobEntry::Found { path: "a.mp3".into(), is_dir: false },
        GlobEntry::Found { path: "disc".into(), is_dir: true },
        GlobEntry::Unreadable("locked: permission denied".into()),
    ];
    assert_eq!(
        glob_steps("*", &entries, true),
        [
            GlobStep::Keep("a.mp3".into()),
            GlobStep::Walk("disc".into()),
            GlobStep::Report("locked: permission denied".into()),
        ]
    );
    let dirs = vec![GlobEntry::Found { path: "disc".into(), is_dir: true }];
    assert_eq!(
        glob_steps("*", &dirs, false),
        [GlobStep::Report("*: no files match".into())]
    );
    assert_eq!(
        glob_steps("*.flac", &vec![], false),
        [GlobStep::Report("*.flac: no files match".into())]
    );
    assert_eq!(glob_result("*.mp3", true), None);
    assert_eq!(glob_result("*.flac", false), Some("*.flac: no files match".to_owned()));
}
