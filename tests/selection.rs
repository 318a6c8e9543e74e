use pathslash::candidates::{regular_files, ListedEntry};
use pathslash::rewrite::transform;
use pathslash::selection::{has_leading_dot, select_files, ExplicitFile, Selection, DEFAULT_EXTENSION};

fn paths(v: &[&str]) -> Vec<Vec<u8>> {
    v.iter().map(|s| s.as_bytes().to_vec()).collect()
}

fn chosen(s: Selection) -> Vec<Vec<u8>> {
    match s {
        Selection::Rewrite(files) => files,
        Selection::NoMatch { .. } => panic!("unexpected: no match"),
        Selection::MissingFile => panic!("unexpected: missing file"),
    }
}

#[test]
fn directory_with_extension_rewrites_only_matching() {
    let entries = vec![
        ListedEntry::RegularFile(b"music/a.m3u".to_vec()),
        ListedEntry::RegularFile(b"music/b.txt".to_vec()),
    ];
    let listed = regular_files(entries);
    let files = chosen(select_files(Some(listed), Some("m3u"), None, None));
    assert_eq!(files, paths(&["music/a.m3u"]));
    assert_eq!(transform(b"C:\\music\\song.mp3"), b"C:/music/song.mp3".to_vec());
}

#[test]
fn explicit_file_is_rewritten_whatever_else_is_asked() {
    let listed = paths(&["d/a.m3u", "d/b.txt"]);
    let file = Some(ExplicitFile::Regular(b"list.m3u8".to_vec()));
    let files = chosen(select_files(Some(listed), Some("m3u"), file, None));
    assert_eq!(files, paths(&["d/a.m3u", "list.m3u8"]));
    let file = Some(ExplicitFile::Regular(b"list.m3u8".to_vec()));
    let files = chosen(select_files(None, Some("txt"), file, None));
    assert_eq!(files, paths(&["list.m3u8"]));
    assert_eq!(transform(b"..\\..\\track.flac"), b"../../track.flac".to_vec());
}

#[test]
fn no_arguments_uses_default_extension() {
    assert_eq!(DEFAULT_EXTENSION, "m3u");
    let listed = paths(&["./x.m3u", "./y.pls"]);
    let files = chosen(select_files(None, None, None, Some(listed)));
    assert_eq!(files, paths(&["./x.m3u"]));
    assert_eq!(transform(b"a\\b"), b"a/b".to_vec());
}

#[test]
fn unlisted_directory_gives_no_candidates() {
    let files = chosen(select_files(Some(Vec::new()), None, None, None));
    assert!(files.is_empty());
}

#[test]
fn unlisted_directory_with_extension_finds_no_match() {
    match select_files(Some(Vec::new()), Some("m3u"), None, None) {
        Selection::NoMatch { leading_dot } => assert!(!leading_dot),
        _ => panic!("expected no match"),
    }
}

#[test]
fn extension_with_dot_finds_no_match_and_says_so() {
    let listed = paths(&["d/a.m3u"]);
    match select_files(Some(listed), Some(".m3u"), None, None) {
        Selection::NoMatch { leading_dot } => assert!(leading_dot),
        _ => panic!("expected no match"),
    }
}

#[test]
fn no_match_comes_before_missing_file() {
    let listed = paths(&["d/a.txt"]);
    let r = select_files(Some(listed), Some("m3u"), Some(ExplicitFile::Missing), None);
    assert!(matches!(r, Selection::NoMatch { leading_dot: false }));
}

#[test]
fn missing_explicit_file_ends_the_run() {
    let listed = paths(&["d/a.m3u"]);
    let r = select_files(Some(listed), Some("m3u"), Some(ExplicitFile::Missing), None);
    assert!(matches!(r, Selection::MissingFile));
    let r = select_files(None, None, Some(ExplicitFile::Missing), None);
    assert!(matches!(r, Selection::MissingFile));
}

#[test]
fn explicit_path_that_is_not_a_file_adds_nothing() {
    let r = select_files(None, None, Some(ExplicitFile::NotRegular), None);
    assert!(chosen(r).is_empty());
}

#[test]
fn directory_without_extension_keeps_all_files() {
    let listed = paths(&["d/a.m3u", "d/b.txt", "d/c"]);
    let files = chosen(select_files(Some(listed.clone()), None, None, None));
    assert_eq!(files, listed);
}

#[test]
fn leading_dot_detection() {
    assert!(has_leading_dot(".m3u"));
    assert!(has_leading_dot("."));
    assert!(!has_leading_dot("m3u"));
    assert!(!has_leading_dot(""));
    assert!(!has_leading_dot("m.3u"));
}
