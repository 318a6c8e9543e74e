use pathslash::rewrite::{transform, BACKSLASH, SLASH};

#[test]
fn transform_windows_path() {
    let out = transform(b"C:\\music\\song.mp3");
    assert_eq!(out, b"C:/music/song.mp3".to_vec());
}

#[test]
fn transform_relative_path() {
    let out = transform(b"..\\..\\track.flac");
    assert_eq!(out, b"../../track.flac".to_vec());
}

#[test]
fn transform_empty() {
    assert_eq!(transform(b""), Vec::<u8>::new());
}

#[test]
fn transform_without_backslash_is_unchanged() {
    let content = b"#EXTM3U\n/music/a.mp3\r\nb.ogg\n".to_vec();
    assert_eq!(transform(&content), content);
}

#[test]
fn transform_keeps_length_and_other_bytes() {
    let content: Vec<u8> = (0u8..=255).collect();
    let out = transform(&content);
    assert_eq!(out.len(), content.len());
    for (i, b) in content.iter().enumerate() {
        if *b == BACKSLASH {
            assert_eq!(out[i], SLASH);
        } else {
            assert_eq!(out[i], *b);
        }
    }
}

#[test]
fn transform_twice_is_transform_once() {
    let content = b"a\\b\\\\c/d\\".to_vec();
    let once = transform(&content);
    assert_eq!(once, b"a/b//c/d/".to_vec());
    assert_eq!(transform(&once), once);
}

#[test]
fn transform_only_backslashes() {
    assert_eq!(transform(b"\\\\\\"), b"///".to_vec());
}
