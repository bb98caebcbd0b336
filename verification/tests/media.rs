use mdserve::bytes::{at_most, same, split_at_byte, to_lower, trimmed};
use mdserve::media::{guess_image_content_type, is_image_file, is_markdown_file};

#[test]
fn images_are_known_by_extension() {
    for name in ["png", "jpg", "jpeg", "gif", "svg", "webp", "bmp", "ico"] {
        assert!(is_image_file(&format!("a/photo.{}", name)));
        assert!(is_image_file(&format!("photo.{}", name.to_uppercase())));
        assert!(!is_image_file(name));
        assert!(!is_image_file(&format!(".{}", name)));
    }
    for other in ["", "a.md", "a.png.txt", "png/", "a.png/..", "a.pngx", "a."] {
        assert!(!is_image_file(other), "{}", other);
    }
    assert!(is_image_file("photo.png/"));
}

#[test]
fn content_types_are_exact() {
    let known = [
        ("a.png", "image/png"),
        ("a.jpg", "image/jpeg"),
        ("a.JPEG", "image/jpeg"),
        ("a.gif", "image/gif"),
        ("a.Svg", "image/svg+xml"),
        ("a.webp", "image/webp"),
        ("a.bmp", "image/bmp"),
        ("a.ico", "image/x-icon"),
        ("a.md", "application/octet-stream"),
        ("", "application/octet-stream"),
    ];
    for (path, media) in known {
        assert_eq!(guess_image_content_type(path), media);
        assert_eq!(is_image_file(path), media.starts_with("image/"));
    }
}

#[test]
fn unicode_lower_case_makes_no_other_image() {
    let letters = "pngjegifsvwbmcox";
    for code in 0x80..=0x10ffff_u32 {
        if let Some(c) = char::from_u32(code) {
            let lowered = c.to_lowercase().to_string();
            assert!(!letters.contains(&lowered), "{:x}", code);
        }
    }
    assert!(!is_image_file("a.\u{130}co"));
}

#[test]
fn markdown_is_known_by_extension() {
    assert!(is_markdown_file(b"/srv/a.md"));
    assert!(is_markdown_file(b"/srv/a.markdown"));
    assert!(is_markdown_file(b"/srv/a.txt"));
    assert!(!is_markdown_file(b"/srv/a.MD"));
    assert!(!is_markdown_file(b"/srv/md"));
    assert!(!is_markdown_file(b"/srv/.md"));
    assert!(!is_markdown_file(b"/srv/a.\xff"));
}

#[test]
fn byte_strings_are_cut_trimmed_and_compared() {
    assert_eq!(split_at_byte(b"a,,b", b','), vec![b"a".to_vec(), b"".to_vec(), b"b".to_vec()]);
    assert_eq!(split_at_byte(b"", b','), vec![b"".to_vec()]);
    assert_eq!(trimmed(b" \t a b \t"), b"a b".to_vec());
    assert_eq!(trimmed(b" \t "), b"".to_vec());
    assert_eq!(to_lower(b"AbZ@[1"), b"abz@[1".to_vec());
    assert!(same(b"ab", b"ab") && !same(b"ab", b"abc") && !same(b"ab", b"ac"));
    let words = ["", "a", "ab", "b", "B", "ä", "z", "aa"];
    for x in words {
        for y in words {
            assert_eq!(at_most(x.as_bytes(), y.as_bytes()), x <= y);
        }
    }
}
