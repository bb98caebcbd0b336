use mdserve::host::format_host;
use mdserve::text::{contains, decimal_text};

#[test]
fn ipv6_hosts_go_into_brackets() {
    assert_eq!(format_host("::1", 3000, true), "[::1]:3000");
}

#[test]
fn other_hosts_stand_as_they_are() {
    assert_eq!(format_host("127.0.0.1", 3000, false), "127.0.0.1:3000");
    assert_eq!(format_host("localhost", 0, false), "localhost:0");
    assert_eq!(format_host("", 65535, false), ":65535");
}

#[test]
fn ports_are_written_in_decimal() {
    for port in 0..=u16::MAX {
        assert_eq!(decimal_text(port), port.to_string());
    }
}

#[test]
fn texts_are_found_in_texts() {
    let samples = ["", "a", "ab", "aab", "aaab", "ba", "äb", "aäb"];
    for text in samples {
        for pattern in samples {
            assert_eq!(contains(text, pattern), text.contains(pattern), "{} {}", text, pattern);
        }
    }
}
