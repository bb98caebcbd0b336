use mdserve::error::ServeError;
use mdserve::path::{
    components_of, extension, file_name, join, parent, same_file, same_path, starts_with,
    validate_path_within_root, Component,
};
use std::path::Path;

const SAMPLES: [&str; 40] = [
    "", "/", "//", ".", "..", "./", "./.", "a", "a/", "a//", "a/.", "/a", "/a/", "//a", "./a", "a/b",
    "a//b", "a/./b", "a/../b", "../a", "a/..", "/..", "/.", "a/b/c", "/a/b/c", "a/b/", "./a/b",
    "photo.png", "a/photo.png", ".hidden", "a/.hidden", ".hidden.png", "x.tar.gz", "name.", "..x",
    "...", "a.b/c", "a.b/..", "ü/é.PNG", ".//a//./b//",
];

fn text(component: &Component) -> String {
    match component {
        Component::RootDir => "/".to_string(),
        Component::CurDir => ".".to_string(),
        Component::ParentDir => "..".to_string(),
        Component::Normal(name) => String::from_utf8(name.clone()).unwrap(),
    }
}

#[test]
fn components_agree_with_std() {
    for sample in SAMPLES {
        let ours: Vec<String> = components_of(sample.as_bytes()).iter().map(text).collect();
        let theirs: Vec<String> = Path::new(sample)
            .components()
            .map(|c| c.as_os_str().to_str().unwrap().to_string())
            .collect();
        assert_eq!(ours, theirs, "{}", sample);
    }
}

#[test]
fn file_names_and_extensions_agree_with_std() {
    for sample in SAMPLES {
        let path = Path::new(sample);
        let name = path.file_name().map(|n| n.to_str().unwrap().as_bytes().to_vec());
        assert_eq!(file_name(sample.as_bytes()), name, "{}", sample);
        let ext = path.extension().map(|n| n.to_str().unwrap().as_bytes().to_vec());
        assert_eq!(extension(sample.as_bytes()), ext, "{}", sample);
    }
}

#[test]
fn parents_agree_with_std() {
    for sample in SAMPLES {
        match (parent(sample.as_bytes()), Path::new(sample).parent()) {
            (Some(ours), Some(theirs)) => {
                let ours = String::from_utf8(ours).unwrap();
                assert_eq!(Path::new(&ours), theirs, "{}", sample);
                assert!(sample.starts_with(&ours));
            }
            (None, None) => {}
            (ours, theirs) => panic!("{}: {:?} {:?}", sample, ours, theirs),
        }
    }
}

#[test]
fn pairs_of_paths_agree_with_std() {
    for a in SAMPLES {
        for b in SAMPLES {
            let (p, q) = (Path::new(a), Path::new(b));
            assert_eq!(starts_with(a.as_bytes(), b.as_bytes()), p.starts_with(q), "{} {}", a, b);
            assert_eq!(same_path(a.as_bytes(), b.as_bytes()), p == q, "{} {}", a, b);
            let joined = String::from_utf8(join(a.as_bytes(), b.as_bytes())).unwrap();
            assert_eq!(joined, p.join(q).to_str().unwrap(), "{} {}", a, b);
            let affected = p == q || (p.file_name() == q.file_name() && p.parent() == q.parent());
            assert_eq!(same_file(a.as_bytes(), b.as_bytes()), affected, "{} {}", a, b);
        }
    }
}

#[test]
fn relative_join_descends() {
    assert_eq!(join(b"/srv/docs", b"img/a.png"), b"/srv/docs/img/a.png".to_vec());
    assert_eq!(join(b"/srv/docs", b""), b"/srv/docs/".to_vec());
    assert!(starts_with(&join(b"/srv/docs", b"./img/a.png"), b"/srv/docs"));
    assert_eq!(join(b"/srv/docs", b"/etc/passwd"), b"/etc/passwd".to_vec());
}

#[test]
fn named_file_is_affected_only_at_its_own_path() {
    assert!(same_file(b"/srv//notes.md", b"/srv/notes.md"));
    assert!(!same_file(b"/srv/other.md", b"/srv/notes.md"));
    assert!(!same_file(b"/tmp/notes.md", b"/srv/notes.md"));
    // Paths without a file name are told apart by less.
    assert!(same_file(b".", b".."));
}

#[test]
fn path_within_root_is_accepted() {
    let found = validate_path_within_root(Ok(b"/srv/docs/a.md".to_vec()), b"/srv/docs");
    assert!(matches!(found, Ok(path) if path == b"/srv/docs/a.md".to_vec()));
    assert!(validate_path_within_root(Ok(b"/srv/docs".to_vec()), b"/srv/docs/").is_ok());
    assert!(validate_path_within_root(Ok(b"/srv/a.md".to_vec()), b"/").is_ok());
}

#[test]
fn path_outside_root_is_denied() {
    let refused = validate_path_within_root(Ok(b"/etc/passwd".to_vec()), b"/srv/docs");
    assert!(matches!(&refused, Err(ServeError::OutsideRoot)));
    assert_eq!(
        refused.unwrap_err().message(),
        "Access denied: path outside root directory"
    );
    // A name that begins alike is another name.
    assert!(validate_path_within_root(Ok(b"/srv/docs2/a.md".to_vec()), b"/srv/docs").is_err());
}

#[test]
fn path_that_cannot_be_found_is_an_error() {
    let refused = validate_path_within_root(Err("no such file".to_string()), b"/srv/docs");
    assert!(matches!(&refused, Err(ServeError::Io(reason)) if reason == "no such file"));
    assert_eq!(refused.unwrap_err().message(), "no such file");
}
