use embedded_nix::path::split_path;
use embedded_nix::tree::{Entry, FileType};
use embedded_nix::vfs::{EmbeddedIO, IoError};

fn sample() -> EmbeddedIO {
    let lib = Entry::dir(
        "lib".to_string(),
        vec![
            Entry::file("default.nix".to_string(), b"{ x = 1; }".to_vec()),
            Entry::dir(
                "sub".to_string(),
                vec![Entry::file("deep.nix".to_string(), b"42".to_vec())],
            ),
            Entry::file("caf\u{e9}.nix".to_string(), Vec::new()),
        ],
    );
    let top = Entry::file("top.txt".to_string(), b"top".to_vec());
    EmbeddedIO::new(vec![lib, top])
}

#[test]
fn missing_path_is_not_found_everywhere() {
    let io = sample();
    for p in ["/nope", "/lib/nope.nix", "lib/default.nix/x", "/lib/sub/deep.nix/more", ""] {
        assert!(!io.path_exists(p), "{p}");
        assert_eq!(io.file_type(p), Err(IoError::NotFound));
        assert!(matches!(io.open(p), Err(IoError::NotFound)));
    }
}

#[test]
fn root_itself_is_not_an_entry() {
    let io = sample();
    assert!(!io.path_exists("/"));
    assert!(matches!(io.read_dir("/"), Err(IoError::NotFound)));
}

#[test]
fn open_yields_the_payload() {
    let io = sample();
    let b = io.open("/lib/default.nix").unwrap();
    assert_eq!(&b[..], b"{ x = 1; }");
    let b = io.open("lib/sub/deep.nix").unwrap();
    assert_eq!(&b[..], b"42");
    let b = io.open("/top.txt").unwrap();
    assert_eq!(&b[..], b"top");
    let b = io.open("/lib/caf\u{e9}.nix").unwrap();
    assert!(b.is_empty());
}

#[test]
fn open_on_directory_is_not_found() {
    let io = sample();
    assert!(matches!(io.open("/lib"), Err(IoError::NotFound)));
    assert!(matches!(io.open("/lib/sub"), Err(IoError::NotFound)));
}

#[test]
fn exists_and_file_type() {
    let io = sample();
    assert!(io.path_exists("/lib"));
    assert!(io.path_exists("/lib/default.nix"));
    assert!(io.path_exists("lib/sub"));
    assert_eq!(io.file_type("/lib"), Ok(FileType::Directory));
    assert_eq!(io.file_type("/lib/sub"), Ok(FileType::Directory));
    assert_eq!(io.file_type("/lib/default.nix"), Ok(FileType::Regular));
    assert_eq!(io.file_type("/top.txt"), Ok(FileType::Regular));
}

#[test]
fn leading_repeated_and_trailing_separators_are_ignored() {
    let io = sample();
    assert!(io.path_exists("//lib//sub/"));
    assert_eq!(io.file_type("lib/sub/deep.nix"), Ok(FileType::Regular));
    assert_eq!(&io.open("/lib//default.nix").unwrap()[..], b"{ x = 1; }");
}

#[test]
fn read_dir_lists_immediate_children() {
    let io = sample();
    let entries = io.read_dir("/lib").unwrap();
    let got: Vec<(Vec<u8>, FileType)> = entries.iter().map(|(n, t)| (n.to_vec(), *t)).collect();
    assert_eq!(
        got,
        vec![
            (b"default.nix".to_vec(), FileType::Regular),
            (b"sub".to_vec(), FileType::Directory),
            ("caf\u{e9}.nix".as_bytes().to_vec(), FileType::Regular),
        ]
    );
    let again = io.read_dir("/lib").unwrap();
    assert_eq!(entries, again);
    let sub = io.read_dir("lib/sub").unwrap();
    assert_eq!(sub.len(), 1);
    assert_eq!(&sub[0].0[..], b"deep.nix");
    assert_eq!(sub[0].1, FileType::Regular);
}

#[test]
fn read_dir_on_file_or_missing_is_not_found() {
    let io = sample();
    assert!(matches!(io.read_dir("/lib/default.nix"), Err(IoError::NotFound)));
    assert!(matches!(io.read_dir("/missing"), Err(IoError::NotFound)));
}

#[test]
fn empty_directory_lists_nothing() {
    let io = EmbeddedIO::new(vec![Entry::dir("empty".to_string(), Vec::new())]);
    assert_eq!(io.read_dir("/empty").unwrap().len(), 0);
    assert_eq!(io.file_type("/empty"), Ok(FileType::Directory));
}

#[test]
fn import_path_is_identity() {
    let io = sample();
    for p in ["/lib/default.nix", "relative/x", "", "/does/not/exist"] {
        assert_eq!(io.import_path(p), Ok(p.to_string()));
    }
}

#[test]
fn store_dir_is_absent() {
    assert_eq!(sample().store_dir(), None);
}

#[test]
fn entry_accessors() {
    let f = Entry::file("a.nix".to_string(), vec![1, 2]);
    let d = Entry::dir("d".to_string(), vec![]);
    assert_eq!(f.name(), "a.nix");
    assert_eq!(d.name(), "d");
    assert_eq!(f.kind(), FileType::Regular);
    assert_eq!(d.kind(), FileType::Directory);
}

#[test]
fn split_path_drops_empty_segments() {
    assert_eq!(split_path("/lib//a/"), vec!["lib".to_string(), "a".to_string()]);
    assert_eq!(split_path("x"), vec!["x".to_string()]);
    assert!(split_path("///").is_empty());
}
