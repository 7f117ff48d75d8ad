use codex_native::archive::{read_u32_le, path_to_unix_string, collect_paths, AsarArchive, AsarError, ExtractAction};
use codex_native::header::{Entry, Header};

fn leaf(offset: Option<&str>, size: Option<u64>) -> Entry {
    Entry {
        files: Vec::new(),
        offset: offset.map(|o| o.to_string()),
        size,
        executable: None,
        unpacked: None,
    }
}

fn sample_header() -> Header {
    let mut exec = leaf(Some("5"), Some(3));
    exec.executable = Some(true);
    let dir = Entry {
        files: vec![("b.txt".to_string(), leaf(Some("0"), Some(5))), ("exec.sh".to_string(), exec)],
        offset: None,
        size: None,
        executable: None,
        unpacked: None,
    };
    let mut unpacked = leaf(Some("10"), Some(4));
    unpacked.unpacked = Some(true);
    Header {
        files: vec![
            ("a".to_string(), dir),
            ("bad.txt".to_string(), leaf(Some("x1"), Some(1))),
            ("empty".to_string(), leaf(None, None)),
            ("nooffset.txt".to_string(), leaf(None, Some(2))),
            ("top.txt".to_string(), leaf(Some("8"), Some(2))),
            ("unpacked.bin".to_string(), unpacked),
        ],
    }
}

const HEADER_TEXT: &[u8] = b"{\"files\":{}}";

fn sample_bytes() -> Vec<u8> {
    let mut bytes = vec![0u8; 12];
    bytes.extend_from_slice(&(HEADER_TEXT.len() as u32).to_le_bytes());
    bytes.extend_from_slice(HEADER_TEXT);
    bytes.extend_from_slice(b"hellosh!ok");
    bytes
}

fn sample_archive() -> AsarArchive {
    let parsed = AsarArchive::from_bytes(sample_bytes(), |b: &[u8]| {
        if b == HEADER_TEXT {
            Ok(sample_header())
        } else {
            Err("unexpected header bytes".to_string())
        }
    });
    match parsed {
        Ok(a) => a,
        Err(e) => panic!("archive did not open: {}", e.message()),
    }
}

#[test]
fn from_bytes_hands_the_framed_header_to_the_parser() {
    let archive = sample_archive();
    assert_eq!(archive.header(), &sample_header());
}

#[test]
fn from_bytes_rejects_a_short_file() {
    let r = AsarArchive::from_bytes(vec![0u8; 10], |_b: &[u8]| Ok(sample_header()));
    assert_eq!(r.err(), Some(AsarError::InvalidFormat("file is shorter than ASAR header")));
}

#[test]
fn from_bytes_rejects_a_header_past_the_end() {
    let mut bytes = vec![0u8; 12];
    bytes.extend_from_slice(&100u32.to_le_bytes());
    bytes.extend_from_slice(b"{}");
    let r = AsarArchive::from_bytes(bytes, |_b: &[u8]| Ok(sample_header()));
    assert_eq!(r.err(), Some(AsarError::InvalidFormat("header extends past end of file")));
}

#[test]
fn from_bytes_reports_a_parse_failure() {
    let r = AsarArchive::from_bytes(sample_bytes(), |_b: &[u8]| Err("expected value at line 1".to_string()));
    assert_eq!(r.err(), Some(AsarError::Json("expected value at line 1".to_string())));
}

#[test]
fn from_bytes_accepts_an_empty_header_region() {
    let mut bytes = vec![0u8; 16];
    bytes.extend_from_slice(b"xyz");
    let r = AsarArchive::from_bytes(bytes, |b: &[u8]| {
        if b.is_empty() {
            Ok(Header { files: Vec::new() })
        } else {
            Err("not empty".to_string())
        }
    });
    assert!(r.is_ok());
}

#[test]
fn entry_walks_the_components() {
    let archive = sample_archive();
    let e = archive.entry("a/b.txt").ok().unwrap();
    assert_eq!(e.size, Some(5));
    let d = archive.entry("/a//").ok().unwrap();
    assert_eq!(d.files.len(), 2);
}

#[test]
fn entry_reports_a_missing_path() {
    let archive = sample_archive();
    assert_eq!(archive.entry("a/missing.txt").err(), Some(AsarError::MissingEntry("a/missing.txt".to_string())));
    assert_eq!(archive.entry("").err(), Some(AsarError::MissingEntry("".to_string())));
    assert_eq!(archive.entry("top.txt/x").err(), Some(AsarError::MissingEntry("top.txt/x".to_string())));
}

#[test]
fn read_file_gives_the_bytes_at_offset_and_size() {
    let archive = sample_archive();
    assert_eq!(archive.read_file("a/b.txt").ok(), Some(&b"hello"[..]));
    assert_eq!(archive.read_file("a/exec.sh").ok(), Some(&b"sh!"[..]));
    assert_eq!(archive.read_file("top.txt").ok(), Some(&b"ok"[..]));
}

#[test]
fn read_file_errors() {
    let archive = sample_archive();
    assert_eq!(archive.read_file("empty").err(), Some(AsarError::InvalidFormat("file entry missing size")));
    assert_eq!(
        archive.read_file("nooffset.txt").err(),
        Some(AsarError::InvalidFormat("file entry missing offset"))
    );
    assert_eq!(archive.read_file("bad.txt").err(), Some(AsarError::InvalidOffset("x1".to_string())));
    assert_eq!(
        archive.read_file("unpacked.bin").err(),
        Some(AsarError::InvalidFormat("file entry extends past end of archive"))
    );
    assert_eq!(archive.read_file("nope").err(), Some(AsarError::MissingEntry("nope".to_string())));
}

#[test]
fn list_files_lists_leaves_in_name_order() {
    let archive = sample_archive();
    assert_eq!(
        archive.list_files(),
        vec!["a/b.txt", "a/exec.sh", "bad.txt", "empty", "nooffset.txt", "top.txt", "unpacked.bin"]
    );
}

#[test]
fn every_listed_path_resolves_to_a_leaf() {
    let archive = sample_archive();
    for path in archive.list_files() {
        let e = archive.entry(&path).ok().unwrap();
        assert!(e.files.is_empty());
    }
}

#[test]
fn extract_action_follows_the_entry() {
    let archive = sample_archive();
    assert_eq!(archive.extract_action("unpacked.bin").ok(), Some(ExtractAction::Skip));
    assert_eq!(archive.extract_action("a").ok(), Some(ExtractAction::CreateDir));
    assert_eq!(archive.extract_action("a/exec.sh").ok(), Some(ExtractAction::WriteFile { executable: true }));
    assert_eq!(archive.extract_action("top.txt").ok(), Some(ExtractAction::WriteFile { executable: false }));
    assert_eq!(archive.extract_action("zzz").err(), Some(AsarError::MissingEntry("zzz".to_string())));
}

#[test]
fn read_u32_le_reads_little_endian() {
    assert_eq!(read_u32_le(&[1, 2, 3, 4, 5], 1).ok(), Some(0x0504_0302));
    assert_eq!(read_u32_le(&[1, 2, 3], 0).err(), Some(AsarError::InvalidFormat("u32 read past end of file")));
    assert_eq!(read_u32_le(&[1, 2, 3], usize::MAX).err(), Some(AsarError::InvalidFormat("u32 offset overflow")));
}

#[test]
fn path_to_unix_string_turns_backslashes() {
    let p: Vec<char> = "a\\b\\c.txt".chars().collect();
    assert_eq!(path_to_unix_string(&p), "a/b/c.txt");
}

#[test]
fn collect_paths_joins_onto_the_prefix() {
    let header = sample_header();
    let mut files = vec!["first".to_string()];
    let prefix: Vec<char> = "root".chars().collect();
    collect_paths(&header.files[0].1.files, &prefix, &mut files);
    assert_eq!(files, vec!["first", "root/b.txt", "root/exec.sh"]);
}

#[test]
fn error_messages_name_the_error() {
    assert_eq!(AsarError::Io("denied".to_string()).message(), "i/o error: denied");
    assert_eq!(AsarError::Json("eof".to_string()).message(), "json parse error: eof");
    assert_eq!(AsarError::InvalidFormat("x").message(), "invalid asar format: x");
    assert_eq!(AsarError::InvalidOffset("q".to_string()).message(), "invalid asar entry offset: q");
    assert_eq!(AsarError::MissingEntry("p".to_string()).message(), "missing asar entry: p");
}

#[test]
fn list_files_is_strictly_increasing_by_components() {
    let archive = sample_archive();
    let files = archive.list_files();
    for pair in files.windows(2) {
        let a: Vec<&str> = pair[0].split('/').collect();
        let b: Vec<&str> = pair[1].split('/').collect();
        assert!(a < b);
    }
}

#[test]
fn listed_paths_are_the_names_joined_by_slash() {
    let archive = sample_archive();
    let header = sample_header();
    let files = archive.list_files();
    assert_eq!(files[0], [header.files[0].0.as_str(), header.files[0].1.files[0].0.as_str()].join("/"));
    assert_eq!(files[1], [header.files[0].0.as_str(), header.files[0].1.files[1].0.as_str()].join("/"));
    for path in &files {
        let names: Vec<&str> = path.split('/').collect();
        assert!(names.iter().all(|n| !n.is_empty()));
        assert_eq!(&names.join("/"), path);
    }
}
