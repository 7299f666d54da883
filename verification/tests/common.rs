use dotenv_linter::common::{remove_invalid_leading_chars, FileEntry, LineEntry};
use std::path::PathBuf;

fn file(total_lines: usize) -> FileEntry {
    FileEntry { path: PathBuf::from("dir/.env"), file_name: ".env".to_string(), total_lines }
}

fn key_of(raw: &str) -> Option<String> {
    LineEntry { number: 1, file: file(1), raw_string: String::from(raw) }.get_key()
}

#[test]
fn key_is_what_stands_before_the_first_delimiter() {
    assert_eq!(Some(String::from("FOO")), key_of("FOO=BAR"));
    assert_eq!(Some(String::from("FOO")), key_of("FOO="));
    assert_eq!(Some(String::from("FOO")), key_of("FOO=BAR=BAZ"));
    assert_eq!(Some(String::from("FOO")), key_of("FOO=="));
    assert_eq!(Some(String::from("F")), key_of("F=BAR"));
}

#[test]
fn key_is_not_trimmed_nor_changed() {
    assert_eq!(Some(String::from(" FOO ")), key_of(" FOO =BAR"));
    assert_eq!(Some(String::from("\tfoo-Bar")), key_of("\tfoo-Bar=1"));
    assert_eq!(Some(String::from(" ")), key_of(" =1"));
    assert_eq!(Some(String::from("# FOO")), key_of("# FOO=1"));
    assert_eq!(Some(String::from("schlüssel€")), key_of("schlüssel€=wert"));
}

#[test]
fn no_key_without_a_delimiter() {
    assert_eq!(None, key_of(""));
    assert_eq!(None, key_of("FOO"));
    assert_eq!(None, key_of("FOO-BAR"));
    assert_eq!(None, key_of("FOO BAR"));
    assert_eq!(None, key_of("schlüssel"));
}

#[test]
fn no_key_where_the_delimiter_comes_first() {
    assert_eq!(None, key_of("="));
    assert_eq!(None, key_of("=FOO"));
    assert_eq!(None, key_of("=FOO=BAR"));
}

#[test]
fn key_matches_split_at_first_delimiter() {
    for raw in ["A=B", "=", "", "A", "AB=C=D", " =", "=A", "é=ü", "a=é=", "🙂x=1"] {
        let by_std = match raw.find('=') {
            Some(0) | None => None,
            Some(at) => Some(raw[..at].to_string()),
        };
        assert_eq!(by_std, key_of(raw), "{:?}", raw);
    }
}

#[test]
fn remove_invalid_leading_chars_strips_up_to_the_first_valid_one() {
    assert_eq!("F-OOBAR", remove_invalid_leading_chars("***F-OOBAR"));
    assert_eq!("FOO", remove_invalid_leading_chars("*FOO"));
    assert_eq!("FOO BAR ", remove_invalid_leading_chars("  FOO BAR "));
    assert_eq!("_FOO", remove_invalid_leading_chars("-_FOO"));
    assert_eq!("1FOO", remove_invalid_leading_chars(".1FOO"));
    assert_eq!("z*", remove_invalid_leading_chars("é*z*"));
}

#[test]
fn remove_invalid_leading_chars_leaves_a_valid_start() {
    assert_eq!("FOO", remove_invalid_leading_chars("FOO"));
    assert_eq!("F-*", remove_invalid_leading_chars("F-*"));
    assert_eq!("9", remove_invalid_leading_chars("9"));
    assert_eq!("_", remove_invalid_leading_chars("_"));
}

#[test]
fn remove_invalid_leading_chars_may_leave_nothing() {
    assert_eq!("", remove_invalid_leading_chars(""));
    assert_eq!("", remove_invalid_leading_chars("***"));
    assert_eq!("", remove_invalid_leading_chars(" \t"));
    assert_eq!("", remove_invalid_leading_chars("é€"));
}

#[test]
fn line_new_checks_the_number() {
    assert!(LineEntry::new(1, file(1), String::from("A=1")).is_some());
    assert!(LineEntry::new(3, file(3), String::new()).is_some());
    assert!(LineEntry::new(2, file(3), String::new()).is_some());
    assert_eq!(None, LineEntry::new(0, file(3), String::from("A=1")));
    assert_eq!(None, LineEntry::new(4, file(3), String::from("A=1")));
    assert_eq!(None, LineEntry::new(1, file(0), String::new()));
    assert_eq!(None, LineEntry::new(0, file(0), String::new()));
}

#[test]
fn line_new_keeps_its_parts() {
    let line = LineEntry::new(2, file(5), String::from("FOO=BAR")).unwrap();
    assert_eq!(2, line.number);
    assert_eq!(file(5), line.file);
    assert_eq!("FOO=BAR", line.raw_string);
    let written = LineEntry { number: 2, file: file(5), raw_string: String::from("FOO=BAR") };
    assert_eq!(written, line);
}

#[test]
fn clones_are_equal() {
    let line = LineEntry { number: 2, file: file(5), raw_string: String::from("FOO=BAR") };
    let copy = line.clone();
    assert_eq!(line, copy);
    assert_eq!(PathBuf::from("dir/.env"), copy.file.path);
    assert_eq!(".env", copy.file.file_name);
    assert_eq!(5, copy.file.total_lines);
    assert_eq!(line.file, line.file.clone());
}
