use dotenv_linter::checks::incorrect_delimiter::IncorrectDelimiterChecker;
use dotenv_linter::checks::Check;
use dotenv_linter::common::{FileEntry, LineEntry, Warning};
use std::path::PathBuf;

fn line_of(raw: &str) -> LineEntry {
    LineEntry {
        number: 3,
        file: FileEntry {
            path: PathBuf::from("config/.env.local"),
            file_name: ".env.local".to_string(),
            total_lines: 7,
        },
        raw_string: String::from(raw),
    }
}

fn message_for(raw: &str) -> Option<String> {
    let mut checker = IncorrectDelimiterChecker::default();
    checker.run(&line_of(raw)).map(|warning| warning.message)
}

fn expected(key: &str) -> Option<String> {
    Some(format!("The {} key has incorrect delimiter", key))
}

#[test]
fn name_is_fixed() {
    let checker = IncorrectDelimiterChecker::default();
    assert_eq!("IncorrectDelimiter", checker.name());
}

#[test]
fn message_holds_the_key() {
    let checker = IncorrectDelimiterChecker::default();
    assert_eq!("The FOO-BAR key has incorrect delimiter", checker.message("FOO-BAR"));
    assert_eq!("The  key has incorrect delimiter", checker.message(""));
    assert_eq!("The {} key has incorrect delimiter", checker.message("{}"));
    assert_eq!("The süß key has incorrect delimiter", checker.message("süß"));
}

#[test]
fn valid_keys_pass() {
    for raw in ["FOO_BAR=1", "F1OO=1", "F=1", "_=1", "9=1", "0A_b9=", "foo_bar=x=y", "__A__=1"] {
        assert_eq!(None, message_for(raw), "{}", raw);
    }
}

#[test]
fn invalid_start_alone_passes() {
    for raw in ["*FOO=1", "-.-FOO=1", "  FOO=1", "\tFOO_1=1", ".9=1", "***=1", " =1", "#FOO=1"] {
        assert_eq!(None, message_for(raw), "{}", raw);
    }
}

#[test]
fn invalid_character_behind_a_valid_one_warns() {
    for key in ["FOO-BAR", "FOO BAR", "F.O", "FOO-", "A\tB", "***F-OOBAR", " FOO BAR", "-A-", "FOO: BAR"]
    {
        let raw = format!("{}=value", key);
        assert_eq!(expected(key), message_for(&raw), "{}", raw);
    }
}

#[test]
fn white_space_at_the_end_of_the_key_passes() {
    for raw in ["FOO =1", "FOO \t =1", "FOO\u{a0}=1", "FOO\u{3000}\u{2003}=1", " FOO =1"] {
        assert_eq!(None, message_for(raw), "{}", raw);
    }
}

#[test]
fn underscore_counts_as_a_valid_start() {
    assert_eq!(expected("-_-FOO"), message_for("-_-FOO=1"));
    assert_eq!(expected("_ A"), message_for("_ A=1"));
    assert_eq!(None, message_for("É-É=1"));
    assert_eq!(None, message_for("{}-{}=1"));
}

#[test]
fn white_space_before_an_invalid_end_warns() {
    assert_eq!(expected("FOO -"), message_for("FOO -=1"));
    assert_eq!(expected("FOO - "), message_for("FOO - =1"));
}

#[test]
fn letters_outside_ascii_are_invalid() {
    assert_eq!(expected("FOÉ"), message_for("FOÉ=1"));
    assert_eq!(expected("A٣"), message_for("A٣=1"));
    assert_eq!(None, message_for("ÉFOO=1"));
}

#[test]
fn only_the_first_delimiter_counts() {
    assert_eq!(None, message_for("FOO=BAR-BAZ=QUX"));
    assert_eq!(expected("FOO-BAR"), message_for("FOO-BAR=BAZ=QUX"));
}

#[test]
fn lines_without_a_key_pass() {
    for raw in ["", "FOO-BAR", "=", "=FOO-BAR", "=A=B-C", "FOO BAR", "-"] {
        assert_eq!(None, message_for(raw), "{:?}", raw);
    }
}

#[test]
fn warning_is_about_the_line_and_names_the_check() {
    let mut checker = IncorrectDelimiterChecker::default();
    let line = line_of("DB-HOST=localhost");
    let warning = checker.run(&line).unwrap();
    assert_eq!(line, warning.line);
    assert_eq!(3, warning.line.number);
    assert_eq!("IncorrectDelimiter", warning.check_name);
    assert_eq!(checker.name(), warning.check_name);
    assert_eq!("The DB-HOST key has incorrect delimiter", warning.message);
}

#[test]
fn running_twice_gives_the_same() {
    let mut checker = IncorrectDelimiterChecker::default();
    for raw in ["FOO-BAR=1", "FOO_BAR=1", "", "***F-OOBAR=BAZ"] {
        let line = line_of(raw);
        let first = checker.run(&line);
        let second = checker.run(&line);
        assert_eq!(first, second);
        let mut fresh = IncorrectDelimiterChecker::default();
        assert_eq!(first, fresh.run(&line));
    }
}

#[test]
fn earlier_lines_do_not_matter() {
    let mut checker = IncorrectDelimiterChecker::default();
    let alone = checker.run(&line_of("B-B=2"));
    let mut other = IncorrectDelimiterChecker::default();
    assert_eq!(None, other.run(&line_of("A=1")));
    assert!(other.run(&line_of("A-A=1")).is_some());
    assert_eq!(alone, other.run(&line_of("B-B=2")));
}

#[test]
fn message_holds_the_key_unchanged() {
    for key in ["***F-OOBAR", "  A B", "a-b ", "ÉA-É", "{}a{}"] {
        let raw = format!("{}=1", key);
        let message = message_for(&raw).unwrap();
        assert_eq!(Some(key), message.get(4..4 + key.len()));
        assert!(message.starts_with("The "));
        assert!(message.ends_with(" key has incorrect delimiter"));
        assert_eq!(message.len(), key.len() + 32);
    }
}

#[test]
fn warning_new_keeps_its_parts() {
    let line = line_of("A-B=1");
    let warning = Warning::new(line.clone(), "SomeCheck", String::from("some message"));
    assert_eq!("SomeCheck", warning.check_name);
    assert_eq!(line, warning.line);
    assert_eq!("some message", warning.message);
    assert_eq!(warning, warning.clone());
}
