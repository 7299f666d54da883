//! The lines that checks look at, the keys they define, and the warnings
//! that checks raise.

use crate::text::{
    is_key_char, is_leading_run, leading, lemma_leading, spec_is_key_char, DELIMITER,
};
use std::path::PathBuf;
use vstd::prelude::*;
use vstd::string::StrSliceExecFns;
use vstd::string::StringExecFns;

verus! {

/// Makes `std::path::PathBuf` known to the verifier. The library carries
/// paths along and never looks into one.
#[verifier::external_type_specification]
#[verifier::external_body]
pub struct ExPathBuf(PathBuf);

/// `PathBuf::clone`, of which it is taken on trust that the copy equals the
/// path it was made from.
pub assume_specification[ <PathBuf as Clone>::clone ](path: &PathBuf) -> (copy: PathBuf)
    ensures
        copy == *path,
;

/// The file that a line was read from.
#[derive(Debug, PartialEq)]
pub struct FileEntry {
    pub path: PathBuf,
    pub file_name: String,
    pub total_lines: usize,
}

/// What a `FileEntry` stands for.
pub struct FileEntryView {
    pub path: PathBuf,
    pub file_name: Seq<char>,
    pub total_lines: nat,
}

impl View for FileEntry {
    type V = FileEntryView;

    open spec fn view(&self) -> FileEntryView {
        FileEntryView {
            path: self.path,
            file_name: self.file_name@,
            total_lines: self.total_lines as nat,
        }
    }
}

impl Clone for FileEntry {
    fn clone(&self) -> (copy: Self)
        ensures
            copy@ == self@,
    {
        FileEntry {
            path: self.path.clone(),
            file_name: self.file_name.clone(),
            total_lines: self.total_lines,
        }
    }
}

/// One line of a file: its number, counted from 1, the file, and its text
/// without the line break.
#[derive(Debug, PartialEq)]
pub struct LineEntry {
    pub number: usize,
    pub file: FileEntry,
    pub raw_string: String,
}

/// What a `LineEntry` stands for.
pub struct LineEntryView {
    pub number: nat,
    pub file: FileEntryView,
    pub raw_string: Seq<char>,
}

impl LineEntryView {
    /// The line lies within its file.
    pub open spec fn wf(self) -> bool {
        1 <= self.number <= self.file.total_lines
    }
}

impl View for LineEntry {
    type V = LineEntryView;

    open spec fn view(&self) -> LineEntryView {
        LineEntryView {
            number: self.number as nat,
            file: self.file@,
            raw_string: self.raw_string@,
        }
    }
}

impl Clone for LineEntry {
    fn clone(&self) -> (copy: Self)
        ensures
            copy@ == self@,
    {
        LineEntry {
            number: self.number,
            file: self.file.clone(),
            raw_string: self.raw_string.clone(),
        }
    }
}

/// The test that a character is not the delimiter, as a value that
/// `leading` takes.
pub open spec fn not_delimiter() -> spec_fn(char) -> bool {
    |c: char| c != DELIMITER
}

/// The test that a character may not stand in a key, as a value that
/// `leading` takes.
pub open spec fn not_key_char() -> spec_fn(char) -> bool {
    |c: char| !spec_is_key_char(c)
}

/// The key that a line of text defines: all that stands before its first
/// delimiter, as it stands. A text without a delimiter defines none, nor
/// does one that starts with the delimiter.
pub open spec fn key_of(raw: Seq<char>) -> Option<Seq<char>> {
    let n = leading(raw, not_delimiter());
    if 0 < n < raw.len() {
        Some(raw.take(n as int))
    } else {
        None
    }
}

/// The key is what stands before the first delimiter, and it is not empty;
/// there is no key where there is no delimiter or where the text starts with
/// one.
pub proof fn lemma_key_of(raw: Seq<char>)
    ensures
        match key_of(raw) {
            Some(key) => {
                &&& 0 < key.len() < raw.len()
                &&& key == raw.take(key.len() as int)
                &&& raw[key.len() as int] == DELIMITER
                &&& !key.contains(DELIMITER)
            },
            None => !raw.contains(DELIMITER) || raw[0] == DELIMITER,
        },
{
    let n = leading(raw, not_delimiter()) as int;
    lemma_leading(raw, not_delimiter(), n);
    if 0 < n < raw.len() {
        let key = raw.take(n);
        assert forall|i: int| 0 <= i < key.len() implies key[i] != DELIMITER by {
            assert(not_delimiter()(raw[i]));
        }
    } else if n == raw.len() {
        assert forall|i: int| 0 <= i < raw.len() implies raw[i] != DELIMITER by {
            assert(not_delimiter()(raw[i]));
        }
    }
}

/// `s` without the characters at its start that may not stand in a key.
pub open spec fn strip_invalid_prefix(s: Seq<char>) -> Seq<char> {
    s.skip(leading(s, not_key_char()) as int)
}

impl LineEntry {
    /// The line lies within its file.
    pub open spec fn wf(&self) -> bool {
        self@.wf()
    }

    /// The line with the given number in `file`, or nothing where the file
    /// has no line of that number.
    pub fn new(number: usize, file: FileEntry, raw_string: String) -> (line: Option<LineEntry>)
        ensures
            match line {
                Some(line) => {
                    &&& line.wf()
                    &&& line.number == number
                    &&& line.file == file
                    &&& line.raw_string == raw_string
                },
                None => number < 1 || number > file.total_lines,
            },
    {
        if 1 <= number && number <= file.total_lines {
            Some(LineEntry { number, file, raw_string })
        } else {
            None
        }
    }

    /// The key that the line defines, if it defines one.
    pub fn get_key(&self) -> (key: Option<String>)
        ensures
            match key {
                Some(k) => key_of(self.raw_string@) == Some(k@),
                None => key_of(self.raw_string@) is None,
            },
    {
        let raw = self.raw_string.as_str();
        let n = raw.unicode_len();
        let mut i: usize = 0;
        for c in it: raw.chars()
            invariant
                i == it.index(),
                it.seq() == raw@,
                raw@ == self.raw_string@,
                n == raw@.len(),
                forall|j: int| 0 <= j < i ==> raw@[j] != DELIMITER,
        {
            if c == DELIMITER {
                proof {
                    assert(is_leading_run(raw@, not_delimiter(), i as int));
                    lemma_leading(raw@, not_delimiter(), i as int);
                }
                if i == 0 {
                    return None;
                }
                return Some(String::from_str(raw.substring_char(0, i)));
            }
            i += 1;
        }
        proof {
            assert(is_leading_run(raw@, not_delimiter(), n as int));
            lemma_leading(raw@, not_delimiter(), n as int);
        }
        None
    }
}

/// Removes from the start of `string` the characters that may not stand in a
/// key, up to the first one that may.
pub fn remove_invalid_leading_chars(string: &str) -> (cleaned: String)
    ensures
        cleaned@ == strip_invalid_prefix(string@),
{
    let n = string.unicode_len();
    let mut i: usize = 0;
    for c in it: string.chars()
        invariant
            i == it.index(),
            it.seq() == string@,
            n == string@.len(),
            forall|j: int| 0 <= j < i ==> !spec_is_key_char(#[trigger] string@[j]),
    {
        if is_key_char(c) {
            proof {
                assert(is_leading_run(string@, not_key_char(), i as int));
                lemma_leading(string@, not_key_char(), i as int);
                assert(string@.subrange(i as int, n as int) =~= string@.skip(i as int));
            }
            return String::from_str(string.substring_char(i, n));
        }
        i += 1;
    }
    proof {
        assert(is_leading_run(string@, not_key_char(), n as int));
        lemma_leading(string@, not_key_char(), n as int);
        assert(string@.skip(n as int) =~= Seq::<char>::empty());
    }
    String::new()
}

/// What a check reports about a line: the line, the name of the check, and
/// a message for the reader.
#[derive(Debug, PartialEq)]
pub struct Warning {
    pub check_name: String,
    pub line: LineEntry,
    pub message: String,
}

/// What a `Warning` stands for.
pub struct WarningView {
    pub check_name: Seq<char>,
    pub line: LineEntryView,
    pub message: Seq<char>,
}

impl View for Warning {
    type V = WarningView;

    open spec fn view(&self) -> WarningView {
        WarningView { check_name: self.check_name@, line: self.line@, message: self.message@ }
    }
}

impl Clone for Warning {
    fn clone(&self) -> (copy: Self)
        ensures
            copy@ == self@,
    {
        Warning {
            check_name: self.check_name.clone(),
            line: self.line.clone(),
            message: self.message.clone(),
        }
    }
}

impl Warning {
    /// A warning about `line`, raised by the check called `check_name`.
    pub fn new(line: LineEntry, check_name: &str, message: String) -> (warning: Self)
        ensures
            warning@ == (WarningView {
                check_name: check_name@,
                line: line@,
                message: message@,
            }),
    {
        Warning { check_name: String::from_str(check_name), line, message }
    }
}

/// What the outcome of a check stands for: the warning's view, if there is
/// a warning.
pub open spec fn outcome(warning: Option<Warning>) -> Option<WarningView> {
    match warning {
        Some(w) => Some(w@),
        None => None,
    }
}

} // verus!
