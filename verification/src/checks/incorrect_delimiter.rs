//! The check for keys with a character, after their first valid one, that
//! is neither an ASCII letter, an ASCII digit nor an underscore.
//!
//! Invalid characters at the very start of a key are another check's
//! concern: they are set aside before the key is examined.

use crate::checks::Check;
use crate::common::{
    key_of, lemma_key_of, not_key_char, outcome, remove_invalid_leading_chars,
    strip_invalid_prefix, LineEntry, LineEntryView, Warning, WarningView,
};
use crate::text::{
    contains_invalid_char, fill, fill_template, has_invalid_char, is_leading_run, leading,
    lemma_fill_first, lemma_fill_plain, lemma_leading, lemma_trailing, spec_is_key_char,
    spec_is_whitespace, trailing, trim, trimmed, whitespace, DELIMITER,
};
use vstd::prelude::*;

verus! {

/// The name of the check.
pub const NAME: &'static str = "IncorrectDelimiter";

/// The template of its messages, with `{}` where the key goes.
pub const TEMPLATE: &'static str = "The {} key has incorrect delimiter";

/// A key has an incorrect delimiter where, once the invalid characters at
/// its start are set aside and white space is trimmed from both ends, some
/// character is left that may not stand in a key.
pub open spec fn has_incorrect_delimiter(key: Seq<char>) -> bool {
    has_invalid_char(trimmed(strip_invalid_prefix(key)))
}

/// The message about `key`, which stands in it as it was found in the line.
pub open spec fn incorrect_delimiter_message(key: Seq<char>) -> Seq<char> {
    "The "@ + key + " key has incorrect delimiter"@
}

/// What the check says of a line: a warning where the line defines a key
/// and that key has an incorrect delimiter, and nothing otherwise.
pub open spec fn incorrect_delimiter_finding(line: LineEntryView) -> Option<WarningView> {
    match key_of(line.raw_string) {
        Some(key) => if has_incorrect_delimiter(key) {
            Some(
                WarningView {
                    check_name: NAME@,
                    line,
                    message: incorrect_delimiter_message(key),
                },
            )
        } else {
            None
        },
        None => None,
    }
}

/// The check itself. It holds its name and the template of its messages,
/// both fixed when it is made.
pub struct IncorrectDelimiterChecker<'a> {
    name: &'a str,
    template: &'a str,
}

impl<'a> IncorrectDelimiterChecker<'a> {
    /// The template of the check's messages, with `{}` where the key goes.
    pub closed spec fn template(&self) -> Seq<char> {
        self.template@
    }

    #[verifier::type_invariant]
    closed spec fn configured(&self) -> bool {
        &&& self.name@ == NAME@
        &&& self.template@ == TEMPLATE@
    }

    /// The message about `key`: the template with the key in it.
    pub fn message(&self, key: &str) -> (message: String)
        ensures
            message@ == fill(self.template(), key@),
            message@ == incorrect_delimiter_message(key@),
    {
        proof {
            use_type_invariant(self);
            lemma_fill_default_template(key@);
        }
        fill_template(self.template, key)
    }
}

/// The template of this check has one placeholder, so filling it puts the
/// value between the words before the placeholder and those behind it.
pub proof fn lemma_fill_default_template(value: Seq<char>)
    ensures
        fill(TEMPLATE@, value) == incorrect_delimiter_message(value),
{
    let template = TEMPLATE@;
    reveal_strlit("The {} key has incorrect delimiter");
    reveal_strlit("The ");
    reveal_strlit(" key has incorrect delimiter");
    lemma_fill_first(template, value, 4);
    lemma_fill_plain(template.skip(6), value);
    assert(template.take(4) =~= "The "@);
    assert(template.skip(6) =~= " key has incorrect delimiter"@);
}

impl<'a> Default for IncorrectDelimiterChecker<'a> {
    /// The check as it is meant to be used.
    fn default() -> (checker: Self)
        ensures
            checker.template() == TEMPLATE@,
    {
        Self { name: NAME, template: TEMPLATE }
    }
}

impl<'a> Check for IncorrectDelimiterChecker<'a> {
    open spec fn spec_name(&self) -> Seq<char> {
        NAME@
    }

    open spec fn finding(&self, line: LineEntryView) -> Option<WarningView> {
        incorrect_delimiter_finding(line)
    }

    fn run(&mut self, line: &LineEntry) -> (warning: Option<Warning>)
        ensures
            *final(self) == *old(self),
            outcome(warning) == incorrect_delimiter_finding(line@),
    {
        proof {
            use_type_invariant(&*self);
        }
        let key = match line.get_key() {
            Some(key) => key,
            None => { return None; },
        };
        // What is wrong at the very start of a key is not a matter of
        // delimiters, which stand between characters.
        let cleaned_key = remove_invalid_leading_chars(key.as_str());
        if contains_invalid_char(trim(cleaned_key.as_str())) {
            return Some(Warning::new(line.clone(), self.name(), self.message(key.as_str())));
        }
        None
    }

    fn name(&self) -> (name: &str) {
        proof {
            use_type_invariant(self);
        }
        self.name
    }
}

/// In `key`, an invalid character stands at `j`, behind a valid one at `i`,
/// and it is no white space at the end of the key: at `k`, which is `j` or
/// comes after it, stands a character that is no white space.
pub open spec fn interior_invalid(key: Seq<char>, i: int, j: int, k: int) -> bool {
    &&& 0 <= i < j <= k < key.len()
    &&& spec_is_key_char(key[i])
    &&& !spec_is_key_char(key[j])
    &&& !spec_is_whitespace(key[k])
}

/// A key has an incorrect delimiter exactly where an invalid character
/// stands behind a valid one and is not part of the white space at the end
/// of the key.
pub proof fn lemma_incorrect_delimiter(key: Seq<char>)
    ensures
        has_incorrect_delimiter(key) <==> exists|i: int, j: int, k: int|
            interior_invalid(key, i, j, k),
{
    let start = leading(key, not_key_char()) as int;
    lemma_leading(key, not_key_char(), start);
    let cleaned = key.skip(start);
    assert(forall|i: int| 0 <= i < start ==> not_key_char()(#[trigger] key[i]));
    if start == key.len() {
        assert(trimmed(cleaned).len() == 0);
    } else {
        assert(cleaned[0] == key[start]);
        assert(is_leading_run(cleaned, whitespace(), 0));
        lemma_leading(cleaned, whitespace(), 0);
        assert(cleaned.skip(0) =~= cleaned);
        let rest = trailing(cleaned, whitespace()) as int;
        lemma_trailing(cleaned, whitespace(), rest);
        if rest == cleaned.len() {
            assert(whitespace()(cleaned[0]));
        }
        let body = cleaned.take(cleaned.len() - rest);
        assert(trimmed(cleaned) == body);
        if has_invalid_char(body) {
            let m = choose|m: int| 0 <= m < body.len() && !spec_is_key_char(#[trigger] body[m]);
            let last = body.len() - 1;
            assert(body[m] == key[start + m]);
            assert(cleaned[last] == key[start + last]);
            assert(interior_invalid(key, start, start + m, start + last));
        }
        if exists|i: int, j: int, k: int| interior_invalid(key, i, j, k) {
            let (i, j, k) = choose|i: int, j: int, k: int| interior_invalid(key, i, j, k);
            if i < start {
                assert(not_key_char()(key[i]));
            }
            assert(cleaned[k - start] == key[k]);
            if k - start >= body.len() {
                assert(whitespace()(cleaned[k - start]));
            }
            assert(body[j - start] == key[j]);
        }
    }
}

/// A key made of valid characters alone raises no warning, wherever its
/// digits stand.
pub proof fn lemma_valid_key_passes(line: LineEntryView, key: Seq<char>)
    requires
        key_of(line.raw_string) == Some(key),
        forall|i: int| 0 <= i < key.len() ==> spec_is_key_char(#[trigger] key[i]),
    ensures
        incorrect_delimiter_finding(line) is None,
{
    lemma_incorrect_delimiter(key);
}

/// A key whose invalid characters all stand at its start, before the first
/// valid one, raises no warning.
pub proof fn lemma_invalid_start_passes(line: LineEntryView, key: Seq<char>, n: int)
    requires
        key_of(line.raw_string) == Some(key),
        0 <= n <= key.len(),
        forall|i: int| 0 <= i < n ==> !spec_is_key_char(#[trigger] key[i]),
        forall|i: int| n <= i < key.len() ==> spec_is_key_char(#[trigger] key[i]),
    ensures
        incorrect_delimiter_finding(line) is None,
{
    lemma_incorrect_delimiter(key);
}

/// A key with an invalid character behind a valid one, be it a space
/// between other characters or a punctuation mark, raises a warning, whatever
/// stands before the valid one. The message holds the whole key as it
/// stands in the line.
pub proof fn lemma_interior_invalid_warns(
    line: LineEntryView,
    key: Seq<char>,
    i: int,
    j: int,
    k: int,
)
    requires
        key_of(line.raw_string) == Some(key),
        interior_invalid(key, i, j, k),
    ensures
        incorrect_delimiter_finding(line) == Some(
            WarningView {
                check_name: "IncorrectDelimiter"@,
                line,
                message: "The "@ + key + " key has incorrect delimiter"@,
            },
        ),
{
    lemma_incorrect_delimiter(key);
}

/// A line without a delimiter raises no warning.
pub proof fn lemma_no_delimiter_passes(line: LineEntryView)
    requires
        !line.raw_string.contains(DELIMITER),
    ensures
        incorrect_delimiter_finding(line) is None,
{
    lemma_key_of(line.raw_string);
    if key_of(line.raw_string) is Some {
        let n = key_of(line.raw_string)->0.len() as int;
        assert(line.raw_string[n] == DELIMITER);
    }
}

/// An empty line raises no warning.
pub proof fn lemma_empty_line_passes(line: LineEntryView)
    requires
        line.raw_string.len() == 0,
    ensures
        incorrect_delimiter_finding(line) is None,
{
    lemma_no_delimiter_passes(line);
}

/// Whatever the check says of a line, it says of that line and under its
/// own name; and its message holds the key of the line as a whole, letter
/// for letter, behind the first four characters.
pub proof fn lemma_warning_embeds_key(line: LineEntryView)
    ensures
        incorrect_delimiter_finding(line) matches Some(warning) ==> {
            &&& warning.line == line
            &&& warning.check_name == "IncorrectDelimiter"@
            &&& key_of(line.raw_string) matches Some(key) && warning.message.subrange(
                4,
                4 + key.len() as int,
            ) == key
        },
{
    reveal_strlit("The ");
    if incorrect_delimiter_finding(line) is Some {
        let key = key_of(line.raw_string)->0;
        let message = incorrect_delimiter_message(key);
        assert(message.subrange(4, 4 + key.len() as int) =~= key);
    }
}

} // verus!
