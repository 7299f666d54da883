//! Character classes, and the operations on text that the checks share.
//!
//! Each operation is modelled on `Seq<char>` by a spec function, and carried
//! out on `&str` by an executable function whose contract names that model.

use vstd::prelude::*;
use vstd::string::StrSliceExecFns;
use vstd::string::StringExecFns;

verus! {

/// The character that separates a key from its value.
pub const DELIMITER: char = '=';

/// A character that may stand anywhere in a key: an ASCII letter, an ASCII
/// digit or an underscore.
pub open spec fn spec_is_key_char(c: char) -> bool {
    ||| 'a' <= c <= 'z'
    ||| 'A' <= c <= 'Z'
    ||| '0' <= c <= '9'
    ||| c == '_'
}

/// White space: the code points that carry the Unicode property
/// `White_Space`. These are the characters that trimming removes.
pub open spec fn spec_is_whitespace(c: char) -> bool {
    ||| '\u{9}' <= c <= '\u{D}'
    ||| c == ' '
    ||| c == '\u{85}'
    ||| c == '\u{A0}'
    ||| c == '\u{1680}'
    ||| '\u{2000}' <= c <= '\u{200A}'
    ||| c == '\u{2028}'
    ||| c == '\u{2029}'
    ||| c == '\u{202F}'
    ||| c == '\u{205F}'
    ||| c == '\u{3000}'
}

/// Tells whether `c` may stand anywhere in a key.
#[verifier::when_used_as_spec(spec_is_key_char)]
pub fn is_key_char(c: char) -> (r: bool)
    ensures
        r == spec_is_key_char(c),
{
    ('a' <= c && c <= 'z') || ('A' <= c && c <= 'Z') || ('0' <= c && c <= '9') || c == '_'
}

/// Tells whether `c` is white space.
#[verifier::when_used_as_spec(spec_is_whitespace)]
pub fn is_whitespace(c: char) -> (r: bool)
    ensures
        r == spec_is_whitespace(c),
{
    ('\u{9}' <= c && c <= '\u{D}') || c == ' ' || c == '\u{85}' || c == '\u{A0}' || c == '\u{1680}'
        || ('\u{2000}' <= c && c <= '\u{200A}') || c == '\u{2028}' || c == '\u{2029}' || c
        == '\u{202F}' || c == '\u{205F}' || c == '\u{3000}'
}

/// The number of characters at the start of `s`, one after another, that
/// all satisfy `p`.
pub open spec fn leading(s: Seq<char>, p: spec_fn(char) -> bool) -> nat
    decreases s.len(),
{
    if s.len() > 0 && p(s[0]) {
        1 + leading(s.drop_first(), p)
    } else {
        0
    }
}

/// The number of characters at the end of `s`, one after another, that all
/// satisfy `p`.
pub open spec fn trailing(s: Seq<char>, p: spec_fn(char) -> bool) -> nat
    decreases s.len(),
{
    if s.len() > 0 && p(s.last()) {
        1 + trailing(s.drop_last(), p)
    } else {
        0
    }
}

/// `n` characters at the start of `s` satisfy `p`, and the one after them,
/// if there is one, does not.
pub open spec fn is_leading_run(s: Seq<char>, p: spec_fn(char) -> bool, n: int) -> bool {
    &&& 0 <= n <= s.len()
    &&& forall|i: int| 0 <= i < n ==> p(#[trigger] s[i])
    &&& n < s.len() ==> !p(s[n])
}

/// `n` characters at the end of `s` satisfy `p`, and the one before them, if
/// there is one, does not.
pub open spec fn is_trailing_run(s: Seq<char>, p: spec_fn(char) -> bool, n: int) -> bool {
    &&& 0 <= n <= s.len()
    &&& forall|i: int| s.len() - n <= i < s.len() ==> p(#[trigger] s[i])
    &&& n < s.len() ==> !p(s[s.len() - n - 1])
}

/// `leading` is the one length that marks the leading run.
pub proof fn lemma_leading(s: Seq<char>, p: spec_fn(char) -> bool, n: int)
    ensures
        is_leading_run(s, p, leading(s, p) as int),
        is_leading_run(s, p, n) ==> n == leading(s, p),
    decreases s.len(),
{
    if s.len() > 0 && p(s[0]) {
        let t = s.drop_first();
        lemma_leading(t, p, n - 1);
        let m = leading(t, p) as int;
        assert forall|i: int| 0 <= i < m + 1 implies p(#[trigger] s[i]) by {
            if i > 0 {
                assert(s[i] == t[i - 1]);
            }
        }
        assert(m + 1 < s.len() ==> s[m + 1] == t[m]);
        if is_leading_run(s, p, n) {
            assert(n > 0);
            assert forall|i: int| 0 <= i < n - 1 implies p(#[trigger] t[i]) by {
                assert(t[i] == s[i + 1]);
            }
            assert(n - 1 < t.len() ==> t[n - 1] == s[n]);
            assert(is_leading_run(t, p, n - 1));
        }
    } else {
        if is_leading_run(s, p, n) && n > 0 {
            assert(p(s[0]));
        }
    }
}

/// `trailing` is the one length that marks the trailing run.
pub proof fn lemma_trailing(s: Seq<char>, p: spec_fn(char) -> bool, n: int)
    ensures
        is_trailing_run(s, p, trailing(s, p) as int),
        is_trailing_run(s, p, n) ==> n == trailing(s, p),
    decreases s.len(),
{
    if s.len() > 0 && p(s.last()) {
        let t = s.drop_last();
        lemma_trailing(t, p, n - 1);
        let m = trailing(t, p) as int;
        assert forall|i: int| s.len() - (m + 1) <= i < s.len() implies p(#[trigger] s[i]) by {
            if i < s.len() - 1 {
                assert(s[i] == t[i]);
            }
        }
        assert(m + 1 < s.len() ==> s[s.len() - (m + 1) - 1] == t[t.len() - m - 1]);
        if is_trailing_run(s, p, n) {
            assert(n > 0);
            assert forall|i: int| t.len() - (n - 1) <= i < t.len() implies p(#[trigger] t[i]) by {
                assert(t[i] == s[i]);
            }
            assert(n - 1 < t.len() ==> t[t.len() - (n - 1) - 1] == s[s.len() - n - 1]);
            assert(is_trailing_run(t, p, n - 1));
        }
    } else {
        if is_trailing_run(s, p, n) && n > 0 {
            assert(p(s[s.len() - 1]));
        }
    }
}

/// The test for white space, as a value that `leading` and `trailing` take.
pub open spec fn whitespace() -> spec_fn(char) -> bool {
    |c: char| spec_is_whitespace(c)
}

/// `s` without the white space at its start and at its end. White space
/// between other characters stays.
pub open spec fn trimmed(s: Seq<char>) -> Seq<char> {
    let t = s.skip(leading(s, whitespace()) as int);
    t.take(t.len() - trailing(t, whitespace()))
}

/// Some character of `s` may not stand in a key.
pub open spec fn has_invalid_char(s: Seq<char>) -> bool {
    exists|i: int| 0 <= i < s.len() && !spec_is_key_char(#[trigger] s[i])
}

/// Removes the white space at the start and at the end of `s`.
pub fn trim(s: &str) -> (r: &str)
    ensures
        r@ == trimmed(s@),
{
    let n = s.unicode_len();
    // `start..end` spans from the first character that is no white space to
    // the last one seen so far; `found` tells whether there is any.
    let mut found = false;
    let mut start: usize = 0;
    let mut end: usize = 0;
    let mut i: usize = 0;
    for c in it: s.chars()
        invariant
            i == it.index(),
            it.seq() == s@,
            n == s@.len(),
            forall|j: int| end <= j < i ==> spec_is_whitespace(#[trigger] s@[j]),
            !found ==> start == 0 && end == 0,
            found ==> start < end <= i && is_leading_run(s@, whitespace(), start as int)
                && !spec_is_whitespace(s@[end - 1]),
    {
        if !is_whitespace(c) {
            if !found {
                start = i;
                found = true;
            }
            end = i + 1;
        }
        i += 1;
    }
    proof {
        if !found {
            assert(is_leading_run(s@, whitespace(), n as int));
        }
        let skipped = if found { start as int } else { n as int };
        lemma_leading(s@, whitespace(), skipped);
        let t = s@.skip(skipped);
        let rest = if found { n - end } else { 0 };
        assert forall|j: int| t.len() - rest <= j < t.len() implies whitespace()(
            #[trigger] t[j],
        ) by {
            assert(t[j] == s@[skipped + j]);
        }
        assert(rest < t.len() ==> t[t.len() - rest - 1] == s@[end - 1]);
        assert(is_trailing_run(t, whitespace(), rest));
        lemma_trailing(t, whitespace(), rest);
        assert(trimmed(s@) =~= s@.subrange(start as int, end as int));
    }
    s.substring_char(start, end)
}

/// Tells whether some character of `s` may not stand in a key.
pub fn contains_invalid_char(s: &str) -> (r: bool)
    ensures
        r == has_invalid_char(s@),
{
    for c in it: s.chars()
        invariant
            it.seq() == s@,
            forall|j: int| 0 <= j < it.index() ==> spec_is_key_char(#[trigger] s@[j]),
    {
        if !is_key_char(c) {
            return true;
        }
    }
    false
}

/// The placeholder `{}` stands in `template` at index `i`.
pub open spec fn placeholder_at(template: Seq<char>, i: int) -> bool {
    &&& 0 <= i
    &&& i + 1 < template.len()
    &&& template[i] == '{'
    &&& template[i + 1] == '}'
}

/// `template` with `value` in the place of each placeholder `{}`, the
/// placeholders taken from left to right.
pub open spec fn fill(template: Seq<char>, value: Seq<char>) -> Seq<char>
    decreases template.len(),
{
    if template.len() == 0 {
        template
    } else if placeholder_at(template, 0) {
        value + fill(template.skip(2), value)
    } else {
        seq![template[0]] + fill(template.drop_first(), value)
    }
}

/// A template without a placeholder is filled by leaving it as it is.
pub proof fn lemma_fill_plain(template: Seq<char>, value: Seq<char>)
    requires
        forall|i: int| !placeholder_at(template, i),
    ensures
        fill(template, value) == template,
    decreases template.len(),
{
    if template.len() > 0 {
        let rest = template.drop_first();
        assert(!placeholder_at(template, 0));
        assert forall|i: int| !placeholder_at(rest, i) by {
            assert(!placeholder_at(template, i + 1));
        }
        lemma_fill_plain(rest, value);
        assert(seq![template[0]] + rest =~= template);
    }
}

/// Up to its first placeholder a template is copied; then comes the value,
/// and then what is behind the placeholder, filled in its turn.
pub proof fn lemma_fill_first(template: Seq<char>, value: Seq<char>, at: int)
    requires
        placeholder_at(template, at),
        forall|i: int| i < at ==> !placeholder_at(template, i),
    ensures
        fill(template, value) == template.take(at) + value + fill(template.skip(at + 2), value),
    decreases at,
{
    if at == 0 {
        assert(template.take(0) + value =~= value);
    } else {
        let rest = template.drop_first();
        assert(!placeholder_at(template, 0));
        assert forall|i: int| i < at - 1 implies !placeholder_at(rest, i) by {
            assert(!placeholder_at(template, i + 1));
        }
        lemma_fill_first(rest, value, at - 1);
        assert(rest.skip(at + 1) =~= template.skip(at + 2));
        assert(seq![template[0]] + (rest.take(at - 1) + value + fill(
            template.skip(at + 2),
            value,
        )) =~= template.take(at) + value + fill(template.skip(at + 2), value));
    }
}

/// Puts `value` in the place of each placeholder `{}` in `template`.
pub fn fill_template(template: &str, value: &str) -> (filled: String)
    ensures
        filled@ == fill(template@, value@),
{
    let n = template.unicode_len();
    let mut filled = String::new();
    // What stands before `done` is dealt with; `open` tells whether the
    // character just read is a `{` that a placeholder may start with.
    let mut done: usize = 0;
    let mut open = false;
    let mut i: usize = 0;
    proof {
        assert(template@.skip(0) =~= template@);
        assert(filled@ + fill(template@, value@) =~= fill(template@, value@));
    }
    for c in it: template.chars()
        invariant
            i == it.index(),
            it.seq() == template@,
            n == template@.len(),
            done <= i,
            open <==> done < i && template@[i - 1] == '{',
            forall|j: int| j + 1 < i - done ==> !placeholder_at(template@.skip(done as int), j),
            fill(template@, value@) == filled@ + fill(template@.skip(done as int), value@),
    {
        if open && c == '}' {
            proof {
                let rest = template@.skip(done as int);
                assert(rest[i - 1 - done] == template@[i - 1]);
                assert(rest[i - done] == template@[i as int]);
                lemma_fill_first(rest, value@, i - 1 - done);
                assert(rest.take(i - 1 - done) =~= template@.subrange(done as int, i - 1));
                assert(rest.skip(i + 1 - done) =~= template@.skip(i + 1));
            }
            filled.append(template.substring_char(done, i - 1));
            filled.append(value);
            done = i + 1;
            open = false;
        } else {
            proof {
                let rest = template@.skip(done as int);
                if done < i {
                    assert(rest[i - 1 - done] == template@[i - 1]);
                    assert(rest[i - done] == template@[i as int]);
                }
            }
            open = c == '{';
        }
        i += 1;
    }
    proof {
        let rest = template@.skip(done as int);
        lemma_fill_plain(rest, value@);
        assert(rest =~= template@.subrange(done as int, n as int));
    }
    filled.append(template.substring_char(done, n));
    filled
}

} // verus!
