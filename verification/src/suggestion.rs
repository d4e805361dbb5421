//! Matching typed input against command-argument suggestions.

use vstd::prelude::*;

use crate::util::chars_of;

verus! {

/// `s` begins with `p`.
pub open spec fn starts_with(s: Seq<char>, p: Seq<char>) -> bool {
    p.len() <= s.len() && s.take(p.len() as int) == p
}

/// A character after which a suggestion's words may be matched.
pub open spec fn is_word_separator(c: char) -> bool {
    c == '.' || c == '_' || c == '/'
}

/// `input` starts with `pattern`, or the text after one of its `.`, `_` or
/// `/` does.
pub open spec fn matches_substring(pattern: Seq<char>, input: Seq<char>) -> bool {
    ||| starts_with(input, pattern)
    ||| exists|i: int| 0 <= i < input.len() && #[trigger] is_word_separator(input[i])
            && starts_with(input.skip(i + 1), pattern)
}

/// What `str::to_lowercase` gives for a string: its Unicode lowercase form,
/// where a character's mapping can depend on its neighbours (a final Greek
/// sigma) and can be more than one character.
pub uninterp spec fn lowercase(s: Seq<char>) -> Seq<char>;

/// `str::to_lowercase`; the result is named by [`lowercase`].
#[verifier::external_body]
fn to_lowercase(s: &str) -> (r: String)
    ensures
        r@ == lowercase(s@),
{
    s.to_lowercase()
}

/// Whether `input` from `start` on begins with `pattern`.
fn starts_with_at(input: &Vec<char>, start: usize, pattern: &Vec<char>) -> (r: bool)
    requires
        start <= input@.len(),
    ensures
        r == starts_with(input@.skip(start as int), pattern@),
{
    let n = input.len();
    if pattern.len() > n - start {
        return false;
    }
    let mut k: usize = 0;
    while k < pattern.len()
        invariant
            n == input@.len(),
            start <= input@.len(),
            pattern@.len() <= input@.len() - start,
            k <= pattern@.len(),
            forall|j: int| 0 <= j < k ==> input@[start + j] == pattern@[j],
        decreases pattern@.len() - k,
    {
        if input[start + k] != pattern[k] {
            assert(input@.skip(start as int).take(pattern@.len() as int)[k as int] != pattern@[k as int]);
            return false;
        }
        k += 1;
    }
    assert(input@.skip(start as int).take(pattern@.len() as int) =~= pattern@);
    true
}

/// Whether `input` starts with `pattern`, or the text after one of its `.`,
/// `_` or `/` does; case matters.
pub fn matches_suggestion_substring_case_sensitive(pattern: &str, input: &str) -> (r: bool)
    ensures
        r == matches_substring(pattern@, input@),
{
    let p = chars_of(pattern);
    let s = chars_of(input);
    if starts_with_at(&s, 0, &p) {
        assert(s@.skip(0) =~= s@);
        return true;
    }
    assert(s@.skip(0) =~= s@);
    let mut i: usize = 0;
    while i < s.len()
        invariant
            i <= s@.len(),
            s@ == input@,
            p@ == pattern@,
            forall|j: int| 0 <= j < i ==> !(#[trigger] is_word_separator(s@[j]) && starts_with(s@.skip(j + 1), p@)),
        decreases s@.len() - i,
    {
        let c = s[i];
        if c == '.' || c == '_' || c == '/' {
            if starts_with_at(&s, i + 1, &p) {
                assert(is_word_separator(s@[i as int]));
                return true;
            }
        }
        i += 1;
    }
    false
}

/// Like [`matches_suggestion_substring_case_sensitive`], on the lowercase
/// forms of both strings.
pub fn matches_suggestion_substring(pattern: &str, input: &str) -> (r: bool)
    ensures
        r == matches_substring(lowercase(pattern@), lowercase(input@)),
{
    let p = to_lowercase(pattern);
    let s = to_lowercase(input);
    matches_suggestion_substring_case_sensitive(p.as_str(), s.as_str())
}

/// The suggestions among `s` that `prefix` matches, in order.
pub open spec fn matching_suggestions(s: Seq<&'static str>, prefix: Seq<char>) -> Seq<&'static str>
    decreases s.len(),
{
    if s.len() == 0 {
        s
    } else {
        let rest = matching_suggestions(s.drop_last(), prefix);
        if matches_substring(lowercase(prefix), lowercase(s.last()@)) {
            rest.push(s.last())
        } else {
            rest
        }
    }
}

/// Suggests a fixed list of strings.
pub struct FixedSuggestionProvider {
    suggestions: &'static [&'static str],
}

impl FixedSuggestionProvider {
    /// The suggestions offered.
    pub closed spec fn suggestions_view(&self) -> Seq<&'static str> {
        self.suggestions@
    }

    pub fn new(suggestions: &'static [&'static str]) -> (r: FixedSuggestionProvider)
        ensures
            r.suggestions_view() == suggestions@,
    {
        FixedSuggestionProvider { suggestions }
    }

    /// The suggestions that match what remains of the typed input, lowercased.
    pub fn list_suggestions(&self, remaining_lowercase: &str) -> (r: Vec<&'static str>)
        ensures
            r@ == matching_suggestions(self.suggestions_view(), remaining_lowercase@),
    {
        let mut r: Vec<&'static str> = Vec::new();
        let mut i: usize = 0;
        while i < self.suggestions.len()
            invariant
                i <= self.suggestions@.len(),
                r@ == matching_suggestions(self.suggestions@.take(i as int), remaining_lowercase@),
            decreases self.suggestions@.len() - i,
        {
            let suggestion = self.suggestions[i];
            proof {
                assert(self.suggestions@.take(i + 1).drop_last() =~= self.suggestions@.take(i as int));
            }
            if matches_suggestion_substring(remaining_lowercase, suggestion) {
                r.push(suggestion);
            }
            i += 1;
        }
        assert(self.suggestions@.take(self.suggestions@.len() as int) =~= self.suggestions@);
        r
    }
}

} // verus!
