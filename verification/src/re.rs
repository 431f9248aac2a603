//! The grammar of security labels.
//!
//! A label is a phrase of keywords, written in any letter case, with one or
//! more blanks between two keywords and any number of blanks before the
//! first. A rule that carries an argument (`MASKED WITH VALUE <expr>`) hands
//! back everything that follows the blanks after its last keyword, verbatim.
//! Only the space character counts as a blank.

use vstd::prelude::*;
use crate::text::to_chars;

verus! {

/// Whether `c` is the keyword letter `letter` (an upper-case ASCII letter) in
/// any case. The long s and the Kelvin sign fold to `S` and `K`.
pub open spec fn folds_to(c: char, letter: char) -> bool {
    ||| c == letter
    ||| c as u32 == letter as u32 + 32
    ||| (letter == 'S' && c == '\u{17f}')
    ||| (letter == 'K' && c == '\u{212a}')
}

/// The first position at or after `at` that holds no blank.
pub open spec fn blank_end(s: Seq<char>, at: int) -> int
    decreases s.len() - at,
{
    if 0 <= at < s.len() && s[at] == ' ' {
        blank_end(s, at + 1)
    } else {
        at
    }
}

/// Whether `word` stands at position `at` of `s`, in any letter case.
pub open spec fn keyword_at(s: Seq<char>, at: int, word: Seq<char>) -> bool {
    &&& 0 <= at
    &&& at + word.len() <= s.len()
    &&& forall|j: int| 0 <= j < word.len() ==> folds_to(s[at + j], #[trigger] word[j])
}

/// The position behind `word` where it stands at `at`.
pub open spec fn keyword_end(s: Seq<char>, at: int, word: Seq<char>) -> Option<int> {
    if keyword_at(s, at, word) {
        Some(at + word.len())
    } else {
        None
    }
}

/// The position behind the last of `words`, where `s` begins with optional
/// blanks and then holds the words in order, each two parted by one or more
/// blanks.
pub open spec fn phrase_end(s: Seq<char>, words: Seq<Seq<char>>) -> Option<int>
    decreases words.len(),
{
    if words.len() == 0 {
        None
    } else if words.len() == 1 {
        keyword_end(s, blank_end(s, 0), words[0])
    } else {
        match phrase_end(s, words.drop_last()) {
            Some(p) => if blank_end(s, p) > p {
                keyword_end(s, blank_end(s, p), words.last())
            } else {
                None
            },
            None => None,
        }
    }
}

/// Whether `s` is the phrase `words` and nothing else but blanks around it.
pub open spec fn is_phrase(s: Seq<char>, words: Seq<Seq<char>>) -> bool {
    match phrase_end(s, words) {
        Some(p) => blank_end(s, p) == s.len(),
        None => false,
    }
}

/// What follows the phrase `words` and the blanks behind it, where `s` begins
/// with that phrase and at least one blank follows it.
pub open spec fn phrase_rest(s: Seq<char>, words: Seq<Seq<char>>) -> Option<Seq<char>> {
    match phrase_end(s, words) {
        Some(p) => if blank_end(s, p) > p {
            Some(s.subrange(blank_end(s, p), s.len() as int))
        } else {
            None
        },
        None => None,
    }
}

/// `MASKED`: the label of a masked role.
pub open spec fn is_masked(label: Seq<char>) -> bool {
    is_phrase(label, seq!["MASKED"@])
}

/// `NOT MASKED`: the label of a column that keeps its authentic value.
pub open spec fn is_not_masked(label: Seq<char>) -> bool {
    is_phrase(label, seq!["NOT"@, "MASKED"@])
}

/// `TRUSTED`: the label of a function or schema that masking rules may use.
pub open spec fn is_trusted(label: Seq<char>) -> bool {
    is_phrase(label, seq!["TRUSTED"@])
}

/// `UNTRUSTED`: the label of a function that masking rules must not use.
pub open spec fn is_untrusted(label: Seq<char>) -> bool {
    is_phrase(label, seq!["UNTRUSTED"@])
}

/// `QUASI IDENTIFIER` or `INDIRECT IDENTIFIER`.
pub open spec fn is_indirect_identifier(label: Seq<char>) -> bool {
    is_phrase(label, seq!["QUASI"@, "IDENTIFIER"@]) || is_phrase(
        label,
        seq!["INDIRECT"@, "IDENTIFIER"@],
    )
}

/// The call text of `MASKED WITH FUNCTION <call>`.
pub open spec fn function_of(label: Seq<char>) -> Option<Seq<char>> {
    phrase_rest(label, seq!["MASKED"@, "WITH"@, "FUNCTION"@])
}

/// The expression of `MASKED WITH VALUE <expr>`.
pub open spec fn value_of(label: Seq<char>) -> Option<Seq<char>> {
    phrase_rest(label, seq!["MASKED"@, "WITH"@, "VALUE"@])
}

/// The sampling method of `TABLESAMPLE <method>(<param>)`.
pub open spec fn tablesample_of(label: Seq<char>) -> Option<Seq<char>> {
    phrase_rest(label, seq!["TABLESAMPLE"@])
}

/// The views of a sequence of string slices.
pub open spec fn slice_views(words: Seq<&str>) -> Seq<Seq<char>> {
    words.map_values(|w: &str| w@)
}

fn folds(c: char, letter: char) -> (r: bool)
    ensures
        r == folds_to(c, letter),
{
    c == letter || c as u32 == letter as u32 + 32 || (letter == 'S' && c == '\u{17f}') || (letter
        == 'K' && c == '\u{212a}')
}

fn skip_blanks(s: &Vec<char>, at: usize) -> (r: usize)
    requires
        at <= s.len(),
    ensures
        r == blank_end(s@, at as int),
        at <= r <= s.len(),
{
    let mut i: usize = at;
    while i < s.len() && s[i] == ' '
        invariant
            at <= i <= s.len(),
            blank_end(s@, at as int) == blank_end(s@, i as int),
        decreases s.len() - i,
    {
        i += 1;
    }
    i
}

fn keyword(s: &Vec<char>, at: usize, word: &str) -> (r: Option<usize>)
    requires
        at <= s.len(),
    ensures
        match r {
            Some(e) => keyword_end(s@, at as int, word@) == Some(e as int) && e <= s.len(),
            None => keyword_end(s@, at as int, word@) is None,
        },
{
    let n: usize = word.unicode_len();
    if n > s.len() - at {
        return None;
    }
    let mut j: usize = 0;
    while j < n
        invariant
            j <= n,
            n == word@.len(),
            at + n <= s.len(),
            forall|k: int| 0 <= k < j ==> folds_to(s@[at + k], #[trigger] word@[k]),
        decreases n - j,
    {
        if !folds(s[at + j], word.get_char(j)) {
            return None;
        }
        j += 1;
    }
    Some(at + n)
}

fn phrase(s: &Vec<char>, words: &Vec<&str>) -> (r: Option<usize>)
    ensures
        match r {
            Some(e) => phrase_end(s@, slice_views(words@)) == Some(e as int) && e <= s.len(),
            None => phrase_end(s@, slice_views(words@)) is None,
        },
{
    if words.len() == 0 {
        return None;
    }
    let ghost all = slice_views(words@);
    let start = skip_blanks(s, 0);
    assert(all.subrange(0, 1)[0] == words@[0]@);
    let mut end: usize = match keyword(s, start, words[0]) {
        Some(e) => e,
        None => {
            proof {
                lemma_phrase_fails(s@, all, 1);
            }
            return None;
        },
    };
    let mut i: usize = 1;
    while i < words.len()
        invariant
            1 <= i <= words.len(),
            end <= s.len(),
            all == slice_views(words@),
            phrase_end(s@, all.subrange(0, i as int)) == Some(end as int),
        decreases words.len() - i,
    {
        let ghost before = all.subrange(0, i as int);
        let ghost after = all.subrange(0, i + 1);
        assert(after.drop_last() == before);
        assert(after.last() == words@[i as int]@);
        let at = skip_blanks(s, end);
        let next = if at > end {
            keyword(s, at, words[i])
        } else {
            None
        };
        match next {
            Some(e) => {
                end = e;
            },
            None => {
                proof {
                    lemma_phrase_fails(s@, all, i + 1);
                }
                return None;
            },
        }
        i += 1;
    }
    assert(all.subrange(0, i as int) == all);
    Some(end)
}

/// A phrase whose first `n` words are not found is not found.
proof fn lemma_phrase_fails(s: Seq<char>, words: Seq<Seq<char>>, n: int)
    requires
        1 <= n <= words.len(),
        phrase_end(s, words.subrange(0, n)) is None,
    ensures
        phrase_end(s, words) is None,
    decreases words.len() - n,
{
    if n < words.len() {
        assert(words.subrange(0, n + 1).drop_last() == words.subrange(0, n));
        lemma_phrase_fails(s, words, n + 1);
    } else {
        assert(words.subrange(0, n) == words);
    }
}

fn matches_phrase(haystack: &str, words: &Vec<&str>) -> (r: bool)
    ensures
        r == is_phrase(haystack@, slice_views(words@)),
{
    let s = to_chars(haystack);
    match phrase(&s, words) {
        Some(e) => skip_blanks(&s, e) == s.len(),
        None => false,
    }
}

fn capture_after<'a>(haystack: &'a str, words: &Vec<&str>) -> (r: Option<&'a str>)
    ensures
        match r {
            Some(rest) => phrase_rest(haystack@, slice_views(words@)) == Some(rest@),
            None => phrase_rest(haystack@, slice_views(words@)) is None,
        },
{
    let s = to_chars(haystack);
    match phrase(&s, words) {
        Some(e) => {
            let from = skip_blanks(&s, e);
            if from > e {
                Some(haystack.substring_char(from, s.len()))
            } else {
                None
            }
        },
        None => None,
    }
}

/// Whether `haystack` is `QUASI IDENTIFIER` or `INDIRECT IDENTIFIER`.
pub fn is_match_indirect_identifier(haystack: &str) -> (r: bool)
    ensures
        r == is_indirect_identifier(haystack@),
{
    let quasi = vec!["QUASI", "IDENTIFIER"];
    let indirect = vec!["INDIRECT", "IDENTIFIER"];
    assert(slice_views(quasi@) =~= seq!["QUASI"@, "IDENTIFIER"@]);
    assert(slice_views(indirect@) =~= seq!["INDIRECT"@, "IDENTIFIER"@]);
    matches_phrase(haystack, &quasi) || matches_phrase(haystack, &indirect)
}

/// Whether `haystack` is `MASKED`.
pub fn is_match_masked(haystack: &str) -> (r: bool)
    ensures
        r == is_masked(haystack@),
{
    let words = vec!["MASKED"];
    assert(slice_views(words@) =~= seq!["MASKED"@]);
    matches_phrase(haystack, &words)
}

/// Whether `haystack` is `NOT MASKED`.
pub fn is_match_not_masked(haystack: &str) -> (r: bool)
    ensures
        r == is_not_masked(haystack@),
{
    let words = vec!["NOT", "MASKED"];
    assert(slice_views(words@) =~= seq!["NOT"@, "MASKED"@]);
    matches_phrase(haystack, &words)
}

/// Whether `haystack` is `TRUSTED`.
pub fn is_match_trusted(haystack: &str) -> (r: bool)
    ensures
        r == is_trusted(haystack@),
{
    let words = vec!["TRUSTED"];
    assert(slice_views(words@) =~= seq!["TRUSTED"@]);
    matches_phrase(haystack, &words)
}

/// Whether `haystack` is `UNTRUSTED`.
pub fn is_match_untrusted(haystack: &str) -> (r: bool)
    ensures
        r == is_untrusted(haystack@),
{
    let words = vec!["UNTRUSTED"];
    assert(slice_views(words@) =~= seq!["UNTRUSTED"@]);
    matches_phrase(haystack, &words)
}

/// The call text of a `MASKED WITH FUNCTION` rule, verbatim.
pub fn capture_function<'a>(haystack: &'a str) -> (r: Option<&'a str>)
    ensures
        match r {
            Some(call) => function_of(haystack@) == Some(call@),
            None => function_of(haystack@) is None,
        },
{
    let words = vec!["MASKED", "WITH", "FUNCTION"];
    assert(slice_views(words@) =~= seq!["MASKED"@, "WITH"@, "FUNCTION"@]);
    capture_after(haystack, &words)
}

/// The sampling method of a `TABLESAMPLE` rule, verbatim.
pub fn capture_tablesample<'a>(haystack: &'a str) -> (r: Option<&'a str>)
    ensures
        match r {
            Some(method) => tablesample_of(haystack@) == Some(method@),
            None => tablesample_of(haystack@) is None,
        },
{
    let words = vec!["TABLESAMPLE"];
    assert(slice_views(words@) =~= seq!["TABLESAMPLE"@]);
    capture_after(haystack, &words)
}

/// The expression of a `MASKED WITH VALUE` rule, verbatim.
pub fn capture_value<'a>(haystack: &'a str) -> (r: Option<&'a str>)
    ensures
        match r {
            Some(value) => value_of(haystack@) == Some(value@),
            None => value_of(haystack@) is None,
        },
{
    let words = vec!["MASKED", "WITH", "VALUE"];
    assert(slice_views(words@) =~= seq!["MASKED"@, "WITH"@, "VALUE"@]);
    capture_after(haystack, &words)
}

/// Whether `c` parts two entries of a list setting: a comma, a blank, a
/// bracket, a question mark or an exclamation mark.
pub open spec fn is_list_delimiter(c: char) -> bool {
    c == ',' || c == ' ' || c == '(' || c == ')' || c == '?' || c == '!'
}

/// The first position at or after `at` that holds a delimiter.
pub open spec fn entry_end(s: Seq<char>, at: int) -> int
    decreases s.len() - at,
{
    if 0 <= at < s.len() && !is_list_delimiter(s[at]) {
        entry_end(s, at + 1)
    } else {
        at
    }
}

/// The entries of a list setting from position `at` on: the longest runs of
/// characters that hold no delimiter, in order. An entry always ends behind
/// its start and within the text (`lemma_entry_has_end`), so that the last
/// case never applies.
pub open spec fn list_entries_from(s: Seq<char>, at: int) -> Seq<Seq<char>>
    decreases s.len() - at,
{
    if at < 0 || at >= s.len() {
        Seq::empty()
    } else if is_list_delimiter(s[at]) {
        list_entries_from(s, at + 1)
    } else if at < entry_end(s, at) <= s.len() {
        seq![s.subrange(at, entry_end(s, at))] + list_entries_from(s, entry_end(s, at))
    } else {
        Seq::empty()
    }
}

/// The entries of a list setting: the longest runs of characters that hold no
/// delimiter, in order. No entry is empty.
pub open spec fn list_entries(s: Seq<char>) -> Seq<Seq<char>> {
    list_entries_from(s, 0)
}

fn is_delimiter(c: char) -> (r: bool)
    ensures
        r == is_list_delimiter(c),
{
    c == ',' || c == ' ' || c == '(' || c == ')' || c == '?' || c == '!'
}

/// Splits a list setting into its entries.
pub fn capture_guc_list<'a>(haystack: &'a str) -> (r: Vec<&'a str>)
    ensures
        slice_views(r@) == list_entries(haystack@),
{
    let s = to_chars(haystack);
    let mut out: Vec<&'a str> = Vec::new();
    let mut at: usize = 0;
    while at < s.len()
        invariant
            at <= s.len(),
            s@ == haystack@,
            list_entries(s@) == slice_views(out@) + list_entries_from(s@, at as int),
        decreases s.len() - at,
    {
        if is_delimiter(s[at]) {
            at += 1;
        } else {
            let mut end: usize = at + 1;
            assert(entry_end(s@, at as int) == entry_end(s@, at + 1));
            while end < s.len() && !is_delimiter(s[end])
                invariant
                    at < end <= s.len(),
                    entry_end(s@, at as int) == entry_end(s@, end as int),
                decreases s.len() - end,
            {
                end += 1;
            }
            let entry = haystack.substring_char(at, end);
            let ghost before = slice_views(out@);
            out.push(entry);
            assert(slice_views(out@) =~= before + seq![entry@]);
            assert(list_entries(s@) =~= slice_views(out@) + list_entries_from(s@, end as int));
            at = end;
        }
    }
    assert(list_entries_from(s@, at as int) =~= Seq::<Seq<char>>::empty());
    assert(slice_views(out@) + Seq::<Seq<char>>::empty() =~= slice_views(out@));
    out
}

/// An entry ends behind the position where it begins, and within the text.
pub proof fn lemma_entry_has_end(s: Seq<char>, at: int)
    requires
        0 <= at < s.len(),
        !is_list_delimiter(s[at]),
    ensures
        at < entry_end(s, at) <= s.len(),
{
    lemma_entry_end_in_range(s, at + 1);
}

proof fn lemma_entry_end_in_range(s: Seq<char>, at: int)
    requires
        0 <= at <= s.len(),
    ensures
        at <= entry_end(s, at) <= s.len(),
        forall|k: int| at <= k < entry_end(s, at) ==> !is_list_delimiter(#[trigger] s[k]),
    decreases s.len() - at,
{
    if at < s.len() && !is_list_delimiter(s[at]) {
        lemma_entry_end_in_range(s, at + 1);
    }
}

/// Whether a text is not empty and holds no delimiter.
pub open spec fn is_entry(text: Seq<char>) -> bool {
    &&& text.len() > 0
    &&& forall|k: int| 0 <= k < text.len() ==> !is_list_delimiter(#[trigger] text[k])
}

/// No entry of a list setting is empty, and none holds a delimiter: an entry
/// has no blank around it or in it.
pub proof fn lemma_list_entries_are_trimmed(s: Seq<char>, at: int)
    requires
        0 <= at,
    ensures
        forall|i: int|
            0 <= i < list_entries_from(s, at).len() ==> is_entry(
                #[trigger] list_entries_from(s, at)[i],
            ),
    decreases s.len() - at,
{
    if at < s.len() {
        if is_list_delimiter(s[at]) {
            lemma_list_entries_are_trimmed(s, at + 1);
            assert(list_entries_from(s, at) == list_entries_from(s, at + 1));
        } else {
            lemma_entry_end_in_range(s, at + 1);
            assert(entry_end(s, at) == entry_end(s, at + 1));
            let end = entry_end(s, at);
            lemma_list_entries_are_trimmed(s, end);
            let first = s.subrange(at, end);
            let rest = list_entries_from(s, end);
            assert(list_entries_from(s, at) == seq![first] + rest);
            assert(is_entry(first)) by {
                assert forall|k: int| 0 <= k < first.len() implies !is_list_delimiter(
                    #[trigger] first[k],
                ) by {
                    assert(first[k] == s[at + k]);
                }
            }
            assert forall|i: int| 0 <= i < list_entries_from(s, at).len() implies is_entry(
                #[trigger] list_entries_from(s, at)[i],
            ) by {
                if i > 0 {
                    assert(list_entries_from(s, at)[i] == rest[i - 1]);
                } else {
                    assert(list_entries_from(s, at)[i] == first);
                }
            }
        }
    } else {
        assert(list_entries_from(s, at).len() == 0);
    }
}

/// A phrase that is found begins with its first word.
proof fn lemma_phrase_begins(s: Seq<char>, words: Seq<Seq<char>>)
    requires
        words.len() >= 1,
        phrase_end(s, words) is Some,
    ensures
        keyword_at(s, blank_end(s, 0), words[0]),
{
    if phrase_end(s, words.subrange(0, 1)) is None {
        lemma_phrase_fails(s, words, 1);
    }
    assert(words.subrange(0, 1)[0] == words[0]);
}

/// A phrase of two words or more that is found has its second word behind
/// one blank or more that follow its first word.
proof fn lemma_phrase_goes_on(s: Seq<char>, words: Seq<Seq<char>>)
    requires
        words.len() >= 2,
        phrase_end(s, words) is Some,
    ensures
        keyword_at(s, blank_end(s, 0), words[0]),
        blank_end(s, blank_end(s, 0) + words[0].len()) > blank_end(s, 0) + words[0].len(),
        keyword_at(s, blank_end(s, blank_end(s, 0) + words[0].len()), words[1]),
        phrase_end(s, words.subrange(0, 2)) == Some(
            blank_end(s, blank_end(s, 0) + words[0].len()) + words[1].len(),
        ),
{
    lemma_phrase_begins(s, words);
    let two = words.subrange(0, 2);
    if phrase_end(s, two) is None {
        lemma_phrase_fails(s, words, 2);
    }
    assert(two.drop_last() =~= seq![words[0]]);
    assert(two.last() == words[1]);
    assert(phrase_end(s, seq![words[0]]) == keyword_end(s, blank_end(s, 0), words[0]));
}

/// A label is of one kind at most: no label is two of `MASKED`,
/// `NOT MASKED`, `TRUSTED`, `UNTRUSTED`, a masking function, a masking value
/// and a sampling rule.
pub proof fn lemma_label_kinds_exclude(label: Seq<char>)
    ensures
        !(is_trusted(label) && is_untrusted(label)),
        !(is_masked(label) && is_not_masked(label)),
        !(is_masked(label) && (is_trusted(label) || is_untrusted(label))),
        !(is_not_masked(label) && (is_trusted(label) || is_untrusted(label))),
        !(function_of(label) is Some && value_of(label) is Some),
        function_of(label) is Some || value_of(label) is Some ==> !is_masked(label)
            && !is_not_masked(label) && !is_trusted(label) && !is_untrusted(label)
            && tablesample_of(label) is None,
        tablesample_of(label) is Some ==> !is_masked(label) && !is_not_masked(label)
            && !is_trusted(label) && !is_untrusted(label),
{
    reveal_strlit("MASKED");
    reveal_strlit("NOT");
    reveal_strlit("TRUSTED");
    reveal_strlit("UNTRUSTED");
    reveal_strlit("WITH");
    reveal_strlit("FUNCTION");
    reveal_strlit("VALUE");
    reveal_strlit("TABLESAMPLE");
    let at = blank_end(label, 0);
    let masked = seq!["MASKED"@];
    let not_masked = seq!["NOT"@, "MASKED"@];
    let trusted = seq!["TRUSTED"@];
    let untrusted = seq!["UNTRUSTED"@];
    let function = seq!["MASKED"@, "WITH"@, "FUNCTION"@];
    let value = seq!["MASKED"@, "WITH"@, "VALUE"@];
    let sample = seq!["TABLESAMPLE"@];
    // The first letters, and the second where two words begin alike, tell
    // the first words apart.
    if phrase_end(label, masked) is Some {
        lemma_phrase_begins(label, masked);
        assert(folds_to(label[at + 0], "MASKED"@[0]));
    }
    if phrase_end(label, not_masked) is Some {
        lemma_phrase_begins(label, not_masked);
        assert(folds_to(label[at + 0], "NOT"@[0]));
    }
    if phrase_end(label, trusted) is Some {
        lemma_phrase_begins(label, trusted);
        assert(folds_to(label[at + 0], "TRUSTED"@[0]));
        assert(folds_to(label[at + 1], "TRUSTED"@[1]));
    }
    if phrase_end(label, untrusted) is Some {
        lemma_phrase_begins(label, untrusted);
        assert(folds_to(label[at + 0], "UNTRUSTED"@[0]));
    }
    if phrase_end(label, sample) is Some {
        lemma_phrase_begins(label, sample);
        assert(folds_to(label[at + 0], "TABLESAMPLE"@[0]));
        assert(folds_to(label[at + 1], "TABLESAMPLE"@[1]));
    }
    if phrase_end(label, function) is Some {
        lemma_phrase_goes_on(label, function);
        assert(folds_to(label[at + 0], "MASKED"@[0]));
        let third = blank_end(label, phrase_end(label, function.subrange(0, 2))->0);
        assert(function.drop_last() =~= function.subrange(0, 2));
        assert(keyword_at(label, third, "FUNCTION"@));
        assert(folds_to(label[third + 0], "FUNCTION"@[0]));
    }
    if phrase_end(label, value) is Some {
        lemma_phrase_goes_on(label, value);
        assert(folds_to(label[at + 0], "MASKED"@[0]));
        let third = blank_end(label, phrase_end(label, value.subrange(0, 2))->0);
        assert(value.drop_last() =~= value.subrange(0, 2));
        assert(keyword_at(label, third, "VALUE"@));
        assert(folds_to(label[third + 0], "VALUE"@[0]));
    }
    if phrase_end(label, function) is Some && phrase_end(label, value) is Some {
        assert(function.subrange(0, 2) =~= value.subrange(0, 2));
    }
    // Behind `MASKED` alone nothing but blanks may follow; in a rule with an
    // argument, `WITH` follows.
    if is_masked(label) && (phrase_end(label, function) is Some || phrase_end(label, value)
        is Some) {
        let behind = blank_end(label, at + 6);
        assert(phrase_end(label, masked) == Some(at + 6));
        assert(behind == label.len());
    }
}

/// `n` blanks.
pub open spec fn blanks(n: nat) -> Seq<char> {
    Seq::new(n, |i: int| ' ')
}

/// Whether `text` is `word` written in any letter case.
pub open spec fn spells(text: Seq<char>, word: Seq<char>) -> bool {
    &&& text.len() == word.len()
    &&& forall|j: int| 0 <= j < word.len() ==> folds_to(text[j], #[trigger] word[j])
}

/// Whether a word can be a keyword: it is not empty, and no blank writes its
/// first letter.
pub open spec fn is_keyword(word: Seq<char>) -> bool {
    word.len() > 0 && !folds_to(' ', word[0])
}

/// Whether `text` writes the words in order, each behind as many blanks as
/// `gaps` says: any number before the first word, one or more before any
/// other.
pub open spec fn writes(text: Seq<char>, words: Seq<Seq<char>>, gaps: Seq<nat>) -> bool
    decreases words.len(),
{
    if words.len() == 0 {
        text.len() == 0 && gaps.len() == 0
    } else {
        let tail = gaps.last() + words.last().len();
        &&& gaps.len() == words.len()
        &&& words.len() > 1 ==> gaps.last() >= 1
        &&& text.len() >= tail
        &&& writes(text.subrange(0, text.len() - tail), words.drop_last(), gaps.drop_last())
        &&& text.subrange(text.len() - tail, text.len() - words.last().len()) == blanks(
            gaps.last(),
        )
        &&& spells(text.subrange(text.len() - words.last().len(), text.len() as int), words.last())
    }
}

/// The blanks from a position on end within the text, and nothing but blanks
/// stands before their end.
proof fn lemma_blank_end(s: Seq<char>, at: int)
    requires
        0 <= at <= s.len(),
    ensures
        at <= blank_end(s, at) <= s.len(),
        s.subrange(at, blank_end(s, at)) == blanks((blank_end(s, at) - at) as nat),
        blank_end(s, at) < s.len() ==> s[blank_end(s, at)] != ' ',
    decreases s.len() - at,
{
    if at < s.len() && s[at] == ' ' {
        lemma_blank_end(s, at + 1);
        let end = blank_end(s, at);
        assert forall|k: int| 0 <= k < end - at implies #[trigger] s.subrange(at, end)[k]
            == ' ' by {
            if k > 0 {
                assert(s.subrange(at, end)[k] == s.subrange(at + 1, end)[k - 1]);
            }
        }
        assert(s.subrange(at, end) =~= blanks((end - at) as nat));
    } else {
        assert(s.subrange(at, at) =~= blanks(0));
    }
}

/// Where `n` blanks stand at a position and no blank behind them, the blanks
/// end behind the `n`.
proof fn lemma_blank_run(s: Seq<char>, at: int, n: nat)
    requires
        0 <= at,
        at + n <= s.len(),
        s.subrange(at, at + n) == blanks(n),
        at + n < s.len() ==> s[at + n] != ' ',
    ensures
        blank_end(s, at) == at + n,
    decreases n,
{
    if n > 0 {
        assert(s[at] == s.subrange(at, at + n)[0]);
        let rest = s.subrange(at + 1, at + 1 + (n - 1));
        assert(rest =~= blanks((n - 1) as nat)) by {
            assert forall|k: int| 0 <= k < n - 1 implies #[trigger] rest[k] == ' ' by {
                assert(rest[k] == s.subrange(at, at + n)[k + 1]);
            }
        }
        lemma_blank_run(s, at + 1, (n - 1) as nat);
    }
}

/// A phrase that is found is written: the text up to its end writes the
/// words, with some blanks before each.
pub proof fn lemma_phrase_is_written(s: Seq<char>, words: Seq<Seq<char>>)
    requires
        phrase_end(s, words) is Some,
    ensures
        0 <= phrase_end(s, words)->0 <= s.len(),
        exists|gaps: Seq<nat>| writes(s.subrange(0, phrase_end(s, words)->0), words, gaps),
    decreases words.len(),
{
    let end = phrase_end(s, words)->0;
    if words.len() == 1 {
        lemma_blank_end(s, 0);
        let at = blank_end(s, 0);
        let gaps = seq![at as nat];
        let text = s.subrange(0, end);
        assert(words.drop_last() =~= Seq::<Seq<char>>::empty());
        assert(gaps.drop_last() =~= Seq::<nat>::empty());
        assert(text.subrange(0, at) =~= s.subrange(0, at));
        assert(writes(text.subrange(0, 0), words.drop_last(), gaps.drop_last()));
        assert(spells(text.subrange(at, text.len() as int), words[0])) by {
            assert forall|j: int| 0 <= j < words[0].len() implies folds_to(
                text.subrange(at, text.len() as int)[j],
                #[trigger] words[0][j],
            ) by {
                assert(text.subrange(at, text.len() as int)[j] == s[at + j]);
            }
        }
        assert(writes(text, words, gaps));
    } else if words.len() > 1 {
        let before = phrase_end(s, words.drop_last())->0;
        lemma_phrase_is_written(s, words.drop_last());
        let head_gaps = choose|gaps: Seq<nat>|
            writes(s.subrange(0, before), words.drop_last(), gaps);
        lemma_blank_end(s, before);
        let at = blank_end(s, before);
        let gaps = head_gaps.push((at - before) as nat);
        let text = s.subrange(0, end);
        let word = words.last();
        assert(gaps.drop_last() =~= head_gaps);
        assert(text.subrange(0, before) =~= s.subrange(0, before));
        assert(text.subrange(before, at) =~= s.subrange(before, at));
        assert(spells(text.subrange(at, text.len() as int), word)) by {
            assert forall|j: int| 0 <= j < word.len() implies folds_to(
                text.subrange(at, text.len() as int)[j],
                #[trigger] word[j],
            ) by {
                assert(text.subrange(at, text.len() as int)[j] == s[at + j]);
            }
        }
        assert(writes(text, words, gaps));
    }
}

/// A phrase that is written is found: where the beginning of a text writes
/// keywords, with some blanks before each, the phrase ends there.
pub proof fn lemma_written_phrase_is_found(
    s: Seq<char>,
    words: Seq<Seq<char>>,
    gaps: Seq<nat>,
    end: int,
)
    requires
        words.len() >= 1,
        forall|i: int| 0 <= i < words.len() ==> is_keyword(#[trigger] words[i]),
        0 <= end <= s.len(),
        writes(s.subrange(0, end), words, gaps),
    ensures
        phrase_end(s, words) == Some(end),
    decreases words.len(),
{
    let text = s.subrange(0, end);
    let word = words.last();
    let tail = gaps.last() + word.len();
    let cut = end - tail;
    let at = end - word.len();
    assert(text.subrange(cut, at) =~= s.subrange(cut, at));
    assert(word == words[words.len() - 1]);
    assert(s[at] == text.subrange(at, text.len() as int)[0]);
    assert(folds_to(s[at], word[0]));
    lemma_blank_run(s, cut, gaps.last());
    assert(keyword_at(s, at, word)) by {
        assert forall|j: int| 0 <= j < word.len() implies folds_to(
            s[at + j],
            #[trigger] word[j],
        ) by {
            assert(text.subrange(at, text.len() as int)[j] == s[at + j]);
        }
    }
    if words.len() == 1 {
        assert(writes(text.subrange(0, cut), words.drop_last(), gaps.drop_last()));
        assert(text.subrange(0, cut).len() == 0);
        assert(words[0] == word);
    } else {
        assert(text.subrange(0, cut) =~= s.subrange(0, cut));
        assert forall|i: int| 0 <= i < words.drop_last().len() implies is_keyword(
            #[trigger] words.drop_last()[i],
        ) by {
            assert(words.drop_last()[i] == words[i]);
        }
        lemma_written_phrase_is_found(s, words.drop_last(), gaps.drop_last(), cut);
    }
}

/// Whether every one of `words` can be a keyword.
pub open spec fn are_keywords(words: Seq<Seq<char>>) -> bool {
    &&& words.len() >= 1
    &&& forall|i: int| 0 <= i < words.len() ==> is_keyword(#[trigger] words[i])
}

/// Whether `s` writes the words up to position `end` and holds nothing but
/// blanks behind it.
pub open spec fn writes_alone(
    s: Seq<char>,
    words: Seq<Seq<char>>,
    gaps: Seq<nat>,
    end: int,
) -> bool {
    &&& 0 <= end <= s.len()
    &&& writes(s.subrange(0, end), words, gaps)
    &&& s.subrange(end, s.len() as int) == blanks((s.len() - end) as nat)
}

/// Whether `s` writes the words up to position `end`, then `n` blanks, one or
/// more, and then `rest`, which begins with no blank.
pub open spec fn writes_before(
    s: Seq<char>,
    words: Seq<Seq<char>>,
    gaps: Seq<nat>,
    end: int,
    n: nat,
    rest: Seq<char>,
) -> bool {
    &&& 0 <= end
    &&& n >= 1
    &&& end + n <= s.len()
    &&& writes(s.subrange(0, end), words, gaps)
    &&& s.subrange(end, end + n) == blanks(n)
    &&& s.subrange(end + n, s.len() as int) == rest
    &&& rest.len() > 0 ==> rest[0] != ' '
}

/// A text is a phrase exactly when it writes the words of the phrase, with
/// blanks between them, and holds nothing else but blanks around them.
pub proof fn lemma_is_phrase_means_written_alone(s: Seq<char>, words: Seq<Seq<char>>)
    requires
        are_keywords(words),
    ensures
        is_phrase(s, words) <==> exists|gaps: Seq<nat>, end: int|
            writes_alone(s, words, gaps, end),
{
    if is_phrase(s, words) {
        let end = phrase_end(s, words)->0;
        lemma_phrase_is_written(s, words);
        let gaps = choose|gaps: Seq<nat>| writes(s.subrange(0, end), words, gaps);
        lemma_blank_end(s, end);
        assert(writes_alone(s, words, gaps, end));
    }
    if exists|gaps: Seq<nat>, end: int| writes_alone(s, words, gaps, end) {
        let (gaps, end) = choose|gaps: Seq<nat>, end: int| writes_alone(s, words, gaps, end);
        lemma_written_phrase_is_found(s, words, gaps, end);
        lemma_blank_run(s, end, (s.len() - end) as nat);
    }
}

/// A rule hands back `rest` exactly when the text writes the words of the
/// rule, then one blank or more, and then `rest`, which begins with no
/// blank: what a rule captures is all that follows those blanks, to the end
/// of the text.
pub proof fn lemma_phrase_rest_means_written_before(
    s: Seq<char>,
    words: Seq<Seq<char>>,
    rest: Seq<char>,
)
    requires
        are_keywords(words),
    ensures
        phrase_rest(s, words) == Some(rest) <==> exists|gaps: Seq<nat>, end: int, n: nat|
            writes_before(s, words, gaps, end, n, rest),
{
    if phrase_rest(s, words) == Some(rest) {
        let end = phrase_end(s, words)->0;
        lemma_phrase_is_written(s, words);
        let gaps = choose|gaps: Seq<nat>| writes(s.subrange(0, end), words, gaps);
        lemma_blank_end(s, end);
        let n = (blank_end(s, end) - end) as nat;
        if rest.len() > 0 {
            assert(rest[0] == s[blank_end(s, end)]);
        }
        assert(writes_before(s, words, gaps, end, n, rest));
    }
    if exists|gaps: Seq<nat>, end: int, n: nat| writes_before(s, words, gaps, end, n, rest) {
        let (gaps, end, n) = choose|gaps: Seq<nat>, end: int, n: nat|
            writes_before(s, words, gaps, end, n, rest);
        lemma_written_phrase_is_found(s, words, gaps, end);
        if end + n < s.len() {
            assert(s[end + n] == rest[0]);
        }
        lemma_blank_run(s, end, n);
    }
}

/// The words of every kind of label are keywords, so that what is said of
/// phrases of keywords holds of every label.
pub proof fn lemma_label_words_are_keywords()
    ensures
        are_keywords(seq!["MASKED"@]),
        are_keywords(seq!["NOT"@, "MASKED"@]),
        are_keywords(seq!["TRUSTED"@]),
        are_keywords(seq!["UNTRUSTED"@]),
        are_keywords(seq!["QUASI"@, "IDENTIFIER"@]),
        are_keywords(seq!["INDIRECT"@, "IDENTIFIER"@]),
        are_keywords(seq!["MASKED"@, "WITH"@, "FUNCTION"@]),
        are_keywords(seq!["MASKED"@, "WITH"@, "VALUE"@]),
        are_keywords(seq!["TABLESAMPLE"@]),
{
    reveal_strlit("MASKED");
    reveal_strlit("NOT");
    reveal_strlit("TRUSTED");
    reveal_strlit("UNTRUSTED");
    reveal_strlit("QUASI");
    reveal_strlit("INDIRECT");
    reveal_strlit("IDENTIFIER");
    reveal_strlit("WITH");
    reveal_strlit("FUNCTION");
    reveal_strlit("VALUE");
    reveal_strlit("TABLESAMPLE");
    assert(is_keyword("MASKED"@));
    assert(is_keyword("NOT"@));
    assert(is_keyword("TRUSTED"@));
    assert(is_keyword("UNTRUSTED"@));
    assert(is_keyword("QUASI"@));
    assert(is_keyword("INDIRECT"@));
    assert(is_keyword("IDENTIFIER"@));
    assert(is_keyword("WITH"@));
    assert(is_keyword("FUNCTION"@));
    assert(is_keyword("VALUE"@));
    assert(is_keyword("TABLESAMPLE"@));
}

} // verus!
