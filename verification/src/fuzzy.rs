//! Fuzzy matching, which nucleo does, and what is made of its results.

use vstd::prelude::*;

use crate::letters::{self, has_accents, is_joining, is_plain, is_same_letter, settle};
use crate::text::{chars_of, string_of};

verus! {

/// The longest pattern that is matched. The matcher may read a pattern as twice
/// as many letters, since it doubles backslashes. Every letter matched adds at
/// most 26 to a score of 16 bits, and the first one 36, so no score of a longer
/// pattern is sure to fit.
pub const PATTERN_LIMIT: usize = 1_250;

/// The longest text that is matched, in characters. The matcher multiplies the
/// size of a text, in bytes or in characters, by that of the pattern. A
/// character has at most four bytes, and the product stays below 32 bits.
pub const TEXT_LIMIT: u64 = 800_000;

/// Whether a pattern is split at a position: at a space with no backslash before
/// it.
pub open spec fn splits(pattern: Seq<char>, i: int) -> bool {
    pattern[i] == ' ' && !(i > 0 && pattern[i - 1] == '\\')
}

/// Whether a word of a pattern starts at a position.
pub open spec fn word_starts(pattern: Seq<char>, at: int) -> bool {
    0 <= at <= pattern.len() && (at == 0 || splits(pattern, at - 1))
}

/// Where a word ends.
pub open spec fn word_end(pattern: Seq<char>, from: int) -> int
    decreases pattern.len() - from,
{
    if from >= pattern.len() {
        pattern.len() as int
    } else if splits(pattern, from) {
        from
    } else {
        word_end(pattern, from + 1)
    }
}

/// The word of a pattern that starts at a position.
pub open spec fn word_at(pattern: Seq<char>, at: int) -> Seq<char> {
    pattern.subrange(at, word_end(pattern, at))
}

/// Whether a word is looked for at the end of a text only.
pub open spec fn sought_at_end(word: Seq<char>) -> bool {
    &&& word.len() > 0
    &&& word.last() == '$'
    &&& !(word.len() > 1 && word[word.len() - 2] == '\\')
}

/// The first letter of a text, from a position on, that is the same one as `c`.
/// A letter taken into the cluster before it is passed over, unless it wavers.
pub open spec fn lead(c: char, text: Seq<char>, from: int) -> int
    decreases text.len() - from,
{
    if from >= text.len() {
        text.len() as int
    } else if letters::same_letter(text[from], c) && (letters::wavers(text[from]) || from <= 0
        || !letters::joins(text[from - 1])) {
        from
    } else {
        lead(c, text, from + 1)
    }
}

/// The rest of a text after a position, with a space for each letter that
/// wavers.
pub open spec fn steady_rest(text: Seq<char>, at: int) -> Seq<char> {
    text.skip(at + 1).map_values(
        |c: char|
            if letters::wavers(c) {
                ' '
            } else {
                c
            },
    )
}

/// Whether the matcher stumbles over a word in a text. It looks for the first
/// letter of the word with every letter folded, and for the word itself with
/// some letters folded. So it stumbles where the letter it starts from is none
/// of the word's, and the word still follows.
pub open spec fn stumbles(word: Seq<char>, text: Seq<char>) -> bool {
    let at = lead(word[0], text, 0);
    &&& word.len() > 1
    &&& exists|i: int| 0 <= i < word.len() && letters::accented(#[trigger] word[i])
    &&& !sought_at_end(word)
    &&& at < text.len()
    &&& letters::wavers(text[at])
    &&& fuzzy(word, steady_rest(text, at)) is Some
}

/// Whether a pattern and a text can be matched as they are: the matcher stumbles
/// over no word that it comes to. It stops at the first word that is not there.
pub open spec fn suits(pattern: Seq<char>, text: Seq<char>) -> bool {
    forall|at: int| #[trigger]
        word_starts(pattern, at) && stumbles(word_at(pattern, at), text) ==> fuzzy(
            pattern.take(at),
            text,
        ) is None
}

/// A text as it is matched against a pattern: itself where they suit each
/// other, otherwise with each character as it is read. No character moves.
pub open spec fn suited(pattern: Seq<char>, text: Seq<char>) -> Seq<char> {
    if suits(pattern, text) {
        text
    } else {
        text.map_values(|c: char| letters::settled(c))
    }
}

/// The matcher stumbles over nothing in a text with no letter that wavers.
proof fn settled_suits(pattern: Seq<char>, text: Seq<char>)
    requires
        letters::is_settled(text),
    ensures
        suits(pattern, text),
{
    assert forall|at: int| #[trigger] word_starts(pattern, at) implies !stumbles(
        word_at(pattern, at),
        text,
    ) by {
        let i = lead(word_at(pattern, at)[0], text, 0);
        lead_is_there(word_at(pattern, at)[0], text, 0);
        if i < text.len() {
            assert(letters::settled(text[i]) == text[i]);
        }
    }
}

proof fn lead_is_there(c: char, text: Seq<char>, from: int)
    requires
        0 <= from,
    ensures
        lead(c, text, from) >= 0,
    decreases text.len() - from,
{
    if from < text.len() {
        lead_is_there(c, text, from + 1);
    }
}

/// What a text is matched as suits the pattern.
pub proof fn what_is_matched_suits(pattern: Seq<char>, text: Seq<char>)
    ensures
        suits(pattern, suited(pattern, text)),
        suited(pattern, text).len() == text.len(),
{
    let read = text.map_values(|c: char| letters::settled(c));
    assert forall|i: int| 0 <= i < read.len() implies letters::settled(#[trigger] read[i])
        == read[i] by {
        letters::settled_stays(text[i]);
    }
    settled_suits(pattern, read);
}

/// A pattern in ASCII suits every text.
pub proof fn plain_suits(pattern: Seq<char>, text: Seq<char>)
    requires
        letters::plain(pattern),
    ensures
        suits(pattern, text),
{
    assert forall|at: int| #[trigger] word_starts(pattern, at) implies !stumbles(
        word_at(pattern, at),
        text,
    ) by {
        let word = word_at(pattern, at);
        word_end_is_there(pattern, at);
        assert forall|i: int| 0 <= i < word.len() implies !letters::accented(
            #[trigger] word[i],
        ) by {
            assert(word[i] == pattern[at + i]);
        }
    }
}

proof fn word_end_is_there(pattern: Seq<char>, from: int)
    requires
        0 <= from <= pattern.len(),
    ensures
        from <= word_end(pattern, from) <= pattern.len(),
    decreases pattern.len() - from,
{
    if from < pattern.len() {
        word_end_is_there(pattern, from + 1);
    }
}

/// A word that ends before `end` is the same in what stands before `end`.
proof fn word_of_a_start(pattern: Seq<char>, from: int, end: int)
    requires
        0 <= from < end <= pattern.len(),
        splits(pattern, end - 1),
    ensures
        word_end(pattern.take(end), from) == word_end(pattern, from),
        word_end(pattern, from) < end,
    decreases end - from,
{
    assert(splits(pattern.take(end), from) == splits(pattern, from));
    if !splits(pattern, from) {
        word_of_a_start(pattern, from + 1, end);
    }
}

/// The words before one suit a text where the matcher stumbles over none of
/// them that it comes to.
proof fn words_before_suit(pattern: Seq<char>, text: Seq<char>, end: int)
    requires
        word_starts(pattern, end),
        forall|at: int|
            at < end && #[trigger] word_starts(pattern, at) && stumbles(
                word_at(pattern, at),
                text,
            ) ==> fuzzy(pattern.take(at), text) is None,
    ensures
        suits(pattern.take(end), text),
{
    let before = pattern.take(end);
    assert forall|at: int| #[trigger]
        word_starts(before, at) && stumbles(word_at(before, at), text) implies fuzzy(
        before.take(at),
        text,
    ) is None by {
        assert(at < end) by {
            if at == end {
                assert(word_at(before, at).len() == 0);
            }
        }
        assert(word_starts(pattern, at));
        word_of_a_start(pattern, at, end);
        word_end_is_there(pattern, at);
        assert(word_at(before, at) =~= word_at(pattern, at));
        assert(before.take(at) =~= pattern.take(at));
    }
}

fn find_lead(c: char, text: &Vec<char>) -> (at: usize)
    ensures
        at == lead(c, text@, 0),
        at <= text@.len(),
{
    let mut at: usize = 0;
    while at < text.len() && !(is_same_letter(text[at], c) && (settle(text[at]) != text[at] || at
        == 0 || !is_joining(text[at - 1])))
        invariant
            at <= text@.len(),
            lead(c, text@, 0) == lead(c, text@, at as int),
        decreases text@.len() - at,
    {
        at += 1;
    }
    at
}

fn rest_of(text: &Vec<char>, at: usize) -> (rest: String)
    requires
        at < text@.len(),
    ensures
        rest@ == steady_rest(text@, at as int),
{
    let mut chars: Vec<char> = Vec::new();
    let count: usize = text.len();
    let mut i: usize = at + 1;
    while i < count
        invariant
            at < i <= text@.len(),
            count == text@.len(),
            chars@.len() == i - at - 1,
            forall|k: int|
                0 <= k < chars@.len() ==> #[trigger] chars@[k] == steady_rest(text@, at as int)[k],
        decreases text@.len() - i,
    {
        let c: char = text[i];
        chars.push(
            if settle(c) != c {
                ' '
            } else {
                c
            },
        );
        i += 1;
    }
    let rest = string_of(&chars, 0, chars.len());
    assert(rest@ =~= steady_rest(text@, at as int));
    rest
}

fn does_stumble(word: &str, text: &Vec<char>) -> (res: bool)
    requires
        word@.len() <= PATTERN_LIMIT,
        text@.len() <= TEXT_LIMIT,
    ensures
        res == stumbles(word@, text@),
{
    let chars = chars_of(word);
    if chars.len() < 2 || !has_accents(&chars) {
        return false;
    }
    let last: usize = chars.len() - 1;
    if chars[last] == '$' && chars[last - 1] != '\\' {
        return false;
    }
    let at: usize = find_lead(chars[0], text);
    if at == text.len() || settle(text[at]) == text[at] {
        return false;
    }
    let rest = rest_of(text, at);
    proof {
        assert forall|i: int| 0 <= i < rest@.len() implies letters::settled(#[trigger] rest@[i])
            == rest@[i] by {
            if letters::wavers(text@[at + 1 + i]) {
                assert(letters::settled_code(' ' as u32) == ' ' as u32);
            }
        }
        settled_suits(word@, rest@);
    }
    fuzzy_match(word, &rest).is_some()
}

fn find_word_end(pattern: &Vec<char>, from: usize) -> (end: usize)
    requires
        from <= pattern@.len(),
    ensures
        end == word_end(pattern@, from as int),
        from <= end <= pattern@.len(),
{
    let mut end: usize = from;
    while end < pattern.len() && !(pattern[end] == ' ' && !(end > 0 && pattern[end - 1] == '\\'))
        invariant
            from <= end <= pattern@.len(),
            word_end(pattern@, from as int) == word_end(pattern@, end as int),
        decreases pattern@.len() - end,
    {
        end += 1;
    }
    end
}

fn does_suit(pattern: &str, text: &str) -> (res: bool)
    requires
        pattern@.len() <= PATTERN_LIMIT,
        text@.len() <= TEXT_LIMIT,
    ensures
        res == suits(pattern@, text@),
{
    let chars = chars_of(pattern);
    if is_plain(&chars) {
        proof {
            plain_suits(pattern@, text@);
        }
        return true;
    }
    let shown = chars_of(text);
    let mut at: usize = 0;
    while at <= chars.len()
        invariant
            chars@ == pattern@,
            shown@ == text@,
            at <= chars@.len() + 1,
            chars@.len() <= PATTERN_LIMIT,
            text@.len() <= TEXT_LIMIT,
            forall|k: int|
                k < at && #[trigger] word_starts(pattern@, k) && stumbles(
                    word_at(pattern@, k),
                    text@,
                ) ==> fuzzy(pattern@.take(k), text@) is None,
        decreases chars@.len() + 1 - at,
    {
        if at == 0 || (chars[at - 1] == ' ' && !(at > 1 && chars[at - 2] == '\\')) {
            assert(word_starts(pattern@, at as int));
            let end: usize = find_word_end(&chars, at);
            let word = string_of(&chars, at, end);
            if does_stumble(&word, &shown) {
                let before = string_of(&chars, 0, at);
                proof {
                    assert(before@ =~= pattern@.take(at as int));
                    words_before_suit(pattern@, text@, at as int);
                }
                if fuzzy_match(&before, text).is_some() {
                    return false;
                }
            }
        }
        at += 1;
    }
    assert forall|k: int| #[trigger]
        word_starts(pattern@, k) && stumbles(word_at(pattern@, k), text@) implies fuzzy(
        pattern@.take(k),
        text@,
    ) is None by {
        assert(k < at);
    }
    true
}

/// The text as it is matched against the pattern.
pub fn suit(pattern: &str, text: &str) -> (res: String)
    requires
        pattern@.len() <= PATTERN_LIMIT,
        text@.len() <= TEXT_LIMIT,
    ensures
        res@ == suited(pattern@, text@),
        suits(pattern@, res@),
        res@.len() == text@.len(),
{
    proof {
        what_is_matched_suits(pattern@, text@);
    }
    let chars = chars_of(text);
    if does_suit(pattern, text) {
        return string_of(&chars, 0, chars.len());
    }
    let mut read: Vec<char> = Vec::new();
    let mut i: usize = 0;
    while i < chars.len()
        invariant
            i <= chars@.len(),
            read@ == chars@.take(i as int).map_values(|c: char| letters::settled(c)),
        decreases chars@.len() - i,
    {
        read.push(settle(chars[i]));
        i += 1;
        assert(read@ =~= chars@.take(i as int).map_values(|c: char| letters::settled(c)));
    }
    assert(chars@.take(i as int) =~= chars@);
    string_of(&read, 0, read.len())
}

/// What matching a pattern against a text gives: none where it does not match,
/// otherwise the score and the positions matched, as they come.
pub uninterp spec fn fuzzy(pattern: Seq<char>, text: Seq<char>) -> Option<(u32, Seq<u32>)>;

/// nucleo's `Pattern::indices`, with the pattern read by `Pattern::parse`
/// ignoring case and a matcher as `Config::DEFAULT` makes it. How it scores and
/// which positions it picks is not spelled out; the same pattern and text give
/// the same result, since the matcher keeps nothing but scratch space. Where it
/// stumbles over a word, an assertion of the matcher may fail, so the pattern has
/// to suit the text.
#[verifier::external_body]
fn fuzzy_match(pattern: &str, text: &str) -> (res: Option<(u32, Vec<u32>)>)
    requires
        pattern@.len() <= PATTERN_LIMIT,
        text@.len() <= TEXT_LIMIT,
        suits(pattern@, text@),
    ensures
        match res {
            None => fuzzy(pattern@, text@) is None,
            Some((score, hits)) => fuzzy(pattern@, text@) == Some((score, hits@)),
        },
{
    let parsed = nucleo::pattern::Pattern::parse(
        pattern,
        nucleo::pattern::CaseMatching::Ignore,
        nucleo::pattern::Normalization::Smart,
    );
    let mut matcher = nucleo::Matcher::new(nucleo::Config::DEFAULT);
    let mut buffer = Vec::new();
    let mut hits = Vec::new();
    let score = parsed.indices(nucleo::Utf32Str::new(text, &mut buffer), &mut matcher, &mut hits)?;
    Some((score, hits))
}

/// What a text is found to match: nothing, or the score and the positions.
pub open spec fn found(pattern: Seq<char>, text: Seq<char>) -> Option<(u32, Seq<u32>)> {
    fuzzy(pattern, suited(pattern, text))
}

/// What matching a pattern against a text gives.
pub fn find(pattern: &str, text: &str) -> (res: Option<(u32, Vec<u32>)>)
    requires
        pattern@.len() <= PATTERN_LIMIT,
        text@.len() <= TEXT_LIMIT,
    ensures
        match res {
            None => found(pattern@, text@) is None,
            Some((score, hits)) => found(pattern@, text@) == Some((score, hits@)),
        },
{
    fuzzy_match(pattern, &suit(pattern, text))
}

/// What scoring a text against a pattern gives: none where it does not match.
pub uninterp spec fn fuzzy_score(pattern: Seq<char>, text: Seq<char>) -> Option<u32>;

/// nucleo's `Pattern::score`, with the pattern read by `Pattern::parse`
/// ignoring case and a matcher as `Config::DEFAULT` makes it. How it scores is
/// not spelled out, except that an empty pattern matches everything alike; the
/// same pattern and text give the same score.
#[verifier::external_body]
fn score_of(pattern: &str, text: &str) -> (score: Option<u32>)
    requires
        pattern@.len() <= PATTERN_LIMIT,
        text@.len() <= TEXT_LIMIT,
        suits(pattern@, text@),
    ensures
        score == fuzzy_score(pattern@, text@),
        pattern@.len() == 0 ==> score == Some(0u32),
{
    let parsed = nucleo::pattern::Pattern::parse(
        pattern,
        nucleo::pattern::CaseMatching::Ignore,
        nucleo::pattern::Normalization::Smart,
    );
    let mut matcher = nucleo::Matcher::new(nucleo::Config::DEFAULT);
    let mut buffer = Vec::new();
    parsed.score(nucleo::Utf32Str::new(text, &mut buffer), &mut matcher)
}

/// The score of a text, or none where it does not match.
pub open spec fn rank(pattern: Seq<char>, text: Seq<char>) -> Option<u32> {
    fuzzy_score(pattern, suited(pattern, text))
}

/// The score of a text against a pattern.
pub fn rank_of(pattern: &str, text: &str) -> (score: Option<u32>)
    requires
        pattern@.len() <= PATTERN_LIMIT,
        text@.len() <= TEXT_LIMIT,
    ensures
        score == rank(pattern@, text@),
        pattern@.len() == 0 ==> score == Some(0u32),
{
    score_of(pattern, &suit(pattern, text))
}

/// The positions of a text that matching a pattern as in a path gives, as they
/// come. What separates the names of a path depends on the system the matcher
/// is built for.
pub uninterp spec fn path_fuzzy(
    pattern: Seq<char>,
    text: Seq<char>,
    windows: bool,
) -> Seq<u32>;

/// nucleo's `Pattern::indices` again, with a matcher as `match_paths` makes it,
/// for the positions alone. Which positions it picks is not spelled out; they
/// are those of the pattern and the text on one of two kinds of system, since
/// `match_paths` takes a backslash as a separator on Windows only. An empty
/// pattern has no words and matches at none.
#[verifier::external_body]
fn path_positions(pattern: &str, text: &str) -> (hits: Vec<u32>)
    requires
        pattern@.len() <= PATTERN_LIMIT,
        text@.len() <= TEXT_LIMIT,
        suits(pattern@, text@),
    ensures
        exists|windows: bool| hits@ == #[trigger] path_fuzzy(pattern@, text@, windows),
        pattern@.len() == 0 ==> hits@.len() == 0,
{
    let parsed = nucleo::pattern::Pattern::parse(
        pattern,
        nucleo::pattern::CaseMatching::Ignore,
        nucleo::pattern::Normalization::Smart,
    );
    let mut matcher = nucleo::Matcher::new(nucleo::Config::DEFAULT.match_paths());
    let (mut buffer, mut hits) = (Vec::new(), Vec::new());
    parsed.indices(nucleo::Utf32Str::new(text, &mut buffer), &mut matcher, &mut hits);
    hits
}

/// Whether each position is below all that follow it.
pub open spec fn increasing(s: Seq<u32>) -> bool {
    forall|i: int, j: int| 0 <= i < j < s.len() ==> #[trigger] s[i] < #[trigger] s[j]
}

/// `x` put into an increasing sequence, unless it is there.
pub open spec fn put(s: Seq<u32>, x: u32) -> Seq<u32>
    decreases s.len(),
{
    if s.len() == 0 || s.last() < x {
        s.push(x)
    } else if s.last() == x {
        s
    } else {
        put(s.drop_last(), x).push(s.last())
    }
}

/// Positions in increasing order, each once.
pub open spec fn arranged(s: Seq<u32>) -> Seq<u32>
    decreases s.len(),
{
    if s.len() == 0 {
        s
    } else {
        put(arranged(s.drop_last()), s.last())
    }
}

proof fn put_keeps(s: Seq<u32>, x: u32)
    requires
        increasing(s),
    ensures
        increasing(put(s, x)),
        forall|y: u32| #[trigger] put(s, x).contains(y) <==> s.contains(y) || y == x,
    decreases s.len(),
{
    let out = put(s, x);
    if s.len() == 0 || s.last() < x {
        assert forall|y: u32| out.contains(y) implies s.contains(y) || y == x by {
            let i = choose|i: int| 0 <= i < out.len() && out[i] == y;
            if i < s.len() {
                assert(s[i] == y);
            }
        }
        assert forall|y: u32| s.contains(y) || y == x implies out.contains(y) by {
            assert(out.last() == x);
            if s.contains(y) {
                let i = choose|i: int| 0 <= i < s.len() && s[i] == y;
                assert(out[i] == y);
            }
        }
    } else if s.last() == x {
        assert(s.contains(x));
    } else {
        let sub = put(s.drop_last(), x);
        put_keeps(s.drop_last(), x);
        assert forall|i: int| 0 <= i < sub.len() implies #[trigger] sub[i] < s.last() by {
            assert(sub.contains(sub[i]));
            if s.drop_last().contains(sub[i]) {
                let k = choose|k: int| 0 <= k < s.len() - 1 && s.drop_last()[k] == sub[i];
                assert(s[k] == sub[i]);
            }
        }
        assert(increasing(out));
        assert forall|y: u32| out.contains(y) implies s.contains(y) || y == x by {
            let i = choose|i: int| 0 <= i < out.len() && out[i] == y;
            if i < sub.len() {
                assert(sub.contains(y));
                if s.drop_last().contains(y) {
                    let k = choose|k: int| 0 <= k < s.len() - 1 && s.drop_last()[k] == y;
                    assert(s[k] == y);
                }
            } else {
                assert(s.last() == y);
            }
        }
        assert forall|y: u32| s.contains(y) || y == x implies out.contains(y) by {
            if y == x || y != s.last() {
                if s.contains(y) && y != x {
                    let k = choose|k: int| 0 <= k < s.len() && s[k] == y;
                    assert(s.drop_last()[k] == y);
                    assert(s.drop_last().contains(y));
                }
                assert(sub.contains(y));
                let i = choose|i: int| 0 <= i < sub.len() && sub[i] == y;
                assert(out[i] == y);
            } else {
                assert(out.last() == y);
            }
        }
    }
}

/// Arranging keeps what positions there are, in increasing order.
pub proof fn arranged_is_increasing(s: Seq<u32>)
    ensures
        increasing(arranged(s)),
        forall|y: u32| #[trigger] arranged(s).contains(y) <==> s.contains(y),
    decreases s.len(),
{
    if s.len() > 0 {
        arranged_is_increasing(s.drop_last());
        put_keeps(arranged(s.drop_last()), s.last());
        assert forall|y: u32| s.contains(y) <==> s.drop_last().contains(y) || y == s.last() by {
            if s.contains(y) {
                let i = choose|i: int| 0 <= i < s.len() && s[i] == y;
                if i < s.len() - 1 {
                    assert(s.drop_last()[i] == y);
                }
            }
            if s.drop_last().contains(y) {
                let i = choose|i: int| 0 <= i < s.len() - 1 && s.drop_last()[i] == y;
                assert(s[i] == y);
            }
            assert(s[s.len() - 1] == s.last());
        }
    }
}

/// Putting a position into place by moving past those above it.
proof fn put_inserts(s: Seq<u32>, x: u32, at: int)
    requires
        increasing(s),
        0 <= at <= s.len(),
        forall|k: int| at <= k < s.len() ==> s[k] > x,
        at > 0 ==> s[at - 1] <= x,
    ensures
        put(s, x) == (if at > 0 && s[at - 1] == x {
            s
        } else {
            s.insert(at, x)
        }),
    decreases s.len(),
{
    if s.len() == 0 || s.last() < x {
        assert(at == s.len()) by {
            if at < s.len() {
                assert(s[s.len() - 1] > x);
            }
        }
        assert(s.insert(at, x) =~= s.push(x));
    } else if s.last() == x {
        assert(at == s.len()) by {
            if at < s.len() {
                assert(s[s.len() - 1] > x);
            }
        }
    } else {
        let sub = s.drop_last();
        assert(at < s.len()) by {
            if at == s.len() {
                assert(s[at - 1] <= x);
            }
        }
        put_inserts(sub, x, at);
        if at > 0 && s[at - 1] == x {
            assert(sub.push(s.last()) =~= s);
        } else {
            assert(sub.insert(at, x).push(s.last()) =~= s.insert(at, x));
        }
    }
}

/// The positions in increasing order, each once.
pub fn arrange(hits: &Vec<u32>) -> (out: Vec<u32>)
    ensures
        out@ == arranged(hits@),
{
    let mut out: Vec<u32> = Vec::new();
    let mut i: usize = 0;
    assert(hits@.take(0) =~= Seq::<u32>::empty());
    while i < hits.len()
        invariant
            i <= hits@.len(),
            out@ == arranged(hits@.take(i as int)),
        decreases hits@.len() - i,
    {
        let x: u32 = hits[i];
        proof {
            arranged_is_increasing(hits@.take(i as int));
            assert(hits@.take(i + 1).drop_last() =~= hits@.take(i as int));
        }
        let mut at: usize = out.len();
        while at > 0 && out[at - 1] > x
            invariant
                at <= out@.len(),
                forall|k: int| at <= k < out@.len() ==> out@[k] > x,
            ensures
                at <= out@.len(),
                forall|k: int| at <= k < out@.len() ==> out@[k] > x,
                at > 0 ==> out@[at - 1] <= x,
            decreases at,
        {
            at -= 1;
        }
        proof {
            put_inserts(out@, x, at as int);
        }
        if at == 0 || out[at - 1] != x {
            out.insert(at, x);
        }
        i += 1;
    }
    assert(hits@.take(i as int) =~= hits@);
    out
}

/// Whether those are the positions of a text to mark for what is typed: the ones
/// matched, increasing and each once.
pub open spec fn marks(hits: Seq<u32>, pattern: Seq<char>, text: Seq<char>) -> bool {
    &&& exists|windows: bool|
        hits == arranged(#[trigger] path_fuzzy(pattern, suited(pattern, text), windows))
    &&& increasing(hits)
    &&& pattern.len() == 0 ==> hits.len() == 0
}

/// The positions of `text` to mark for what is typed.
pub fn path_hits(pattern: &str, text: &str) -> (hits: Vec<u32>)
    requires
        pattern@.len() <= PATTERN_LIMIT,
        text@.len() <= TEXT_LIMIT,
    ensures
        marks(hits@, pattern@, text@),
{
    let positions = path_positions(pattern, &suit(pattern, text));
    proof {
        arranged_is_increasing(positions@);
    }
    arrange(&positions)
}

} // verus!
