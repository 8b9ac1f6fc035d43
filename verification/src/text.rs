//! Text as sequences of characters.
//!
//! Contracts speak of a string through its view, the sequence of its
//! characters. The few functions of std that change, compare or classify
//! strings and characters and that come without a specification are given one
//! here.

use vstd::prelude::*;

verus! {

/// `String::push`: the character is added at the end.
pub assume_specification[ String::push ](s: &mut String, c: char)
    ensures
        final(s)@ == old(s)@.push(c),
;

/// `String::pop`: takes the last character off and returns it; an empty
/// string is left empty and gives `None`.
pub assume_specification[ String::pop ](s: &mut String) -> (last: Option<char>)
    ensures
        old(s)@.len() == 0 ==> last is None && final(s)@ == old(s)@,
        old(s)@.len() > 0 ==> last == Some(old(s)@.last()) && final(s)@ == old(s)@.drop_last(),
;

/// `String::push_str`: the text is added at the end.
pub assume_specification[ String::push_str ](s: &mut String, other: &str)
    ensures
        final(s)@ == old(s)@ + other@,
;

/// `String::is_empty`: there is no character in it.
pub assume_specification[ String::is_empty ](s: &String) -> (res: bool)
    ensures
        res == (s@.len() == 0),
;

/// `str`'s `eq`: the two texts hold the same characters.
pub assume_specification[ <str as PartialEq>::eq ](s: &str, other: &str) -> (res: bool)
    ensures
        res == (s@ == other@),
;

/// `char::to_ascii_uppercase`: the letters a to z become A to Z, every other
/// character stays as it is.
pub assume_specification[ char::to_ascii_uppercase ](c: &char) -> (upper: char)
    ensures
        upper == ascii_upper(*c),
;

/// `char::to_ascii_lowercase`: the letters A to Z become a to z, every other
/// character stays as it is.
pub assume_specification[ char::to_ascii_lowercase ](c: &char) -> (lower: char)
    ensures
        lower == ascii_lower(*c),
;

/// `char::from_u32`: the character with that number, where there is one. The
/// numbers of half a UTF-16 pair and those above `0x10ffff` have none.
pub assume_specification[ char::from_u32 ](n: u32) -> (c: Option<char>)
    ensures
        c == (if 0xd800 <= n <= 0xdfff || n > 0x10ffff {
            None
        } else {
            Some(n as char)
        }),
;

pub open spec fn ascii_upper(c: char) -> char {
    if 'a' <= c <= 'z' {
        (c as int - 32) as char
    } else {
        c
    }
}

pub open spec fn ascii_lower(c: char) -> char {
    if 'A' <= c <= 'Z' {
        (c as int + 32) as char
    } else {
        c
    }
}

/// What `str::to_lowercase` makes of a text.
pub uninterp spec fn lowercase(text: Seq<char>) -> Seq<char>;

/// `str::to_lowercase`. The mapping is Unicode's and is not spelled out; the
/// same text always gives the same result.
#[verifier::external_body]
pub(crate) fn lowercase_of(text: &str) -> (lower: String)
    ensures
        lower@ == lowercase(text@),
{
    text.to_lowercase()
}

/// Whether a character is white space: it has Unicode's property White_Space.
pub open spec fn whitespace(c: char) -> bool {
    ||| '\u{9}' <= c <= '\u{d}'
    ||| c == ' ' || c == '\u{85}' || c == '\u{a0}' || c == '\u{1680}'
    ||| '\u{2000}' <= c <= '\u{200a}'
    ||| c == '\u{2028}' || c == '\u{2029}' || c == '\u{202f}' || c == '\u{205f}'
    ||| c == '\u{3000}'
}

pub(crate) fn is_whitespace(c: char) -> (res: bool)
    ensures
        res == whitespace(c),
{
    match c as u32 {
        0x9..=0xd | 0x20 | 0x85 | 0xa0 | 0x1680 => true,
        0x2000..=0x200a | 0x2028 | 0x2029 | 0x202f | 0x205f | 0x3000 => true,
        _ => false,
    }
}

/// The characters of several texts.
pub open spec fn views(texts: Seq<String>) -> Seq<Seq<char>> {
    texts.map_values(|t: String| t@)
}

/// The characters of a text that may be missing.
pub open spec fn opt_view(text: Option<String>) -> Option<Seq<char>> {
    match text {
        Some(t) => Some(t@),
        None => None,
    }
}

/// The first place `text` stands at.
pub open spec fn index_of(texts: Seq<Seq<char>>, text: Seq<char>) -> Option<usize>
    decreases texts.len(),
{
    if texts.len() == 0 {
        None
    } else {
        match index_of(texts.drop_last(), text) {
            Some(i) => Some(i),
            None => if texts.last() == text {
                Some((texts.len() - 1) as usize)
            } else {
                None
            },
        }
    }
}

/// What `index_of` finds is there, and nothing before it is.
pub proof fn index_of_is_first(texts: Seq<Seq<char>>, text: Seq<char>)
    requires
        texts.len() <= usize::MAX,
    ensures
        match index_of(texts, text) {
            Some(i) => i < texts.len() && texts[i as int] == text && forall|k: int|
                0 <= k < i ==> texts[k] != text,
            None => !texts.contains(text),
        },
    decreases texts.len(),
{
    if texts.len() > 0 {
        let before = texts.drop_last();
        index_of_is_first(before, text);
        match index_of(before, text) {
            Some(i) => {
                assert forall|k: int| 0 <= k < i implies texts[k] != text by {
                    assert(before[k] == texts[k]);
                }
            },
            None => {
                assert forall|k: int| 0 <= k < texts.len() - 1 implies texts[k] != text by {
                    assert(before[k] == texts[k]);
                    assert(before.contains(before[k]));
                }
            },
        }
    }
}

/// Whether two texts are the same.
pub fn same(a: &str, b: &str) -> (res: bool)
    ensures
        res == (a@ == b@),
{
    a.eq(b)
}

pub fn chars_of(text: &str) -> (chars: Vec<char>)
    ensures
        chars@ == text@,
{
    let mut chars: Vec<char> = Vec::new();
    for c in iter: text.chars()
        invariant
            chars@ == text@.take(iter.index() as int),
            iter.seq() == text@,
    {
        chars.push(c);
    }
    assert(text@.take(text@.len() as int) =~= text@);
    chars
}

/// The text made of `chars[from..to]`.
pub fn string_of(chars: &Vec<char>, from: usize, to: usize) -> (text: String)
    requires
        from <= to <= chars@.len(),
    ensures
        text@ == chars@.subrange(from as int, to as int),
{
    let mut text = String::new();
    let mut i: usize = from;
    while i < to
        invariant
            from <= i <= to <= chars@.len(),
            text@ == chars@.subrange(from as int, i as int),
        decreases to - i,
    {
        text.push(chars[i]);
        i += 1;
        assert(chars@.subrange(from as int, i as int) =~= chars@.subrange(
            from as int,
            i - 1,
        ).push(chars@[i - 1]));
    }
    text
}

/// `first` followed by `second`.
pub fn joined(first: &str, second: &str) -> (text: String)
    ensures
        text@ == first@ + second@,
{
    let mut text = String::new();
    text.push_str(first);
    text.push_str(second);
    assert(text@ =~= first@ + second@);
    text
}

/// The texts one after another, with `between` between each two.
pub open spec fn strung(texts: Seq<Seq<char>>, between: Seq<char>) -> Seq<char>
    decreases texts.len(),
{
    if texts.len() == 0 {
        Seq::empty()
    } else if texts.len() == 1 {
        texts[0]
    } else {
        strung(texts.drop_last(), between) + between + texts.last()
    }
}

/// The first `count` texts strung together.
pub fn string_together(texts: &Vec<String>, count: usize, between: &str) -> (text: String)
    requires
        count <= texts@.len(),
    ensures
        text@ == strung(views(texts@).take(count as int), between@),
{
    let ghost all = views(texts@);
    let mut text = String::new();
    let mut i: usize = 0;
    assert(all.take(0) =~= Seq::<Seq<char>>::empty());
    while i < count
        invariant
            i <= count <= texts@.len(),
            all == views(texts@),
            text@ == strung(all.take(i as int), between@),
        decreases count - i,
    {
        if i > 0 {
            text.push_str(between);
        }
        text.push_str(&texts[i]);
        i += 1;
        assert(all.take(i as int).drop_last() =~= all.take(i - 1));
        assert(all.take(i as int).last() == texts@[i - 1]@);
        if i == 1 {
            assert(all.take(0).len() == 0);
            assert(text@ =~= all.take(1)[0]);
        }
    }
    text
}

/// `text` without the characters `c` at its end.
pub open spec fn stripped_end(text: Seq<char>, c: char) -> Seq<char>
    decreases text.len(),
{
    if ends_in(text, c) {
        stripped_end(text.drop_last(), c)
    } else {
        text
    }
}

pub fn strip_end(text: &str, c: char) -> (res: String)
    ensures
        res@ == stripped_end(text@, c),
{
    let mut res = text.to_owned();
    while ends_with_char(&res, c)
        invariant
            stripped_end(text@, c) == stripped_end(res@, c),
        ensures
            stripped_end(text@, c) == stripped_end(res@, c),
            !ends_in(res@, c),
        decreases res@.len(),
    {
        res.pop();
    }
    res
}

/// `text` with every `from` made a `to`.
pub open spec fn swapped(text: Seq<char>, from: char, to: char) -> Seq<char> {
    text.map_values(
        |c: char|
            if c == from {
                to
            } else {
                c
            },
    )
}

pub fn swap_chars(text: &str, from: char, to: char) -> (res: String)
    ensures
        res@ == swapped(text@, from, to),
{
    let chars = chars_of(text);
    let mut res = String::new();
    let mut i: usize = 0;
    while i < chars.len()
        invariant
            i <= chars@.len(),
            chars@ == text@,
            res@ == swapped(text@.take(i as int), from, to),
        decreases chars@.len() - i,
    {
        res.push(
            if chars[i] == from {
                to
            } else {
                chars[i]
            },
        );
        i += 1;
        assert(swapped(text@.take(i as int), from, to) =~= swapped(
            text@.take(i - 1),
            from,
            to,
        ).push(
            if text@[i - 1] == from {
                to
            } else {
                text@[i - 1]
            },
        ));
    }
    assert(text@.take(i as int) =~= text@);
    res
}

/// Whether two texts are the same but for the case of ASCII letters.
pub open spec fn same_but_case(a: Seq<char>, b: Seq<char>) -> bool {
    a.len() == b.len() && forall|i: int|
        0 <= i < a.len() ==> ascii_lower(#[trigger] a[i]) == ascii_lower(b[i])
}

pub fn same_ignoring_case(a: &str, b: &str) -> (res: bool)
    ensures
        res == same_but_case(a@, b@),
{
    let left = chars_of(a);
    let right = chars_of(b);
    if left.len() != right.len() {
        return false;
    }
    let mut i: usize = 0;
    while i < left.len()
        invariant
            i <= left@.len(),
            left@.len() == right@.len(),
            left@ == a@,
            right@ == b@,
            forall|k: int| 0 <= k < i ==> ascii_lower(#[trigger] a@[k]) == ascii_lower(b@[k]),
        decreases left@.len() - i,
    {
        if left[i].to_ascii_lowercase() != right[i].to_ascii_lowercase() {
            assert(ascii_lower(a@[i as int]) != ascii_lower(b@[i as int]));
            return false;
        }
        i += 1;
    }
    true
}

/// The runs of characters between occurrences of `c`, empty ones too.
pub open spec fn parts(text: Seq<char>, c: char) -> Seq<Seq<char>>
    decreases text.len(),
{
    if text.len() == 0 {
        seq![Seq::<char>::empty()]
    } else {
        let before = parts(text.drop_last(), c);
        if text.last() == c {
            before.push(Seq::<char>::empty())
        } else {
            before.update(before.len() - 1, before.last().push(text.last()))
        }
    }
}

pub fn split_on(text: &str, c: char) -> (res: Vec<String>)
    ensures
        views(res@) == parts(text@, c),
        res@.len() > 0,
{
    let chars = chars_of(text);
    let mut res: Vec<String> = Vec::new();
    let mut part = String::new();
    let mut i: usize = 0;
    assert(text@.take(0) =~= Seq::<char>::empty());
    assert(views(res@).push(part@) =~= parts(text@.take(0), c));
    while i < chars.len()
        invariant
            i <= chars@.len(),
            chars@ == text@,
            views(res@).push(part@) == parts(text@.take(i as int), c),
        decreases chars@.len() - i,
    {
        let ghost before = text@.take(i as int);
        let ghost after = text@.take(i + 1);
        let ghost was = views(res@);
        assert(after.drop_last() =~= before);
        if chars[i] == c {
            let ghost piece = part@;
            res.push(part);
            part = String::new();
            assert(views(res@) =~= was.push(piece));
            assert(views(res@).push(part@) =~= parts(after, c));
        } else {
            let ghost piece = part@;
            part.push(chars[i]);
            assert(was.push(piece).update(was.len() as int, part@) =~= was.push(part@));
            assert(views(res@).push(part@) =~= parts(after, c));
        }
        i += 1;
    }
    assert(text@.take(i as int) =~= text@);
    let ghost was = views(res@);
    let ghost piece = part@;
    res.push(part);
    assert(views(res@) =~= was.push(piece));
    res
}

/// `text` with its ASCII letters made small.
pub open spec fn small(text: Seq<char>) -> Seq<char> {
    text.map_values(|c: char| ascii_lower(c))
}

pub fn make_small(text: &str) -> (res: String)
    ensures
        res@ == small(text@),
{
    let chars = chars_of(text);
    let mut res = String::new();
    let mut i: usize = 0;
    while i < chars.len()
        invariant
            i <= chars@.len(),
            chars@ == text@,
            res@ == small(text@.take(i as int)),
        decreases chars@.len() - i,
    {
        res.push(chars[i].to_ascii_lowercase());
        i += 1;
        assert(small(text@.take(i as int)) =~= small(text@.take(i - 1)).push(
            ascii_lower(text@[i - 1]),
        ));
    }
    assert(text@.take(i as int) =~= text@);
    res
}

pub fn starts_with(text: &str, prefix: &str) -> (res: bool)
    ensures
        res == prefix@.is_prefix_of(text@),
{
    let whole = chars_of(text);
    let start = chars_of(prefix);
    if start.len() > whole.len() {
        return false;
    }
    let mut i: usize = 0;
    while i < start.len()
        invariant
            i <= start@.len() <= whole@.len(),
            start@ == prefix@,
            whole@ == text@,
            forall|k: int| 0 <= k < i ==> start@[k] == whole@[k],
        decreases start@.len() - i,
    {
        if start[i] != whole[i] {
            assert(prefix@[i as int] != text@[i as int]);
            return false;
        }
        i += 1;
    }
    assert(prefix@ =~= text@.subrange(0, prefix@.len() as int));
    true
}

pub open spec fn ends_in(text: Seq<char>, c: char) -> bool {
    text.len() > 0 && text.last() == c
}

pub fn ends_with_char(text: &str, c: char) -> (res: bool)
    ensures
        res == ends_in(text@, c),
{
    let len: usize = text.unicode_len();
    len > 0 && text.get_char(len - 1) == c
}

/// A character that many times over.
pub open spec fn run_of(c: char, times: nat) -> Seq<char> {
    Seq::new(times, |i: int| c)
}

pub fn repeated(c: char, times: usize) -> (text: String)
    ensures
        text@ == run_of(c, times as nat),
{
    let mut text = String::new();
    let mut i: usize = 0;
    while i < times
        invariant
            i <= times,
            text@ == run_of(c, i as nat),
        decreases times - i,
    {
        text.push(c);
        i += 1;
        assert(run_of(c, i as nat) =~= run_of(c, (i - 1) as nat).push(c));
    }
    text
}

/// The digit of a number below ten.
pub open spec fn digit(n: nat) -> char {
    (48 + n as int) as char
}

/// A number in decimal, without leading zeros.
pub open spec fn decimal(n: nat) -> Seq<char>
    decreases n,
{
    if n < 10 {
        seq![digit(n)]
    } else {
        decimal(n / 10).push(digit(n % 10))
    }
}

fn digit_of(n: u64) -> (c: char)
    requires
        n < 10,
    ensures
        c == digit(n as nat),
{
    match n {
        0 => '0',
        1 => '1',
        2 => '2',
        3 => '3',
        4 => '4',
        5 => '5',
        6 => '6',
        7 => '7',
        8 => '8',
        _ => '9',
    }
}

pub fn number(n: u64) -> (text: String)
    ensures
        text@ == decimal(n as nat),
    decreases n,
{
    if n < 10 {
        let mut text = String::new();
        text.push(digit_of(n));
        assert(text@ =~= decimal(n as nat));
        text
    } else {
        let mut text = number(n / 10);
        text.push(digit_of(n % 10));
        text
    }
}

/// `text` without the whitespace before and after it.
pub open spec fn trimmed(text: Seq<char>) -> Seq<char> {
    trimmed_end(trimmed_start(text))
}

pub open spec fn trimmed_start(text: Seq<char>) -> Seq<char>
    decreases text.len(),
{
    if text.len() > 0 && whitespace(text[0]) {
        trimmed_start(text.drop_first())
    } else {
        text
    }
}

pub open spec fn trimmed_end(text: Seq<char>) -> Seq<char>
    decreases text.len(),
{
    if text.len() > 0 && whitespace(text.last()) {
        trimmed_end(text.drop_last())
    } else {
        text
    }
}

pub fn trim(text: &str) -> (res: String)
    ensures
        res@ == trimmed(text@),
{
    let chars = chars_of(text);
    let mut from: usize = 0;
    assert(text@.subrange(0, text@.len() as int) =~= text@);
    while from < chars.len() && is_whitespace(chars[from])
        invariant
            from <= chars@.len(),
            chars@ == text@,
            trimmed_start(text@) == trimmed_start(text@.subrange(from as int, text@.len() as int)),
        ensures
            from <= chars@.len(),
            from == chars@.len() || !whitespace(text@[from as int]),
            trimmed_start(text@) == trimmed_start(text@.subrange(from as int, text@.len() as int)),
        decreases chars@.len() - from,
    {
        assert(text@.subrange(from as int, text@.len() as int).drop_first() =~= text@.subrange(
            from + 1,
            text@.len() as int,
        ));
        from += 1;
    }
    let ghost rest = text@.subrange(from as int, text@.len() as int);
    assert(trimmed_start(text@) == rest);
    let mut to: usize = chars.len();
    while to > from && is_whitespace(chars[to - 1])
        invariant
            from <= to <= chars@.len(),
            chars@ == text@,
            trimmed_end(rest) == trimmed_end(text@.subrange(from as int, to as int)),
        ensures
            from <= to <= chars@.len(),
            to == from || !whitespace(text@[to - 1]),
            trimmed_end(rest) == trimmed_end(text@.subrange(from as int, to as int)),
        decreases to,
    {
        assert(text@.subrange(from as int, to as int).drop_last() =~= text@.subrange(
            from as int,
            to - 1,
        ));
        to -= 1;
    }
    assert(trimmed_end(rest) == text@.subrange(from as int, to as int));
    string_of(&chars, from, to)
}

/// Whether `a` comes before `b`, or is `b`, in the order of their characters'
/// code points, a text coming before those that go on from it.
pub open spec fn text_le(a: Seq<char>, b: Seq<char>) -> bool
    decreases a.len(),
{
    if a.len() == 0 {
        true
    } else if b.len() == 0 {
        false
    } else if a[0] != b[0] {
        a[0] < b[0]
    } else {
        text_le(a.drop_first(), b.drop_first())
    }
}

/// Two texts go by the first character they differ in, and a text goes before
/// every longer one that starts with it.
pub proof fn texts_go_by_their_first_difference(a: Seq<char>, b: Seq<char>, k: int)
    requires
        0 <= k <= a.len(),
        k <= b.len(),
        a.take(k) == b.take(k),
    ensures
        k < a.len() && k < b.len() && a[k] < b[k] ==> text_le(a, b) && !text_le(b, a),
        k == a.len() ==> text_le(a, b),
        k == a.len() && k < b.len() ==> !text_le(b, a),
    decreases k,
{
    if k > 0 {
        let (x, y) = (a.drop_first(), b.drop_first());
        assert(a[0] == a.take(k)[0] && b[0] == b.take(k)[0]);
        assert(x.take(k - 1) =~= y.take(k - 1)) by {
            assert forall|i: int| 0 <= i < k - 1 implies x[i] == y[i] by {
                assert(a.take(k)[i + 1] == a[i + 1] && b.take(k)[i + 1] == b[i + 1]);
                assert(x[i] == a[i + 1] && y[i] == b[i + 1]);
            }
        }
        texts_go_by_their_first_difference(x, y, k - 1);
    }
}

pub proof fn text_le_transitive(a: Seq<char>, b: Seq<char>, c: Seq<char>)
    requires
        text_le(a, b),
        text_le(b, c),
    ensures
        text_le(a, c),
    decreases a.len(),
{
    if a.len() > 0 && a[0] == b[0] && b[0] == c[0] {
        text_le_transitive(a.drop_first(), b.drop_first(), c.drop_first());
    }
}

pub proof fn text_le_total(a: Seq<char>, b: Seq<char>)
    ensures
        text_le(a, b) || text_le(b, a),
    decreases a.len(),
{
    if a.len() > 0 && b.len() > 0 && a[0] == b[0] {
        text_le_total(a.drop_first(), b.drop_first());
    }
}

pub proof fn text_le_antisymmetric(a: Seq<char>, b: Seq<char>)
    requires
        text_le(a, b),
        text_le(b, a),
    ensures
        a == b,
    decreases a.len(),
{
    if a.len() > 0 && b.len() > 0 {
        text_le_antisymmetric(a.drop_first(), b.drop_first());
        assert(a =~= seq![a[0]] + a.drop_first());
        assert(b =~= seq![b[0]] + b.drop_first());
    } else {
        assert(a =~= b);
    }
}

/// Whether `a` comes before or with `b`: see `text_le`.
pub fn not_after(a: &str, b: &str) -> (res: bool)
    ensures
        res == text_le(a@, b@),
{
    let left = chars_of(a);
    let right = chars_of(b);
    let mut i: usize = 0;
    assert(a@.skip(0) =~= a@ && b@.skip(0) =~= b@);
    loop
        invariant
            i <= left@.len(),
            i <= right@.len(),
            left@ == a@,
            right@ == b@,
            text_le(a@, b@) == text_le(a@.skip(i as int), b@.skip(i as int)),
        decreases left@.len() - i,
    {
        if i == left.len() {
            return true;
        }
        if i == right.len() {
            return false;
        }
        assert(a@.skip(i as int)[0] == a@[i as int]);
        assert(b@.skip(i as int)[0] == b@[i as int]);
        if left[i] != right[i] {
            return left[i] < right[i];
        }
        assert(a@.skip(i as int).drop_first() =~= a@.skip(i + 1));
        assert(b@.skip(i as int).drop_first() =~= b@.skip(i + 1));
        i += 1;
    }
}

} // verus!
