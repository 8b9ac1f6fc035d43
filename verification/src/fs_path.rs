//! Paths as a top and the names below it.
//!
//! The top is what a path starts from: `/` on Unix; a drive such as `C:\`, a
//! share such as `\\server\share\` or a bare `\` on Windows; nothing for a
//! relative path. A top is kept as it is written, but for slashes that Windows
//! takes as well. Two paths are the same when their tops mean the same and their
//! names are equal.

use vstd::prelude::*;

use crate::text::{self, chars_of, joined, same, string_of};

verus! {

broadcast use vstd::seq_lib::group_seq_properties;

/// Which operating system's rules a path is read and written by.
#[derive(Clone, Copy, Debug, PartialEq, Eq, Structural)]
pub enum Platform {
    Unix,
    Windows,
}

impl Platform {
    /// The separator paths are written with.
    pub open spec fn sep(self) -> char {
        match self {
            Platform::Unix => '/',
            Platform::Windows => '\\',
        }
    }

    pub fn separator(self) -> (c: char)
        ensures
            c == self.sep(),
    {
        match self {
            Platform::Unix => '/',
            Platform::Windows => '\\',
        }
    }

    /// Whether a character separates names. Windows takes both slashes.
    pub open spec fn separates(self, c: char) -> bool {
        c == '/' || (self is Windows && c == '\\')
    }

    pub fn is_separator(self, c: char) -> (res: bool)
        ensures
            res == self.separates(c),
    {
        c == '/' || (self == Platform::Windows && c == '\\')
    }
}

/// What a path is: its top, and the names from there down.
#[verifier::ext_equal]
pub struct PathView {
    pub top: Seq<char>,
    pub names: Seq<Seq<char>>,
}

#[derive(Debug)]
pub struct FsPath {
    pub top: String,
    pub names: Vec<String>,
}

impl View for FsPath {
    type V = PathView;

    open spec fn view(&self) -> PathView {
        PathView { top: self.top@, names: text::views(self.names@) }
    }
}

/// The runs of characters between separators, empty ones too.
pub open spec fn pieces(text: Seq<char>, on: Platform) -> Seq<Seq<char>>
    decreases text.len(),
{
    if text.len() == 0 {
        seq![Seq::<char>::empty()]
    } else {
        let before = pieces(text.drop_last(), on);
        if on.separates(text.last()) {
            before.push(Seq::<char>::empty())
        } else {
            before.update(before.len() - 1, before.last().push(text.last()))
        }
    }
}

/// The pieces that name something: neither empty nor `.`, though a relative
/// path keeps a `.` it starts with.
pub open spec fn named(parts: Seq<Seq<char>>, relative: bool) -> Seq<Seq<char>>
    decreases parts.len(),
{
    if parts.len() == 0 {
        Seq::empty()
    } else {
        let before = named(parts.drop_last(), relative);
        let last = parts.last();
        if last.len() == 0 || (last == seq!['.'] && !(relative && parts.len() == 1)) {
            before
        } else {
            before.push(last)
        }
    }
}

pub open spec fn letter(c: char) -> bool {
    'a' <= c <= 'z' || 'A' <= c <= 'Z'
}

/// Where the top of a path written out ends, on Windows: past a drive, past a
/// server and its share, or past one separator.
pub open spec fn windows_top(text: Seq<char>) -> (Seq<char>, Seq<char>) {
    let on = Platform::Windows;
    if text.len() >= 2 && letter(text[0]) && text[1] == ':' {
        if text.len() >= 3 && on.separates(text[2]) {
            (seq![text[0], ':', '\\'], text.skip(3))
        } else {
            (seq![text[0], ':'], text.skip(2))
        }
    } else if text.len() >= 2 && on.separates(text[0]) && on.separates(text[1]) {
        let server = until(text, 2, on);
        let share = until(text, server + 1, on);
        (
            seq!['\\', '\\'] + text.subrange(2, server) + (if server < text.len() {
                seq!['\\'] + text.subrange(server + 1, share)
            } else {
                Seq::empty()
            }) + (if share < text.len() {
                seq!['\\']
            } else {
                Seq::empty()
            }),
            text.skip(at_most(share, text.len() as int)),
        )
    } else if text.len() >= 1 && on.separates(text[0]) {
        (seq!['\\'], text.skip(1))
    } else {
        (Seq::empty(), text)
    }
}

pub open spec fn at_most(i: int, most: int) -> int {
    if i < most {
        i
    } else {
        most
    }
}

/// The first separator at or after `from`, or the end of the text.
pub open spec fn until(text: Seq<char>, from: int, on: Platform) -> int
    decreases text.len() - from,
{
    if from >= text.len() || on.separates(text[from]) {
        from
    } else {
        until(text, from + 1, on)
    }
}

/// The top a text starts with, and what follows it.
pub open spec fn split_top(text: Seq<char>, on: Platform) -> (Seq<char>, Seq<char>) {
    match on {
        Platform::Unix => if text.len() >= 1 && text[0] == '/' {
            (seq!['/'], text.skip(1))
        } else {
            (Seq::empty(), text)
        },
        Platform::Windows => windows_top(text),
    }
}

/// The path a text spells out.
pub open spec fn parsed(text: Seq<char>, on: Platform) -> PathView {
    let (top, rest) = split_top(text, on);
    PathView { top, names: named(pieces(rest, on), top.len() == 0) }
}

/// The names one after another, with a separator between each two.
pub open spec fn separated(names: Seq<Seq<char>>, sep: char) -> Seq<char>
    decreases names.len(),
{
    if names.len() == 0 {
        Seq::empty()
    } else if names.len() == 1 {
        names[0]
    } else {
        separated(names.drop_last(), sep).push(sep) + names.last()
    }
}

impl PathView {
    pub open spec fn empty() -> PathView {
        PathView { top: Seq::empty(), names: Seq::empty() }
    }

    /// The path of nothing. It stands for the list of drives.
    pub open spec fn is_empty(self) -> bool {
        self.top.len() == 0 && self.names.len() == 0
    }

    /// The path without its last name, or none when there is no name left.
    pub open spec fn parent(self) -> Option<PathView> {
        if self.names.len() == 0 {
            None
        } else {
            Some(PathView { top: self.top, names: self.names.drop_last() })
        }
    }

    /// The last name, unless it only points elsewhere.
    pub open spec fn file_name(self) -> Option<Seq<char>> {
        if self.names.len() == 0 || self.names.last() == seq!['.', '.'] || self.names.last()
            == seq!['.'] {
            None
        } else {
            Some(self.names.last())
        }
    }

    /// As written out.
    pub open spec fn text(self, on: Platform) -> Seq<char> {
        (if self.names.len() > 0 && bare_share(self.top) {
            self.top.push('\\')
        } else {
            self.top
        }) + separated(self.names, on.sep())
    }

    /// Whether two paths are the same place.
    pub open spec fn same(self, other: PathView) -> bool {
        usual_top(self.top) == usual_top(other.top) && self.names == other.names
    }

    /// `text` taken from this path: below it, or elsewhere when the text has a
    /// top of its own.
    pub open spec fn join(self, text: Seq<char>, on: Platform) -> PathView {
        let (top, rest) = split_top(text, on);
        let below = named(pieces(rest, on), false);
        if top.len() == 0 {
            PathView { top: self.top, names: self.names + named(pieces(text, on), self.is_empty()) }
        } else if top == seq!['\\'] && self.top.len() > 0 {
            PathView { top: rooted(self.top), names: below }
        } else {
            PathView { top, names: below }
        }
    }

    /// The letter of the drive this path starts from the top of.
    pub open spec fn drive(self) -> Option<char> {
        let t = self.top;
        if t.len() == 3 && letter(t[0]) && t[1] == ':' && t[2] == '\\' {
            Some(t[0])
        } else if t.len() == 7 && t.take(4) == seq!['\\', '\\', '?', '\\'] && letter(t[4]) && t[5]
            == ':' && t[6] == '\\' {
            Some(t[4])
        } else {
            None
        }
    }

    /// Whether this path means the same wherever it is taken from.
    pub open spec fn is_absolute(self, on: Platform) -> bool {
        match on {
            Platform::Unix => self.top.len() > 0,
            Platform::Windows => self.top.len() > 2,
        }
    }

    /// Whether this path is `base` or below it.
    pub open spec fn under(self, base: PathView) -> bool {
        usual_top(self.top) == usual_top(base.top) && base.names.is_prefix_of(self.names)
    }
}

/// Whether a top is a share without a separator at its end. It is a place of its
/// own all the same.
pub open spec fn bare_share(top: Seq<char>) -> bool {
    top.len() >= 3 && top[0] == '\\' && top[1] == '\\' && top.last() != '\\'
}

/// A top as it is usually written: the letter of a drive a capital, and a
/// separator at the end of a share. Tops that come out alike mean the same.
pub open spec fn usual_top(top: Seq<char>) -> Seq<char> {
    if top.len() >= 2 && letter(top[0]) && top[1] == ':' {
        top.update(0, text::ascii_upper(top[0]))
    } else if top.len() == 7 && top.take(4) == seq!['\\', '\\', '?', '\\'] && letter(top[4]) {
        top.update(4, text::ascii_upper(top[4]))
    } else if bare_share(top) {
        top.push('\\')
    } else {
        top
    }
}

/// A top with the separator that makes it a place of its own: `C:` is wherever
/// that drive is, `C:\` its root.
pub open spec fn rooted(top: Seq<char>) -> Seq<char> {
    if top.len() > 0 && top.last() != '\\' && !bare_share(top) {
        top.push('\\')
    } else {
        top
    }
}

pub(crate) fn pieces_of(chars: &Vec<char>, from: usize, on: Platform) -> (parts: Vec<String>)
    requires
        from <= chars@.len(),
    ensures
        text::views(parts@) == pieces(chars@.skip(from as int), on),
{
    let ghost whole = chars@.skip(from as int);
    let mut parts: Vec<String> = Vec::new();
    let mut piece = String::new();
    let mut i: usize = from;
    assert(whole.take(0) =~= Seq::<char>::empty());
    assert(text::views(parts@).push(piece@) =~= pieces(whole.take(0), on));
    while i < chars.len()
        invariant
            from <= i <= chars@.len(),
            whole == chars@.skip(from as int),
            text::views(parts@).push(piece@) == pieces(whole.take(i - from), on),
        decreases chars@.len() - i,
    {
        let ghost before = whole.take(i - from);
        let ghost after = whole.take(i + 1 - from);
        assert(after.drop_last() =~= before);
        assert(after.last() == chars@[i as int]);
        if on.is_separator(chars[i]) {
            parts.push(piece);
            piece = String::new();
            assert(text::views(parts@).push(piece@) =~= pieces(after, on));
        } else {
            piece.push(chars[i]);
            assert(text::views(parts@).push(piece@) =~= pieces(after, on));
        }
        i += 1;
    }
    assert(whole.take(i - from) =~= whole);
    parts.push(piece);
    assert(text::views(parts@) =~= pieces(whole, on));
    parts
}

fn named_of(parts: Vec<String>, relative: bool) -> (names: Vec<String>)
    ensures
        text::views(names@) == named(text::views(parts@), relative),
{
    let ghost all = text::views(parts@);
    let mut names: Vec<String> = Vec::new();
    let mut i: usize = 0;
    assert(text::views(names@) =~= named(all.take(0), relative));
    while i < parts.len()
        invariant
            i <= parts@.len(),
            all == text::views(parts@),
            text::views(names@) == named(all.take(i as int), relative),
        decreases parts@.len() - i,
    {
        let ghost after = all.take(i + 1);
        assert(after.drop_last() =~= all.take(i as int));
        assert(after.last() == parts@[i as int]@);
        proof {
            reveal_strlit(".");
        }
        assert("."@ =~= seq!['.']);
        if !(parts[i].is_empty() || (same(&parts[i], ".") && !(relative && i == 0))) {
            names.push(parts[i].clone());
            assert(text::views(names@) =~= named(after, relative));
        }
        i += 1;
    }
    assert(all.take(i as int) =~= all);
    names
}

fn is_letter(c: char) -> (res: bool)
    ensures
        res == letter(c),
{
    ('a' <= c && c <= 'z') || ('A' <= c && c <= 'Z')
}

fn until_separator(chars: &Vec<char>, from: usize, on: Platform) -> (at: usize)
    requires
        from <= chars@.len(),
    ensures
        at == until(chars@, from as int, on),
        from <= at <= chars@.len(),
{
    let mut at: usize = from;
    while at < chars.len() && !on.is_separator(chars[at])
        invariant
            from <= at <= chars@.len(),
            until(chars@, from as int, on) == until(chars@, at as int, on),
        ensures
            from <= at <= chars@.len(),
            at >= chars@.len() || on.separates(chars@[at as int]),
            until(chars@, from as int, on) == until(chars@, at as int, on),
        decreases chars@.len() - at,
    {
        at += 1;
    }
    at
}

/// The top of a text and where what follows it starts: see `split_top`.
fn top_of(chars: &Vec<char>, on: Platform) -> (res: (String, usize))
    ensures
        res.1 <= chars@.len(),
        split_top(chars@, on) == (res.0@, chars@.skip(res.1 as int)),
{
    let mut top = String::new();
    assert(chars@.skip(0) =~= chars@);
    match on {
        Platform::Unix => {
            if chars.len() >= 1 && chars[0] == '/' {
                top.push('/');
                assert(top@ =~= seq!['/']);
                return (top, 1);
            }
            assert(top@ =~= Seq::<char>::empty());
            (top, 0)
        },
        Platform::Windows => {
            if chars.len() >= 2 && is_letter(chars[0]) && chars[1] == ':' {
                top.push(chars[0]);
                top.push(':');
                if chars.len() >= 3 && on.is_separator(chars[2]) {
                    top.push('\\');
                    assert(top@ =~= seq![chars@[0], ':', '\\']);
                    return (top, 3);
                }
                assert(top@ =~= seq![chars@[0], ':']);
                return (top, 2);
            }
            if chars.len() >= 2 && on.is_separator(chars[0]) && on.is_separator(chars[1]) {
                let server: usize = until_separator(chars, 2, on);
                let ghost share = until(chars@, server + 1, on);
                top.push('\\');
                top.push('\\');
                let host = string_of(chars, 2, server);
                top.push_str(&host);
                let mut end: usize = server;
                if server < chars.len() {
                    top.push('\\');
                    end = until_separator(chars, server + 1, on);
                    let folder = string_of(chars, server + 1, end);
                    top.push_str(&folder);
                }
                if end < chars.len() {
                    top.push('\\');
                }
                assert(top@ =~= split_top(chars@, on).0);
                return (top, end);
            }
            if chars.len() >= 1 && on.is_separator(chars[0]) {
                top.push('\\');
                assert(top@ =~= seq!['\\']);
                return (top, 1);
            }
            assert(top@ =~= Seq::<char>::empty());
            (top, 0)
        },
    }
}

fn is_bare_share(top: &str) -> (res: bool)
    ensures
        res == bare_share(top@),
{
    let t = chars_of(top);
    t.len() >= 3 && t[0] == '\\' && t[1] == '\\' && t[t.len() - 1] != '\\'
}

/// A top as it is usually written.
fn usually(top: &str) -> (res: String)
    ensures
        res@ == usual_top(top@),
{
    let mut t = chars_of(top);
    if t.len() >= 2 && is_letter(t[0]) && t[1] == ':' {
        let c: char = t[0].to_ascii_uppercase();
        t.set(0, c);
    } else {
        assert(t@.len() == 7 && t@.take(4) == seq!['\\', '\\', '?', '\\'] ==> t@[0] == '\\' && t@[1]
            == '\\' && t@[2] == '?' && t@[3] == '\\') by {
            if t@.len() == 7 && t@.take(4) == seq!['\\', '\\', '?', '\\'] {
                assert(t@[0] == t@.take(4)[0]);
                assert(t@[1] == t@.take(4)[1]);
                assert(t@[2] == t@.take(4)[2]);
                assert(t@[3] == t@.take(4)[3]);
            }
        }
        if t.len() == 7 && t[0] == '\\' && t[1] == '\\' && t[2] == '?' && t[3] == '\\' && is_letter(
            t[4],
        ) {
            assert(t@.take(4) =~= seq!['\\', '\\', '?', '\\']);
            let c: char = t[4].to_ascii_uppercase();
            t.set(4, c);
        } else if is_bare_share(top) {
            t.push('\\');
        }
    }
    let res = string_of(&t, 0, t.len());
    assert(res@ =~= t@);
    res
}

impl Clone for FsPath {
    fn clone(&self) -> (res: Self)
        ensures
            res@ == self@,
    {
        let res = FsPath { top: self.top.clone(), names: self.names.clone() };
        assert(res@ =~= self@) by {
            assert(res@.names =~= self@.names);
        }
        res
    }
}

impl FsPath {
    /// The path of nothing, which stands for the list of drives.
    pub fn empty() -> (path: FsPath)
        ensures
            path@ == PathView::empty(),
            path@.is_empty(),
    {
        let path = FsPath { top: String::new(), names: Vec::new() };
        assert(path@ =~= PathView::empty());
        path
    }

    pub fn is_empty(&self) -> (res: bool)
        ensures
            res == self@.is_empty(),
    {
        self.top.is_empty() && self.names.is_empty()
    }

    /// The path a text spells out.
    pub fn parse(text: &str, on: Platform) -> (path: FsPath)
        ensures
            path@ == parsed(text@, on),
    {
        let chars = chars_of(text);
        let (top, from) = top_of(&chars, on);
        let relative = top.is_empty();
        let names = named_of(pieces_of(&chars, from, on), relative);
        FsPath { top, names }
    }

    /// `text` taken from this path.
    pub fn join(&self, text: &str, on: Platform) -> (path: FsPath)
        ensures
            path@ == self@.join(text@, on),
    {
        let chars = chars_of(text);
        let (top, from) = top_of(&chars, on);
        if top.is_empty() {
            assert(chars@.skip(0) =~= chars@);
            let mut below = named_of(pieces_of(&chars, 0, on), self.is_empty());
            let mut path = self.clone();
            path.names.append(&mut below);
            assert(path@.names =~= self@.names + named(pieces(text@, on), self@.is_empty()));
            return path;
        }
        let names = named_of(pieces_of(&chars, from, on), false);
        proof {
            reveal_strlit("\\");
        }
        assert("\\"@ =~= seq!['\\']);
        if same(&top, "\\") && !self.top.is_empty() {
            let mut top = self.top.clone();
            let len: usize = top.unicode_len();
            if top.get_char(len - 1) != '\\' && !is_bare_share(&top) {
                top.push('\\');
            }
            return FsPath { top, names };
        }
        FsPath { top, names }
    }

    /// The path without its last name, or none when there is no name left.
    pub fn parent(&self) -> (parent: Option<FsPath>)
        ensures
            parent is Some == self@.parent() is Some,
            parent matches Some(p) ==> self@.parent() == Some(p@),
    {
        if self.names.is_empty() {
            return None;
        }
        let mut parent = self.clone();
        let ghost names = parent.names@;
        parent.names.pop();
        assert(parent@.names =~= self@.names.drop_last()) by {
            assert(parent.names@ =~= names.drop_last());
            assert(text::views(names) == self@.names);
        }
        assert(parent@ =~= PathView { top: self@.top, names: self@.names.drop_last() });
        Some(parent)
    }

    /// The last name, unless it only points elsewhere.
    pub fn file_name(&self) -> (name: Option<String>)
        ensures
            name is Some == self@.file_name() is Some,
            name matches Some(n) ==> self@.file_name() == Some(n@),
    {
        proof {
            reveal_strlit(".");
            reveal_strlit("..");
        }
        assert("."@ =~= seq!['.']);
        assert(".."@ =~= seq!['.', '.']);
        if self.names.is_empty() {
            return None;
        }
        let last: &String = &self.names[self.names.len() - 1];
        assert(last@ == self@.names.last());
        if same(last, "..") || same(last, ".") {
            return None;
        }
        Some(last.clone())
    }

    /// As written out.
    pub fn text(&self, on: Platform) -> (text: String)
        ensures
            text@ == self@.text(on),
    {
        let mut below = String::new();
        let mut i: usize = 0;
        let ghost names = self@.names;
        assert(names.take(0) =~= Seq::<Seq<char>>::empty());
        while i < self.names.len()
            invariant
                i <= self.names@.len(),
                names == self@.names,
                below@ == separated(names.take(i as int), on.sep()),
            decreases self.names@.len() - i,
        {
            if i > 0 {
                below.push(on.separator());
            }
            below.push_str(&self.names[i]);
            i += 1;
            assert(names.take(i as int).drop_last() =~= names.take(i - 1));
            assert(names.take(i as int).last() == self.names@[i - 1]@);
            if i == 1 {
                assert(names.take(0).len() == 0);
                assert(below@ =~= names.take(1)[0]);
            }
        }
        assert(names.take(i as int) =~= names);
        if !self.names.is_empty() && is_bare_share(&self.top) {
            let mut lead = self.top.clone();
            lead.push('\\');
            joined(&lead, &below)
        } else {
            joined(&self.top, &below)
        }
    }

    /// Whether two paths are the same place.
    pub fn same_place(&self, other: &FsPath) -> (res: bool)
        ensures
            res == self@.same(other@),
    {
        let here = FsPath { top: usually(&self.top), names: self.names.clone() };
        let there = FsPath { top: usually(&other.top), names: other.names.clone() };
        assert(here@.names =~= self@.names);
        assert(there@.names =~= other@.names);
        here.is(&there)
    }

    /// Whether two paths are written alike.
    pub fn is(&self, other: &FsPath) -> (res: bool)
        ensures
            res == (self@ == other@),
    {
        if !same(&self.top, &other.top) || self.names.len() != other.names.len() {
            assert(self@.top != other@.top || self@.names.len() != other@.names.len());
            return false;
        }
        let mut i: usize = 0;
        while i < self.names.len()
            invariant
                i <= self.names@.len(),
                self.names@.len() == other.names@.len(),
                forall|k: int| 0 <= k < i ==> self@.names[k] == other@.names[k],
            decreases self.names@.len() - i,
        {
            if !same(&self.names[i], &other.names[i]) {
                assert(self@.names[i as int] != other@.names[i as int]);
                return false;
            }
            i += 1;
        }
        assert(self@ =~= other@) by {
            assert(self@.names =~= other@.names);
        }
        true
    }

    /// The letter of the drive this path starts from the top of.
    pub fn drive(&self) -> (letter: Option<char>)
        ensures
            letter == self@.drive(),
    {
        let t = chars_of(&self.top);
        if t.len() == 3 && is_letter(t[0]) && t[1] == ':' && t[2] == '\\' {
            return Some(t[0]);
        }
        if t.len() == 7 && t[0] == '\\' && t[1] == '\\' && t[2] == '?' && t[3] == '\\' && is_letter(
            t[4],
        ) && t[5] == ':' && t[6] == '\\' {
            assert(t@.take(4) =~= seq!['\\', '\\', '?', '\\']);
            return Some(t[4]);
        }
        assert(t@.len() == 7 && t@.take(4) == seq!['\\', '\\', '?', '\\'] ==> t@[0] == '\\' && t@[1]
            == '\\' && t@[2] == '?' && t@[3] == '\\') by {
            if t@.len() == 7 && t@.take(4) == seq!['\\', '\\', '?', '\\'] {
                assert(t@[0] == t@.take(4)[0]);
                assert(t@[1] == t@.take(4)[1]);
                assert(t@[2] == t@.take(4)[2]);
                assert(t@[3] == t@.take(4)[3]);
            }
        }
        None
    }

    /// Whether this path means the same wherever it is taken from.
    pub fn is_absolute(&self, on: Platform) -> (res: bool)
        ensures
            res == self@.is_absolute(on),
    {
        match on {
            Platform::Unix => !self.top.is_empty(),
            Platform::Windows => self.top.unicode_len() > 2,
        }
    }

    /// The rest of this path below `base`, when it is `base` or below it.
    pub fn below(&self, base: &FsPath) -> (rest: Option<FsPath>)
        ensures
            rest is Some == self@.under(base@),
            rest matches Some(r) ==> r@ == (PathView {
                top: Seq::empty(),
                names: self@.names.skip(base@.names.len() as int),
            }),
    {
        if !same(&usually(&self.top), &usually(&base.top)) || base.names.len() > self.names.len() {
            return None;
        }
        let mut i: usize = 0;
        while i < base.names.len()
            invariant
                i <= base.names@.len() <= self.names@.len(),
                forall|k: int| 0 <= k < i ==> self@.names[k] == base@.names[k],
            decreases base.names@.len() - i,
        {
            if !same(&self.names[i], &base.names[i]) {
                assert(self@.names[i as int] != base@.names[i as int]);
                return None;
            }
            i += 1;
        }
        assert(base@.names =~= self@.names.subrange(0, base@.names.len() as int));
        let mut names: Vec<String> = Vec::new();
        while i < self.names.len()
            invariant
                base.names@.len() <= i <= self.names@.len(),
                text::views(names@) == self@.names.subrange(
                    base@.names.len() as int,
                    i as int,
                ),
            decreases self.names@.len() - i,
        {
            let ghost was = names@;
            names.push(self.names[i].clone());
            i += 1;
            assert(text::views(names@) =~= text::views(was).push(self@.names[i - 1]));
            assert(text::views(names@) =~= self@.names.subrange(
                base@.names.len() as int,
                i as int,
            ));
        }
        let rest = FsPath { top: String::new(), names };
        assert(rest@ =~= PathView {
            top: Seq::empty(),
            names: self@.names.skip(base@.names.len() as int),
        });
        Some(rest)
    }
}

/// Whether a text is an ordinary name: one piece, that stands for nothing else.
pub open spec fn plain_name(name: Seq<char>, on: Platform) -> bool {
    &&& name.len() > 0
    &&& name != seq!['.']
    &&& name != seq!['.', '.']
    &&& split_top(name, on).0.len() == 0
    &&& forall|i: int| 0 <= i < name.len() ==> !on.separates(#[trigger] name[i])
}

proof fn one_piece(name: Seq<char>, on: Platform)
    requires
        forall|i: int| 0 <= i < name.len() ==> !on.separates(#[trigger] name[i]),
    ensures
        pieces(name, on) == seq![name],
    decreases name.len(),
{
    if name.len() > 0 {
        assert forall|i: int| 0 <= i < name.drop_last().len() implies !on.separates(
            #[trigger] name.drop_last()[i],
        ) by {
            assert(name[i] == name.drop_last()[i]);
        }
        one_piece(name.drop_last(), on);
        assert(!on.separates(name[name.len() - 1]));
        assert(name.drop_last().push(name.last()) =~= name);
        assert(pieces(name, on) =~= seq![name]);
    } else {
        assert(pieces(name, on) =~= seq![name]);
    }
}

/// An ordinary name joined to a path is the last name of what comes of it, and
/// the path its parent.
pub proof fn a_joined_name_is_the_last(path: PathView, name: Seq<char>, on: Platform)
    requires
        plain_name(name, on),
    ensures
        path.join(name, on) == (PathView { top: path.top, names: path.names.push(name) }),
        path.join(name, on).parent() == Some(path),
        path.join(name, on).file_name() == Some(name),
{
    one_piece(name, on);
    let parts = seq![name];
    assert(parts.drop_last() =~= Seq::<Seq<char>>::empty());
    assert(named(parts.drop_last(), path.is_empty()) =~= Seq::<Seq<char>>::empty());
    assert(named(parts, path.is_empty()) =~= seq![name]);
    assert(path.names + seq![name] =~= path.names.push(name));
    assert(path.names.push(name).drop_last() =~= path.names);
}

proof fn pieces_of_separated(names: Seq<Seq<char>>, on: Platform)
    requires
        names.len() > 0,
        forall|i: int| 0 <= i < names.len() ==> plain_name(#[trigger] names[i], on),
    ensures
        pieces(separated(names, on.sep()), on) == names,
    decreases names.len(),
{
    if names.len() == 1 {
        one_piece(names[0], on);
        assert(seq![names[0]] =~= names);
    } else {
        let before = names.drop_last();
        assert forall|i: int| 0 <= i < before.len() implies plain_name(
            #[trigger] before[i],
            on,
        ) by {
            assert(before[i] == names[i]);
        }
        pieces_of_separated(before, on);
        let head = separated(before, on.sep());
        assert(plain_name(names[names.len() - 1], on));
        pieces_go_on(head, names.last(), on);
        assert(before.push(names.last()) =~= names);
    }
}

/// A separator and a name after a text are one piece more.
proof fn pieces_go_on(head: Seq<char>, name: Seq<char>, on: Platform)
    requires
        forall|i: int| 0 <= i < name.len() ==> !on.separates(#[trigger] name[i]),
    ensures
        pieces(head.push(on.sep()) + name, on) == pieces(head, on).push(name),
    decreases name.len(),
{
    let text = head.push(on.sep()) + name;
    if name.len() == 0 {
        assert(text =~= head.push(on.sep()));
        assert(text.drop_last() =~= head);
        assert(name =~= Seq::<char>::empty());
    } else {
        let less = name.drop_last();
        assert forall|i: int| 0 <= i < less.len() implies !on.separates(#[trigger] less[i]) by {
            assert(less[i] == name[i]);
        }
        pieces_go_on(head, less, on);
        assert(text.drop_last() =~= head.push(on.sep()) + less);
        assert(text.last() == name[name.len() - 1]);
        assert(less.push(name.last()) =~= name);
        let before = pieces(head, on).push(less);
        assert(before.update(before.len() - 1, before.last().push(name.last())) =~= pieces(
            head,
            on,
        ).push(name));
    }
}

proof fn plain_names_are_named(names: Seq<Seq<char>>, relative: bool, on: Platform)
    requires
        forall|i: int| 0 <= i < names.len() ==> plain_name(#[trigger] names[i], on),
    ensures
        named(names, relative) == names,
    decreases names.len(),
{
    if names.len() > 0 {
        let before = names.drop_last();
        assert forall|i: int| 0 <= i < before.len() implies plain_name(
            #[trigger] before[i],
            on,
        ) by {
            assert(before[i] == names[i]);
        }
        plain_names_are_named(before, relative, on);
        assert(plain_name(names[names.len() - 1], on));
        assert(before.push(names.last()) =~= names);
    } else {
        assert(named(names, relative) =~= names);
    }
}

proof fn names_read_back(names: Seq<Seq<char>>, on: Platform)
    requires
        forall|i: int| 0 <= i < names.len() ==> plain_name(#[trigger] names[i], on),
    ensures
        named(pieces(separated(names, on.sep()), on), false) == names,
{
    let rest = separated(names, on.sep());
    if names.len() > 0 {
        pieces_of_separated(names, on);
        plain_names_are_named(names, false, on);
    } else {
        let parts = seq![Seq::<char>::empty()];
        assert(pieces(rest, on) =~= parts);
        assert(parts.drop_last() =~= Seq::<Seq<char>>::empty());
        assert(named(parts.drop_last(), false) =~= Seq::<Seq<char>>::empty());
        assert(named(parts, false) =~= names);
    }
}

/// A path from the root, on Unix, is read back as it was written.
pub proof fn a_path_written_out_reads_back(path: PathView)
    requires
        path.top == seq!['/'],
        forall|i: int| 0 <= i < path.names.len() ==> plain_name(
            #[trigger] path.names[i],
            Platform::Unix,
        ),
    ensures
        parsed(path.text(Platform::Unix), Platform::Unix) == path,
{
    let on = Platform::Unix;
    let text = path.text(on);
    assert(text[0] == '/');
    assert(text.skip(1) =~= separated(path.names, on.sep()));
    names_read_back(path.names, on);
}

/// A path on a drive, on Windows, is read back as it was written, whether the
/// letter is a capital or not.
pub proof fn a_drive_path_written_out_reads_back(path: PathView, drive: char)
    requires
        letter(drive),
        path.top == seq![drive, ':', '\\'],
        forall|i: int| 0 <= i < path.names.len() ==> plain_name(
            #[trigger] path.names[i],
            Platform::Windows,
        ),
    ensures
        parsed(path.text(Platform::Windows), Platform::Windows) == path,
{
    let on = Platform::Windows;
    let text = path.text(on);
    assert(text[0] == drive && text[1] == ':' && text[2] == '\\');
    assert(text.skip(3) =~= separated(path.names, on.sep()));
    names_read_back(path.names, on);
    assert(parsed(text, on).top =~= path.top);
}

/// On Unix, what is below a folder is reached by joining its names, written out,
/// to the folder; written so, they lead nowhere by themselves.
pub proof fn what_is_below_is_reached_by_joining(base: PathView, names: Seq<Seq<char>>)
    requires
        base.top.len() > 0,
        names.len() > 0,
        forall|i: int| 0 <= i < names.len() ==> plain_name(#[trigger] names[i], Platform::Unix),
    ensures
        ({
            let on = Platform::Unix;
            let text = (PathView { top: Seq::empty(), names }).text(on);
            &&& base.join(text, on) == (PathView { top: base.top, names: base.names + names })
            &&& !parsed(text, on).is_absolute(on)
        }),
{
    let on = Platform::Unix;
    let text = (PathView { top: Seq::empty(), names }).text(on);
    assert(text =~= separated(names, on.sep()));
    starts_with_a_name(names, on);
    assert(!on.separates(text[0]));
    names_read_back(names, on);
}

proof fn starts_with_a_name(names: Seq<Seq<char>>, on: Platform)
    requires
        names.len() > 0,
        forall|i: int| 0 <= i < names.len() ==> plain_name(#[trigger] names[i], on),
    ensures
        separated(names, on.sep()).len() > 0,
        separated(names, on.sep())[0] == names[0][0],
    decreases names.len(),
{
    assert(plain_name(names[0], on));
    if names.len() > 1 {
        let before = names.drop_last();
        assert forall|i: int| 0 <= i < before.len() implies plain_name(
            #[trigger] before[i],
            on,
        ) by {
            assert(before[i] == names[i]);
        }
        starts_with_a_name(before, on);
    }
}

} // verus!
