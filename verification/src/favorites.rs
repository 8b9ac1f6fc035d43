//! User-owned favorites, separate from zoxide's automatically ranked history.
//!
//! The program reads the file, hands over the list, and writes back what comes
//! of it.

use vstd::prelude::*;

use crate::fs_path::{self, FsPath, PathView, Platform};
use crate::text::{
    self, chars_of, is_whitespace, joined, lowercase_of, same, same_ignoring_case, starts_with,
    string_of, strip_end, swap_chars,
};

verus! {

/// A pinned folder, with the name it can be asked for by, if it has one.
#[derive(Debug)]
pub struct Favorite {
    /// The folder as the file has it, which is how it is shown.
    pub path: String,
    pub name: Option<String>,
}

#[verifier::ext_equal]
pub struct FavoriteView {
    pub path: Seq<char>,
    pub name: Option<Seq<char>>,
}

impl View for Favorite {
    type V = FavoriteView;

    open spec fn view(&self) -> FavoriteView {
        FavoriteView { path: self.path@, name: text::opt_view(self.name) }
    }
}

impl Clone for Favorite {
    fn clone(&self) -> (res: Self)
        ensures
            res@ == self@,
    {
        Favorite {
            path: self.path.clone(),
            name: match &self.name {
                Some(name) => Some(name.clone()),
                None => None,
            },
        }
    }
}

pub open spec fn list_view(favorites: Seq<Favorite>) -> Seq<FavoriteView> {
    favorites.map_values(|f: Favorite| f@)
}

/// What is wrong with a name for a favorite.
#[derive(Debug, PartialEq, Eq)]
pub enum NameFault {
    Empty,
    /// It starts with the @ that marks a name when it is used.
    Marked,
    /// It holds whitespace or a slash.
    Holds(String),
}

impl NameFault {
    pub fn message(&self) -> (text: String)
        ensures
            text@ == (match self {
                NameFault::Empty => "a favorite's name cannot be empty"@,
                NameFault::Marked =>
                    "a favorite's name is written without the @; that is added when it is used"@,
                NameFault::Holds(name) => "a favorite's name cannot hold spaces or slashes: "@
                    + name@,
            }),
    {
        match self {
            NameFault::Empty => "a favorite's name cannot be empty".to_owned(),
            NameFault::Marked =>
                "a favorite's name is written without the @; that is added when it is used".to_owned(),
            NameFault::Holds(name) => joined(
                "a favorite's name cannot hold spaces or slashes: ",
                name,
            ),
        }
    }
}

/// Whether a character cannot stand in a favorite's name.
pub open spec fn unfit(c: char) -> bool {
    text::whitespace(c) || c == '/' || c == '\\'
}

/// Whether a text can be a favorite's name: a word with no spaces, not
/// starting with the @ that marks it when it is used, and no path separators,
/// so it can never be taken for a folder.
pub open spec fn good_name(name: Seq<char>) -> bool {
    &&& name.len() > 0
    &&& name[0] != '@'
    &&& forall|i: int| 0 <= i < name.len() ==> !unfit(#[trigger] name[i])
}

/// What a name has to be to stand for a favorite.
pub fn check_name(name: &str) -> (res: Result<(), NameFault>)
    ensures
        res is Ok == good_name(name@),
        res matches Err(NameFault::Empty) ==> name@.len() == 0,
        res matches Err(NameFault::Marked) ==> name@.len() > 0 && name@[0] == '@',
        res matches Err(NameFault::Holds(n)) ==> n@ == name@ && name@.len() > 0 && name@[0] != '@'
            && exists|i: int| 0 <= i < name@.len() && unfit(#[trigger] name@[i]),
{
    let chars = chars_of(name);
    if chars.len() == 0 {
        return Err(NameFault::Empty);
    }
    if chars[0] == '@' {
        return Err(NameFault::Marked);
    }
    let mut i: usize = 0;
    while i < chars.len()
        invariant
            i <= chars@.len(),
            chars@ == name@,
            chars@.len() > 0,
            name@[0] != '@',
            forall|k: int| 0 <= k < i ==> !unfit(#[trigger] name@[k]),
        decreases chars@.len() - i,
    {
        let c: char = chars[i];
        if is_whitespace(c) || c == '/' || c == '\\' {
            assert(unfit(name@[i as int]));
            return Err(NameFault::Holds(name.to_owned()));
        }
        i += 1;
    }
    Ok(())
}

/// Names are matched without regard to case, as folder names are on Windows.
pub open spec fn called(favorite: FavoriteView, name: Seq<char>) -> bool {
    favorite.name matches Some(n) && text::same_but_case(n, name)
}

/// The first favorite called `name`, from the one at `from` on.
pub open spec fn first_called(list: Seq<FavoriteView>, name: Seq<char>, from: int) -> Option<
    FavoriteView,
>
    decreases list.len() - from,
{
    if from >= list.len() {
        None
    } else if called(list[from], name) {
        Some(list[from])
    } else {
        first_called(list, name, from + 1)
    }
}

fn is_called(favorite: &Favorite, name: &str) -> (res: bool)
    ensures
        res == called(favorite@, name@),
{
    match &favorite.name {
        Some(own) => same_name(own, name),
        None => false,
    }
}

pub fn same_name(left: &str, right: &str) -> (res: bool)
    ensures
        res == text::same_but_case(left@, right@),
{
    same_ignoring_case(left, right)
}

/// The favorite called `name`, if there is one. Names are matched without
/// regard to case, as folder names are on Windows.
pub fn find(favorites: &Vec<Favorite>, name: &str) -> (found: Option<Favorite>)
    ensures
        found is Some == first_called(list_view(favorites@), name@, 0) is Some,
        found matches Some(f) ==> first_called(list_view(favorites@), name@, 0) == Some(f@),
{
    let ghost all = list_view(favorites@);
    let mut i: usize = 0;
    while i < favorites.len()
        invariant
            i <= favorites@.len(),
            all == list_view(favorites@),
            first_called(all, name@, 0) == first_called(all, name@, i as int),
        decreases favorites@.len() - i,
    {
        assert(all[i as int] == favorites@[i as int]@);
        if is_called(&favorites[i], name) {
            return Some(favorites[i].clone());
        }
        i += 1;
    }
    None
}

/// A name nobody has given to a favorite.
#[derive(Debug, PartialEq, Eq)]
pub struct Unnamed {
    pub name: String,
}

impl Unnamed {
    pub fn message(&self) -> (text: String)
        ensures
            text@ == "no favorite is named @"@ + self.name@,
    {
        joined("no favorite is named @", &self.name)
    }
}

/// The folder that a starting point stands for: written as `@name`, the favorite
/// of that name, if there is one; any other text is a path.
pub open spec fn place_named(
    text: Seq<char>,
    list: Seq<FavoriteView>,
) -> Option<Seq<char>> {
    if text.len() > 0 && text[0] == '@' {
        match first_called(list, text.skip(1), 0) {
            Some(favorite) => Some(favorite.path),
            None => None,
        }
    } else {
        Some(text)
    }
}

/// The folder that a starting point stands for. A name nobody has given is
/// refused, not searched for.
pub fn starting_point(text: &str, favorites: &Vec<Favorite>) -> (res: Result<String, Unnamed>)
    ensures
        match res {
            Ok(path) => place_named(text@, list_view(favorites@)) == Some(path@),
            Err(unnamed) => {
                &&& place_named(text@, list_view(favorites@)) is None
                &&& unnamed.name@ == text@.skip(1)
            },
        },
{
    let chars = chars_of(text);
    if chars.len() == 0 || chars[0] != '@' {
        return Ok(text.to_owned());
    }
    let name = string_of(&chars, 1, chars.len());
    assert(name@ =~= text@.skip(1));
    match find(favorites, &name) {
        Some(favorite) => Ok(favorite.path),
        None => Err(Unnamed { name }),
    }
}

/// What two ways of writing a folder have in common, for telling at a glance
/// whether it is pinned.
pub open spec fn key_of(path: Seq<char>, on: Platform) -> Seq<char> {
    match on {
        Platform::Unix => text::stripped_end(path, '/'),
        Platform::Windows => text::lowercase(
            text::stripped_end(text::swapped(path, '/', '\\'), '\\'),
        ),
    }
}

pub fn display_key(path: &str, on: Platform) -> (key: String)
    ensures
        key@ == key_of(path@, on),
{
    match on {
        Platform::Unix => strip_end(path, '/'),
        Platform::Windows => lowercase_of(&strip_end(&swap_chars(path, '/', '\\'), '\\')),
    }
}

/// The keys of a list of favorites.
pub open spec fn keys_of(list: Seq<FavoriteView>, on: Platform) -> Seq<Seq<char>> {
    list.map_values(|f: FavoriteView| key_of(f.path, on))
}

/// Cached membership for drawing.
#[derive(Debug)]
pub struct Index {
    keys: Vec<String>,
    on: Platform,
}

#[verifier::ext_equal]
pub struct IndexView {
    pub keys: Seq<Seq<char>>,
    pub on: Platform,
}

impl View for Index {
    type V = IndexView;

    closed spec fn view(&self) -> IndexView {
        IndexView { keys: text::views(self.keys@), on: self.on }
    }
}

impl IndexView {
    /// Whether a folder is pinned.
    pub open spec fn holds(self, path: PathView) -> bool {
        self.keys.contains(key_of(path.text(self.on), self.on))
    }
}

impl Index {
    /// An index of nothing.
    pub fn empty(on: Platform) -> (index: Index)
        ensures
            index@ == (IndexView { keys: Seq::empty(), on }),
    {
        let index = Index { keys: Vec::new(), on };
        assert(index@.keys =~= Seq::<Seq<char>>::empty());
        index
    }

    /// The index of the favorites read, or why they could not be read.
    pub fn load(read: Result<Vec<Favorite>, String>, on: Platform) -> (res: Result<Index, String>)
        ensures
            match read {
                Ok(favorites) => res matches Ok(index) && index@ == (IndexView {
                    keys: keys_of(list_view(favorites@), on),
                    on,
                }),
                Err(error) => res == Err::<Index, String>(error),
            },
    {
        match read {
            Ok(favorites) => Ok(Self::read(&favorites, on)),
            Err(error) => Err(error),
        }
    }

    pub fn read(favorites: &Vec<Favorite>, on: Platform) -> (index: Index)
        ensures
            index@ == (IndexView { keys: keys_of(list_view(favorites@), on), on }),
    {
        let mut keys: Vec<String> = Vec::new();
        let mut i: usize = 0;
        while i < favorites.len()
            invariant
                i <= favorites@.len(),
                keys@.len() == i,
                forall|k: int| 0 <= k < i ==> #[trigger] keys@[k]@ == key_of(
                    favorites@[k].path@,
                    on,
                ),
            decreases favorites@.len() - i,
        {
            keys.push(display_key(&favorites[i].path, on));
            i += 1;
        }
        let index = Index { keys, on };
        assert(index@.keys =~= keys_of(list_view(favorites@), on));
        index
    }

    pub fn contains(&self, path: &FsPath) -> (res: bool)
        ensures
            res == self@.holds(path@),
    {
        let key = display_key(&path.text(self.on), self.on);
        let mut i: usize = 0;
        while i < self.keys.len()
            invariant
                i <= self.keys@.len(),
                key@ == key_of(path@.text(self@.on), self@.on),
                forall|k: int| 0 <= k < i ==> #[trigger] self.keys@[k]@ != key@,
            decreases self.keys@.len() - i,
        {
            if same(&self.keys[i], &key) {
                assert(self@.keys[i as int] == key@);
                return true;
            }
            i += 1;
        }
        assert forall|k: int| 0 <= k < self@.keys.len() implies self@.keys[k] != key@ by {
            assert(self.keys@[k]@ != key@);
        }
        false
    }
}

/// Where the favorites are kept: `favorites.toml` beside the configuration.
pub open spec fn file_beside(config: PathView) -> PathView {
    PathView {
        names: (if config.file_name() is Some {
            config.names.drop_last()
        } else {
            config.names
        }).push("favorites.toml"@),
        ..config
    }
}

/// Where the favorites are kept, given where the configuration is, if it has
/// a place at all.
pub fn path(config: Option<FsPath>) -> (res: Result<FsPath, &'static str>)
    ensures
        match config {
            Some(file) => res matches Ok(p) && p@ == file_beside(file@),
            None => res matches Err(e) && e@ == "cannot locate the user configuration directory"@,
        },
{
    match config {
        Some(file) => {
            let mut path = file.clone();
            if file.file_name().is_some() {
                path.names.pop();
                assert(path@.names =~= file@.names.drop_last());
            }
            let ghost names = path@.names;
            path.names.push("favorites.toml".to_owned());
            assert(path@.names =~= names.push("favorites.toml"@));
            Ok(path)
        },
        None => Err("cannot locate the user configuration directory"),
    }
}

/// Every favorite of a file: the folders from before names existed come first,
/// and the rest after them, both in the order they were pinned.
pub open spec fn all_of(paths: Seq<Seq<char>>, favorites: Seq<FavoriteView>) -> Seq<FavoriteView> {
    paths.map_values(|path: Seq<char>| FavoriteView { path, name: None }) + favorites
}

/// Every favorite, given the two lists a file holds.
pub fn all(paths: Vec<String>, favorites: Vec<Favorite>) -> (list: Vec<Favorite>)
    ensures
        list_view(list@) == all_of(
            text::views(paths@),
            list_view(favorites@),
        ),
{
    let ghost folders = text::views(paths@);
    let mut list: Vec<Favorite> = Vec::new();
    let mut i: usize = 0;
    while i < paths.len()
        invariant
            i <= paths@.len(),
            folders == text::views(paths@),
            list_view(list@) == all_of(folders.take(i as int), Seq::empty()),
        decreases paths@.len() - i,
    {
        let ghost before = list_view(list@);
        let favorite = Favorite { path: paths[i].clone(), name: None };
        list.push(favorite);
        i += 1;
        assert(list_view(list@) =~= before.push(favorite@));
        assert(list_view(list@) =~= all_of(folders.take(i as int), Seq::empty()));
    }
    assert(folders.take(i as int) =~= folders);
    let mut k: usize = 0;
    while k < favorites.len()
        invariant
            k <= favorites@.len(),
            list_view(list@) == all_of(folders, list_view(favorites@).take(k as int)),
        decreases favorites@.len() - k,
    {
        let ghost before = list_view(list@);
        let favorite = favorites[k].clone();
        let ghost added = favorite@;
        list.push(favorite);
        k += 1;
        assert(list_view(list@) =~= before.push(added));
        assert(list_view(list@) =~= all_of(folders, list_view(favorites@).take(k as int)));
    }
    assert(list_view(favorites@).take(k as int) =~= list_view(favorites@));
    list
}

/// The text of a path without what Windows puts before one it has resolved.
pub open spec fn usual(text: Seq<char>) -> Seq<char> {
    if "\\\\?\\UNC\\"@.is_prefix_of(text) {
        "\\\\"@ + text.skip("\\\\?\\UNC\\"@.len() as int)
    } else if "\\\\?\\"@.is_prefix_of(text) {
        text.skip("\\\\?\\"@.len() as int)
    } else {
        text
    }
}

/// A resolved path as it is usually written, without what Windows puts before
/// it, so that a folder is one favorite however it was reached.
pub fn plain_text(text: &str, on: Platform) -> (plain: String)
    ensures
        plain@ == (match on {
            Platform::Unix => text@,
            Platform::Windows => usual(text@),
        }),
{
    if on == Platform::Unix {
        return text.to_owned();
    }
    let share = "\\\\?\\UNC\\";
    let local = "\\\\?\\";
    let chars = chars_of(text);
    if starts_with(text, share) {
        let from: usize = chars_of(share).len();
        let rest = string_of(&chars, from, chars.len());
        assert(rest@ =~= text@.skip(share@.len() as int));
        joined("\\\\", &rest)
    } else if starts_with(text, local) {
        let from: usize = chars_of(local).len();
        let rest = string_of(&chars, from, chars.len());
        assert(rest@ =~= text@.skip(local@.len() as int));
        rest
    } else {
        text.to_owned()
    }
}

/// Whether two paths are the same folder: they go through the same names, or, on
/// Windows, where case does not count, are written alike.
pub open spec fn same_folder(left: Seq<char>, right: Seq<char>, on: Platform) -> bool {
    match on {
        Platform::Unix => fs_path::parsed(left, on) == fs_path::parsed(right, on),
        Platform::Windows => text::lowercase(left) == text::lowercase(right),
    }
}

pub fn same_path(left: &str, right: &str, on: Platform) -> (res: bool)
    ensures
        res == same_folder(left@, right@, on),
{
    match on {
        Platform::Unix => FsPath::parse(left, on).is(&FsPath::parse(right, on)),
        Platform::Windows => same(&lowercase_of(left), &lowercase_of(right)),
    }
}

/// Whether a folder is in the list.
pub open spec fn pinned(list: Seq<FavoriteView>, directory: Seq<char>, on: Platform) -> bool {
    exists|i: int|
        0 <= i < list.len() && same_folder((#[trigger] list[i]).path, directory, on)
}

/// The first favorite for another folder that is called `name`, from the one
/// at `from` on.
pub open spec fn first_other_called(
    list: Seq<FavoriteView>,
    name: Seq<char>,
    directory: Seq<char>,
    on: Platform,
    from: int,
) -> Option<Seq<char>>
    decreases list.len() - from,
{
    if from >= list.len() {
        None
    } else if called(list[from], name) && !same_folder(list[from].path, directory, on) {
        Some(list[from].path)
    } else {
        first_other_called(list, name, directory, on, from + 1)
    }
}

/// The list with the favorite for `directory` called `name`, or nothing.
pub open spec fn renamed(
    list: Seq<FavoriteView>,
    directory: Seq<char>,
    name: Option<Seq<char>>,
    on: Platform,
) -> Seq<FavoriteView> {
    list.map_values(
        |f: FavoriteView|
            if same_folder(f.path, directory, on) {
                FavoriteView { name, ..f }
            } else {
                f
            },
    )
}

/// The list without `directory`.
pub open spec fn unpinned(list: Seq<FavoriteView>, directory: Seq<char>, on: Platform) -> Seq<
    FavoriteView,
>
    decreases list.len(),
{
    if list.len() == 0 {
        list
    } else if same_folder(list.last().path, directory, on) {
        unpinned(list.drop_last(), directory, on)
    } else {
        unpinned(list.drop_last(), directory, on).push(list.last())
    }
}

/// Why a list of favorites was left as it is.
#[derive(Debug)]
pub enum PinError {
    Name(NameFault),
    NotADirectory(String),
    /// The name is another favorite's.
    Taken(String, String),
}

impl PinError {
    pub open spec fn says(self) -> Seq<char> {
        match self {
            PinError::Name(NameFault::Empty) => "a favorite's name cannot be empty"@,
            PinError::Name(NameFault::Marked) =>
                "a favorite's name is written without the @; that is added when it is used"@,
            PinError::Name(NameFault::Holds(name)) =>
                "a favorite's name cannot hold spaces or slashes: "@ + name@,
            PinError::NotADirectory(path) => "not a directory: "@ + path@,
            PinError::Taken(name, path) => "@"@ + name@ + " already names "@ + path@,
        }
    }

    pub fn message(&self) -> (text: String)
        ensures
            text@ == self.says(),
    {
        match self {
            PinError::Name(fault) => fault.message(),
            PinError::NotADirectory(path) => joined("not a directory: ", path),
            PinError::Taken(name, path) => joined(
                &joined(&joined("@", name), " already names "),
                path,
            ),
        }
    }
}

/// What came of a change: whether the folder is pinned now, and whether the
/// list is any different and so has to be written.
#[derive(Clone, Copy, Debug, PartialEq, Eq, Structural)]
pub struct Change {
    pub pinned: bool,
    pub written: bool,
}

/// What is asked of `pin`.
#[verifier::ext_equal]
pub struct PinView {
    pub directory: Seq<char>,
    pub is_dir: bool,
    pub wanted: Option<bool>,
    pub name: Option<Seq<char>>,
    pub on: Platform,
}

impl PinView {
    /// Whether the folder is to be pinned once this is done: what is wanted,
    /// or the other way round from what it was.
    pub open spec fn adds(self, list: Seq<FavoriteView>) -> bool {
        match self.wanted {
            Some(wanted) => wanted,
            None => !pinned(list, self.directory, self.on),
        }
    }

    /// Another favorite that has the name asked for.
    pub open spec fn holder(self, list: Seq<FavoriteView>) -> Option<Seq<char>> {
        match self.name {
            Some(name) => first_other_called(list, name, self.directory, self.on, 0),
            None => None,
        }
    }

    /// Whether the list can be changed as asked.
    pub open spec fn allowed(self, list: Seq<FavoriteView>) -> bool {
        &&& self.name matches Some(name) ==> good_name(name)
        &&& self.adds(list) ==> self.is_dir && self.holder(list) is None
    }

    /// Whether there is nothing to do.
    pub open spec fn idle(self, list: Seq<FavoriteView>) -> bool {
        self.adds(list) == pinned(list, self.directory, self.on) && (!self.adds(list)
            || self.name is None)
    }

    /// The list as asked for.
    pub open spec fn outcome(self, list: Seq<FavoriteView>) -> Seq<FavoriteView> {
        if self.idle(list) {
            list
        } else if !self.adds(list) {
            unpinned(list, self.directory, self.on)
        } else if pinned(list, self.directory, self.on) {
            renamed(list, self.directory, self.name, self.on)
        } else {
            list.push(FavoriteView { path: self.directory, name: self.name })
        }
    }
}

fn is_pinned(favorites: &Vec<Favorite>, directory: &str, on: Platform) -> (res: bool)
    ensures
        res == pinned(list_view(favorites@), directory@, on),
{
    let ghost all = list_view(favorites@);
    let mut i: usize = 0;
    while i < favorites.len()
        invariant
            i <= favorites@.len(),
            all == list_view(favorites@),
            forall|k: int|
                0 <= k < i ==> !same_folder((#[trigger] all[k]).path, directory@, on),
        decreases favorites@.len() - i,
    {
        assert(all[i as int] == favorites@[i as int]@);
        if same_path(&favorites[i].path, directory, on) {
            return true;
        }
        i += 1;
    }
    false
}

fn other_called(
    favorites: &Vec<Favorite>,
    name: &str,
    directory: &str,
    on: Platform,
) -> (holder: Option<String>)
    ensures
        holder is Some == first_other_called(list_view(favorites@), name@, directory@, on, 0) is Some,
        holder matches Some(p) ==> first_other_called(
            list_view(favorites@),
            name@,
            directory@,
            on,
            0,
        ) == Some(p@),
{
    let ghost all = list_view(favorites@);
    let mut i: usize = 0;
    while i < favorites.len()
        invariant
            i <= favorites@.len(),
            all == list_view(favorites@),
            first_other_called(all, name@, directory@, on, 0) == first_other_called(
                all,
                name@,
                directory@,
                on,
                i as int,
            ),
        decreases favorites@.len() - i,
    {
        assert(all[i as int] == favorites@[i as int]@);
        if is_called(&favorites[i], name) && !same_path(&favorites[i].path, directory, on) {
            return Some(favorites[i].path.clone());
        }
        i += 1;
    }
    None
}

fn rename(
    favorites: &mut Vec<Favorite>,
    directory: &str,
    name: Option<&str>,
    on: Platform,
)
    ensures
        list_view(final(favorites)@) == renamed(
            list_view(old(favorites)@),
            directory@,
            match name {
                Some(n) => Some(n@),
                None => None,
            },
            on,
        ),
{
    let ghost was = list_view(favorites@);
    let ghost wanted = match name {
        Some(n) => Some(n@),
        None => None,
    };
    let ghost out = renamed(was, directory@, wanted, on);
    let mut i: usize = 0;
    while i < favorites.len()
        invariant
            i <= favorites@.len(),
            favorites@.len() == was.len(),
            wanted == (match name {
                Some(n) => Some(n@),
                None => None,
            }),
            out == renamed(was, directory@, wanted, on),
            forall|k: int| 0 <= k < i ==> #[trigger] favorites@[k]@ == out[k],
            forall|k: int| i <= k < was.len() ==> #[trigger] favorites@[k]@ == was[k],
        decreases favorites@.len() - i,
    {
        assert(favorites@[i as int]@ == was[i as int]);
        if same_path(&favorites[i].path, directory, on) {
            let given = match name {
                Some(n) => Some(n.to_owned()),
                None => None,
            };
            favorites[i].name = given;
        }
        assert(favorites@[i as int]@ == out[i as int]);
        i += 1;
    }
    assert(list_view(favorites@) =~= out);
}

fn unpin(favorites: &mut Vec<Favorite>, directory: &str, on: Platform)
    ensures
        list_view(final(favorites)@) == unpinned(list_view(old(favorites)@), directory@, on),
{
    let ghost was = list_view(favorites@);
    let mut kept: Vec<Favorite> = Vec::new();
    let mut i: usize = 0;
    assert(list_view(kept@) =~= unpinned(was.take(0), directory@, on));
    while i < favorites.len()
        invariant
            i <= favorites@.len(),
            was == list_view(favorites@),
            list_view(kept@) == unpinned(was.take(i as int), directory@, on),
            favorites@ == old(favorites)@,
        decreases favorites@.len() - i,
    {
        assert(was.take(i + 1).drop_last() =~= was.take(i as int));
        assert(was[i as int] == favorites@[i as int]@);
        if !same_path(&favorites[i].path, directory, on) {
            let ghost before = list_view(kept@);
            kept.push(favorites[i].clone());
            assert(list_view(kept@) =~= before.push(was[i as int]));
        }
        i += 1;
    }
    assert(was.take(i as int) =~= was);
    *favorites = kept;
}

/// None toggles membership; Some(true/false) makes add/remove idempotent.
/// `is_dir` says whether the directory is there to be pinned.
pub fn update(
    favorites: &mut Vec<Favorite>,
    directory: &str,
    is_dir: bool,
    wanted: Option<bool>,
    on: Platform,
) -> (res: Result<Change, PinError>)
    ensures
        ({
            let list = list_view(old(favorites)@);
            let asked = PinView { directory: directory@, is_dir, wanted, name: None, on };
            match res {
                Ok(change) => {
                    &&& asked.allowed(list)
                    &&& list_view(final(favorites)@) == asked.outcome(list)
                    &&& change == (Change { pinned: asked.adds(list), written: !asked.idle(list) })
                },
                Err(error) => {
                    &&& !asked.allowed(list)
                    &&& list_view(final(favorites)@) == list
                    &&& error matches PinError::NotADirectory(p) && p@ == directory@
                },
            }
        }),
{
    pin(favorites, directory, is_dir, wanted, None, on)
}

/// `update` with a name for the favorite. Adding a folder that is pinned
/// already gives it the name, so a favorite can be named after the fact.
/// A name in use by another favorite is refused rather than moved.
pub fn pin(
    favorites: &mut Vec<Favorite>,
    directory: &str,
    is_dir: bool,
    wanted: Option<bool>,
    name: Option<&str>,
    on: Platform,
) -> (res: Result<Change, PinError>)
    ensures
        ({
            let list = list_view(old(favorites)@);
            let asked = PinView {
                directory: directory@,
                is_dir,
                wanted,
                name: match name {
                    Some(n) => Some(n@),
                    None => None,
                },
                on,
            };
            match res {
                Ok(change) => {
                    &&& asked.allowed(list)
                    &&& list_view(final(favorites)@) == asked.outcome(list)
                    &&& change == (Change { pinned: asked.adds(list), written: !asked.idle(list) })
                },
                Err(error) => {
                    &&& !asked.allowed(list)
                    &&& list_view(final(favorites)@) == list
                    &&& match error {
                        PinError::Name(_) => asked.name matches Some(n) && !good_name(n),
                        PinError::NotADirectory(p) => p@ == directory@ && !is_dir,
                        PinError::Taken(n, p) => is_dir && asked.name == Some(n@) && asked.holder(
                            list,
                        ) == Some(p@),
                    }
                },
            }
        }),
{
    match name {
        Some(name) => match check_name(name) {
            Ok(()) => {},
            Err(fault) => {
                return Err(PinError::Name(fault));
            },
        },
        None => {},
    }
    let present = is_pinned(favorites, directory, on);
    let add = match wanted {
        Some(wanted) => wanted,
        None => !present,
    };
    if add && !is_dir {
        return Err(PinError::NotADirectory(directory.to_owned()));
    }
    if add {
        match name {
            Some(name) => match other_called(favorites, name, directory, on) {
                Some(holder) => {
                    return Err(PinError::Taken(name.to_owned(), holder));
                },
                None => {},
            },
            None => {},
        }
    }
    if add == present && (!add || name.is_none()) {
        return Ok(Change { pinned: add, written: false });
    }
    if add && present {
        rename(favorites, directory, name, on);
    } else if add {
        let given = match name {
            Some(n) => Some(n.to_owned()),
            None => None,
        };
        let ghost was = list_view(favorites@);
        let favorite = Favorite { path: directory.to_owned(), name: given };
        favorites.push(favorite);
        assert(list_view(favorites@) =~= was.push(favorite@));
    } else {
        unpin(favorites, directory, on);
    }
    Ok(Change { pinned: add, written: true })
}

/// Gives the favorite for `directory` the name, or with None takes its name
/// away; the folder stays pinned. A folder not pinned yet is pinned by a
/// name, and left alone by None.
pub fn set_name(
    favorites: &mut Vec<Favorite>,
    directory: &str,
    is_dir: bool,
    name: Option<&str>,
    on: Platform,
) -> (res: Result<(), PinError>)
    ensures
        ({
            let list = list_view(old(favorites)@);
            match name {
                None => res is Ok && list_view(final(favorites)@) == renamed(
                    list,
                    directory@,
                    None,
                    on,
                ),
                Some(n) => {
                    let asked = PinView {
                        directory: directory@,
                        is_dir,
                        wanted: Some(true),
                        name: Some(n@),
                        on,
                    };
                    &&& res is Ok == asked.allowed(list)
                    &&& res is Ok ==> list_view(final(favorites)@) == asked.outcome(list)
                    &&& res is Err ==> list_view(final(favorites)@) == list
                    &&& res matches Err(error) ==> match error {
                        PinError::Name(_) => !good_name(n@),
                        PinError::NotADirectory(p) => p@ == directory@ && !is_dir,
                        PinError::Taken(m, p) => is_dir && m@ == n@ && asked.holder(list) == Some(
                            p@,
                        ),
                    }
                },
            }
        }),
{
    match name {
        None => {
            rename(favorites, directory, None, on);
            Ok(())
        },
        Some(name) => match pin(favorites, directory, is_dir, Some(true), Some(name), on) {
            Ok(_) => Ok(()),
            Err(error) => Err(error),
        },
    }
}

/// The list once a folder is named as typed, where it can be. A name pins the
/// folder; with nothing typed the name goes, and the folder stays pinned, or is
/// pinned if it was not.
pub open spec fn saved_as(
    list: Seq<FavoriteView>,
    directory: Seq<char>,
    is_dir: bool,
    typed: Seq<char>,
    on: Platform,
) -> Option<Seq<FavoriteView>> {
    let asked = PinView {
        directory,
        is_dir,
        wanted: Some(true),
        name: if typed.len() == 0 {
            None
        } else {
            Some(typed)
        },
        on,
    };
    if typed.len() == 0 && pinned(list, directory, on) {
        Some(renamed(list, directory, None, on))
    } else if asked.allowed(list) {
        Some(asked.outcome(list))
    } else {
        None
    }
}

/// Whether a folder is pinned, and no favorite for it has a name.
pub open spec fn pinned_without_name(
    list: Seq<FavoriteView>,
    directory: Seq<char>,
    on: Platform,
) -> bool {
    &&& pinned(list, directory, on)
    &&& forall|i: int|
        0 <= i < list.len() && same_folder((#[trigger] list[i]).path, directory, on)
            ==> list[i].name is None
}

/// Saves what was typed as the name of a folder. With nothing typed the folder
/// ends up pinned without a name.
pub fn save_name(
    favorites: &mut Vec<Favorite>,
    directory: &str,
    is_dir: bool,
    typed: &str,
    on: Platform,
) -> (res: Result<(), PinError>)
    ensures
        ({
            let list = list_view(old(favorites)@);
            let saved = saved_as(list, directory@, is_dir, typed@, on);
            &&& res is Ok == saved is Some
            &&& saved matches Some(now) ==> list_view(final(favorites)@) == now
            &&& saved is None ==> list_view(final(favorites)@) == list
            &&& res is Ok && typed@.len() == 0 ==> pinned_without_name(
                list_view(final(favorites)@),
                directory@,
                on,
            )
            &&& res matches Err(error) ==> match error {
                PinError::Name(_) => typed@.len() > 0 && !good_name(typed@),
                PinError::NotADirectory(p) => p@ == directory@ && !is_dir,
                PinError::Taken(m, p) => {
                    &&& is_dir && typed@.len() > 0 && m@ == typed@
                    &&& first_other_called(list, typed@, directory@, on, 0) == Some(p@)
                },
            }
        }),
{
    let ghost list = list_view(favorites@);
    if typed.is_empty() {
        proof {
            an_empty_name_leaves_the_folder_pinned(list, directory@, is_dir, typed@, on);
        }
        if is_pinned(favorites, directory, on) {
            return set_name(favorites, directory, is_dir, None, on);
        }
        return match pin(favorites, directory, is_dir, Some(true), None, on) {
            Ok(_) => Ok(()),
            Err(error) => Err(error),
        };
    }
    set_name(favorites, directory, is_dir, Some(typed), on)
}

/// Saving an empty name leaves the folder pinned without a name, and is refused
/// only where the folder is neither pinned nor there.
pub proof fn an_empty_name_leaves_the_folder_pinned(
    list: Seq<FavoriteView>,
    directory: Seq<char>,
    is_dir: bool,
    typed: Seq<char>,
    on: Platform,
)
    requires
        typed.len() == 0,
    ensures
        saved_as(list, directory, is_dir, typed, on) is Some == (is_dir || pinned(
            list,
            directory,
            on,
        )),
        saved_as(list, directory, is_dir, typed, on) matches Some(now) ==> pinned_without_name(
            now,
            directory,
            on,
        ),
{
    if let Some(now) = saved_as(list, directory, is_dir, typed, on) {
        if pinned(list, directory, on) {
            let k = choose|k: int|
                0 <= k < list.len() && same_folder((#[trigger] list[k]).path, directory, on);
            assert(same_folder(now[k].path, directory, on));
        } else {
            assert(same_folder(now[list.len() as int].path, directory, on));
            assert forall|i: int|
                0 <= i < now.len() && same_folder((#[trigger] now[i]).path, directory, on) implies now[i].name
                is None by {
                if i < list.len() {
                    assert(now[i] == list[i]);
                }
            }
        }
    }
}

/// Whether no folder is pinned twice.
pub open spec fn no_folder_twice(list: Seq<FavoriteView>, on: Platform) -> bool {
    forall|i: int, j: int|
        0 <= i < j < list.len() ==> !same_folder(
            (#[trigger] list[i]).path,
            (#[trigger] list[j]).path,
            on,
        )
}

/// Whether no name stands for two favorites.
pub open spec fn no_name_twice(list: Seq<FavoriteView>) -> bool {
    forall|i: int, j: int|
        0 <= i < j < list.len() && (#[trigger] list[i]).name is Some ==> !called(
            #[trigger] list[j],
            list[i].name->Some_0,
        )
}

proof fn unpinned_is_a_part(list: Seq<FavoriteView>, directory: Seq<char>, on: Platform)
    ensures
        unpinned(list, directory, on).len() <= list.len(),
        !pinned(unpinned(list, directory, on), directory, on),
        !pinned(list, directory, on) ==> unpinned(list, directory, on) == list,
        no_folder_twice(list, on) ==> no_folder_twice(unpinned(list, directory, on), on),
        no_name_twice(list) ==> no_name_twice(unpinned(list, directory, on)),
        forall|i: int|
            0 <= i < unpinned(list, directory, on).len() ==> list.contains(
                #[trigger] unpinned(list, directory, on)[i],
            ),
    decreases list.len(),
{
    if list.len() > 0 {
        let before = list.drop_last();
        let out = unpinned(list, directory, on);
        let sub = unpinned(before, directory, on);
        unpinned_is_a_part(before, directory, on);
        if !pinned(list, directory, on) {
            assert forall|i: int| 0 <= i < before.len() implies !same_folder(
                (#[trigger] before[i]).path,
                directory,
                on,
            ) by {
                assert(before[i] == list[i]);
            }
            assert(list.last() == list[list.len() - 1]);
            assert(before.push(list.last()) =~= list);
        }
        assert forall|i: int| 0 <= i < out.len() implies list.contains(#[trigger] out[i]) by {
            if i < sub.len() {
                assert(out[i] == sub[i]);
                assert(before.contains(sub[i]));
                let k = choose|k: int| 0 <= k < before.len() && before[k] == sub[i];
                assert(list[k] == out[i]);
            } else {
                assert(list[list.len() - 1] == out[i]);
            }
        }
        assert forall|i: int| 0 <= i < out.len() implies !same_folder(
            (#[trigger] out[i]).path,
            directory,
            on,
        ) by {
            if i < sub.len() {
                assert(out[i] == sub[i]);
                assert(!pinned(sub, directory, on));
            }
        }
        if no_folder_twice(list, on) {
            assert(no_folder_twice(before, on)) by {
                assert forall|i: int, j: int| 0 <= i < j < before.len() implies !same_folder(
                    (#[trigger] before[i]).path,
                    (#[trigger] before[j]).path,
                    on,
                ) by {
                    assert(before[i] == list[i] && before[j] == list[j]);
                }
            }
            assert forall|i: int, j: int| 0 <= i < j < out.len() implies !same_folder(
                (#[trigger] out[i]).path,
                (#[trigger] out[j]).path,
                on,
            ) by {
                if j < sub.len() {
                    assert(out[i] == sub[i] && out[j] == sub[j]);
                } else {
                    assert(before.contains(sub[i]));
                    let k = choose|k: int| 0 <= k < before.len() && before[k] == sub[i];
                    assert(list[k] == out[i]);
                    assert(list[list.len() - 1] == out[j]);
                }
            }
        }
        if no_name_twice(list) {
            assert(no_name_twice(before)) by {
                assert forall|i: int, j: int|
                    0 <= i < j < before.len() && (#[trigger] before[i]).name is Some implies !called(
                    #[trigger] before[j],
                    before[i].name->Some_0,
                ) by {
                    assert(before[i] == list[i] && before[j] == list[j]);
                }
            }
            assert forall|i: int, j: int|
                0 <= i < j < out.len() && (#[trigger] out[i]).name is Some implies !called(
                #[trigger] out[j],
                out[i].name->Some_0,
            ) by {
                if j < sub.len() {
                    assert(out[i] == sub[i] && out[j] == sub[j]);
                } else {
                    assert(before.contains(sub[i]));
                    let k = choose|k: int| 0 <= k < before.len() && before[k] == sub[i];
                    assert(list[k] == out[i]);
                    assert(list[list.len() - 1] == out[j]);
                }
            }
        }
    }
}

/// A list that holds no folder twice still does not after any change.
pub proof fn pinning_adds_no_folder_twice(list: Seq<FavoriteView>, asked: PinView)
    requires
        no_folder_twice(list, asked.on),
    ensures
        no_folder_twice(asked.outcome(list), asked.on),
{
    unpinned_is_a_part(list, asked.directory, asked.on);
    let out = asked.outcome(list);
    if asked.adds(list) {
        assert forall|i: int, j: int| 0 <= i < j < out.len() implies !same_folder(
            (#[trigger] out[i]).path,
            (#[trigger] out[j]).path,
            asked.on,
        ) by {
            if j < list.len() {
                assert(out[i].path == list[i].path && out[j].path == list[j].path);
            } else {
                assert(!same_folder(list[i].path, asked.directory, asked.on));
            }
        }
    }
}

proof fn no_other_is_called(
    list: Seq<FavoriteView>,
    name: Seq<char>,
    directory: Seq<char>,
    on: Platform,
    from: int,
)
    requires
        0 <= from,
        first_other_called(list, name, directory, on, from) is None,
    ensures
        forall|i: int|
            from <= i < list.len() && called(#[trigger] list[i], name) ==> same_folder(
                list[i].path,
                directory,
                on,
            ),
    decreases list.len() - from,
{
    if from < list.len() {
        no_other_is_called(list, name, directory, on, from + 1);
    }
}

/// A list in which no name stands for two favorites is still such a list after
/// any change that is allowed.
pub proof fn pinning_gives_no_name_twice(list: Seq<FavoriteView>, asked: PinView)
    requires
        no_name_twice(list),
        no_folder_twice(list, asked.on),
        asked.allowed(list),
    ensures
        no_name_twice(asked.outcome(list)),
{
    unpinned_is_a_part(list, asked.directory, asked.on);
    let out = asked.outcome(list);
    let on = asked.on;
    if asked.adds(list) && !asked.idle(list) {
        if asked.name is Some {
            no_other_is_called(list, asked.name->Some_0, asked.directory, on, 0);
        }
        assert forall|i: int, j: int|
            0 <= i < j < out.len() && (#[trigger] out[i]).name is Some implies !called(
            #[trigger] out[j],
            out[i].name->Some_0,
        ) by {
            if called(out[j], out[i].name->Some_0) {
                let (a, b) = (list[i], list[j]);
                if j < list.len() {
                    assert(!same_folder(a.path, b.path, on));
                    if same_folder(a.path, asked.directory, on) {
                        assert(called(b, asked.name->Some_0));
                    } else if same_folder(b.path, asked.directory, on) {
                        same_but_case_is_symmetric(asked.name->Some_0, a.name->Some_0);
                        assert(called(a, asked.name->Some_0));
                    } else {
                        assert(out[i] == a && out[j] == b);
                    }
                } else {
                    assert(out[i] == a);
                    same_but_case_is_symmetric(asked.name->Some_0, a.name->Some_0);
                    assert(called(a, asked.name->Some_0));
                    assert(same_folder(a.path, asked.directory, on));
                }
            }
        }
    }
}

proof fn same_but_case_is_symmetric(a: Seq<char>, b: Seq<char>)
    ensures
        text::same_but_case(a, b) == text::same_but_case(b, a),
{
    if text::same_but_case(a, b) {
        assert forall|i: int| 0 <= i < b.len() implies text::ascii_lower(#[trigger] b[i])
            == text::ascii_lower(a[i]) by {
            assert(text::ascii_lower(a[i]) == text::ascii_lower(b[i]));
        }
    }
    if text::same_but_case(b, a) {
        assert forall|i: int| 0 <= i < a.len() implies text::ascii_lower(#[trigger] a[i])
            == text::ascii_lower(b[i]) by {
            assert(text::ascii_lower(b[i]) == text::ascii_lower(a[i]));
        }
    }
}

/// Asking for the same thing twice is asking for it once.
pub proof fn pinning_twice_is_pinning_once(list: Seq<FavoriteView>, asked: PinView)
    requires
        asked.wanted is Some,
    ensures
        asked.outcome(asked.outcome(list)) == asked.outcome(list),
{
    unpinned_is_a_part(list, asked.directory, asked.on);
    let out = asked.outcome(list);
    if asked.adds(list) && !asked.idle(list) {
        if pinned(list, asked.directory, asked.on) {
            let k = choose|k: int|
                0 <= k < list.len() && same_folder(
                    (#[trigger] list[k]).path,
                    asked.directory,
                    asked.on,
                );
            assert(same_folder(out[k].path, asked.directory, asked.on));
            assert(renamed(out, asked.directory, asked.name, asked.on) =~= out);
        } else {
            assert(same_folder(out[list.len() as int].path, asked.directory, asked.on));
            assert(renamed(out, asked.directory, asked.name, asked.on) =~= out) by {
                assert forall|i: int| 0 <= i < list.len() implies !same_folder(
                    (#[trigger] out[i]).path,
                    asked.directory,
                    asked.on,
                ) by {
                    assert(out[i] == list[i]);
                }
            }
        }
    }
}

/// Pinning a folder by toggling it and toggling it again leaves the list as it
/// was before.
pub proof fn toggling_twice_is_nothing(list: Seq<FavoriteView>, asked: PinView)
    requires
        asked.wanted is None,
        !pinned(list, asked.directory, asked.on),
    ensures
        asked.outcome(asked.outcome(list)) == list,
{
    let out = asked.outcome(list);
    assert(same_folder(out[list.len() as int].path, asked.directory, asked.on));
    assert(out.drop_last() =~= list);
    unpinned_is_a_part(list, asked.directory, asked.on);
}

/// Naming a favorite, or taking its name away, changes no folder of the list.
pub proof fn naming_keeps_the_folders(
    list: Seq<FavoriteView>,
    directory: Seq<char>,
    name: Option<Seq<char>>,
    on: Platform,
)
    ensures
        renamed(list, directory, name, on).len() == list.len(),
        forall|i: int|
            0 <= i < list.len() ==> (#[trigger] renamed(list, directory, name, on)[i]).path
                == list[i].path,
{
}

proof fn first_called_finds(list: Seq<FavoriteView>, name: Seq<char>, from: int)
    requires
        0 <= from <= list.len(),
    ensures
        match first_called(list, name, from) {
            Some(favorite) => exists|i: int|
                from <= i < list.len() && #[trigger] list[i] == favorite && called(favorite, name),
            None => forall|i: int| from <= i < list.len() ==> !called(#[trigger] list[i], name),
        },
    decreases list.len() - from,
{
    if from < list.len() && !called(list[from], name) {
        first_called_finds(list, name, from + 1);
    }
}

proof fn same_but_case_is_transitive(a: Seq<char>, b: Seq<char>, c: Seq<char>)
    requires
        text::same_but_case(a, b),
        text::same_but_case(b, c),
    ensures
        text::same_but_case(a, c),
{
    assert forall|i: int| 0 <= i < a.len() implies text::ascii_lower(#[trigger] a[i])
        == text::ascii_lower(c[i]) by {
        assert(text::ascii_lower(a[i]) == text::ascii_lower(b[i]));
        assert(text::ascii_lower(b[i]) == text::ascii_lower(c[i]));
    }
}

/// A folder just named is where its name leads, in whatever case it is written.
pub proof fn a_name_leads_to_its_folder(
    list: Seq<FavoriteView>,
    asked: PinView,
    written: Seq<char>,
)
    requires
        asked.wanted == Some(true),
        asked.name is Some,
        asked.allowed(list),
        text::same_but_case(asked.name->Some_0, written),
    ensures
        place_named(seq!['@'] + written, asked.outcome(list)) matches Some(path)
            && same_folder(path, asked.directory, asked.on),
{
    let name = asked.name->Some_0;
    let on = asked.on;
    let out = asked.outcome(list);
    no_other_is_called(list, name, asked.directory, on, 0);
    first_called_finds(out, written, 0);
    same_but_case_is_symmetric(name, written);
    assert((seq!['@'] + written).skip(1) =~= written);
    match first_called(out, written, 0) {
        Some(favorite) => {
            let i = choose|i: int| 0 <= i < out.len() && #[trigger] out[i] == favorite;
            same_but_case_is_transitive(favorite.name->Some_0, written, name);
            if i < list.len() {
                assert(called(list[i], name) || same_folder(list[i].path, asked.directory, on));
            }
        },
        None => {
            if pinned(list, asked.directory, on) {
                let k = choose|k: int|
                    0 <= k < list.len() && same_folder(
                        (#[trigger] list[k]).path,
                        asked.directory,
                        on,
                    );
                assert(called(out[k], written));
            } else {
                assert(called(out[list.len() as int], written));
            }
        },
    }
}

/// A folder can be unpinned though it is not there any more, and is then not
/// pinned.
pub proof fn a_folder_that_is_gone_can_be_unpinned(list: Seq<FavoriteView>, asked: PinView)
    requires
        asked.wanted == Some(false),
        asked.name is None,
        !asked.is_dir,
    ensures
        asked.allowed(list),
        !pinned(asked.outcome(list), asked.directory, asked.on),
{
    unpinned_is_a_part(list, asked.directory, asked.on);
}

} // verus!
