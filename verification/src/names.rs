//! What the shell commands are called, and whether those names are already
//! taken by something else on PATH.
//!
//! The short names are the point of the tool, so they stay the default. But a
//! single letter is exactly the kind of name another script already has, and
//! `cf` is the Cloud Foundry command line tool. zoxide faces the same problem
//! with `z` and `zi` and lets `init` choose the names; this follows it.

use vstd::prelude::*;

use crate::fs_path::{FsPath, PathView, Platform};
use crate::text::{
    self, chars_of, ends_with_char, joined, lowercase_of, make_small, same, split_on,
    string_together,
};

verus! {

/// Told to anyone whose names turned out to be taken.
pub const RENAME_HINT: &'static str =
    "Pick another name with --cmd, or keep zoxide's own z and zi with --no-z.";

/// What a generated command does.
///
/// The cmd.exe scripts key their shortcuts off this rather than off the name,
/// so a directory picker renamed from `c` still takes `-` for the directory
/// it came from.
#[derive(Clone, Copy, Debug, PartialEq, Eq, Structural)]
pub enum Role {
    /// Pick a directory under the current one, or `-` for the previous one.
    Dirs,
    /// Pick a file and go to the folder holding it.
    Files,
    /// Pick from the zoxide history.
    Recent,
    /// Go straight to the best zoxide match, or home with no arguments.
    Jump,
}

impl Role {
    /// The picker mode behind the command. `Jump` asks zoxide directly.
    pub fn mode(self) -> (mode: Option<&'static str>)
        ensures
            mode is None == self is Jump,
            mode matches Some(m) ==> m@ == (match self {
                Role::Dirs => "dirs"@,
                Role::Files => "files"@,
                _ => "recent"@,
            }),
    {
        match self {
            Role::Dirs => Some("dirs"),
            Role::Files => Some("files"),
            Role::Recent => Some("recent"),
            Role::Jump => None,
        }
    }

    pub fn summary(self) -> (summary: &'static str)
        ensures
            summary@ == (match self {
                Role::Dirs => "pick a directory under the current one and cd into it"@,
                Role::Files => "pick a file and cd into its directory"@,
                Role::Recent => "pick a directory from the zoxide history"@,
                Role::Jump => "jump to a directory from zoxide"@,
            }),
    {
        match self {
            Role::Dirs => "pick a directory under the current one and cd into it",
            Role::Files => "pick a file and cd into its directory",
            Role::Recent => "pick a directory from the zoxide history",
            Role::Jump => "jump to a directory from zoxide",
        }
    }
}

/// Why names cannot be used.
#[derive(Debug, PartialEq, Eq)]
pub enum NamesError {
    /// Not a name that every shell accepts.
    NotAName(String),
    /// A name that the integration defines for something else.
    Collides(String),
}

/// How `{:?}` writes a text.
pub uninterp spec fn quoted(text: Seq<char>) -> Seq<char>;

/// `format!` with `{:?}` of a string: the text in quotes, with escapes where
/// std puts them. Which characters are escaped is not spelled out.
#[verifier::external_body]
fn quoted_text(text: &str) -> (res: String)
    ensures
        res@ == quoted(text@),
{
    format!("{text:?}")
}

impl NamesError {
    pub open spec fn says(self) -> Seq<char> {
        match self {
            NamesError::NotAName(base) => "--cmd "@ + quoted(base@)
                + ": use letters, digits and underscores, starting with a letter"@,
            NamesError::Collides(base) => "--cmd "@ + base@
                + " would collide with the z and zi this also defines; add --no-z or pick another name"@,
        }
    }

    pub fn message(&self) -> (text: String)
        ensures
            text@ == self.says(),
    {
        match self {
            NamesError::NotAName(base) => {
                let shown = quoted_text(base);
                joined(
                    &joined("--cmd ", &shown),
                    ": use letters, digits and underscores, starting with a letter",
                )
            },
            NamesError::Collides(base) => joined(
                &joined("--cmd ", base),
                " would collide with the z and zi this also defines; add --no-z or pick another name",
            ),
        }
    }
}

/// The names the shell integration defines.
#[derive(Debug, PartialEq, Eq)]
pub struct Names {
    /// The directory picker. The file picker is this with `f` added.
    base: String,
    /// Whether `z` and `zi` are defined. zoxide defines them itself, and
    /// someone who wants zoxide's own versions keeps them by turning this off.
    zoxide: bool,
}

#[verifier::ext_equal]
pub struct NamesView {
    pub base: Seq<char>,
    pub zoxide: bool,
}

impl View for Names {
    type V = NamesView;

    closed spec fn view(&self) -> NamesView {
        NamesView { base: self.base@, zoxide: self.zoxide }
    }
}

pub open spec fn alphabetic(c: char) -> bool {
    'a' <= c <= 'z' || 'A' <= c <= 'Z'
}

pub open spec fn word_char(c: char) -> bool {
    alphabetic(c) || '0' <= c <= '9' || c == '_'
}

/// Letters, digits and underscores, starting with a letter, are the names
/// every one of PowerShell, bash and cmd.exe file names accept.
pub open spec fn suits_every_shell(base: Seq<char>) -> bool {
    &&& base.len() > 0
    &&& alphabetic(base[0])
    &&& forall|i: int| 1 <= i < base.len() ==> word_char(#[trigger] base[i])
}

impl NamesView {
    /// Whether these can be the names of an integration.
    pub open spec fn valid(self) -> bool {
        &&& suits_every_shell(self.base)
        &&& self.zoxide ==> self.base != "z"@ && self.base != "zi"@
    }

    /// Every command, with what it does, in the order they are written out.
    pub open spec fn commands(self) -> Seq<(Seq<char>, Role)> {
        let pickers = seq![(self.base, Role::Dirs), (self.base.push('f'), Role::Files)];
        if self.zoxide {
            pickers + seq![("zi"@, Role::Recent), ("z"@, Role::Jump)]
        } else {
            pickers
        }
    }

    /// The flags that give these names again.
    pub open spec fn flags(self) -> Seq<char> {
        let cmd = if self.base == "c"@ {
            Seq::empty()
        } else {
            " --cmd "@ + self.base
        };
        if self.zoxide {
            cmd
        } else {
            cmd + " --no-z"@
        }
    }
}

pub open spec fn commands_view(commands: Seq<(String, Role)>) -> Seq<(Seq<char>, Role)> {
    commands.map_values(|c: (String, Role)| (c.0@, c.1))
}

pub open spec fn command_names(commands: Seq<(Seq<char>, Role)>) -> Seq<Seq<char>> {
    commands.map_values(|c: (Seq<char>, Role)| c.0)
}

impl Default for Names {
    fn default() -> (names: Self)
        ensures
            names@ == (NamesView { base: "c"@, zoxide: true }),
            names@.valid(),
    {
        proof {
            reveal_strlit("c");
            reveal_strlit("z");
            reveal_strlit("zi");
        }
        assert("c"@[0] != "z"@[0] && "c"@[0] != "zi"@[0]);
        Names { base: "c".to_owned(), zoxide: true }
    }
}

fn is_alphabetic(c: char) -> (res: bool)
    ensures
        res == alphabetic(c),
{
    ('a' <= c && c <= 'z') || ('A' <= c && c <= 'Z')
}

fn is_shell_name(base: &str) -> (res: bool)
    ensures
        res == suits_every_shell(base@),
{
    let chars = chars_of(base);
    if chars.len() == 0 || !is_alphabetic(chars[0]) {
        return false;
    }
    let mut i: usize = 1;
    while i < chars.len()
        invariant
            1 <= i <= chars@.len(),
            chars@ == base@,
            forall|k: int| 1 <= k < i ==> word_char(#[trigger] base@[k]),
        decreases chars@.len() - i,
    {
        let c: char = chars[i];
        if !(is_alphabetic(c) || ('0' <= c && c <= '9') || c == '_') {
            assert(!word_char(base@[i as int]));
            return false;
        }
        i += 1;
    }
    true
}

impl Names {
    pub fn new(base: Option<String>, no_z: bool) -> (res: Result<Names, NamesError>)
        ensures
            ({
                let wanted = NamesView {
                    base: match base {
                        Some(b) => b@,
                        None => "c"@,
                    },
                    zoxide: !no_z,
                };
                match res {
                    Ok(names) => names@ == wanted && wanted.valid(),
                    Err(NamesError::NotAName(b)) => b@ == wanted.base && !suits_every_shell(
                        wanted.base,
                    ),
                    Err(NamesError::Collides(b)) => b@ == wanted.base && suits_every_shell(
                        wanted.base,
                    ) && !wanted.valid(),
                }
            }),
    {
        let base = match base {
            Some(base) => base,
            None => "c".to_owned(),
        };
        if !is_shell_name(&base) {
            return Err(NamesError::NotAName(base));
        }
        if !no_z && (same(&base, "z") || same(&base, "zi")) {
            return Err(NamesError::Collides(base));
        }
        Ok(Names { base, zoxide: !no_z })
    }

    /// Whether `z` and `zi` are part of the integration.
    pub fn zoxide(&self) -> (res: bool)
        ensures
            res == self@.zoxide,
    {
        self.zoxide
    }

    /// Every command, with what it does, in the order they are written out.
    pub fn commands(&self) -> (commands: Vec<(String, Role)>)
        ensures
            commands_view(commands@) == self@.commands(),
    {
        let mut commands: Vec<(String, Role)> = Vec::new();
        let mut files = self.base.clone();
        files.push('f');
        commands.push((self.base.clone(), Role::Dirs));
        commands.push((files, Role::Files));
        if self.zoxide {
            commands.push(("zi".to_owned(), Role::Recent));
            commands.push(("z".to_owned(), Role::Jump));
        }
        assert(commands_view(commands@) =~= self@.commands());
        commands
    }

    /// The names as a short list for a comment, such as `c / cf / zi / z`.
    pub fn listing(&self) -> (listing: String)
        ensures
            listing@ == text::strung(command_names(self@.commands()), " / "@),
    {
        let commands = self.commands();
        let mut names: Vec<String> = Vec::new();
        let mut i: usize = 0;
        while i < commands.len()
            invariant
                i <= commands@.len(),
                names@.len() == i,
                forall|k: int| 0 <= k < i ==> #[trigger] names@[k]@ == commands@[k].0@,
            decreases commands@.len() - i,
        {
            names.push(commands[i].0.clone());
            i += 1;
        }
        proof {
            let shown = command_names(commands_view(commands@));
            assert(text::views(names@).take(names@.len() as int) =~= shown);
        }
        string_together(&names, names.len(), " / ")
    }

    /// The flags that give these names again, for a line that calls `init`.
    /// Empty for the defaults, so an unchanged setup writes the same line.
    pub fn flags(&self) -> (flags: String)
        ensures
            flags@ == self@.flags(),
    {
        let mut flags = String::new();
        if !same(&self.base, "c") {
            flags.push_str(" --cmd ");
            flags.push_str(&self.base);
        }
        if !self.zoxide {
            flags.push_str(" --no-z");
        }
        assert(flags@ =~= self@.flags());
        flags
    }
}

/// Nothing is written for the defaults, and something for any other names.
pub proof fn defaults_have_no_flags(names: NamesView)
    ensures
        names.flags() == Seq::<char>::empty() <==> names.base == "c"@ && names.zoxide,
{
    reveal_strlit(" --cmd ");
    reveal_strlit(" --no-z");
    if names.base != "c"@ || !names.zoxide {
        assert(names.flags().len() >= 7);
    }
}

/// The flags give the names back: no two sets of names share their flags.
pub proof fn flags_tell_names_apart(a: NamesView, b: NamesView)
    requires
        a.valid(),
        b.valid(),
        a.flags() == b.flags(),
    ensures
        a == b,
{
    reveal_strlit(" --cmd ");
    reveal_strlit(" --no-z");
    reveal_strlit("c");
    let (fa, fb) = (a.flags(), b.flags());
    let named_a = a.base != "c"@;
    let named_b = b.base != "c"@;
    if named_a {
        assert(fa[3] == 'c');
    }
    if named_b {
        assert(fb[3] == 'c');
    }
    if !named_a && !a.zoxide {
        assert(fa[3] == 'n');
    }
    if !named_b && !b.zoxide {
        assert(fb[3] == 'n');
    }
    assert(named_a == named_b);
    if named_a {
        let (n, m) = (a.base.len() as int, b.base.len() as int);
        assert forall|i: int| 0 <= i < n implies a.base[i] == #[trigger] fa[i + 7] by {}
        assert forall|i: int| 0 <= i < m implies b.base[i] == #[trigger] fb[i + 7] by {}
        if !a.zoxide {
            assert(fa[n + 7] == ' ');
        }
        if !b.zoxide {
            assert(fb[m + 7] == ' ');
        }
        if n < m {
            assert(b.base[n] == fb[n + 7]);
            assert(word_char(b.base[n]));
        }
        if m < n {
            assert(a.base[m] == fa[m + 7]);
            assert(word_char(a.base[m]));
        }
        assert(n == m);
        assert(a.base =~= b.base) by {
            assert forall|i: int| 0 <= i < n implies a.base[i] == b.base[i] by {
                assert(fa[i + 7] == fb[i + 7]);
            }
        }
        assert(a.zoxide == b.zoxide) by {
            assert(fa.len() == fb.len());
        }
    }
}

/// Another program on PATH that answers to one of the names.
#[derive(Debug)]
pub struct Taken {
    pub name: String,
    pub path: FsPath,
    /// Whether it sits in a folder earlier on PATH than the generated
    /// scripts, and so is found first. `None` when their folder is not on
    /// PATH at all.
    pub first: Option<bool>,
}

#[verifier::ext_equal]
pub struct TakenView {
    pub name: Seq<char>,
    pub path: PathView,
    pub first: Option<bool>,
}

impl View for Taken {
    type V = TakenView;

    open spec fn view(&self) -> TakenView {
        TakenView { name: self.name@, path: self.path@, first: self.first }
    }
}

/// `text` with spaces after it up to `width` characters.
pub open spec fn padded(text: Seq<char>, width: nat) -> Seq<char>
    decreases width - text.len(),
{
    if text.len() >= width {
        text
    } else {
        padded(text.push(' '), width)
    }
}

impl Taken {
    /// One line for scripts written into `dir` with the extension `ext`.
    pub fn for_scripts(&self, dir: &FsPath, ext: &str, on: Platform) -> (line: String)
        ensures
            ({
                let theirs = self@.path.text(on);
                let ours = dir@.join(self@.name + ext@, on).text(on);
                line@ == "  "@ + self@.name + ": "@ + theirs + match self.first {
                    Some(true) => " comes earlier on PATH, so it is found before "@ + ours,
                    Some(false) => " is also on PATH; "@ + ours + " comes earlier and hides it"@,
                    None => " is on PATH and "@ + dir@.text(on) + " is not, so "@ + self@.name
                        + " still finds that one"@,
                }
            }),
    {
        let ours = dir.join(&joined(&self.name, ext), on).text(on);
        let theirs = self.path.text(on);
        let mut line = String::new();
        line.push_str("  ");
        line.push_str(&self.name);
        line.push_str(": ");
        line.push_str(&theirs);
        match self.first {
            Some(true) => {
                line.push_str(" comes earlier on PATH, so it is found before ");
                line.push_str(&ours);
            },
            Some(false) => {
                line.push_str(" is also on PATH; ");
                line.push_str(&ours);
                line.push_str(" comes earlier and hides it");
            },
            None => {
                line.push_str(" is on PATH and ");
                line.push_str(&dir.text(on));
                line.push_str(" is not, so ");
                line.push_str(&self.name);
                line.push_str(" still finds that one");
            },
        }
        proof {
            let ghost_theirs = self@.path.text(on);
            let ghost_ours = dir@.join(self@.name + ext@, on).text(on);
            assert(line@ =~= "  "@ + self@.name + ": "@ + ghost_theirs + match self.first {
                Some(true) => " comes earlier on PATH, so it is found before "@ + ghost_ours,
                Some(false) => " is also on PATH; "@ + ghost_ours + " comes earlier and hides it"@,
                None => " is on PATH and "@ + dir@.text(on) + " is not, so "@ + self@.name
                    + " still finds that one"@,
            });
        }
        line
    }

    /// One line for a name defined as a shell function.
    pub fn for_functions(&self, on: Platform) -> (line: String)
        ensures
            line@ == "    "@ + padded(self@.name, 3) + " "@ + self@.path.text(on),
    {
        let mut name = self.name.clone();
        while name.unicode_len() < 3
            invariant
                padded(self@.name, 3) == padded(name@, 3),
            decreases 3 - name@.len(),
        {
            name.push(' ');
        }
        let mut line = String::new();
        line.push_str("    ");
        line.push_str(&name);
        line.push_str(" ");
        line.push_str(&self.path.text(on));
        assert(line@ =~= "    "@ + padded(self@.name, 3) + " "@ + self@.path.text(on));
        line
    }
}

/// A folder on PATH: whether it is one of those not to look in, and which of
/// the commands it holds a program for, in the commands' order.
#[derive(Debug)]
pub struct PathDir {
    pub skip: bool,
    pub programs: Vec<Option<FsPath>>,
}

pub open spec fn program_in(dir: PathDir, command: int) -> Option<PathView> {
    if dir.skip || command >= dir.programs@.len() {
        None
    } else {
        match dir.programs@[command] {
            Some(file) => Some(file@),
            None => None,
        }
    }
}

/// The first folder, from the one at `from` on, with a program for a command.
pub open spec fn first_with(dirs: Seq<PathDir>, command: int, from: int) -> Option<int>
    decreases dirs.len() - from,
{
    if from >= dirs.len() {
        None
    } else if program_in(dirs[from], command) is Some {
        Some(from)
    } else {
        first_with(dirs, command, from + 1)
    }
}

/// The programs that answer to the first `n` commands.
pub open spec fn taken_for(
    commands: Seq<(Seq<char>, Role)>,
    n: int,
    dirs: Seq<PathDir>,
    ours: Option<usize>,
) -> Seq<TakenView>
    decreases n,
{
    if n <= 0 {
        Seq::empty()
    } else {
        let before = taken_for(commands, n - 1, dirs, ours);
        match first_with(dirs, n - 1, 0) {
            Some(at) => before.push(
                TakenView {
                    name: commands[n - 1].0,
                    path: program_in(dirs[at], n - 1)->Some_0,
                    first: match ours {
                        Some(o) => Some(at < o),
                        None => None,
                    },
                },
            ),
            None => before,
        }
    }
}

pub open spec fn takens_view(taken: Seq<Taken>) -> Seq<TakenView> {
    taken.map_values(|t: Taken| t@)
}

/// The programs on PATH that share a name with the integration: for each
/// command the first one found, with whether it comes before the folder the
/// new scripts are in, which is at `ours` on PATH.
pub fn taken_in(names: &Names, dirs: &Vec<PathDir>, ours: Option<usize>) -> (found: Vec<Taken>)
    ensures
        takens_view(found@) == taken_for(
            names@.commands(),
            names@.commands().len() as int,
            dirs@,
            ours,
        ),
{
    let commands = names.commands();
    let ghost all = names@.commands();
    let mut found: Vec<Taken> = Vec::new();
    let mut n: usize = 0;
    assert(takens_view(found@) =~= taken_for(all, 0, dirs@, ours));
    while n < commands.len()
        invariant
            n <= commands@.len(),
            all == commands_view(commands@),
            takens_view(found@) == taken_for(all, n as int, dirs@, ours),
        decreases commands@.len() - n,
    {
        assert(all[n as int].0 == commands@[n as int].0@);
        let ghost was = takens_view(found@);
        let mut i: usize = 0;
        while i < dirs.len()
            invariant_except_break
                takens_view(found@) == was,
                first_with(dirs@, n as int, 0) == first_with(dirs@, n as int, i as int),
            invariant
                i <= dirs@.len(),
                n < commands@.len(),
                all == commands_view(commands@),
                all[n as int].0 == commands@[n as int].0@,
                was == taken_for(all, n as int, dirs@, ours),
            ensures
                takens_view(found@) == taken_for(all, n + 1, dirs@, ours),
            decreases dirs@.len() - i,
        {
            let dir: &PathDir = &dirs[i];
            if !dir.skip && n < dir.programs.len() {
                match &dir.programs[n] {
                    Some(file) => {
                        let first = match ours {
                            Some(ours) => Some(i < ours),
                            None => None,
                        };
                        found.push(
                            Taken { name: commands[n].0.clone(), path: file.clone(), first },
                        );
                        assert(takens_view(found@) =~= was.push(found@.last()@));
                        assert(takens_view(found@) =~= taken_for(all, n + 1, dirs@, ours));
                        break;
                    },
                    None => {},
                }
            }
            i += 1;
        }
        n += 1;
    }
    found
}

/// The extensions a program can have, from what PATHEXT holds: each in small
/// letters, and `.ps1` after them where it is not among them, since PowerShell
/// also runs a script it finds on PATH.
pub open spec fn extensions(pathext: Option<Seq<char>>) -> Seq<Seq<char>> {
    let listed = match pathext {
        Some(list) => filled(text::parts(list, ';')),
        None => seq![".com"@, ".exe"@, ".bat"@, ".cmd"@],
    };
    if listed.contains(".ps1"@) {
        listed
    } else {
        listed.push(".ps1"@)
    }
}

/// The parts that hold something, in small letters.
pub open spec fn filled(parts: Seq<Seq<char>>) -> Seq<Seq<char>>
    decreases parts.len(),
{
    if parts.len() == 0 {
        Seq::empty()
    } else if parts.last().len() == 0 {
        filled(parts.drop_last())
    } else {
        filled(parts.drop_last()).push(text::small(parts.last()))
    }
}

/// The files that would answer to `name`, in the order they are looked for.
pub open spec fn program_files(
    name: Seq<char>,
    pathext: Option<Seq<char>>,
    on: Platform,
) -> Seq<Seq<char>> {
    match on {
        Platform::Unix => seq![name],
        Platform::Windows => extensions(pathext).map_values(|ext: Seq<char>| name + ext),
    }
}

fn holds(texts: &Vec<String>, wanted: &str) -> (res: bool)
    ensures
        res == text::views(texts@).contains(wanted@),
{
    let mut i: usize = 0;
    while i < texts.len()
        invariant
            i <= texts@.len(),
            forall|k: int| 0 <= k < i ==> #[trigger] texts@[k]@ != wanted@,
        decreases texts@.len() - i,
    {
        if same(&texts[i], wanted) {
            assert(text::views(texts@)[i as int] == wanted@);
            return true;
        }
        i += 1;
    }
    assert forall|k: int| 0 <= k < texts@.len() implies text::views(texts@)[k] != wanted@ by {
        assert(texts@[k]@ != wanted@);
    }
    false
}

/// The names of the files that would answer to `name`, in the order they are
/// looked for in a folder on PATH.
pub fn executable(name: &str, pathext: Option<&str>, on: Platform) -> (files: Vec<String>)
    ensures
        text::views(files@) == program_files(
            name@,
            match pathext {
                Some(list) => Some(list@),
                None => None,
            },
            on,
        ),
{
    let mut files: Vec<String> = Vec::new();
    if on == Platform::Unix {
        files.push(name.to_owned());
        assert(text::views(files@) =~= seq![name@]);
        return files;
    }
    let mut exts: Vec<String> = Vec::new();
    match pathext {
        Some(list) => {
            let pieces = split_on(list, ';');
            let ghost all = text::views(pieces@);
            let mut i: usize = 0;
            assert(text::views(exts@) =~= filled(all.take(0)));
            while i < pieces.len()
                invariant
                    i <= pieces@.len(),
                    all == text::views(pieces@),
                    text::views(exts@) == filled(all.take(i as int)),
                decreases pieces@.len() - i,
            {
                assert(all.take(i + 1).drop_last() =~= all.take(i as int));
                assert(all[i as int] == pieces@[i as int]@);
                if !pieces[i].is_empty() {
                    let ghost was = text::views(exts@);
                    exts.push(make_small(&pieces[i]));
                    assert(text::views(exts@) =~= was.push(text::small(all[i as int])));
                }
                i += 1;
            }
            assert(all.take(i as int) =~= all);
        },
        None => {
            exts.push(".com".to_owned());
            exts.push(".exe".to_owned());
            exts.push(".bat".to_owned());
            exts.push(".cmd".to_owned());
            assert(text::views(exts@) =~= seq![".com"@, ".exe"@, ".bat"@, ".cmd"@]);
        },
    }
    if !holds(&exts, ".ps1") {
        let ghost was = text::views(exts@);
        exts.push(".ps1".to_owned());
        assert(text::views(exts@) =~= was.push(".ps1"@));
    }
    let ghost all = text::views(exts@);
    let mut i: usize = 0;
    while i < exts.len()
        invariant
            i <= exts@.len(),
            files@.len() == i,
            forall|k: int| 0 <= k < i ==> #[trigger] files@[k]@ == name@ + exts@[k]@,
        decreases exts@.len() - i,
    {
        files.push(joined(name, &exts[i]));
        i += 1;
    }
    assert(text::views(files@) =~= all.map_values(|ext: Seq<char>| name@ + ext));
    files
}

/// Whether two folders are written the same way: separators at the end do not
/// count, nor does case on Windows.
pub open spec fn spelled_alike(a: Seq<char>, b: Seq<char>, on: Platform) -> bool {
    spelling(a, on) == spelling(b, on)
}

pub open spec fn spelling(dir: Seq<char>, on: Platform) -> Seq<char> {
    let bare = without_slashes(dir);
    match on {
        Platform::Unix => bare,
        Platform::Windows => text::lowercase(bare),
    }
}

pub open spec fn without_slashes(dir: Seq<char>) -> Seq<char>
    decreases dir.len(),
{
    if text::ends_in(dir, '/') || text::ends_in(dir, '\\') {
        without_slashes(dir.drop_last())
    } else {
        dir
    }
}

fn spelled(dir: &str, on: Platform) -> (res: String)
    ensures
        res@ == spelling(dir@, on),
{
    let mut bare = dir.to_owned();
    while ends_with_char(&bare, '/') || ends_with_char(&bare, '\\')
        invariant
            without_slashes(dir@) == without_slashes(bare@),
        ensures
            without_slashes(dir@) == without_slashes(bare@),
            !text::ends_in(bare@, '/') && !text::ends_in(bare@, '\\'),
        decreases bare@.len(),
    {
        bare.pop();
    }
    match on {
        Platform::Unix => bare,
        Platform::Windows => lowercase_of(&bare),
    }
}

/// Whether two folders are the same one: by where they really are, when both
/// could be resolved, and by how they are written otherwise.
pub fn same_dir(
    a: &str,
    b: &str,
    resolved_a: &Option<FsPath>,
    resolved_b: &Option<FsPath>,
    on: Platform,
) -> (res: bool)
    ensures
        res == (match (resolved_a, resolved_b) {
            (Some(x), Some(y)) => x@ == y@,
            _ => spelled_alike(a@, b@, on),
        }),
{
    match resolved_a {
        Some(x) => match resolved_b {
            Some(y) => {
                return x.is(y);
            },
            None => {},
        },
        None => {},
    }
    same(&spelled(a, on), &spelled(b, on))
}

} // verus!
