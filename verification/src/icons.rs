//! The icons in front of names, from the Nerd Font glyphs, each with a space
//! after it, and what they are coloured by.

use vstd::prelude::*;

use crate::text::{self, chars_of, same, same_ignoring_case, string_of};

verus! {

/// In front of the folder a listing is inside.
pub const OPEN_FOLDER: &'static str = "\u{f07c} ";

pub const FOLDER: &'static str = "\u{f07b} ";

/// In front of a file of no kind that has an icon of its own.
pub const FILE: &'static str = "\u{f15b} ";

/// In front of a favorite, with or without the glyphs.
pub const STAR: &'static str = "★ ";

pub const SHEET: &'static str = "\u{f1c3} ";

pub const TABLE: &'static str = "\u{f0ce} ";

pub const WORD: &'static str = "\u{f1c2} ";

pub const SLIDES: &'static str = "\u{f1c4} ";

pub const PDF: &'static str = "\u{f1c1} ";

pub const CONFIG: &'static str = "\u{f013} ";

pub const DATABASE: &'static str = "\u{f1c0} ";

pub const IMAGE: &'static str = "\u{f1c5} ";

pub const AUDIO: &'static str = "\u{f1c7} ";

pub const VIDEO: &'static str = "\u{f1c8} ";

pub const ARCHIVE: &'static str = "\u{f1c6} ";

/// What an icon stands for.
#[derive(Clone, Copy, Debug, PartialEq, Eq, Structural)]
pub enum Kind {
    /// A favorite.
    Star,
    Folder,
    /// A spreadsheet.
    Sheet,
    /// A table in plain text.
    Table,
    /// A document of a word processor.
    Word,
    /// A presentation.
    Slides,
    Pdf,
    /// A file of settings.
    Config,
    Database,
    Image,
    Audio,
    Video,
    Archive,
    /// Any other file.
    File,
}

/// Where the last name of a path starts: past its last slash of either kind.
pub open spec fn name_start(path: Seq<char>, end: int) -> int
    decreases end,
{
    if end <= 0 {
        0
    } else if path[end - 1] == '/' || path[end - 1] == '\\' {
        end
    } else {
        name_start(path, end - 1)
    }
}

/// The last dot at or after `from` and before `end`, or `from` where there is
/// none.
pub open spec fn last_dot(path: Seq<char>, from: int, end: int) -> int
    decreases end - from,
{
    if end <= from {
        from
    } else if path[end - 1] == '.' {
        end - 1
    } else {
        last_dot(path, from, end - 1)
    }
}

/// What follows the last dot of a name, unless the name starts with that dot.
pub open spec fn extension(path: Seq<char>) -> Seq<char> {
    let from = name_start(path, path.len() as int);
    let dot = last_dot(path, from, path.len() as int);
    if dot == from {
        Seq::empty()
    } else {
        path.skip(dot + 1)
    }
}

fn extension_of(path: &str) -> (ext: String)
    ensures
        ext@ == extension(path@),
{
    let chars = chars_of(path);
    let mut from: usize = chars.len();
    while from > 0 && chars[from - 1] != '/' && chars[from - 1] != '\\'
        invariant
            from <= chars@.len(),
            name_start(chars@, chars@.len() as int) == name_start(chars@, from as int),
        decreases from,
    {
        from -= 1;
    }
    let mut dot: usize = chars.len();
    while dot > from && chars[dot - 1] != '.'
        invariant
            from <= dot <= chars@.len(),
            last_dot(chars@, from as int, chars@.len() as int) == last_dot(
                chars@,
                from as int,
                dot as int,
            ),
        decreases dot,
    {
        dot -= 1;
    }
    if dot <= from || dot - 1 == from {
        let none = String::new();
        assert(none@ =~= extension(path@));
        none
    } else {
        let ext = string_of(&chars, dot, chars.len());
        assert(ext@ =~= extension(path@));
        ext
    }
}

/// Whether that is an extension of a spreadsheet.
pub open spec fn names_sheet(ext: Seq<char>) -> bool {
    ||| text::same_but_case(ext, "xlsx"@)
    ||| text::same_but_case(ext, "xlsm"@)
    ||| text::same_but_case(ext, "xlsb"@)
    ||| text::same_but_case(ext, "xls"@)
    ||| text::same_but_case(ext, "xltx"@)
    ||| text::same_but_case(ext, "xltm"@)
    ||| text::same_but_case(ext, "ods"@)
}

fn is_sheet(ext: &str) -> (res: bool)
    ensures
        res == names_sheet(ext@),
{
    same_ignoring_case(ext, "xlsx")
        || same_ignoring_case(ext, "xlsm")
        || same_ignoring_case(ext, "xlsb")
        || same_ignoring_case(ext, "xls")
        || same_ignoring_case(ext, "xltx")
        || same_ignoring_case(ext, "xltm")
        || same_ignoring_case(ext, "ods")
}

/// Whether that is an extension of a table in plain text.
pub open spec fn names_table(ext: Seq<char>) -> bool {
    ||| text::same_but_case(ext, "csv"@)
    ||| text::same_but_case(ext, "tsv"@)
}

fn is_table(ext: &str) -> (res: bool)
    ensures
        res == names_table(ext@),
{
    same_ignoring_case(ext, "csv")
        || same_ignoring_case(ext, "tsv")
}

/// Whether that is an extension of a word processor.
pub open spec fn names_word(ext: Seq<char>) -> bool {
    ||| text::same_but_case(ext, "docx"@)
    ||| text::same_but_case(ext, "docm"@)
    ||| text::same_but_case(ext, "doc"@)
    ||| text::same_but_case(ext, "dotx"@)
    ||| text::same_but_case(ext, "dot"@)
    ||| text::same_but_case(ext, "odt"@)
    ||| text::same_but_case(ext, "rtf"@)
}

fn is_word(ext: &str) -> (res: bool)
    ensures
        res == names_word(ext@),
{
    same_ignoring_case(ext, "docx")
        || same_ignoring_case(ext, "docm")
        || same_ignoring_case(ext, "doc")
        || same_ignoring_case(ext, "dotx")
        || same_ignoring_case(ext, "dot")
        || same_ignoring_case(ext, "odt")
        || same_ignoring_case(ext, "rtf")
}

/// Whether that is an extension of a presentation.
pub open spec fn names_slides(ext: Seq<char>) -> bool {
    ||| text::same_but_case(ext, "pptx"@)
    ||| text::same_but_case(ext, "pptm"@)
    ||| text::same_but_case(ext, "ppt"@)
    ||| text::same_but_case(ext, "ppsx"@)
    ||| text::same_but_case(ext, "pps"@)
    ||| text::same_but_case(ext, "potx"@)
    ||| text::same_but_case(ext, "odp"@)
}

fn is_slides(ext: &str) -> (res: bool)
    ensures
        res == names_slides(ext@),
{
    same_ignoring_case(ext, "pptx")
        || same_ignoring_case(ext, "pptm")
        || same_ignoring_case(ext, "ppt")
        || same_ignoring_case(ext, "ppsx")
        || same_ignoring_case(ext, "pps")
        || same_ignoring_case(ext, "potx")
        || same_ignoring_case(ext, "odp")
}

/// Whether that is an extension of a PDF.
pub open spec fn names_pdf(ext: Seq<char>) -> bool {
    ||| text::same_but_case(ext, "pdf"@)
}

fn is_pdf(ext: &str) -> (res: bool)
    ensures
        res == names_pdf(ext@),
{
    same_ignoring_case(ext, "pdf")
}

/// Whether that is an extension of a file of settings.
pub open spec fn names_config(ext: Seq<char>) -> bool {
    ||| text::same_but_case(ext, "toml"@)
    ||| text::same_but_case(ext, "yaml"@)
    ||| text::same_but_case(ext, "yml"@)
    ||| text::same_but_case(ext, "json"@)
    ||| text::same_but_case(ext, "ini"@)
    ||| text::same_but_case(ext, "cfg"@)
    ||| text::same_but_case(ext, "conf"@)
    ||| text::same_but_case(ext, "xml"@)
}

fn is_config(ext: &str) -> (res: bool)
    ensures
        res == names_config(ext@),
{
    same_ignoring_case(ext, "toml")
        || same_ignoring_case(ext, "yaml")
        || same_ignoring_case(ext, "yml")
        || same_ignoring_case(ext, "json")
        || same_ignoring_case(ext, "ini")
        || same_ignoring_case(ext, "cfg")
        || same_ignoring_case(ext, "conf")
        || same_ignoring_case(ext, "xml")
}

/// Whether that is an extension of a database.
pub open spec fn names_database(ext: Seq<char>) -> bool {
    ||| text::same_but_case(ext, "db"@)
    ||| text::same_but_case(ext, "sqlite"@)
    ||| text::same_but_case(ext, "sqlite3"@)
    ||| text::same_but_case(ext, "mdb"@)
    ||| text::same_but_case(ext, "accdb"@)
    ||| text::same_but_case(ext, "sql"@)
}

fn is_database(ext: &str) -> (res: bool)
    ensures
        res == names_database(ext@),
{
    same_ignoring_case(ext, "db")
        || same_ignoring_case(ext, "sqlite")
        || same_ignoring_case(ext, "sqlite3")
        || same_ignoring_case(ext, "mdb")
        || same_ignoring_case(ext, "accdb")
        || same_ignoring_case(ext, "sql")
}

/// Whether that is an extension of an image.
pub open spec fn names_image(ext: Seq<char>) -> bool {
    ||| text::same_but_case(ext, "png"@)
    ||| text::same_but_case(ext, "jpg"@)
    ||| text::same_but_case(ext, "jpeg"@)
    ||| text::same_but_case(ext, "gif"@)
    ||| text::same_but_case(ext, "bmp"@)
    ||| text::same_but_case(ext, "webp"@)
    ||| text::same_but_case(ext, "svg"@)
    ||| text::same_but_case(ext, "ico"@)
    ||| text::same_but_case(ext, "tif"@)
    ||| text::same_but_case(ext, "tiff"@)
}

fn is_image(ext: &str) -> (res: bool)
    ensures
        res == names_image(ext@),
{
    same_ignoring_case(ext, "png")
        || same_ignoring_case(ext, "jpg")
        || same_ignoring_case(ext, "jpeg")
        || same_ignoring_case(ext, "gif")
        || same_ignoring_case(ext, "bmp")
        || same_ignoring_case(ext, "webp")
        || same_ignoring_case(ext, "svg")
        || same_ignoring_case(ext, "ico")
        || same_ignoring_case(ext, "tif")
        || same_ignoring_case(ext, "tiff")
}

/// Whether that is an extension of a recording.
pub open spec fn names_audio(ext: Seq<char>) -> bool {
    ||| text::same_but_case(ext, "mp3"@)
    ||| text::same_but_case(ext, "wav"@)
    ||| text::same_but_case(ext, "flac"@)
    ||| text::same_but_case(ext, "ogg"@)
    ||| text::same_but_case(ext, "m4a"@)
    ||| text::same_but_case(ext, "aac"@)
    ||| text::same_but_case(ext, "wma"@)
}

fn is_audio(ext: &str) -> (res: bool)
    ensures
        res == names_audio(ext@),
{
    same_ignoring_case(ext, "mp3")
        || same_ignoring_case(ext, "wav")
        || same_ignoring_case(ext, "flac")
        || same_ignoring_case(ext, "ogg")
        || same_ignoring_case(ext, "m4a")
        || same_ignoring_case(ext, "aac")
        || same_ignoring_case(ext, "wma")
}

/// Whether that is an extension of a video.
pub open spec fn names_video(ext: Seq<char>) -> bool {
    ||| text::same_but_case(ext, "mp4"@)
    ||| text::same_but_case(ext, "mkv"@)
    ||| text::same_but_case(ext, "avi"@)
    ||| text::same_but_case(ext, "mov"@)
    ||| text::same_but_case(ext, "wmv"@)
    ||| text::same_but_case(ext, "webm"@)
    ||| text::same_but_case(ext, "m4v"@)
}

fn is_video(ext: &str) -> (res: bool)
    ensures
        res == names_video(ext@),
{
    same_ignoring_case(ext, "mp4")
        || same_ignoring_case(ext, "mkv")
        || same_ignoring_case(ext, "avi")
        || same_ignoring_case(ext, "mov")
        || same_ignoring_case(ext, "wmv")
        || same_ignoring_case(ext, "webm")
        || same_ignoring_case(ext, "m4v")
}

/// Whether that is an extension of an archive.
pub open spec fn names_archive(ext: Seq<char>) -> bool {
    ||| text::same_but_case(ext, "zip"@)
    ||| text::same_but_case(ext, "7z"@)
    ||| text::same_but_case(ext, "rar"@)
    ||| text::same_but_case(ext, "tar"@)
    ||| text::same_but_case(ext, "gz"@)
    ||| text::same_but_case(ext, "bz2"@)
    ||| text::same_but_case(ext, "xz"@)
    ||| text::same_but_case(ext, "zst"@)
    ||| text::same_but_case(ext, "tgz"@)
}

fn is_archive(ext: &str) -> (res: bool)
    ensures
        res == names_archive(ext@),
{
    same_ignoring_case(ext, "zip")
        || same_ignoring_case(ext, "7z")
        || same_ignoring_case(ext, "rar")
        || same_ignoring_case(ext, "tar")
        || same_ignoring_case(ext, "gz")
        || same_ignoring_case(ext, "bz2")
        || same_ignoring_case(ext, "xz")
        || same_ignoring_case(ext, "zst")
        || same_ignoring_case(ext, "tgz")
}

/// What kind of file a name is of, by its extension, capital letters or not.
pub open spec fn kind_of(name: Seq<char>) -> Kind {
    let ext = extension(name);
    if names_sheet(ext) {
        Kind::Sheet
    } else if names_table(ext) {
        Kind::Table
    } else if names_word(ext) {
        Kind::Word
    } else if names_slides(ext) {
        Kind::Slides
    } else if names_pdf(ext) {
        Kind::Pdf
    } else if names_config(ext) {
        Kind::Config
    } else if names_database(ext) {
        Kind::Database
    } else if names_image(ext) {
        Kind::Image
    } else if names_audio(ext) {
        Kind::Audio
    } else if names_video(ext) {
        Kind::Video
    } else if names_archive(ext) {
        Kind::Archive
    } else {
        Kind::File
    }
}

pub fn file_kind(name: &str) -> (kind: Kind)
    ensures
        kind == kind_of(name@),
{
    let ext = extension_of(name);
    if is_sheet(&ext) {
        Kind::Sheet
    } else if is_table(&ext) {
        Kind::Table
    } else if is_word(&ext) {
        Kind::Word
    } else if is_slides(&ext) {
        Kind::Slides
    } else if is_pdf(&ext) {
        Kind::Pdf
    } else if is_config(&ext) {
        Kind::Config
    } else if is_database(&ext) {
        Kind::Database
    } else if is_image(&ext) {
        Kind::Image
    } else if is_audio(&ext) {
        Kind::Audio
    } else if is_video(&ext) {
        Kind::Video
    } else if is_archive(&ext) {
        Kind::Archive
    } else {
        Kind::File
    }
}

impl Kind {
    /// The icon of this kind.
    pub open spec fn icon(self) -> Seq<char> {
        match self {
            Kind::Star => STAR@,
            Kind::Folder => FOLDER@,
            Kind::Sheet => SHEET@,
            Kind::Table => TABLE@,
            Kind::Word => WORD@,
            Kind::Slides => SLIDES@,
            Kind::Pdf => PDF@,
            Kind::Config => CONFIG@,
            Kind::Database => DATABASE@,
            Kind::Image => IMAGE@,
            Kind::Audio => AUDIO@,
            Kind::Video => VIDEO@,
            Kind::Archive => ARCHIVE@,
            Kind::File => FILE@,
        }
    }

    pub fn glyph(self) -> (icon: &'static str)
        ensures
            icon@ == self.icon(),
    {
        match self {
            Kind::Star => STAR,
            Kind::Folder => FOLDER,
            Kind::Sheet => SHEET,
            Kind::Table => TABLE,
            Kind::Word => WORD,
            Kind::Slides => SLIDES,
            Kind::Pdf => PDF,
            Kind::Config => CONFIG,
            Kind::Database => DATABASE,
            Kind::Image => IMAGE,
            Kind::Audio => AUDIO,
            Kind::Video => VIDEO,
            Kind::Archive => ARCHIVE,
            Kind::File => FILE,
        }
    }

    /// The colour of this kind, out of the 256 of a terminal: favorites yellow,
    /// spreadsheets green, documents blue, presentations orange, PDF red.
    pub open spec fn shade(self) -> u8 {
        match self {
            Kind::Star => 220,
            Kind::Folder => 110,
            Kind::Sheet => 71,
            Kind::Table => 71,
            Kind::Word => 33,
            Kind::Slides => 208,
            Kind::Pdf => 160,
            Kind::Config => 245,
            Kind::Database => 137,
            Kind::Image => 133,
            Kind::Audio => 38,
            Kind::Video => 169,
            Kind::Archive => 179,
            Kind::File => 250,
        }
    }

    pub fn colour(self) -> (n: u8)
        ensures
            n == self.shade(),
    {
        match self {
            Kind::Star => 220,
            Kind::Folder => 110,
            Kind::Sheet => 71,
            Kind::Table => 71,
            Kind::Word => 33,
            Kind::Slides => 208,
            Kind::Pdf => 160,
            Kind::Config => 245,
            Kind::Database => 137,
            Kind::Image => 133,
            Kind::Audio => 38,
            Kind::Video => 169,
            Kind::Archive => 179,
            Kind::File => 250,
        }
    }
}

/// The icon in front of a name, or nothing while icons are turned off.
pub open spec fn prefix_of(name: Seq<char>, is_dir: bool, enabled: bool) -> Seq<char> {
    if !enabled {
        ""@
    } else if is_dir {
        FOLDER@
    } else {
        kind_of(name).icon()
    }
}

/// The icon in front of a name, or nothing while icons are turned off.
pub fn prefix(name: &str, is_dir: bool, enabled: bool) -> (icon: &'static str)
    ensures
        icon@ == prefix_of(name@, is_dir, enabled),
{
    if !enabled {
        ""
    } else if is_dir {
        FOLDER
    } else {
        file_kind(name).glyph()
    }
}

/// What an icon stands for, by which it is coloured.
pub open spec fn meant(icon: Seq<char>) -> Kind {
    if icon == STAR@ {
        Kind::Star
    } else if icon == FOLDER@ || icon == OPEN_FOLDER@ {
        Kind::Folder
    } else if icon == SHEET@ {
        Kind::Sheet
    } else if icon == TABLE@ {
        Kind::Table
    } else if icon == WORD@ {
        Kind::Word
    } else if icon == SLIDES@ {
        Kind::Slides
    } else if icon == PDF@ {
        Kind::Pdf
    } else if icon == CONFIG@ {
        Kind::Config
    } else if icon == DATABASE@ {
        Kind::Database
    } else if icon == IMAGE@ {
        Kind::Image
    } else if icon == AUDIO@ {
        Kind::Audio
    } else if icon == VIDEO@ {
        Kind::Video
    } else if icon == ARCHIVE@ {
        Kind::Archive
    } else {
        Kind::File
    }
}

pub fn meaning(icon: &str) -> (kind: Kind)
    ensures
        kind == meant(icon@),
{
    if same(icon, STAR) {
        Kind::Star
    } else if same(icon, FOLDER) || same(icon, OPEN_FOLDER) {
        Kind::Folder
    } else if same(icon, SHEET) {
        Kind::Sheet
    } else if same(icon, TABLE) {
        Kind::Table
    } else if same(icon, WORD) {
        Kind::Word
    } else if same(icon, SLIDES) {
        Kind::Slides
    } else if same(icon, PDF) {
        Kind::Pdf
    } else if same(icon, CONFIG) {
        Kind::Config
    } else if same(icon, DATABASE) {
        Kind::Database
    } else if same(icon, IMAGE) {
        Kind::Image
    } else if same(icon, AUDIO) {
        Kind::Audio
    } else if same(icon, VIDEO) {
        Kind::Video
    } else if same(icon, ARCHIVE) {
        Kind::Archive
    } else {
        Kind::File
    }
}

/// Every icon is coloured by the kind it stands for.
pub proof fn an_icon_means_its_kind(kind: Kind)
    ensures
        meant(kind.icon()) == kind,
{
    reveal_strlit("★ ");
    reveal_strlit("\u{f07b} ");
    reveal_strlit("\u{f07c} ");
    reveal_strlit("\u{f15b} ");
    reveal_strlit("\u{f1c3} ");
    reveal_strlit("\u{f0ce} ");
    reveal_strlit("\u{f1c2} ");
    reveal_strlit("\u{f1c4} ");
    reveal_strlit("\u{f1c1} ");
    reveal_strlit("\u{f013} ");
    reveal_strlit("\u{f1c0} ");
    reveal_strlit("\u{f1c5} ");
    reveal_strlit("\u{f1c7} ");
    reveal_strlit("\u{f1c8} ");
    reveal_strlit("\u{f1c6} ");
    let icon = kind.icon();
    assert(STAR@[0] == '★' && FOLDER@[0] == '\u{f07b}' && OPEN_FOLDER@[0] == '\u{f07c}');
    assert(FILE@[0] == '\u{f15b}');
    assert(SHEET@[0] == '\u{f1c3}');
    assert(TABLE@[0] == '\u{f0ce}');
    assert(WORD@[0] == '\u{f1c2}');
    assert(SLIDES@[0] == '\u{f1c4}');
    assert(PDF@[0] == '\u{f1c1}');
    assert(CONFIG@[0] == '\u{f013}');
    assert(DATABASE@[0] == '\u{f1c0}');
    assert(IMAGE@[0] == '\u{f1c5}');
    assert(AUDIO@[0] == '\u{f1c7}');
    assert(VIDEO@[0] == '\u{f1c8}');
    assert(ARCHIVE@[0] == '\u{f1c6}');
}

/// The star takes a place of its own.
pub proof fn the_star_is_there()
    ensures
        STAR@.len() > 0,
{
    reveal_strlit("★ ");
}

} // verus!
