use std::sync::Arc;

use nucleo::pattern::{CaseMatching, Normalization};
use nucleo::{Config as MatchConfig, Nucleo};
use tadoru::action_menu::{Action, Menu, RunMode};
use tadoru::browse::{Browser, Item};
use tadoru::disk::Disk;
use tadoru::drawn::Drawn;
use tadoru::favorites::{self, find, Favorite, Index};
use tadoru::fs_path::{FsPath, Platform};
use tadoru::fuzzy::PATTERN_LIMIT;
use tadoru::header::{tabs, Nav};
use tadoru::keys::{KeyCode, KeyEvent, Modifiers};
use tadoru::marks::Marks;
use tadoru::mode::{Mode, Then};
use tadoru::moves::browse_reveal;
use tadoru::picker::{
    mode_index, Clickable, Config, Picker, Preview, RowsAt, Step, CLICK_GUARD, ERASE_PAUSE,
    NOTICE_LINGER, ROOT_HISTORY,
};
use tadoru::render::Tally;
use tadoru::scan::{
    ceiling, check_scan_root, saved, scan_key, scan_order, visit, Entry, Resolved, Signals, Visit,
    Volume, Walked,
};
use tadoru::screen::{Button, MouseEvent, MouseKind, Paint, Piece, Rect};
use tadoru::session::{list_dir, only_candidate, opening_screen, Only, Opening};
use tadoru::source::{Shown, Source};
use tadoru::tree::Tree;
use tadoru::turns::Report;
use tadoru::whole_screen::Tallies;
use tadoru::world::{Listed, Refused, World};
use unicode_width::UnicodeWidthChar;

const ON: Platform = Platform::Unix;

fn at(text: &str) -> FsPath {
    FsPath::parse(text, ON)
}

fn text_of(path: &FsPath) -> String {
    path.text(ON)
}

fn shown(path: Option<FsPath>) -> Option<String> {
    path.map(|p| p.text(ON))
}

// A computer: what is on its disk, and what the picker is handed of it.
struct Desk {
    // A path that ends in a slash is a folder.
    paths: Vec<String>,
    favorites: Vec<Favorite>,
    recent: Vec<String>,
    now: u64,
}

impl Desk {
    fn new(paths: &[&str]) -> Desk {
        Desk {
            paths: paths.iter().map(|p| p.to_string()).collect(),
            favorites: Vec::new(),
            recent: Vec::new(),
            now: 100_000,
        }
    }

    fn named(paths: &[&str], favorites: &[(&str, &str)]) -> Desk {
        let mut desk = Desk::new(paths);
        for (path, name) in favorites {
            favorites::pin(&mut desk.favorites, path, true, Some(true), Some(name), ON)
                .unwrap();
        }
        desk
    }

    // The folders and the files.
    fn all(&self) -> (Vec<String>, Vec<String>) {
        let mut dirs: Vec<String> = vec!["/".into()];
        let mut files: Vec<String> = Vec::new();
        for path in &self.paths {
            let whole = path.trim_end_matches('/');
            for (i, c) in whole.char_indices() {
                if c == '/' && i > 0 && !dirs.contains(&whole[..i].to_string()) {
                    dirs.push(whole[..i].to_string());
                }
            }
            if path.ends_with('/') {
                if !dirs.contains(&whole.to_string()) {
                    dirs.push(whole.to_string());
                }
            } else {
                files.push(whole.to_string());
            }
        }
        (dirs, files)
    }

    fn disk(&self) -> Disk {
        let (dirs, files) = self.all();
        let parent = |path: &str| match path.rfind('/') {
            Some(0) => "/".to_string(),
            Some(i) => path[..i].to_string(),
            None => String::new(),
        };
        let name = |path: &str| path[path.rfind('/').unwrap() + 1..].to_string();
        let mut disk = Disk::new(Vec::new());
        for dir in &dirs {
            let mut items: Vec<Item> = Vec::new();
            for d in dirs.iter().filter(|d| *d != "/" && parent(d) == *dir) {
                items.push(Item { name: name(d), is_dir: true });
            }
            for f in files.iter().filter(|f| parent(f) == *dir) {
                items.push(Item { name: name(f), is_dir: false });
            }
            disk.learn_dir(at(dir), items);
        }
        for file in &files {
            disk.learn_file(at(file));
        }
        disk
    }

    // What the walk behind a list finds, and whether it met the ceiling.
    fn items(&self, source: &Source) -> (Vec<Entry>, bool) {
        match source.mode {
            Mode::Favorites => (saved(&self.favorites), false),
            Mode::Recent => {
                (self.recent.iter().map(|p| Entry::place(p)).collect(), false)
            }
            _ => {
                let (dirs, files) = self.all();
                let mut signals = Signals::new();
                let mut found: Vec<Entry> = Vec::new();
                let most = ceiling(source.limit);
                let places = dirs.iter().map(|d| (d, true)).chain(files.iter().map(|f| (f, false)));
                for (place, is_dir) in places {
                    let path = at(place);
                    let Some(rest) = path.below(&source.root) else { continue };
                    let walked = Walked {
                        path: at(place),
                        depth: rest.names.len(),
                        is_dir: Some(is_dir),
                        lossy: false,
                    };
                    let seen = found.len();
                    let (step, after) =
                        visit(&source.root, &walked, source.mode, ON, signals, seen, most);
                    signals = after;
                    match step {
                        Visit::Keep(entry) => found.push(entry),
                        Visit::Pass => {}
                        Visit::Quit => break,
                    }
                }
                (found, signals.truncated)
            }
        }
    }

    // The matches of what is typed, best first, by their place in the list.
    fn matched(&self, entries: &[Entry], query: &str) -> Vec<usize> {
        let config = MatchConfig::DEFAULT.match_paths();
        let mut matcher: Nucleo<usize> = Nucleo::new(config, Arc::new(|| {}), Some(1), 1);
        for (i, entry) in entries.iter().enumerate() {
            let display = entry.display.clone();
            matcher.injector().push(i, |_, columns| columns[0] = display.as_str().into());
        }
        matcher.pattern.reparse(0, query, CaseMatching::Ignore, Normalization::Smart, false);
        while matcher.tick(10).running {}
        let snapshot = matcher.snapshot();
        (0..snapshot.matched_item_count())
            .filter_map(|n| snapshot.get_matched_item(n))
            .map(|item| *item.data)
            .collect()
    }

    fn rows(&self, source: &Source) -> Vec<Entry> {
        if source.scanning {
            return Vec::new();
        }
        let (entries, _) = self.items(source);
        let ranks = self.matched(&entries, &source.query);
        (0..ranks.len() as u32)
            .filter_map(|n| match source.visible(n)? {
                Shown::Item(i) => entries.get(i as usize),
                Shown::Matched(rank) => entries.get(ranks[rank as usize]),
            })
            .cloned()
            .collect()
    }

    fn world(&self, picker: &Picker) -> World {
        let mut listed = Vec::new();
        for source in picker.sources.iter().flatten().chain(picker.tree_search.iter()) {
            for (row, entry) in self.rows(source).into_iter().enumerate() {
                listed.push(Listed { source: source.id, row: row as u32, entry });
            }
        }
        World { disk: self.disk(), now: self.now, listed, refused: vec![], unreadable: vec![] }
    }

    fn finish(&self, source: &mut Source) {
        let (entries, truncated) = self.items(source);
        let mut order = Vec::new();
        if !source.mode.is_places() {
            let keys = (0..entries.len() as u32)
                .map(|i| scan_key(&entries[i as usize].display, i, ON))
                .collect();
            order = scan_order(&keys);
        }
        source.truncated = truncated;
        source.finish_scan(Ok(order));
        source.refresh_browse_order(entries.len() as u32, entries.len() as u32);
        source.clamp_selection(self.rows(source).len() as u32);
    }

    // Waits for every scan, and for what is shown of the tree's search.
    fn settle(&self, picker: &mut Picker) {
        for source in picker.sources.iter_mut().flatten().chain(picker.tree_search.iter_mut()) {
            self.finish(source);
        }
        self.tick_tree_search(picker);
    }

    fn tick_tree_search(&self, picker: &mut Picker) {
        let disk = self.disk();
        picker.ensure_tree(&disk);
        let Some(source) = &picker.tree_search else { return };
        let (dirs, _) = self.all();
        let mut rows = self.rows(source);
        rows.truncate(picker.matches_wanted(rows.len() as u32) as usize);
        let entries = rows
            .into_iter()
            .map(|entry| {
                let is_dir = dirs.contains(&text_of(&entry.path(ON)));
                (entry, is_dir)
            })
            .collect();
        picker.rebuild_found(entries, &disk);
    }

    // Does what an event asks of the program.
    fn perform(&mut self, picker: &mut Picker, step: Step) -> Step {
        match &step {
            Step::Actions(path) => {
                picker.open_menu(Menu::new(path.clone(), Vec::new(), Vec::new(), None, None));
            }
            Step::Pin(path) => {
                let is_dir = self.disk().is_dir(path);
                let outcome = favorites::update(&mut self.favorites, &text_of(path), is_dir, None, ON)
                    .map(|change| (change.pinned, Index::read(&self.favorites, ON)))
                    .map_err(|error| error.message());
                picker.pin_done(path, outcome);
            }
            Step::Name(path) => picker.name_known(path.clone(), &self.favorites),
            Step::SaveName(path, name) => {
                let is_dir = self.disk().is_dir(path);
                let folder = text_of(path);
                let outcome = favorites::save_name(&mut self.favorites, &folder, is_dir, name, ON)
                    .map(|_| Index::read(&self.favorites, ON))
                    .map_err(|error| error.message());
                picker.name_saved(path, name, outcome, self.now);
            }
            Step::ReloadPins => picker.pins_loaded(Ok(Index::read(&self.favorites, ON))),
            Step::Match => self.tick_tree_search(picker),
            _ => {}
        }
        step
    }

    fn press(&mut self, picker: &mut Picker, key: KeyEvent) -> Step {
        let world = self.world(picker);
        let step = picker.handle_key(key, &world);
        self.perform(picker, step)
    }

    fn type_in(&mut self, picker: &mut Picker, text: &str) {
        for c in text.chars() {
            self.press(picker, plain(KeyCode::Char(c)));
        }
    }

    fn point(&mut self, picker: &mut Picker, mouse: MouseEvent) -> Step {
        let world = self.world(picker);
        let step = picker.handle_mouse(mouse, &world);
        self.perform(picker, step)
    }

    fn tallies(&self, picker: &Picker) -> Tallies {
        let tally = |source: Option<&Source>| match source {
            Some(source) if !source.scanning => Tally {
                count: self.rows(source).len() as u32,
                total: self.items(source).0.len() as u32,
            },
            _ => Tally { count: 0, total: 0 },
        };
        Tallies {
            list: tally(picker.sources[mode_index(picker.mode)].as_ref()),
            places: tally(match picker.places {
                Some(mode) => picker.sources[mode_index(mode)].as_ref(),
                None => None,
            }),
            tree: tally(picker.tree_search.as_ref()),
        }
    }

    fn draw_in(&self, picker: &mut Picker, area: Rect) -> Screen {
        let world = self.world(picker);
        let tallies = self.tallies(picker);
        let drawn = picker.render(area, tallies, &world);
        let mut screen = Screen::new(area.x + area.width, area.y + area.height);
        screen.draw(&drawn);
        screen
    }

    fn draw(&self, picker: &mut Picker, width: u16, height: u16) -> Screen {
        self.draw_in(picker, Rect { x: 0, y: 0, width, height })
    }

    fn selected(&self, picker: &mut Picker) -> Option<String> {
        let world = self.world(picker);
        shown(picker.selected_path(&world))
    }

    fn toggle_browse(&self, picker: &mut Picker) {
        let world = self.world(picker);
        picker.toggle_browse(&world);
    }

    fn switch_to(&mut self, picker: &mut Picker, mode: Mode) {
        let world = self.world(picker);
        if picker.switch_to(mode, &world) {
            picker.pins_loaded(Ok(Index::read(&self.favorites, ON)));
        }
    }

    fn browser<'a>(&self, picker: &'a mut Picker) -> &'a mut Browser {
        picker.ensure_browser(&self.disk());
        picker.browser.as_mut().unwrap()
    }

    fn tree<'a>(&self, picker: &'a mut Picker) -> &'a mut Tree {
        picker.ensure_tree(&self.disk());
        picker.tree.as_mut().unwrap()
    }

    fn cwd(&self, picker: &mut Picker) -> String {
        text_of(&self.browser(picker).cwd)
    }
}

fn plain(code: KeyCode) -> KeyEvent {
    KeyEvent::plain(code)
}

fn letter(c: char) -> KeyEvent {
    plain(KeyCode::Char(c))
}

fn held(code: KeyCode) -> KeyEvent {
    KeyEvent { code, modifiers: Modifiers::control() }
}

fn ctrl(c: char) -> KeyEvent {
    held(KeyCode::Char(c))
}

fn alt(code: KeyCode) -> KeyEvent {
    KeyEvent { code, modifiers: Modifiers { ctrl: false, alt: true, shift: false, other: false } }
}

fn altgr(c: char) -> KeyEvent {
    let modifiers = Modifiers { ctrl: true, alt: true, shift: false, other: false };
    KeyEvent { code: KeyCode::Char(c), modifiers }
}

fn back_tab() -> KeyEvent {
    let modifiers = Modifiers { ctrl: false, alt: false, shift: true, other: false };
    KeyEvent { code: KeyCode::BackTab, modifiers }
}

fn mouse(kind: MouseKind, column: u16, row: u16) -> MouseEvent {
    MouseEvent { kind, column, row, ctrl: false }
}

fn click(column: u16, row: u16) -> MouseEvent {
    mouse(MouseKind::Down(Button::Left), column, row)
}

fn config() -> Config {
    Config { mouse: true, icons: false, scan_limit: 0 }
}

// A picker as it is before anything was drawn or typed.
fn fresh(root: &str, mode: Mode) -> Picker {
    Picker {
        on: ON,
        config: config(),
        sources: vec![None, None, None, None, None],
        next_id: 0,
        browser: None,
        tree_view: false,
        tree: None,
        tree_query: String::new(),
        tree_search: None,
        tree_search_root: FsPath::empty(),
        found: None,
        found_keep: false,
        found_marks: Marks::new(),
        tree_rows: 20,
        browser_root: FsPath::empty(),
        search_mode: if mode == Mode::Files { Mode::Files } else { Mode::Dirs },
        unlimited: false,
        roots_back: Vec::new(),
        roots_forward: Vec::new(),
        mode,
        query: String::new(),
        root: at(root),
        preview: None,
        frame_count: 0,
        notice: None,
        notice_since: None,
        clicks_blocked_since: None,
        pinned: Index::empty(ON),
        menu: None,
        naming: None,
        keys: None,
        places: None,
        places_query: String::new(),
        mouse: Clickable::none(),
        last_click: None,
        after_action: Then::Stay,
        after_cd: None,
        last_erase: None,
    }
}

// The list of a search, started if it has not been.
fn list_of(picker: &mut Picker, mode: Mode) -> &mut Source {
    picker.start(mode);
    picker.sources[mode_index(mode)].as_mut().unwrap()
}

// A search with its scan finished.
fn searching(desk: &Desk, root: &str, mode: Mode, query: &str) -> Picker {
    let mut picker = fresh(root, mode);
    picker.start(mode);
    picker.set_query(query, &desk.disk());
    desk.settle(&mut picker);
    picker
}

// What is drawn, cell by cell.
struct Screen {
    cells: Vec<Vec<(String, Paint)>>,
}

impl Screen {
    fn new(width: u16, height: u16) -> Screen {
        let blank = vec![(" ".to_string(), Paint::Plain); width as usize];
        Screen { cells: vec![blank; height as usize] }
    }

    fn put(&mut self, x: u16, y: u16, symbol: &str, paint: Paint) {
        if let Some(row) = self.cells.get_mut(y as usize) {
            if let Some(cell) = row.get_mut(x as usize) {
                *cell = (symbol.to_string(), paint);
            }
        }
    }

    fn write(&mut self, x: u16, end: u16, y: u16, pieces: &[Piece]) {
        let mut x = x;
        for piece in pieces {
            for c in piece.text.chars() {
                let w = c.width().unwrap_or(0) as u16;
                if x + w > end {
                    return;
                }
                self.put(x, y, &c.to_string(), piece.paint);
                for k in 1..w {
                    self.put(x + k, y, "", piece.paint);
                }
                x += w;
            }
        }
    }

    fn frame(&mut self, area: Rect, title: &[Piece], footer: &[Piece], panel: bool) {
        if area.width < 2 || area.height < 2 {
            return;
        }
        let (right, bottom) = (area.x + area.width - 1, area.y + area.height - 1);
        for x in area.x..=right {
            self.put(x, area.y, "─", Paint::Border);
            self.put(x, bottom, "─", Paint::Border);
        }
        for y in area.y..=bottom {
            self.put(area.x, y, "│", Paint::Border);
            self.put(right, y, "│", Paint::Border);
        }
        self.put(area.x, area.y, "╭", Paint::Border);
        self.put(right, area.y, "╮", Paint::Border);
        self.put(area.x, bottom, "╰", Paint::Border);
        self.put(right, bottom, "╯", Paint::Border);
        self.write(area.x + 1, right, area.y, title);
        let width: u16 = footer
            .iter()
            .flat_map(|p| p.text.chars())
            .map(|c| c.width().unwrap_or(0) as u16)
            .sum();
        let room = area.width - 2;
        let left = room.saturating_sub(width);
        let x = area.x + 1 + if panel { left / 2 } else { left };
        self.write(x, right, bottom, footer);
    }

    fn draw(&mut self, drawn: &[Drawn]) {
        for d in drawn {
            match d {
                Drawn::Clear(area) => {
                    for y in area.y..area.y + area.height {
                        for x in area.x..area.x + area.width {
                            self.put(x, y, " ", Paint::Plain);
                        }
                    }
                }
                Drawn::Frame { area, title, footer, panel } => {
                    self.frame(*area, title, footer, *panel);
                }
                Drawn::Line { area, pieces } => {
                    if area.height > 0 {
                        self.write(area.x, area.x + area.width, area.y, pieces);
                    }
                }
                Drawn::Text { area, text, paint } => {
                    for (k, line) in text.lines().take(area.height as usize).enumerate() {
                        let pieces = [Piece { text: line.to_string(), paint: *paint }];
                        self.write(area.x, area.x + area.width, area.y + k as u16, &pieces);
                    }
                }
                Drawn::Rows { area, rows } => {
                    for (k, row) in rows.iter().take(area.height as usize).enumerate() {
                        self.write(area.x, area.x + area.width, area.y + k as u16, &row.pieces);
                    }
                }
                Drawn::Bar(area) => {
                    for y in area.y..area.y + area.height {
                        self.put(area.x, y, "│", Paint::Border);
                    }
                }
                Drawn::Thumb { x, y, start, len } => {
                    for k in *start..*start + *len {
                        self.put(*x, *y + k as u16, "┃", Paint::Border);
                    }
                }
                Drawn::Cursor { .. } => {}
            }
        }
    }

    fn row(&self, y: u16) -> String {
        self.cells[y as usize].iter().map(|cell| cell.0.as_str()).collect()
    }

    fn whole(&self) -> String {
        (0..self.cells.len() as u16).map(|y| self.row(y)).collect()
    }

    // The first column of a row from which the text stands there.
    fn find(&self, y: u16, text: &str) -> Option<u16> {
        let cells = &self.cells[y as usize];
        let len = text.chars().count();
        (0..=cells.len() - len)
            .find(|&x| cells[x..x + len].iter().map(|c| c.0.as_str()).collect::<String>() == text)
            .map(|x| x as u16)
    }

    fn paint(&self, x: u16, y: u16) -> Paint {
        self.cells[y as usize][x as usize].1
    }

    fn thumb(&self) -> Vec<(usize, usize)> {
        let mut cells = Vec::new();
        for (y, row) in self.cells.iter().enumerate() {
            for (x, cell) in row.iter().enumerate() {
                if cell.0 == "┃" {
                    cells.push((x, y));
                }
            }
        }
        cells
    }
}

#[test]
fn double_click_enters_directory_and_filters_its_children() {
    let mut desk = Desk::new(&["/r/C/ssl/", "/r/C/other/"]);
    let mut picker = fresh("/r", Mode::Browse);
    desk.draw(&mut picker, 100, 25);
    let area = picker.mouse.rows.area;
    desk.point(&mut picker, click(area.x, area.y));
    assert_eq!(desk.cwd(&mut picker), "/r");
    desk.point(&mut picker, mouse(MouseKind::Up(Button::Left), area.x, area.y));
    desk.draw(&mut picker, 100, 25);
    desk.point(&mut picker, click(area.x, area.y));
    assert_eq!(desk.cwd(&mut picker), "/r/C");
    desk.type_in(&mut picker, "ssl");
    assert_eq!(desk.browser(&mut picker).rows().len(), 1);
    assert_eq!(shown(desk.browser(&mut picker).selected_path()), Some("/r/C/ssl".into()));
    let screen = desk.draw(&mut picker, 100, 25).whole();
    // The path row names the folder being filtered, so the prompt does not
    // repeat it.
    assert!(!screen.contains("[Filter:"), "the label came back");
    assert!(screen.contains("/r/C"), "the path row should name the folder being filtered");
}

#[test]
fn clicks_too_far_apart_are_two_single_ones() {
    let mut desk = Desk::new(&["/r/C/ssl/"]);
    let mut picker = fresh("/r", Mode::Browse);
    desk.draw(&mut picker, 100, 25);
    let area = picker.mouse.rows.area;
    desk.point(&mut picker, click(area.x, area.y));
    desk.now += 501;
    desk.point(&mut picker, click(area.x, area.y));
    assert_eq!(desk.cwd(&mut picker), "/r");
    desk.now += 500;
    desk.point(&mut picker, click(area.x, area.y));
    assert_eq!(desk.cwd(&mut picker), "/r/C");
}

#[test]
fn switching_modes_restores_browse_location_selection_and_filter() {
    let desk = Desk::new(&["/r/ahktest/", "/r/AWS/"]);
    let mut picker = fresh("/r", Mode::Browse);
    desk.browser(&mut picker).set_filter("AWS");
    let selected = shown(desk.browser(&mut picker).selected_path());
    desk.toggle_browse(&mut picker);
    assert_eq!(picker.mode, Mode::Dirs);
    desk.settle(&mut picker);
    desk.toggle_browse(&mut picker);
    assert_eq!(desk.cwd(&mut picker), "/r");
    assert_eq!(desk.browser(&mut picker).filter, "AWS");
    assert_eq!(shown(desk.browser(&mut picker).selected_path()), selected);
}

#[test]
fn a_notice_reaches_the_screen_in_its_own_colour() {
    let desk = Desk::new(&["/r/"]);
    for mode in [Mode::Browse, Mode::Dirs] {
        let mut picker = fresh("/r", mode);
        picker.notice = Some("Cannot open it: denied".into());
        let screen = desk.draw(&mut picker, 90, 12);
        let found = screen.find(11, "Cannot");
        let x = found.unwrap_or_else(|| panic!("{mode:?}: {}", screen.row(11)));
        assert_eq!(screen.paint(x, 11), Paint::NoticeBad, "{mode:?}");
        assert_ne!(screen.paint(x, 11), Paint::Border);
    }
}

fn forty() -> Vec<String> {
    (0..40).map(|i| format!("/r/folder{i:02}/")).collect()
}

fn forty_folders() -> Desk {
    let mut desk = Desk::new(&[]);
    desk.paths = forty();
    desk
}

#[test]
fn a_scan_stops_at_the_limit_and_the_screen_says_so() {
    let desk = forty_folders();
    let mut source = Source::start(0, Mode::Dirs, &at("/r"), 10);
    desk.finish(&mut source);
    let found = desk.items(&source).0.len();
    assert!(source.truncated, "found {found}");
    assert!((10..40).contains(&found), "found {found}");

    // A short list must not look like the whole folder.
    let mut picker = fresh("/r", Mode::Dirs);
    picker.config.scan_limit = 10;
    picker.sources[mode_index(Mode::Dirs)] = Some(source);
    let screen = desk.draw(&mut picker, 90, 12).whole();
    assert!(screen.contains("stopped at scan_limit"), "{screen}");

    // Without a ceiling the same folder comes back whole and says nothing.
    let mut source = Source::start(0, Mode::Dirs, &at("/r"), 0);
    desk.finish(&mut source);
    assert_eq!(desk.items(&source).0.len(), 40);
    assert!(!source.truncated);
}

#[test]
fn a_short_list_can_be_collected_in_full_from_the_screen() {
    let mut desk = forty_folders();
    let mut picker = fresh("/r", Mode::Dirs);
    picker.config.scan_limit = 10;
    picker.query = "folder".into();
    picker.start(Mode::Dirs);
    desk.settle(&mut picker);
    assert!(list_of(&mut picker, Mode::Dirs).truncated);

    // Without this the only way past the ceiling is to edit a file and start
    // the picker again, in the middle of looking for something.
    desk.press(&mut picker, ctrl('a'));
    desk.settle(&mut picker);
    assert_eq!(desk.items(list_of(&mut picker, Mode::Dirs)).0.len(), 40);
    assert!(!list_of(&mut picker, Mode::Dirs).truncated);
    // The filter is still the one that was typed before asking.
    assert_eq!(picker.query, "folder");
    assert_eq!(list_of(&mut picker, Mode::Dirs).query, "folder");

    // The next mode entered collects in full too, without asking again.
    desk.switch_to(&mut picker, Mode::Files);
    desk.settle(&mut picker);
    assert!(!list_of(&mut picker, Mode::Files).truncated);
    assert_eq!(list_of(&mut picker, Mode::Files).limit, 0);
}

#[test]
fn a_list_longer_than_the_screen_shows_where_the_window_is() {
    let mut desk = forty_folders();
    for i in 0..3 {
        desk.paths.push(format!("/small/inner{i}/"));
    }
    // The rows sit below the prompt, the counts and the path, and above the
    // bottom border.
    let (top, bottom) = (4, 10);
    let mut dirs = searching(&desk, "/r", Mode::Dirs, "");
    let mut browse = fresh("/r", Mode::Browse);
    for (name, picker) in [("dirs", &mut dirs), ("browse", &mut browse)] {
        let cells = desk.draw(picker, 90, 12).thumb();
        assert!(!cells.is_empty(), "{name}: no thumb");
        assert!(cells.iter().all(|&(x, _)| x == cells[0].0), "{name}: {cells:?}");
        assert!(cells.iter().any(|&(_, y)| y == top), "{name}: {cells:?}");
        assert!(cells.iter().all(|&(_, y)| y < bottom), "{name}: {cells:?}");

        // At the last row the thumb reaches the bottom and leaves the top.
        if name == "dirs" {
            list_of(picker, Mode::Dirs).selected = 39;
        } else {
            desk.browser(picker).selected = 39;
        }
        let cells = desk.draw(picker, 90, 12).thumb();
        assert!(cells.iter().any(|&(_, y)| y == bottom), "{name}: {cells:?}");
        assert!(cells.iter().all(|&(_, y)| y > top), "{name}: {cells:?}");
    }

    // A list that fits has nothing hidden to point at.
    let mut dirs = searching(&desk, "/small", Mode::Dirs, "");
    assert!(desk.draw(&mut dirs, 90, 12).thumb().is_empty());
    let mut browse = fresh("/small", Mode::Browse);
    assert!(desk.draw(&mut browse, 90, 12).thumb().is_empty());
}

#[test]
fn a_real_scan_hands_back_the_whole_path_it_found() {
    let desk = Desk::new(&["/r/outer/日本語 folder/note.txt"]);
    // Entries carry the name relative to the scan root, so what a mode hands
    // the shell is rebuilt rather than stored.
    for (mode, query) in [(Mode::Dirs, "日本語 folder"), (Mode::Files, "note.txt")] {
        let mut picker = searching(&desk, "/r", mode, query);
        let world = desk.world(&picker);
        let entry = picker.accept(&world).expect("one match");
        // Files hand back the folder that holds the file.
        let expected = "/r/outer/日本語 folder";
        assert_eq!(text_of(&entry.output_path(mode, ON)), expected, "{mode:?}");
        assert_eq!((picker.output(&Some(entry))), Some(expected.into()));
        assert_eq!((picker.output(&None)), None);
    }
}

#[test]
fn browse_opens_on_the_searched_folder_with_the_highlight_in_place() {
    let desk = Desk::new(&["/r/crypto/aes/aes_core.c", "/r/elsewhere/"]);
    let disk = desk.disk();
    let pick = |p: &str| Some(Entry::absolute(&at(p), ON));

    // A list of this folder says what to show; the other two do not.
    let dirs = browse_reveal(Mode::Dirs, &pick("/r/crypto"), &disk, ON);
    assert_eq!(shown(dirs), Some("/r/crypto".into()));
    let file = "/r/crypto/aes/aes_core.c";
    let files = browse_reveal(Mode::Files, &pick(file), &disk, ON);
    assert_eq!(shown(files), Some(file.into()));
    for mode in [Mode::Recent, Mode::Favorites] {
        let chosen = browse_reveal(mode, &pick("/r/elsewhere"), &disk, ON);
        assert!(chosen.is_none(), "{mode:?} chose where browse opened");
    }
    assert!(browse_reveal(Mode::Dirs, &None, &disk, ON).is_none());

    // Shown in place: the folder searched stays on screen, with the row that
    // was highlighted still highlighted.
    let mut picker = searching(&desk, "/r", Mode::Dirs, "");
    desk.toggle_browse(&mut picker);
    assert_eq!(picker.mode, Mode::Browse);
    assert_eq!(desk.cwd(&mut picker), "/r");
    let selected = desk.browser(&mut picker).selected_path().expect("nothing selected");
    assert!(selected.below(&at("/r")).is_some());

    // A highlight further down opens the folder that holds it, not the folder
    // it is, so its neighbours are still in view.
    let mut browser = Browser::new(at("/r"), ON, &disk);
    browser.show_in_place(&at("/r/crypto/aes"), &disk);
    assert_eq!(text_of(&browser.cwd), "/r/crypto");
    assert_eq!(shown(browser.selected_path()), Some("/r/crypto/aes".into()));
    browser.show_in_place(&at(file), &disk);
    assert_eq!(text_of(&browser.cwd), "/r/crypto/aes");
    assert_eq!(shown(browser.selected_path()), Some(file.into()));
}

#[test]
fn browse_follows_the_search_once_the_search_has_moved() {
    let mut desk = Desk::new(&["/r/one/two/", "/r/elsewhere/"]);
    let mut picker = fresh("/r/one/two", Mode::Dirs);

    // Browse opens where the search is.
    desk.toggle_browse(&mut picker);
    assert_eq!(desk.cwd(&mut picker), "/r/one/two");

    // Flipping back and forth keeps the place, which is the point of browse
    // remembering anything at all.
    let disk = desk.disk();
    desk.browser(&mut picker).up(&disk);
    let stopped = desk.cwd(&mut picker);
    desk.toggle_browse(&mut picker);
    desk.toggle_browse(&mut picker);
    assert_eq!(desk.cwd(&mut picker), stopped);

    // Once the search moves somewhere else, browse lines up with it rather
    // than coming back to a folder from earlier on. Every way of moving the
    // search has to do this.
    for name in ["Left", "Alt-Left", "Ctrl-Right", "the back button"] {
        desk.toggle_browse(&mut picker);
        let before = text_of(&picker.root);
        match name {
            "Left" => {
                desk.press(&mut picker, plain(KeyCode::Left));
            }
            "Alt-Left" => {
                desk.press(&mut picker, alt(KeyCode::Left));
            }
            "Ctrl-Right" => {
                desk.press(&mut picker, held(KeyCode::Right));
            }
            _ => {
                let world = desk.world(&picker);
                picker.navigate(Nav::Back, &world);
            }
        }
        let moved = text_of(&picker.root);
        assert_ne!(moved, before, "{name} did not move the search");
        desk.toggle_browse(&mut picker);
        assert_eq!(desk.cwd(&mut picker), moved, "browse stayed behind: {name}");
    }
}

#[test]
fn left_at_the_top_of_a_drive_lists_the_drives() {
    let on = Platform::Windows;
    let mut disk = Disk::new(tadoru::browse::drives(0b1100));
    let folder = |name: &str| Item { name: name.into(), is_dir: true };
    disk.learn_dir(FsPath::parse("C:\\", on), vec![folder("Users")]);
    disk.learn_dir(FsPath::parse("D:\\", on), vec![]);
    let world =
        World { disk, now: 0, listed: vec![], refused: vec![], unreadable: vec![] };
    let top = FsPath::parse("D:\\", on);
    let mut picker = fresh("/", Mode::Browse);
    picker.on = on;
    picker.root = top.clone();
    picker.pinned = Index::empty(on);
    picker.handle_key(plain(KeyCode::Left), &world);
    let browser = picker.browser.as_ref().unwrap();
    assert!(browser.at_drives());
    // The drive just left is selected, so Enter goes to it.
    assert!(browser.target().is(&top));
    assert!(picker.selected_path(&world).unwrap().is(&top));

    // A search started from here starts at the drive selected.
    picker.switch_to(Mode::Dirs, &world);
    assert!(picker.root.is(&top));

    // With nothing matching the filter nothing is selected, and neither the
    // actions nor pinning are handed an empty path.
    picker.switch_to(Mode::Browse, &world);
    assert!(picker.browser.as_ref().unwrap().at_drives());
    picker.browser.as_mut().unwrap().set_filter("no such drive");
    assert!(picker.selected_path(&world).is_none());
    let step = picker.handle_key(ctrl('b'), &world);
    assert!(matches!(step, Step::Continue));
    assert!(picker.notice.as_deref().unwrap().starts_with("Nothing selected"));
}

#[test]
fn the_tree_opens_folders_in_place_and_shares_browse_s_place() {
    let mut desk = Desk::new(&["/r/top/a/deep/", "/r/top/a/x.txt"]);
    let (top, inner) = ("/r/top", "/r/top/a");
    let disk = desk.disk();
    let mut picker = fresh(top, Mode::Browse);
    desk.browser(&mut picker).navigate_to(&at(inner), &disk);
    desk.press(&mut picker, ctrl(' '));
    desk.press(&mut picker, letter('v'));
    assert!(picker.in_tree());
    assert_eq!(text_of(&desk.tree(&mut picker).root), inner);

    // It opens on the row selected in the columns. Down to x.txt: Enter goes
    // to the folder holding it.
    assert_eq!(desk.selected(&mut picker), Some("/r/top/a/deep".into()));
    desk.press(&mut picker, plain(KeyCode::Down));
    assert_eq!(desk.selected(&mut picker), Some("/r/top/a/x.txt".into()));
    assert!(matches!(desk.press(&mut picker, plain(KeyCode::Enter)), Step::Accept));
    assert_eq!(text_of(&desk.tree(&mut picker).target()), inner);

    // Left from a row goes to the root line; Left there moves the root up and
    // browse with it, keeping the old root open and selected.
    desk.press(&mut picker, plain(KeyCode::Left));
    assert_eq!(desk.tree(&mut picker).selected, 0);
    desk.press(&mut picker, plain(KeyCode::Left));
    assert_eq!(text_of(&desk.tree(&mut picker).root), top);
    assert_eq!(desk.cwd(&mut picker), top);
    assert_eq!(desk.selected(&mut picker), Some(inner.into()));
    assert!(desk.tree(&mut picker).selected_node().open);
    // The move is in browse's history.
    desk.press(&mut picker, ctrl('t'));
    assert_eq!(desk.cwd(&mut picker), inner);
    assert_eq!(text_of(&desk.tree(&mut picker).root), inner);

    // Back to the columns: the row chosen in the tree is selected there.
    assert_eq!(desk.selected(&mut picker), Some("/r/top/a/deep".into()));
    desk.press(&mut picker, plain(KeyCode::Down));
    desk.press(&mut picker, ctrl(' '));
    desk.press(&mut picker, letter('v'));
    assert!(!picker.in_tree());
    let selected = shown(desk.browser(&mut picker).selected_path());
    assert_eq!(selected, Some("/r/top/a/x.txt".into()));

    // The tree is remembered: from a search, Tab comes back to it, and a
    // search started from the tree starts at its root.
    desk.press(&mut picker, ctrl(' '));
    desk.press(&mut picker, letter('v'));
    desk.switch_to(&mut picker, Mode::Dirs);
    assert_eq!(text_of(&picker.root), inner);
    desk.switch_to(&mut picker, Mode::Browse);
    assert!(picker.in_tree());
}

#[test]
fn typing_takes_fzf_s_marks_for_exact_start_end_and_leaving_out() {
    let desk = Desk::new(&["/r/a_x_b_c.txt", "/r/abc.txt", "/r/abc.md"]);
    let matched = |query: &str| {
        let mut picker = fresh("/r", Mode::Browse);
        let browser = desk.browser(&mut picker);
        browser.set_filter(query);
        let mut names: Vec<String> =
            (0..browser.rows().len()).map(|row| browser.item_on(row).name.clone()).collect();
        names.sort();
        names
    };
    // Plain letters match in order with gaps; a leading ' wants them side by
    // side, and ! leaves out what matches.
    assert_eq!(matched("abc"), ["a_x_b_c.txt", "abc.md", "abc.txt"]);
    assert_eq!(matched("'abc"), ["abc.md", "abc.txt"]);
    assert_eq!(matched("!'abc"), ["a_x_b_c.txt"]);
    // After !, the letters are taken side by side even without the '.
    assert_eq!(matched("!abc"), ["a_x_b_c.txt"]);
    // ^ holds to the start of the path and $ to its end.
    assert_eq!(matched("^a_x"), ["a_x_b_c.txt"]);
    assert_eq!(matched(".md$"), ["abc.md"]);
    // Words apart must all match.
    assert_eq!(matched("'abc txt$"), ["abc.txt"]);
    // Upper and lower case are not told apart.
    assert_eq!(matched("'ABC.MD"), ["abc.md"]);
}

#[test]
fn going_back_in_history_during_a_tree_search_shows_the_new_folder() {
    let mut desk = Desk::new(&["/r/a/inner/", "/r/a/gauge.rs"]);
    let mut picker = fresh("/r/a", Mode::Browse);
    picker.tree_view = true;
    // Move up, so that there is somewhere to go back to, then search.
    desk.tree(&mut picker).select_root();
    desk.press(&mut picker, plain(KeyCode::Left));
    assert_eq!(text_of(&desk.tree(&mut picker).root), "/r");
    desk.press(&mut picker, letter('g'));
    desk.settle(&mut picker);
    assert!(picker.found.is_some());

    // Ctrl-Left: back to a. The next pass shows the matches before drawing.
    let world = desk.world(&picker);
    picker.navigate(Nav::Back, &world);
    desk.tick_tree_search(&mut picker);
    assert_eq!(desk.cwd(&mut picker), "/r/a");
    assert!(picker.found.is_none(), "the search of another folder is over");
    assert!(picker.tree_query.is_empty());
    let labels: Vec<String> =
        desk.tree(&mut picker).nodes().iter().map(|n| n.label.clone()).collect();
    assert!(labels.iter().any(|l| l.starts_with("inner")), "{labels:?}");
}

#[test]
fn a_double_click_on_a_match_leaves_the_search_as_right_does() {
    let mut desk = Desk::new(&["/r/src/ui/gauge.rs", "/r/src/other.rs"]);
    let mut picker = fresh("/r", Mode::Browse);
    picker.tree_view = true;
    desk.type_in(&mut picker, "src");
    desk.settle(&mut picker);
    desk.draw(&mut picker, 100, 14);
    let rows = picker.mouse.rows;
    let found = picker.found.as_ref().unwrap();
    let row = found.nodes().iter().position(|n| text_of(&n.path) == "/r/src").unwrap();
    let press = click(rows.area.x + 3, rows.area.y + (row - rows.first) as u16);
    desk.point(&mut picker, press);
    desk.point(&mut picker, press);
    // Not a folder read into the list of matches, where what it holds would
    // pass for matches: the tree of folders, opened to src.
    assert!(picker.found.is_none(), "still in the search");
    assert!(picker.tree_query.is_empty());
    assert_eq!(desk.selected(&mut picker), Some("/r/src".into()));
}

#[test]
fn ctrl_n_names_the_selected_folder_s_favorite_from_the_screen() {
    let mut desk = Desk::new(&["/r/work/", "/r/config/"]);
    let disk = desk.disk();
    let mut picker = fresh("/r", Mode::Browse);
    desk.browser(&mut picker).show_in_place(&at("/r/work"), &disk);
    assert_eq!(text_of(&desk.browser(&mut picker).target()), "/r/work");

    desk.press(&mut picker, ctrl('n'));
    assert!(picker.naming.is_some());
    desk.type_in(&mut picker, "wo rk");
    desk.press(&mut picker, plain(KeyCode::Enter));
    assert!(picker.naming.is_none());
    let named = find(&desk.favorites, "work").expect("named");
    assert_eq!(named.path, "/r/work");
    assert!(picker.pinned.contains(&at("/r/work")));
    assert!(picker.notice.as_deref().unwrap().ends_with("is now :work"));

    // Opens on the name it has; Esc changes nothing, an empty name clears it.
    desk.press(&mut picker, ctrl('n'));
    assert_eq!(picker.naming.as_ref().unwrap().name, "work");
    desk.press(&mut picker, plain(KeyCode::Esc));
    assert!(find(&desk.favorites, "work").is_some());
    desk.press(&mut picker, ctrl('n'));
    for _ in 0..4 {
        desk.press(&mut picker, plain(KeyCode::Backspace));
    }
    desk.press(&mut picker, plain(KeyCode::Enter));
    assert!(find(&desk.favorites, "work").is_none());
    assert!(picker.pinned.contains(&at("/r/work")), "still pinned");
}

fn refusal_of(path: &str) -> String {
    let volume = Volume { path: FsPath::parse(path, Platform::Windows), drive_type: 0 };
    check_scan_root(&volume, Resolved::Missing, Platform::Windows).unwrap_err().message()
}

#[test]
fn a_search_asked_for_on_a_share_opens_in_browse_and_says_why() {
    let share = Some(refusal_of("\\\\server\\share"));
    let (mode, notice) = opening_screen(Mode::Dirs, &share);
    assert_eq!(mode, Mode::Browse);
    assert!(notice.unwrap().starts_with("Opened in browse: "));
    assert_eq!(opening_screen(Mode::Files, &share).0, Mode::Browse);
    // Browse itself is not changed.
    assert_eq!(opening_screen(Mode::Browse, &share), (Mode::Browse, None));
    // A local folder opens in the search asked for.
    assert_eq!(opening_screen(Mode::Dirs, &None), (Mode::Dirs, None));
}

#[test]
fn ctrl_x_in_the_menu_sets_what_follows_an_action_for_the_rest_of_the_run() {
    let mut desk = Desk::new(&["/r/a/"]);
    let mut picker = fresh("/r", Mode::Browse);
    picker.after_action = Then::Quit;
    desk.press(&mut picker, ctrl('p'));
    assert!(picker.menu.is_some());
    assert_eq!(picker.menu.as_ref().unwrap().after, Then::Quit);
    desk.press(&mut picker, ctrl('x'));
    desk.press(&mut picker, plain(KeyCode::Esc));
    assert!(picker.menu.is_none());
    assert_eq!(picker.after_action, Then::Stay);
    // The next menu opens on the switched setting.
    desk.press(&mut picker, ctrl('p'));
    assert_eq!(picker.menu.as_ref().unwrap().after, Then::Stay);
}

#[test]
fn a_double_click_on_a_place_goes_there_as_right_does() {
    let mut desk = Desk::named(&["/r/notes/"], &[("/r/notes", "notes")]);
    let mut picker = fresh("/r", Mode::Dirs);
    desk.press(&mut picker, ctrl('s'));
    desk.settle(&mut picker);
    // Where the rows were last drawn.
    let area = Rect { x: 10, y: 10, width: 50, height: 4 };
    picker.mouse.places = RowsAt { area, first: 0, count: 1 };

    // One click selects and keeps the list open; the second, on the same row,
    // takes the search to the place and closes it.
    desk.point(&mut picker, click(12, 10));
    assert_eq!(picker.places, Some(Mode::Favorites));
    assert_eq!(desk.selected(&mut picker), Some("/r/notes".into()));
    desk.point(&mut picker, click(12, 10));
    assert_eq!(picker.places, None);
    assert_eq!(picker.mode, Mode::Dirs);
    assert_eq!(text_of(&picker.root), "/r/notes");
}

#[test]
fn the_favorites_list_opens_over_the_screen_and_enter_or_right_take_a_place() {
    let mut desk = Desk::named(
        &["/r/work/inner/", "/r/notes/"],
        &[("/r/work", "work"), ("/r/notes", "notes")],
    );

    // Over a search, the list takes the typing, and Enter chooses the place
    // while the search under it keeps what it had.
    let mut picker = fresh("/r", Mode::Dirs);
    picker.set_query("inn", &desk.disk());
    desk.press(&mut picker, ctrl('s'));
    assert_eq!(picker.places, Some(Mode::Favorites));
    desk.type_in(&mut picker, "not");
    desk.settle(&mut picker);
    assert_eq!(picker.places_query, "not");
    assert_eq!(picker.query, "inn", "the search's own filter is untouched");
    assert_eq!(desk.selected(&mut picker), Some("/r/notes".into()));
    assert!(matches!(desk.press(&mut picker, plain(KeyCode::Enter)), Step::Accept));

    // Esc clears what was typed first, then closes the list.
    desk.press(&mut picker, plain(KeyCode::Esc));
    assert_eq!(picker.places_query, "");
    assert!(picker.places.is_some());
    desk.press(&mut picker, plain(KeyCode::Esc));
    assert!(picker.places.is_none());
    assert_eq!(picker.mode, Mode::Dirs);

    // Right takes the search to the place: it starts there, with the filter
    // cleared, and Ctrl-Left brings both back.
    desk.press(&mut picker, ctrl('s'));
    desk.type_in(&mut picker, "work");
    desk.settle(&mut picker);
    desk.press(&mut picker, plain(KeyCode::Right));
    assert!(picker.places.is_none());
    assert_eq!(picker.mode, Mode::Dirs);
    assert_eq!(text_of(&picker.root), "/r/work");
    assert_eq!(picker.query, "");
    desk.press(&mut picker, held(KeyCode::Left));
    assert_eq!(text_of(&picker.root), "/r");
    assert_eq!(picker.query, "inn");

    // Over browse, Right shows the place in its folder, selected.
    desk.press(&mut picker, plain(KeyCode::Tab));
    assert_eq!(picker.mode, Mode::Browse);
    desk.press(&mut picker, ctrl('s'));
    desk.type_in(&mut picker, "work");
    desk.settle(&mut picker);
    desk.press(&mut picker, plain(KeyCode::Right));
    assert_eq!(desk.cwd(&mut picker), "/r");
    assert_eq!(text_of(&desk.browser(&mut picker).target()), "/r/work");

    // The tab bar has no tab for the lists.
    assert_eq!(
        tabs(),
        [(Mode::Dirs, false), (Mode::Files, false), (Mode::Browse, false), (Mode::Browse, true)]
    );
}

#[test]
fn a_search_after_the_tree_moves_up_covers_the_new_top() {
    let mut desk = Desk::new(&["/r/a/inner/", "/r/b/openssl.h"]);
    // A search in a, cleared, keeps its scan of a for the next query.
    let mut picker = fresh("/r/a", Mode::Browse);
    picker.tree_view = true;
    desk.press(&mut picker, letter('x'));
    desk.settle(&mut picker);
    desk.press(&mut picker, plain(KeyCode::Esc));
    // Left on the top line moves the tree up to root.
    desk.tree(&mut picker).select_root();
    desk.press(&mut picker, plain(KeyCode::Left));
    assert_eq!(text_of(&desk.tree(&mut picker).root), "/r");

    // The next search covers root, not the a it was scanned under.
    desk.type_in(&mut picker, "openssl");
    desk.settle(&mut picker);
    assert_eq!(desk.selected(&mut picker), Some("/r/b/openssl.h".into()));
}

#[test]
fn typing_in_the_tree_searches_everything_under_it() {
    let mut desk = Desk::new(&["/r/src/ui/widgets/gauge.rs", "/r/docs/notes.md"]);
    let mut picker = fresh("/r", Mode::Browse);
    picker.tree_view = true;
    desk.type_in(&mut picker, "gauge");
    desk.settle(&mut picker);
    // The match is shown under its folders, which are dimmed, and is selected;
    // Enter goes to the folder holding it.
    let found = picker.found.as_ref().unwrap();
    let rows: Vec<(String, bool)> =
        found.nodes().iter().skip(1).map(|node| (text_of(&node.path), node.dim)).collect();
    let expected = [
        ("/r/src", true),
        ("/r/src/ui", true),
        ("/r/src/ui/widgets", true),
        ("/r/src/ui/widgets/gauge.rs", false),
    ];
    assert_eq!(rows, expected.map(|(path, dim)| (path.to_string(), dim)));
    let gauge = "/r/src/ui/widgets/gauge.rs";
    assert_eq!(desk.selected(&mut picker), Some(gauge.into()));
    // The letters that matched are coloured in its name, as in the lists.
    assert!(picker.found_marks.has(&at(gauge)));
    assert_eq!(picker.found_marks.get(&at(gauge)), vec![0, 1, 2, 3, 4]);
    let screen = desk.draw(&mut picker, 100, 14);
    let (row, x) = (0..14)
        .find_map(|y| screen.find(y, "gauge.rs").map(|x| (y, x)))
        .expect("the match is drawn");
    assert_eq!(screen.paint(x, row), Paint::Match);
    assert_ne!(screen.paint(x + 5, row), Paint::Match);
    assert!(matches!(desk.press(&mut picker, plain(KeyCode::Enter)), Step::Accept));
    assert_eq!(text_of(&picker.found.as_ref().unwrap().target()), "/r/src/ui/widgets");

    // Right leaves the search for the tree of folders, opened down to it.
    desk.press(&mut picker, plain(KeyCode::Right));
    assert!(picker.found.is_none());
    assert!(picker.tree_query.is_empty());
    assert_eq!(desk.selected(&mut picker), Some(gauge.into()));
    let nodes = desk.tree(&mut picker).nodes();
    assert!(nodes.iter().any(|n| text_of(&n.path) == "/r/src/ui/widgets" && n.open));

    // Backspace deletes what was typed; Esc clears it and the tree is back.
    desk.type_in(&mut picker, "notes");
    desk.settle(&mut picker);
    assert_eq!(desk.selected(&mut picker), Some("/r/docs/notes.md".into()));
    desk.press(&mut picker, plain(KeyCode::Backspace));
    assert_eq!(picker.tree_query, "note");
    desk.press(&mut picker, plain(KeyCode::Esc));
    assert!(picker.tree_query.is_empty());
    assert!(picker.found.is_none());
}

#[test]
fn ctrl_arrows_step_through_history_where_alt_arrows_are_taken() {
    let mut desk = Desk::new(&["/r/a/b/"]);
    let disk = desk.disk();
    // In browse: jump straight to a/b, so going back (to the root) and going
    // up (to a) lead to different places and cannot be confused.
    let mut picker = fresh("/r", Mode::Browse);
    desk.browser(&mut picker).navigate_to(&at("/r/a/b"), &disk);
    assert_eq!(desk.cwd(&mut picker), "/r/a/b");
    desk.press(&mut picker, held(KeyCode::Left));
    assert_eq!(desk.cwd(&mut picker), "/r", "Ctrl-Left climbed instead of going back");
    desk.press(&mut picker, held(KeyCode::Right));
    assert_eq!(desk.cwd(&mut picker), "/r/a/b");
    // The plain arrow still climbs one level.
    desk.press(&mut picker, plain(KeyCode::Left));
    assert_eq!(desk.cwd(&mut picker), "/r/a");

    // In a search, the same keys walk the places the search started from.
    let mut picker = fresh("/r/a/b", Mode::Dirs);
    desk.press(&mut picker, plain(KeyCode::Left));
    assert_eq!(text_of(&picker.root), "/r/a");
    desk.press(&mut picker, held(KeyCode::Left));
    assert_eq!(text_of(&picker.root), "/r/a/b");
    desk.press(&mut picker, held(KeyCode::Right));
    assert_eq!(text_of(&picker.root), "/r/a");
    // Ctrl-T goes back as Ctrl-Left does, as after a tag jump in Vim.
    desk.press(&mut picker, ctrl('t'));
    assert_eq!(text_of(&picker.root), "/r/a/b");

    let mut picker = fresh("/r", Mode::Browse);
    desk.browser(&mut picker).navigate_to(&at("/r/a/b"), &disk);
    desk.press(&mut picker, ctrl('t'));
    assert_eq!(desk.cwd(&mut picker), "/r");
    // AltGr with t types a character; it does not go back.
    desk.press(&mut picker, held(KeyCode::Right));
    desk.press(&mut picker, altgr('t'));
    assert_eq!(desk.cwd(&mut picker), "/r/a/b");
}

#[test]
fn leaving_browse_somewhere_else_is_announced_and_can_be_undone() {
    let mut desk = Desk::new(&["/above/r/one/two/"]);
    let disk = desk.disk();
    let mut picker = fresh("/above/r/one/two", Mode::Dirs);
    picker.query = "keep".into();

    // Wander up in browse, then leave: the search now covers somewhere the
    // reader never chose, which is the whole complaint.
    desk.toggle_browse(&mut picker);
    assert_eq!(picker.mode, Mode::Browse);
    desk.browser(&mut picker).up(&disk);
    desk.browser(&mut picker).up(&disk);
    desk.toggle_browse(&mut picker);
    assert_eq!(text_of(&picker.root), "/above/r");
    // Saying so is what stops it happening unnoticed.
    let notice = picker.notice.clone().expect("no notice");
    assert!(notice.contains("Ctrl-Left"), "{notice}");

    // One key puts it back, with what had been typed there.
    desk.press(&mut picker, alt(KeyCode::Left));
    assert_eq!(text_of(&picker.root), "/above/r/one/two");
    assert_eq!(picker.query, "keep");
    // And forward returns to where it had gone.
    desk.press(&mut picker, alt(KeyCode::Right));
    assert_eq!(text_of(&picker.root), "/above/r");

    // Widening by hand is part of the same trail.
    desk.press(&mut picker, plain(KeyCode::Left));
    assert_eq!(text_of(&picker.root), "/above");
    desk.press(&mut picker, alt(KeyCode::Left));
    assert_eq!(text_of(&picker.root), "/above/r");

    // Nothing further back is said plainly rather than ignored.
    while picker.root_history(false) {}
    desk.press(&mut picker, alt(KeyCode::Left));
    let notice = picker.notice.clone().expect("no notice");
    assert!(notice.contains("No earlier"), "{notice}");
}

#[test]
fn the_path_in_the_search_header_climbs_to_its_ancestors() {
    let mut desk = Desk::new(&["/r/one/two/"]);
    let mut picker = fresh("/r/one/two", Mode::Dirs);
    picker.query = "keep".into();

    // Left widens the search by one level, as it climbs one in browse.
    desk.press(&mut picker, plain(KeyCode::Left));
    assert_eq!(text_of(&picker.root), "/r/one");
    // The typed filter survives, so widening does not restart the search.
    assert_eq!(picker.query, "keep");

    // A click on a step of the path goes straight there.
    desk.draw(&mut picker, 120, 12);
    let crumbs = &picker.mouse.crumbs;
    let step = crumbs.iter().find(|t| text_of(&t.path) == "/r").expect("a step of the path");
    let press = click(step.area.x, step.area.y);
    desk.point(&mut picker, press);
    assert_eq!(text_of(&picker.root), "/r");
}

#[test]
fn alt_chars_do_not_reach_the_search_or_browse_filter() {
    let mut desk = Desk::new(&["/r/child/"]);
    for mode in [Mode::Dirs, Mode::Browse] {
        let mut picker = fresh("/r", mode);
        let filter = |desk: &Desk, p: &mut Picker| match mode {
            Mode::Browse => desk.browser(p).filter.clone(),
            _ => p.query.clone(),
        };
        desk.press(&mut picker, alt(KeyCode::Char('d')));
        assert!(filter(&desk, &mut picker).is_empty(), "{mode:?}");
        desk.press(&mut picker, letter('d'));
        assert_eq!(filter(&desk, &mut picker), "d", "{mode:?}");
    }
}

#[test]
fn a_click_left_over_from_the_action_menu_does_not_reach_the_list() {
    let mut desk = Desk::new(&["/r/child/grandchild/"]);
    let mut picker = fresh("/r", Mode::Browse);
    desk.browser(&mut picker).move_selection(0);
    let start = desk.cwd(&mut picker);
    let area = Rect { x: 0, y: 0, width: 20, height: 5 };
    picker.mouse.rows = RowsAt { area, first: 0, count: 1 };

    // Picking from the menu closes it under the pointer, so the rest of a
    // quick double tap must not land on whatever moved into that spot.
    picker.block_clicks(desk.now);
    desk.point(&mut picker, click(0, 0));
    assert_eq!(desk.cwd(&mut picker), start, "a leftover click got through");
    assert!(picker.last_click.is_none());

    // The wheel is not a press and keeps working.
    desk.point(&mut picker, mouse(MouseKind::ScrollDown, 0, 0));

    // Once the moment has passed, clicks count again.
    assert!(picker.clicks_blocked(desk.now + CLICK_GUARD - 1));
    assert!(!picker.clicks_blocked(desk.now + CLICK_GUARD));
}

#[test]
fn opening_a_path_elsewhere_always_reports_what_happened() {
    let desk = Desk::new(&["/r/report.xlsx"]);
    let mut picker = fresh("/r", Mode::Browse);
    let file = at("/r/report.xlsx");

    // Launching an application changes nothing on this screen, so both
    // outcomes have to be said out loud, by name rather than by full path.
    picker.report_open(&file, Ok(()), desk.now);
    assert_eq!(picker.notice.as_deref(), Some("Opened: report.xlsx"));

    // A confirmation is about something already finished, so it retires itself
    // rather than sitting on the screen.
    assert!(picker.notice_since.is_some());
    picker.expire_notice(desk.now);
    assert!(picker.notice.is_some(), "it should not vanish immediately");
    assert!(!picker.expire_notice(desk.now + NOTICE_LINGER - 1));
    assert!(picker.expire_notice(desk.now + NOTICE_LINGER));
    assert!(picker.notice.is_none(), "it should retire once its time is up");

    // A failure has to be read, so it waits for the next action instead.
    picker.report_open(&file, Err("missing".into()), desk.now);
    let notice = picker.notice.clone().unwrap();
    assert!(notice.starts_with("Cannot open report.xlsx"), "{notice}");
    assert!(notice.contains("missing"), "{notice}");
    assert!(picker.notice_since.is_none(), "a failure must not time out");
    picker.expire_notice(desk.now + 10 * NOTICE_LINGER);
    assert!(picker.notice.is_some());
}

#[test]
fn the_mode_tabs_answer_clicks_from_the_border_they_moved_to() {
    let mut desk = Desk::new(&["/r/"]);
    let mut picker = fresh("/r", Mode::Browse);
    desk.draw(&mut picker, 100, 12);
    // The tabs sit on the top border, one row above the box contents.
    assert_eq!(picker.mouse.header.y, 0);
    let press = click(picker.mouse.modes_x, picker.mouse.header.y);
    desk.point(&mut picker, press);
    assert_eq!(picker.mode, Mode::Dirs);
}

#[test]
fn the_lists_of_places_open_from_buttons_after_the_tabs() {
    let mut desk = Desk::new(&["/r/config/"]);
    // Outside the brackets, each with its icon.
    let mut picker = fresh("/r", Mode::Dirs);
    let screen = desk.draw(&mut picker, 100, 12);
    let favorites = screen.find(0, "[browse|tree]  ★ favorites  ◷ recent ").unwrap() + 15;
    let recent = screen.find(0, "◷ recent").unwrap();

    // A click opens the list, the other button swaps, and the same button
    // closes it, as the keys do. The screen under it stays.
    desk.point(&mut picker, click(favorites, 0));
    assert_eq!(picker.places, Some(Mode::Favorites));
    assert_eq!(picker.mode, Mode::Dirs);
    desk.point(&mut picker, click(recent + 5, 0));
    assert_eq!(picker.places, Some(Mode::Recent));
    desk.point(&mut picker, click(recent, 0));
    assert_eq!(picker.places, None);

    // A screen too narrow for the buttons keeps the tabs and drops them, and a
    // click where they would have been does nothing.
    let mut picker = fresh("/r", Mode::Browse);
    let screen = desk.draw(&mut picker, 40, 12);
    assert!(screen.find(0, "[dirs|files]  [browse|tree]").is_some());
    assert!(screen.find(0, "favorites").is_none(), "{}", screen.row(0));
    desk.point(&mut picker, click(33, 0));
    assert_eq!(picker.places, None);
}

#[test]
fn browse_sits_apart_from_the_searches_and_each_tab_takes_its_own_clicks() {
    let mut desk = Desk::new(&["/r/"]);
    let find = |desk: &Desk, picker: &mut Picker, text: &str| -> u16 {
        let screen = desk.draw(picker, 100, 12);
        screen.find(0, text).unwrap_or_else(|| panic!("{text:?} not in {}", screen.row(0)))
    };

    // The two searches share one bracket; browse, which Tab pairs with them,
    // has its own, with the columns and the tree side by side.
    let mut picker = fresh("/r", Mode::Browse);
    find(&desk, &mut picker, "[dirs|files]  [browse|tree]");

    // The first and last letter of each label switch to that mode.
    for mode in [Mode::Dirs, Mode::Files, Mode::Browse] {
        let start_in = if mode == Mode::Browse { Mode::Dirs } else { Mode::Browse };
        for offset in [0, mode.label().len() as u16 - 1] {
            let mut picker = fresh("/r", start_in);
            let x = find(&desk, &mut picker, mode.label()) + offset;
            desk.point(&mut picker, click(x, 0));
            assert_eq!(picker.mode, mode, "{} at +{offset}", mode.label());
        }
    }

    // The space between the groups switches nothing.
    let mut picker = fresh("/r", Mode::Browse);
    let gap = find(&desk, &mut picker, "]  [") + 1;
    desk.point(&mut picker, click(gap, 0));
    assert_eq!(picker.mode, Mode::Browse, "the gap switched modes");

    // tree draws browse as a tree, from browse or from a search, and browse
    // draws it as columns again.
    for start_in in [Mode::Browse, Mode::Dirs] {
        let mut picker = fresh("/r", start_in);
        let x = find(&desk, &mut picker, "|tree") + 1;
        desk.point(&mut picker, click(x, 0));
        assert!(picker.in_tree(), "tree from {start_in:?}");
        let x = find(&desk, &mut picker, "browse");
        desk.point(&mut picker, click(x, 0));
        assert_eq!(picker.mode, Mode::Browse);
        assert!(!picker.tree_view, "browse from the tree");
    }

    // From a search, browse is columns even if the tree was used last.
    let mut picker = fresh("/r", Mode::Browse);
    let x = find(&desk, &mut picker, "|tree") + 1;
    desk.point(&mut picker, click(x, 0));
    let x = find(&desk, &mut picker, "dirs");
    desk.point(&mut picker, click(x, 0));
    assert_eq!(picker.mode, Mode::Dirs);
    let x = find(&desk, &mut picker, "browse");
    desk.point(&mut picker, click(x, 0));
    assert!(picker.mode == Mode::Browse && !picker.tree_view);
}

#[test]
fn clicking_a_step_of_the_header_path_jumps_to_that_ancestor() {
    let mut desk = Desk::new(&["/r/one/two/three/"]);
    let mut picker = fresh("/r/one/two/three", Mode::Browse);
    desk.draw(&mut picker, 120, 20);
    // Every visible step offers the directory it names, the last being where
    // we already are.
    let crumbs = &picker.mouse.crumbs;
    let step = crumbs.iter().find(|t| text_of(&t.path) == "/r/one").expect("it is clickable");
    let press = click(step.area.x, step.area.y);
    desk.point(&mut picker, press);
    assert_eq!(desk.cwd(&mut picker), "/r/one");
}

#[test]
fn header_buttons_move_back_forward_and_up_and_dim_where_they_cannot() {
    let mut desk = Desk::new(&["/r/child/grandchild/"]);
    let mut picker = fresh("/r/child", Mode::Browse);
    let button = |picker: &Picker, nav: Nav| {
        picker.mouse.nav.iter().find(|(_, kind)| *kind == nav).map(|(area, _)| *area)
    };

    // Nothing visited yet, so only the step to the parent is offered.
    desk.draw(&mut picker, 90, 20);
    assert!(button(&picker, Nav::Back).is_none());
    assert!(button(&picker, Nav::Forward).is_none());
    let up = button(&picker, Nav::Up).expect("up is available below the root");
    desk.point(&mut picker, click(up.x, up.y));
    assert_eq!(desk.cwd(&mut picker), "/r");

    // Having moved, back becomes available and returns to the child.
    desk.draw(&mut picker, 90, 20);
    let back = button(&picker, Nav::Back).expect("back after moving up");
    desk.point(&mut picker, click(back.x, back.y));
    assert_eq!(desk.cwd(&mut picker), "/r/child");

    // And forward retraces that step.
    desk.draw(&mut picker, 90, 20);
    let forward = button(&picker, Nav::Forward).expect("forward after going back");
    desk.point(&mut picker, click(forward.x, forward.y));
    assert_eq!(desk.cwd(&mut picker), "/r");
}

#[test]
fn drawing_never_reads_a_directory_so_a_scroll_burst_costs_nothing() {
    let desk = Desk::new(&["/r/child/"]);
    let mut picker = fresh("/r", Mode::Browse);
    // Every frame drawn while input is still queued must leave the listing
    // alone, otherwise a fast scroll queues one directory read per notch.
    for _ in 0..5 {
        desk.draw(&mut picker, 90, 20);
        assert!(picker.preview.is_none(), "rendering loaded a directory listing");
    }
    // Once the queue drains the update phase fills it in.
    let world = desk.world(&picker);
    assert!(picker.refresh_preview(&world));
    let preview = picker.preview.as_ref().expect("listing after refresh");
    assert_eq!(text_of(&preview.dir), "/r/child");
    assert!(preview.names.is_empty(), "child is empty: {:?}", preview.names);
    assert!(!picker.refresh_preview(&world));
}

#[test]
fn search_preview_click_targets_child_without_changing_search_for_menu() {
    let mut desk = Desk::new(&["/top/r/child/"]);
    let mut picker = searching(&desk, "/top", Mode::Dirs, "r$");
    // The real loop loads the listing before drawing; rendering never does.
    let world = desk.world(&picker);
    picker.preview = Some(Preview { dir: at("/top/r"), names: list_dir(&at("/top/r"), &world, ON) });
    desk.draw(&mut picker, 80, 20);
    let target = picker.mouse.paths.first().unwrap();
    assert_eq!(text_of(&target.path), "/top/r/child");
    let (x, y) = (target.area.x, target.area.y);
    let right = mouse(MouseKind::Down(Button::Right), x, y);
    desk.point(&mut picker, MouseEvent { ctrl: true, ..right });
    assert_eq!(text_of(&picker.menu.as_ref().unwrap().target), "/top/r/child");
    assert_eq!(picker.mode, Mode::Dirs);
    desk.press(&mut picker, plain(KeyCode::Esc));
    desk.point(&mut picker, click(x, y));
    assert_eq!(picker.mode, Mode::Browse);
    assert_eq!(desk.cwd(&mut picker), "/top/r/child");
}

#[test]
fn ctrl_space_opens_the_keys_and_a_plain_letter_runs_one() {
    let mut desk = Desk::new(&["/r/only/inner/"]);
    let mut picker = searching(&desk, "/r", Mode::Dirs, "inner");

    // The letter goes to the panel, not into the filter, and the panel closes
    // once it has run something.
    desk.press(&mut picker, ctrl(' '));
    assert!(picker.keys.is_some());
    desk.press(&mut picker, letter('s'));
    assert_eq!(picker.places, Some(Mode::Favorites));
    assert!(picker.keys.is_none());
    assert_eq!(picker.query, "inner");
    desk.press(&mut picker, plain(KeyCode::Esc));
    assert!(picker.places.is_none());

    // Esc closes the panel and nothing else: the filter is still there, where
    // Esc on the picker itself would have cleared it.
    desk.press(&mut picker, ctrl(' '));
    desk.press(&mut picker, plain(KeyCode::Esc));
    assert!(picker.keys.is_none());
    assert_eq!(picker.query, "inner");
    assert_eq!(picker.mode, Mode::Dirs);

    // A row that stands for a shortcut does what the shortcut does.
    desk.press(&mut picker, ctrl(' '));
    desk.press(&mut picker, letter('d'));
    desk.settle(&mut picker);
    desk.press(&mut picker, plain(KeyCode::Null));
    assert!(picker.keys.is_some(), "a bare NUL is Ctrl-Space too");
    desk.press(&mut picker, letter('l'));
    assert_eq!(picker.mode, Mode::Browse);
    assert_eq!(desk.cwd(&mut picker), "/r/only/inner");
}

#[test]
fn ctrl_with_a_letter_goes_straight_to_that_search() {
    let mut desk = Desk::new(&["/r/"]);
    let mut picker = fresh("/r", Mode::Dirs);

    // The lists open over the screen, which stays as it was; the searches
    // replace it, and close a list that was open.
    desk.press(&mut picker, ctrl('s'));
    assert_eq!(picker.places, Some(Mode::Favorites));
    assert_eq!(picker.mode, Mode::Dirs);
    desk.press(&mut picker, ctrl('r'));
    assert_eq!(picker.places, Some(Mode::Recent));
    desk.press(&mut picker, ctrl('r'));
    assert!(picker.places.is_none(), "the same key closes the list");
    desk.press(&mut picker, ctrl('s'));
    desk.press(&mut picker, ctrl('f'));
    assert!(picker.places.is_none());
    assert_eq!(picker.mode, Mode::Files);
    desk.press(&mut picker, ctrl('d'));
    assert_eq!(picker.mode, Mode::Dirs);
    // Over browse too, and Tab from there still goes to the search.
    desk.press(&mut picker, plain(KeyCode::Tab));
    assert_eq!(picker.mode, Mode::Browse);
    desk.press(&mut picker, ctrl('s'));
    assert_eq!(picker.places, Some(Mode::Favorites));
    desk.press(&mut picker, plain(KeyCode::Tab));
    assert!(picker.places.is_none());
    assert_eq!(picker.mode, Mode::Dirs);

    // The plain letter and AltGr leave the mode alone, and the plain letter is
    // typed into the filter.
    desk.press(&mut picker, ctrl('f'));
    for key in [letter('s'), altgr('s')] {
        desk.press(&mut picker, key);
        assert_eq!(picker.mode, Mode::Files, "{key:?}");
    }
    assert_eq!(picker.query, "s");
}

#[test]
fn backspace_goes_up_only_once_it_has_not_been_clearing_for_a_while() {
    let mut desk = Desk::new(&["/r/only/inner/"]);
    let inner = "/r/only/inner";
    let backspace = plain(KeyCode::Backspace);

    // In browse: deleting, then a press too many, stays put; after the pause
    // the same press goes up, and so does the next one at once.
    let mut picker = fresh(inner, Mode::Browse);
    desk.browser(&mut picker).set_filter("x");
    desk.press(&mut picker, backspace);
    assert_eq!(desk.browser(&mut picker).filter, "");
    desk.press(&mut picker, backspace);
    desk.press(&mut picker, backspace);
    assert_eq!(desk.cwd(&mut picker), inner, "a press too many must not move");
    desk.now += ERASE_PAUSE + 1;
    desk.press(&mut picker, backspace);
    assert_eq!(desk.cwd(&mut picker), "/r/only");
    desk.press(&mut picker, backspace);
    assert_eq!(desk.cwd(&mut picker), "/r", "going up has no pause of its own");

    // Esc clears without the pause: Backspace right after it goes up.
    let mut picker = fresh(inner, Mode::Browse);
    desk.browser(&mut picker).set_filter("x");
    desk.press(&mut picker, backspace);
    desk.press(&mut picker, plain(KeyCode::Esc));
    desk.press(&mut picker, backspace);
    assert_eq!(desk.cwd(&mut picker), "/r/only");

    // Ctrl-H is Left and never waits: it goes up even mid-clearing.
    let mut picker = fresh(inner, Mode::Browse);
    desk.browser(&mut picker).set_filter("x");
    desk.press(&mut picker, backspace);
    desk.press(&mut picker, ctrl('h'));
    assert_eq!(desk.cwd(&mut picker), "/r/only");

    // In the search the same, widening by a level and keeping nothing.
    let mut picker = fresh(inner, Mode::Dirs);
    picker.set_query("ab", &desk.disk());
    desk.press(&mut picker, backspace);
    desk.press(&mut picker, backspace);
    desk.press(&mut picker, backspace);
    assert_eq!(picker.query, "");
    assert_eq!(text_of(&picker.root), inner, "a press too many must not widen");
    desk.now += ERASE_PAUSE + 1;
    desk.press(&mut picker, backspace);
    assert_eq!(text_of(&picker.root), "/r/only");
}

#[test]
fn right_goes_into_the_selection_and_tab_searches_from_there() {
    let mut desk = Desk::new(&["/r/only/inner/", "/r/only/note.txt"]);
    let right = plain(KeyCode::Right);

    // A folder is stepped into. Enter would have ended the session there.
    let mut picker = searching(&desk, "/r", Mode::Dirs, "inner");
    assert!(matches!(desk.press(&mut picker, right), Step::Continue));
    assert_eq!(picker.mode, Mode::Browse);
    assert_eq!(desk.cwd(&mut picker), "/r/only/inner");
    // Tab goes back to the search, which now covers the folder reached.
    desk.press(&mut picker, plain(KeyCode::Tab));
    assert_eq!(picker.mode, Mode::Dirs);
    assert_eq!(text_of(&picker.root), "/r/only/inner");

    // The lists of places open over the screen, and Right in them takes the
    // screen to the place chosen: a search goes on from there.
    let mut picker = fresh("/r", Mode::Files);
    desk.switch_to(&mut picker, Mode::Favorites);
    assert_eq!(picker.places, Some(Mode::Favorites));
    picker.query = "inn".into();
    let world = desk.world(&picker);
    picker.go_to_place(&at("/r/only/inner"), &world);
    assert!(picker.places.is_none());
    assert_eq!(picker.mode, Mode::Files);
    assert_eq!(text_of(&picker.root), "/r/only/inner");
    // The filter that found the favorite is not carried into it, and going
    // back restores it along with where the search started.
    assert_eq!(picker.query, "");
    desk.press(&mut picker, held(KeyCode::Left));
    assert_eq!(text_of(&picker.root), "/r");
    assert_eq!(picker.query, "inn");

    // Over browse, the place is shown in its folder and selected, so Enter
    // goes to it rather than to whatever sorts first inside it.
    let mut picker = fresh("/r", Mode::Browse);
    desk.switch_to(&mut picker, Mode::Favorites);
    let world = desk.world(&picker);
    picker.go_to_place(&at("/r/only/inner"), &world);
    assert_eq!(picker.mode, Mode::Browse);
    assert_eq!(desk.cwd(&mut picker), "/r/only");
    assert_eq!(text_of(&desk.browser(&mut picker).target()), "/r/only/inner");
    // Right again goes into it.
    desk.press(&mut picker, right);
    assert_eq!(desk.cwd(&mut picker), "/r/only/inner");

    // A file opens the folder holding it, with the file selected. Ctrl-L
    // stands in for Right here as it does in browse.
    let mut picker = searching(&desk, "/r", Mode::Files, "");
    desk.press(&mut picker, ctrl('l'));
    assert_eq!(picker.mode, Mode::Browse);
    assert_eq!(desk.cwd(&mut picker), "/r/only");
    let selected = shown(desk.browser(&mut picker).selected_path());
    assert_eq!(selected, Some("/r/only/note.txt".into()));

    // With nothing selected the key does nothing.
    let mut picker = searching(&desk, "/r", Mode::Dirs, "no such folder");
    desk.press(&mut picker, right);
    assert_eq!(picker.mode, Mode::Dirs);

    // A folder deleted since it was listed, as a favorite can be, is reported
    // and the search stays where it was.
    let mut picker = searching(&desk, "/r", Mode::Dirs, "inner");
    let mut world = desk.world(&picker);
    desk.paths = vec!["/r/only/note.txt".into()];
    world.disk = desk.disk();
    picker.handle_key(right, &world);
    assert_eq!(picker.mode, Mode::Dirs);
    assert!(picker.notice.as_deref().unwrap().contains("inner"));
}

#[test]
fn mouse_uses_rendered_rows_and_ignores_blank_space_and_disabled_input() {
    let mut desk = Desk::new(&["/r/item-00/child/"]);
    for i in 0..30 {
        desk.paths.push(format!("/r/item-{i:02}/"));
    }
    let place = Rect { x: 2, y: 5, width: 90, height: 15 };
    let mut picker = fresh("/r", Mode::Browse);
    desk.browser(&mut picker).selected = 20;
    desk.draw_in(&mut picker, place);
    let RowsAt { area, first, .. } = picker.mouse.rows;
    assert!(first > 0);
    desk.point(&mut picker, click(area.x, area.y));
    assert_eq!(desk.browser(&mut picker).selected, first);
    desk.point(&mut picker, mouse(MouseKind::ScrollDown, area.x, area.y));
    assert_eq!(desk.browser(&mut picker).selected, first + 3);
    picker.config.mouse = false;
    desk.point(&mut picker, mouse(MouseKind::ScrollUp, area.x, area.y));
    assert_eq!(desk.browser(&mut picker).selected, first + 3);
    picker.config.mouse = true;
    picker.set_query("item-00", &desk.disk());
    let world = desk.world(&picker);
    picker.refresh_preview(&world);
    desk.draw_in(&mut picker, place);
    let area = picker.mouse.rows.area;
    desk.point(&mut picker, click(area.x, area.y + 2));
    assert_eq!(desk.browser(&mut picker).selected, 0);
    let child = "/r/item-00/child";
    let hit = |picker: &Picker, path: &str| {
        let target = picker.mouse.paths.iter().find(|t| text_of(&t.path) == path).unwrap();
        (target.area.x, target.area.y)
    };
    let (x, y) = hit(&picker, child);
    let right = |x, y| MouseEvent { ctrl: true, ..mouse(MouseKind::Down(Button::Right), x, y) };
    desk.point(&mut picker, right(x, y));
    assert_eq!(text_of(&picker.menu.as_ref().unwrap().target), child);
    assert_eq!(desk.cwd(&mut picker), "/r");
    desk.press(&mut picker, plain(KeyCode::Esc));
    assert!(picker.menu.is_none());
    desk.point(&mut picker, right(area.x, area.y));
    assert_eq!(text_of(&picker.menu.as_ref().unwrap().target), "/r/item-00");
    desk.press(&mut picker, plain(KeyCode::Esc));
    desk.point(&mut picker, click(x, y));
    assert_eq!(desk.cwd(&mut picker), child);
    desk.draw_in(&mut picker, place);
    // Another sibling in the parent column navigates to it.
    desk.paths.push("/r/item-00/sibling/".into());
    let disk = desk.disk();
    desk.browser(&mut picker).refresh(&disk);
    desk.draw_in(&mut picker, place);
    let (x, y) = hit(&picker, "/r/item-00/sibling");
    desk.point(&mut picker, click(x, y));
    assert_eq!(desk.cwd(&mut picker), "/r/item-00/sibling");
    // The tabs do not start at the first column: the navigation buttons sit in
    // front of them in browse mode.
    let press = click(picker.mouse.modes_x, picker.mouse.header.y);
    desk.point(&mut picker, press);
    assert_eq!(picker.mode, Mode::Dirs);
}

#[test]
fn network_scan_finishes_with_an_error_and_no_candidates() {
    let root = FsPath::parse("\\\\unreachable.invalid\\share", Platform::Windows);
    for mode in [Mode::Dirs, Mode::Files] {
        let mut source = Source::start(0, mode, &root, 0);
        source.finish_scan(Err(refusal_of("\\\\unreachable.invalid\\share")));
        assert!(source.scan_error.as_ref().unwrap().contains("blocked"));
        assert!(source.scan_done);
        assert!(source.browse_order.is_none() && source.scanned_order.is_none());
        // What comes later does not count.
        source.finish_scan(Ok(vec![0]));
        assert!(source.scan_error.is_some());
    }
}

#[test]
fn the_tree_says_why_a_network_folder_was_not_searched() {
    let desk = Desk::new(&["/r/"]);
    let mut picker = fresh("/r", Mode::Browse);
    picker.tree_view = true;
    desk.tree(&mut picker);
    // A search already started on a share, which is refused before the server
    // is contacted.
    let share = FsPath::parse("\\\\unreachable.invalid\\share", Platform::Windows);
    let mut source = Source::start(7, Mode::Browse, &share, 0);
    source.finish_scan(Err(refusal_of("\\\\unreachable.invalid\\share")));
    picker.tree_search = Some(source);
    picker.tree_query = "notes".into();
    picker.rebuild_found(Vec::new(), &desk.disk());
    let world = World {
        disk: desk.disk(),
        now: desk.now,
        listed: vec![],
        refused: vec![],
        unreadable: vec![],
    };
    let none = || Tally { count: 0, total: 0 };
    let tallies = Tallies { list: none(), places: none(), tree: none() };
    let area = Rect { x: 0, y: 0, width: 160, height: 12 };
    let mut screen = Screen::new(160, 12);
    screen.draw(&picker.render(area, tallies, &world));
    let screen = screen.whole();
    assert!(screen.contains("Not searched: Recursive scan blocked"), "{screen}");
}

#[test]
fn escape_clears_active_filter_before_exit_and_ctrl_c_exits_immediately() {
    let mut desk = Desk::new(&[]);
    for mode in [Mode::Browse, Mode::Dirs] {
        let mut picker = fresh("/escape-nonexistent-root", mode);
        picker.set_query("ss", &desk.disk());
        let escape = plain(KeyCode::Esc);
        assert!(matches!(desk.press(&mut picker, escape), Step::Continue));
        assert!(if mode == Mode::Browse {
            desk.browser(&mut picker).filter.is_empty()
        } else {
            picker.query.is_empty()
        });
        assert!(matches!(desk.press(&mut picker, escape), Step::Cancel));
        picker.set_query("ss", &desk.disk());
        assert!(matches!(desk.press(&mut picker, ctrl('c')), Step::Cancel));
    }
}

#[test]
fn history_errors_are_visible_on_entry_and_mode_switch_but_empty_history_is_distinct() {
    let mut desk = Desk::new(&[]);
    for via_tab in [false, true] {
        let faults =
            [Some("cannot run zoxide: missing"), Some("zoxide query failed: fixture error"), None];
        for error in faults {
            let mut picker = fresh("/nonexistent-history-root", Mode::Browse);
            let mut source = Source::start(3, Mode::Recent, &picker.root, 0);
            source.finish_scan(match error {
                Some(error) => Err(error.to_string()),
                None => Ok(Vec::new()),
            });
            picker.sources[mode_index(Mode::Recent)] = Some(source);
            if via_tab {
                picker.mode = Mode::Files;
                picker.search_mode = Mode::Files;
            }
            picker.places = Some(Mode::Recent);
            let text = desk.draw(&mut picker, 100, 16).whole();
            if let Some(error) = error {
                assert!(text.contains(error), "{text}");
                assert!(text.contains("F5: retry"));
                assert!(!text.contains("No history yet"));
            } else {
                assert!(text.contains("No history yet"));
            }
            // Esc closes the list and leaves the screen under it alone.
            desk.press(&mut picker, plain(KeyCode::Esc));
            assert!(picker.places.is_none());
            assert_eq!(picker.mode, if via_tab { Mode::Files } else { Mode::Browse });
        }
    }
}

#[test]
fn the_tab_hints_stay_on_a_narrow_screen() {
    let desk = Desk::new(&["/r/"]);
    for width in [80u16, 120] {
        for (mode, wanted) in [(Mode::Dirs, "Tab: browse"), (Mode::Browse, "Tab: dirs")] {
            let mut picker = fresh("/r", mode);
            let bottom = desk.draw(&mut picker, width, 12).row(11);
            // Whole, and first: what does not fit is left off the end rather
            // than cut from the start of the line.
            let (before, _) = bottom
                .split_once(&format!(" {wanted}  "))
                .unwrap_or_else(|| panic!("{width} {mode:?}: {bottom}"));
            assert!(
                before.chars().all(|ch| ch == '╰' || ch == '─'),
                "{width} {mode:?}: {bottom}"
            );
        }
    }
}

#[test]
fn tab_goes_between_the_search_and_browse() {
    let mut desk = Desk::new(&["/r/inner/"]);
    let tab = plain(KeyCode::Tab);
    // The key hints on the bottom border, wide enough not to be cut.
    let hints = |desk: &Desk, picker: &mut Picker| desk.draw(picker, 160, 12).row(11);

    // Opened as cf: Tab pairs browse with files, not with dirs, so a file
    // search is not lost to a look around.
    let mut picker = fresh("/r", Mode::Files);
    desk.press(&mut picker, tab);
    assert_eq!(picker.mode, Mode::Browse);
    // Browse says where Tab goes back to.
    let said = hints(&desk, &mut picker);
    assert!(said.contains("Tab: files"), "{said}");
    desk.press(&mut picker, tab);
    assert_eq!(picker.mode, Mode::Files);
    // The search names both ways out: browse, and the next search.
    let said = hints(&desk, &mut picker);
    assert!(said.contains("Tab: browse"), "{said}");
    assert!(said.contains("S-Tab: dirs"), "{said}");

    // Shift-Tab picks the other search, and Tab then pairs browse with that.
    desk.press(&mut picker, back_tab());
    assert_eq!(picker.mode, Mode::Dirs);
    desk.press(&mut picker, back_tab());
    assert_eq!(picker.mode, Mode::Files);
    desk.press(&mut picker, back_tab());
    assert_eq!(picker.mode, Mode::Dirs, "Shift-Tab stopped in browse");
    desk.press(&mut picker, tab);
    assert_eq!(picker.mode, Mode::Browse);
    // In browse, Shift-Tab switches between the columns and the tree, and each
    // names where it leads.
    assert!(hints(&desk, &mut picker).contains("S-Tab: tree"));
    desk.press(&mut picker, back_tab());
    assert!(picker.in_tree(), "Shift-Tab did not open the tree");
    assert!(hints(&desk, &mut picker).contains("S-Tab: browse"));
    desk.press(&mut picker, back_tab());
    assert!(picker.mode == Mode::Browse && !picker.tree_view);
    // Tab still goes back to the search, from either.
    desk.press(&mut picker, tab);
    assert_eq!(picker.mode, Mode::Dirs);

    // Opened straight into browse, Tab starts the directory search.
    let mut picker = fresh("/r", Mode::Browse);
    let said = hints(&desk, &mut picker);
    assert!(said.contains("Tab: dirs"), "{said}");
    desk.press(&mut picker, tab);
    assert_eq!(picker.mode, Mode::Dirs);

    // A click on a tab goes to that mode, and a search reached that way is the
    // one Tab comes back to.
    let mut picker = fresh("/r", Mode::Dirs);
    desk.switch_to(&mut picker, Mode::Files);
    desk.press(&mut picker, tab);
    assert_eq!(picker.mode, Mode::Browse);
    desk.press(&mut picker, tab);
    assert_eq!(picker.mode, Mode::Files);
}

#[test]
fn list_dir_puts_directories_first() {
    let desk = Desk::new(&["/p/zeta/", "/p/beta.txt", "/p/Alpha.txt"]);
    let mut world = desk.world(&fresh("/p", Mode::Browse));
    let names = list_dir(&at("/p"), &world, ON);
    assert_eq!(names, ["zeta/", "Alpha.txt", "beta.txt"]);
    world.unreadable.push(at("/p"));
    assert_eq!(list_dir(&at("/p"), &world, ON), ["(unreadable)"]);
}

#[test]
fn the_only_candidate_is_taken_and_nothing_else_is() {
    let entry = Some(Entry::absolute(&at("/r/a"), ON));
    let only = only_candidate(&None, 1, &entry, Mode::Recent, ON);
    assert!(matches!(only, Only::Path(p) if p == "/r/a"));
    assert!(matches!(only_candidate(&None, 2, &entry, Mode::Recent, ON), Only::More));
    assert!(matches!(only_candidate(&None, 0, &None, Mode::Recent, ON), Only::Nothing));
    let failed = Some("cannot run zoxide".to_string());
    let only = only_candidate(&failed, 1, &entry, Mode::Recent, ON);
    assert!(matches!(only, Only::Failed(said) if said == "cannot run zoxide"));
}

fn opening(mode: Mode, query: &str) -> Opening {
    Opening {
        mode,
        query: query.into(),
        root: at("/r"),
        config: config(),
        after_action: Then::Stay,
        on: ON,
        pinned: Ok(Index::empty(ON)),
        refused: None,
    }
}

#[test]
fn a_picker_opens_where_it_is_asked_to_with_what_is_typed() {
    let desk = Desk::new(&["/r/inner/", "/r/other/"]);
    let disk = desk.disk();
    let (picker, reload) = Picker::open(opening(Mode::Files, "inn"), &disk);
    assert!(!reload);
    assert_eq!((picker.mode, picker.search_mode), (Mode::Files, Mode::Files));
    assert_eq!(picker.query, "inn");
    assert!(picker.browser.is_none() && picker.notice.is_none());

    let (picker, _) = Picker::open(opening(Mode::Browse, "inn"), &disk);
    let browser = picker.browser.as_ref().unwrap();
    assert_eq!(browser.filter, "inn");
    assert_eq!(shown(browser.selected_path()), Some("/r/inner".into()));

    // A list of places floats over browse, and takes the query.
    let (picker, reload) = Picker::open(opening(Mode::Favorites, "inn"), &disk);
    assert!(reload);
    assert_eq!((picker.mode, picker.search_mode), (Mode::Browse, Mode::Dirs));
    assert_eq!(picker.places, Some(Mode::Favorites));
    assert_eq!((picker.places_query.as_str(), picker.query.as_str()), ("inn", ""));

    // A root that is not searched opens in browse and says why.
    let asked = Opening { refused: Some("blocked".into()), ..opening(Mode::Dirs, "") };
    let (picker, _) = Picker::open(asked, &disk);
    assert_eq!(picker.mode, Mode::Browse);
    assert_eq!(picker.notice.as_deref(), Some("Opened in browse: blocked"));

    // Favorites that cannot be read are said, and no folder is marked.
    let asked = Opening { pinned: Err("broken".into()), ..opening(Mode::Dirs, "") };
    let (picker, _) = Picker::open(asked, &disk);
    assert_eq!(picker.notice.as_deref(), Some("Cannot load favorite markers: broken"));
    assert!(!picker.pinned.contains(&at("/r")));
}

#[test]
fn enter_takes_what_is_selected_and_nothing_where_there_is_nothing() {
    let mut desk = Desk::named(&["/r/a/x.txt"], &[("/elsewhere", "far")]);
    let mut picker = searching(&desk, "/r", Mode::Files, "");
    let world = desk.world(&picker);
    let entry = picker.accept(&world);
    // A file picked in files hands back its folder.
    assert_eq!((picker.output(&entry)), Some("/r/a".into()));
    // A place is handed back as it is, whatever screen its list is over.
    desk.press(&mut picker, ctrl('s'));
    desk.settle(&mut picker);
    let world = desk.world(&picker);
    let entry = picker.accept(&world);
    assert_eq!((picker.output(&entry)), Some("/elsewhere".into()));
    let mut picker = searching(&desk, "/r", Mode::Dirs, "no such");
    let world = desk.world(&picker);
    assert!(picker.accept(&world).is_none());
    // In browse a file stands for the folder it is in.
    let mut picker = fresh("/r/a", Mode::Browse);
    let world = desk.world(&picker);
    let entry = picker.accept(&world);
    assert_eq!((picker.output(&entry)), Some("/r/a".into()));
}

fn action(name: &str, follow: Option<Then>, copies: bool) -> Action {
    Action { id: 0, name: name.into(), key: Some('q'), run_mode: RunMode::Detached, follow, copies }
}

#[test]
fn what_follows_an_action_is_its_own_say_or_the_run_s() {
    let desk = Desk::new(&["/r/a/x.txt"]);
    let disk = desk.disk();
    let mut picker = fresh("/r", Mode::Browse);
    assert!(!picker.follow(&action("Edit", None, false), &at("/r/a/x.txt"), &disk));
    assert!(picker.follow(&action("Edit", Some(Then::Quit), false), &at("/r/a/x.txt"), &disk));
    assert!(picker.after_cd.is_none());
    // Ending with cd goes to the folder, or to the one that holds the file.
    assert!(picker.follow(&action("Edit", Some(Then::Cd), false), &at("/r/a/x.txt"), &disk));
    assert_eq!((picker.output(&None)), Some("/r/a".into()));
    picker.after_action = Then::Cd;
    assert!(picker.follow(&action("Edit", None, false), &at("/r/a"), &disk));
    assert_eq!((picker.output(&None)), Some("/r/a".into()));
}

#[test]
fn what_an_action_came_to_is_said() {
    let mut desk = Desk::new(&["/r/a/"]);
    let mut picker = fresh("/r", Mode::Browse);
    desk.browser(&mut picker);
    picker.ran_detached(&action("Copy path", None, true), Ok(None));
    assert_eq!(picker.notice.as_deref(), Some("Copied: Copy path"));
    picker.ran_detached(&action("Edit", None, false), Ok(None));
    assert_eq!(picker.notice.as_deref(), Some("Started: Edit"));
    picker.ran_detached(&action("Edit", None, false), Ok(Some(at("/t/x"))));
    assert_eq!(picker.notice.as_deref(), Some("Temporary copy: /t/x"));
    picker.ran_detached(&action("Edit", None, false), Err("denied".into()));
    assert_eq!(picker.notice.as_deref(), Some("Edit: denied"));
    // What ran in the terminal may have changed the folder, so it is read again.
    desk.paths.push("/r/b/".into());
    picker.ran_in_terminal("Build", "exit status 1", &desk.disk());
    assert_eq!(picker.notice.as_deref(), Some("Build: exit status 1"));
    assert_eq!(desk.browser(&mut picker).items().len(), 2);
}

#[test]
fn ctrl_b_pins_and_unpins_what_is_selected() {
    let mut desk = Desk::new(&["/r/work/"]);
    let mut picker = fresh("/r", Mode::Browse);
    desk.press(&mut picker, ctrl('b'));
    assert_eq!(picker.notice.as_deref(), Some("Pinned: /r/work"));
    assert!(picker.pinned.contains(&at("/r/work")));
    desk.press(&mut picker, ctrl('b'));
    assert_eq!(picker.notice.as_deref(), Some("Unpinned: /r/work"));
    assert!(!picker.pinned.contains(&at("/r/work")));
    // One that is gone cannot be pinned.
    picker.pin_done(&at("/r/work"), Err("it is not a directory".into()));
    let said = "Cannot update favorites: it is not a directory";
    assert_eq!(picker.notice.as_deref(), Some(said));
}

#[test]
fn a_place_that_is_not_searched_opens_in_browse() {
    let desk = Desk::new(&["/r/a/", "/far/inner/"]);
    let mut picker = fresh("/r", Mode::Dirs);
    picker.places = Some(Mode::Recent);
    let mut world = desk.world(&picker);
    world.refused.push(Refused { path: at("/far"), reason: "blocked".into() });
    picker.go_to_place(&at("/far"), &world);
    assert_eq!(picker.mode, Mode::Browse);
    assert_eq!(desk.cwd(&mut picker), "/far");
    assert!(picker.notice.as_deref().unwrap().contains("blocked"));
    assert!(picker.places.is_none());
}

#[test]
fn the_trail_keeps_its_latest_steps() {
    let desk = Desk::new(&["/r/"]);
    let mut picker = fresh("/r/0", Mode::Dirs);
    for i in 1..=ROOT_HISTORY + 5 {
        picker.set_root(at(&format!("/r/{i}")));
    }
    assert_eq!(picker.roots_back.len(), ROOT_HISTORY);
    let mut steps = 0;
    while picker.root_history(false) {
        steps += 1;
    }
    assert_eq!(steps, ROOT_HISTORY);
    assert_eq!(text_of(&picker.root), "/r/5");
    assert!(picker.has_root_history(true) && !picker.has_root_history(false));
    // Somewhere new ends what was ahead.
    picker.set_root(at("/r"));
    assert!(!picker.has_root_history(true));
    desk.toggle_browse(&mut picker);
    assert_eq!(desk.cwd(&mut picker), "/r");
}

#[test]
fn toggling_the_tree_twice_stays_where_it_was() {
    let desk = Desk::new(&["/r/a/", "/r/b/", "/r/c.txt"]);
    let mut picker = fresh("/r", Mode::Browse);
    desk.browser(&mut picker).select(1);
    let world = desk.world(&picker);
    picker.toggle_tree(&world);
    assert!(picker.in_tree());
    assert_eq!(desk.selected(&mut picker), Some("/r/b".into()));
    picker.toggle_tree(&world);
    assert!(!picker.in_tree());
    assert_eq!(desk.cwd(&mut picker), "/r");
    assert_eq!(desk.selected(&mut picker), Some("/r/b".into()));
}

#[test]
fn alt_and_a_letter_run_an_action_whatever_is_typed() {
    let mut desk = Desk::new(&["/r/a/"]);
    let mut picker = fresh("/r", Mode::Browse);
    let items = vec![action("Quick look", None, false)];
    picker.open_menu(Menu::new(at("/r/a"), items, Vec::new(), None, None));
    desk.press(&mut picker, letter('/'));
    desk.type_in(&mut picker, "zzz");
    // Only Esc and running something close it, and its target stays.
    assert_eq!(text_of(&picker.menu.as_ref().unwrap().target), "/r/a");
    let step = desk.press(&mut picker, alt(KeyCode::Char('q')));
    assert!(matches!(step, Step::Execute(a, p) if a.name == "Quick look" && text_of(&p) == "/r/a"));
}

#[test]
fn opening_and_showing_a_path_elsewhere_are_asked_of_the_program() {
    let mut desk = Desk::new(&["/r/report.xlsx"]);
    let mut picker = fresh("/r", Mode::Browse);
    let step = desk.press(&mut picker, ctrl('o'));
    assert!(matches!(step, Step::Launch(p) if text_of(&p) == "/r/report.xlsx"));
    let step = desk.press(&mut picker, ctrl('e'));
    assert!(matches!(step, Step::ShowFolder(p) if text_of(&p) == "/r/report.xlsx"));
}

#[test]
fn a_name_that_is_taken_is_refused_and_said() {
    let mut desk = Desk::named(&["/r/a/", "/r/b/"], &[("/r/b", "work")]);
    let mut picker = fresh("/r", Mode::Browse);
    desk.press(&mut picker, ctrl('n'));
    desk.type_in(&mut picker, "work");
    desk.press(&mut picker, plain(KeyCode::Enter));
    let notice = picker.notice.clone().unwrap();
    assert!(notice.starts_with("Cannot name the favorite: "), "{notice}");
    assert!(!picker.pinned.contains(&at("/r/a")));
}

fn report(finished: Option<Result<Vec<u32>, String>>, listed: u32, count: u32) -> Report {
    Report { finished, truncated: false, changed: false, running: false, listed, sent: 3, count }
}

#[test]
fn a_list_is_drawn_again_while_it_fills_and_once_more_when_it_is_done() {
    let desk = Desk::new(&["/r/a/", "/r/b/", "/r/c/"]);
    let mut picker = fresh("/r", Mode::Dirs);
    assert!(picker.tick_list(report(None, 1, 1)), "the scan is on");
    list_of(&mut picker, Mode::Dirs).selected = 9;
    assert!(picker.tick_list(report(Some(Ok(vec![2, 0, 1])), 2, 2)), "it has just ended");
    let source = list_of(&mut picker, Mode::Dirs);
    assert!(source.scan_done && source.browse_order.is_none());
    assert_eq!(source.selected, 1);
    assert!(!picker.tick_list(report(None, 3, 3)), "nothing happens any more");
    let source = list_of(&mut picker, Mode::Dirs);
    assert_eq!(source.browse_order, Some(vec![2, 0, 1]));
    assert!(!picker.tick_places(report(None, 3, 3)), "no list of places is open");
    let matched = Report { changed: true, ..report(None, 3, 3) };
    assert!(picker.tick_list(matched));
    // Browse has no list.
    desk.toggle_browse(&mut picker);
    assert!(!picker.tick_list(report(Some(Err("late".into())), 3, 3)));
}

#[test]
fn a_tree_s_search_is_built_again_as_matches_arrive() {
    let mut desk = Desk::new(&["/r/src/gauge.rs"]);
    let disk = desk.disk();
    let mut picker = fresh("/r", Mode::Browse);
    assert!(!picker.tick_tree_search(report(None, 0, 0), Vec::new(), &disk), "not in the tree");
    picker.tree_view = true;
    desk.type_in(&mut picker, "gauge");
    let entry = Entry::new(&at("/r"), "/r/src/gauge.rs", "src/gauge.rs", false);
    let heard = Report { changed: true, ..report(Some(Ok(vec![0])), 1, 1) };
    assert!(picker.tick_tree_search(heard, vec![(entry, false)], &disk));
    assert_eq!(desk.selected(&mut picker), Some("/r/src/gauge.rs".into()));
    assert!(!picker.tick_tree_search(report(None, 1, 1), Vec::new(), &disk));
    assert!(picker.found.is_some(), "nothing new, so it stays");
}

#[test]
fn a_click_on_a_row_of_the_menu_runs_it_and_the_next_press_is_swallowed() {
    let mut desk = Desk::new(&["/r/a/"]);
    let mut picker = fresh("/r", Mode::Browse);
    let items = vec![action("Quick look", None, false)];
    picker.open_menu(Menu::new(at("/r/a"), items, Vec::new(), None, None));
    desk.draw(&mut picker, 100, 25);
    let rows = picker.menu.as_ref().unwrap().mouse_rows;
    let world = desk.world(&picker);
    let step = picker.handle_pointer(click(rows.x, rows.y), &world);
    assert!(matches!(step, Step::Execute(a, p) if a.name == "Quick look" && text_of(&p) == "/r/a"));
    assert!(picker.clicks_blocked(desk.now));
    // A click in the panel of keys types the key of its row.
    desk.now += CLICK_GUARD;
    desk.press(&mut picker, ctrl(' '));
    desk.draw(&mut picker, 100, 40);
    let rows = picker.keys.as_ref().unwrap().mouse_rows;
    let world = desk.world(&picker);
    picker.handle_pointer(click(rows.x, rows.y), &world);
    assert!(picker.keys.is_none());
}

#[test]
fn a_failure_stays_until_the_next_press() {
    let mut desk = Desk::new(&["/r/a/"]);
    let mut picker = fresh("/r", Mode::Browse);
    desk.draw(&mut picker, 90, 20);
    picker.report_open(&at("/r/a"), Err("missing".into()), desk.now);
    // The wheel is not a press.
    desk.point(&mut picker, mouse(MouseKind::ScrollDown, 2, 5));
    assert!(picker.notice.is_some());
    desk.point(&mut picker, click(2, 5));
    assert!(picker.notice.is_none());
}

#[test]
fn a_right_press_leaves_everything_where_it_was() {
    let mut desk = Desk::new(&["/r/a/", "/r/b.txt"]);
    let mut picker = fresh("/r", Mode::Browse);
    desk.draw(&mut picker, 90, 20);
    let rows = picker.mouse.rows.area;
    let world = desk.world(&picker);
    let step = picker.handle_pointer(mouse(MouseKind::Down(Button::Right), rows.x, rows.y), &world);
    assert!(matches!(step, Step::Launch(path) if text_of(&path) == "/r/a"));
    assert_eq!(picker.mode, Mode::Browse);
    assert_eq!(desk.cwd(&mut picker), "/r");
    // A left press on the same row only selects it.
    let world = desk.world(&picker);
    let step = picker.handle_pointer(click(rows.x, rows.y), &world);
    assert!(matches!(step, Step::Continue));
}

#[test]
fn a_search_does_not_start_above_the_top() {
    let desk = Desk::new(&["/r/a/"]);
    let mut picker = fresh("/", Mode::Dirs);
    let world = desk.world(&picker);
    picker.navigate(Nav::Up, &world);
    assert_eq!(text_of(&picker.root), "/");
    assert_eq!(picker.notice.as_deref(), Some("Already at the top of the drive"));
}

#[test]
fn esc_closes_the_panel_of_keys_and_does_nothing_else() {
    let mut desk = Desk::new(&["/r/a/"]);
    let mut picker = fresh("/r", Mode::Browse);
    desk.type_in(&mut picker, "a");
    desk.press(&mut picker, ctrl(' '));
    assert!(picker.keys.is_some());
    let step = desk.press(&mut picker, plain(KeyCode::Esc));
    assert!(matches!(step, Step::Continue));
    assert!(picker.keys.is_none());
    assert_eq!(desk.browser(&mut picker).filter, "a");
}

#[test]
fn icons_are_for_display_only() {
    let desk = Desk::new(&["/r/a/"]);
    let mut with = fresh("/r", Mode::Browse);
    with.config.icons = true;
    let mut without = fresh("/r", Mode::Browse);
    without.config.icons = false;
    assert_eq!(desk.selected(&mut with), desk.selected(&mut without));
    assert_eq!(desk.selected(&mut with), Some("/r/a".to_string()));
}

#[test]
fn an_empty_name_saved_from_the_screen_pins_the_folder() {
    let mut desk = Desk::new(&["/r/work/"]);
    let mut picker = fresh("/r", Mode::Browse);
    desk.press(&mut picker, ctrl('n'));
    desk.press(&mut picker, plain(KeyCode::Enter));
    assert!(picker.naming.is_none());
    assert_eq!(desk.favorites.len(), 1);
    assert_eq!(desk.favorites[0].path, "/r/work");
    assert_eq!(desk.favorites[0].name, None);
    assert!(picker.pinned.contains(&at("/r/work")));
}

#[test]
fn enter_right_after_a_letter_in_the_tree_goes_to_the_best_match() {
    let mut desk = Desk::new(&["/r/alpha/", "/r/gamma/deep/"]);
    let mut picker = fresh("/r", Mode::Browse);
    let world = desk.world(&picker);
    picker.toggle_tree(&world);
    desk.type_in(&mut picker, "d");
    desk.settle(&mut picker);
    // The scan is there now, so one more letter is matched before the next key.
    let world = desk.world(&picker);
    let step = picker.handle_key(letter('e'), &world);
    assert!(matches!(step, Step::Match));
    desk.perform(&mut picker, step);
    assert_eq!(desk.selected(&mut picker).as_deref(), Some("/r/gamma/deep"));
    let world = desk.world(&picker);
    let entry = picker.accept(&world);
    assert_eq!(picker.output(&entry).as_deref(), Some("/r/gamma/deep"));
    // With nothing left to search for, no match is asked for.
    let world = desk.world(&picker);
    assert!(matches!(picker.handle_key(ctrl('u'), &world), Step::Continue));
}

#[test]
fn a_full_filter_takes_every_key_but_a_letter() {
    let desk = Desk::new(&["/r/alpha/"]);
    let mut picker = fresh("/r", Mode::Browse);
    let world = desk.world(&picker);
    picker.set_query(&"a".repeat(PATTERN_LIMIT), &world.disk);
    let typed = |picker: &Picker| picker.browser.as_ref().unwrap().filter.chars().count();
    assert_eq!(typed(&picker), PATTERN_LIMIT);
    assert!(!picker.has_room(&letter('a')));
    for key in [plain(KeyCode::Esc), plain(KeyCode::Backspace), ctrl('u'), ctrl('a')] {
        assert!(picker.has_room(&key));
    }
    picker.handle_key(plain(KeyCode::Backspace), &world);
    assert_eq!(typed(&picker), PATTERN_LIMIT - 1);
    assert!(picker.has_room(&letter('a')));
    picker.handle_key(letter('a'), &world);
    assert!(!picker.has_room(&letter('a')));
    // The panel of keys reads letters, and types none.
    picker.handle_key(ctrl(' '), &world);
    assert!(picker.has_room(&letter('b')));
    assert!(matches!(picker.handle_key(letter('b'), &world), Step::Continue));
    assert_eq!(typed(&picker), PATTERN_LIMIT);
    picker.handle_key(plain(KeyCode::Esc), &world);
    assert_eq!(typed(&picker), 0);
}

#[test]
fn what_is_neither_a_folder_nor_a_file_is_still_there() {
    let mut disk = Disk::new(Vec::new());
    disk.learn_dir(at("/r"), vec![Item { name: "pipe".into(), is_dir: false }]);
    disk.learn_other(at("/r/pipe"));
    assert!(disk.is_there(&at("/r/pipe")));
    assert!(!disk.is_file(&at("/r/pipe")) && !disk.is_dir(&at("/r/pipe")));
    assert!(disk.is_dir(&at("/r")) && !disk.is_there(&at("/r/gone")));
}

#[test]
fn a_recent_place_is_printed_as_zoxide_has_it() {
    let mut desk = Desk::new(&["/r/a/", "/tmp/x/"]);
    desk.recent = vec!["/tmp/".into()];
    let mut picker = fresh("/r", Mode::Dirs);
    desk.press(&mut picker, ctrl('r'));
    desk.settle(&mut picker);
    let world = desk.world(&picker);
    let entry = picker.accept(&world);
    assert_eq!(picker.output(&entry).as_deref(), Some("/tmp/"));
}
