use tadoru::action_menu::{Action, Decision, Menu, RunMode};
use tadoru::draw::tail;
use tadoru::drawn::Drawn;
use tadoru::fs_path::{FsPath, Platform};
use tadoru::key_menu::{self, Command, KeyMenu};
use tadoru::keys::{KeyCode, KeyEvent, Modifiers};
use tadoru::mode::{Mode, Then};
use tadoru::screen::{Button, MouseEvent, MouseKind, Piece, Rect};
use unicode_width::UnicodeWidthChar;

const ON: Platform = Platform::Unix;

const REVEAL: usize = 0;
const COPY: usize = 1;
const EDITOR: usize = 2;
const CUSTOM: usize = 3;
const FOLDER: usize = 4;

fn action(id: usize, name: &str, key: Option<char>) -> Action {
    Action {
        id,
        name: name.into(),
        key,
        run_mode: RunMode::Detached,
        follow: None,
        copies: id == COPY,
    }
}

fn manager() -> Action {
    action(REVEAL, "Open in file manager", Some('f'))
}

fn copy() -> Action {
    action(COPY, "Copy path", Some('c'))
}

fn editor() -> Action {
    action(EDITOR, "Open in VS Code", Some('v'))
}

fn menu_of(items: Vec<Action>) -> Menu {
    Menu::new(
        FsPath::parse("selected file.txt", ON),
        items,
        vec![action(FOLDER, "Open temporary copies folder", None)],
        None,
        None,
    )
}

fn key(code: KeyCode) -> KeyEvent {
    KeyEvent::plain(code)
}

fn letter(ch: char) -> KeyEvent {
    key(KeyCode::Char(ch))
}

fn with_alt(ch: char) -> KeyEvent {
    KeyEvent {
        code: KeyCode::Char(ch),
        modifiers: Modifiers { ctrl: false, alt: true, shift: false, other: false },
    }
}

fn with_ctrl(ch: char) -> KeyEvent {
    KeyEvent { code: KeyCode::Char(ch), modifiers: Modifiers::control() }
}

fn click(column: u16, row: u16) -> MouseEvent {
    MouseEvent { kind: MouseKind::Down(Button::Left), column, row, ctrl: false }
}

fn runs(decision: Decision, id: usize) -> bool {
    matches!(decision, Decision::Run(action) if action.id == id)
}

fn area(width: u16, height: u16) -> Rect {
    Rect { x: 0, y: 0, width, height }
}

// What is drawn, cell by cell.
struct Screen {
    cells: Vec<Vec<String>>,
}

impl Screen {
    fn new(width: u16, height: u16) -> Screen {
        Screen { cells: vec![vec![" ".to_string(); width as usize]; height as usize] }
    }

    fn write(&mut self, area: Rect, y: u16, text: &str) {
        let mut x = area.x as usize;
        let end = (area.x + area.width) as usize;
        for c in text.chars() {
            let w = c.width().unwrap_or(0);
            if x + w > end || y as usize >= self.cells.len() {
                break;
            }
            self.cells[y as usize][x] = c.to_string();
            for k in 1..w {
                self.cells[y as usize][x + k] = String::new();
            }
            x += w;
        }
    }

    fn line(&mut self, area: Rect, y: u16, pieces: &[Piece]) {
        let text: String = pieces.iter().map(|p| p.text.as_str()).collect();
        self.write(area, y, &text);
    }

    fn draw(&mut self, drawn: &[Drawn]) {
        for d in drawn {
            match d {
                Drawn::Clear(area) => {
                    for y in area.y..area.y + area.height {
                        self.write(*area, y, &" ".repeat(area.width as usize));
                    }
                }
                Drawn::Line { area, pieces } => {
                    if area.height > 0 {
                        self.line(*area, area.y, pieces);
                    }
                }
                Drawn::Text { area, text, .. } => {
                    for (k, line) in text.lines().take(area.height as usize).enumerate() {
                        self.write(*area, area.y + k as u16, line);
                    }
                }
                Drawn::Rows { area, rows } => {
                    for (k, row) in rows.iter().take(area.height as usize).enumerate() {
                        self.line(*area, area.y + k as u16, &row.pieces);
                    }
                }
                _ => {}
            }
        }
    }

    fn row(&self, from: u16, to: u16, y: u16) -> String {
        self.cells[y as usize][from as usize..to as usize].concat().trim_end().to_string()
    }

    fn all(&self) -> String {
        self.cells.iter().map(|line| line.concat()).collect()
    }
}

fn painted(menu: &mut Menu, width: u16, height: u16) -> Screen {
    let mut screen = Screen::new(width, height);
    screen.draw(&menu.render(area(width, height), ON));
    screen
}

#[test]
fn ctrl_x_switches_what_follows_an_action_between_staying_and_quitting() {
    let mut menu = menu_of(Vec::new()).then(Then::Quit);
    assert!(matches!(menu.handle(with_ctrl('x')), Decision::Stay));
    assert_eq!(menu.after, Then::Stay);
    menu.handle(with_ctrl('x'));
    assert_eq!(menu.after, Then::Quit);
    // cd leaves the screen too, so from it the switch goes to stay.
    let mut menu = menu_of(Vec::new()).then(Then::Cd);
    menu.handle(with_ctrl('x'));
    assert_eq!(menu.after, Then::Stay);
}

#[test]
fn the_menu_floats_at_the_bottom_right_and_leaves_the_list_in_view() {
    let mut menu = menu_of(vec![manager(), copy()]);
    let whole = area(120, 30);
    let panel = menu.panel(whole);
    // Inside the picker's own border, against its right and bottom edges.
    assert_eq!(panel.right(), whole.right() - 2);
    assert_eq!(panel.bottom(), whole.bottom() - 1);
    // Two actions, the target and prompt lines, the zone below and borders.
    assert_eq!(panel.height, 2 + 2 + 2 + 2);
    assert!(panel.width < whole.width / 2, "{panel:?}");

    // What is already on screen to the left of it is not painted over.
    let mut screen = Screen::new(120, 30);
    screen.write(whole, 25, &"x".repeat(120));
    screen.draw(&menu.render(whole, ON));
    assert_eq!(screen.cells[25][0], "x");
    assert_eq!(screen.cells[25][panel.x as usize - 1], "x");
    assert_ne!(screen.cells[25][panel.x as usize + 1], "x");

    // The panel keeps its size while a filter hides rows, so it does not
    // jump about under the pointer.
    menu.handle(key(KeyCode::Tab));
    menu.handle(letter('z'));
    assert!(menu.visible.is_empty());
    assert_eq!(menu.panel(whole), panel);

    // Without room to float it takes the whole area, as a small terminal needs.
    let small = area(40, 9);
    assert_eq!(menu.panel(small), small);
}

#[test]
fn a_long_target_keeps_its_name_in_sight() {
    assert_eq!(tail("short", 10), "short");
    assert_eq!(tail("C:\\work\\project\\report.xlsx", 12), "…report.xlsx");
    // Wide characters are counted by the columns they take.
    assert_eq!(tail("資料/日本語.txt", 11), "…日本語.txt");
}

#[test]
fn a_tall_window_keeps_the_zone_next_to_the_list() {
    let mut menu = menu_of(vec![manager(), editor(), copy()]);
    let screen = painted(&mut menu, 46, 26);
    let row = |y: u16| screen.row(1, 45, y);
    // Three actions on rows 3 to 5, then the zone. Pinning it to the foot
    // of the window instead left eighteen blank rows between the two.
    assert_eq!(row(5), "  c → Copy path");
    assert_eq!(row(6), "─".repeat(44));
    assert_eq!(row(7), "      Open temporary copies folder");
    assert_eq!(row(8), "");
}

#[test]
fn the_copies_folder_sits_apart_from_the_actions_on_the_selection() {
    let mut menu = menu_of(vec![manager(), copy()]);
    let screen = painted(&mut menu, 46, 12);
    // A blank line keeps it from reading as the last row of the list.
    assert_eq!(screen.row(1, 45, 5), "─".repeat(44));
    assert_eq!(screen.row(1, 45, 6), "      Open temporary copies folder");

    // The filter never hides it, because it is not one of the items.
    menu.handle(key(KeyCode::Tab));
    for ch in "zzz".chars() {
        menu.handle(letter(ch));
    }
    assert!(menu.visible.is_empty());
    let screen = painted(&mut menu, 46, 12);
    // With nothing matching, the list keeps one row for its message and
    // the zone stays right under it.
    assert_eq!(screen.row(1, 45, 4), "─".repeat(44));
    assert_eq!(screen.row(1, 45, 5), "      Open temporary copies folder");

    // It has no key; t opens a temporary copy of a file instead, and with
    // no file selected it does nothing. A click runs it.
    assert!(matches!(menu.handle(with_alt('t')), Decision::Stay));
    assert!(menu.handle_mouse(click(menu.mouse_tools.x, menu.mouse_tools.y)));
    assert!(runs(menu.handle(key(KeyCode::Enter)), FOLDER));
    // A click elsewhere afterwards must not run it a second time.
    assert!(!runs(menu.handle(key(KeyCode::Enter)), FOLDER));
}

#[test]
fn a_menu_with_no_config_says_how_to_start_one() {
    let mut menu = menu_of(vec![manager()]);
    menu.hint = Some("No actions.json yet. Run tadoru actions init to add your own.".into());
    let screen = painted(&mut menu, 70, 10).all();
    assert!(screen.contains("tadoru actions init"), "{screen}");
    // The list still starts below it rather than being pushed off screen.
    assert!(screen.contains("Open in file manager"), "{screen}");

    menu.hint = None;
    let screen = painted(&mut menu, 70, 10).all();
    assert!(!screen.contains("actions init"), "{screen}");
}

#[test]
fn the_menu_starts_on_its_keys_and_only_types_once_asked() {
    let mut menu = menu_of(vec![manager(), copy()]);
    assert!(!menu.filtering);
    // A bare letter runs its action, which is the whole point of opening
    // on the keys rather than on a text box.
    assert!(runs(menu.handle(letter('c')), COPY));
    assert!(menu.query.is_empty());
    // A letter no action claims must not type, or the mode would be a lie.
    assert!(matches!(menu.handle(letter('z')), Decision::Stay));
    assert!(menu.query.is_empty());

    for enter in [KeyCode::Tab, KeyCode::Char('/')] {
        menu.handle(key(enter));
        assert!(menu.filtering, "{enter:?}");
        for ch in "copy".chars() {
            menu.handle(letter(ch));
        }
        assert_eq!(menu.query, "copy", "{enter:?}");
        assert_eq!(menu.visible, [1], "{enter:?}");
        // Leaving drops the text, so the next key acts on the whole list.
        menu.handle(key(KeyCode::Tab));
        assert!(!menu.filtering, "{enter:?}");
        assert!(menu.query.is_empty(), "{enter:?}");
        assert_eq!(menu.visible, [0, 1], "{enter:?}");
    }
}

#[test]
fn an_alt_key_runs_its_action_even_while_the_filter_hides_it() {
    let mut menu = menu_of(vec![manager(), copy()]);
    menu.handle(key(KeyCode::Tab));
    assert!(menu.filtering);
    for ch in "reveal".chars() {
        menu.handle(letter(ch));
    }
    assert!(!menu.visible.contains(&1), "copy path should be filtered out");
    assert!(runs(menu.handle(with_alt('c')), COPY));
    // A letter nothing claims does nothing, rather than closing or typing.
    assert!(matches!(menu.handle(with_alt('z')), Decision::Stay));
    assert_eq!(menu.query, "reveal");
}

#[test]
fn a_configured_key_takes_the_letter_from_the_built_in_action() {
    let mut menu = menu_of(vec![manager(), copy(), action(CUSTOM, "Compare", Some('c'))]);
    assert_eq!(menu.owner('c'), Some(2));
    assert_eq!(menu.shown_key(2), Some('c'));
    // The built-in keeps its letter in the enum but must not advertise one
    // it no longer runs.
    assert_eq!(menu.shown_key(1), None);
    assert_eq!(menu.shown_key(0), Some('f'));
    assert_eq!(menu.tool_owner('c'), None);

    let screen = painted(&mut menu, 44, 10);
    // The names line up because the row without a key is padded to match.
    assert_eq!(screen.row(1, 43, 3), "▌ f → Open in file manager");
    assert_eq!(screen.row(1, 43, 4), "      Copy path");
    assert_eq!(screen.row(1, 43, 5), "  c → Compare");

    // With the filter focused the same keys need Alt, and say so.
    menu.handle(key(KeyCode::Tab));
    let screen = painted(&mut menu, 44, 10);
    assert_eq!(screen.row(1, 43, 3), "▌ alt+f → Open in file manager");
    assert_eq!(screen.row(1, 43, 2), ">");
}

#[test]
fn alt_and_ctrl_chars_stay_out_of_the_filter() {
    // Started with the filter focused: this is about the modifiers, not
    // about which mode the menu opens in.
    let mut menu = menu_of(vec![manager(), copy()]);
    menu.filtering = true;
    menu.handle(with_alt('d'));
    menu.handle(with_ctrl('d'));
    assert!(menu.query.is_empty());
    assert_eq!(menu.visible, [0, 1]);
    menu.handle(letter('d'));
    assert_eq!(menu.query, "d");
    // Ctrl-H deletes as Backspace does, as in the picker.
    menu.handle(with_ctrl('h'));
    assert!(menu.query.is_empty());
}

#[test]
fn filtering_keeps_target_fixed_and_escape_only_closes_the_menu() {
    let target = FsPath::parse("selected file.txt", ON);
    let mut menu = menu_of(vec![manager(), copy()]);
    menu.filtering = true;
    for ch in "copy".chars() {
        menu.handle(letter(ch));
    }
    assert_eq!(menu.visible, [1]);
    assert!(menu.target.is(&target));
    menu.render(Rect { x: 3, y: 4, width: 50, height: 12 }, ON);
    let x = menu.mouse_rows.x;
    let valid = click(x, menu.mouse_rows.y);
    let blank = click(x, menu.mouse_tools.y + 3);
    let header = click(x, menu.mouse_rows.y - 1);
    assert!(!menu.handle_mouse(blank));
    assert!(!menu.handle_mouse(header));
    assert!(menu.handle_mouse(valid));
    assert!(runs(menu.handle(key(KeyCode::Enter)), COPY));
    menu.handle(letter('x'));
    assert!(menu.visible.is_empty());
    assert!(matches!(menu.handle(key(KeyCode::Enter)), Decision::Stay));
    for (width, height) in [(2, 2), (40, 12), (100, 24)] {
        menu.render(area(width, height), ON);
    }
    assert!(matches!(menu.handle(key(KeyCode::Esc)), Decision::Close));
}

#[test]
fn a_plain_letter_runs_its_row_and_esc_or_ctrl_space_closes() {
    let mut menu = KeyMenu::new(Mode::Dirs, Mode::Dirs);
    assert_eq!(
        menu.handle(letter('s')),
        key_menu::Decision::Run(Command::Go(Mode::Favorites))
    );
    assert_eq!(menu.handle(letter('B')), key_menu::Decision::Run(Command::Go(Mode::Browse)));
    assert_eq!(
        menu.handle(letter('a')),
        key_menu::Decision::Run(Command::Press(KeyCode::Char('p'), Modifiers::control()))
    );
    // A letter with no row does nothing rather than closing the panel.
    assert_eq!(menu.handle(letter('z')), key_menu::Decision::Stay);
    for close in [key(KeyCode::Esc), with_ctrl(' ')] {
        assert_eq!(menu.handle(close), key_menu::Decision::Close);
    }
}

#[test]
fn it_opens_on_the_current_tab_and_enter_runs_the_selection() {
    let mut menu = KeyMenu::new(Mode::Recent, Mode::Browse);
    assert_eq!(
        menu.handle(key(KeyCode::Enter)),
        key_menu::Decision::Run(Command::Go(Mode::Recent))
    );
    menu.handle(key(KeyCode::Down));
    assert_eq!(
        menu.handle(key(KeyCode::Enter)),
        key_menu::Decision::Run(Command::Go(Mode::Favorites))
    );
    // Every key is its own, or a letter would run the wrong row.
    let mut keys: Vec<char> = menu.entries.iter().map(|entry| entry.key).collect();
    keys.sort_unstable();
    keys.dedup();
    assert_eq!(keys.len(), menu.entries.len());
}

#[test]
fn rows_name_the_shortcut_and_clicks_land_on_the_right_row() {
    let mut menu = KeyMenu::new(Mode::Browse, Mode::Browse);
    let mut screen = Screen::new(120, 30);
    screen.draw(&menu.render(area(120, 30)));
    let rows = menu.mouse_rows;
    let text = |y: u16| screen.row(rows.x, rows.right(), y);
    assert!(text(rows.y).starts_with("  d → dirs"), "{}", text(rows.y));
    assert!(text(rows.y).trim_end().ends_with("^D"));
    // Opened from browse, the two moves are named for what they do there.
    assert!(text(rows.y + 6).contains("l → Go down a level"));
    assert!(text(rows.y + 5).starts_with("─"));
    // From favorites the same row says where Right goes back to.
    let names = |here, origin| -> Vec<&str> {
        KeyMenu::new(here, origin).entries.iter().map(|entry| entry.name).collect()
    };
    assert!(names(Mode::Favorites, Mode::Files).contains(&"Search files from it"));
    assert!(names(Mode::Favorites, Mode::Browse).contains(&"Show it in browse"));
    assert!(names(Mode::Dirs, Mode::Dirs).contains(&"Go into the selection"));

    // Below the rule the rows are one further down than their index.
    assert_eq!(menu.handle_mouse(click(rows.x + 3, rows.y + 6)), Some(KeyCode::Enter));
    assert_eq!(menu.entries[menu.selected].key, 'l');
    assert_eq!(menu.handle_mouse(click(rows.x + 3, rows.y + 5)), None);
    // A click outside the panel closes it.
    assert_eq!(menu.handle_mouse(click(0, 0)), Some(KeyCode::Esc));
}

#[test]
fn what_a_row_of_the_panel_says_is_what_its_shortcut_does() {
    let menu = KeyMenu::new(Mode::Dirs, Mode::Dirs);
    let row = |key: char| {
        let entry = menu.entries.iter().find(|entry| entry.key == key).unwrap();
        (entry.name, entry.shortcut)
    };
    assert_eq!(row('o'), ("Open with default application", "^O"));
    assert_eq!(row('e'), ("Show in file manager", "^E"));
    assert_eq!(row('s'), ("Favorites", "^S"));
    assert_eq!(row('b'), ("browse", "Tab"));
    let toggle = menu.entries.iter().find(|entry| entry.key == 'v').unwrap();
    assert_eq!(toggle.command, Command::ToggleTree);
}
