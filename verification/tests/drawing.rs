use tadoru::browse_screen::lay_columns;
use tadoru::draw::{
    browse_row, centred_scroll, fit, fit_hints, footer_line, highlight_line, keep_the_end,
    scroll_thumb, scroll_window, ListRow, RowMarks,
};
use tadoru::fs_path::{FsPath, Platform};
use tadoru::header::{
    breadcrumb, clickable_crumbs, crumb_spans, place_buttons, search_location, tab_offsets,
};
use tadoru::icons::{self, Kind};
use tadoru::marks::{spread_marks, Marks};
use tadoru::mode::Mode;
use tadoru::picker::{first_search, next_search};
use tadoru::render::lay_out;
use tadoru::screen::{float, Paint, Piece, Rect};
use unicode_width::UnicodeWidthStr;

fn pieces(line: &[Piece]) -> Vec<(String, bool)> {
    line.iter().map(|p| (p.text.clone(), p.paint == Paint::Match)).collect()
}

fn marks(icons: bool, favorite: bool, inside: bool) -> RowMarks {
    RowMarks { icons, favorite, inside }
}

fn columns(row: &ListRow) -> usize {
    row.pieces.iter().map(|p| p.text.width()).sum()
}

#[test]
fn the_parent_column_keeps_the_current_folder_off_the_edges() {
    // Short lists never scroll.
    assert_eq!(centred_scroll(0, 3, 10), 0);
    assert_eq!(centred_scroll(2, 3, 10), 0);
    // In a long list the row sits in the middle, with context either side.
    assert_eq!(centred_scroll(20, 100, 10), 15);
    // Near the start and the end the window stops instead of overshooting.
    assert_eq!(centred_scroll(1, 100, 10), 0);
    assert_eq!(centred_scroll(99, 100, 10), 90);
    // A zero-height column asks for nothing.
    assert_eq!(centred_scroll(5, 100, 0), 0);
}

#[test]
fn only_the_directory_being_listed_gets_the_open_folder_icon() {
    let inside = |inside| marks(true, false, inside);
    // The folder the middle column is listing is the one actually open.
    assert_eq!(inside(true).prefix("work", true), icons::OPEN_FOLDER);
    // Everything else, selected or not, is just a folder named in a list.
    assert_ne!(inside(false).prefix("work", true), icons::OPEN_FOLDER);
    // Files are unaffected, and a pin still wins over both.
    assert_ne!(inside(true).prefix("work", false), icons::OPEN_FOLDER);
    assert_eq!(marks(true, true, true).prefix("work", true), "★ ");
}

#[test]
fn only_the_focused_column_carries_the_selection_background() {
    let none: Vec<u32> = Vec::new();
    let drawn = |current: bool, side: bool| {
        let row = browse_row("work", true, current, side, &none, 20, marks(false, false, false));
        (row.paint, row.pieces[0].text.clone())
    };

    // The middle column owns the cursor: a background and the pointer bar.
    assert_eq!(drawn(true, false), (Paint::Current, "▌ ".into()));

    // A side column marks the same directory without either, so the two
    // highlighted rows on screen cannot be mistaken for each other.
    assert_eq!(drawn(true, true), (Paint::Here, "  ".into()));

    // An ordinary side row stays muted.
    assert_eq!(drawn(false, true), (Paint::SideDir, "  ".into()));
}

#[test]
fn a_notice_is_told_apart_from_the_permanent_key_hints() {
    const HINTS: &str = " Tab: browse  Enter: cd ";

    // With nothing to say the bar is furniture, drawn like the border.
    let idle = footer_line(&None, HINTS);
    assert_eq!(idle.paint, Paint::Border);
    assert_eq!(idle.text, HINTS);

    // A confirmation has to stand out from that furniture, or it reads as
    // more of it and goes unnoticed.
    let done = footer_line(&Some("Opened: report.xlsx".into()), HINTS);
    assert_eq!(done.paint, Paint::Notice);
    assert_ne!(done.paint, Paint::Border);

    // A failure is marked apart from a confirmation again.
    for bad in ["Cannot open x: denied", "No available directory in history"] {
        assert_eq!(footer_line(&Some(bad.into()), HINTS).paint, Paint::NoticeBad);
    }
}

#[test]
fn the_cursor_walks_the_window_before_the_rows_start_moving() {
    // Ten rows on screen, forty in the list.
    let (count, height) = (40, 10);
    let mut first = 0;

    // Walking down: the rows hold still until the cursor reaches the last
    // line, then move one at a time.
    for selected in 0..height {
        first = scroll_window(first, selected, count, height);
        assert_eq!(first, 0, "moved early at {selected}");
    }
    first = scroll_window(first, height, count, height);
    assert_eq!(first, 1);

    // Now at the bottom of the window. Walking back up must bring the
    // cursor up the screen, not drag the rows with it, which is what
    // recomputing the start from the selection alone used to do.
    let mut selected = height;
    for step in 1..height {
        selected -= 1;
        let before = first;
        first = scroll_window(first, selected, count, height);
        assert_eq!(first, before, "rows moved at step {step}");
    }
    // Only once the cursor is on the first line do the rows follow.
    selected -= 1;
    first = scroll_window(first, selected, count, height);
    assert_eq!(first, 0);

    // A jump lands the target on screen rather than off it.
    assert_eq!(scroll_window(0, 39, count, height), 30);
    assert_eq!(scroll_window(30, 0, count, height), 0);
    // A list that shrank pulls the start back to where rows still exist.
    assert_eq!(scroll_window(30, 2, 20, height), 2);
    // One that now fits entirely starts at the top.
    assert_eq!(scroll_window(30, 2, 5, height), 0);
    // No room to draw anything is not a panic.
    assert_eq!(scroll_window(7, 3, count, 0), 0);
}

#[test]
fn the_thumb_touches_an_end_only_when_the_list_does() {
    assert_eq!(scroll_thumb(0, 10, 10), None);
    assert_eq!(scroll_thumb(0, 40, 0), None);
    for height in [2, 3, 7, 10] {
        for count in height + 1..=120 {
            let last = count - height;
            let mut previous = 0;
            for first in 0..=last {
                let (start, len) = scroll_thumb(first, count, height).unwrap();
                let at = format!("{first}/{count} in {height}");
                assert!(len >= 1 && start + len <= height, "{at}");
                assert!(start >= previous, "thumb moved back at {at}");
                previous = start;
                if height - len >= 2 {
                    assert_eq!(start == 0, first == 0, "{at}");
                    assert_eq!(start + len == height, first == last, "{at}");
                }
            }
        }
    }
}

#[test]
fn favorite_marker_stays_yellow_and_preserves_matches_without_nerd_icons() {
    let none: Vec<u32> = Vec::new();
    for icons in [false, true] {
        for current in [false, true] {
            let pin = marks(icons, true, false);
            let row = browse_row("日本語", true, current, false, &vec![1], 24, pin);
            assert_eq!(row.pieces[1].text, "★ ");
            assert_eq!(colour(&row.pieces[1]), Some(220));
            assert_eq!(
                pieces(&row.pieces[2..]),
                [("日".into(), false), ("本".into(), true), ("語".into(), false)]
            );
            assert_eq!(row.paint, if current { Paint::Current } else { Paint::Dir });
            for width in 2..12 {
                let row = browse_row("日本語の名前", true, current, false, &none, width, pin);
                assert!(columns(&row) <= width);
            }
        }
    }
}

/// The colour of an icon, out of the 256 of a terminal.
fn colour(piece: &Piece) -> Option<u8> {
    match piece.paint {
        Paint::Icon(kind) => Some(kind.colour()),
        _ => None,
    }
}

#[test]
fn every_kind_of_file_has_an_icon_of_its_own() {
    let kinds = [
        (Kind::Sheet, ["a.xlsx", "a.XLSM", "b/表.xls"]),
        (Kind::Table, ["a.csv", "a.TSV", "b.c.csv"]),
        (Kind::Word, ["a.docx", "a.Doc", "a.odt"]),
        (Kind::Slides, ["a.pptx", "a.PPT", "a.odp"]),
        (Kind::Pdf, ["a.pdf", "a.PDF", "x.y.pdf"]),
        (Kind::Config, ["a.toml", "a.JSON", "a.yml"]),
        (Kind::Database, ["a.db", "a.SQLite", "a.mdb"]),
        (Kind::Image, ["a.png", "a.JPG", "a.svg"]),
        (Kind::Audio, ["a.mp3", "a.WAV", "a.flac"]),
        (Kind::Video, ["a.mp4", "a.MKV", "a.mov"]),
        (Kind::Archive, ["a.zip", "a.7Z", "a.tar.gz"]),
        (Kind::File, ["a.rs", "xlsx", ".xlsx"]),
    ];
    for (i, (kind, names)) in kinds.iter().enumerate() {
        for name in names {
            assert_eq!(icons::file_kind(name), *kind, "{name}");
            assert_eq!(icons::prefix(name, false, true), kind.glyph());
            assert_eq!(icons::meaning(icons::prefix(name, false, true)), *kind);
        }
        for (other, _) in &kinds[..i] {
            assert_ne!(kind.glyph(), other.glyph());
        }
    }
    // The extension is that of the name, whatever the folders are called.
    assert_eq!(icons::file_kind("a.pdf/b"), Kind::File);
    assert_eq!(icons::file_kind("a.pdf\\b"), Kind::File);
    // A folder is a folder, and nothing is shown while icons are off.
    assert_eq!(icons::prefix("a.pdf", true, true), icons::FOLDER);
    assert_eq!(icons::meaning(icons::OPEN_FOLDER), Kind::Folder);
    assert_eq!(icons::prefix("a.pdf", false, false), "");
    assert_eq!(icons::meaning(icons::STAR), Kind::Star);
    // Green, blue, orange, red.
    let colours = [Kind::Sheet, Kind::Word, Kind::Slides, Kind::Pdf].map(Kind::colour);
    assert_eq!(colours, [71, 33, 208, 160]);
}

#[test]
fn icon_color_survives_selection_without_changing_filename_or_background() {
    for current in [false, true] {
        let row = browse_row("表.xlsx", false, current, false, &vec![0], 24, marks(true, false, false));
        assert_eq!(row.pieces[1].text, icons::prefix("表.xlsx", false, true));
        assert_eq!(colour(&row.pieces[1]), Some(71));
        assert_eq!(row.pieces[2].text, "表");
        assert_eq!(row.pieces[2].paint, Paint::Match);
        assert_eq!(row.pieces[3].text, ".xlsx");
        assert_eq!(row.pieces[3].paint, Paint::Plain);
        assert_eq!(row.paint, if current { Paint::Current } else { Paint::Plain });
    }
}

#[test]
fn browse_icons_preserve_highlights_and_fit_narrow_columns() {
    for enabled in [false, true] {
        let row =
            browse_row("日本.rs", false, false, false, &vec![1], 24, marks(enabled, false, false));
        let name = &row.pieces[if enabled { 2 } else { 1 }..];
        assert_eq!(
            pieces(name),
            [("日".into(), false), ("本".into(), true), (".rs".into(), false)]
        );
    }
    let none: Vec<u32> = Vec::new();
    for width in 2..12 {
        let row = browse_row(
            "日本語の名前.rs",
            false,
            false,
            false,
            &none,
            width,
            marks(true, false, false),
        );
        assert!(columns(&row) <= width, "overflow at width {width}");
    }
}

#[test]
fn a_long_place_keeps_its_end_and_its_name_with_the_matches_moved() {
    // Fits: nothing changes.
    assert_eq!(keep_the_end("abc", &vec![0, 2], 10), ("abc".into(), vec![0, 2]));
    // Cut from the front, one column left for the ellipsis; a hit in the
    // dropped part goes, the rest move with the text.
    let (shown, hits) = keep_the_end("0123456789", &vec![1, 7, 9], 5);
    assert_eq!(shown, "…6789");
    assert_eq!(hits, [2, 4]);
    // The name of a favorite stays whole; its hits stay put.
    let (shown, hits) = keep_the_end(":work  C:\\a\\b\\work", &vec![1, 2, 14, 15], 12);
    assert_eq!(shown, ":work  …work");
    assert_eq!(hits, [1, 2, 8, 9]);
}

#[test]
fn matched_letters_are_shared_out_among_the_rows_of_a_path() {
    for on in [Platform::Unix, Platform::Windows] {
        let sep = on.separator();
        let root = FsPath::parse("r", on);
        let src = root.join("src", on);
        let ui = src.join("ui", on);
        let gauge = ui.join("gauge.rs", on);
        let mut marks = Marks::new();
        // The s of src at 0, the u of ui at 4, and g and a at 7 and 8.
        let display = format!("src{sep}ui{sep}gauge.rs");
        spread_marks(&gauge, &display, &vec![0, 4, 7, 8], &mut marks, on);
        assert_eq!(marks.get(&src), [0]);
        assert_eq!(marks.get(&ui), [0]);
        assert_eq!(marks.get(&gauge), [0, 1]);

        // A worse match passing through a folder does not repaint it, and a
        // folder with none of the letters gets no entry.
        let x = ui.join("x", on);
        spread_marks(&x, &format!("src{sep}ui{sep}x"), &vec![1, 7], &mut marks, on);
        assert_eq!(marks.get(&src), [0]);
        assert_eq!(marks.get(&x), [0]);
        // A folder's own match wins over one passing through it.
        spread_marks(&ui, &format!("src{sep}ui"), &vec![5], &mut marks, on);
        assert_eq!(marks.get(&ui), [1]);
        assert!(!marks.has(&root));
    }
}

#[test]
fn highlights_runs_of_matched_chars() {
    let line = highlight_line(true, "", "openssl", &vec![0, 1, 2]);
    assert_eq!(
        pieces(&line),
        vec![("▌ ".into(), false), ("ope".into(), true), ("nssl".into(), false)]
    );
}

#[test]
fn highlights_scattered_and_multibyte_chars() {
    let line = highlight_line(false, "", "ドキュメント\\src", &vec![1, 7]);
    assert_eq!(
        pieces(&line),
        vec![
            ("  ".into(), false),
            ("ド".into(), false),
            ("キ".into(), true),
            ("ュメント\\".into(), false),
            ("s".into(), true),
            ("rc".into(), false)
        ]
    );
}

#[test]
fn no_indices_means_plain_text() {
    let line = highlight_line(false, "", "docs", &Vec::new());
    assert_eq!(pieces(&line), vec![("  ".into(), false), ("docs".into(), false)]);
}

#[test]
fn fit_trims_by_display_width() {
    assert_eq!(fit("docs", 10), "docs");
    assert_eq!(fit("devsense.composer-php", 10), "devsense.…");
    // Japanese names take two columns per character.
    assert_eq!(fit("画面録画", 8), "画面録画");
    assert_eq!(fit("画面録画", 7), "画面録…");
    assert_eq!(fit("anything", 0), "");
}

#[test]
fn location_spans_bold_the_last_segment() {
    for (path, parent, on) in [
        ("C:\\Users\\example\\tadoru", "C:\\Users\\example", Platform::Windows),
        ("/home/example/tadoru", "/home/example", Platform::Unix),
    ] {
        let at = FsPath::parse(path, on);
        // The pieces still read as the path, so nothing is lost by splitting it.
        let wide = Rect { x: 0, y: 0, width: 200, height: 1 };
        let (spans, clickable) = search_location(&at, wide, on);
        let joined: String = spans.iter().map(|s| s.text.as_str()).collect();
        assert_eq!(joined, path);

        // Every step of a path that fits can be clicked, in the search modes
        // as well as in browse, which is how a scan moves up a level.
        let steps: Vec<String> = crumb_spans(&at, on)
            .into_iter()
            .filter_map(|crumb| crumb.dir)
            .map(|dir| dir.text(on))
            .collect();
        let targets: Vec<String> = clickable.iter().map(|t| t.path.text(on)).collect();
        assert_eq!(targets, steps);
        let narrow = search_location(&at, Rect { x: 0, y: 0, width: 4, height: 1 }, on).1;
        assert!(narrow.len() < clickable.len());

        // Only the folder in view is emphasised; the trail stays quiet.
        let bold: Vec<&str> = spans
            .iter()
            .filter(|s| s.paint == Paint::HerePath)
            .map(|s| s.text.as_str())
            .collect();
        assert_eq!(bold, ["tadoru"]);

        // Every step points at the directory it names, so a click can go there.
        assert_eq!(steps.last().unwrap(), path);
        assert_eq!(steps[steps.len() - 2], parent);
        assert!(FsPath::parse(&steps[0], on).parent().is_none());
        assert_eq!(breadcrumb(&at, on).len(), steps.len());
    }
}

#[test]
fn shift_tab_steps_through_the_searches_and_skips_browse() {
    assert_eq!(next_search(Mode::Dirs), Mode::Files);
    assert_eq!(next_search(Mode::Files), Mode::Dirs);
    assert_eq!(first_search(Mode::Files), Mode::Files);
    assert_eq!(first_search(Mode::Browse), Mode::Dirs);
    assert_eq!(first_search(Mode::Recent), Mode::Dirs);
}

#[test]
fn hints_that_do_not_fit_are_left_off_the_end() {
    let hints = vec!["Tab: browse".to_string(), "Enter: cd".to_string(), "^B: pin".to_string()];
    let all = fit_hints(&hints, 80);
    assert!(all.contains("Tab: browse") && all.contains("^B: pin"));
    let some = fit_hints(&hints, 26);
    assert!(some.contains("Tab: browse") && some.contains("Enter: cd"));
    assert!(!some.contains("^B: pin"));
    assert!(fit_hints(&hints, 1).contains("Tab: browse"));
}

#[test]
fn tabs_and_buttons_lie_apart_on_the_border() {
    let tabs = tab_offsets();
    for pair in tabs.windows(2) {
        assert!(pair[0].2 <= pair[1].1);
    }
    let last = tabs[tabs.len() - 1].2;
    for (_, start, end) in place_buttons(120) {
        assert!(last <= start && start < end && end <= 120);
    }
    assert!(place_buttons(10).is_empty());
}

#[test]
fn a_panel_floats_at_the_bottom_right_or_takes_the_whole_area() {
    let area = Rect { x: 0, y: 0, width: 100, height: 30 };
    let panel = float(area, 40, 10);
    assert_eq!(panel, Rect { x: 58, y: 19, width: 40, height: 10 });
    assert_eq!(float(area, 97, 10), area);
    assert_eq!(float(area, 40, 29), area);
}

#[test]
fn a_screen_is_cut_into_its_parts() {
    for width in 2..300u16 {
        for height in 5..40u16 {
            let area = Rect { x: 3, y: 2, width, height };
            let areas = lay_out(area);
            let list = if width >= 80 { (60 * width + 50) / 100 } else { width };
            assert_eq!(areas.list, Rect { width: list, ..area }, "{area:?}");
            let preview = Rect { x: 3 + list, width: width - list, ..area };
            assert_eq!(areas.preview, if width >= 80 { Some(preview) } else { None });
            let line = |down: u16| Rect { x: 4, y: 2 + down, width: list - 2, height: 1 };
            assert_eq!((areas.prompt, areas.info, areas.header), (line(1), line(2), line(3)));
            assert_eq!(areas.rows, Rect { height: height - 5, ..line(4) });
        }
    }
    // Where there is no room for all of them, each is still inside.
    for height in 0..5u16 {
        let areas = lay_out(Rect { x: 0, y: 7, width: 60, height });
        for part in [areas.prompt, areas.info, areas.header, areas.rows] {
            assert!(part.y >= 7 && part.y + part.height <= 7 + height, "{part:?} in {height}");
        }
        // They follow one another from the top, whichever of them give way.
        let mut at = areas.prompt.y;
        for part in [areas.prompt, areas.info, areas.header, areas.rows] {
            assert_eq!(part.y, at, "{part:?} in {height}");
            at += part.height;
        }
    }
}

#[test]
fn the_columns_share_the_width_of_the_screen() {
    for width in 8..300u16 {
        let columns = lay_columns(Rect { x: 5, y: 1, width, height: 20 });
        let w = width - 2;
        assert_eq!(columns.body, Rect { x: 6, y: 5, width: w, height: 15 });
        let at = |x: u16, width: u16| Rect { x: 6 + x, width, ..columns.body };
        let one = (20 * w + 50) / 100;
        let two = (65 * w + 50) / 100 + 1;
        assert_eq!(columns.parent, at(0, one), "{width}");
        assert_eq!(columns.left, at(one, 1), "{width}");
        assert_eq!(columns.current, at(one + 1, two - one - 1), "{width}");
        assert_eq!(columns.right, at(two, 1), "{width}");
        assert_eq!(columns.preview, at(two + 1, w - two - 1), "{width}");
    }
}

#[test]
fn what_is_cut_off_the_path_takes_no_clicks() {
    let crumbs = crumb_spans(&FsPath::parse("/ab/cd", Platform::Unix), Platform::Unix);
    let whole = clickable_crumbs(&crumbs, 3, 1, 40);
    assert_eq!(whole.len(), 3);
    assert_eq!(whole[0].area.x, 3);
    let last = whole[2].area;
    let cut = clickable_crumbs(&crumbs, 3, 1, last.x + last.width - 1);
    assert_eq!(cut.len(), 2);
    assert_eq!(cut[1].path.text(Platform::Unix), "/ab");
}
