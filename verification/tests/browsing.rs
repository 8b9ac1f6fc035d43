use tadoru::browse::{drive_name, drives, read_dir, Browser, Item};
use tadoru::disk::Disk;
use tadoru::fs_path::{FsPath, Platform};
use tadoru::fuzzy::{find, path_hits, rank_of, suit, PATTERN_LIMIT};
use tadoru::tree::Tree;

const ON: Platform = Platform::Unix;

fn at(text: &str) -> FsPath {
    FsPath::parse(text, ON)
}

fn shows(path: &FsPath) -> String {
    path.text(ON)
}

// A disk holding those paths; one that ends in a slash is a folder. The folders
// on the way to a path are there too.
fn disk_of(paths: &[&str]) -> Disk {
    let mut dirs: Vec<String> = vec!["/".into()];
    let mut files: Vec<String> = Vec::new();
    for path in paths {
        let is_dir = path.ends_with('/');
        let whole = path.trim_end_matches('/');
        for (i, c) in whole.char_indices() {
            if c == '/' && i > 0 && !dirs.contains(&whole[..i].to_string()) {
                dirs.push(whole[..i].to_string());
            }
        }
        if is_dir && !dirs.contains(&whole.to_string()) {
            dirs.push(whole.to_string());
        } else if !is_dir {
            files.push(whole.to_string());
        }
    }
    let parent = |path: &str| match path.rfind('/') {
        Some(0) => "/".to_string(),
        Some(i) => path[..i].to_string(),
        None => String::new(),
    };
    let name = |path: &str| path[path.rfind('/').unwrap() + 1..].to_string();
    let mut disk = Disk::new(Vec::new());
    for dir in &dirs {
        let mut items: Vec<Item> = Vec::new();
        for d in dirs.iter().filter(|d| *d != "/" && parent(d) == *dir) {
            items.push(Item { name: name(d), is_dir: true });
        }
        for f in files.iter().filter(|f| parent(f) == *dir) {
            items.push(Item { name: name(f), is_dir: false });
        }
        disk.learn_dir(at(dir), items);
    }
    for file in &files {
        disk.learn_file(at(file));
    }
    disk
}

fn fixture() -> Disk {
    disk_of(&["/r/src/deep/", "/r/docs/", "/r/README.md", "/r/src/main.rs"])
}

fn open(path: &str, disk: &Disk) -> Browser {
    Browser::new(at(path), ON, disk)
}

fn selected(b: &Browser) -> String {
    b.selected_item().unwrap().name.clone()
}

#[test]
fn cached_listings_refresh_without_losing_filter_or_selection() {
    let mut browser = open("/r/src", &fixture());
    browser.set_filter("deep");
    let more = disk_of(&[
        "/r/src/deep/",
        "/r/docs/",
        "/r/README.md",
        "/r/src/main.rs",
        "/r/new-sibling/",
        "/r/src/new-child/",
    ]);
    let beside = |b: &Browser| {
        b.parent_listing().unwrap().0.iter().any(|item| item.name == "new-sibling")
    };
    let inside = |b: &Browser| b.items().iter().any(|item| item.name == "new-child");
    assert!(!beside(&browser));
    assert!(!inside(&browser));
    browser.refresh(&more);
    assert!(beside(&browser));
    assert!(inside(&browser));
    assert_eq!(browser.filter, "deep");
    assert_eq!(selected(&browser), "deep");
    let less = disk_of(&["/r/docs/", "/r/README.md", "/r/src/main.rs"]);
    browser.refresh(&less);
    assert!(browser.selected_item().is_none());
    assert!(browser.target().is(&browser.cwd));
}

#[test]
fn history_restores_filter_and_selection_and_discards_forward_branch() {
    let disk = fixture();
    let mut browser = open("/r", &disk);
    browser.set_filter("src");
    browser.enter(&disk);
    browser.set_filter("deep");
    browser.enter(&disk);
    assert!(browser.history(false, &disk));
    assert_eq!(shows(&browser.cwd), "/r/src");
    assert_eq!(browser.filter, "deep");
    assert_eq!(selected(&browser), "deep");
    assert!(browser.history(false, &disk));
    assert_eq!(shows(&browser.cwd), "/r");
    assert_eq!(browser.filter, "src");
    assert!(browser.history(true, &disk));
    assert_eq!(shows(&browser.cwd), "/r/src");
    browser.navigate_to(&at("/r/docs"), &disk);
    assert!(!browser.history(true, &disk));
    assert!(browser.history(false, &disk));
    assert_eq!(shows(&browser.cwd), "/r/src");
    let gone = disk_of(&["/r/src/deep/", "/r/README.md", "/r/src/main.rs"]);
    assert!(!browser.history(true, &gone));
    assert_eq!(shows(&browser.cwd), "/r/src");
}

#[test]
fn lists_directories_first_then_files() {
    let b = open("/r", &fixture());
    let labels: Vec<String> = b.items().iter().map(|item| item.label(ON)).collect();
    assert_eq!(labels, ["docs/", "src/", "README.md"]);
}

#[test]
fn enter_and_up_keep_the_place() {
    let disk = fixture();
    let mut b = open("/r", &disk);
    b.move_selection(1); // src
    b.enter(&disk);
    assert_eq!(shows(&b.cwd), "/r/src");
    assert_eq!(selected(&b), "deep");
    b.enter(&disk);
    assert_eq!(shows(&b.cwd), "/r/src/deep");
    b.up(&disk);
    b.up(&disk);
    assert_eq!(shows(&b.cwd), "/r");
    assert_eq!(selected(&b), "src");
}

#[test]
fn enter_on_a_file_does_nothing_and_target_is_cwd() {
    let disk = fixture();
    let mut b = open("/r", &disk);
    b.move_selection(2); // README.md
    b.enter(&disk);
    assert_eq!(shows(&b.cwd), "/r");
    assert_eq!(shows(&b.target()), "/r");
}

#[test]
fn above_the_top_of_a_drive_are_the_drives() {
    let on = Platform::Windows;
    let top = FsPath::parse("C:\\", on);
    let temp = FsPath::parse("C:\\Temp", on);
    let name = drive_name(&top, on).unwrap();
    // Drives A, C and D.
    let listed = drives(0b1101);
    assert!(listed.iter().any(|item| item.name == name), "{name}");
    assert_eq!(name.len(), 3, "{name}");
    let mut disk = Disk::new(listed);
    disk.learn_dir(top.clone(), vec![Item { name: "Temp".into(), is_dir: true }]);
    disk.learn_dir(temp.clone(), Vec::new());

    let mut b = Browser::new(top.clone(), on, &disk);
    // The column on the left lists the drives, this one marked.
    let (items, here) = b.parent_listing().unwrap();
    assert_eq!(items[here.unwrap()].name, name);
    assert_eq!(items[here.unwrap()].label(on), name, "no doubled separator");

    b.up(&disk);
    assert!(b.at_drives());
    assert_eq!(selected(&b), name);
    // Enter goes to the drive itself; Right goes into it.
    assert!(b.target().is(&top));
    assert!(b.parent_listing().is_none());
    b.up(&disk);
    assert!(b.at_drives(), "nothing above the drives");
    b.enter(&disk);
    assert!(b.cwd.is(&top));

    // History walks through the list of drives like any other place.
    assert!(b.history(false, &disk));
    assert!(b.at_drives());
    assert!(b.history(true, &disk));
    assert!(b.cwd.is(&top));

    // With nothing matching there is nowhere for Enter to go.
    b.up(&disk);
    b.set_filter("no such drive");
    assert!(b.selected_item().is_none());
    assert!(b.target().is_empty());

    // Revealing a drive shows it in the list rather than inside it.
    let mut b = Browser::new(temp, on, &disk);
    b.show_in_place(&top, &disk);
    assert!(b.at_drives());
    assert_eq!(selected(&b), name);
}

#[test]
fn filter_narrows_the_current_level_and_marks_hits() {
    let mut b = open("/r", &fixture());
    b.set_filter("rd");
    let names: Vec<&str> =
        b.rows().iter().map(|r| b.items()[r.index].name.as_str()).collect();
    assert_eq!(names, ["README.md"]);
    assert_eq!(b.rows()[0].hits, vec![0, 3]);
    b.set_filter("");
    assert_eq!(b.rows().len(), 3);
}

#[test]
fn a_listing_goes_by_letters_capital_or_not_and_stops_somewhere() {
    let item = |name: &str, is_dir| Item { name: name.into(), is_dir };
    let items =
        read_dir(vec![item("b", false), item("Z", true), item("Ä", false), item("a", true)]);
    let names: Vec<&str> = items.iter().map(|i| i.name.as_str()).collect();
    assert_eq!(names, ["a", "Z", "b", "Ä"]);
    let many = (0..20_001).map(|i| item(&format!("{i}"), false)).collect();
    assert_eq!(read_dir(many).len(), 20_000);
}

#[test]
fn the_history_keeps_a_hundred_places() {
    let names: Vec<String> = (0..102).map(|i| format!("/r/d{i:03}/")).collect();
    let paths: Vec<&str> = names.iter().map(|s| s.as_str()).collect();
    let disk = disk_of(&paths);
    let mut b = open("/r/d000", &disk);
    for name in &paths[1..] {
        b.navigate_to(&at(name), &disk);
    }
    let mut steps = 0;
    while b.history(false, &disk) {
        steps += 1;
    }
    assert_eq!(steps, 100);
    assert_eq!(shows(&b.cwd), "/r/d001");
}

fn leafy() -> Disk {
    disk_of(&["/r/a/deep/", "/r/b/", "/r/a/x.txt", "/r/z.txt"])
}

fn plant(root: &str, select: Option<&str>, disk: &Disk) -> Tree {
    let select = select.map(at);
    Tree::new(at(root), select.as_ref(), ON, disk)
}

fn shown(tree: &Tree) -> Vec<String> {
    tree.nodes().iter().skip(1).map(|node| format!("{}{}", node.guide, node.label)).collect()
}

#[test]
fn folders_open_and_close_in_place_with_their_lines() {
    let disk = leafy();
    let mut tree = plant("/r", None, &disk);
    assert_eq!(tree.selected, 0, "nothing chosen: the root line");
    assert_eq!(shown(&tree), ["├─ a/", "├─ b/", "└─ z.txt"]);

    tree.move_selection(1);
    tree.right(&disk);
    assert_eq!(
        shown(&tree),
        ["├─ a/", "│  ├─ deep/", "│  └─ x.txt", "├─ b/", "└─ z.txt"]
    );
    assert_eq!(tree.selected_node().label, "a/");
    // Right again steps into the open folder.
    tree.right(&disk);
    assert_eq!(tree.selected_node().label, "deep/");
    // Left from a closed folder goes to the row it sits under, then closes it.
    assert!(!tree.left());
    assert_eq!(tree.selected_node().label, "a/");
    assert!(!tree.left());
    assert_eq!(shown(&tree).len(), 3);
    // Left on the root line asks for the root to move up.
    assert!(!tree.left());
    assert!(tree.left());
}

#[test]
fn enter_goes_to_the_folder_or_the_one_holding_the_file() {
    let disk = leafy();
    let mut tree = plant("/r", Some("/r/a"), &disk);
    assert_eq!(shows(&tree.target()), "/r/a");
    tree.right(&disk);
    tree.move_selection(2); // x.txt
    assert_eq!(shows(&tree.selected_path().unwrap()), "/r/a/x.txt");
    assert_eq!(shows(&tree.target()), "/r/a");
    tree.selected = 0;
    assert_eq!(shows(&tree.target()), "/r");
}

#[test]
fn closing_keeps_the_selection_on_the_same_row() {
    let disk = leafy();
    let mut tree = plant("/r", Some("/r/a"), &disk);
    tree.right(&disk); // a opens: a, deep, x.txt, b, z.txt
    tree.selected = 4; // b
    tree.close(1);
    assert_eq!(shows(&tree.selected_node().path), "/r/b");
    tree.right(&disk); // b holds nothing: stays
    tree.selected = 1;
    tree.right(&disk);
    tree.selected = 2; // deep, inside a
    tree.close(1);
    assert_eq!(shows(&tree.selected_node().path), "/r/a");
}

#[test]
fn rising_keeps_the_branches_that_were_open() {
    let disk = leafy();
    let mut tree = plant("/r/a", Some("/r/a/deep"), &disk);
    tree.right(&disk); // deep opens, holding nothing
    tree.rise(at("/r"), &disk);
    assert_eq!(shows(&tree.root), "/r");
    assert_eq!(shows(&tree.selected_node().path), "/r/a");
    assert!(tree.selected_node().open);
    let paths: Vec<String> = tree.nodes().iter().map(|n| shows(&n.path)).collect();
    assert_eq!(paths, ["/r", "/r/a", "/r/a/deep", "/r/a/x.txt", "/r/b", "/r/z.txt"]);
    assert!(tree.nodes()[2].open, "deep was open and stays open");
    assert_eq!(tree.nodes()[2].depth, 2);
}

#[test]
fn refresh_reads_open_folders_again_and_keeps_the_selection() {
    let disk = leafy();
    let mut tree = plant("/r", Some("/r/a"), &disk);
    tree.right(&disk);
    tree.move_selection(1); // deep
    let more = disk_of(&["/r/a/deep/", "/r/a/new/", "/r/b/", "/r/a/x.txt", "/r/z.txt"]);
    tree.refresh(&more);
    assert!(tree.nodes().iter().any(|n| shows(&n.path) == "/r/a/new"));
    assert_eq!(shows(&tree.selected_node().path), "/r/a/deep");
}

#[test]
fn matches_are_shown_under_their_folders_with_the_best_one_selected() {
    let found = vec![
        (at("/r/src/ui/gauge.rs"), false),
        (at("/r/src"), true),
        (at("/r/top.rs"), false),
        (at("/r/src/ui/grid.rs"), false),
    ];
    let tree = Tree::from_matches(at("/r"), &found, ON);
    let rows: Vec<(String, bool)> =
        tree.nodes().iter().map(|n| (shows(&n.path), n.dim)).collect();
    assert_eq!(
        rows,
        [
            ("/r".to_string(), false),
            ("/r/src".to_string(), false),
            ("/r/src/ui".to_string(), true),
            ("/r/src/ui/gauge.rs".to_string(), false),
            ("/r/src/ui/grid.rs".to_string(), false),
            ("/r/top.rs".to_string(), false),
        ]
    );
    assert_eq!(shows(&tree.selected_node().path), "/r/src/ui/gauge.rs");
    assert_eq!(shown(&tree)[2], "│     ├─ gauge.rs");
    assert!(tree.nodes().iter().all(|n| n.guide.chars().count() == 3 * n.depth));
}

#[test]
fn reading_the_tree_again_keeps_every_open_folder_open() {
    let before = disk_of(&["/r/a/x/1", "/r/b/", "/r/c/"]);
    let mut tree = Tree::new(at("/r"), None, ON, &before);
    for folder in ["/r/a", "/r/a/x", "/r/b"] {
        let row = tree.position(&at(folder)).unwrap();
        tree.open(row, &before);
    }
    let after = disk_of(&["/r/a/w", "/r/a/x/2", "/r/b/new", "/r/c/"]);
    tree.refresh(&after);
    let rows = |tree: &Tree| -> Vec<(String, bool)> {
        tree.nodes().iter().map(|node| (shows(&node.path), node.open)).collect()
    };
    let expected = [
        ("/r", true),
        ("/r/a", true),
        ("/r/a/x", true),
        ("/r/a/x/2", false),
        ("/r/a/w", false),
        ("/r/b", true),
        ("/r/b/new", false),
        ("/r/c", false),
    ];
    let got = rows(&tree);
    assert_eq!(got.iter().map(|(p, o)| (p.as_str(), *o)).collect::<Vec<_>>(), expected);
    // Read once more, nothing changes.
    tree.refresh(&after);
    assert_eq!(rows(&tree), got);
}

#[test]
fn small_letters_that_fold_are_matched_like_the_letter_they_fold_to() {
    // Where matching would start from a letter that is none of the word's, the
    // text is read with those letters folded.
    assert_eq!(suit("σé", "ς_σxé"), "σ_σxé");
    assert_eq!(
        suit("sé", "ſµ\u{345}\u{ab70}\u{13f8}\u{1c88}sé"),
        "ṡμ\u{301}\u{13a0}\u{13f0}\u{a64b}sé"
    );
    let (_, hits) = find("σé", "ς_σxé").unwrap();
    assert_eq!((hits.len(), hits.last()), (2, Some(&4)));
    assert!(find("sé", "ſ_sxé").is_some());
    assert_eq!(rank_of("σé", "ς_σxé"), rank_of("σé", "σ_σxé"));
    assert_eq!(path_hits("σé", "ς_σxé").last(), Some(&4));
    // No letter moves, whatever is combined with it.
    let text = "ſe\u{301}x";
    assert_eq!(path_hits("x !é", text), path_hits("x", text));
}

#[test]
fn a_text_is_matched_as_it_is_wherever_it_can_be() {
    // In ASCII, with none of those letters, and where no word starts at one.
    for (pattern, text) in [
        ("s", "ςſ"),
        ("é", "Éσ a"),
        ("é", "µſ\u{345}\u{ab70}\u{13f8}\u{1c88}é"),
        ("éσ", "éxς"),
        ("éſ", "éſ"),
        ("μé", "µ_xé"),
        ("σé", "σςé"),
        ("sé$", "ſ_sé"),
        ("éσ sé", "éxςſsé"),
    ] {
        assert_eq!(suit(pattern, text), text, "{pattern}");
    }
    assert_eq!(find("éσ", "éxς"), None);
    assert!(find("éſ", "éſ").is_some());
    assert_eq!(find("μé", "µ_xé"), None);
    assert_eq!(find("éσ sé", "éxςſsé"), None);
    assert!(find("σé", "σςé").is_some());
    // A word that stumbles, behind one that is there.
    assert_eq!(suit("éς sé", "éςſsé"), "éσṡsé");
    assert_eq!(suit("x sé", "xſsé"), "xṡsé");
}

#[test]
fn the_longest_pattern_is_matched() {
    let pattern = format!("{}é", "\\".repeat(PATTERN_LIMIT - 1));
    let text = format!("{}é", "\\".repeat(4 * PATTERN_LIMIT));
    assert!(find(&pattern, &text).is_some());
    let letters = "a".repeat(PATTERN_LIMIT);
    assert!(rank_of(&letters, &"a".repeat(2 * PATTERN_LIMIT)).is_some());
}
