use tadoru::favorites::Favorite;
use tadoru::fs_path::{FsPath, Platform};
use tadoru::mode::Mode;
use tadoru::scan::{
    ceiling, check_scan_root, recent, saved, scan_key, scan_order, to_entry, visit, walks_into,
    Asked, Entry, Refusal, Resolved, Signals, Visit, Volume, Walked,
};

const ON: Platform = Platform::Unix;

fn at(text: &str) -> FsPath {
    FsPath::parse(text, ON)
}

#[test]
fn a_rebuilt_path_matches_and_a_lossy_name_keeps_the_real_one() {
    let root = at("root");
    let real = at("root/sub/file.txt");

    // The ordinary case: nothing is stored but the relative name, and the
    // path comes back whole.
    let plain = Entry::new(&root, "root/sub/file.txt", "sub/file.txt", false);
    assert!(!plain.exact_path_kept());
    assert_eq!(plain.path(ON).text(ON), "root/sub/file.txt");
    assert_eq!(plain.output_path(Mode::Files, ON).text(ON), "root/sub");

    // A name that lost bytes on the way to a String cannot be turned back
    // into the path, so cd would land somewhere else. That one is kept.
    let lossy = Entry::new(&root, "root/sub/file.txt", "sub/fi\u{fffd}e.txt", true);
    assert!(lossy.exact_path_kept());
    assert!(lossy.path(ON).is(&real));

    // A saved list holds whole paths, which must not be joined to a root.
    let saved = Entry::absolute(&real, ON);
    assert!(saved.path(ON).is(&real));
}

fn volume(text: &str, drive_type: u32) -> Volume {
    Volume { path: FsPath::parse(text, Platform::Windows), drive_type }
}

#[test]
fn unc_paths_are_blocked_without_contacting_the_server() {
    for path in [
        "\\\\unreachable.invalid\\share",
        "\\\\?\\UNC\\unreachable.invalid\\share",
        "//unreachable.invalid/share",
    ] {
        let refused =
            check_scan_root(&volume(path, 0), Resolved::Missing, Platform::Windows).unwrap_err();
        assert!(refused.message().contains("blocked"));
    }
    let here = volume("C:\\Users", 3);
    let resolved = Resolved::At(volume("C:\\Users", 3));
    assert!(check_scan_root(&here, resolved, Platform::Windows).is_ok());
}

#[test]
fn a_network_drive_is_refused_wherever_the_path_leads_through_it() {
    let windows = Platform::Windows;
    let mapped = volume("Z:\\", 4);
    assert_eq!(check_scan_root(&mapped, Resolved::Missing, windows), Err(Refusal::Drive));
    let local = volume("C:\\link", 3);
    let leads = Resolved::At(volume("\\\\host\\share\\x", 0));
    assert_eq!(check_scan_root(&local, leads, windows), Err(Refusal::Network));
    let failed = Resolved::Failed("denied".into());
    let refused = check_scan_root(&local, failed, windows).unwrap_err();
    assert_eq!(refused.message(), "Cannot verify scan location: denied. Use browse instead.");
    assert_eq!(check_scan_root(&volume("x", 1), Resolved::Missing, windows), Err(Refusal::NoDrive));
    assert_eq!(check_scan_root(&mapped, Resolved::Missing, ON), Ok(()));
}

fn walked(path: &str, depth: usize, is_dir: bool) -> Walked {
    Walked { path: at(path), depth, is_dir: Some(is_dir), lossy: false }
}

#[test]
fn a_walk_keeps_what_the_mode_lists_up_to_the_ceiling() {
    let root = at("/r");
    assert!(to_entry(&root, &walked("/r", 0, true), Mode::Dirs, ON).is_none());
    assert!(to_entry(&root, &walked("/r/a", 1, true), Mode::Files, ON).is_none());
    let dir = to_entry(&root, &walked("/r/a/b", 2, true), Mode::Dirs, ON).unwrap();
    assert_eq!(dir.shown(), "a/b");
    assert!(to_entry(&root, &walked("/r/f", 1, false), Mode::Browse, ON).is_some());
    assert!(to_entry(&root, &walked("/r/f", 1, false), Mode::Recent, ON).is_none());

    let go = Signals::new();
    let (kept, after) = visit(&root, &walked("/r/a", 1, true), Mode::Dirs, ON, go, 1, 2);
    assert!(matches!(kept, Visit::Keep(_)) && after == go);
    let (full, after) = visit(&root, &walked("/r/b", 1, true), Mode::Dirs, ON, go, 2, 2);
    assert!(matches!(full, Visit::Quit) && after.truncated);
    let (pass, after) = visit(&root, &walked("/r/f", 1, false), Mode::Dirs, ON, go, 2, 2);
    assert!(matches!(pass, Visit::Pass) && !after.truncated);
    let gone = Signals { cancel: true, ..go };
    let (quit, _) = visit(&root, &walked("/r/a", 1, true), Mode::Dirs, ON, gone, 0, 2);
    assert!(matches!(quit, Visit::Quit));
    assert_eq!(ceiling(0), usize::MAX);
    assert_eq!(ceiling(5), 5);

    let exclude = vec!["node_modules".to_string()];
    assert!(!walks_into("node_modules", true, false, &exclude));
    assert!(!walks_into("link", true, true, &exclude));
    assert!(walks_into("src", true, false, &exclude));
    assert!(walks_into("node_modules", false, false, &exclude));
}

#[test]
fn a_finished_scan_is_listed_shallow_first_and_without_regard_to_case() {
    let shown = ["b/c", "Zed", "apple", "a/Ä"];
    let keys = shown
        .iter()
        .enumerate()
        .map(|(i, text)| scan_key(text, i as u32, ON))
        .collect::<Vec<_>>();
    assert_eq!(scan_order(&keys), [2, 1, 3, 0]);
    assert_eq!(keys[3].lower, "a/ä");
}

#[test]
fn what_zoxide_says_becomes_a_list_or_a_reason() {
    let list = recent(Asked::Listed("/a\r\n\n/b c\n/tmp/\n".into())).unwrap();
    assert_eq!(list, ["/a", "/b c", "/tmp/"]);
    // A place is shown and printed as the list has it.
    let place = Entry::place(&list[2]);
    assert_eq!(place.shown(), "/tmp/");
    assert_eq!(place.output_text(Mode::Recent, ON), "/tmp/");
    assert_eq!(place.path(ON).text(ON), "/tmp");
    let failed = recent(Asked::Failed(" no match\n".into())).unwrap_err();
    assert_eq!(failed, "zoxide query failed: no match");
    let cannot = recent(Asked::CannotRun("denied".into())).unwrap_err();
    assert_eq!(cannot, "cannot run zoxide: denied");
    assert!(recent(Asked::NotInstalled).unwrap_err().contains("zoxide is not installed"));
}

#[test]
fn a_favorite_is_listed_by_its_name_and_its_path() {
    let list = vec![
        Favorite { path: "/work/".into(), name: Some("w".into()) },
        Favorite { path: "/home".into(), name: None },
    ];
    let entries = saved(&list);
    assert_eq!(entries[0].shown(), ":w  /work/");
    assert_eq!(entries[0].output_text(Mode::Browse, ON), "/work/");
    assert_eq!(entries[0].path(ON).text(ON), "/work");
    assert_eq!(entries[1].shown(), "/home");
    assert_eq!(entries[1].path(ON).text(ON), "/home");
}

#[test]
fn a_walk_keeps_as_many_as_the_ceiling_and_says_when_there_was_one_more() {
    let root = at("/r");
    let met = |n: usize| Walked {
        path: at(&format!("/r/d{n}")),
        depth: 1,
        is_dir: Some(true),
        lossy: false,
    };
    for (there, truncated) in [(2, false), (3, true), (9, true)] {
        let (mut signals, mut kept) = (Signals::new(), 0);
        for n in 0..there {
            let (step, after) = visit(&root, &met(n), Mode::Dirs, ON, signals, kept, ceiling(2));
            signals = after;
            match step {
                Visit::Keep(_) => kept += 1,
                Visit::Pass => {}
                Visit::Quit => break,
            }
        }
        assert_eq!((kept, signals.truncated), (2, truncated));
    }
}
