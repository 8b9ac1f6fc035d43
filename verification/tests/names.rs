use tadoru::fs_path::{FsPath, Platform};
use tadoru::names::{executable, same_dir, taken_in, Names, NamesError, PathDir, Taken};

fn path(text: &str) -> FsPath {
    FsPath::parse(text, Platform::Unix)
}

#[test]
fn a_name_must_suit_every_shell_and_stay_clear_of_z() {
    assert_eq!(Names::new(None, false).unwrap(), Names::default());
    assert_eq!(
        Names::new(Some("j".into()), false).unwrap().listing(),
        "j / jf / zi / z"
    );
    assert_eq!(
        Names::new(Some("go_to".into()), true).unwrap().listing(),
        "go_to / go_tof"
    );
    for bad in ["", "1c", "c d", "c-d", "日本", "c;rm"] {
        assert!(Names::new(Some(bad.into()), false).is_err(), "{bad:?}");
    }
    // z and zi are already the zoxide pair, so they are free only once
    // that pair is not being defined.
    assert!(Names::new(Some("z".into()), false).is_err());
    assert!(Names::new(Some("zi".into()), false).is_err());
    assert!(Names::new(Some("z".into()), true).is_ok());
}

#[test]
fn the_flags_give_back_the_same_names_and_nothing_for_the_defaults() {
    // An unchanged setup must write an unchanged line, or re-running it
    // would keep replacing a block that says the same thing.
    assert_eq!(Names::default().flags(), "");
    assert_eq!(
        Names::new(Some("j".into()), true).unwrap().flags(),
        " --cmd j --no-z"
    );
    assert_eq!(Names::new(None, true).unwrap().flags(), " --no-z");
}

#[test]
fn a_refused_name_is_quoted_and_a_taken_one_is_not() {
    let bad = Names::new(Some("a\tb".into()), false).unwrap_err();
    assert_eq!(bad, NamesError::NotAName("a\tb".into()));
    assert_eq!(
        bad.message(),
        "--cmd \"a\\tb\": use letters, digits and underscores, starting with a letter"
    );
    let taken = Names::new(Some("zi".into()), false).unwrap_err();
    assert_eq!(taken, NamesError::Collides("zi".into()));
    assert_eq!(
        taken.message(),
        "--cmd zi would collide with the z and zi this also defines; add --no-z or pick another name"
    );
}

// The folders on PATH as they are found there, with a program called c in the
// other one.
fn on_path(found: &[&str], skip_other: bool) -> Vec<PathDir> {
    found
        .iter()
        .map(|dir| PathDir {
            skip: skip_other && *dir == "/other",
            programs: vec![
                (*dir == "/other").then_some(path("/other/c")),
                None,
                None,
                None,
            ],
        })
        .collect()
}

#[test]
fn a_name_already_on_path_is_found_with_which_one_comes_first() {
    let names = Names::default();

    // Earlier on PATH than the new scripts: that one answers to c.
    let found = taken_in(&names, &on_path(&["/other", "/ours"], false), Some(1));
    assert_eq!(found.len(), 1);
    assert_eq!(found[0].name, "c");
    assert_eq!(found[0].path.text(Platform::Unix), "/other/c");
    assert_eq!(found[0].first, Some(true));

    // Later: the new scripts win and hide it.
    let found = taken_in(&names, &on_path(&["/ours", "/other"], false), Some(0));
    assert_eq!(found[0].first, Some(false));

    // The scripts' own folder not on PATH yet: the other one still runs.
    let found = taken_in(&names, &on_path(&["/other"], false), None);
    assert_eq!(found[0].first, None);

    // The scripts themselves are being replaced, not collided with.
    let found = taken_in(&names, &on_path(&["/other"], true), None);
    assert!(found.is_empty());
}

#[test]
fn a_program_is_looked_for_under_the_endings_the_system_runs() {
    assert_eq!(executable("c", Some(".EXE"), Platform::Unix), ["c"]);
    let files = executable("c", Some(".COM;.EXE;.BAT;.CMD"), Platform::Windows);
    assert!(files.contains(&"c.exe".to_string()));
    assert!(files.contains(&"c.bat".to_string()));
    assert!(!files.contains(&"c".to_string()));
}

#[test]
fn two_folders_are_one_by_where_they_are_or_else_by_how_they_are_written() {
    let a = Some(path("/real"));
    let b = Some(path("/real"));
    assert!(same_dir("/one", "/two", &a, &b, Platform::Unix));
    assert!(!same_dir("/one", "/two", &a, &None, Platform::Unix));
    assert!(same_dir("/one/", "/one", &None, &None, Platform::Unix));
    assert!(!same_dir("/One", "/one", &None, &None, Platform::Unix));
    assert!(same_dir("C:\\One", "c:\\one\\", &None, &None, Platform::Windows));
}

#[test]
fn a_taken_name_is_told_by_which_of_the_two_is_found() {
    let taken = |first| Taken { name: "c".into(), path: path("/other/c"), first };
    let line = |first| taken(first).for_scripts(&path("/ours"), ".cmd", Platform::Unix);
    assert_eq!(
        line(Some(true)),
        "  c: /other/c comes earlier on PATH, so it is found before /ours/c.cmd"
    );
    assert_eq!(
        line(Some(false)),
        "  c: /other/c is also on PATH; /ours/c.cmd comes earlier and hides it"
    );
    assert_eq!(line(None), "  c: /other/c is on PATH and /ours is not, so c still finds that one");
    assert_eq!(taken(None).for_functions(Platform::Unix), "    c   /other/c");
}
