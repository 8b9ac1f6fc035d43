use tadoru::favorites::{
    check_name, display_key, find, path, pin, same_path, save_name, set_name, starting_point,
    update, Favorite, Index, NameFault, PinError,
};
use tadoru::fs_path::{FsPath, Platform};

const ON: Platform = Platform::Unix;

fn at(text: &str) -> FsPath {
    FsPath::parse(text, ON)
}

fn found(list: &Vec<Favorite>, name: &str) -> Option<String> {
    find(list, name).map(|f| f.path)
}

#[test]
fn names_are_kept_found_and_refused_when_taken() {
    let (a, b) = ("/r/a", "/r/b");
    let mut list = vec![Favorite { path: a.into(), name: None }];
    assert!(pin(&mut list, b, true, Some(true), Some("work"), ON).unwrap().pinned);
    assert_eq!(list[0].path, a);
    assert_eq!(list[0].name, None);
    assert_eq!(list[1].name.as_deref(), Some("work"));
    // Found without regard to case; a name in use is refused for another folder.
    assert_eq!(found(&list, "WORK").as_deref(), Some("/r/b"));
    assert!(find(&list, "home").is_none());
    assert!(pin(&mut list, a, true, Some(true), Some("work"), ON).is_err());
    // Pinning again with a name names the favorite; the list stays one each.
    assert!(pin(&mut list, a, true, Some(true), Some("first"), ON).unwrap().pinned);
    assert_eq!(list.len(), 2);
    assert_eq!(found(&list, "first").as_deref(), Some("/r/a"));
    // A name can be taken away again; the folder stays pinned.
    set_name(&mut list, a, true, None, ON).unwrap();
    assert!(find(&list, "first").is_none());
    assert_eq!(list.len(), 2);
    set_name(&mut list, a, true, Some("again"), ON).unwrap();
    assert!(find(&list, "again").is_some());
    for bad in ["", "@work", "my work", "a/b"] {
        assert!(check_name(bad).is_err(), "{bad:?}");
    }
}

#[test]
fn favorites_persist_without_duplicates_and_stale_entries_can_be_removed() {
    let directory = "/r/日本語 folder";
    let mut list: Vec<Favorite> = Vec::new();
    let change = update(&mut list, directory, true, Some(true), ON).unwrap();
    assert!(change.pinned && change.written);
    let again = "/r/日本語 folder/.";
    let change = update(&mut list, again, true, Some(true), ON).unwrap();
    assert!(change.pinned && !change.written);
    assert_eq!(list.len(), 1);
    let index = Index::read(&list, ON);
    assert!(index.contains(&at(directory)));
    // The folder is gone: it can still be taken off the list, and not put on.
    let change = update(&mut list, directory, false, None, ON).unwrap();
    assert!(!change.pinned && change.written);
    assert!(!Index::read(&list, ON).contains(&at(directory)));
    assert!(list.is_empty());
    let error = update(&mut list, directory, false, Some(true), ON).unwrap_err();
    assert_eq!(error.message(), "not a directory: /r/日本語 folder");
    // A file that could not be read is no list at all.
    assert_eq!(
        Index::load(Err("broken".into()), ON).unwrap_err(),
        "broken"
    );
}

#[test]
fn on_windows_a_folder_is_pinned_however_it_is_written() {
    let windows = Platform::Windows;
    let mut list: Vec<Favorite> = Vec::new();
    let directory = "C:\\Users\\Me\\Work";
    update(&mut list, directory, true, Some(true), windows).unwrap();
    let index = Index::read(&list, windows);
    assert!(index.contains(&FsPath::parse("C:/USERS/ME/WORK/", windows)));
    assert!(!index.contains(&FsPath::parse("C:/USERS/ME", windows)));
    assert!(same_path(directory, "c:\\users\\me\\work", windows));
    assert_eq!(display_key(directory, windows), "c:\\users\\me\\work");
    assert_eq!(display_key("/Home/Me", ON), "/Home/Me");
}

#[test]
fn what_is_wrong_with_a_name_is_said() {
    assert_eq!(check_name(""), Err(NameFault::Empty));
    assert_eq!(check_name("@work"), Err(NameFault::Marked));
    assert_eq!(check_name("a\\b"), Err(NameFault::Holds("a\\b".into())));
    assert_eq!(check_name("a\u{3000}b"), Err(NameFault::Holds("a\u{3000}b".into())));
    assert_eq!(check_name("work"), Ok(()));
    let mut list = vec![Favorite { path: "/r/a".into(), name: Some("work".into()) }];
    let error = pin(&mut list, "/r/b", true, Some(true), Some("Work"), ON).unwrap_err();
    assert!(matches!(error, PinError::Taken(_, _)));
    assert_eq!(error.message(), "@Work already names /r/a");
    assert_eq!(list.len(), 1);
}

#[test]
fn the_favorites_lie_beside_the_configuration() {
    let file = path(Some(at("/home/me/.config/tadoru/config.toml"))).unwrap();
    assert_eq!(file.text(ON), "/home/me/.config/tadoru/favorites.toml");
    assert_eq!(path(None).unwrap_err(), "cannot locate the user configuration directory");
}

#[test]
fn a_name_stands_for_its_folder_wherever_a_starting_point_is_given() {
    let mut list = Vec::new();
    pin(&mut list, "/src/work", true, Some(true), Some("Work"), Platform::Unix).unwrap();
    let to = |text: &str| starting_point(text, &list);
    assert_eq!(to("@work"), Ok("/src/work".to_string()));
    assert_eq!(to("@WORK"), Ok("/src/work".to_string()));
    assert_eq!(to("/tmp/x"), Ok("/tmp/x".to_string()));
    // A name nobody has given is refused with a message, not searched for.
    let unknown = to("@home").unwrap_err();
    assert_eq!(unknown.name, "home");
    assert_eq!(unknown.message(), "no favorite is named @home");
}

#[test]
fn a_folder_that_is_gone_can_still_be_unpinned() {
    let mut list = vec![
        Favorite { path: "/r/gone".into(), name: None },
        Favorite { path: "/r/a".into(), name: None },
    ];
    assert!(!pin(&mut list, "/r/gone", false, Some(false), None, ON).unwrap().pinned);
    assert_eq!(list.len(), 1);
    assert_eq!(list[0].path, "/r/a");
}

#[test]
fn saving_an_empty_name_leaves_the_folder_pinned_without_one() {
    let mut list: Vec<Favorite> = Vec::new();
    save_name(&mut list, "/r/a", true, "", ON).unwrap();
    assert_eq!(list.len(), 1);
    assert_eq!((list[0].path.as_str(), list[0].name.as_deref()), ("/r/a", None));
    save_name(&mut list, "/r/a", true, "work", ON).unwrap();
    assert_eq!(list[0].name.as_deref(), Some("work"));
    // Taken away again, even though the folder is gone by now.
    save_name(&mut list, "/r/a", false, "", ON).unwrap();
    assert_eq!((list.len(), list[0].name.as_deref()), (1, None));
    // One that is neither pinned nor there is refused.
    let error = save_name(&mut list, "/r/gone", false, "", ON).unwrap_err();
    assert_eq!(error.message(), "not a directory: /r/gone");
    let error = save_name(&mut list, "/r/b", true, "@b", ON).unwrap_err();
    assert!(matches!(error, PinError::Name(NameFault::Marked)));
    assert_eq!(list.len(), 1);
}

#[test]
fn a_favorite_is_kept_as_the_file_has_it() {
    let list = vec![
        Favorite { path: "/a//b".into(), name: Some("ab".into()) },
        Favorite { path: "/c/".into(), name: None },
    ];
    // A separator at the end does not count; one in between does.
    let index = Index::read(&list, ON);
    assert!(!index.contains(&at("/a/b")));
    assert!(index.contains(&at("/c")));
    assert_eq!(starting_point("@ab", &list).unwrap(), "/a//b");
    // It is the same folder all the same.
    assert!(same_path("/a//b", "/a/b", ON));
    assert!(!same_path("C:\\a\\", "c:\\a", Platform::Windows));
}
