use tadoru::fs_path::{FsPath, Platform};

#[test]
fn a_path_is_read_and_written_by_its_platforms_rules() {
    let unix = FsPath::parse("/home//me/./docs/", Platform::Unix);
    assert_eq!(unix.text(Platform::Unix), "/home/me/docs");
    assert_eq!(unix.file_name().unwrap(), "docs");
    assert_eq!(unix.parent().unwrap().text(Platform::Unix), "/home/me");
    let windows = FsPath::parse("c:/Users\\me", Platform::Windows);
    assert_eq!(windows.text(Platform::Windows), "c:\\Users\\me");
    assert_eq!(windows.drive(), Some('c'));
    let share = FsPath::parse("\\\\host\\share\\a\\b", Platform::Windows);
    assert_eq!(share.top, "\\\\host\\share\\");
    assert_eq!(share.text(Platform::Windows), "\\\\host\\share\\a\\b");
    assert_eq!(share.drive(), None);
}

#[test]
fn a_path_written_out_is_read_back_the_same() {
    for text in ["/", "/a", "/a/b c/d.txt", "relative/x"] {
        let path = FsPath::parse(text, Platform::Unix);
        assert!(FsPath::parse(&path.text(Platform::Unix), Platform::Unix).is(&path), "{text}");
        assert_eq!(path.text(Platform::Unix), text);
    }
    for text in ["C:\\", "D:\\Users\\me", "\\\\host\\share\\x"] {
        let path = FsPath::parse(text, Platform::Windows);
        let again = FsPath::parse(&path.text(Platform::Windows), Platform::Windows);
        assert!(again.is(&path), "{text}");
    }
}

#[test]
fn a_joined_name_is_the_last_of_the_path() {
    let path = FsPath::parse("/a/b", Platform::Unix).join("c", Platform::Unix);
    assert_eq!(path.file_name().as_deref(), Some("c"));
    assert_eq!(path.parent().unwrap().text(Platform::Unix), "/a/b");
    let rest = path.below(&FsPath::parse("/a", Platform::Unix)).unwrap();
    assert_eq!(rest.text(Platform::Unix), "b/c");
    assert!(path.below(&FsPath::parse("/x", Platform::Unix)).is_none());
}

#[test]
fn a_drive_and_a_share_are_shown_as_they_are_written() {
    let on = Platform::Windows;
    for text in ["c:\\work", "C:\\work", "d:", "\\\\server\\share", "\\\\server\\share\\", "\\\\server"] {
        assert_eq!(FsPath::parse(text, on).text(on), text);
    }
    let share = FsPath::parse("\\\\server\\share", on);
    assert_eq!(share.join("x", on).text(on), "\\\\server\\share\\x");
    assert!(share.is_absolute(on));
    assert!(share.same_place(&FsPath::parse("//server/share/", on)));
    // Written otherwise, it is the same place all the same.
    let (small, capital) = (FsPath::parse("c:\\work\\a", on), FsPath::parse("C:\\work", on));
    assert!(!small.is(&capital) && small.parent().unwrap().same_place(&capital));
    assert_eq!(small.below(&capital).unwrap().text(on), "a");
    assert!(!small.same_place(&FsPath::parse("D:\\work\\a", on)));
}
