use tadoru::favorites::{all, plain_text, Favorite};
use tadoru::fs_path::{FsPath, Platform};
use tadoru::init::{plan, InitError};
use tadoru::mode::Shell;

const WINDOWS: Platform = Platform::Windows;

fn at(text: &str) -> FsPath {
    FsPath::parse(text, WINDOWS)
}

#[test]
fn init_writes_beside_the_program_when_out_names_no_directory() {
    // Without --out it prints.
    assert!(matches!(plan(Shell::Cmd, None, Some(at("C:/tadoru"))), Ok(None)));
    // With --out and nothing after it, the folder of the program is meant.
    let scripts = plan(Shell::Cmd, Some(None), Some(at("C:/tadoru"))).unwrap().unwrap();
    assert!(scripts.dir.is(&at("C:/tadoru")));
    assert_eq!(scripts.ext, ".cmd");
    // A directory after --out is the one that is meant.
    let named = Some(Some(at("D:/bin")));
    let scripts = plan(Shell::Powershell, named, Some(at("C:/tadoru"))).unwrap().unwrap();
    assert!(scripts.dir.is(&at("D:/bin")));
    assert_eq!(scripts.ext, ".ps1");
    assert_eq!(scripts.skip.len(), 2);
    assert!(scripts.skip[1].is(&at("C:/tadoru")));
}

#[test]
fn init_says_why_there_is_nowhere_to_write() {
    let error = plan(Shell::Cmd, Some(None), None).unwrap_err();
    assert_eq!(error, InitError::NoHome);
    assert_eq!(error.message(), "cannot locate the folder holding tadoru");
    let error = plan(Shell::Bash, Some(Some(at("D:/bin"))), None).unwrap_err();
    assert_eq!(error, InitError::Functions);
    assert_eq!(error.message(), "bash needs functions, so use: eval \"$(tadoru init bash)\"");
    assert!(matches!(plan(Shell::Bash, None, None), Ok(None)));
}

#[test]
fn folders_from_before_names_come_first() {
    let work = Favorite { path: "C:/work".into(), name: Some("work".into()) };
    let list = all(vec!["C:\\old".into(), "C:\\older".into()], vec![work]);
    let shown: Vec<(String, Option<String>)> =
        list.iter().map(|f| (f.path.clone(), f.name.clone())).collect();
    assert_eq!(
        shown,
        [
            ("C:\\old".to_string(), None),
            ("C:\\older".to_string(), None),
            ("C:/work".to_string(), Some("work".to_string())),
        ]
    );
}

#[test]
fn a_resolved_path_is_written_as_usual() {
    assert_eq!(plain_text("\\\\?\\C:\\work", WINDOWS), "C:\\work");
    assert_eq!(plain_text("\\\\?\\UNC\\host\\share\\x", WINDOWS), "\\\\host\\share\\x");
    assert_eq!(plain_text("C:\\work", WINDOWS), "C:\\work");
    assert_eq!(plain_text("\\\\?\\x", Platform::Unix), "\\\\?\\x");
}
