//! What `init` does with the shell integration: print it, or write it as
//! scripts into a folder.

use vstd::prelude::*;

use crate::fs_path::{FsPath, PathView};
use crate::mode::Shell;

verus! {

/// Why the integration cannot be put where it was asked for.
#[derive(Clone, Copy, Debug, PartialEq, Eq, Structural)]
pub enum InitError {
    /// The folder holding the program is not known.
    NoHome,
    /// The shell needs functions, which a script file cannot define.
    Functions,
}

impl InitError {
    pub fn message(self) -> (text: &'static str)
        ensures
            text@ == (match self {
                InitError::NoHome => "cannot locate the folder holding tadoru"@,
                InitError::Functions =>
                    "bash needs functions, so use: eval \"$(tadoru init bash)\""@,
            }),
    {
        match self {
            InitError::NoHome => "cannot locate the folder holding tadoru",
            InitError::Functions => "bash needs functions, so use: eval \"$(tadoru init bash)\"",
        }
    }
}

/// Scripts to be written, and where else on PATH programs of the same names
/// are not looked for.
#[derive(Debug)]
pub struct Scripts {
    pub dir: FsPath,
    /// What the name of a script ends in.
    pub ext: &'static str,
    pub skip: Vec<FsPath>,
}

#[verifier::ext_equal]
pub struct ScriptsView {
    pub dir: PathView,
    pub ext: Seq<char>,
    pub skip: Seq<PathView>,
}

impl View for Scripts {
    type V = ScriptsView;

    open spec fn view(&self) -> ScriptsView {
        ScriptsView {
            dir: self.dir@,
            ext: self.ext@,
            skip: self.skip@.map_values(|p: FsPath| p@),
        }
    }
}

pub open spec fn path_view(path: Option<FsPath>) -> Option<PathView> {
    match path {
        Some(path) => Some(path@),
        None => None,
    }
}

pub open spec fn out_view(out: Option<Option<FsPath>>) -> Option<Option<PathView>> {
    match out {
        Some(dir) => Some(path_view(dir)),
        None => None,
    }
}

/// Where the scripts go: to the folder named after `--out`, or with none named
/// to the one the program already lives in, so they land next to it rather
/// than somewhere chosen on the spot and forgotten. Without `--out` they are
/// printed.
pub open spec fn planned(
    shell: Shell,
    out: Option<Option<PathView>>,
    home: Option<PathView>,
) -> Result<Option<ScriptsView>, InitError> {
    match out {
        None => Ok(None),
        Some(named) => {
            let dir = match named {
                Some(dir) => Some(dir),
                None => home,
            };
            match dir {
                None => Err(InitError::NoHome),
                Some(dir) => match shell {
                    Shell::Bash => Err(InitError::Functions),
                    _ => Ok(
                        Some(
                            ScriptsView {
                                dir,
                                ext: if shell == Shell::Cmd {
                                    ".cmd"@
                                } else {
                                    ".ps1"@
                                },
                                skip: match home {
                                    Some(home) => seq![dir, home],
                                    None => seq![dir],
                                },
                            },
                        ),
                    ),
                },
            }
        },
    }
}

/// What to do for a shell: write scripts, or print what there is to print.
/// `home` is the folder holding the program.
pub fn plan(shell: Shell, out: Option<Option<FsPath>>, home: Option<FsPath>) -> (res: Result<
    Option<Scripts>,
    InitError,
>)
    ensures
        match res {
            Ok(Some(scripts)) => planned(shell, out_view(out), path_view(home)) == Ok::<
                Option<ScriptsView>,
                InitError,
            >(Some(scripts@)),
            Ok(None) => planned(shell, out_view(out), path_view(home)) == Ok::<
                Option<ScriptsView>,
                InitError,
            >(None),
            Err(error) => planned(shell, out_view(out), path_view(home)) == Err::<
                Option<ScriptsView>,
                InitError,
            >(error),
        },
{
    let named = match out {
        Some(named) => named,
        None => {
            return Ok(None);
        },
    };
    let dir = match named {
        Some(dir) => dir,
        None => match &home {
            Some(home) => home.clone(),
            None => {
                return Err(InitError::NoHome);
            },
        },
    };
    let ext = match shell {
        Shell::Bash => {
            return Err(InitError::Functions);
        },
        Shell::Cmd => ".cmd",
        Shell::Powershell => ".ps1",
    };
    let mut skip: Vec<FsPath> = Vec::new();
    skip.push(dir.clone());
    match home {
        Some(home) => skip.push(home),
        None => {},
    }
    let scripts = Scripts { dir, ext, skip };
    assert(scripts@.skip =~= (match path_view(home) {
        Some(home) => seq![dir@, home],
        None => seq![dir@],
    }));
    Ok(Some(scripts))
}

} // verus!
