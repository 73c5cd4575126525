//! The configuration of a session, and where it keeps its record.

use crate::window::BlacklistedItems;
use vstd::prelude::*;
use vstd::string::StringExecFns;

verus! {

/// Where the session's file lies.
#[derive(Debug)]
pub enum TMPFile {
    /// In the user's runtime directory.
    InXdgRuntime,
    /// In the system's temporary directory.
    InTmp,
    /// At the path given.
    Custom(String),
}

/// What a session is configured with.
#[derive(Debug)]
pub struct Config {
    pub tmpfile: TMPFile,
    /// The space between the buttons of a row; 0 where none is configured.
    pub space_between_buttons: i32,
    /// The width, in characters, from which a title is shortened.
    pub maxwidth: usize,
    pub blacklist: BlacklistedItems,
}

/// Why the configuration gives no path for the session's file.
#[derive(Clone, Copy, Debug, PartialEq, Eq, Structural)]
pub enum ConfigError {
    /// The file is to lie in the runtime directory, and there is none.
    NoRuntimeDir,
}

/// The name of the session's file in the runtime directory, with the slash
/// that parts the two.
pub open spec fn runtime_file_name() -> Seq<char> {
    seq!['/', 'w', 'i', 'n', 't', 'e', 'r', 'r', 'e', 'i', 's', 'e']
}

/// The path of the session's file in the temporary directory.
pub open spec fn tmp_file_path() -> Seq<char> {
    seq!['/', 't', 'm', 'p'] + runtime_file_name()
}

/// The path of the session's file under the policy `tmpfile`, where
/// `runtime_dir` is the runtime directory, if the system has one.
pub open spec fn tmpfile_path(tmpfile: TMPFile, runtime_dir: Option<Seq<char>>) -> Result<
    Seq<char>,
    ConfigError,
> {
    match tmpfile {
        TMPFile::Custom(path) => Ok(path@),
        TMPFile::InTmp => Ok(tmp_file_path()),
        TMPFile::InXdgRuntime => match runtime_dir {
            Some(dir) => Ok(dir + runtime_file_name()),
            None => Err(ConfigError::NoRuntimeDir),
        },
    }
}

impl Config {
    /// The path of the session's file, where `xdg_runtime_dir` is the value
    /// of the runtime directory's variable, if it is set.
    pub fn tmpfile_name(&self, xdg_runtime_dir: Option<&str>) -> (r: Result<String, ConfigError>)
        ensures
            match r {
                Ok(path) => tmpfile_path(
                    self.tmpfile,
                    match xdg_runtime_dir {
                        Some(dir) => Some(dir@),
                        None => None,
                    },
                ) == Ok::<Seq<char>, ConfigError>(path@),
                Err(e) => tmpfile_path(
                    self.tmpfile,
                    match xdg_runtime_dir {
                        Some(dir) => Some(dir@),
                        None => None,
                    },
                ) == Err::<Seq<char>, ConfigError>(e),
            },
    {
        proof {
            reveal_strlit("/winterreise");
            reveal_strlit("/tmp/winterreise");
        }
        assert("/winterreise"@ =~= runtime_file_name());
        assert("/tmp/winterreise"@ =~= tmp_file_path());
        match &self.tmpfile {
            TMPFile::Custom(path) => Ok(path.clone()),
            TMPFile::InTmp => Ok(String::from_str("/tmp/winterreise")),
            TMPFile::InXdgRuntime => match xdg_runtime_dir {
                Some(dir) => Ok(String::from_str(dir).concat("/winterreise")),
                None => Err(ConfigError::NoRuntimeDir),
            },
        }
    }
}

} // verus!
