use crate::command::base::ArgumentList;
use vstd::prelude::*;

verus! {

/// `std::path::PathBuf`, carried through unopened.
#[verifier::external_type_specification]
#[verifier::external_body]
pub struct ExPathBuf(std::path::PathBuf);

/// `std::path::Path`, carried through unopened.
#[verifier::external_type_specification]
#[verifier::external_body]
pub struct ExPath(std::path::Path);

/// `<PathBuf as Clone>::clone`: a copy of the path. Nothing is claimed of the
/// result, since the path is opaque here.
pub assume_specification[ <std::path::PathBuf as Clone>::clone ](p: &std::path::PathBuf) -> std::path::PathBuf;

/// The directory a command runs in.
#[derive(Debug, Clone, PartialEq, Eq, Hash)]
pub struct CurrentDirectoryPath(pub std::path::PathBuf);

/// The program a command runs.
#[derive(Debug, Clone, PartialEq, Eq, Hash)]
pub struct ExecutablePath(pub std::path::PathBuf);

/// `PathBuf::as_path`: the path the buffer holds.
#[verifier::external_body]
fn path_buf_as_path(p: &std::path::PathBuf) -> &std::path::Path {
    p.as_path()
}

impl AsRef<std::path::Path> for CurrentDirectoryPath {
    fn as_ref(&self) -> &std::path::Path {
        path_buf_as_path(&self.0)
    }
}

impl AsRef<std::path::Path> for ExecutablePath {
    fn as_ref(&self) -> &std::path::Path {
        path_buf_as_path(&self.0)
    }
}

/// A program, the directory it runs in and its arguments.
#[derive(Debug, Clone, PartialEq, Eq)]
pub struct Command<'a> {
    pub current_directory: CurrentDirectoryPath,
    pub executable_path: ExecutablePath,
    pub argument_list: ArgumentList<'a>,
}

impl<'a> Command<'a> {
    pub fn new(
        current_directory: CurrentDirectoryPath,
        executable_path: ExecutablePath,
        argument_list: ArgumentList<'a>,
    ) -> (r: Self)
        ensures
            r.current_directory == current_directory,
            r.executable_path == executable_path,
            r.argument_list == argument_list,
    {
        Self { current_directory, executable_path, argument_list }
    }
}

} // verus!
