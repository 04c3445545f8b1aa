use vstd::prelude::*;
use std::sync::Arc;

verus! {

/// Converts the file paths of the build system into paths of the operating
/// system, relative to a base directory.
#[derive(Clone, Debug, PartialEq)]
pub struct FilePathConverter {
    pub base_directory: String,
}

/// Builds modules by running Ninja on a build script.
pub struct NinjaModuleBuilder {
    file_path_converter: Arc<FilePathConverter>,
}

/// The command line that runs Ninja on the build script at `build_script_path`.
pub open spec fn ninja_command_line(build_script_path: Seq<char>) -> Seq<Seq<char>> {
    seq!["ninja"@, "-f"@, build_script_path]
}

impl NinjaModuleBuilder {
    /// The converter of file paths that the builder was made with.
    pub closed spec fn spec_file_path_converter(&self) -> FilePathConverter {
        *self.file_path_converter
    }

    pub fn new(file_path_converter: Arc<FilePathConverter>) -> (res: Self)
        ensures
            res.spec_file_path_converter() == *file_path_converter,
    {
        Self { file_path_converter }
    }

    pub fn file_path_converter(&self) -> (res: &FilePathConverter)
        ensures
            *res == self.spec_file_path_converter(),
    {
        &self.file_path_converter
    }

    /// The program and arguments that build the script at `build_script_path`,
    /// a path of the operating system.
    pub fn build_command(&self, build_script_path: &str) -> (res: Vec<String>)
        ensures
            res@.map_values(|s: String| s@) == ninja_command_line(build_script_path@),
    {
        let mut command: Vec<String> = Vec::new();
        command.push(String::from_str("ninja"));
        command.push(String::from_str("-f"));
        command.push(build_script_path.to_string());
        command
    }
}

} // verus!
