use vstd::prelude::*;

verus! {

/// What probing the launcher's directory path found.
#[derive(Clone, Copy, Debug, PartialEq, Eq, Structural)]
pub enum DirProbe {
    Missing,
    NotADirectory,
    Directory,
}

/// The kind of one entry read from the launcher's directory.
#[derive(Clone, Copy, Debug, PartialEq, Eq, Structural)]
pub enum EntryKind {
    RegularFile,
    Directory,
    Other,
}

/// Classifies a probed path from whether it exists and whether it is a directory.
pub fn probe_from(exists: bool, is_dir: bool) -> (r: DirProbe)
    ensures
        !exists ==> r == DirProbe::Missing,
        exists && !is_dir ==> r == DirProbe::NotADirectory,
        exists && is_dir ==> r == DirProbe::Directory,
{
    if !exists {
        DirProbe::Missing
    } else if !is_dir {
        DirProbe::NotADirectory
    } else {
        DirProbe::Directory
    }
}

/// Classifies a directory entry; a regular file wins over anything else.
pub fn classify_entry(is_file: bool, is_dir: bool) -> (r: EntryKind)
    ensures
        is_file ==> r == EntryKind::RegularFile,
        !is_file && is_dir ==> r == EntryKind::Directory,
        !is_file && !is_dir ==> r == EntryKind::Other,
{
    if is_file {
        EntryKind::RegularFile
    } else if is_dir {
        EntryKind::Directory
    } else {
        EntryKind::Other
    }
}

/// A process to spawn: a program and its arguments.
pub struct LaunchCommand {
    pub program: String,
    pub args: Vec<String>,
}

/// The command that opens a new interactive terminal session running `path`
/// as a command line: `cmd /C start cmd /K <path>`.
pub fn launch_command(path: &str) -> (r: LaunchCommand)
    ensures
        r.program@ == "cmd"@,
        r.args@.len() == 5,
        r.args@[0]@ == "/C"@,
        r.args@[1]@ == "start"@,
        r.args@[2]@ == "cmd"@,
        r.args@[3]@ == "/K"@,
        r.args@[4]@ == path@,
{
    let mut args: Vec<String> = Vec::new();
    args.push(String::from_str("/C"));
    args.push(String::from_str("start"));
    args.push(String::from_str("cmd"));
    args.push(String::from_str("/K"));
    args.push(path.to_owned());
    LaunchCommand { program: String::from_str("cmd"), args }
}

} // verus!
