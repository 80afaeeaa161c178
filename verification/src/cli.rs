//! The verdicts on what the command line names: the input, the output and
//! the license file. Looking at the file system is the caller's part; it
//! hands over what it saw, and the rules here say whether that will do.

use vstd::prelude::*;
use vstd::string::StringExecFns;

verus! {

/// The permission bits that let someone read a file.
pub const READ_BITS: u32 = 292;

/// The name that stands for standard input.
pub const STDIN: &'static str = "stdin";

/// The name that stands for standard output.
pub const STDOUT: &'static str = "stdout";

/// What a path turned out to be.
#[derive(Debug, Clone, Copy, PartialEq, Eq, Structural)]
pub enum PathKind {
    /// Nothing is there.
    Missing,
    /// A directory.
    Directory,
    /// A regular file.
    File,
    /// Something else.
    Other,
}

/// What was seen at a path.
#[derive(Debug, Clone, Copy, PartialEq, Eq, Structural)]
pub struct Probe {
    /// What the path is.
    pub kind: PathKind,
    /// The permission bits, where the metadata could be read.
    pub mode: Option<u32>,
}

/// Some read bit is set.
pub open spec fn readable(mode: u32) -> bool {
    mode & READ_BITS != 0
}

/// Whether a file with these permission bits can be read by someone.
pub fn file_is_readable(mode: u32) -> (r: bool)
    ensures
        r == readable(mode),
{
    (mode & READ_BITS) > 0
}

/// The entry is a regular file that can be read.
pub open spec fn is_readable_file(entry: Probe) -> bool {
    &&& entry.kind == PathKind::File
    &&& entry.mode matches Some(mode)
    &&& readable(mode)
}

/// Whether every entry of a directory is a regular file that can be read.
pub fn is_flat_dir_of_readable_files(entries: &Vec<Probe>) -> (r: bool)
    ensures
        r == forall|i: int| 0 <= i < entries@.len() ==> is_readable_file(#[trigger] entries@[i]),
{
    let mut i: usize = 0;
    while i < entries.len()
        invariant
            i <= entries@.len(),
            forall|k: int| 0 <= k < i ==> is_readable_file(#[trigger] entries@[k]),
        decreases entries@.len() - i,
    {
        let entry = entries[i];
        let ok = match (entry.kind, entry.mode) {
            (PathKind::File, Some(mode)) => file_is_readable(mode),
            _ => false,
        };
        if !ok {
            return false;
        }
        i = i + 1;
    }
    true
}

/// `head`, then `name`, then `tail`.
fn message(head: &str, name: &str, tail: &str) -> (m: String)
    ensures
        m@ == head@ + name@ + tail@,
{
    let mut m = String::from_str(head);
    m.append(name);
    m.append(tail);
    m
}

/// The verdict on an input: standard input always does; a directory does
/// where all its entries are readable regular files; a file does where it
/// can be read.
pub open spec fn input_verdict(input: Seq<char>, probe: Probe, flat: bool) -> Result<
    (),
    Seq<char>,
> {
    if input == STDIN@ {
        Ok(())
    } else {
        match probe.kind {
            PathKind::Missing => Err("input path "@ + input + " does not exist"@),
            PathKind::Directory => if flat {
                Ok(())
            } else {
                Err(""@ + input + " isn't a flat directory of readable files"@)
            },
            PathKind::File => match probe.mode {
                Some(mode) => if readable(mode) {
                    Ok(())
                } else {
                    Err("file "@ + input + " is not readable"@)
                },
                None => Err("unable to read file metadata of "@ + input + ""@),
            },
            PathKind::Other => Err(""@ + input + " has an unknown filetype"@),
        }
    }
}

/// Judges the input named on the command line. `flat` says whether the
/// directory, if it is one, holds readable regular files only.
pub fn validate_input_source(input: &str, probe: Probe, flat: bool) -> (r: Result<(), String>)
    ensures
        match input_verdict(input@, probe, flat) {
            Ok(()) => r is Ok,
            Err(why) => r matches Err(m) && m@ == why,
        },
{
    if String::from_str(input) == String::from_str(STDIN) {
        return Ok(());
    }
    match probe.kind {
        PathKind::Missing => Err(message("input path ", input, " does not exist")),
        PathKind::Directory => {
            if flat {
                Ok(())
            } else {
                Err(message("", input, " isn't a flat directory of readable files"))
            }
        },
        PathKind::File => match probe.mode {
            Some(mode) => {
                if file_is_readable(mode) {
                    Ok(())
                } else {
                    Err(message("file ", input, " is not readable"))
                }
            },
            None => Err(message("unable to read file metadata of ", input, "")),
        },
        PathKind::Other => Err(message("", input, " has an unknown filetype")),
    }
}

/// The verdict on a license file: it must be there, be no directory, and
/// be readable.
pub open spec fn license_verdict(license: Seq<char>, probe: Probe) -> Result<(), Seq<char>> {
    match probe.kind {
        PathKind::Missing => Err(""@ + license + " does not exist"@),
        PathKind::Directory => Err(""@ + license + " is a directory"@),
        _ => match probe.mode {
            Some(mode) => if readable(mode) {
                Ok(())
            } else {
                Err(""@ + license + " cannot be read"@)
            },
            None => Err(""@ + license + " cannot be read"@),
        },
    }
}

/// Judges the license file named on the command line.
pub fn validate_license_file(license: &str, probe: Probe) -> (r: Result<(), String>)
    ensures
        match license_verdict(license@, probe) {
            Ok(()) => r is Ok,
            Err(why) => r matches Err(m) && m@ == why,
        },
{
    match probe.kind {
        PathKind::Missing => Err(message("", license, " does not exist")),
        PathKind::Directory => Err(message("", license, " is a directory")),
        _ => {
            let ok = match probe.mode {
                Some(mode) => file_is_readable(mode),
                None => false,
            };
            if ok {
                Ok(())
            } else {
                Err(message("", license, " cannot be read"))
            }
        },
    }
}

/// The verdict on an output target: standard output always does, and so
/// does a path where nothing is yet; anything else must be a regular file
/// that is not read-only.
pub open spec fn output_verdict(output: Seq<char>, kind: PathKind, readonly: bool) -> Result<
    (),
    Seq<char>,
> {
    if output == STDOUT@ || kind == PathKind::Missing {
        Ok(())
    } else if kind != PathKind::File {
        Err(""@ + output + " is not a file"@)
    } else if readonly {
        Err("read-only file "@ + output + ""@)
    } else {
        Ok(())
    }
}

/// Judges the output target named on the command line.
pub fn validate_output_target(output: &str, kind: PathKind, readonly: bool) -> (r: Result<
    (),
    String,
>)
    ensures
        match output_verdict(output@, kind, readonly) {
            Ok(()) => r is Ok,
            Err(why) => r matches Err(m) && m@ == why,
        },
{
    if String::from_str(output) == String::from_str(STDOUT) {
        return Ok(());
    }
    match kind {
        PathKind::Missing => Ok(()),
        PathKind::File => {
            if readonly {
                Err(message("read-only file ", output, ""))
            } else {
                Ok(())
            }
        },
        _ => Err(message("", output, " is not a file")),
    }
}

} // verus!
