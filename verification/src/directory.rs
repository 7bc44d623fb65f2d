//! What to say of a path that should name a directory, once the file
//! system has been asked about it.

use vstd::prelude::*;
use vstd::string::StringExecFns;

verus! {

/// The complaint about a path that does not exist.
pub open spec fn missing_message(dir: Seq<char>) -> Seq<char> {
    "Directory '"@ + dir + "' does not exist"@
}

/// The complaint about a path that exists and is no directory.
pub open spec fn not_a_directory_message(dir: Seq<char>) -> Seq<char> {
    "'"@ + dir + "' is not a directory"@
}

/// The judgement on the path `dir`, of which the file system says whether
/// it exists and whether it is a directory: the path is accepted where it
/// is both, and else the complaint says which of the two it is not.
pub open spec fn directory_judgement(dir: Seq<char>, exists: bool, is_dir: bool) -> Result<
    (),
    Seq<char>,
> {
    if !exists {
        Err(missing_message(dir))
    } else if !is_dir {
        Err(not_a_directory_message(dir))
    } else {
        Ok(())
    }
}

/// Judges the path `dir`, given what the file system says of it.
pub fn validate_directory(dir: &str, exists: bool, is_dir: bool) -> (result: Result<(), String>)
    ensures
        match result {
            Ok(_) => directory_judgement(dir@, exists, is_dir) is Ok,
            Err(complaint) => directory_judgement(dir@, exists, is_dir) == Err::<(), Seq<char>>(
                complaint@,
            ),
        },
{
    if !exists {
        let mut complaint = String::from_str("Directory '");
        complaint.append(dir);
        complaint.append("' does not exist");
        Err(complaint)
    } else if !is_dir {
        let mut complaint = String::from_str("'");
        complaint.append(dir);
        complaint.append("' is not a directory");
        Err(complaint)
    } else {
        Ok(())
    }
}

} // verus!
