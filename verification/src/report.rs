//! The status reporter: pure formatting of work outcomes and progress
//! into the exact human-readable lines the supervisor emits. Formatting
//! never fails; every function states the characters of its result.

use vstd::prelude::*;

verus! {

/// A kind-tagged filesystem failure, as the filesystem collaborator
/// reports it. Carried inside a `WorkOutcome`, never propagated further.
#[derive(Clone, Copy, PartialEq, Eq, Structural, Debug)]
pub enum IoErrorKind {
    NotFound,
    PermissionDenied,
    AlreadyExists,
    InvalidData,
    Other,
}

/// The tagged result of one work unit: reported once, never retried.
pub enum WorkOutcome {
    Success(String),
    Failure(IoErrorKind, String),
}

/// The decimal digit characters.
pub open spec fn digit_char(d: nat) -> char {
    if d == 0 {
        '0'
    } else if d == 1 {
        '1'
    } else if d == 2 {
        '2'
    } else if d == 3 {
        '3'
    } else if d == 4 {
        '4'
    } else if d == 5 {
        '5'
    } else if d == 6 {
        '6'
    } else if d == 7 {
        '7'
    } else if d == 8 {
        '8'
    } else {
        '9'
    }
}

/// The base-10 rendering of a number, most significant digit first, with
/// no sign and no leading zeros (a lone zero for zero itself).
pub open spec fn dec_str(n: nat) -> Seq<char>
    decreases n,
{
    if n < 10 {
        seq![digit_char(n)]
    } else {
        dec_str(n / 10).push(digit_char(n % 10))
    }
}

/// The progress line of the counter unit at one tick.
pub open spec fn count_msg_of(i: nat) -> Seq<char> {
    "count "@ + dec_str(i)
}

/// The start line of the sleeper unit.
pub open spec fn sleeper_started_of(n: u64) -> Seq<char> {
    "Sleeper started with "@ + dec_str(n as nat) + " seconds."@
}

/// The completion line of the sleeper unit.
pub open spec fn slept_of(n: u64) -> Seq<char> {
    "Slept "@ + dec_str(n as nat) + " seconds."@
}

/// The start line of the file-reading unit.
pub open spec fn read_file_of(p: Seq<char>) -> Seq<char> {
    "Read file \""@ + p + "\""@
}

/// The start line of the file-creating unit.
pub open spec fn create_file_of(p: Seq<char>) -> Seq<char> {
    "Create file \""@ + p + "\""@
}

/// The success line of the file-creating unit.
pub open spec fn file_created_of(p: Seq<char>) -> Seq<char> {
    "File created \""@ + p + "\""@
}

/// The start line of the directory-creating unit.
pub open spec fn create_dir_of(p: Seq<char>) -> Seq<char> {
    "Create dir \""@ + p + "\""@
}

/// The success line of the directory-creating unit.
pub open spec fn dir_created_of(p: Seq<char>) -> Seq<char> {
    "Dir created \""@ + p + "\""@
}

/// One decimal digit as a string slice.
fn digit_slice(d: u64) -> (r: &'static str)
    requires
        d < 10,
    ensures
        r@ == seq![digit_char(d as nat)],
{
    proof {
        reveal_strlit("0");
        reveal_strlit("1");
        reveal_strlit("2");
        reveal_strlit("3");
        reveal_strlit("4");
        reveal_strlit("5");
        reveal_strlit("6");
        reveal_strlit("7");
        reveal_strlit("8");
        reveal_strlit("9");
    }
    let r: &'static str = if d == 0 {
        "0"
    } else if d == 1 {
        "1"
    } else if d == 2 {
        "2"
    } else if d == 3 {
        "3"
    } else if d == 4 {
        "4"
    } else if d == 5 {
        "5"
    } else if d == 6 {
        "6"
    } else if d == 7 {
        "7"
    } else if d == 8 {
        "8"
    } else {
        "9"
    };
    proof {
        assert(r@ =~= seq![digit_char(d as nat)]);
    }
    r
}

/// Renders a number in base 10, exactly as `dec_str` states.
pub fn u64_to_dec(n: u64) -> (r: String)
    ensures
        r@ == dec_str(n as nat),
    decreases n,
{
    if n < 10 {
        digit_slice(n).to_owned()
    } else {
        let mut s = u64_to_dec(n / 10);
        s.append(digit_slice(n % 10));
        proof {
            assert(s@ =~= dec_str(n as nat));
        }
        s
    }
}

/// The counter's progress line at tick `i`.
pub fn count_message(i: u64) -> (r: String)
    ensures
        r@ == count_msg_of(i as nat),
{
    let mut s = String::from_str("count ");
    let d = u64_to_dec(i);
    s.append(d.as_str());
    s
}

/// The sleeper's start line.
pub fn sleeper_started_message(n: u64) -> (r: String)
    ensures
        r@ == sleeper_started_of(n),
{
    let mut s = String::from_str("Sleeper started with ");
    let d = u64_to_dec(n);
    s.append(d.as_str());
    s.append(" seconds.");
    s
}

/// The sleeper's completion line.
pub fn slept_message(n: u64) -> (r: String)
    ensures
        r@ == slept_of(n),
{
    let mut s = String::from_str("Slept ");
    let d = u64_to_dec(n);
    s.append(d.as_str());
    s.append(" seconds.");
    s
}

/// A start or success line naming an operation and its path argument.
fn path_message(prefix: &str, p: &str) -> (r: String)
    ensures
        r@ == prefix@ + p@ + "\""@,
{
    let mut s = String::from_str(prefix);
    s.append(p);
    s.append("\"");
    s
}

/// The file-reading unit's start line.
pub fn read_file_message(p: &str) -> (r: String)
    ensures
        r@ == read_file_of(p@),
{
    path_message("Read file \"", p)
}

/// The file-creating unit's start line.
pub fn create_file_message(p: &str) -> (r: String)
    ensures
        r@ == create_file_of(p@),
{
    path_message("Create file \"", p)
}

/// The file-creating unit's success line.
pub fn file_created_message(p: &str) -> (r: String)
    ensures
        r@ == file_created_of(p@),
{
    path_message("File created \"", p)
}

/// The directory-creating unit's start line.
pub fn create_dir_message(p: &str) -> (r: String)
    ensures
        r@ == create_dir_of(p@),
{
    path_message("Create dir \"", p)
}

/// The directory-creating unit's success line.
pub fn dir_created_message(p: &str) -> (r: String)
    ensures
        r@ == dir_created_of(p@),
{
    path_message("Dir created \"", p)
}

/// Renders an outcome: a success line is prefixed with `Ok `, a failure
/// line is the failure's own detail, reported as-is.
pub fn outcome_message(o: &WorkOutcome) -> (r: String)
    ensures
        match o {
            WorkOutcome::Success(m) => r@ == "Ok "@ + m@,
            WorkOutcome::Failure(_, m) => r@ == m@,
        },
{
    match o {
        WorkOutcome::Success(m) => {
            let mut s = String::from_str("Ok ");
            s.append(m.as_str());
            s
        },
        WorkOutcome::Failure(_, m) => m.clone(),
    }
}

/// The line reported for a command line that did not parse.
pub fn invalid_input_message() -> (r: String)
    ensures
        r@ == "Invalid input."@,
{
    String::from_str("Invalid input.")
}

/// The line reported when the supervisor begins draining.
pub fn draining_message() -> (r: String)
    ensures
        r@ == "Waiting for running tasks..."@,
{
    String::from_str("Waiting for running tasks...")
}

/// The line reported when every handle has been drained.
pub fn drained_message() -> (r: String)
    ensures
        r@ == "All tasks done. Exit"@,
{
    String::from_str("All tasks done. Exit")
}

/// The line reported when awaiting a handle itself fails; the detail is
/// the failure's own rendering, supplied by the caller.
pub fn join_error_message(detail: &str) -> (r: String)
    ensures
        r@ == "Error "@ + detail@,
{
    let mut s = String::from_str("Error ");
    s.append(detail);
    s
}

} // verus!
