//! Command lines of the storage tool, and what running one gives back.
//!
//! A command line is a vector of strings: the program, then its arguments.
//! The library never runs one. It says which to run, and reads the outcome
//! that its caller reports.

use vstd::prelude::*;

verus! {

/// What one finished command left behind.
#[derive(Clone, Debug, PartialEq, Eq)]
pub struct Capture {
    /// Whether it exited with status zero.
    pub success: bool,
    /// Its standard output; `None` where that was not valid UTF-8.
    pub stdout: Option<String>,
    /// Its standard error; `None` where that was not valid UTF-8.
    pub stderr: Option<String>,
}

/// The storage tool on `host`: called directly for the local machine, through
/// a remote shell otherwise.
pub open spec fn tool_on(host: Seq<char>) -> Seq<Seq<char>> {
    if host.len() == 0 {
        seq!["zfs"@]
    } else {
        seq!["ssh"@, host, "zfs"@]
    }
}

/// The trivial remote command that tests a login on `host`.
pub open spec fn login_argv(host: Seq<char>) -> Seq<Seq<char>> {
    seq!["ssh"@, host, "exit"@]
}

/// Asks for the encryption property of `dataset`.
pub open spec fn encryption_argv(host: Seq<char>, dataset: Seq<char>) -> Seq<Seq<char>> {
    tool_on(host) + seq![
        "list"@,
        "-H"@,
        "-t"@,
        "filesystem,volume"@,
        "-o"@,
        "encryption"@,
        dataset,
    ]
}

/// Lists `dataset` and the filesystems and volumes one level below it, oldest
/// first.
pub open spec fn children_argv(host: Seq<char>, dataset: Seq<char>) -> Seq<Seq<char>> {
    tool_on(host) + seq![
        "list"@,
        "-H"@,
        "-d"@,
        "1"@,
        "-t"@,
        "filesystem,volume"@,
        "-o"@,
        "name"@,
        "-s"@,
        "createtxg"@,
        dataset,
    ]
}

/// Lists `dataset` itself; the command succeeds where the dataset exists.
pub open spec fn existence_argv(host: Seq<char>, dataset: Seq<char>) -> Seq<Seq<char>> {
    tool_on(host) + seq![
        "list"@,
        "-H"@,
        "-t"@,
        "filesystem,volume"@,
        "-o"@,
        "name"@,
        "-S"@,
        "createtxg"@,
        dataset,
    ]
}

/// Lists the snapshots of `dataset`, newest first.
pub open spec fn snapshots_argv(host: Seq<char>, dataset: Seq<char>) -> Seq<Seq<char>> {
    tool_on(host) + seq![
        "list"@,
        "-H"@,
        "-t"@,
        "snapshot"@,
        "-o"@,
        "name"@,
        "-S"@,
        "createtxg"@,
        dataset,
    ]
}

/// Appends one argument.
pub fn push_arg(argv: &mut Vec<String>, arg: &str)
    ensures
        final(argv).deep_view() == old(argv).deep_view().push(arg@),
{
    let ghost before = argv.deep_view();
    let owned = arg.to_string();
    argv.push(owned);
    assert(argv.deep_view() =~= before.push(arg@));
}

/// The start of every command line of the storage tool on `host`.
pub fn tool(host: &str) -> (argv: Vec<String>)
    ensures
        argv.deep_view() == tool_on(host@),
{
    let mut argv: Vec<String> = Vec::new();
    assert(argv.deep_view() =~= Seq::<Seq<char>>::empty());
    if host.is_empty() {
        push_arg(&mut argv, "zfs");
    } else {
        push_arg(&mut argv, "ssh");
        push_arg(&mut argv, host);
        push_arg(&mut argv, "zfs");
    }
    assert(argv.deep_view() =~= tool_on(host@));
    argv
}

/// The command that tests whether a login on `host` works.
pub fn login_command(host: &str) -> (argv: Vec<String>)
    ensures
        argv.deep_view() == login_argv(host@),
{
    let mut argv: Vec<String> = Vec::new();
    assert(argv.deep_view() =~= Seq::<Seq<char>>::empty());
    push_arg(&mut argv, "ssh");
    push_arg(&mut argv, host);
    push_arg(&mut argv, "exit");
    assert(argv.deep_view() =~= login_argv(host@));
    argv
}

/// The query for the encryption property of `dataset` on `host`.
pub fn encryption_query(host: &str, dataset: &str) -> (argv: Vec<String>)
    ensures
        argv.deep_view() == encryption_argv(host@, dataset@),
{
    let mut argv = tool(host);
    push_arg(&mut argv, "list");
    push_arg(&mut argv, "-H");
    push_arg(&mut argv, "-t");
    push_arg(&mut argv, "filesystem,volume");
    push_arg(&mut argv, "-o");
    push_arg(&mut argv, "encryption");
    push_arg(&mut argv, dataset);
    assert(argv.deep_view() =~= encryption_argv(host@, dataset@));
    argv
}

/// The listing of `dataset` on `host` with its immediate children.
pub fn children_query(host: &str, dataset: &str) -> (argv: Vec<String>)
    ensures
        argv.deep_view() == children_argv(host@, dataset@),
{
    let mut argv = tool(host);
    push_arg(&mut argv, "list");
    push_arg(&mut argv, "-H");
    push_arg(&mut argv, "-d");
    push_arg(&mut argv, "1");
    push_arg(&mut argv, "-t");
    push_arg(&mut argv, "filesystem,volume");
    push_arg(&mut argv, "-o");
    push_arg(&mut argv, "name");
    push_arg(&mut argv, "-s");
    push_arg(&mut argv, "createtxg");
    push_arg(&mut argv, dataset);
    assert(argv.deep_view() =~= children_argv(host@, dataset@));
    argv
}

/// The query that succeeds where `dataset` exists on `host`.
pub fn existence_query(host: &str, dataset: &str) -> (argv: Vec<String>)
    ensures
        argv.deep_view() == existence_argv(host@, dataset@),
{
    let mut argv = tool(host);
    push_arg(&mut argv, "list");
    push_arg(&mut argv, "-H");
    push_arg(&mut argv, "-t");
    push_arg(&mut argv, "filesystem,volume");
    push_arg(&mut argv, "-o");
    push_arg(&mut argv, "name");
    push_arg(&mut argv, "-S");
    push_arg(&mut argv, "createtxg");
    push_arg(&mut argv, dataset);
    assert(argv.deep_view() =~= existence_argv(host@, dataset@));
    argv
}

/// The listing of the snapshots of `dataset` on `host`, newest first.
pub fn snapshots_query(host: &str, dataset: &str) -> (argv: Vec<String>)
    ensures
        argv.deep_view() == snapshots_argv(host@, dataset@),
{
    let mut argv = tool(host);
    push_arg(&mut argv, "list");
    push_arg(&mut argv, "-H");
    push_arg(&mut argv, "-t");
    push_arg(&mut argv, "snapshot");
    push_arg(&mut argv, "-o");
    push_arg(&mut argv, "name");
    push_arg(&mut argv, "-S");
    push_arg(&mut argv, "createtxg");
    push_arg(&mut argv, dataset);
    assert(argv.deep_view() =~= snapshots_argv(host@, dataset@));
    argv
}

} // verus!
