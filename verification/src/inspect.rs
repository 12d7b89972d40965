//! Reading what the discovery queries report about hosts and datasets.
//!
//! Each function takes the outcome of one command: `None` where the command
//! could not be run at all, otherwise what it left behind. A query that could
//! not be run, or whose output cannot be read, counts as "no result"; nothing
//! in the value returned tells that apart from a genuine empty answer.

use crate::command::Capture;
use crate::text::{lines_of, same_text, split_lines};
use vstd::prelude::*;

verus! {

/// The first line of `text`; empty where `text` has no line.
pub open spec fn first_line_of(text: Seq<char>) -> Seq<char> {
    let lines = lines_of(text);
    if lines.len() > 0 {
        lines[0]
    } else {
        Seq::empty()
    }
}

/// A login worked where the command ran, its diagnostics could be read, and
/// it exited with status zero.
pub open spec fn login_ok(outcome: Option<Capture>) -> bool {
    match outcome {
        Some(capture) => capture.stderr is Some && capture.success,
        None => false,
    }
}

/// The lines to report for a login that did not work: those of the remote
/// shell's diagnostics where they could be read, none otherwise.
pub open spec fn login_diagnostics_of(outcome: Option<Capture>) -> Seq<Seq<char>> {
    match outcome {
        Some(capture) => match capture.stderr {
            Some(text) => if capture.success {
                Seq::empty()
            } else {
                lines_of(text@)
            },
            None => Seq::empty(),
        },
        None => Seq::empty(),
    }
}

/// A dataset counts as encrypted where the first line of the answer is
/// anything but `off`; an answer that is missing or unreadable counts as not
/// encrypted.
pub open spec fn encrypted_in(outcome: Option<Capture>) -> bool {
    match outcome {
        Some(capture) => match capture.stdout {
            Some(text) => first_line_of(text@) != "off"@,
            None => false,
        },
        None => false,
    }
}

/// The children named by a listing: every line but the first, which names
/// the listed dataset itself.
pub open spec fn children_of_listing(lines: Seq<Seq<char>>) -> Seq<Seq<char>> {
    if lines.len() > 0 {
        lines.drop_first()
    } else {
        Seq::empty()
    }
}

/// The children that a child listing reports, in its order; none where the
/// listing is missing or unreadable.
pub open spec fn children_in(outcome: Option<Capture>) -> Seq<Seq<char>> {
    match outcome {
        Some(capture) => match capture.stdout {
            Some(text) => children_of_listing(lines_of(text@)),
            None => Seq::empty(),
        },
        None => Seq::empty(),
    }
}

/// A dataset exists where the query for it ran and exited with status zero.
pub open spec fn exists_in(outcome: Option<Capture>) -> bool {
    match outcome {
        Some(capture) => capture.success,
        None => false,
    }
}

/// The first line of `text` as a string of its own.
pub fn first_line(text: &str) -> (line: String)
    ensures
        line@ == first_line_of(text@),
{
    let lines = split_lines(text);
    if lines.len() > 0 {
        assert(lines.deep_view()[0] == lines@[0]@);
        lines[0].clone()
    } else {
        String::new()
    }
}

/// Whether the login that `outcome` reports worked.
pub fn can_login_to_host(outcome: &Option<Capture>) -> (ok: bool)
    ensures
        ok == login_ok(*outcome),
{
    match outcome {
        Some(capture) => capture.stderr.is_some() && capture.success,
        None => false,
    }
}

/// The diagnostic lines to report for the login that `outcome` reports.
pub fn login_diagnostics(outcome: &Option<Capture>) -> (lines: Vec<String>)
    ensures
        lines.deep_view() == login_diagnostics_of(*outcome),
{
    match outcome {
        Some(capture) => match &capture.stderr {
            Some(text) => if capture.success {
                no_lines()
            } else {
                split_lines(text.as_str())
            },
            None => no_lines(),
        },
        None => no_lines(),
    }
}

/// Whether the answer to an encryption query says that the dataset is
/// encrypted.
pub fn is_dataset_encrypted(outcome: &Option<Capture>) -> (encrypted: bool)
    ensures
        encrypted == encrypted_in(*outcome),
{
    match outcome {
        Some(capture) => match &capture.stdout {
            Some(text) => {
                let line = first_line(text.as_str());
                !same_text(line.as_str(), "off")
            },
            None => false,
        },
        None => false,
    }
}

/// The child datasets that a child listing reports, without the listed
/// dataset itself.
pub fn get_child_datasets(outcome: &Option<Capture>) -> (children: Vec<String>)
    ensures
        children.deep_view() == children_in(*outcome),
{
    match outcome {
        Some(capture) => match &capture.stdout {
            Some(text) => {
                let mut lines = split_lines(text.as_str());
                if lines.len() > 0 {
                    let ghost listed = lines.deep_view();
                    lines.remove(0);
                    assert(lines.deep_view() =~= listed.drop_first());
                    lines
                } else {
                    assert(lines.deep_view() =~= Seq::<Seq<char>>::empty());
                    lines
                }
            },
            None => no_lines(),
        },
        None => no_lines(),
    }
}

/// Whether the answer to an existence query says that the dataset exists.
pub fn does_dataset_exist_on_target(outcome: &Option<Capture>) -> (exists: bool)
    ensures
        exists == exists_in(*outcome),
{
    match outcome {
        Some(capture) => capture.success,
        None => false,
    }
}

/// An empty list of lines.
pub fn no_lines() -> (lines: Vec<String>)
    ensures
        lines.deep_view() == Seq::<Seq<char>>::empty(),
{
    let lines: Vec<String> = Vec::new();
    assert(lines.deep_view() =~= Seq::<Seq<char>>::empty());
    lines
}

/// A listing that names each dataset once and the listed dataset first has
/// that dataset nowhere among the children read from it.
pub proof fn lemma_children_exclude_listed(lines: Seq<Seq<char>>, dataset: Seq<char>)
    requires
        lines.len() > 0,
        lines[0] == dataset,
        lines.no_duplicates(),
    ensures
        !children_of_listing(lines).contains(dataset),
        children_of_listing(lines).len() == lines.len() - 1,
        forall|i: int| 0 <= i < lines.len() - 1 ==> children_of_listing(lines)[i] == lines[i + 1],
{
    let children = children_of_listing(lines);
    assert forall|i: int| 0 <= i < children.len() implies children[i] != dataset by {
        assert(children[i] == lines[i + 1]);
    }
}

} // verus!
