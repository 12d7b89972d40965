//! Choosing snapshots from listings.
//!
//! A snapshot listing names one snapshot per line as `dataset@tag`, newest
//! first: the storage tool sorts it by the pool's creation counter, highest
//! first. So the position in the listing stands for the age, and the first
//! line that qualifies is the most recent snapshot that does.

use crate::command::Capture;
use crate::dataset::{snapshot_tag, tag_of};
use crate::inspect::{first_line, first_line_of};
use crate::text::{lines_of, split_lines, starts_with};
use vstd::prelude::*;

verus! {

/// The tags of the snapshots that a listing names, in its order.
pub open spec fn tags_of(lines: Seq<Seq<char>>) -> Seq<Seq<char>> {
    lines.map_values(|line: Seq<char>| tag_of(line))
}

/// Whether `tag` passes the filter `prefix`: it begins with it. The empty
/// prefix lets every tag pass.
pub open spec fn qualifies(tag: Seq<char>, prefix: Seq<char>) -> bool {
    prefix.is_prefix_of(tag)
}

/// The first of `tags` that passes `prefix`; empty where none does.
pub open spec fn most_recent_of(tags: Seq<Seq<char>>, prefix: Seq<char>) -> Seq<char>
    decreases tags.len(),
{
    if tags.len() == 0 {
        Seq::empty()
    } else if qualifies(tags[0], prefix) {
        tags[0]
    } else {
        most_recent_of(tags.drop_first(), prefix)
    }
}

/// The most recent snapshot tag with `prefix` that a listing of the source
/// reports; empty where the listing is missing or unreadable.
pub open spec fn most_recent_in(outcome: Option<Capture>, prefix: Seq<char>) -> Seq<char> {
    match outcome {
        Some(capture) => match capture.stdout {
            Some(text) => most_recent_of(tags_of(lines_of(text@)), prefix),
            None => Seq::empty(),
        },
        None => Seq::empty(),
    }
}

/// The tag of the newest snapshot that a listing of the target reports;
/// empty where the listing failed, is unreadable or names no snapshot.
pub open spec fn last_replicated_in(outcome: Option<Capture>) -> Seq<char> {
    match outcome {
        Some(capture) => match capture.stdout {
            Some(text) => if capture.success {
                tag_of(first_line_of(text@))
            } else {
                Seq::empty()
            },
            None => Seq::empty(),
        },
        None => Seq::empty(),
    }
}

/// The tag of the most recent snapshot of the source that passes `prefix`;
/// empty where there is none.
#[verifier::loop_isolation(false)]
pub fn get_most_recent_snapshot(outcome: &Option<Capture>, prefix: &str) -> (tag: String)
    ensures
        tag@ == most_recent_in(*outcome, prefix@),
{
    match outcome {
        Some(capture) => match &capture.stdout {
            Some(text) => {
                let lines = split_lines(text.as_str());
                let ghost tags = tags_of(lines.deep_view());
                let mut i: usize = 0;
                while i < lines.len()
                    invariant
                        i <= lines@.len(),
                        tags == tags_of(lines.deep_view()),
                        forall|j: int| 0 <= j < i ==> !qualifies(tags[j], prefix@),
                    decreases lines@.len() - i,
                {
                    let tag = snapshot_tag(lines[i].as_str());
                    assert(lines.deep_view()[i as int] == lines@[i as int]@);
                    assert(tag@ == tags[i as int]);
                    if starts_with(tag.as_str(), prefix) {
                        proof {
                            lemma_selection(tags, prefix@);
                        }
                        return tag;
                    }
                    i = i + 1;
                }
                proof {
                    lemma_selection(tags, prefix@);
                }
                String::new()
            },
            None => String::new(),
        },
        None => String::new(),
    }
}

/// The tag of the snapshot that was replicated last, as the target's listing
/// reports it; empty where nothing was replicated yet.
pub fn get_last_replicated_snapshot(outcome: &Option<Capture>) -> (tag: String)
    ensures
        tag@ == last_replicated_in(*outcome),
{
    match outcome {
        Some(capture) => match &capture.stdout {
            Some(text) => if capture.success {
                let line = first_line(text.as_str());
                snapshot_tag(line.as_str())
            } else {
                String::new()
            },
            None => String::new(),
        },
        None => String::new(),
    }
}

/// The position in `tags` of the tag chosen for `prefix`: the first that
/// passes. `None` where no tag passes.
pub open spec fn chosen_index(tags: Seq<Seq<char>>, prefix: Seq<char>) -> Option<int>
    decreases tags.len(),
{
    if tags.len() == 0 {
        None
    } else if qualifies(tags[0], prefix) {
        Some(0)
    } else {
        match chosen_index(tags.drop_first(), prefix) {
            Some(k) => Some(k + 1),
            None => None,
        }
    }
}

/// The selection picks a listed tag that passes the filter, and the newest
/// such: nothing listed before it passes. It picks nothing exactly where no
/// listed tag passes.
pub proof fn lemma_selection(tags: Seq<Seq<char>>, prefix: Seq<char>)
    ensures
        match chosen_index(tags, prefix) {
            Some(k) => {
                &&& 0 <= k < tags.len()
                &&& most_recent_of(tags, prefix) == tags[k]
                &&& qualifies(tags[k], prefix)
                &&& forall|j: int| 0 <= j < k ==> !qualifies(tags[j], prefix)
            },
            None => {
                &&& most_recent_of(tags, prefix) == Seq::<char>::empty()
                &&& forall|j: int| 0 <= j < tags.len() ==> !qualifies(tags[j], prefix)
            },
        },
    decreases tags.len(),
{
    if tags.len() > 0 && !qualifies(tags[0], prefix) {
        let rest = tags.drop_first();
        lemma_selection(rest, prefix);
        match chosen_index(rest, prefix) {
            Some(k) => {
                assert forall|j: int| 0 <= j < k + 1 implies !qualifies(tags[j], prefix) by {
                    if j > 0 {
                        assert(rest[j - 1] == tags[j]);
                    }
                }
            },
            None => {
                assert forall|j: int| 0 <= j < tags.len() implies !qualifies(tags[j], prefix) by {
                    if j > 0 {
                        assert(rest[j - 1] == tags[j]);
                    }
                }
            },
        }
    }
}

/// In a listing sorted by creation counter, highest first, the chosen tag
/// has the highest counter among the tags that pass the filter.
pub proof fn lemma_selection_has_highest_counter(
    tags: Seq<Seq<char>>,
    counters: Seq<int>,
    prefix: Seq<char>,
    other: int,
)
    requires
        counters.len() == tags.len(),
        forall|a: int, b: int| 0 <= a < b < counters.len() ==> counters[a] > counters[b],
        0 <= other < tags.len(),
        qualifies(tags[other], prefix),
    ensures
        chosen_index(tags, prefix) is Some,
        counters[chosen_index(tags, prefix).unwrap()] >= counters[other],
        most_recent_of(tags, prefix) == tags[chosen_index(tags, prefix).unwrap()],
{
    lemma_selection(tags, prefix);
}

/// The selection is empty exactly where no listed tag passes the filter,
/// unless the newest tag that passes is itself empty.
pub proof fn lemma_selection_empty_iff_none_passes(tags: Seq<Seq<char>>, prefix: Seq<char>)
    requires
        match chosen_index(tags, prefix) {
            Some(k) => tags[k].len() > 0,
            None => true,
        },
    ensures
        most_recent_of(tags, prefix).len() == 0 <==> forall|j: int|
            0 <= j < tags.len() ==> !qualifies(tags[j], prefix),
{
    lemma_selection(tags, prefix);
}

} // verus!
