//! Dataset references, and the names derived from them.
//!
//! A dataset is named by a path such as `tank/data/db`. A job names it as
//! `path` or as `host:path`; a snapshot of it is `path@tag`.

use crate::text::{chars_of, rsplit_once, tail_after_last};
use vstd::prelude::*;
use vstd::string::{StrSliceExecFns, StringExecFns};

verus! {

/// Host and path of a job's dataset field. With exactly one colon the host
/// is what stands before it and the path what follows. Without a colon the
/// whole field is a local path. With more than one colon the field is a local
/// path that ends before the first colon.
pub open spec fn host_and_dataset(s: Seq<char>) -> (Seq<char>, Seq<char>) {
    match s.index_of_first(':') {
        None => (Seq::empty(), s),
        Some(i) => if s.index_of_last(':') == Some(i) {
            (s.subrange(0, i), s.subrange(i + 1, s.len() as int))
        } else {
            (Seq::empty(), s.subrange(0, i))
        },
    }
}

/// The last component of a dataset path: what follows its last slash, and
/// the whole path where it has no slash.
pub open spec fn basename_of(path: Seq<char>) -> Seq<char> {
    if path.contains('/') {
        tail_after_last(path, '/')
    } else {
        path
    }
}

/// `parent`, a slash, `name`.
pub open spec fn joined(parent: Seq<char>, name: Seq<char>) -> Seq<char> {
    parent + seq!['/'] + name
}

/// Where a source dataset lands below a target parent: the parent, a slash,
/// and the source's last component.
pub open spec fn target_path_of(target_parent: Seq<char>, source: Seq<char>) -> Seq<char> {
    joined(target_parent, basename_of(source))
}

/// The full name of the snapshot `tag` of `dataset`.
pub open spec fn snapshot_of(dataset: Seq<char>, tag: Seq<char>) -> Seq<char> {
    dataset + seq!['@'] + tag
}

/// The tag of a full snapshot name: what follows its last `@`.
pub open spec fn tag_of(snapshot: Seq<char>) -> Seq<char> {
    tail_after_last(snapshot, '@')
}

/// Splits a job's dataset field into host and path; the host is empty for a
/// local dataset.
pub fn split_host_and_dataset(string: &str) -> (parts: (&str, &str))
    ensures
        (parts.0@, parts.1@) == host_and_dataset(string@),
{
    let chars = chars_of(string);
    let n = chars.len();
    let mut first: usize = 0;
    while first < n && chars[first] != ':'
        invariant
            first <= n,
            n == chars@.len(),
            forall|j: int| 0 <= j < first ==> chars@[j] != ':',
        decreases n - first,
    {
        first = first + 1;
    }
    proof {
        string@.index_of_first_ensures(':');
        string@.index_of_last_ensures(':');
    }
    if first == n {
        (string.substring_char(0, 0), string.substring_char(0, n))
    } else {
        let mut last: usize = n - 1;
        while chars[last] != ':'
            invariant
                first <= last < n,
                n == chars@.len(),
                chars@[first as int] == ':',
                forall|j: int| last < j < n ==> chars@[j] != ':',
            decreases last,
        {
            last = last - 1;
        }
        if first == last {
            (string.substring_char(0, first), string.substring_char(first + 1, n))
        } else {
            (string.substring_char(0, 0), string.substring_char(0, first))
        }
    }
}

/// The last component of a dataset path.
pub fn basename(path: &str) -> (name: String)
    ensures
        name@ == basename_of(path@),
{
    let chars = chars_of(path);
    let mut i: usize = 0;
    while i < chars.len() && chars[i] != '/'
        invariant
            i <= chars@.len(),
            forall|j: int| 0 <= j < i ==> chars@[j] != '/',
        decreases chars@.len() - i,
    {
        i = i + 1;
    }
    if i < chars.len() {
        assert(chars@[i as int] == '/');
        rsplit_once(path, '/')
    } else {
        path.to_string()
    }
}

/// `parent`, a slash, `name`.
pub fn join_path(parent: &str, name: &str) -> (path: String)
    ensures
        path@ == joined(parent@, name@),
{
    let mut path = parent.to_string();
    path.push('/');
    path.append(name);
    path
}

/// Where `source` lands below `target_parent`.
pub fn target_path(target_parent: &str, source: &str) -> (path: String)
    ensures
        path@ == target_path_of(target_parent@, source@),
{
    let name = basename(source);
    join_path(target_parent, name.as_str())
}

/// The full name of the snapshot `tag` of `dataset`.
pub fn snapshot_name(dataset: &str, tag: &str) -> (name: String)
    ensures
        name@ == snapshot_of(dataset@, tag@),
{
    let mut name = dataset.to_string();
    name.push('@');
    name.append(tag);
    name
}

/// The tag of a full snapshot name.
pub fn snapshot_tag(snapshot: &str) -> (tag: String)
    ensures
        tag@ == tag_of(snapshot@),
{
    rsplit_once(snapshot, '@')
}

/// A dataset on a host. An empty host means the local machine.
#[derive(Clone, Debug, PartialEq, Eq)]
pub struct DatasetRef {
    pub host: String,
    pub path: String,
}

/// What a `DatasetRef` holds, as character sequences.
#[verifier::ext_equal]
pub struct DatasetRefView {
    pub host: Seq<char>,
    pub path: Seq<char>,
}

impl View for DatasetRef {
    type V = DatasetRefView;

    open spec fn view(&self) -> DatasetRefView {
        DatasetRefView { host: self.host@, path: self.path@ }
    }
}

impl DatasetRef {
    /// Reads a job's dataset field.
    pub fn parse(field: &str) -> (dataset: DatasetRef)
        ensures
            (dataset@.host, dataset@.path) == host_and_dataset(field@),
    {
        let (host, path) = split_host_and_dataset(field);
        DatasetRef { host: host.to_string(), path: path.to_string() }
    }

    /// Whether the dataset lives on another machine.
    pub fn is_remote(&self) -> (remote: bool)
        ensures
            remote == (self@.host.len() > 0),
    {
        !self.host.as_str().is_empty()
    }
}

} // verus!
