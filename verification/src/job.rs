//! Replication jobs as they are configured, and as the engine reads them.

use crate::dataset::{host_and_dataset, DatasetRef};
use vstd::prelude::*;

verus! {

/// One job as the configuration spells it. Fields left out are `None`.
#[derive(Clone, Debug, PartialEq, Eq)]
pub struct Job {
    /// The dataset to replicate, as `path` or `host:path`.
    pub sourcedataset: String,
    /// Only snapshots whose tag begins with this are replicated.
    pub prefix: Option<String>,
    /// Whether the datasets below the source are replicated too.
    pub recursive: Option<bool>,
    /// Whether the received datasets may be mounted.
    pub canmount: Option<bool>,
    /// Whether an unencrypted source takes on the encryption of the dataset
    /// that it is received into.
    pub inherit_encryption: Option<bool>,
    /// The dataset to replicate into, as `path` or `host:path`.
    pub targetdataset: String,
}

/// One job with its datasets parsed and its defaults filled in.
#[derive(Clone, Debug, PartialEq, Eq)]
pub struct JobSpec {
    pub source: DatasetRef,
    pub target: DatasetRef,
    pub recursive: bool,
    pub canmount: bool,
    pub inherit_encryption: bool,
    /// The snapshot filter; empty for none.
    pub prefix: String,
}

/// What a `JobSpec` holds, as character sequences.
#[verifier::ext_equal]
pub struct JobSpecView {
    pub source_host: Seq<char>,
    pub source_path: Seq<char>,
    pub target_host: Seq<char>,
    pub target_path: Seq<char>,
    pub recursive: bool,
    pub canmount: bool,
    pub inherit_encryption: bool,
    pub prefix: Seq<char>,
}

impl View for JobSpec {
    type V = JobSpecView;

    open spec fn view(&self) -> JobSpecView {
        JobSpecView {
            source_host: self.source@.host,
            source_path: self.source@.path,
            target_host: self.target@.host,
            target_path: self.target@.path,
            recursive: self.recursive,
            canmount: self.canmount,
            inherit_encryption: self.inherit_encryption,
            prefix: self.prefix@,
        }
    }
}

/// A switch that was left out is off.
pub open spec fn switch_of(setting: Option<bool>) -> bool {
    match setting {
        Some(on) => on,
        None => false,
    }
}

/// A filter that was left out is empty.
pub open spec fn prefix_of(setting: Option<String>) -> Seq<char> {
    match setting {
        Some(prefix) => prefix@,
        None => Seq::empty(),
    }
}

/// How the engine reads `job`.
pub open spec fn job_spec_of(job: Job) -> JobSpecView {
    JobSpecView {
        source_host: host_and_dataset(job.sourcedataset@).0,
        source_path: host_and_dataset(job.sourcedataset@).1,
        target_host: host_and_dataset(job.targetdataset@).0,
        target_path: host_and_dataset(job.targetdataset@).1,
        recursive: switch_of(job.recursive),
        canmount: switch_of(job.canmount),
        inherit_encryption: switch_of(job.inherit_encryption),
        prefix: prefix_of(job.prefix),
    }
}

impl JobSpec {
    /// Parses the datasets of `job` and fills in its defaults: switches that
    /// were left out are off, a filter that was left out is empty.
    pub fn from_job(job: &Job) -> (spec: JobSpec)
        ensures
            spec@ == job_spec_of(*job),
    {
        JobSpec {
            source: DatasetRef::parse(job.sourcedataset.as_str()),
            target: DatasetRef::parse(job.targetdataset.as_str()),
            recursive: match job.recursive {
                Some(on) => on,
                None => false,
            },
            canmount: match job.canmount {
                Some(on) => on,
                None => false,
            },
            inherit_encryption: match job.inherit_encryption {
                Some(on) => on,
                None => false,
            },
            prefix: match &job.prefix {
                Some(prefix) => prefix.clone(),
                None => String::new(),
            },
        }
    }
}

} // verus!
