//! The buckets that events are recorded in: one for live activity, merged from
//! all sessions, and one for the summaries of sessions.
use vstd::prelude::*;
use vstd::string::StringExecFns;

verus! {

/// The type of the bucket for live activity, which the views of editor activity
/// know.
pub const EVENT_BUCKET_TYPE: &'static str = "app.editor.activity";

/// The type of the bucket for summaries.
pub const SUM_BUCKET_TYPE: &'static str = "app.code-agent.summary";

/// The buckets of one host.
#[derive(Debug)]
pub struct BucketManager {
    /// The bucket for live activity.
    pub event_bucket_id: String,
    /// The bucket for summaries.
    pub sum_bucket_id: String,
    /// The bucket that the first version used, which is only ever deleted.
    pub legacy_session_bucket_id: String,
}

/// A bucket that has to be there.
#[derive(Debug)]
pub struct BucketSetup {
    pub bucket_id: String,
    pub bucket_type: String,
}

/// What makes sure that a bucket is there.
#[derive(Clone, Copy, PartialEq, Eq, Structural, Debug)]
pub enum BucketAction {
    /// It is there.
    Keep,
    /// It is of another type, and has to be deleted and created anew.
    Recreate,
    /// It has to be created.
    Create,
}

impl BucketManager {
    /// The buckets of the host.
    pub fn new(hostname: &str) -> (buckets: BucketManager)
        ensures
            buckets.event_bucket_id@ == "aw-watcher-agent-event_"@ + hostname@,
            buckets.sum_bucket_id@ == "aw-watcher-agent-sum_"@ + hostname@,
            buckets.legacy_session_bucket_id@ == "aw-watcher-agent_"@ + hostname@,
    {
        BucketManager {
            event_bucket_id: "aw-watcher-agent-event_".to_string().concat(hostname),
            sum_bucket_id: "aw-watcher-agent-sum_".to_string().concat(hostname),
            legacy_session_bucket_id: "aw-watcher-agent_".to_string().concat(hostname),
        }
    }

    /// The buckets that have to be there, in the order in which to see to them.
    pub fn setup(&self) -> (buckets: Vec<BucketSetup>)
        ensures
            buckets.len() == 2,
            buckets[0].bucket_id@ == self.event_bucket_id@,
            buckets[0].bucket_type@ == EVENT_BUCKET_TYPE@,
            buckets[1].bucket_id@ == self.sum_bucket_id@,
            buckets[1].bucket_type@ == SUM_BUCKET_TYPE@,
    {
        let mut buckets: Vec<BucketSetup> = Vec::new();
        buckets.push(
            BucketSetup {
                bucket_id: self.event_bucket_id.clone(),
                bucket_type: EVENT_BUCKET_TYPE.to_string(),
            },
        );
        buckets.push(
            BucketSetup {
                bucket_id: self.sum_bucket_id.clone(),
                bucket_type: SUM_BUCKET_TYPE.to_string(),
            },
        );
        buckets
    }

    /// The buckets to delete, in that order.
    pub fn teardown(&self) -> (bucket_ids: Vec<String>)
        ensures
            bucket_ids.len() == 3,
            bucket_ids[0]@ == self.event_bucket_id@,
            bucket_ids[1]@ == self.sum_bucket_id@,
            bucket_ids[2]@ == self.legacy_session_bucket_id@,
    {
        let mut bucket_ids: Vec<String> = Vec::new();
        bucket_ids.push(self.event_bucket_id.clone());
        bucket_ids.push(self.sum_bucket_id.clone());
        bucket_ids.push(self.legacy_session_bucket_id.clone());
        bucket_ids
    }

    /// What makes sure that a bucket is there, given the type of the one that
    /// has its id, if one has.
    pub fn ensure_bucket(existing_type: Option<String>, bucket_type: &str) -> (action: BucketAction)
        ensures
            action == match existing_type {
                None => BucketAction::Create,
                Some(existing) => if existing@ == bucket_type@ {
                    BucketAction::Keep
                } else {
                    BucketAction::Recreate
                },
            },
    {
        match existing_type {
            Some(existing) => if existing == bucket_type.to_string() {
                BucketAction::Keep
            } else {
                BucketAction::Recreate
            },
            None => BucketAction::Create,
        }
    }
}

} // verus!
