//! The control side of the asynchronous load/analyze pipeline.
//!
//! Slow work - decoding a file, or analyzing raw audio and then decoding
//! the result - runs on worker threads owned by the host code. This
//! module holds the decisions the control loop makes: counting jobs in
//! flight, merging at most one completed result per poll tick, publishing
//! a successful result into the registry and making it current, and
//! saying whether another tick must be scheduled.

use vstd::prelude::*;
use vstd::string::StringExecFns;
use std::sync::Arc;
use crate::cache::Cache;
use crate::cache::Key;
use crate::cache::arc_clone;
use crate::cache::key_text;
use crate::cache::weak_data;
use crate::data::AtsFile;

verus! {

/// A message for the user, surfaced by the host code.
pub enum PostMessage {
    /// An ordinary confirmation.
    Info(String),
    /// A user-visible error; the control loop itself keeps running.
    Error(String),
}

/// What the control loop must do after one poll tick.
pub struct PollOutcome {
    /// Whether another poll tick must be scheduled.
    pub reschedule: bool,
    /// A message to show the user, if a job completed this tick.
    pub post: Option<PostMessage>,
    /// Whether the (possibly new) current state should be dumped.
    pub dump: bool,
}

/// The control-side state of the pipeline: how many jobs are in flight,
/// and the current data set with the key it was published under.
pub struct Pipeline {
    /// Jobs submitted and not yet merged back.
    pub waiting: u64,
    /// The most recently loaded data set, if the last job succeeded.
    pub current: Option<(Key, Arc<AtsFile>)>,
}

impl Pipeline {
    /// Creates an idle pipeline with nothing loaded.
    pub fn new() -> (p: Pipeline)
        ensures
            p.waiting == 0,
            p.current is None,
    {
        Pipeline { waiting: 0, current: None }
    }

    /// Records one submitted job. The caller spawns the worker that will
    /// deliver the job's result and, as the returned flag says, always
    /// schedules a poll tick.
    pub fn queue_job(&mut self) -> (schedule: bool)
        requires
            old(self).waiting < u64::MAX,
        ensures
            final(self).waiting == old(self).waiting + 1,
            final(self).current == old(self).current,
            schedule,
    {
        self.waiting = self.waiting + 1;
        true
    }

    /// One poll tick. `received` is the at-most-one completed job result
    /// the caller drained from the workers' channel this tick. A success
    /// is published into the registry under a fresh key and becomes
    /// current; a failure surfaces its message and clears the current
    /// set. Another tick is scheduled while results may still arrive:
    /// always when nothing was drained, and otherwise while jobs remain
    /// in flight.
    pub fn poll_done(&mut self, cache: &mut Cache, received: Option<
        Result<(AtsFile, String), String>,
    >) -> (out: PollOutcome)
        requires
            received is Some ==> old(self).waiting >= 1,
            old(cache).wf(),
            old(cache).next_id < u64::MAX,
        ensures
            final(cache).wf(),
            match received {
                None => {
                    &&& *final(self) == *old(self)
                    &&& *final(cache) == *old(cache)
                    &&& out.reschedule
                    &&& out.post is None
                    &&& !out.dump
                },
                Some(res) => {
                    &&& final(self).waiting == old(self).waiting - 1
                    &&& out.reschedule == (final(self).waiting != 0)
                    &&& out.dump
                    &&& match res {
                        Ok((f, name)) => {
                            &&& final(cache).next_id == old(cache).next_id + 1
                            &&& final(self).current matches Some((k, a)) && a == f && k.id == old(
                                cache,
                            ).next_id && k.text@ == key_text(old(cache).next_id as int, f.source@)
                                && final(cache).resolves(k.id) && weak_data(
                                final(cache).entries@.last().slot,
                            ) == f
                            &&& forall|id: u64|
                                old(cache).resolves(id) ==> final(cache).resolves(id)
                            &&& out.post matches Some(PostMessage::Info(m)) && m@ == "read "@
                                + name@
                        },
                        Err(e) => {
                            &&& *final(cache) == *old(cache)
                            &&& final(self).current is None
                            &&& out.post matches Some(PostMessage::Error(m)) && m == e
                        },
                    }
                },
            },
    {
        match received {
            None => PollOutcome { reschedule: true, post: None, dump: false },
            Some(res) => {
                self.waiting = self.waiting - 1;
                let post = match res {
                    Ok((f, name)) => {
                        let mut msg = "read ".to_owned();
                        msg.append(name.as_str());
                        let a = Arc::new(f);
                        let strong = arc_clone(&a);
                        let k = cache.insert(strong);
                        self.current = Some((k, a));
                        Some(PostMessage::Info(msg))
                    },
                    Err(e) => {
                        self.current = None;
                        Some(PostMessage::Error(e))
                    },
                };
                PollOutcome { reschedule: self.waiting != 0, post, dump: true }
            },
        }
    }
}


/// The decimal notation of `n`, with a leading minus sign when negative.
pub open spec fn signed_decimal(n: int) -> Seq<char> {
    if n < 0 {
        seq!['-'] + crate::cache::decimal_digits(-n)
    } else {
        crate::cache::decimal_digits(n)
    }
}

/// Appends the decimal notation of `n`, sign included.
fn push_decimal_signed(s: &mut String, n: i64)
    requires
        i64::MIN < n,
    ensures
        final(s)@ == old(s)@ + signed_decimal(n as int),
{
    if n < 0 {
        crate::cache::push_char(s, '-');
        crate::cache::push_decimal(s, (-n) as u64);
        assert(final(s)@ =~= old(s)@ + signed_decimal(n as int));
    } else {
        crate::cache::push_decimal(s, n as u64);
    }
}

/// The message reported when the source path of an analysis job does
/// not exist; the job is rejected before any external call.
pub fn msg_missing_source(path: &str) -> (m: String)
    ensures
        m@ == "file does not exist: "@ + path@,
{
    let mut m = "file does not exist: ".to_owned();
    m.append(path);
    m
}

/// The message reported when the temporary output directory of an
/// analysis job cannot be created.
pub fn msg_tempdir_failed() -> (m: String)
    ensures
        m@ == "failed to create tempdir"@,
{
    "failed to create tempdir".to_owned()
}

/// The message reported when the output or residual path of an analysis
/// job cannot be represented for the external call.
pub fn msg_bad_paths() -> (m: String)
    ensures
        m@ == "cannot get out or resfile paths"@,
{
    "cannot get out or resfile paths".to_owned()
}

/// The message reported when the external analysis call returns a
/// nonzero status: the source path and the status code, verbatim.
pub fn msg_analysis_failed(path: &str, status: i64) -> (m: String)
    requires
        i64::MIN < status,
    ensures
        m@ == "failed to analyize file: "@ + path@ + " with error num: "@ + signed_decimal(
            status as int,
        ),
{
    let mut m = "failed to analyize file: ".to_owned();
    m.append(path);
    m.append(" with error num: ");
    push_decimal_signed(&mut m, status);
    m
}

} // verus!
