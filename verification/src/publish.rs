use vstd::prelude::*;
use vstd::string::*;

verus! {

/// The identifier used in the stream name when the execution environment's
/// identity cannot be determined.
pub open spec fn placeholder_instance_id() -> Seq<char> {
    "i-00000000000000000"@
}

/// Settle the instance identifier for this run: the one the environment
/// reported, or the placeholder when the lookup failed.
pub fn resolve_instance_id(fetched: Option<String>) -> (id: String)
    ensures
        match fetched {
            Some(s) => id@ == s@,
            None => id@ == placeholder_instance_id(),
        },
{
    match fetched {
        Some(s) => s,
        None => "i-00000000000000000".to_owned(),
    }
}

/// Join an instance identifier and a timestamp label into the name of the
/// per-run log stream.
pub fn stream_name(instance_id: &str, timestamp_label: &str) -> (r: String)
    ensures
        r@ == instance_id@ + seq!['-'] + timestamp_label@,
{
    let mut s = instance_id.to_owned();
    s.append("-");
    s.append(timestamp_label);
    proof {
        reveal_strlit("-");
        assert(instance_id@ + "-"@ + timestamp_label@ =~= instance_id@ + seq!['-']
            + timestamp_label@);
    }
    s
}

/// Relies on chrono::offset::Utc::now and chrono's strftime-style formatting
/// with "%F_%H-%M-%S-%f": zero-padded numeric fields (a four-or-more-digit
/// year, two digits each for month, day, hour, minute and second, nine for
/// the nanoseconds) joined by '-' and '_'; a sign can lead a year outside
/// the four-digit range. Whatever instant the clock reports, the label is
/// at least 29 characters, all of them digits, '-', '_' or '+'.
#[verifier::external_body]
fn utc_timestamp_label() -> (r: String)
    ensures
        r@.len() >= 29,
        forall|i: int|
            0 <= i < r@.len() ==> (('0' <= #[trigger] r@[i] && r@[i] <= '9') || r@[i] == '-'
                || r@[i] == '_' || r@[i] == '+'),
{
    chrono::offset::Utc::now().format("%F_%H-%M-%S-%f").to_string()
}

/// Name the log stream for this run: the instance identifier, a dash, and a
/// label rendered from the current time, so that each run appends to a fresh
/// stream and no continuation token has to survive between runs.
pub fn fresh_stream_name(instance_id: &str) -> (r: String)
    ensures
        exists|label: Seq<char>|
            r@ == instance_id@ + seq!['-'] + label && label.len() >= 29,
        r@.len() >= instance_id@.len() + 30,
        r@.take(instance_id@.len() as int) == instance_id@,
{
    let label = utc_timestamp_label();
    let r = stream_name(instance_id, label.as_str());
    proof {
        assert(r@ == instance_id@ + seq!['-'] + label@ && label@.len() >= 29);
        assert(r@.take(instance_id@.len() as int) =~= instance_id@);
    }
    r
}

/// How the destination service answered the attempt to create the per-run
/// log stream.
#[derive(Clone, Copy, Debug, PartialEq, Eq, Structural)]
pub enum CreateStreamOutcome {
    /// The stream was created.
    Created,
    /// A stream of that name already exists; benign, publishing proceeds.
    AlreadyExists,
    /// Any other failure.
    Failed,
}

/// Whether a stream-creation outcome aborts the run: only a failure other
/// than "already exists" is fatal.
pub fn creation_is_fatal(outcome: &CreateStreamOutcome) -> (fatal: bool)
    ensures
        fatal == (outcome is Failed),
{
    match outcome {
        CreateStreamOutcome::Failed => true,
        _ => false,
    }
}

} // verus!
