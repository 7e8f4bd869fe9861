use vstd::prelude::*;

verus! {

/// One log event: a selected line of the source file, stamped with the run
/// timestamp shared by every event of the same invocation.
#[derive(Debug)]
pub struct LogEvent {
    /// Milliseconds since the epoch, captured once per run.
    pub timestamp: i64,
    /// The line's text; a blank line is carried as a single space, because
    /// the destination service rejects empty messages.
    pub message: String,
}

/// The mathematical model of a log event: an integer timestamp and the
/// message as a sequence of characters.
pub struct EventModel {
    pub timestamp: int,
    pub message: Seq<char>,
}

impl View for LogEvent {
    type V = EventModel;

    open spec fn view(&self) -> EventModel {
        EventModel { timestamp: self.timestamp as int, message: self.message@ }
    }
}

impl LogEvent {
    /// A well-formed event never carries an empty message.
    pub open spec fn wf(self) -> bool {
        self.message@.len() > 0
    }
}

impl Clone for LogEvent {
    fn clone(&self) -> (res: Self)
        ensures
            res == *self,
    {
        LogEvent { timestamp: self.timestamp, message: self.message.clone() }
    }
}

impl PartialEq for LogEvent {
    fn eq(&self, other: &Self) -> (r: bool) {
        self.timestamp == other.timestamp && self.message == other.message
    }
}

impl vstd::std_specs::cmp::PartialEqSpecImpl for LogEvent {
    open spec fn obeys_eq_spec() -> bool {
        true
    }

    open spec fn eq_spec(&self, other: &Self) -> bool {
        self.timestamp == other.timestamp && self.message@ == other.message@
    }
}

} // verus!
