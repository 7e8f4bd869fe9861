use vstd::prelude::*;

use crate::event::{EventModel, LogEvent};

verus! {

/// Which lines of the file the selector keeps, derived from the two counts
/// and never stored: everything, a leading window, a trailing window, or
/// both windows at once.
#[derive(Clone, Copy, Debug, PartialEq, Eq, Structural)]
pub enum SelectionMode {
    All,
    Head(usize),
    Tail(usize),
    HeadAndTail(usize, usize),
}

pub open spec fn mode_spec(head: usize, tail: usize) -> SelectionMode {
    if head == 0 && tail == 0 {
        SelectionMode::All
    } else if tail == 0 {
        SelectionMode::Head(head)
    } else if head == 0 {
        SelectionMode::Tail(tail)
    } else {
        SelectionMode::HeadAndTail(head, tail)
    }
}

/// Derive the selection mode from the two line counts.
pub fn selection_mode(head: usize, tail: usize) -> (mode: SelectionMode)
    ensures
        mode == mode_spec(head, tail),
{
    if head == 0 && tail == 0 {
        SelectionMode::All
    } else if tail == 0 {
        SelectionMode::Head(head)
    } else if head == 0 {
        SelectionMode::Tail(tail)
    } else {
        SelectionMode::HeadAndTail(head, tail)
    }
}

/// Whether line `i` (zero-based) of an `n`-line file is selected: every line
/// when both counts are zero, the first `head` lines, and the last `tail`
/// lines (all lines when `tail` asks for at least as many as exist).
pub open spec fn line_included(n: int, head: int, tail: int, i: int) -> bool {
    (head == 0 && tail == 0) || (head != 0 && i < head) || tail >= n || (tail != 0 && i > n - (tail
        + 1))
}

/// The message a selected line contributes: the line itself, or a single
/// space in place of an empty line.
pub open spec fn event_message(line: Seq<char>) -> Seq<char> {
    if line.len() == 0 {
        seq![' ']
    } else {
        line
    }
}

/// The event a selected line becomes.
pub open spec fn event_of(ts: int, line: Seq<char>) -> EventModel {
    EventModel { timestamp: ts, message: event_message(line) }
}

/// Every line of `lines` turned into an event, in order.
pub open spec fn events_of(lines: Seq<Seq<char>>, ts: int) -> Seq<EventModel> {
    lines.map_values(|line: Seq<char>| event_of(ts, line))
}

/// The events produced by the selected lines among the first `k` of `lines`,
/// in ascending line order.
pub open spec fn select_prefix(
    lines: Seq<Seq<char>>,
    head: int,
    tail: int,
    ts: int,
    k: int,
) -> Seq<EventModel>
    decreases k,
{
    if k <= 0 {
        Seq::empty()
    } else {
        let rest = select_prefix(lines, head, tail, ts, k - 1);
        if line_included(lines.len() as int, head, tail, k - 1) {
            rest.push(event_of(ts, lines[k - 1]))
        } else {
            rest
        }
    }
}

/// The full output of the selector on `lines`.
pub open spec fn select_events(lines: Seq<Seq<char>>, head: int, tail: int, ts: int) -> Seq<
    EventModel,
> {
    select_prefix(lines, head, tail, ts, lines.len() as int)
}

/// The views of a sequence of lines.
pub open spec fn views_of_lines(lines: Seq<String>) -> Seq<Seq<char>> {
    lines.map_values(|s: String| s@)
}

/// The models of a sequence of events.
pub open spec fn views_of_events(events: Seq<LogEvent>) -> Seq<EventModel> {
    events.map_values(|e: LogEvent| e@)
}

/// Decide whether line `i` of an `n`-line file is selected.
pub fn line_selected(n: usize, head: usize, tail: usize, i: usize) -> (r: bool)
    requires
        i < n,
    ensures
        r == line_included(n as int, head as int, tail as int, i as int),
{
    (head == 0 && tail == 0) || (head != 0 && i < head) || tail >= n || (tail != 0 && i > n - (tail
        + 1))
}

/// Turn the lines of a file into the ordered sequence of log events the two
/// counts ask for, each stamped with the shared run timestamp and each blank
/// line replaced by a single space.
pub fn get_events(lines: &Vec<String>, head: usize, tail: usize, timestamp: i64) -> (events: Vec<
    LogEvent,
>)
    ensures
        views_of_events(events@) == select_events(
            views_of_lines(lines@),
            head as int,
            tail as int,
            timestamp as int,
        ),
        forall|j: int| 0 <= j < events@.len() ==> (#[trigger] events@[j]).wf(),
{
    let ghost line_views = views_of_lines(lines@);
    let n = lines.len();
    let mut events: Vec<LogEvent> = Vec::new();
    let mut i: usize = 0;
    while i < n
        invariant
            n == lines.len(),
            i <= n,
            line_views == views_of_lines(lines@),
            views_of_events(events@) == select_prefix(
                line_views,
                head as int,
                tail as int,
                timestamp as int,
                i as int,
            ),
            forall|j: int| 0 <= j < events@.len() ==> (#[trigger] events@[j]).wf(),
        decreases n - i,
    {
        if line_selected(n, head, tail, i) {
            let line = &lines[i];
            let message: String = if line.as_str().is_empty() {
                " ".to_owned()
            } else {
                line.clone()
            };
            let ev = LogEvent { timestamp, message };
            proof {
                reveal_strlit(" ");
                assert(" "@ =~= seq![' ']);
                assert(views_of_events(events@.push(ev)) =~= views_of_events(events@).push(ev@));
            }
            events.push(ev);
        }
        i += 1;
    }
    events
}

/// The index of the first line the trailing window covers: zero when `tail`
/// asks for at least as many lines as exist, `n - tail` otherwise.
pub open spec fn tail_start(n: int, tail: int) -> int {
    if tail >= n {
        0
    } else {
        n - tail
    }
}

/// The messages of a sequence of event models, in order.
pub open spec fn messages_of(events: Seq<EventModel>) -> Seq<Seq<char>> {
    events.map_values(|e: EventModel| e.message)
}

proof fn lemma_select_all_prefix(lines: Seq<Seq<char>>, ts: int, k: int)
    requires
        0 <= k <= lines.len(),
    ensures
        select_prefix(lines, 0, 0, ts, k) =~= events_of(lines.take(k), ts),
    decreases k,
{
    if k > 0 {
        lemma_select_all_prefix(lines, ts, k - 1);
        assert(line_included(lines.len() as int, 0, 0, k - 1));
    }
}

/// With both counts zero the selector keeps the whole file: one event per
/// source line, in order, each carrying that line's message.
pub proof fn lemma_select_all(lines: Seq<Seq<char>>, ts: int)
    ensures
        select_events(lines, 0, 0, ts) == events_of(lines, ts),
        select_events(lines, 0, 0, ts).len() == lines.len(),
{
    lemma_select_all_prefix(lines, ts, lines.len() as int);
    assert(lines.take(lines.len() as int) =~= lines);
}

proof fn lemma_select_head_prefix(lines: Seq<Seq<char>>, head: int, ts: int, k: int)
    requires
        head > 0,
        0 <= k <= lines.len(),
    ensures
        select_prefix(lines, head, 0, ts, k) =~= events_of(
            lines.take(vstd::math::min(head, k)),
            ts,
        ),
    decreases k,
{
    if k > 0 {
        lemma_select_head_prefix(lines, head, ts, k - 1);
        if k - 1 < head {
            assert(line_included(lines.len() as int, head, 0, k - 1));
        } else {
            assert(!line_included(lines.len() as int, head, 0, k - 1));
        }
    }
}

/// With only a leading count the selector keeps exactly the first
/// `min(head, N)` lines, in order.
pub proof fn lemma_select_head(lines: Seq<Seq<char>>, head: int, ts: int)
    requires
        head > 0,
    ensures
        select_events(lines, head, 0, ts) == events_of(
            lines.take(vstd::math::min(head, lines.len() as int)),
            ts,
        ),
{
    lemma_select_head_prefix(lines, head, ts, lines.len() as int);
}

proof fn lemma_select_tail_prefix(lines: Seq<Seq<char>>, tail: int, ts: int, k: int)
    requires
        tail > 0,
        0 <= k <= lines.len(),
    ensures
        select_prefix(lines, 0, tail, ts, k) =~= events_of(
            lines.subrange(
                tail_start(lines.len() as int, tail),
                vstd::math::max(k, tail_start(lines.len() as int, tail)),
            ),
            ts,
        ),
    decreases k,
{
    let n = lines.len() as int;
    let s = tail_start(n, tail);
    if k > 0 {
        lemma_select_tail_prefix(lines, tail, ts, k - 1);
        if k - 1 >= s {
            assert(line_included(n, 0, tail, k - 1));
            assert(lines.subrange(s, k) =~= lines.subrange(s, k - 1).push(lines[k - 1]));
        } else {
            assert(!line_included(n, 0, tail, k - 1));
        }
    }
}

/// With only a trailing count the selector keeps exactly the last
/// `min(tail, N)` lines, in order.
pub proof fn lemma_select_tail(lines: Seq<Seq<char>>, tail: int, ts: int)
    requires
        tail > 0,
    ensures
        select_events(lines, 0, tail, ts) == events_of(
            lines.skip(tail_start(lines.len() as int, tail)),
            ts,
        ),
{
    let n = lines.len() as int;
    lemma_select_tail_prefix(lines, tail, ts, n);
    assert(lines.subrange(tail_start(n, tail), n) =~= lines.skip(tail_start(n, tail)));
}

proof fn lemma_select_head_tail_prefix(
    lines: Seq<Seq<char>>,
    head: int,
    tail: int,
    ts: int,
    k: int,
)
    requires
        head > 0,
        tail > 0,
        head + tail <= lines.len(),
        0 <= k <= lines.len(),
    ensures
        select_prefix(lines, head, tail, ts, k) =~= events_of(
            lines.take(vstd::math::min(head, k)),
            ts,
        ) + events_of(
            lines.subrange(
                lines.len() - tail,
                vstd::math::max(k, lines.len() - tail),
            ),
            ts,
        ),
    decreases k,
{
    let n = lines.len() as int;
    let s = n - tail;
    if k > 0 {
        lemma_select_head_tail_prefix(lines, head, tail, ts, k - 1);
        if k - 1 < head {
            assert(line_included(n, head, tail, k - 1));
            assert(lines.subrange(s, vstd::math::max(k, s)) =~= Seq::<Seq<char>>::empty());
        } else if k - 1 < s {
            assert(!line_included(n, head, tail, k - 1));
        } else {
            assert(line_included(n, head, tail, k - 1));
            assert(lines.subrange(s, k) =~= lines.subrange(s, k - 1).push(lines[k - 1]));
        }
    }
}

/// With both counts positive and the two windows disjoint, the selector
/// keeps the first `head` lines followed by the last `tail` lines, in the
/// order they stand in the file, with nothing in between.
pub proof fn lemma_select_head_and_tail(lines: Seq<Seq<char>>, head: int, tail: int, ts: int)
    requires
        head > 0,
        tail > 0,
        head + tail <= lines.len(),
    ensures
        select_events(lines, head, tail, ts) == events_of(lines.take(head), ts) + events_of(
            lines.skip(lines.len() - tail),
            ts,
        ),
{
    let n = lines.len() as int;
    lemma_select_head_tail_prefix(lines, head, tail, ts, n);
    assert(lines.subrange(n - tail, n) =~= lines.skip(n - tail));
    assert(lines.take(vstd::math::min(head, n)) == lines.take(head));
}

proof fn lemma_messages_prefix(
    lines: Seq<Seq<char>>,
    head: int,
    tail: int,
    ts1: int,
    ts2: int,
    k: int,
)
    requires
        0 <= k <= lines.len(),
    ensures
        messages_of(select_prefix(lines, head, tail, ts1, k)) =~= messages_of(
            select_prefix(lines, head, tail, ts2, k),
        ),
    decreases k,
{
    if k > 0 {
        lemma_messages_prefix(lines, head, tail, ts1, ts2, k - 1);
        let rest1 = select_prefix(lines, head, tail, ts1, k - 1);
        let rest2 = select_prefix(lines, head, tail, ts2, k - 1);
        if line_included(lines.len() as int, head, tail, k - 1) {
            let msg = event_message(lines[k - 1]);
            assert(messages_of(rest1.push(event_of(ts1, lines[k - 1]))) =~= messages_of(
                rest1,
            ).push(msg));
            assert(messages_of(rest2.push(event_of(ts2, lines[k - 1]))) =~= messages_of(
                rest2,
            ).push(msg));
        }
    }
}

/// Two runs of the selector on the same lines with the same counts produce
/// the same messages, whatever run timestamp each captured.
pub proof fn lemma_selector_runs_agree(
    lines: Seq<Seq<char>>,
    head: int,
    tail: int,
    ts1: int,
    ts2: int,
)
    ensures
        messages_of(select_events(lines, head, tail, ts1)) == messages_of(
            select_events(lines, head, tail, ts2),
        ),
{
    lemma_messages_prefix(lines, head, tail, ts1, ts2, lines.len() as int);
}

/// An empty file yields no events, whatever the two counts are.
pub proof fn lemma_select_empty_file(lines: Seq<Seq<char>>, head: int, tail: int, ts: int)
    requires
        lines.len() == 0,
    ensures
        select_events(lines, head, tail, ts) == Seq::<EventModel>::empty(),
{
}

/// A file of one blank line yields exactly one event, whose message is a
/// single space, whatever the two (nonnegative) counts are.
pub proof fn lemma_select_single_blank_line(head: int, tail: int, ts: int)
    requires
        head >= 0,
        tail >= 0,
    ensures
        select_events(seq![Seq::<char>::empty()], head, tail, ts) == seq![
            EventModel { timestamp: ts, message: seq![' '] },
        ],
{
    let lines = seq![Seq::<char>::empty()];
    assert(line_included(1, head, tail, 0));
    assert(select_prefix(lines, head, tail, ts, 0) =~= Seq::<EventModel>::empty());
    assert(select_prefix(lines, head, tail, ts, 1) =~= seq![
        EventModel { timestamp: ts, message: seq![' '] },
    ]);
}

} // verus!
