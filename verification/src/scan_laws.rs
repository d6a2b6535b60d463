//! What holds of a scan as a whole, whatever the Kafka client hands out.
use crate::kafka;
use crate::row;
use crate::scan_state;
use crate::scan_state::Watermarks;
use vstd::prelude::*;

verus! {

/// How a batch of rows ends.
pub enum BatchEnd {
    /// Its rows are returned.
    Emit,
    /// It would poll again.
    Waiting,
    /// The client failed, and no rows are returned.
    Failed(scan_state::ScanErrorView),
}

/// A batch of rows: the state of the scan after it, the rows collected, the events that were not
/// polled, and how it ended.
pub struct Batch {
    pub state: scan_state::ScanView,
    pub rows: Seq<row::RowView>,
    pub rest: Seq<scan_state::EventView>,
    pub end: BatchEnd,
}

/// The batch that a scan collects when the client hands out these events, starting with `rows`:
/// it polls as long as the next action says so.
pub open spec fn run_batch(
    state: scan_state::ScanView,
    rows: Seq<row::RowView>,
    topic: Seq<char>,
    capacity: nat,
    events: Seq<scan_state::EventView>,
) -> Batch
    decreases events.len(),
{
    if scan_state::next_action(state, rows.len(), capacity) == scan_state::ScanAction::Emit {
        Batch { state, rows, rest: events, end: BatchEnd::Emit }
    } else if events.len() == 0 {
        Batch { state, rows, rest: events, end: BatchEnd::Waiting }
    } else {
        match scan_state::failure_of(events[0]) {
            Some(e) => Batch { state, rows, rest: events.drop_first(), end: BatchEnd::Failed(e) },
            None => run_batch(
                scan_state::state_after(state, events[0]),
                rows + scan_state::rows_from(state.snapshots, topic, events[0]),
                topic,
                capacity,
                events.drop_first(),
            ),
        }
    }
}

/// The batch that a scan collects from the start.
pub open spec fn batch(
    state: scan_state::ScanView,
    topic: Seq<char>,
    capacity: nat,
    events: Seq<scan_state::EventView>,
) -> Batch {
    run_batch(state, Seq::empty(), topic, capacity, events)
}

/// The rows of all records among the events that lie within the snapshot, in order.
pub open spec fn selected(
    snapshots: Map<i32, scan_state::PartitionSnapshot>,
    topic: Seq<char>,
    events: Seq<scan_state::EventView>,
) -> Seq<row::RowView>
    decreases events.len(),
{
    if events.len() == 0 {
        Seq::empty()
    } else {
        scan_state::rows_from(snapshots, topic, events[0]) + selected(
            snapshots,
            topic,
            events.drop_first(),
        )
    }
}

/// Every partition whose end is reported is one of the snapshot.
pub open spec fn ends_are_known(
    snapshots: Map<i32, scan_state::PartitionSnapshot>,
    events: Seq<scan_state::EventView>,
) -> bool {
    forall|i: int|
        0 <= i < events.len() ==> (#[trigger] events[i] matches scan_state::EventView::PartitionEof(
            p,
        ) ==> snapshots.contains_key(p))
}

/// The number of events that a batch has polled.
pub open spec fn polled(b: Batch, events: Seq<scan_state::EventView>) -> int {
    events.len() - b.rest.len()
}

/// A batch returns exactly the records within the snapshot that were polled for it: none is lost,
/// repeated or reordered, and none beyond the captured watermarks is among them.
pub proof fn law_batch_is_the_selected_records(
    state: scan_state::ScanView,
    topic: Seq<char>,
    capacity: nat,
    events: Seq<scan_state::EventView>,
)
    ensures
        ({
            let b = batch(state, topic, capacity, events);
            &&& 0 <= polled(b, events) <= events.len()
            &&& b.rest == events.skip(polled(b, events))
            &&& b.rows == selected(state.snapshots, topic, events.take(polled(b, events)))
        }),
{
    lemma_run_batch(state, Seq::empty(), topic, capacity, events);
    let b = batch(state, topic, capacity, events);
    assert(Seq::<row::RowView>::empty() + selected(
        state.snapshots,
        topic,
        events.take(polled(b, events)),
    ) =~= selected(state.snapshots, topic, events.take(polled(b, events))));
}

/// Every row that a scan returns lies within the snapshot that was captured when the scan
/// started: its partition held records then, and its offset is below the partition's captured
/// high watermark. It carries the topic that was scanned.
pub proof fn law_rows_stay_within_the_snapshot(
    state: scan_state::ScanView,
    topic: Seq<char>,
    capacity: nat,
    events: Seq<scan_state::EventView>,
    i: int,
)
    requires
        0 <= i < batch(state, topic, capacity, events).rows.len(),
    ensures
        ({
            let found = batch(state, topic, capacity, events).rows[i];
            &&& state.snapshots.contains_key(found.partition)
            &&& (found.offset as int) < (state.snapshots[found.partition].high as int)
            &&& found.topic == topic
        }),
{
    law_batch_is_the_selected_records(state, topic, capacity, events);
    let b = batch(state, topic, capacity, events);
    lemma_selected_in_snapshot(state.snapshots, topic, events.take(polled(b, events)), i);
}

/// Every record within the snapshot that was polled for a batch is among its rows, with its key,
/// payload and headers.
pub proof fn law_polled_records_are_returned(
    state: scan_state::ScanView,
    topic: Seq<char>,
    capacity: nat,
    events: Seq<scan_state::EventView>,
    i: int,
)
    requires
        0 <= i < polled(batch(state, topic, capacity, events), events),
        events[i] is Message,
        state.snapshots.contains_key(events[i]->Message_0.partition),
        (events[i]->Message_0.offset as int) < (
        state.snapshots[events[i]->Message_0.partition].high as int),
    ensures
        batch(state, topic, capacity, events).rows.contains(
            scan_state::row_of(topic, events[i]->Message_0),
        ),
        ({
            let m = events[i]->Message_0;
            let rows = batch(state, topic, capacity, events).rows;
            exists|r: int|
                0 <= r < rows.len() && (#[trigger] rows[r]).topic == topic && rows[r].partition
                    == m.partition && rows[r].offset == m.offset && rows[r].key == m.key
                    && rows[r].message == m.payload && rows[r].headers == match m.headers {
                    Some(h) => h,
                    None => Seq::empty(),
                }
        }),
{
    law_batch_is_the_selected_records(state, topic, capacity, events);
    let b = batch(state, topic, capacity, events);
    let seen = events.take(polled(b, events));
    assert(seen[i] == events[i]);
    lemma_selected_contains(state.snapshots, topic, seen, i);
    let target = scan_state::row_of(topic, events[i]->Message_0);
    let r = choose|r: int| 0 <= r < b.rows.len() && b.rows[r] == target;
    assert(b.rows[r].partition == events[i]->Message_0.partition);
}

/// Every record within the snapshot that was polled for a batch can be read back from the columns
/// of the batch: key and payload byte by byte, and its headers in their order, with duplicate
/// names and null values.
pub proof fn law_polled_records_read_back_from_the_columns(
    state: scan_state::ScanView,
    topic: Seq<char>,
    capacity: nat,
    events: Seq<scan_state::EventView>,
    i: int,
)
    requires
        0 <= i < polled(batch(state, topic, capacity, events), events),
        events[i] is Message,
        state.snapshots.contains_key(events[i]->Message_0.partition),
        (events[i]->Message_0.offset as int) < (
        state.snapshots[events[i]->Message_0.partition].high as int),
    ensures
        ({
            let rows = batch(state, topic, capacity, events).rows;
            exists|r: int|
                0 <= r < rows.len() && #[trigger] row::row_at(row::row_columns(rows), r)
                    == scan_state::row_of(topic, events[i]->Message_0)
        }),
        ({
            let m = events[i]->Message_0;
            let rows = batch(state, topic, capacity, events).rows;
            let columns = row::row_columns(rows);
            exists|r: int|
                {
                    &&& 0 <= r < columns.topics.len()
                    &&& #[trigger] columns.topics[r] == topic
                    &&& columns.partitions[r] == m.partition
                    &&& columns.offsets[r] == m.offset
                    &&& columns.keys[r] == m.key
                    &&& columns.messages[r] == m.payload
                    &&& m.headers is None ==> columns.header_entries[r].1 == 0
                    &&& m.headers matches Some(h) ==> {
                        &&& columns.header_entries[r].1 == h.len()
                        &&& forall|j: int|
                            0 <= j < h.len() ==> {
                                let at = columns.header_entries[r].0 + j;
                                &&& (#[trigger] h[j]).0 == columns.header_keys[at]
                                &&& h[j].1 == columns.header_values[at]
                            }
                    }
                }
        }),
{
    law_polled_records_are_returned(state, topic, capacity, events, i);
    let rows = batch(state, topic, capacity, events).rows;
    let target = scan_state::row_of(topic, events[i]->Message_0);
    let r = choose|r: int| 0 <= r < rows.len() && rows[r] == target;
    row::law_columns_hold_the_rows(rows, r);
    assert(row::row_at(row::row_columns(rows), r) == target);
    let columns = row::row_columns(rows);
    row::law_columns_hold_each_field(rows, r);
    assert(columns.topics[r] == topic);
    assert forall|j: int| 0 <= j < target.headers.len() implies {
        let at = columns.header_entries[r].0 + j;
        &&& (#[trigger] target.headers[j]).0 == columns.header_keys[at]
        &&& target.headers[j].1 == columns.header_values[at]
    } by {
        assert(rows[r].headers[j] == target.headers[j]);
    }
}

/// A batch is the records that were polled for it and lie below the captured high watermarks of
/// their partitions, in the order of polling: as many rows as there are such records, and the row
/// of each has the topic of the scan and the record's partition, offset, key, payload and headers.
pub proof fn law_batch_rows_are_the_polled_records_in_order(
    state: scan_state::ScanView,
    topic: Seq<char>,
    capacity: nat,
    events: Seq<scan_state::EventView>,
)
    ensures
        ({
            let b = batch(state, topic, capacity, events);
            let kept = events.take(events.len() - b.rest.len()).filter(
                |e: scan_state::EventView|
                    e is Message && state.snapshots.contains_key(e->Message_0.partition)
                        && e->Message_0.offset < state.snapshots[e->Message_0.partition].high,
            );
            &&& b.rows.len() == kept.len()
            &&& forall|k: int|
                0 <= k < kept.len() ==> {
                    let m = kept[k]->Message_0;
                    &&& (#[trigger] b.rows[k]).topic == topic
                    &&& b.rows[k].partition == m.partition
                    &&& b.rows[k].offset == m.offset
                    &&& b.rows[k].key == m.key
                    &&& b.rows[k].message == m.payload
                    &&& b.rows[k].headers == match m.headers {
                        Some(h) => h,
                        None => Seq::empty(),
                    }
                }
        }),
{
    law_batch_is_the_selected_records(state, topic, capacity, events);
    let b = batch(state, topic, capacity, events);
    lemma_selected_is_filtered(
        state.snapshots,
        topic,
        events.take(events.len() - b.rest.len()),
        |e: scan_state::EventView|
            e is Message && state.snapshots.contains_key(e->Message_0.partition)
                && e->Message_0.offset < state.snapshots[e->Message_0.partition].high,
    );
}

/// A batch ends with its rows returned only where they are full or as many partitions are finished
/// as were captured.
pub proof fn law_batch_ends_full_or_finished(
    state: scan_state::ScanView,
    topic: Seq<char>,
    capacity: nat,
    events: Seq<scan_state::EventView>,
)
    requires
        batch(state, topic, capacity, events).end is Emit,
    ensures
        ({
            let b = batch(state, topic, capacity, events);
            b.rows.len() >= capacity || b.state.finished.len() >= state.snapshots.len()
        }),
{
    lemma_run_batch(state, Seq::empty(), topic, capacity, events);
    lemma_run_batch_emit(state, Seq::empty(), topic, capacity, events);
}

/// A batch never holds more rows than its capacity.
pub proof fn law_batch_keeps_to_its_capacity(
    state: scan_state::ScanView,
    topic: Seq<char>,
    capacity: nat,
    events: Seq<scan_state::EventView>,
)
    ensures
        batch(state, topic, capacity, events).rows.len() <= capacity,
{
    lemma_run_batch_capacity(state, Seq::empty(), topic, capacity, events);
}

/// The snapshot never moves while a scan runs, and a finished partition stays finished.
pub proof fn law_snapshot_is_fixed(
    state: scan_state::ScanView,
    topic: Seq<char>,
    capacity: nat,
    events: Seq<scan_state::EventView>,
)
    ensures
        batch(state, topic, capacity, events).state.snapshots == state.snapshots,
        state.finished.subset_of(batch(state, topic, capacity, events).state.finished),
{
    lemma_run_batch(state, Seq::empty(), topic, capacity, events);
}

/// The size of the batches does not matter: two batches in a row return what one batch of their
/// joint capacity returns.
pub proof fn law_batches_compose(
    state: scan_state::ScanView,
    topic: Seq<char>,
    first: nat,
    second: nat,
    events: Seq<scan_state::EventView>,
)
    requires
        batch(state, topic, first, events).end is Emit,
    ensures
        ({
            let a = batch(state, topic, first, events);
            let b = batch(a.state, topic, second, a.rest);
            let whole = batch(state, topic, first + second, events);
            &&& whole.rows == a.rows + b.rows
            &&& whole.state == b.state
            &&& whole.rest == b.rest
            &&& whole.end == b.end
        }),
{
    lemma_run_batch_compose(state, Seq::empty(), topic, first, second, events);
}

/// A scan ends only when every partition of the snapshot is finished: where a batch returns fewer
/// rows than it has room for, all are finished, and the next batch returns no rows and polls
/// nothing. This is stated for clients that report the end of no partition but those of the
/// snapshot.
pub proof fn law_short_batch_ends_the_scan(
    state: scan_state::ScanView,
    topic: Seq<char>,
    capacity: nat,
    events: Seq<scan_state::EventView>,
    next_capacity: nat,
)
    requires
        state.snapshots.dom().finite(),
        state.finished.subset_of(state.snapshots.dom()),
        ends_are_known(state.snapshots, events),
        batch(state, topic, capacity, events).end is Emit,
        batch(state, topic, capacity, events).rows.len() < capacity,
    ensures
        ({
            let b = batch(state, topic, capacity, events);
            let next = batch(b.state, topic, next_capacity, b.rest);
            &&& b.state.finished == state.snapshots.dom()
            &&& next.rows == Seq::<row::RowView>::empty()
            &&& next.rest == b.rest
            &&& next.end is Emit
        }),
{
    let b = batch(state, topic, capacity, events);
    lemma_run_batch(state, Seq::empty(), topic, capacity, events);
    lemma_run_batch_finished(state, Seq::empty(), topic, capacity, events);
    lemma_run_batch_emit(state, Seq::empty(), topic, capacity, events);
    vstd::set_lib::lemma_set_subset_finite(state.snapshots.dom(), b.state.finished);
    vstd::set_lib::lemma_len_subset(b.state.finished, state.snapshots.dom());
    vstd::set_lib::lemma_subset_equality(b.state.finished, state.snapshots.dom());
}

/// Where no partition holds records, a scan polls nothing and returns no rows.
pub proof fn law_empty_snapshot_returns_nothing(
    state: scan_state::ScanView,
    topic: Seq<char>,
    capacity: nat,
    events: Seq<scan_state::EventView>,
)
    requires
        state.snapshots.dom() == Set::<i32>::empty(),
    ensures
        batch(state, topic, capacity, events).rows == Seq::<row::RowView>::empty(),
        batch(state, topic, capacity, events).rest == events,
        batch(state, topic, capacity, events).end is Emit,
{
}

/// Whether a partition with these watermarks holds records.
pub open spec fn holds_records() -> spec_fn(Watermarks) -> bool {
    |m: Watermarks| m.low < m.high
}

/// The assignment of a partition at its low watermark.
pub open spec fn from_low(topic: Seq<char>) -> spec_fn(Watermarks) -> kafka::AssignedPartition {
    |m: Watermarks| (topic, m.partition, Some(m.low))
}

/// No partition occurs twice.
pub open spec fn distinct_partitions(marks: Seq<Watermarks>) -> bool {
    forall|i: int, j: int|
        0 <= i < j < marks.len() ==> #[trigger] marks[i].partition != #[trigger] marks[j].partition
}

/// A scan is assigned exactly the partitions that hold records, in their order, each at its
/// captured low watermark, and the snapshot of each ends at its captured high watermark. This is
/// stated for partitions with distinct numbers whose records start at offset zero or above.
pub proof fn law_plan_assigns_the_non_empty_partitions(topic: Seq<char>, marks: Seq<Watermarks>)
    requires
        forall|i: int, j: int|
            0 <= i < j < marks.len() ==> #[trigger] marks[i].partition
                != #[trigger] marks[j].partition,
        forall|i: int|
            0 <= i < marks.len() && (#[trigger] marks[i]).low < marks[i].high ==> 0 <= marks[i].low,
    ensures
        scan_state::plan_of(topic, marks).assignment == marks.filter(
            |m: Watermarks| m.low < m.high,
        ).map_values(|m: Watermarks| (topic, m.partition, Some(m.low))),
        forall|i: int|
            0 <= i < marks.len() && (#[trigger] marks[i]).low < marks[i].high ==> {
                &&& scan_state::plan_of(topic, marks).snapshots.contains_key(marks[i].partition)
                &&& scan_state::plan_of(topic, marks).snapshots[marks[i].partition].high == marks[i].high
            },
        forall|p: i32| #[trigger]
            scan_state::plan_of(topic, marks).snapshots.contains_key(p) ==> exists|i: int|
                0 <= i < marks.len() && (#[trigger] marks[i]).partition == p && marks[i].low
                    < marks[i].high,
    decreases marks.len(),
{
    reveal(Seq::filter);
    let plan = scan_state::plan_of(topic, marks);
    if marks.len() == 0 {
        assert(plan.assignment =~= marks.filter(holds_records()).map_values(from_low(topic)));
    } else {
        let init = marks.drop_last();
        let last = marks.last();
        let before = scan_state::plan_of(topic, init);
        assert(distinct_partitions(init)) by {
            assert forall|i: int, j: int|
                0 <= i < j < init.len() implies #[trigger] init[i].partition
                != #[trigger] init[j].partition by {
                assert(marks[i].partition != marks[j].partition);
            }
        }
        assert forall|i: int| 0 <= i < init.len() && (#[trigger] init[i]).low < init[i].high
            implies 0 <= init[i].low by {
            assert(init[i] == marks[i]);
        }
        law_plan_assigns_the_non_empty_partitions(topic, init);
        assert forall|i: int| 0 <= i < init.len() implies (#[trigger] init[i]).partition
            != last.partition by {
            assert(marks[i].partition != marks[marks.len() - 1].partition);
        }
        if last.low < last.high {
            let kept = init.filter(holds_records());
            let added = before.assignment.push((topic, last.partition, None));
            kafka::lemma_first_index_of(added, topic, last.partition);
            assert forall|i: int| 0 <= i < before.assignment.len() implies (
            #[trigger] added[i]).1 != last.partition by {
                lemma_filter_from(init, holds_records(), i);
                let k = choose|k: int| 0 <= k < init.len() && init[k] == kept[i];
                assert(added[i] == from_low(topic)(kept[i]));
                assert(init[k].partition != last.partition);
            }
            assert(added[before.assignment.len() as int].1 == last.partition);
            assert(kafka::first_index_of(added, topic, last.partition) == before.assignment.len());
            assert(plan.assignment =~= kept.push(last).map_values(from_low(topic)));
        }
        assert forall|i: int| 0 <= i < marks.len() && (#[trigger] marks[i]).low < marks[i].high
            implies {
            &&& plan.snapshots.contains_key(marks[i].partition)
            &&& plan.snapshots[marks[i].partition].high == marks[i].high
        } by {
            if i < init.len() {
                assert(init[i] == marks[i]);
            }
        }
        assert forall|p: i32| #[trigger] plan.snapshots.contains_key(p) implies exists|i: int|
            0 <= i < marks.len() && (#[trigger] marks[i]).partition == p && marks[i].low
                < marks[i].high by {
            if before.snapshots.contains_key(p) {
                let i = choose|i: int|
                    0 <= i < init.len() && (#[trigger] init[i]).partition == p && init[i].low
                        < init[i].high;
                assert(marks[i] == init[i]);
            } else {
                assert(marks[marks.len() - 1].partition == p);
            }
        }
    }
}

/// What a filter keeps was there.
proof fn lemma_filter_from(marks: Seq<Watermarks>, pred: spec_fn(Watermarks) -> bool, i: int)
    requires
        0 <= i < marks.filter(pred).len(),
    ensures
        exists|k: int| 0 <= k < marks.len() && marks[k] == marks.filter(pred)[i],
    decreases marks.len(),
{
    reveal(Seq::filter);
    let init = marks.drop_last();
    let kept = init.filter(pred);
    if i < kept.len() {
        lemma_filter_from(init, pred, i);
        let k = choose|k: int| 0 <= k < init.len() && init[k] == kept[i];
        assert(marks[k] == kept[i]);
    } else {
        assert(marks[marks.len() - 1] == marks.filter(pred)[i]);
    }
}

proof fn lemma_run_batch(
    state: scan_state::ScanView,
    rows: Seq<row::RowView>,
    topic: Seq<char>,
    capacity: nat,
    events: Seq<scan_state::EventView>,
)
    ensures
        ({
            let b = run_batch(state, rows, topic, capacity, events);
            &&& 0 <= polled(b, events) <= events.len()
            &&& b.rest == events.skip(polled(b, events))
            &&& b.rows == rows + selected(state.snapshots, topic, events.take(polled(b, events)))
            &&& b.state.snapshots == state.snapshots
            &&& state.finished.subset_of(b.state.finished)
        }),
    decreases events.len(),
{
    let b = run_batch(state, rows, topic, capacity, events);
    if scan_state::next_action(state, rows.len(), capacity) == scan_state::ScanAction::Emit
        || events.len() == 0 {
        assert(events.skip(0) =~= events);
        assert(rows + selected(state.snapshots, topic, events.take(0)) =~= rows);
    } else {
        let tail = events.drop_first();
        let head_rows = scan_state::rows_from(state.snapshots, topic, events[0]);
        if scan_state::failure_of(events[0]) is Some {
            assert(events.skip(1) =~= tail);
            assert(events.take(1)[0] == events[0]);
            assert(events.take(1).drop_first() =~= Seq::empty());
            reveal_with_fuel(selected, 2);
            assert(selected(state.snapshots, topic, events.take(1)) =~= Seq::empty());
            assert(rows + selected(state.snapshots, topic, events.take(1)) =~= rows);
        } else {
            let next = scan_state::state_after(state, events[0]);
            lemma_run_batch(next, rows + head_rows, topic, capacity, tail);
            let n = polled(b, tail);
            assert(polled(b, events) == n + 1);
            assert(events.skip(n + 1) =~= tail.skip(n));
            assert(events.take(n + 1).drop_first() =~= tail.take(n));
            assert(events.take(n + 1)[0] == events[0]);
            assert(rows + head_rows + selected(state.snapshots, topic, tail.take(n)) =~= rows + (
            head_rows + selected(state.snapshots, topic, tail.take(n))));
        }
    }
}

proof fn lemma_selected_push(
    snapshots: Map<i32, scan_state::PartitionSnapshot>,
    topic: Seq<char>,
    events: Seq<scan_state::EventView>,
)
    requires
        events.len() > 0,
    ensures
        selected(snapshots, topic, events) == selected(snapshots, topic, events.drop_last())
            + scan_state::rows_from(snapshots, topic, events.last()),
    decreases events.len(),
{
    let head = scan_state::rows_from(snapshots, topic, events[0]);
    let last = scan_state::rows_from(snapshots, topic, events.last());
    if events.len() == 1 {
        reveal_with_fuel(selected, 2);
        assert(events.drop_first() =~= Seq::empty());
        assert(events.drop_last() =~= Seq::empty());
        assert(selected(snapshots, topic, events) =~= last);
    } else {
        let rest = events.drop_first();
        lemma_selected_push(snapshots, topic, rest);
        assert(rest.drop_last() =~= events.drop_last().drop_first());
        assert(rest.last() == events.last());
        assert(events.drop_last()[0] == events[0]);
        assert(head + (selected(snapshots, topic, rest.drop_last()) + last) =~= head + selected(
            snapshots,
            topic,
            rest.drop_last(),
        ) + last);
    }
}

proof fn lemma_selected_is_filtered(
    snapshots: Map<i32, scan_state::PartitionSnapshot>,
    topic: Seq<char>,
    events: Seq<scan_state::EventView>,
    below: spec_fn(scan_state::EventView) -> bool,
)
    requires
        forall|e: scan_state::EventView| #[trigger]
            below(e) <==> e is Message && snapshots.contains_key(e->Message_0.partition)
                && e->Message_0.offset < snapshots[e->Message_0.partition].high,
    ensures
        selected(snapshots, topic, events).len() == events.filter(below).len(),
        forall|k: int|
            0 <= k < events.filter(below).len() ==> (#[trigger] selected(
                snapshots,
                topic,
                events,
            )[k]) == scan_state::row_of(topic, events.filter(below)[k]->Message_0),
    decreases events.len(),
{
    reveal(Seq::filter);
    if events.len() > 0 {
        lemma_selected_push(snapshots, topic, events);
        lemma_selected_is_filtered(snapshots, topic, events.drop_last(), below);
    }
}

proof fn lemma_selected_in_snapshot(
    snapshots: Map<i32, scan_state::PartitionSnapshot>,
    topic: Seq<char>,
    events: Seq<scan_state::EventView>,
    i: int,
)
    requires
        0 <= i < selected(snapshots, topic, events).len(),
    ensures
        ({
            let found = selected(snapshots, topic, events)[i];
            &&& scan_state::in_snapshot(snapshots, found.partition, found.offset)
            &&& found.topic == topic
        }),
    decreases events.len(),
{
    if events.len() > 0 {
        let head = scan_state::rows_from(snapshots, topic, events[0]);
        if i >= head.len() {
            lemma_selected_in_snapshot(snapshots, topic, events.drop_first(), i - head.len());
        }
    }
}

proof fn lemma_selected_contains(
    snapshots: Map<i32, scan_state::PartitionSnapshot>,
    topic: Seq<char>,
    events: Seq<scan_state::EventView>,
    i: int,
)
    requires
        0 <= i < events.len(),
        events[i] is Message,
        scan_state::in_snapshot(
            snapshots,
            events[i]->Message_0.partition,
            events[i]->Message_0.offset,
        ),
    ensures
        selected(snapshots, topic, events).contains(
            scan_state::row_of(topic, events[i]->Message_0),
        ),
    decreases events.len(),
{
    let target = scan_state::row_of(topic, events[i]->Message_0);
    let head = scan_state::rows_from(snapshots, topic, events[0]);
    let tail = selected(snapshots, topic, events.drop_first());
    let all = selected(snapshots, topic, events);
    if i == 0 {
        assert(all[0] == target);
    } else {
        assert(events.drop_first()[i - 1] == events[i]);
        lemma_selected_contains(snapshots, topic, events.drop_first(), i - 1);
        let k = choose|k: int| 0 <= k < tail.len() && tail[k] == target;
        assert(all[head.len() + k] == target);
    }
}

proof fn lemma_run_batch_capacity(
    state: scan_state::ScanView,
    rows: Seq<row::RowView>,
    topic: Seq<char>,
    capacity: nat,
    events: Seq<scan_state::EventView>,
)
    requires
        rows.len() <= capacity,
    ensures
        run_batch(state, rows, topic, capacity, events).rows.len() <= capacity,
    decreases events.len(),
{
    if scan_state::next_action(state, rows.len(), capacity) == scan_state::ScanAction::Poll
        && events.len() > 0 && scan_state::failure_of(events[0]) is None {
        lemma_run_batch_capacity(
            scan_state::state_after(state, events[0]),
            rows + scan_state::rows_from(state.snapshots, topic, events[0]),
            topic,
            capacity,
            events.drop_first(),
        );
    }
}

proof fn lemma_run_batch_finished(
    state: scan_state::ScanView,
    rows: Seq<row::RowView>,
    topic: Seq<char>,
    capacity: nat,
    events: Seq<scan_state::EventView>,
)
    requires
        state.finished.subset_of(state.snapshots.dom()),
        ends_are_known(state.snapshots, events),
    ensures
        run_batch(state, rows, topic, capacity, events).state.finished.subset_of(
            state.snapshots.dom(),
        ),
    decreases events.len(),
{
    if scan_state::next_action(state, rows.len(), capacity) == scan_state::ScanAction::Poll
        && events.len() > 0 && scan_state::failure_of(events[0]) is None {
        let tail = events.drop_first();
        assert forall|i: int| 0 <= i < tail.len() implies (#[trigger] tail[i] matches
            scan_state::EventView::PartitionEof(p) ==> state.snapshots.contains_key(p)) by {
            assert(tail[i] == events[i + 1]);
        }
        assert(events[0] matches scan_state::EventView::PartitionEof(p)
            ==> state.snapshots.contains_key(p));
        lemma_run_batch_finished(
            scan_state::state_after(state, events[0]),
            rows + scan_state::rows_from(state.snapshots, topic, events[0]),
            topic,
            capacity,
            tail,
        );
    }
}

proof fn lemma_run_batch_emit(
    state: scan_state::ScanView,
    rows: Seq<row::RowView>,
    topic: Seq<char>,
    capacity: nat,
    events: Seq<scan_state::EventView>,
)
    ensures
        ({
            let b = run_batch(state, rows, topic, capacity, events);
            b.end is Emit ==> scan_state::next_action(b.state, b.rows.len(), capacity)
                == scan_state::ScanAction::Emit
        }),
    decreases events.len(),
{
    if scan_state::next_action(state, rows.len(), capacity) == scan_state::ScanAction::Poll
        && events.len() > 0 && scan_state::failure_of(events[0]) is None {
        lemma_run_batch_emit(
            scan_state::state_after(state, events[0]),
            rows + scan_state::rows_from(state.snapshots, topic, events[0]),
            topic,
            capacity,
            events.drop_first(),
        );
    }
}

/// Rows that a batch starts with come before the rows that it collects.
proof fn lemma_run_batch_prefix(
    state: scan_state::ScanView,
    before: Seq<row::RowView>,
    rows: Seq<row::RowView>,
    topic: Seq<char>,
    capacity: nat,
    events: Seq<scan_state::EventView>,
)
    ensures
        ({
            let b = run_batch(state, rows, topic, capacity, events);
            run_batch(state, before + rows, topic, before.len() + capacity, events) == (Batch {
                rows: before + b.rows,
                ..b
            })
        }),
    decreases events.len(),
{
    if scan_state::next_action(state, rows.len(), capacity) == scan_state::ScanAction::Poll
        && events.len() > 0 && scan_state::failure_of(events[0]) is None {
        let head = scan_state::rows_from(state.snapshots, topic, events[0]);
        assert(before + rows + head =~= before + (rows + head));
        lemma_run_batch_prefix(
            scan_state::state_after(state, events[0]),
            before,
            rows + head,
            topic,
            capacity,
            events.drop_first(),
        );
    }
}

proof fn lemma_run_batch_compose(
    state: scan_state::ScanView,
    rows: Seq<row::RowView>,
    topic: Seq<char>,
    first: nat,
    second: nat,
    events: Seq<scan_state::EventView>,
)
    requires
        rows.len() <= first,
        run_batch(state, rows, topic, first, events).end is Emit,
    ensures
        ({
            let a = run_batch(state, rows, topic, first, events);
            let b = run_batch(a.state, Seq::empty(), topic, second, a.rest);
            run_batch(state, rows, topic, first + second, events) == (Batch {
                rows: a.rows + b.rows,
                ..b
            })
        }),
    decreases events.len(),
{
    if scan_state::next_action(state, rows.len(), first) == scan_state::ScanAction::Emit {
        let b = run_batch(state, Seq::empty(), topic, second, events);
        if rows.len() == first {
            lemma_run_batch_prefix(state, rows, Seq::empty(), topic, second, events);
            assert(rows + Seq::<row::RowView>::empty() =~= rows);
        } else {
            assert(b.rows =~= Seq::empty());
            assert(rows + b.rows =~= rows);
        }
    } else {
        lemma_run_batch_compose(
            scan_state::state_after(state, events[0]),
            rows + scan_state::rows_from(state.snapshots, topic, events[0]),
            topic,
            first,
            second,
            events.drop_first(),
        );
    }
}

/// The snapshot of a scan holds a partition exactly where watermarks with records were read for
/// it, and ends at the high watermark that was read for it last. This is so whatever partitions
/// the cluster lists, the same one twice included.
pub proof fn law_snapshot_is_what_was_read(topic: Seq<char>, marks: Seq<Watermarks>, i: int)
    requires
        0 <= i < marks.len(),
        marks[i].low < marks[i].high,
        forall|j: int|
            i < j < marks.len() && (#[trigger] marks[j]).partition == marks[i].partition
                ==> marks[j].low >= marks[j].high,
    ensures
        scan_state::plan_of(topic, marks).snapshots.contains_key(marks[i].partition),
        scan_state::plan_of(topic, marks).snapshots[marks[i].partition].high == marks[i].high,
    decreases marks.len(),
{
    if i < marks.len() - 1 {
        let init = marks.drop_last();
        assert forall|j: int|
            i < j < init.len() && (#[trigger] init[j]).partition == init[i].partition implies
            init[j].low >= init[j].high by {
            assert(marks[j] == init[j]);
        }
        law_snapshot_is_what_was_read(topic, init, i);
        assert(marks[marks.len() - 1] == marks.last());
    }
}

/// No partition is captured for which no watermarks with records were read, and the captured
/// watermark of each is one that was read for it.
pub proof fn law_nothing_else_is_captured(topic: Seq<char>, marks: Seq<Watermarks>, p: i32)
    requires
        scan_state::plan_of(topic, marks).snapshots.contains_key(p),
    ensures
        exists|i: int|
            0 <= i < marks.len() && (#[trigger] marks[i]).partition == p && marks[i].low
                < marks[i].high && scan_state::plan_of(topic, marks).snapshots[p].high
                == marks[i].high,
    decreases marks.len(),
{
    let last = marks.last();
    let init = marks.drop_last();
    if marks.len() > 0 {
        if last.partition == p && last.low < last.high {
            assert(marks[marks.len() - 1] == last);
        } else {
            law_nothing_else_is_captured(topic, init, p);
            let i = choose|i: int|
                0 <= i < init.len() && (#[trigger] init[i]).partition == p && init[i].low
                    < init[i].high && scan_state::plan_of(topic, init).snapshots[p].high
                    == init[i].high;
            assert(marks[i] == init[i]);
        }
    }
}

/// What a scan returns was there when it started: each row is of a partition that held records
/// when its watermarks were read, and lies below the high watermark that was read for it.
pub proof fn law_rows_were_there_when_the_scan_started(
    topic: Seq<char>,
    marks: Seq<Watermarks>,
    finished: Set<i32>,
    capacity: nat,
    events: Seq<scan_state::EventView>,
    r: int,
)
    requires
        ({
            let snapshots = scan_state::plan_of(topic, marks).snapshots;
            0 <= r < batch(
                scan_state::ScanView { snapshots, finished },
                topic,
                capacity,
                events,
            ).rows.len()
        }),
    ensures
        ({
            let snapshots = scan_state::plan_of(topic, marks).snapshots;
            let row = batch(
                scan_state::ScanView { snapshots, finished },
                topic,
                capacity,
                events,
            ).rows[r];
            exists|i: int|
                0 <= i < marks.len() && (#[trigger] marks[i]).partition == row.partition
                    && marks[i].low < marks[i].high && (row.offset as int) < (
                marks[i].high as int)
        }),
{
    let snapshots = scan_state::plan_of(topic, marks).snapshots;
    let state = scan_state::ScanView { snapshots, finished };
    law_rows_stay_within_the_snapshot(state, topic, capacity, events, r);
    law_nothing_else_is_captured(
        topic,
        marks,
        batch(state, topic, capacity, events).rows[r].partition,
    );
}

} // verus!
