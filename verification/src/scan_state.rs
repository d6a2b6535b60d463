//! The course of a scan: which records of a topic it returns, and when it ends.
//!
//! A scan captures the high watermark of each partition when it starts, and returns the records
//! below these watermarks. What arrives later is not part of it.
use crate::kafka;
use crate::row;
use crate::row::Row;
use crate::text_map::{join, same_text};
use rdkafka::topic_partition_list::TopicPartitionList;
use std::collections::{HashMap, HashSet};
use vstd::prelude::*;

verus! {

/// Where the snapshot of a partition ends: records at `high` or above are not part of it.
#[derive(Debug, Clone, Copy, PartialEq, Eq, Structural)]
pub struct PartitionSnapshot {
    pub high: i64,
}

/// A record as the Kafka client hands it out.
#[derive(Debug)]
pub struct PolledMessage {
    pub partition: i32,
    pub offset: i64,
    pub key: Option<Vec<u8>>,
    pub payload: Option<Vec<u8>>,
    pub headers: Option<Vec<(String, Option<Vec<u8>>)>>,
}

/// The value of a [`PolledMessage`].
pub struct MessageView {
    pub partition: i32,
    pub offset: i64,
    pub key: Option<Seq<u8>>,
    pub payload: Option<Seq<u8>>,
    pub headers: Option<Seq<(Seq<char>, Option<Seq<u8>>)>>,
}

impl View for PolledMessage {
    type V = MessageView;

    open spec fn view(&self) -> MessageView {
        MessageView {
            partition: self.partition,
            offset: self.offset,
            key: row::bytes_view(self.key),
            payload: row::bytes_view(self.payload),
            headers: match self.headers {
                Some(h) => Some(row::headers_view(h@)),
                None => None,
            },
        }
    }
}

/// What came of polling the Kafka client once.
#[derive(Debug)]
pub enum PollEvent {
    /// Nothing came before the timeout.
    Empty,
    /// A record came.
    Message(PolledMessage),
    /// The partition has no more records at present.
    PartitionEof(i32),
    /// The client failed; `detail` says how.
    Failed { detail: String },
}

/// The value of a [`PollEvent`].
pub enum EventView {
    Empty,
    Message(MessageView),
    PartitionEof(i32),
    Failed { detail: Seq<char> },
}

impl View for PollEvent {
    type V = EventView;

    open spec fn view(&self) -> EventView {
        match self {
            PollEvent::Empty => EventView::Empty,
            PollEvent::Message(m) => EventView::Message(m@),
            PollEvent::PartitionEof(p) => EventView::PartitionEof(*p),
            PollEvent::Failed { detail } => EventView::Failed { detail: detail@ },
        }
    }
}

/// Why a scan fails.
#[derive(Debug)]
pub enum ScanError {
    /// The cluster does not know the topic.
    TopicNotFound { topic: String },
    /// The low watermark of a partition is no offset to start from.
    InvalidOffset { partition: i32, offset: i64 },
    /// The Kafka client failed while records were read.
    Consume { detail: String },
}

/// The value of a [`ScanError`].
pub enum ScanErrorView {
    TopicNotFound { topic: Seq<char> },
    InvalidOffset { partition: i32, offset: i64 },
    Consume { detail: Seq<char> },
}

impl View for ScanError {
    type V = ScanErrorView;

    open spec fn view(&self) -> ScanErrorView {
        match self {
            ScanError::TopicNotFound { topic } => ScanErrorView::TopicNotFound { topic: topic@ },
            ScanError::InvalidOffset { partition, offset } => ScanErrorView::InvalidOffset {
                partition: *partition,
                offset: *offset,
            },
            ScanError::Consume { detail } => ScanErrorView::Consume { detail: detail@ },
        }
    }
}

impl ScanErrorView {
    /// The message of the error.
    pub open spec fn message(self) -> Seq<char> {
        match self {
            ScanErrorView::TopicNotFound { topic } => "Kafka topic not found: "@ + topic,
            ScanErrorView::InvalidOffset {
                ..
            } => "Set partition offset error: InvalidArgument (Local: Invalid argument or configuration)"@,
            ScanErrorView::Consume { detail } => "Kafka consume error: "@ + detail,
        }
    }
}

impl ScanError {
    /// The message of the error.
    pub fn message(&self) -> (r: String)
        ensures
            r@ == self@.message(),
    {
        match self {
            ScanError::TopicNotFound { topic } => join("Kafka topic not found: ", topic.as_str()),
            ScanError::InvalidOffset {
                ..
            } => "Set partition offset error: InvalidArgument (Local: Invalid argument or configuration)".to_owned(),
            ScanError::Consume { detail } => join("Kafka consume error: ", detail.as_str()),
        }
    }
}

/// A topic that the cluster knows, with its partitions.
#[derive(Debug)]
pub struct TopicPartitions {
    pub name: String,
    pub partitions: Vec<i32>,
}

/// The index of the first topic of a name, or the number of topics where there is none.
pub open spec fn topic_index(topics: Seq<TopicPartitions>, name: Seq<char>) -> nat
    decreases topics.len(),
{
    if topics.len() == 0 {
        0
    } else if topics[0].name@ == name {
        0
    } else {
        1 + topic_index(topics.drop_first(), name)
    }
}

/// Finds a topic among those that the cluster knows: the first of its name.
pub fn find_topic<'a>(topics: &'a [TopicPartitions], topic: &str) -> (r: Result<
    &'a TopicPartitions,
    ScanError,
>)
    ensures
        topic_index(topics@, topic@) <= topics@.len(),
        match r {
            Ok(found) => topic_index(topics@, topic@) < topics@.len() && *found
                == topics@[topic_index(topics@, topic@) as int],
            Err(e) => topic_index(topics@, topic@) == topics@.len() && e@
                == (ScanErrorView::TopicNotFound { topic: topic@ }),
        },
{
    let mut i: usize = 0;
    proof {
        assert(topics@.skip(0) =~= topics@);
    }
    while i < topics.len()
        invariant
            i <= topics.len(),
            topic_index(topics@, topic@) == i + topic_index(topics@.skip(i as int), topic@),
        decreases topics.len() - i,
    {
        proof {
            assert(topics@.skip(i as int)[0] == topics@[i as int]);
            assert(topics@.skip(i as int).drop_first() =~= topics@.skip(i + 1));
        }
        if same_text(topics[i].name.as_str(), topic) {
            return Ok(&topics[i]);
        }
        i += 1;
    }
    Err(ScanError::TopicNotFound { topic: topic.to_owned() })
}

/// The watermarks of a partition: the offset of its first record, and the offset after its last.
#[derive(Debug, Clone, Copy, PartialEq, Eq, Structural)]
pub struct Watermarks {
    pub partition: i32,
    pub low: i64,
    pub high: i64,
}

/// What a scan is made of: where the snapshots of partitions end, and which partitions are read
/// from which offsets.
#[verifier::ext_equal]
pub struct PlanView {
    pub snapshots: Map<i32, PartitionSnapshot>,
    pub assignment: Seq<kafka::AssignedPartition>,
}

/// The plan without partitions.
pub open spec fn empty_plan() -> PlanView {
    PlanView { snapshots: Map::empty(), assignment: Seq::empty() }
}

/// The plan after a partition with these watermarks: a partition that holds records is read from
/// its low watermark and ends at its high watermark; an empty one is left out.
pub open spec fn planned(plan: PlanView, topic: Seq<char>, marks: Watermarks) -> PlanView {
    if marks.low < marks.high {
        PlanView {
            snapshots: plan.snapshots.insert(
                marks.partition,
                PartitionSnapshot { high: marks.high },
            ),
            assignment: kafka::with_partition_offset(
                plan.assignment,
                topic,
                marks.partition,
                marks.low,
            ),
        }
    } else {
        plan
    }
}

/// The plan after partitions with these watermarks, one after another.
pub open spec fn plan_of(topic: Seq<char>, marks: Seq<Watermarks>) -> PlanView
    decreases marks.len(),
{
    if marks.len() == 0 {
        empty_plan()
    } else {
        planned(plan_of(topic, marks.drop_last()), topic, marks.last())
    }
}

/// A partition that holds records starts at offset zero or above.
pub open spec fn valid_marks(marks: Seq<Watermarks>) -> bool {
    forall|i: int|
        0 <= i < marks.len() && (#[trigger] marks[i]).low < marks[i].high ==> 0 <= marks[i].low
}

/// A scan that is being opened: the snapshots of a topic's partitions are taken one after another.
pub struct ScanOpening {
    topic: String,
    partitions: Vec<i32>,
    read: usize,
    snapshots: HashMap<i32, PartitionSnapshot>,
    assignment: TopicPartitionList,
    marks: Ghost<Seq<Watermarks>>,
}

/// The value of a [`ScanOpening`]: the topic, its partitions, and the watermarks read so far.
#[verifier::ext_equal]
pub struct OpeningView {
    pub topic: Seq<char>,
    pub partitions: Seq<i32>,
    pub marks: Seq<Watermarks>,
}

impl View for ScanOpening {
    type V = OpeningView;

    closed spec fn view(&self) -> OpeningView {
        OpeningView { topic: self.topic@, partitions: self.partitions@, marks: self.marks@ }
    }
}

impl ScanOpening {
    #[verifier::type_invariant]
    spec fn follows_the_marks(&self) -> bool {
        let plan = plan_of(self.topic@, self.marks@);
        &&& !self.topic@.contains('\0')
        &&& self.read == self.marks@.len()
        &&& self.read <= self.partitions.len() <= kafka::MAX_NATIVE_ITEMS
        &&& forall|i: int|
            0 <= i < self.marks@.len() ==> (#[trigger] self.marks@[i]).partition
                == self.partitions@[i]
        &&& valid_marks(self.marks@)
        &&& self.snapshots@ == plan.snapshots
        &&& kafka::partition_list(self.assignment) == plan.assignment
        &&& plan.assignment.len() <= self.read
    }

    /// Starts to open a scan of a topic, which must be one of those that the cluster knows.
    pub fn new(topics: &[TopicPartitions], topic: &str) -> (r: Result<ScanOpening, ScanError>)
        requires
            !topic@.contains('\0'),
            forall|i: int|
                0 <= i < topics@.len() ==> (#[trigger] topics@[i]).partitions@.len()
                    <= kafka::MAX_NATIVE_ITEMS,
        ensures
            match r {
                Ok(opening) => {
                    let found = topic_index(topics@, topic@);
                    &&& found < topics@.len()
                    &&& opening@ == (OpeningView {
                        topic: topic@,
                        partitions: topics@[found as int].partitions@,
                        marks: Seq::empty(),
                    })
                },
                Err(e) => topic_index(topics@, topic@) == topics@.len() && e@
                    == (ScanErrorView::TopicNotFound { topic: topic@ }),
            },
    {
        let found = match find_topic(topics, topic) {
            Ok(found) => found,
            Err(e) => {
                return Err(e);
            },
        };
        Ok(
            ScanOpening {
                topic: topic.to_owned(),
                partitions: found.partitions.clone(),
                read: 0,
                snapshots: HashMap::new(),
                assignment: kafka::new_partition_list(),
                marks: Ghost(Seq::empty()),
            },
        )
    }

    /// The partition whose watermarks come next, until they are read for all.
    pub fn next_partition(&self) -> (r: Option<i32>)
        ensures
            self@.marks.len() <= self@.partitions.len(),
            r == (if self@.marks.len() < self@.partitions.len() {
                Some(self@.partitions[self@.marks.len() as int])
            } else {
                None
            }),
    {
        proof {
            use_type_invariant(self);
        }
        if self.read < self.partitions.len() {
            Some(self.partitions[self.read])
        } else {
            None
        }
    }

    /// Takes in the watermarks of the partition that comes next. Fails where the partition holds
    /// records and starts at a negative offset.
    pub fn watermarks(self, low: i64, high: i64) -> (r: Result<ScanOpening, ScanError>)
        requires
            self@.marks.len() < self@.partitions.len(),
        ensures
            r is Err <==> low < high && low < 0,
            ({
                let partition = self@.partitions[self@.marks.len() as int];
                match r {
                    Ok(opening) => opening@ == (OpeningView {
                        marks: self@.marks.push(Watermarks { partition, low, high }),
                        ..self@
                    }),
                    Err(e) => e@ == (ScanErrorView::InvalidOffset { partition, offset: low }),
                }
            }),
    {
        proof {
            use_type_invariant(&self);
        }
        let topic = self.topic;
        let partitions = self.partitions;
        let mut snapshots = self.snapshots;
        let mut assignment = self.assignment;
        let partition = partitions[self.read];
        let ghost marks = self.marks@.push(Watermarks { partition, low, high });
        proof {
            assert(marks.drop_last() =~= self.marks@);
        }
        if low < high {
            proof {
                let added = kafka::partition_list(assignment).push((topic@, partition, None));
                kafka::lemma_first_index_of(added, topic@, partition);
                assert(added.last() == (topic@, partition, None::<i64>));
            }
            snapshots.insert(partition, PartitionSnapshot { high });
            match kafka::add_partition_offset(&mut assignment, topic.as_str(), partition, low) {
                Ok(_) => {},
                Err(_) => {
                    return Err(ScanError::InvalidOffset { partition, offset: low });
                },
            }
        }
        proof {
            assert forall|i: int| 0 <= i < marks.len() implies (#[trigger] marks[i]).partition
                == partitions@[i] by {
                if i < self.marks@.len() {
                    assert(marks[i] == self.marks@[i]);
                }
            }
            assert forall|i: int|
                0 <= i < marks.len() && (#[trigger] marks[i]).low < marks[i].high implies 0
                <= marks[i].low by {
                if i < self.marks@.len() {
                    assert(marks[i] == self.marks@[i]);
                }
            }
        }
        Ok(
            ScanOpening {
                topic,
                partitions,
                read: self.read + 1,
                snapshots,
                assignment,
                marks: Ghost(marks),
            },
        )
    }

    /// Ends the opening, when the watermarks of all partitions are read: the state of the scan,
    /// and the partitions to assign to the consumer, if there are any.
    pub fn finish(self) -> (r: (KafkaScanState, Option<TopicPartitionList>))
        requires
            self@.marks.len() == self@.partitions.len(),
        ensures
            self@.partitions == self@.marks.map_values(|m: Watermarks| m.partition),
            valid_marks(self@.marks),
            r.0@ == (ScanView {
                snapshots: plan_of(self@.topic, self@.marks).snapshots,
                finished: Set::empty(),
            }),
            r.1 is Some <==> r.0@.snapshots.dom() != Set::<i32>::empty(),
            r.1 matches Some(list) ==> kafka::partition_list(list) == plan_of(
                self@.topic,
                self@.marks,
            ).assignment,
    {
        proof {
            use_type_invariant(&self);
            assert(self@.partitions =~= self@.marks.map_values(|m: Watermarks| m.partition));
        }
        let assigned = !self.snapshots.is_empty();
        let state = KafkaScanState {
            snapshots: self.snapshots,
            finished_partitions: HashSet::new(),
        };
        if assigned {
            (state, Some(self.assignment))
        } else {
            (state, None)
        }
    }
}

/// The state of a scan: where each partition's snapshot ends, and which partitions are finished.
pub struct KafkaScanState {
    snapshots: HashMap<i32, PartitionSnapshot>,
    finished_partitions: HashSet<i32>,
}

/// The value of a [`KafkaScanState`].
#[verifier::ext_equal]
pub struct ScanView {
    pub snapshots: Map<i32, PartitionSnapshot>,
    pub finished: Set<i32>,
}

impl View for KafkaScanState {
    type V = ScanView;

    closed spec fn view(&self) -> ScanView {
        ScanView { snapshots: self.snapshots@, finished: self.finished_partitions@ }
    }
}

/// What a scan does next.
#[derive(Debug, Clone, Copy, PartialEq, Eq, Structural)]
pub enum ScanAction {
    /// Poll the Kafka client once more.
    Poll,
    /// Return the rows that are there; none means that the scan is over.
    Emit,
}

/// What a scan does next, with `rows` of at most `capacity` rows collected: it polls until the
/// rows are full or as many partitions are finished as there are snapshots.
pub open spec fn next_action(state: ScanView, rows: nat, capacity: nat) -> ScanAction {
    if rows < capacity && state.finished.len() < state.snapshots.len() {
        ScanAction::Poll
    } else {
        ScanAction::Emit
    }
}

/// Whether a record lies within a snapshot.
pub open spec fn in_snapshot(
    snapshots: Map<i32, PartitionSnapshot>,
    partition: i32,
    offset: i64,
) -> bool {
    snapshots.contains_key(partition) && offset < snapshots[partition].high
}

/// The row of a record.
pub open spec fn row_of(topic: Seq<char>, message: MessageView) -> row::RowView {
    row::RowView {
        topic,
        partition: message.partition,
        offset: message.offset,
        key: message.key,
        message: message.payload,
        headers: match message.headers {
            Some(h) => h,
            None => Seq::empty(),
        },
    }
}

/// The state after an event: a partition is finished when its end is reported, or when a record
/// at or above its high watermark comes.
pub open spec fn state_after(state: ScanView, event: EventView) -> ScanView {
    match event {
        EventView::Message(m) => if state.snapshots.contains_key(m.partition) && !in_snapshot(
            state.snapshots,
            m.partition,
            m.offset,
        ) {
            ScanView { finished: state.finished.insert(m.partition), ..state }
        } else {
            state
        },
        EventView::PartitionEof(p) => ScanView { finished: state.finished.insert(p), ..state },
        _ => state,
    }
}

/// The rows that an event adds: the record that came, where it lies within the snapshot.
pub open spec fn rows_from(
    snapshots: Map<i32, PartitionSnapshot>,
    topic: Seq<char>,
    event: EventView,
) -> Seq<row::RowView> {
    match event {
        EventView::Message(m) => if in_snapshot(snapshots, m.partition, m.offset) {
            seq![row_of(topic, m)]
        } else {
            Seq::empty()
        },
        _ => Seq::empty(),
    }
}

/// The failure that an event is, if it is one.
pub open spec fn failure_of(event: EventView) -> Option<ScanErrorView> {
    match event {
        EventView::Failed { detail } => Some(ScanErrorView::Consume { detail }),
        _ => None,
    }
}

impl KafkaScanState {
    /// What the scan does next.
    pub fn next_action(&self, rows: usize, capacity: usize) -> (r: ScanAction)
        ensures
            r == next_action(self@, rows as nat, capacity as nat),
    {
        if rows < capacity && self.finished_partitions.len() < self.snapshots.len() {
            ScanAction::Poll
        } else {
            ScanAction::Emit
        }
    }

    /// Takes in what came of a poll, and says what to do next. Where the client failed, the scan
    /// fails.
    pub fn next_rows(
        &mut self,
        topic: &str,
        capacity: usize,
        rows: &mut Vec<Row>,
        event: PollEvent,
    ) -> (r: Result<ScanAction, ScanError>)
        ensures
            final(self)@ == state_after(old(self)@, event@),
            row::rows_view(final(rows)@) == row::rows_view(old(rows)@) + rows_from(
                old(self)@.snapshots,
                topic@,
                event@,
            ),
            match r {
                Ok(action) => failure_of(event@) is None && action == next_action(
                    final(self)@,
                    final(rows)@.len(),
                    capacity as nat,
                ),
                Err(e) => failure_of(event@) == Some(e@),
            },
    {
        let ghost before = row::rows_view(rows@);
        match event {
            PollEvent::Empty => {},
            PollEvent::Message(message) => {
                let partition = message.partition;
                match self.snapshots.get(&partition) {
                    None => {},
                    Some(snapshot) => {
                        if message.offset >= snapshot.high {
                            self.finished_partitions.insert(partition);
                        } else {
                            let headers: Vec<(String, Option<Vec<u8>>)> = match message.headers {
                                Some(headers) => headers,
                                None => Vec::new(),
                            };
                            proof {
                                if event@->Message_0.headers is None {
                                    assert(row::headers_view(headers@) =~= Seq::empty());
                                }
                            }
                            rows.push(
                                Row {
                                    topic: topic.to_owned(),
                                    partition,
                                    offset: message.offset,
                                    key: message.key,
                                    message: message.payload,
                                    headers,
                                },
                            );
                        }
                    },
                }
            },
            PollEvent::PartitionEof(partition) => {
                self.finished_partitions.insert(partition);
            },
            PollEvent::Failed { detail } => {
                return Err(ScanError::Consume { detail });
            },
        }
        proof {
            assert(row::rows_view(rows@) =~= before + rows_from(
                old(self)@.snapshots,
                topic@,
                event@,
            ));
        }
        Ok(self.next_action(rows.len(), capacity))
    }
}

/// A scan polls as long as its rows have room and fewer partitions are finished than were
/// captured, and returns its rows otherwise.
pub proof fn law_scan_polls_while_there_is_room_and_work(state: ScanView, rows: nat, capacity: nat)
    ensures
        next_action(state, rows, capacity) == ScanAction::Poll <==> rows < capacity
            && state.finished.len() < state.snapshots.len(),
        next_action(state, rows, capacity) == ScanAction::Emit <==> rows >= capacity
            || state.finished.len() >= state.snapshots.len(),
{
}

/// A record adds a row exactly where its partition was captured and its offset is below the
/// captured high watermark. The row has the topic of the scan, and the partition, offset, key,
/// payload and headers of the record, each in its own place.
pub proof fn law_record_below_the_watermark_is_a_row(
    snapshots: Map<i32, PartitionSnapshot>,
    topic: Seq<char>,
    m: MessageView,
)
    ensures
        ({
            let added = rows_from(snapshots, topic, EventView::Message(m));
            &&& added.len() == 1 <==> snapshots.contains_key(m.partition) && m.offset
                < snapshots[m.partition].high
            &&& added.len() == 0 <==> !snapshots.contains_key(m.partition) || m.offset
                >= snapshots[m.partition].high
            &&& added.len() > 0 ==> {
                &&& added[0].topic == topic
                &&& added[0].partition == m.partition
                &&& added[0].offset == m.offset
                &&& added[0].key == m.key
                &&& added[0].message == m.payload
                &&& m.headers is Some ==> added[0].headers == m.headers->0
                &&& m.headers is None ==> added[0].headers.len() == 0
            }
        }),
{
}

/// What is no record adds no row: a poll without result, the end of a partition, a failure.
pub proof fn law_only_records_are_rows(
    snapshots: Map<i32, PartitionSnapshot>,
    topic: Seq<char>,
    event: EventView,
)
    requires
        !(event is Message),
    ensures
        rows_from(snapshots, topic, event).len() == 0,
{
}

/// An event finishes a partition exactly where it reports the partition's end, or is a record of
/// a captured partition at or above the captured high watermark. Nothing else changes: the
/// captured watermarks never do, and what was finished stays so.
pub proof fn law_what_finishes_a_partition(state: ScanView, event: EventView, p: i32)
    ensures
        state_after(state, event).snapshots == state.snapshots,
        state_after(state, event).finished.contains(p) <==> {
            ||| state.finished.contains(p)
            ||| event == EventView::PartitionEof(p)
            ||| event matches EventView::Message(m) && m.partition == p
                && state.snapshots.contains_key(p) && m.offset >= state.snapshots[p].high
        },
{
}

/// A scan fails exactly where the client fails, with the client's own words.
pub proof fn law_scan_fails_with_the_client(event: EventView)
    ensures
        failure_of(event) is Some <==> event is Failed,
        event matches EventView::Failed { detail } ==> failure_of(event) matches Some(
            ScanErrorView::Consume { detail: words },
        ) && words == detail,
{
}

/// A topic is found at the first place where its name stands, and only where it stands.
pub proof fn law_topic_is_found_at_its_first_place(topics: Seq<TopicPartitions>, name: Seq<char>)
    ensures
        topic_index(topics, name) <= topics.len(),
        topic_index(topics, name) < topics.len() ==> topics[topic_index(
            topics,
            name,
        ) as int].name@ == name,
        forall|i: int|
            0 <= i < topic_index(topics, name) ==> (#[trigger] topics[i]).name@ != name,
    decreases topics.len(),
{
    if topics.len() > 0 && topics[0].name@ != name {
        let rest = topics.drop_first();
        law_topic_is_found_at_its_first_place(rest, name);
        assert forall|i: int| 0 <= i < topic_index(topics, name) implies (
        #[trigger] topics[i]).name@ != name by {
            if i > 0 {
                assert(rest[i - 1] == topics[i]);
            }
        }
    }
}

/// A partition is captured exactly where it holds records; its snapshot then ends at its high
/// watermark, and one partition more is assigned. Other partitions are left alone.
pub proof fn law_partition_is_captured_where_it_holds_records(
    plan: PlanView,
    topic: Seq<char>,
    marks: Watermarks,
    p: i32,
)
    ensures
        ({
            let after = planned(plan, topic, marks);
            &&& marks.low >= marks.high ==> after == plan
            &&& marks.low < marks.high ==> {
                &&& after.snapshots.contains_key(marks.partition)
                &&& after.snapshots[marks.partition].high == marks.high
                &&& after.assignment.len() == plan.assignment.len() + 1
            }
            &&& p != marks.partition ==> (after.snapshots.contains_key(p)
                <==> plan.snapshots.contains_key(p))
            &&& p != marks.partition && plan.snapshots.contains_key(p) ==> after.snapshots[p]
                == plan.snapshots[p]
        }),
{
    let added = plan.assignment.push((topic, marks.partition, None));
    kafka::lemma_first_index_of(added, topic, marks.partition);
    assert(added.last() == (topic, marks.partition, None::<i64>));
}

/// The messages say what failed: the topic, or the client's own words.
pub proof fn law_scan_messages_say_what_failed(topic: Seq<char>, detail: Seq<char>)
    ensures
        (ScanErrorView::TopicNotFound { topic }).message() == "Kafka topic not found: "@ + topic,
        (ScanErrorView::Consume { detail }).message() == "Kafka consume error: "@ + detail,
{
}

/// The value of a record holds its fields, each in its own place.
pub proof fn law_message_value_is_its_fields(m: PolledMessage)
    ensures
        m@.partition == m.partition,
        m@.offset == m.offset,
        m@.key is Some <==> m.key is Some,
        m.key matches Some(bytes) ==> m@.key == Some(bytes@),
        m@.payload is Some <==> m.payload is Some,
        m.payload matches Some(bytes) ==> m@.payload == Some(bytes@),
        m@.headers is Some <==> m.headers is Some,
        m.headers matches Some(h) ==> {
            &&& m@.headers->0.len() == h@.len()
            &&& forall|i: int|
                0 <= i < h@.len() ==> {
                    &&& (#[trigger] h@[i]).0@ == m@.headers->0[i].0
                    &&& m@.headers->0[i].1 is Some <==> h@[i].1 is Some
                    &&& h@[i].1 matches Some(bytes) ==> m@.headers->0[i].1 == Some(bytes@)
                }
        },
{
}

/// The value of an event is the event.
pub proof fn law_event_value_is_the_event(event: PollEvent)
    ensures
        event is Empty <==> event@ is Empty,
        event is Message <==> event@ is Message,
        event matches PollEvent::Message(m) ==> event@ == EventView::Message(m@),
        event is PartitionEof <==> event@ is PartitionEof,
        event matches PollEvent::PartitionEof(p) ==> event@ == EventView::PartitionEof(p),
        event is Failed <==> event@ is Failed,
        event matches PollEvent::Failed { detail } ==> event@ == (EventView::Failed {
            detail: detail@,
        }),
{
}

/// The value of an error is the error.
pub proof fn law_scan_error_value_is_the_error(error: ScanError)
    ensures
        error is TopicNotFound <==> error@ is TopicNotFound,
        error matches ScanError::TopicNotFound { topic } ==> error@
            == (ScanErrorView::TopicNotFound { topic: topic@ }),
        error is InvalidOffset <==> error@ is InvalidOffset,
        error matches ScanError::InvalidOffset { partition, offset } ==> error@
            == (ScanErrorView::InvalidOffset { partition, offset }),
        error is Consume <==> error@ is Consume,
        error matches ScanError::Consume { detail } ==> error@ == (ScanErrorView::Consume {
            detail: detail@,
        }),
{
}

/// A partition that holds records and is not assigned yet is assigned last, at its low watermark.
pub proof fn law_partition_is_assigned_at_its_low_watermark(
    plan: PlanView,
    topic: Seq<char>,
    marks: Watermarks,
)
    requires
        0 <= marks.low < marks.high,
        forall|k: int|
            0 <= k < plan.assignment.len() ==> (#[trigger] plan.assignment[k]).0 != topic
                || plan.assignment[k].1 != marks.partition,
    ensures
        planned(plan, topic, marks).assignment == plan.assignment.push(
            (topic, marks.partition, Some(marks.low)),
        ),
{
    let added = plan.assignment.push((topic, marks.partition, None));
    kafka::lemma_first_index_of(added, topic, marks.partition);
    assert(added.last() == (topic, marks.partition, None::<i64>));
    assert forall|k: int| 0 <= k < plan.assignment.len() implies (#[trigger] added[k]).0 != topic
        || added[k].1 != marks.partition by {
        assert(added[k] == plan.assignment[k]);
    }
    assert(planned(plan, topic, marks).assignment =~= plan.assignment.push(
        (topic, marks.partition, Some(marks.low)),
    ));
}

/// Assigning a partition leaves the assignments of other partitions as they were. Where the
/// partition was assigned before, the first of its assignments gets the new low watermark.
pub proof fn law_other_assignments_stay(
    plan: PlanView,
    topic: Seq<char>,
    marks: Watermarks,
    k: int,
)
    requires
        0 <= marks.low < marks.high,
        0 <= k < plan.assignment.len(),
    ensures
        plan.assignment[k].0 != topic || plan.assignment[k].1 != marks.partition ==> planned(
            plan,
            topic,
            marks,
        ).assignment[k] == plan.assignment[k],
        plan.assignment[k].0 == topic && plan.assignment[k].1 == marks.partition && (forall|j: int|
            0 <= j < k ==> (#[trigger] plan.assignment[j]).0 != topic || plan.assignment[j].1
                != marks.partition) ==> planned(plan, topic, marks).assignment[k] == (
            topic,
            marks.partition,
            Some(marks.low),
        ),
{
    let added = plan.assignment.push((topic, marks.partition, None));
    let first = kafka::first_index_of(added, topic, marks.partition);
    kafka::lemma_first_index_of(added, topic, marks.partition);
    assert(added.last() == (topic, marks.partition, None::<i64>));
    assert(added[k] == plan.assignment[k]);
    if first < k {
        assert(plan.assignment[first] == added[first]);
    }
}

} // verus!
