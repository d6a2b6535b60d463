//! The cluster metadata that the metadata function returns, and its layout as column vectors.
use crate::layout;
use crate::layout::ListEntry;
use vstd::prelude::*;

verus! {

/// A broker of the cluster.
#[derive(Debug)]
pub struct BrokerRow {
    pub id: i32,
    pub host: String,
    pub port: i32,
}

/// A topic of the cluster, with the error that the cluster reports for it, if any.
#[derive(Debug)]
pub struct TopicRow {
    pub name: String,
    pub error: Option<String>,
    pub partitions: Vec<PartitionRow>,
}

/// A partition of a topic.
#[derive(Debug, Clone, Copy, PartialEq, Eq, Structural)]
pub struct PartitionRow {
    pub id: i32,
    pub leader: i32,
}

/// The value of a [`BrokerRow`].
pub struct BrokerView {
    pub id: i32,
    pub host: Seq<char>,
    pub port: i32,
}

/// The value of a [`TopicRow`].
pub struct TopicView {
    pub name: Seq<char>,
    pub error: Option<Seq<char>>,
    pub partitions: Seq<PartitionRow>,
}

impl View for BrokerRow {
    type V = BrokerView;

    open spec fn view(&self) -> BrokerView {
        BrokerView { id: self.id, host: self.host@, port: self.port }
    }
}

impl View for TopicRow {
    type V = TopicView;

    open spec fn view(&self) -> TopicView {
        TopicView {
            name: self.name@,
            error: match self.error {
                Some(e) => Some(e@),
                None => None,
            },
            partitions: self.partitions@,
        }
    }
}

/// The values of several brokers.
pub open spec fn brokers_view(brokers: Seq<BrokerRow>) -> Seq<BrokerView> {
    brokers.map_values(|b: BrokerRow| b@)
}

/// The values of several topics.
pub open spec fn topics_view(topics: Seq<TopicRow>) -> Seq<TopicView> {
    topics.map_values(|t: TopicRow| t@)
}

/// The partition lists of topics.
pub open spec fn partition_lists(topics: Seq<TopicView>) -> Seq<Seq<PartitionRow>> {
    topics.map_values(|t: TopicView| t.partitions)
}

/// Cluster metadata laid out as the two output columns, `brokers` and `topics`. Both are list
/// columns whose children are structs, and the partitions of a topic are a list column inside the
/// children of `topics`.
pub struct MetadataColumns<'a> {
    pub broker_entries: Vec<ListEntry>,
    pub broker_ids: Vec<i32>,
    pub broker_hosts: Vec<&'a str>,
    pub broker_ports: Vec<i32>,
    pub topic_entries: Vec<ListEntry>,
    pub topic_names: Vec<&'a str>,
    pub topic_errors: Vec<Option<&'a str>>,
    pub partition_entries: Vec<ListEntry>,
    pub partition_ids: Vec<i32>,
    pub partition_leaders: Vec<i32>,
}

/// The value of [`MetadataColumns`].
#[verifier::ext_equal]
pub struct MetadataColumnsView {
    pub broker_entries: Seq<(int, int)>,
    pub broker_ids: Seq<i32>,
    pub broker_hosts: Seq<Seq<char>>,
    pub broker_ports: Seq<i32>,
    pub topic_entries: Seq<(int, int)>,
    pub topic_names: Seq<Seq<char>>,
    pub topic_errors: Seq<Option<Seq<char>>>,
    pub partition_entries: Seq<(int, int)>,
    pub partition_ids: Seq<i32>,
    pub partition_leaders: Seq<i32>,
}

/// The characters of an optional text.
pub open spec fn text_view(text: Option<&str>) -> Option<Seq<char>> {
    match text {
        Some(t) => Some(t@),
        None => None,
    }
}

impl<'a> View for MetadataColumns<'a> {
    type V = MetadataColumnsView;

    open spec fn view(&self) -> MetadataColumnsView {
        MetadataColumnsView {
            broker_entries: self.broker_entries@.map_values(|e: ListEntry| e@),
            broker_ids: self.broker_ids@,
            broker_hosts: self.broker_hosts@.map_values(|h: &str| h@),
            broker_ports: self.broker_ports@,
            topic_entries: self.topic_entries@.map_values(|e: ListEntry| e@),
            topic_names: self.topic_names@.map_values(|n: &str| n@),
            topic_errors: self.topic_errors@.map_values(|e: Option<&str>| text_view(e)),
            partition_entries: self.partition_entries@.map_values(|e: ListEntry| e@),
            partition_ids: self.partition_ids@,
            partition_leaders: self.partition_leaders@,
        }
    }
}

/// The columns of cluster metadata. Each broker is a list of its own in the `brokers` column, no
/// entry is written for the `topics` column, and the partitions of all topics lie one after
/// another.
pub open spec fn metadata_columns(
    brokers: Seq<BrokerView>,
    topics: Seq<TopicView>,
) -> MetadataColumnsView {
    let partitions = partition_lists(topics).flatten();
    MetadataColumnsView {
        broker_entries: Seq::new(brokers.len(), |i: int| (i, 1)),
        broker_ids: brokers.map_values(|b: BrokerView| b.id),
        broker_hosts: brokers.map_values(|b: BrokerView| b.host),
        broker_ports: brokers.map_values(|b: BrokerView| b.port),
        topic_entries: Seq::empty(),
        topic_names: topics.map_values(|t: TopicView| t.name),
        topic_errors: topics.map_values(|t: TopicView| t.error),
        partition_entries: layout::packed_entries(partition_lists(topics)),
        partition_ids: partitions.map_values(|p: PartitionRow| p.id),
        partition_leaders: partitions.map_values(|p: PartitionRow| p.leader),
    }
}

/// The broker that stands at index `i` of the broker children.
pub open spec fn broker_at(columns: MetadataColumnsView, i: int) -> BrokerView {
    BrokerView {
        id: columns.broker_ids[i],
        host: columns.broker_hosts[i],
        port: columns.broker_ports[i],
    }
}

/// The topic that stands at index `i` of the topic children.
pub open spec fn topic_at(columns: MetadataColumnsView, i: int) -> TopicView {
    let entry = columns.partition_entries[i];
    TopicView {
        name: columns.topic_names[i],
        error: columns.topic_errors[i],
        partitions: Seq::new(
            entry.1 as nat,
            |j: int|
                PartitionRow {
                    id: columns.partition_ids[entry.0 + j],
                    leader: columns.partition_leaders[entry.0 + j],
                },
        ),
    }
}

/// The number of partitions of all topics, or `None` where a `usize` does not hold it.
pub fn count_partitions(topics: &[TopicRow]) -> (r: Option<usize>)
    ensures
        r == (if layout::total_length(partition_lists(topics_view(topics@))) <= usize::MAX {
            Some(layout::total_length(partition_lists(topics_view(topics@))) as usize)
        } else {
            None
        }),
{
    let ghost lists = partition_lists(topics_view(topics@));
    let mut total: usize = 0;
    let mut i: usize = 0;
    proof {
        assert(lists.take(0) =~= Seq::empty());
    }
    while i < topics.len()
        invariant
            i <= topics.len(),
            lists == partition_lists(topics_view(topics@)),
            total == layout::total_length(lists.take(i as int)),
        decreases topics.len() - i,
    {
        proof {
            layout::lemma_flatten_take(lists, i as int);
            layout::lemma_flatten_split(lists, i + 1);
            assert(lists[i as int].len() == topics[i as int].partitions.len());
        }
        match total.checked_add(topics[i].partitions.len()) {
            Some(sum) => {
                total = sum;
            },
            None => {
                return None;
            },
        }
        i += 1;
    }
    proof {
        assert(lists.take(lists.len() as int) =~= lists);
    }
    Some(total)
}

/// Appends the partitions of one topic to the children of the partition lists.
fn push_partitions(partitions: &Vec<PartitionRow>, ids: &mut Vec<i32>, leaders: &mut Vec<i32>)
    ensures
        final(ids)@ == old(ids)@ + partitions@.map_values(|p: PartitionRow| p.id),
        final(leaders)@ == old(leaders)@ + partitions@.map_values(|p: PartitionRow| p.leader),
{
    let ghost ids_before = ids@;
    let ghost leaders_before = leaders@;
    let mut j: usize = 0;
    while j < partitions.len()
        invariant
            j <= partitions.len(),
            ids@ =~= ids_before + partitions@.take(j as int).map_values(|p: PartitionRow| p.id),
            leaders@ =~= leaders_before + partitions@.take(j as int).map_values(
                |p: PartitionRow| p.leader,
            ),
        decreases partitions.len() - j,
    {
        ids.push(partitions[j].id);
        leaders.push(partitions[j].leader);
        proof {
            assert(partitions@.take(j + 1) =~= partitions@.take(j as int).push(
                partitions@[j as int],
            ));
        }
        j += 1;
    }
    proof {
        assert(partitions@.take(partitions@.len() as int) =~= partitions@);
    }
}

/// Lays cluster metadata out as columns.
pub fn write_metadata<'a>(brokers: &'a [BrokerRow], topics: &'a [TopicRow]) -> (columns:
    MetadataColumns<'a>)
    requires
        layout::total_length(partition_lists(topics_view(topics@))) <= usize::MAX,
    ensures
        columns@ == metadata_columns(brokers_view(brokers@), topics_view(topics@)),
{
    let ghost broker_views = brokers_view(brokers@);
    let ghost topic_views = topics_view(topics@);
    let ghost lists = partition_lists(topic_views);

    let mut broker_entries: Vec<ListEntry> = Vec::new();
    let mut broker_ids: Vec<i32> = Vec::new();
    let mut broker_hosts: Vec<&'a str> = Vec::new();
    let mut broker_ports: Vec<i32> = Vec::new();
    let mut b: usize = 0;
    while b < brokers.len()
        invariant
            b <= brokers.len(),
            broker_views == brokers_view(brokers@),
            broker_entries.len() == b,
            broker_ids.len() == b,
            broker_hosts.len() == b,
            broker_ports.len() == b,
            forall|k: int| 0 <= k < b ==> (#[trigger] broker_entries@[k])@ == (k, 1int),
            forall|k: int| 0 <= k < b ==> #[trigger] broker_ids@[k] == broker_views[k].id,
            forall|k: int| 0 <= k < b ==> (#[trigger] broker_hosts@[k])@ == broker_views[k].host,
            forall|k: int| 0 <= k < b ==> #[trigger] broker_ports@[k] == broker_views[k].port,
        decreases brokers.len() - b,
    {
        let broker = &brokers[b];
        broker_entries.push(ListEntry { offset: b, length: 1 });
        broker_ids.push(broker.id);
        broker_hosts.push(broker.host.as_str());
        broker_ports.push(broker.port);
        b += 1;
    }

    let mut topic_names: Vec<&'a str> = Vec::new();
    let mut topic_errors: Vec<Option<&'a str>> = Vec::new();
    let mut partition_entries: Vec<ListEntry> = Vec::new();
    let mut partition_ids: Vec<i32> = Vec::new();
    let mut partition_leaders: Vec<i32> = Vec::new();
    let mut partition_offset: usize = 0;
    let mut i: usize = 0;
    proof {
        assert(lists.take(0) =~= Seq::empty());
    }
    while i < topics.len()
        invariant
            i <= topics.len(),
            topic_views == topics_view(topics@),
            lists == partition_lists(topic_views),
            layout::total_length(lists) <= usize::MAX,
            partition_offset == layout::total_length(lists.take(i as int)),
            topic_names.len() == i,
            topic_errors.len() == i,
            partition_entries.len() == i,
            forall|k: int| 0 <= k < i ==> (#[trigger] topic_names@[k])@ == topic_views[k].name,
            forall|k: int|
                0 <= k < i ==> text_view(#[trigger] topic_errors@[k]) == topic_views[k].error,
            forall|k: int|
                0 <= k < i ==> (#[trigger] partition_entries@[k])@ == layout::packed_entries(
                    lists,
                )[k],
            partition_ids@ == lists.take(i as int).flatten().map_values(|p: PartitionRow| p.id),
            partition_leaders@ == lists.take(i as int).flatten().map_values(
                |p: PartitionRow| p.leader,
            ),
        decreases topics.len() - i,
    {
        let topic = &topics[i];
        let ghost flat = lists.take(i as int).flatten();
        proof {
            layout::lemma_flatten_take(lists, i as int);
            layout::lemma_flatten_split(lists, i + 1);
            assert(lists[i as int] == topic.partitions@);
        }
        topic_names.push(topic.name.as_str());
        match &topic.error {
            Some(error) => topic_errors.push(Some(error.as_str())),
            None => topic_errors.push(None),
        }
        let length = topic.partitions.len();
        partition_entries.push(ListEntry { offset: partition_offset, length });
        partition_offset += length;
        push_partitions(&topic.partitions, &mut partition_ids, &mut partition_leaders);
        proof {
            let id = |p: PartitionRow| p.id;
            let leader = |p: PartitionRow| p.leader;
            assert((flat + lists[i as int]).map_values(id) =~= flat.map_values(id)
                + lists[i as int].map_values(id));
            assert((flat + lists[i as int]).map_values(leader) =~= flat.map_values(leader)
                + lists[i as int].map_values(leader));
        }
        i += 1;
    }
    let columns = MetadataColumns {
        broker_entries,
        broker_ids,
        broker_hosts,
        broker_ports,
        topic_entries: Vec::new(),
        topic_names,
        topic_errors,
        partition_entries,
        partition_ids,
        partition_leaders,
    };
    proof {
        assert(lists.take(lists.len() as int) =~= lists);
        assert(columns@ =~= metadata_columns(broker_views, topic_views));
    }
    columns
}

/// The children of the `brokers` column hold the brokers, and entry `i` covers broker `i` alone.
pub proof fn law_columns_hold_the_brokers(
    brokers: Seq<BrokerView>,
    topics: Seq<TopicView>,
    i: int,
)
    requires
        0 <= i < brokers.len(),
    ensures
        broker_at(metadata_columns(brokers, topics), i) == brokers[i],
        metadata_columns(brokers, topics).broker_entries[i] == (i, 1int),
{
}

/// The children of the `topics` column hold the topics: each can be read back, with its error and
/// its partitions in order.
pub proof fn law_columns_hold_the_topics(
    brokers: Seq<BrokerView>,
    topics: Seq<TopicView>,
    i: int,
)
    requires
        0 <= i < topics.len(),
    ensures
        topic_at(metadata_columns(brokers, topics), i) == topics[i],
{
    let lists = partition_lists(topics);
    let columns = metadata_columns(brokers, topics);
    layout::law_packed_entry_reads_back(lists, i);
    let entry = layout::packed_entries(lists)[i];
    let slice = layout::entry_slice(lists.flatten(), entry);
    assert forall|j: int| 0 <= j < topics[i].partitions.len() implies topic_at(
        columns,
        i,
    ).partitions[j] == topics[i].partitions[j] by {
        assert(slice[j] == lists.flatten()[entry.0 + j]);
    }
    assert(topic_at(columns, i).partitions =~= topics[i].partitions);
}

/// The broker children hold one value for each broker, each field in its own place, and there are
/// no more and no fewer. Each broker is a list of its own.
pub proof fn law_columns_hold_each_broker_field(
    brokers: Seq<BrokerView>,
    topics: Seq<TopicView>,
    i: int,
)
    ensures
        ({
            let c = metadata_columns(brokers, topics);
            &&& c.broker_ids.len() == brokers.len()
            &&& c.broker_hosts.len() == brokers.len()
            &&& c.broker_ports.len() == brokers.len()
            &&& c.broker_entries.len() == brokers.len()
            &&& 0 <= i < brokers.len() ==> {
                &&& c.broker_ids[i] == brokers[i].id
                &&& c.broker_hosts[i] == brokers[i].host
                &&& c.broker_ports[i] == brokers[i].port
                &&& c.broker_entries[i] == (i, 1int)
            }
        }),
{
}

/// The topic children hold one value for each topic, each field in its own place, and there are no
/// more and no fewer. The partitions of a topic lie in their order from the offset of its entry
/// on: the first entry starts at the beginning, each other one where the one before it ends, and
/// the partition children hold the partitions of all topics and no more.
pub proof fn law_columns_hold_each_topic_field(
    brokers: Seq<BrokerView>,
    topics: Seq<TopicView>,
    i: int,
)
    requires
        0 <= i < topics.len(),
    ensures
        ({
            let c = metadata_columns(brokers, topics);
            let entry = c.partition_entries[i];
            &&& c.topic_entries.len() == 0
            &&& c.topic_names.len() == topics.len()
            &&& c.topic_errors.len() == topics.len()
            &&& c.partition_entries.len() == topics.len()
            &&& c.topic_names[i] == topics[i].name
            &&& c.topic_errors[i] == topics[i].error
            &&& entry.1 == topics[i].partitions.len()
            &&& i == 0 ==> entry.0 == 0
            &&& i > 0 ==> entry.0 == c.partition_entries[i - 1].0 + c.partition_entries[i - 1].1
            &&& i == topics.len() - 1 ==> c.partition_ids.len() == entry.0 + entry.1
            &&& c.partition_leaders.len() == c.partition_ids.len()
            &&& 0 <= entry.0 && entry.0 + entry.1 <= c.partition_ids.len()
            &&& forall|j: int|
                0 <= j < topics[i].partitions.len() ==> {
                    &&& (#[trigger] topics[i].partitions[j]).id == c.partition_ids[entry.0 + j]
                    &&& topics[i].partitions[j].leader == c.partition_leaders[entry.0 + j]
                }
        }),
{
    let lists = partition_lists(topics);
    let c = metadata_columns(brokers, topics);
    assert(lists[i] == topics[i].partitions);
    layout::law_packed_entry_reads_back(lists, i);
    layout::law_packed_entries_partition_the_child(lists, i);
    if i > 0 {
        layout::law_packed_entries_partition_the_child(lists, i - 1);
    }
    let entry = layout::packed_entries(lists)[i];
    let slice = layout::entry_slice(lists.flatten(), entry);
    assert forall|j: int| 0 <= j < topics[i].partitions.len() implies {
        &&& (#[trigger] topics[i].partitions[j]).id == c.partition_ids[entry.0 + j]
        &&& topics[i].partitions[j].leader == c.partition_leaders[entry.0 + j]
    } by {
        assert(slice[j] == lists.flatten()[entry.0 + j]);
    }
}

/// Where there are no topics, the children of the `topics` column are empty.
pub proof fn law_no_topics_no_children(brokers: Seq<BrokerView>, topics: Seq<TopicView>)
    requires
        topics.len() == 0,
    ensures
        ({
            let c = metadata_columns(brokers, topics);
            &&& c.topic_entries.len() == 0
            &&& c.topic_names.len() == 0
            &&& c.topic_errors.len() == 0
            &&& c.partition_entries.len() == 0
            &&& c.partition_ids.len() == 0
            &&& c.partition_leaders.len() == 0
        }),
{
}

/// The number of partitions of topics is the sum of the numbers of partitions of each.
pub proof fn law_partitions_are_counted_topic_by_topic(topics: Seq<TopicView>)
    ensures
        topics.len() == 0 ==> layout::total_length(partition_lists(topics)) == 0,
        topics.len() > 0 ==> layout::total_length(partition_lists(topics)) == layout::total_length(
            partition_lists(topics.drop_last()),
        ) + topics.last().partitions.len(),
{
    let lists = partition_lists(topics);
    if topics.len() > 0 {
        layout::lemma_flatten_take(lists, topics.len() - 1);
        assert(lists.take(topics.len() as int) =~= lists);
        assert(lists.take(topics.len() - 1) =~= partition_lists(topics.drop_last()));
    }
}

/// The values of brokers hold their fields, each in its own place, broker by broker.
pub proof fn law_broker_value_is_its_fields(brokers: Seq<BrokerRow>, i: int)
    requires
        0 <= i < brokers.len(),
    ensures
        brokers_view(brokers).len() == brokers.len(),
        brokers_view(brokers)[i].id == brokers[i].id,
        brokers_view(brokers)[i].host == brokers[i].host@,
        brokers_view(brokers)[i].port == brokers[i].port,
{
}

/// The values of topics hold their fields, each in its own place, topic by topic.
pub proof fn law_topic_value_is_its_fields(topics: Seq<TopicRow>, i: int)
    requires
        0 <= i < topics.len(),
    ensures
        topics_view(topics).len() == topics.len(),
        topics_view(topics)[i].name == topics[i].name@,
        topics_view(topics)[i].error == match topics[i].error {
            Some(text) => Some(text@),
            None => None,
        },
        topics_view(topics)[i].partitions == topics[i].partitions@,
{
}

/// The value of columns holds the columns, each in its own place and value by value.
pub proof fn law_metadata_columns_value_is_the_columns(c: MetadataColumns<'_>, i: int)
    ensures
        c@.broker_ids == c.broker_ids@,
        c@.broker_ports == c.broker_ports@,
        c@.partition_ids == c.partition_ids@,
        c@.partition_leaders == c.partition_leaders@,
        c@.broker_hosts.len() == c.broker_hosts@.len(),
        0 <= i < c.broker_hosts@.len() ==> c@.broker_hosts[i] == c.broker_hosts@[i]@,
        c@.topic_names.len() == c.topic_names@.len(),
        0 <= i < c.topic_names@.len() ==> c@.topic_names[i] == c.topic_names@[i]@,
        c@.topic_errors.len() == c.topic_errors@.len(),
        0 <= i < c.topic_errors@.len() ==> c@.topic_errors[i] == match c.topic_errors@[i] {
            Some(text) => Some(text@),
            None => None,
        },
        c@.broker_entries.len() == c.broker_entries@.len(),
        0 <= i < c.broker_entries@.len() ==> c@.broker_entries[i] == (
            c.broker_entries@[i].offset as int,
            c.broker_entries@[i].length as int,
        ),
        c@.topic_entries.len() == c.topic_entries@.len(),
        0 <= i < c.topic_entries@.len() ==> c@.topic_entries[i] == (
            c.topic_entries@[i].offset as int,
            c.topic_entries@[i].length as int,
        ),
        c@.partition_entries.len() == c.partition_entries@.len(),
        0 <= i < c.partition_entries@.len() ==> c@.partition_entries[i] == (
            c.partition_entries@[i].offset as int,
            c.partition_entries@[i].length as int,
        ),
{
}

} // verus!
