//! The parts of the `rdkafka` client that the library fills in memory before a client exists:
//! client settings, partition assignments and record headers.
//!
//! Everything in this file is trusted: the contracts say what `rdkafka` 0.39 and the librdkafka
//! that it builds do, and no proof stands behind them.
use rdkafka::config::ClientConfig;
use rdkafka::error::KafkaError;
use rdkafka::message::{Header, OwnedHeaders};
use rdkafka::topic_partition_list::{Offset, TopicPartitionList};
use vstd::prelude::*;

verus! {

/// The number of elements up to which librdkafka's lists grow without overflowing their `int`
/// sizes: a partition list doubles and a header list triples, starting from five.
pub const MAX_NATIVE_ITEMS: usize = 0x4000_0000;

/// A map from texts to texts.
pub type TextMap = Map<Seq<char>, Seq<char>>;

/// A topic, a partition of it, and the offset to read it from, where one is set.
pub type AssignedPartition = (Seq<char>, i32, Option<i64>);

/// A header's name and its value, `None` being the null value.
pub type HeaderText = (Seq<char>, Option<Seq<u8>>);

/// `rdkafka`'s client configuration: the settings a consumer or producer is created from.
#[verifier::external_type_specification]
#[verifier::external_body]
pub struct ExClientConfig(ClientConfig);

/// `rdkafka`'s list of topic partitions with the offsets at which to read them.
#[verifier::external_type_specification]
#[verifier::external_body]
pub struct ExTopicPartitionList(TopicPartitionList);

/// `rdkafka`'s list of headers that travel with a produced record.
#[verifier::external_type_specification]
#[verifier::external_body]
pub struct ExOwnedHeaders(OwnedHeaders);

/// `rdkafka`'s error type.
#[verifier::external_type_specification]
#[verifier::external_body]
pub struct ExKafkaError(KafkaError);

/// What a `ClientConfig` holds: the value set last for each key.
pub uninterp spec fn client_settings(config: ClientConfig) -> TextMap;

/// What a `TopicPartitionList` holds, in order: topic, partition, and the offset where one was
/// set (librdkafka's "invalid" offset is `None`).
pub uninterp spec fn partition_list(list: TopicPartitionList) -> Seq<AssignedPartition>;

/// What an `OwnedHeaders` holds, in order: name and value, a null value being `None`.
pub uninterp spec fn header_list(headers: OwnedHeaders) -> Seq<HeaderText>;

/// Calls `ClientConfig::new`, which returns a configuration without settings.
#[verifier::external_body]
pub(crate) fn new_client_config() -> (config: ClientConfig)
    ensures
        client_settings(config) == TextMap::empty(),
{
    ClientConfig::new()
}

/// Calls `ClientConfig::set`, which stores the value under the key, over an earlier value if
/// there is one, and leaves the other settings alone.
#[verifier::external_body]
pub(crate) fn set_client_setting(config: &mut ClientConfig, key: &str, value: &str)
    ensures
        client_settings(*final(config)) == client_settings(*old(config)).insert(key@, value@),
{
    config.set(key, value);
}

/// Calls `TopicPartitionList::new`, which returns an empty list.
#[verifier::external_body]
pub(crate) fn new_partition_list() -> (list: TopicPartitionList)
    ensures
        partition_list(list) == Seq::<AssignedPartition>::empty(),
{
    TopicPartitionList::new()
}

/// The index of the first element of `list` for this topic and partition, or the list's length.
pub open spec fn first_index_of(
    list: Seq<AssignedPartition>,
    topic: Seq<char>,
    partition: i32,
) -> int
    decreases list.len(),
{
    if list.len() == 0 {
        0
    } else if list[0].0 == topic && list[0].1 == partition {
        0
    } else {
        1 + first_index_of(list.drop_first(), topic, partition)
    }
}

/// The index is within the list exactly where the topic and partition occur in it, and none
/// before it is theirs.
pub proof fn lemma_first_index_of(list: Seq<AssignedPartition>, topic: Seq<char>, partition: i32)
    ensures
        0 <= first_index_of(list, topic, partition) <= list.len(),
        first_index_of(list, topic, partition) < list.len() ==> {
            let found = list[first_index_of(list, topic, partition)];
            found.0 == topic && found.1 == partition
        },
        forall|i: int|
            0 <= i < first_index_of(list, topic, partition) ==> !((#[trigger] list[i]).0 == topic
                && list[i].1 == partition),
    decreases list.len(),
{
    if list.len() > 0 && !(list[0].0 == topic && list[0].1 == partition) {
        let rest = list.drop_first();
        lemma_first_index_of(rest, topic, partition);
        assert forall|i: int| 0 <= i < first_index_of(list, topic, partition) implies !((
        #[trigger] list[i]).0 == topic && list[i].1 == partition) by {
            if i > 0 {
                assert(rest[i - 1] == list[i]);
            }
        }
    }
}

/// `list` after `add_partition_offset`: an element without an offset is appended, then the offset
/// is set on the first element for the same topic and partition, unless the offset is negative.
pub open spec fn with_partition_offset(
    list: Seq<AssignedPartition>,
    topic: Seq<char>,
    partition: i32,
    offset: i64,
) -> Seq<AssignedPartition> {
    let added = list.push((topic, partition, None));
    if offset >= 0 {
        added.update(first_index_of(added, topic, partition), (topic, partition, Some(offset)))
    } else {
        added
    }
}

/// Calls `TopicPartitionList::add_partition_offset` with `Offset::Offset(offset)`. The call
/// appends an element and then sets the offset on the first element for that topic and
/// partition; a negative offset is refused after the element was appended. A topic with a NUL
/// character makes the call panic.
#[verifier::external_body]
pub(crate) fn add_partition_offset(
    list: &mut TopicPartitionList,
    topic: &str,
    partition: i32,
    offset: i64,
) -> (r: Result<(), KafkaError>)
    requires
        !topic@.contains('\0'),
        partition_list(*old(list)).len() < MAX_NATIVE_ITEMS,
    ensures
        r is Ok <==> offset >= 0,
        partition_list(*final(list)) == with_partition_offset(
            partition_list(*old(list)),
            topic@,
            partition,
            offset,
        ),
{
    list.add_partition_offset(topic, partition, Offset::Offset(offset))
}

/// Calls `OwnedHeaders::new`, which returns an empty list.
#[verifier::external_body]
pub(crate) fn new_headers() -> (headers: OwnedHeaders)
    ensures
        header_list(headers) == Seq::<HeaderText>::empty(),
{
    OwnedHeaders::new()
}

/// Calls `OwnedHeaders::insert` with a value, which appends the header, whether or not its name
/// occurs already.
#[verifier::external_body]
pub(crate) fn insert_header(headers: OwnedHeaders, name: &str, value: &[u8]) -> (r: OwnedHeaders)
    requires
        header_list(headers).len() < MAX_NATIVE_ITEMS,
    ensures
        header_list(r) == header_list(headers).push((name@, Some(value@))),
{
    headers.insert(Header { key: name, value: Some(value) })
}

} // verus!
