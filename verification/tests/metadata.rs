use tributary_rs::kafka_metadata::{KafkaMetadata, MetadataStep};
use tributary_rs::metadata_row::{
    count_partitions, write_metadata, BrokerRow, PartitionRow, TopicRow,
};

fn brokers() -> Vec<BrokerRow> {
    vec![
        BrokerRow {
            id: 1,
            host: "one".to_string(),
            port: 9092,
        },
        BrokerRow {
            id: 2,
            host: "two".to_string(),
            port: 9093,
        },
    ]
}

fn topics() -> Vec<TopicRow> {
    vec![
        TopicRow {
            name: "a".to_string(),
            error: None,
            partitions: vec![
                PartitionRow { id: 0, leader: 1 },
                PartitionRow { id: 1, leader: 2 },
            ],
        },
        TopicRow {
            name: "b".to_string(),
            error: Some("broken".to_string()),
            partitions: vec![],
        },
        TopicRow {
            name: "c".to_string(),
            error: None,
            partitions: vec![PartitionRow { id: 0, leader: -1 }],
        },
    ]
}

#[test]
fn metadata_as_columns() {
    let (brokers, topics) = (brokers(), topics());
    assert_eq!(count_partitions(&topics), Some(3));
    let columns = write_metadata(&brokers, &topics);
    let pairs = |entries: &[tributary_rs::layout::ListEntry]| -> Vec<(usize, usize)> {
        entries.iter().map(|e| (e.offset, e.length)).collect()
    };
    assert_eq!(pairs(&columns.broker_entries), [(0, 1), (1, 1)]);
    assert_eq!(columns.broker_ids, [1, 2]);
    assert_eq!(columns.broker_hosts, ["one", "two"]);
    assert_eq!(columns.broker_ports, [9092, 9093]);
    assert!(columns.topic_entries.is_empty());
    assert_eq!(columns.topic_names, ["a", "b", "c"]);
    assert_eq!(columns.topic_errors, [None, Some("broken"), None]);
    assert_eq!(pairs(&columns.partition_entries), [(0, 2), (2, 0), (2, 1)]);
    assert_eq!(columns.partition_ids, [0, 1, 0]);
    assert_eq!(columns.partition_leaders, [1, 2, -1]);
}

#[test]
fn metadata_of_an_empty_cluster() {
    let columns = write_metadata(&[], &[]);
    assert!(columns.broker_entries.is_empty());
    assert!(columns.partition_ids.is_empty());
    assert_eq!(count_partitions(&[]), Some(0));
}

#[test]
fn metadata_is_returned_once() {
    let mut init = KafkaMetadata::init();
    assert_eq!(KafkaMetadata::func(&init), MetadataStep::Fetch);
    assert!(init.output().is_none());
    assert!(init.topics().is_none());
    init.fetched(brokers(), topics());
    assert_eq!(KafkaMetadata::func(&init), MetadataStep::Emit);
    assert_eq!(init.topics().unwrap().len(), 3);
    assert_eq!(init.output().unwrap().broker_ids, [1, 2]);
    init.emitted();
    for _ in 0..3 {
        assert_eq!(KafkaMetadata::func(&init), MetadataStep::Done);
        assert!(init.output().is_none());
        init.emitted();
    }
}
