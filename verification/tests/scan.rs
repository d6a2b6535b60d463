use rdkafka::topic_partition_list::{Offset, TopicPartitionList};
use tributary_rs::kafka_scan::{KafkaScan, KafkaScanBind, ScanStep, MAX_THREADS, POLL_TIMEOUT_MS};
use tributary_rs::params::{BindParameters, NamedParameter};
use tributary_rs::row::{count_headers, write_rows, Row};
use tributary_rs::scan_state::{
    find_topic, KafkaScanState, PollEvent, PolledMessage, ScanAction, ScanError, ScanOpening,
    TopicPartitions,
};

fn message(partition: i32, offset: i64) -> PollEvent {
    PollEvent::Message(PolledMessage {
        partition,
        offset,
        key: None,
        payload: Some(vec![offset as u8]),
        headers: None,
    })
}

fn topic(name: &str, partitions: &[i32]) -> TopicPartitions {
    TopicPartitions {
        name: name.to_string(),
        partitions: partitions.to_vec(),
    }
}

fn opened(marks: &[(i32, i64, i64)]) -> ScanOpening {
    let partitions: Vec<i32> = marks.iter().map(|m| m.0).collect();
    let mut opening = ScanOpening::new(&[topic("events", &partitions)], "events").unwrap();
    for &(partition, low, high) in marks {
        assert_eq!(opening.next_partition(), Some(partition));
        opening = opening.watermarks(low, high).unwrap();
    }
    assert_eq!(opening.next_partition(), None);
    opening
}

fn state(marks: &[(i32, i64, i64)]) -> KafkaScanState {
    opened(marks).finish().0
}

fn bind() -> KafkaScanBind {
    KafkaScan::bind(&BindParameters {
        positional: vec!["events".to_string()],
        named: vec![NamedParameter {
            name: "bootstrap.servers".to_string(),
            text: "localhost:9092".to_string(),
            null: false,
        }],
    })
    .unwrap()
}

#[test]
fn constants_of_the_scan() {
    assert_eq!(MAX_THREADS, 1);
    assert_eq!(POLL_TIMEOUT_MS, 250);
}

#[test]
fn topic_is_found_by_name() {
    let topics = vec![topic("a", &[0]), topic("b", &[0, 1]), topic("b", &[])];
    assert_eq!(find_topic(&topics, "b").unwrap().partitions, [0, 1]);
    let error = find_topic(&topics, "c").unwrap_err();
    assert!(matches!(error, ScanError::TopicNotFound { .. }));
    assert_eq!(error.message(), "Kafka topic not found: c");
}

#[test]
fn unknown_topic_is_not_opened() {
    let error = match ScanOpening::new(&[topic("a", &[0])], "events") {
        Ok(_) => panic!("opened"),
        Err(error) => error,
    };
    assert_eq!(error.message(), "Kafka topic not found: events");
}

#[test]
fn non_empty_partitions_are_assigned_at_their_low_watermark() {
    let (state, assignment) = opened(&[(0, 3, 7), (1, 5, 5), (2, 0, 1)]).finish();
    let list = assignment.unwrap();
    let elements: Vec<(String, i32, Offset)> = list
        .elements()
        .iter()
        .map(|e| (e.topic().to_string(), e.partition(), e.offset()))
        .collect();
    assert_eq!(
        elements,
        [
            ("events".to_string(), 0, Offset::Offset(3)),
            ("events".to_string(), 2, Offset::Offset(0)),
        ]
    );
    assert_eq!(state.next_action(0, 10), ScanAction::Poll);
}

#[test]
fn partition_listed_twice_keeps_one_offset() {
    let list = opened(&[(0, 3, 7), (0, 4, 9)]).finish().1.unwrap();
    let offsets: Vec<Offset> = list.elements().iter().map(|e| e.offset()).collect();
    assert_eq!(offsets, [Offset::Offset(4), Offset::Invalid]);
}

#[test]
fn topic_without_records_is_not_assigned() {
    for marks in [&[(0, 5, 5), (1, 0, 0)][..], &[][..]] {
        let (state, assignment) = opened(marks).finish();
        assert!(assignment.is_none());
        assert_eq!(state.next_action(0, 10), ScanAction::Emit);
    }
}

#[test]
fn negative_low_watermark_fails() {
    let opening = || ScanOpening::new(&[topic("events", &[4])], "events").unwrap();
    let error = match opening().watermarks(-5, 3) {
        Ok(_) => panic!("accepted"),
        Err(error) => error,
    };
    assert!(matches!(
        error,
        ScanError::InvalidOffset {
            partition: 4,
            offset: -5
        }
    ));
    let refused = TopicPartitionList::new()
        .add_partition_offset("events", 4, Offset::Offset(-5))
        .unwrap_err();
    assert_eq!(error.message(), refused.to_string());
    assert!(opening().watermarks(-5, -5).is_ok());
}

#[test]
fn records_at_or_above_the_high_watermark_end_a_partition() {
    let mut state = state(&[(0, 0, 2), (1, 0, 1)]);
    let mut rows: Vec<Row> = Vec::new();
    for (event, expected) in [
        (PollEvent::Empty, ScanAction::Poll),
        (message(0, 0), ScanAction::Poll),
        (message(7, 0), ScanAction::Poll),
        (message(0, 1), ScanAction::Poll),
        (message(0, 2), ScanAction::Poll),
        (message(1, 0), ScanAction::Poll),
        (PollEvent::PartitionEof(1), ScanAction::Emit),
    ] {
        assert_eq!(
            state.next_rows("events", 100, &mut rows, event).unwrap(),
            expected
        );
    }
    let found: Vec<(&str, i32, i64)> = rows
        .iter()
        .map(|r| (r.topic.as_str(), r.partition, r.offset))
        .collect();
    assert_eq!(
        found,
        [("events", 0, 0), ("events", 0, 1), ("events", 1, 0)]
    );
    assert_eq!(state.next_action(0, 100), ScanAction::Emit);
}

#[test]
fn full_batch_is_emitted() {
    let mut state = state(&[(0, 0, 10)]);
    let mut rows: Vec<Row> = Vec::new();
    assert_eq!(
        state
            .next_rows("events", 2, &mut rows, message(0, 0))
            .unwrap(),
        ScanAction::Poll
    );
    assert_eq!(
        state
            .next_rows("events", 2, &mut rows, message(0, 1))
            .unwrap(),
        ScanAction::Emit
    );
    assert_eq!(rows.len(), 2);
    assert_eq!(state.next_action(0, 2), ScanAction::Poll);
}

#[test]
fn batches_return_what_one_batch_returns() {
    let events = || {
        vec![
            message(0, 0),
            message(1, 0),
            message(0, 1),
            PollEvent::PartitionEof(0),
            message(1, 1),
            PollEvent::PartitionEof(1),
        ]
    };
    let collect = |capacity: usize| -> Vec<(i32, i64)> {
        let mut state = state(&[(0, 0, 2), (1, 0, 2)]);
        let mut pending = events().into_iter();
        let mut all: Vec<(i32, i64)> = Vec::new();
        loop {
            let mut rows: Vec<Row> = Vec::new();
            while state.next_action(rows.len(), capacity) == ScanAction::Poll {
                let event = pending.next().unwrap();
                state
                    .next_rows("events", capacity, &mut rows, event)
                    .unwrap();
            }
            if rows.is_empty() {
                return all;
            }
            assert!(rows.len() <= capacity);
            all.extend(rows.iter().map(|r| (r.partition, r.offset)));
        }
    };
    let expected = vec![(0, 0), (1, 0), (0, 1), (1, 1)];
    assert_eq!(collect(100), expected);
    assert_eq!(collect(1), expected);
    assert_eq!(collect(3), expected);
}

#[test]
fn end_of_a_foreign_partition_counts_as_finished() {
    let mut state = state(&[(0, 0, 2)]);
    let mut rows: Vec<Row> = Vec::new();
    assert_eq!(
        state
            .next_rows("events", 10, &mut rows, PollEvent::PartitionEof(9))
            .unwrap(),
        ScanAction::Emit
    );
    assert!(rows.is_empty());
}

#[test]
fn client_failure_fails_the_scan() {
    let mut state = state(&[(0, 0, 2)]);
    let mut rows: Vec<Row> = Vec::new();
    let event = PollEvent::Failed {
        detail: "broken".to_string(),
    };
    let error = state
        .next_rows("events", 10, &mut rows, event)
        .unwrap_err();
    assert!(matches!(error, ScanError::Consume { .. }));
    assert_eq!(error.message(), "Kafka consume error: broken");
    assert_eq!(state.next_action(0, 10), ScanAction::Poll);
}

#[test]
fn scan_opens_polls_and_emits() {
    let bind = bind();
    let mut init = KafkaScan::init();
    assert_eq!(KafkaScan::func(&init, 0, 10), ScanStep::Open);
    init.open(state(&[(0, 0, 1)]));
    assert_eq!(KafkaScan::func(&init, 0, 10), ScanStep::Poll);
    let mut rows: Vec<Row> = Vec::new();
    assert_eq!(
        init.polled(&bind, 10, &mut rows, message(0, 0)).unwrap(),
        ScanStep::Poll
    );
    assert_eq!(
        init.polled(&bind, 10, &mut rows, PollEvent::PartitionEof(0))
            .unwrap(),
        ScanStep::Emit
    );
    let columns = KafkaScan::output(&rows).unwrap();
    assert_eq!(columns.topics, ["events"]);
    assert_eq!(columns.offsets, [0]);
    assert_eq!(KafkaScan::func(&init, 0, 10), ScanStep::Emit);
    assert!(KafkaScan::output(&[]).is_none());
}

#[test]
fn headers_keep_order_duplicates_and_nulls() {
    let mut state = state(&[(0, 0, 9)]);
    let mut rows: Vec<Row> = Vec::new();
    let event = |offset: i64, headers: Option<Vec<(String, Option<Vec<u8>>)>>| {
        PollEvent::Message(PolledMessage {
            partition: 0,
            offset,
            key: Some(vec![0, 255]),
            payload: None,
            headers,
        })
    };
    let list = vec![
        ("b".to_string(), Some(vec![1])),
        ("a".to_string(), None),
        ("b".to_string(), Some(vec![])),
    ];
    state
        .next_rows("events", 9, &mut rows, event(0, Some(list)))
        .unwrap();
    state
        .next_rows("events", 9, &mut rows, event(1, None))
        .unwrap();
    state
        .next_rows(
            "events",
            9,
            &mut rows,
            event(2, Some(vec![("c".to_string(), Some(vec![2, 3]))])),
        )
        .unwrap();

    assert_eq!(count_headers(&rows), Some(4));
    let columns = write_rows(&rows);
    assert_eq!(columns.topics, ["events", "events", "events"]);
    assert_eq!(columns.partitions, [0, 0, 0]);
    assert_eq!(columns.offsets, [0, 1, 2]);
    assert_eq!(columns.keys[0], Some(&[0u8, 255][..]));
    assert_eq!(columns.messages, [None, None, None]);
    let entries: Vec<(usize, usize)> = columns
        .header_entries
        .iter()
        .map(|e| (e.offset, e.length))
        .collect();
    assert_eq!(entries, [(0, 3), (3, 0), (3, 1)]);
    assert_eq!(columns.header_keys, ["b", "a", "b", "c"]);
    assert_eq!(
        columns.header_values,
        [Some(&[1u8][..]), None, Some(&[][..]), Some(&[2, 3][..])]
    );
}
