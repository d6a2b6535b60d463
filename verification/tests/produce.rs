use rdkafka::message::Headers;
use tributary_rs::kafka_produce::{
    DeliveryState, KafkaProduce, ProduceBind, ProduceError, ProduceStep, SendEvent,
};
use tributary_rs::params::{BindParameters, NamedParameter};

fn bind(named: &[(&str, &str)]) -> ProduceBind {
    let mut all = vec![("bootstrap.servers", "localhost:9092")];
    all.extend_from_slice(named);
    KafkaProduce::bind(&BindParameters {
        positional: vec!["events".to_string(), "hello".to_string()],
        named: all
            .iter()
            .map(|(name, text)| NamedParameter {
                name: name.to_string(),
                text: text.to_string(),
                null: false,
            })
            .collect(),
    })
    .unwrap()
}

fn delivered() -> SendEvent {
    SendEvent::Flushed {
        report: Some(DeliveryState::from_report(Ok((3, 42)))),
    }
}

#[test]
fn record_without_key_and_headers() {
    let bind = bind(&[]);
    let record = bind.record();
    assert_eq!(bind.topic(), "events");
    assert_eq!(bind.config().len(), 1);
    assert_eq!(record.topic, "events");
    assert_eq!(record.payload, "hello");
    assert_eq!(record.key, None);
    assert!(record.headers.is_none());
}

#[test]
fn record_with_key_and_headers() {
    let bind = bind(&[
        ("key", "k"),
        ("headers", "{\"unit\": \"\\u00b5\", \"empty\": \"\"}"),
    ]);
    let record = bind.record();
    assert_eq!(record.key, Some("k"));
    let headers = record.headers.unwrap();
    assert_eq!(headers.count(), 2);
    let mut found: Vec<(String, Option<Vec<u8>>)> = headers
        .iter()
        .map(|h| (h.key.to_string(), h.value.map(|v| v.to_vec())))
        .collect();
    found.sort();
    assert_eq!(
        found,
        [
            ("empty".to_string(), Some(vec![])),
            ("unit".to_string(), Some(vec![0xc2, 0xb5])),
        ]
    );
}

#[test]
fn record_with_an_empty_header_object() {
    let bind = bind(&[("headers", "{}")]);
    assert_eq!(bind.record().headers.unwrap().count(), 0);
}

#[test]
fn stored_message_is_returned_once() {
    let bind = bind(&[]);
    let mut init = KafkaProduce::init();
    assert_eq!(KafkaProduce::func(&init), ProduceStep::Send);
    init.sent(delivered()).unwrap();
    assert_eq!(KafkaProduce::func(&init), ProduceStep::Emit);
    let row = init.emit(&bind).unwrap().unwrap();
    assert_eq!((row.topic, row.partition, row.offset), ("events", 3, 42));
    for _ in 0..3 {
        assert_eq!(KafkaProduce::func(&init), ProduceStep::Emit);
        assert!(init.emit(&bind).unwrap().is_none());
    }
}

#[test]
fn failed_delivery_is_reported_once() {
    let bind = bind(&[]);
    let mut init = KafkaProduce::init();
    init.sent(SendEvent::Flushed {
        report: Some(DeliveryState::from_report(Err("refused".to_string()))),
    })
    .unwrap();
    let error = init.emit(&bind).unwrap_err();
    assert!(matches!(error, ProduceError::Delivery { .. }));
    assert_eq!(error.message(), "Kafka message delivery failed: refused");
    assert_eq!(KafkaProduce::func(&init), ProduceStep::Emit);
    assert!(init.emit(&bind).unwrap().is_none());
}

#[test]
fn failed_attempt_is_made_again() {
    let bind = bind(&[]);
    let mut init = KafkaProduce::init();
    let error = init
        .sent(SendEvent::Rejected {
            detail: "queue full".to_string(),
        })
        .unwrap_err();
    assert!(matches!(error, ProduceError::Enqueue { .. }));
    assert_eq!(
        error.message(),
        "failed to enqueue Kafka message: queue full"
    );
    assert_eq!(KafkaProduce::func(&init), ProduceStep::Send);
    let error = init.sent(SendEvent::Flushed { report: None }).unwrap_err();
    assert!(matches!(error, ProduceError::NoReport));
    assert_eq!(
        error.message(),
        "Kafka producer completed without a delivery report"
    );
    assert_eq!(KafkaProduce::func(&init), ProduceStep::Send);
    assert!(init.emit(&bind).unwrap().is_none());
    init.sent(delivered()).unwrap();
    assert!(init.emit(&bind).unwrap().is_some());
}
