use tributary_rs::config::tributary_config_keys;
use tributary_rs::kafka_metadata::KafkaMetadata;
use tributary_rs::kafka_produce::KafkaProduce;
use tributary_rs::kafka_scan::KafkaScan;
use tributary_rs::params::{BindError, BindParameters, NamedParameter, TableFunction};
use tributary_rs::schema::{Column, ColumnType};
use tributary_rs::text_map::StringMap;

fn call(positional: &[&str], named: &[(&str, &str)]) -> BindParameters {
    BindParameters {
        positional: positional.iter().map(|p| p.to_string()).collect(),
        named: named
            .iter()
            .map(|(name, text)| NamedParameter {
                name: name.to_string(),
                text: text.to_string(),
                null: false,
            })
            .collect(),
    }
}

fn type_text(column_type: &ColumnType) -> String {
    match column_type {
        ColumnType::Varchar => "VARCHAR".to_string(),
        ColumnType::Integer => "INTEGER".to_string(),
        ColumnType::Bigint => "BIGINT".to_string(),
        ColumnType::Blob => "BLOB".to_string(),
        ColumnType::List(item) => format!("LIST<{}>", type_text(item)),
        ColumnType::Struct(fields) => format!("STRUCT({})", columns_text(fields)),
    }
}

fn columns_text(columns: &[Column]) -> String {
    let texts: Vec<String> = columns
        .iter()
        .map(|c| format!("{} {}", c.name, type_text(&c.column_type)))
        .collect();
    texts.join(", ")
}

#[test]
fn function_names() {
    assert_eq!(TableFunction::ScanTopic.name(), "tributary_scan_topic");
    assert_eq!(TableFunction::Metadata.name(), "tributary_metadata");
    assert_eq!(TableFunction::Produce.name(), "tributary_produce");
}

#[test]
fn scan_accepts_topic_and_settings() {
    let bind = KafkaScan::bind(&call(
        &["events"],
        &[
            ("bootstrap.servers", "localhost:9092"),
            ("security.protocol", "SSL"),
            ("no.such.setting", "x"),
        ],
    ))
    .unwrap();
    assert_eq!(bind.topic(), "events");
    assert_eq!(bind.config().len(), 2);
    assert_eq!(
        bind.config().get("bootstrap.servers"),
        Some(&"localhost:9092".to_string())
    );
    assert_eq!(
        bind.config().get("security.protocol"),
        Some(&"SSL".to_string())
    );
    assert!(!bind.config().contains_key("no.such.setting"));
}

#[test]
fn scan_refuses_other_argument_counts() {
    let servers = [("bootstrap.servers", "localhost:9092")];
    for positional in [&[][..], &["events", "localhost:9092"][..]] {
        let error = KafkaScan::bind(&call(positional, &servers)).unwrap_err();
        assert!(matches!(
            error,
            BindError::WrongArguments {
                function: TableFunction::ScanTopic
            }
        ));
        assert_eq!(
            error.message(),
            "tributary_scan_topic requires one positional argument: topic; Kafka settings use named parameters"
        );
    }
}

#[test]
fn scan_refuses_an_empty_topic() {
    let error = KafkaScan::bind(&call(&[""], &[])).unwrap_err();
    assert!(matches!(error, BindError::EmptyTopic));
    assert_eq!(error.message(), "topic must not be empty");
}

#[test]
fn servers_must_be_named() {
    let error = KafkaScan::bind(&call(&["events"], &[("group.id", "g")])).unwrap_err();
    assert!(matches!(
        error,
        BindError::MissingBootstrapServers {
            function: TableFunction::ScanTopic
        }
    ));
    assert_eq!(
        error.message(),
        "tributary_scan_topic requires named parameter \"bootstrap.servers\""
    );
    assert_eq!(
        KafkaMetadata::bind(&call(&[], &[])).unwrap_err().message(),
        "tributary_metadata requires named parameter \"bootstrap.servers\""
    );
    assert_eq!(
        KafkaProduce::bind(&call(&["t", "m"], &[]))
            .unwrap_err()
            .message(),
        "tributary_produce requires named parameter \"bootstrap.servers\""
    );
}

#[test]
fn servers_must_not_be_empty() {
    let empty = [("bootstrap.servers", "")];
    for message in [
        KafkaScan::bind(&call(&["events"], &empty))
            .unwrap_err()
            .message(),
        KafkaMetadata::bind(&call(&[], &empty))
            .unwrap_err()
            .message(),
        KafkaProduce::bind(&call(&["t", "m"], &empty))
            .unwrap_err()
            .message(),
    ] {
        assert_eq!(message, "bootstrap.servers must not be empty");
    }
}

#[test]
fn first_of_two_arguments_of_a_name_counts() {
    let bind = KafkaScan::bind(&call(
        &["events"],
        &[("bootstrap.servers", "a:1"), ("bootstrap.servers", "b:2")],
    ))
    .unwrap();
    assert_eq!(
        bind.config().get("bootstrap.servers"),
        Some(&"a:1".to_string())
    );
}

#[test]
fn metadata_accepts_settings_only() {
    let servers = [("bootstrap.servers", "localhost:9092")];
    let bind = KafkaMetadata::bind(&call(&[], &servers)).unwrap();
    assert_eq!(
        bind.config().get("bootstrap.servers"),
        Some(&"localhost:9092".to_string())
    );
    assert_eq!(
        KafkaMetadata::bind(&call(&["events"], &servers))
            .unwrap_err()
            .message(),
        "tributary_metadata does not accept positional arguments; Kafka settings use named parameters"
    );
}

#[test]
fn produce_refuses_other_argument_counts() {
    let servers = [("bootstrap.servers", "localhost:9092")];
    for positional in [&[][..], &["t"][..], &["t", "m", "x"][..]] {
        assert_eq!(
            KafkaProduce::bind(&call(positional, &servers)).unwrap_err().message(),
            "tributary_produce requires two positional arguments: topic and message; Kafka settings, key, and headers use named parameters"
        );
    }
    assert_eq!(
        KafkaProduce::bind(&call(&["", "m"], &servers))
            .unwrap_err()
            .message(),
        "topic must not be empty"
    );
}

#[test]
fn produce_reads_headers_as_json() {
    let bind = KafkaProduce::bind(&call(
        &["t", "m"],
        &[
            ("bootstrap.servers", "localhost:9092"),
            (
                "headers",
                "{\"trace\": \"abc\", \"unit\": \"\\u00b5\", \"trace\": \"def\"}",
            ),
        ],
    ))
    .unwrap();
    let headers = bind.headers().unwrap();
    assert_eq!(headers.len(), 2);
    assert_eq!(headers.get("trace"), Some(&"def".to_string()));
    assert_eq!(headers.get("unit"), Some(&"\u{b5}".to_string()));
}

#[test]
fn produce_refuses_other_headers() {
    for (headers, detail) in [
        (
            "{\"a\": 1}",
            "invalid type: integer `1`, expected a string at line 1 column 7",
        ),
        (
            "[]",
            "invalid type: sequence, expected a map at line 1 column 0",
        ),
        ("", "EOF while parsing a value at line 1 column 0"),
    ] {
        // The headers are looked at before the settings are.
        let error = KafkaProduce::bind(&call(&["t", "m"], &[("headers", headers)])).unwrap_err();
        let message = error.message();
        assert!(matches!(error, BindError::InvalidHeaders { .. }));
        assert_eq!(
            message,
            format!("headers must be a JSON object with string values: {detail}")
        );
    }
}

#[test]
fn null_headers_are_no_headers() {
    let mut arguments = call(
        &["t", "m"],
        &[("bootstrap.servers", "localhost:9092"), ("headers", "NULL")],
    );
    arguments.named[1].null = true;
    assert!(KafkaProduce::bind(&arguments).unwrap().headers().is_none());
    arguments.named[1].null = false;
    assert!(KafkaProduce::bind(&arguments).is_err());
}

#[test]
fn parsed_headers_decide() {
    let arguments = call(&["t", "m"], &[("bootstrap.servers", "localhost:9092")]);
    assert!(KafkaProduce::bind_with_headers(&arguments, None)
        .unwrap()
        .headers()
        .is_none());
    let map = StringMap::new().insert("a".to_string(), "b".to_string());
    let bind = KafkaProduce::bind_with_headers(&arguments, Some(Ok(map))).unwrap();
    assert_eq!(
        bind.headers().unwrap().get("a"),
        Some(&"b".to_string())
    );
    assert_eq!(
        KafkaProduce::bind_with_headers(&arguments, Some(Err("bad".to_string())))
            .unwrap_err()
            .message(),
        "headers must be a JSON object with string values: bad"
    );
    // The topic is looked at before the headers are.
    assert_eq!(
        KafkaProduce::bind_with_headers(&call(&["", "m"], &[]), Some(Err("bad".to_string())))
            .unwrap_err()
            .message(),
        "topic must not be empty"
    );
}

#[test]
fn result_columns_of_the_functions() {
    assert_eq!(
        columns_text(&KafkaScan::result_columns()),
        "topic VARCHAR, partition INTEGER, offset BIGINT, key BLOB, message BLOB, \
         headers LIST<STRUCT(key VARCHAR, value BLOB)>"
    );
    assert_eq!(
        columns_text(&KafkaMetadata::result_columns()),
        "brokers LIST<STRUCT(id INTEGER, host VARCHAR, port INTEGER)>, \
         topics LIST<STRUCT(name VARCHAR, error VARCHAR, \
         partitions LIST<STRUCT(id INTEGER, leader INTEGER)>)>"
    );
    assert_eq!(
        columns_text(&KafkaProduce::result_columns()),
        "topic VARCHAR, partition INTEGER, offset BIGINT"
    );
}

#[test]
fn parameters_of_the_functions() {
    assert_eq!(KafkaScan::parameters().len(), 1);
    assert_eq!(KafkaMetadata::parameters().len(), 0);
    assert_eq!(KafkaProduce::parameters().len(), 2);
    let keys = tributary_config_keys();
    assert_eq!(keys.len(), 46);
    assert_eq!(keys[0], "bootstrap.servers");
    assert_eq!(keys[45], "isolation.level");
    for named in [
        KafkaScan::named_parameters(),
        KafkaMetadata::named_parameters(),
    ] {
        let names: Vec<&str> = named.iter().map(|c| c.name.as_str()).collect();
        assert_eq!(names, keys);
        assert!(named
            .iter()
            .all(|c| matches!(c.column_type, ColumnType::Varchar)));
    }
    let named = KafkaProduce::named_parameters();
    assert_eq!(named.len(), 48);
    assert_eq!(named[0].name, "key");
    assert_eq!(named[1].name, "headers");
    assert_eq!(named[2].name, "bootstrap.servers");
}

#[test]
fn declared_settings_are_accepted() {
    let keys = tributary_config_keys();
    for key in [
        "bootstrap.servers",
        "security.protocol",
        "sasl.mechanism",
        "sasl.username",
        "sasl.password",
        "ssl.ca.location",
        "ssl.certificate.location",
        "ssl.key.location",
        "ssl.key.password",
        "group.id",
        "client.id",
        "transactional.id",
        "schema.registry.url",
        "schema.registry.basic.auth.user.info",
        "debug",
        "sasl.oauthbearer.client.id",
        "sasl.oauthbearer.client.secret",
        "sasl.oauthbearer.method",
        "sasl.oauthbearer.token.endpoint.url",
    ] {
        assert!(keys.contains(&key));
    }
}
