//! The Kafka settings that the table functions accept as named parameters, and the client
//! configurations that they make of them.
use crate::kafka;
use crate::params;
use crate::params::{BindError, BindParameters, TableFunction};
use crate::text_map;
use crate::text_map::{starts_with, StringMap};
use rdkafka::config::ClientConfig;
use vstd::prelude::*;

verus! {

/// How long the functions wait for the cluster to answer, in seconds.
pub const KAFKA_TIMEOUT_SECONDS: u64 = 10;

/// The Kafka and librdkafka settings that every table function takes as named parameters.
pub open spec fn config_keys() -> Seq<Seq<char>> {
    seq![
        "bootstrap.servers"@,
        "security.protocol"@,
        "sasl.mechanism"@,
        "sasl.username"@,
        "sasl.password"@,
        "ssl.ca.location"@,
        "ssl.certificate.location"@,
        "ssl.key.location"@,
        "ssl.key.password"@,
        "group.id"@,
        "client.id"@,
        "transactional.id"@,
        "schema.registry.url"@,
        "schema.registry.basic.auth.user.info"@,
        "debug"@,
        "sasl.oauthbearer.client.id"@,
        "sasl.oauthbearer.client.secret"@,
        "sasl.oauthbearer.method"@,
        "sasl.oauthbearer.token.endpoint.url"@,
        "auto.offset.reset"@,
        "enable.auto.commit"@,
        "enable.auto.offset.store"@,
        "enable.partition.eof"@,
        "fetch.min.bytes"@,
        "fetch.wait.max.ms"@,
        "fetch.max.bytes"@,
        "max.partition.fetch.bytes"@,
        "max.poll.interval.ms"@,
        "session.timeout.ms"@,
        "heartbeat.interval.ms"@,
        "socket.timeout.ms"@,
        "socket.connection.setup.timeout.ms"@,
        "socket.keepalive.enable"@,
        "connections.max.idle.ms"@,
        "receive.message.max.bytes"@,
        "queued.min.messages"@,
        "queued.max.messages.kbytes"@,
        "fetch.error.backoff.ms"@,
        "retry.backoff.ms"@,
        "retry.backoff.max.ms"@,
        "reconnect.backoff.ms"@,
        "reconnect.backoff.max.ms"@,
        "allow.auto.create.topics"@,
        "partition.assignment.strategy"@,
        "check.crcs"@,
        "isolation.level"@,
    ]
}

/// The Kafka and librdkafka settings that every table function takes as named parameters.
pub fn tributary_config_keys() -> (keys: Vec<&'static str>)
    ensures
        keys@.map_values(|k: &str| k@) == config_keys(),
{
    let keys: Vec<&'static str> = vec![
        "bootstrap.servers",
        "security.protocol",
        "sasl.mechanism",
        "sasl.username",
        "sasl.password",
        "ssl.ca.location",
        "ssl.certificate.location",
        "ssl.key.location",
        "ssl.key.password",
        "group.id",
        "client.id",
        "transactional.id",
        "schema.registry.url",
        "schema.registry.basic.auth.user.info",
        "debug",
        "sasl.oauthbearer.client.id",
        "sasl.oauthbearer.client.secret",
        "sasl.oauthbearer.method",
        "sasl.oauthbearer.token.endpoint.url",
        "auto.offset.reset",
        "enable.auto.commit",
        "enable.auto.offset.store",
        "enable.partition.eof",
        "fetch.min.bytes",
        "fetch.wait.max.ms",
        "fetch.max.bytes",
        "max.partition.fetch.bytes",
        "max.poll.interval.ms",
        "session.timeout.ms",
        "heartbeat.interval.ms",
        "socket.timeout.ms",
        "socket.connection.setup.timeout.ms",
        "socket.keepalive.enable",
        "connections.max.idle.ms",
        "receive.message.max.bytes",
        "queued.min.messages",
        "queued.max.messages.kbytes",
        "fetch.error.backoff.ms",
        "retry.backoff.ms",
        "retry.backoff.max.ms",
        "reconnect.backoff.ms",
        "reconnect.backoff.max.ms",
        "allow.auto.create.topics",
        "partition.assignment.strategy",
        "check.crcs",
        "isolation.level",
    ];
    proof {
        assert(keys@.map_values(|k: &str| k@) =~= config_keys());
    }
    keys
}

/// The settings among the named arguments of a call.
pub open spec fn collected_config(named: Seq<params::NamedView>) -> kafka::TextMap {
    config_among(config_keys(), named)
}

/// The settings among the named arguments of a call whose keys are among `keys`.
pub open spec fn config_among(
    keys: Seq<Seq<char>>,
    named: Seq<params::NamedView>,
) -> kafka::TextMap {
    Map::new(
        |k: Seq<char>| keys.contains(k) && params::named_value(named, k) is Some,
        |k: Seq<char>| params::named_value(named, k)->0.text,
    )
}

/// Collects the settings among the named arguments of a call.
pub fn collect_config(parameters: &BindParameters) -> (config: StringMap)
    ensures
        config@ == collected_config(parameters@.named),
{
    let keys = tributary_config_keys();
    let ghost names = keys@.map_values(|k: &str| k@);
    let ghost named = parameters@.named;
    let mut config = StringMap::new();
    let mut i: usize = 0;
    proof {
        assert(config@ =~= config_among(names.take(0), named));
    }
    while i < keys.len()
        invariant
            i <= keys.len(),
            names == keys@.map_values(|k: &str| k@),
            named == parameters@.named,
            config@ == config_among(names.take(i as int), named),
        decreases keys.len() - i,
    {
        let key = keys[i];
        let ghost before = config@;
        proof {
            assert(names.take(i + 1) =~= names.take(i as int).push(key@));
            lemma_config_among_push(names.take(i as int), key@, named);
        }
        if let Some(parameter) = parameters.named_parameter(key) {
            config = config.insert(key.to_owned(), parameter.text.clone());
        }
        i += 1;
    }
    proof {
        assert(names.take(names.len() as int) =~= names);
    }
    config
}

/// One more key adds the setting of that key, where it is given.
proof fn lemma_config_among_push(
    keys: Seq<Seq<char>>,
    key: Seq<char>,
    named: Seq<params::NamedView>,
)
    ensures
        config_among(keys.push(key), named) == match params::named_value(named, key) {
            Some(p) => config_among(keys, named).insert(key, p.text),
            None => config_among(keys, named),
        },
{
    let more = keys.push(key);
    assert forall|k: Seq<char>| #[trigger] more.contains(k) <==> keys.contains(k) || k == key by {
        if keys.contains(k) {
            let i = choose|i: int| 0 <= i < keys.len() && keys[i] == k;
            assert(more[i] == k);
        }
        assert(more[keys.len() as int] == key);
        if more.contains(k) {
            let i = choose|i: int| 0 <= i < more.len() && more[i] == k;
            if i < keys.len() {
                assert(keys[i] == k);
            }
        }
    }
    assert(config_among(more, named) =~= match params::named_value(named, key) {
        Some(p) => config_among(keys, named).insert(key, p.text),
        None => config_among(keys, named),
    });
}

/// The first thing wrong with the settings of a call, if any: `bootstrap.servers` is missing or
/// empty.
pub open spec fn config_error(
    function: TableFunction,
    config: kafka::TextMap,
) -> Option<params::BindErrorView> {
    if !config.contains_key("bootstrap.servers"@) {
        Some(params::BindErrorView::MissingBootstrapServers { function })
    } else if config["bootstrap.servers"@].len() == 0 {
        Some(params::BindErrorView::EmptyBootstrapServers)
    } else {
        None
    }
}

/// Checks that a call names the servers to connect to.
pub fn check_config(function: TableFunction, config: &StringMap) -> (r: Result<(), BindError>)
    ensures
        r is Ok <==> config_error(function, config@) is None,
        r matches Err(e) ==> config_error(function, config@) == Some(e@),
{
    match config.get("bootstrap.servers") {
        None => Err(BindError::MissingBootstrapServers { function }),
        Some(servers) => {
            if servers.as_str().is_empty() {
                Err(BindError::EmptyBootstrapServers)
            } else {
                Ok(())
            }
        },
    }
}

/// Whether a setting is for the schema registry, and so not for the Kafka client.
pub open spec fn is_schema_registry_key(key: Seq<char>) -> bool {
    text_map::has_prefix(key, "schema.registry."@)
}

/// The settings that go to the Kafka client: all but those for the schema registry.
pub open spec fn forwarded(config: kafka::TextMap) -> kafka::TextMap {
    Map::new(
        |k: Seq<char>| config.contains_key(k) && !is_schema_registry_key(k),
        |k: Seq<char>| config[k],
    )
}

/// The client settings of a scan. A scan never commits offsets, is told where partitions end, and
/// starts at the earliest offset, whatever the call asks for.
pub open spec fn scan_settings(config: kafka::TextMap) -> kafka::TextMap {
    forwarded(config).insert("enable.auto.commit"@, "false"@).insert(
        "enable.partition.eof"@,
        "true"@,
    ).insert("auto.offset.reset"@, "earliest"@)
}

/// The client settings of a metadata query, which has a group of its own unless the call names
/// one.
pub open spec fn metadata_settings(config: kafka::TextMap) -> kafka::TextMap {
    if config.contains_key("group.id"@) {
        forwarded(config)
    } else {
        forwarded(config).insert("group.id"@, "tributary-rs-metadata"@)
    }
}

/// Makes a client configuration of the settings that go to the Kafka client.
fn forward_config(config: &StringMap) -> (client: ClientConfig)
    ensures
        kafka::client_settings(client) == forwarded(config@),
{
    let entries = config.entries();
    let ghost pairs = config.pairs();
    let mut client = kafka::new_client_config();
    let mut i: usize = 0;
    proof {
        assert(forwarded(text_map::map_of(pairs.take(0))) =~= kafka::TextMap::empty());
    }
    while i < entries.len()
        invariant
            i <= entries.len(),
            pairs == text_map::entries_view(entries@),
            kafka::client_settings(client) == forwarded(text_map::map_of(pairs.take(i as int))),
        decreases entries.len() - i,
    {
        let ghost before = text_map::map_of(pairs.take(i as int));
        let ghost pair = pairs[i as int];
        proof {
            assert(pairs.take(i + 1).drop_last() =~= pairs.take(i as int));
            if is_schema_registry_key(pair.0) {
                assert(forwarded(before.insert(pair.0, pair.1)) =~= forwarded(before));
            } else {
                assert(forwarded(before.insert(pair.0, pair.1)) =~= forwarded(before).insert(
                    pair.0,
                    pair.1,
                ));
            }
        }
        if !starts_with(entries[i].0.as_str(), "schema.registry.") {
            kafka::set_client_setting(&mut client, entries[i].0.as_str(), entries[i].1.as_str());
        }
        i += 1;
    }
    proof {
        assert(pairs.take(pairs.len() as int) =~= pairs);
    }
    client
}

/// Makes the client configuration of a scan.
pub fn scan_client_config(config: &StringMap) -> (client: ClientConfig)
    ensures
        kafka::client_settings(client) == scan_settings(config@),
{
    let mut client = forward_config(config);
    kafka::set_client_setting(&mut client, "enable.auto.commit", "false");
    kafka::set_client_setting(&mut client, "enable.partition.eof", "true");
    kafka::set_client_setting(&mut client, "auto.offset.reset", "earliest");
    client
}

/// Makes the client configuration of a metadata query.
pub fn metadata_client_config(config: &StringMap) -> (client: ClientConfig)
    ensures
        kafka::client_settings(client) == metadata_settings(config@),
{
    let mut client = forward_config(config);
    if !config.contains_key("group.id") {
        kafka::set_client_setting(&mut client, "group.id", "tributary-rs-metadata");
    }
    client
}

/// Makes the client configuration of a producer.
pub fn produce_client_config(config: &StringMap) -> (client: ClientConfig)
    ensures
        kafka::client_settings(client) == forwarded(config@),
{
    forward_config(config)
}

/// The keys that a scan sets itself.
pub open spec fn is_scan_override(key: Seq<char>) -> bool {
    key == "enable.auto.commit"@ || key == "enable.partition.eof"@ || key == "auto.offset.reset"@
}

/// Whatever a call asks for, a scan does not commit offsets, is told where partitions end, and
/// starts at the earliest offset.
pub proof fn law_scan_overrides_win(config: kafka::TextMap)
    ensures
        scan_settings(config).contains_key("enable.auto.commit"@),
        scan_settings(config)["enable.auto.commit"@] == "false"@,
        scan_settings(config).contains_key("enable.partition.eof"@),
        scan_settings(config)["enable.partition.eof"@] == "true"@,
        scan_settings(config).contains_key("auto.offset.reset"@),
        scan_settings(config)["auto.offset.reset"@] == "earliest"@,
{
    reveal_strlit("enable.auto.commit");
    reveal_strlit("enable.partition.eof");
    reveal_strlit("auto.offset.reset");
    assert("enable.auto.commit"@.len() == 18);
    assert("enable.partition.eof"@.len() == 20);
    assert("auto.offset.reset"@.len() == 17);
}

/// Apart from its own three settings, a scan hands the client the settings of the call unchanged,
/// without those for the schema registry and without any other. In particular it makes up no
/// group.
pub proof fn law_scan_passes_settings_through(config: kafka::TextMap, key: Seq<char>)
    requires
        !is_scan_override(key),
    ensures
        scan_settings(config).contains_key(key) <==> config.contains_key(key)
            && !is_schema_registry_key(key),
        scan_settings(config).contains_key(key) ==> scan_settings(config)[key] == config[key],
{
}

/// A scan has a group only where the call names one, and then that one.
pub proof fn law_scan_makes_up_no_group(config: kafka::TextMap)
    ensures
        scan_settings(config).contains_key("group.id"@) <==> config.contains_key("group.id"@),
        config.contains_key("group.id"@) ==> scan_settings(config)["group.id"@]
            == config["group.id"@],
{
    reveal_strlit("group.id");
    reveal_strlit("schema.registry.");
    reveal_strlit("enable.auto.commit");
    reveal_strlit("enable.partition.eof");
    reveal_strlit("auto.offset.reset");
    assert("group.id"@.len() == 8);
    assert("schema.registry."@.len() == 16);
    assert("enable.auto.commit"@.len() == 18);
    assert("enable.partition.eof"@.len() == 20);
    assert("auto.offset.reset"@.len() == 17);
    law_scan_passes_settings_through(config, "group.id"@);
}

/// A metadata query always has a group: the one that the call names, or its own.
pub proof fn law_metadata_always_has_a_group(config: kafka::TextMap)
    ensures
        metadata_settings(config).contains_key("group.id"@),
        metadata_settings(config)["group.id"@] == if config.contains_key("group.id"@) {
            config["group.id"@]
        } else {
            "tributary-rs-metadata"@
        },
{
    reveal_strlit("group.id");
    reveal_strlit("schema.registry.");
    assert("group.id"@.len() == 8);
    assert("schema.registry."@.len() == 16);
}

/// Apart from the group, a metadata query hands the client the settings of the call unchanged,
/// without those for the schema registry and without any other.
pub proof fn law_metadata_passes_settings_through(config: kafka::TextMap, key: Seq<char>)
    requires
        key != "group.id"@,
    ensures
        metadata_settings(config).contains_key(key) <==> config.contains_key(key)
            && !is_schema_registry_key(key),
        metadata_settings(config).contains_key(key) ==> metadata_settings(config)[key]
            == config[key],
{
}

/// No setting for the schema registry reaches a Kafka client.
pub proof fn law_schema_registry_settings_stay_out(config: kafka::TextMap, key: Seq<char>)
    requires
        is_schema_registry_key(key),
    ensures
        !forwarded(config).contains_key(key),
        !scan_settings(config).contains_key(key),
        !metadata_settings(config).contains_key(key),
{
    reveal_strlit("schema.registry.");
    reveal_strlit("enable.auto.commit");
    reveal_strlit("enable.partition.eof");
    reveal_strlit("auto.offset.reset");
    reveal_strlit("group.id");
    assert(key[0] == 's') by {
        assert(key.take("schema.registry."@.len() as int)[0] == "schema.registry."@[0]);
    }
    assert("enable.auto.commit"@[0] == 'e');
    assert("enable.partition.eof"@[0] == 'e');
    assert("auto.offset.reset"@[0] == 'a');
    assert("group.id"@[0] == 'g');
}

/// The servers to connect to, which every accepted call names, reach the client unchanged.
pub proof fn law_bootstrap_servers_reach_the_client(function: TableFunction, config: kafka::TextMap)
    requires
        config_error(function, config) is None,
    ensures
        config["bootstrap.servers"@].len() > 0,
        forwarded(config).contains_key("bootstrap.servers"@),
        forwarded(config)["bootstrap.servers"@] == config["bootstrap.servers"@],
        scan_settings(config).contains_key("bootstrap.servers"@),
        scan_settings(config)["bootstrap.servers"@] == config["bootstrap.servers"@],
        metadata_settings(config).contains_key("bootstrap.servers"@),
        metadata_settings(config)["bootstrap.servers"@] == config["bootstrap.servers"@],
{
    reveal_strlit("bootstrap.servers");
    reveal_strlit("schema.registry.");
    reveal_strlit("enable.auto.commit");
    reveal_strlit("enable.partition.eof");
    reveal_strlit("auto.offset.reset");
    reveal_strlit("group.id");
    assert("bootstrap.servers"@[0] == 'b');
    assert("enable.auto.commit"@[0] == 'e');
    assert("enable.partition.eof"@[0] == 'e');
    assert("auto.offset.reset"@[0] == 'a');
    assert("schema.registry."@[0] == 's');
    assert(!is_schema_registry_key("bootstrap.servers"@)) by {
        if is_schema_registry_key("bootstrap.servers"@) {
            assert("bootstrap.servers"@.take("schema.registry."@.len() as int)[0] == 's');
        }
    }
}

/// The settings of a call are its named arguments of the accepted names and no others, each with
/// the text of the first argument of its name.
pub proof fn law_settings_are_collected_by_name(named: Seq<params::NamedView>, key: Seq<char>)
    ensures
        collected_config(named).contains_key(key) <==> {
            &&& params::named_value(named, key) is Some
            &&& {
                ||| key == "bootstrap.servers"@
                ||| key == "security.protocol"@
                ||| key == "sasl.mechanism"@
                ||| key == "sasl.username"@
                ||| key == "sasl.password"@
                ||| key == "ssl.ca.location"@
                ||| key == "ssl.certificate.location"@
                ||| key == "ssl.key.location"@
                ||| key == "ssl.key.password"@
                ||| key == "group.id"@
                ||| key == "client.id"@
                ||| key == "transactional.id"@
                ||| key == "schema.registry.url"@
                ||| key == "schema.registry.basic.auth.user.info"@
                ||| key == "debug"@
                ||| key == "sasl.oauthbearer.client.id"@
                ||| key == "sasl.oauthbearer.client.secret"@
                ||| key == "sasl.oauthbearer.method"@
                ||| key == "sasl.oauthbearer.token.endpoint.url"@
                ||| key == "auto.offset.reset"@
                ||| key == "enable.auto.commit"@
                ||| key == "enable.auto.offset.store"@
                ||| key == "enable.partition.eof"@
                ||| key == "fetch.min.bytes"@
                ||| key == "fetch.wait.max.ms"@
                ||| key == "fetch.max.bytes"@
                ||| key == "max.partition.fetch.bytes"@
                ||| key == "max.poll.interval.ms"@
                ||| key == "session.timeout.ms"@
                ||| key == "heartbeat.interval.ms"@
                ||| key == "socket.timeout.ms"@
                ||| key == "socket.connection.setup.timeout.ms"@
                ||| key == "socket.keepalive.enable"@
                ||| key == "connections.max.idle.ms"@
                ||| key == "receive.message.max.bytes"@
                ||| key == "queued.min.messages"@
                ||| key == "queued.max.messages.kbytes"@
                ||| key == "fetch.error.backoff.ms"@
                ||| key == "retry.backoff.ms"@
                ||| key == "retry.backoff.max.ms"@
                ||| key == "reconnect.backoff.ms"@
                ||| key == "reconnect.backoff.max.ms"@
                ||| key == "allow.auto.create.topics"@
                ||| key == "partition.assignment.strategy"@
                ||| key == "check.crcs"@
                ||| key == "isolation.level"@
            }
        },
        collected_config(named).contains_key(key) ==> collected_config(named)[key]
            == params::named_value(named, key)->0.text,
{
    assert(config_keys()[0] == "bootstrap.servers"@);
    assert(config_keys()[1] == "security.protocol"@);
    assert(config_keys()[2] == "sasl.mechanism"@);
    assert(config_keys()[3] == "sasl.username"@);
    assert(config_keys()[4] == "sasl.password"@);
    assert(config_keys()[5] == "ssl.ca.location"@);
    assert(config_keys()[6] == "ssl.certificate.location"@);
    assert(config_keys()[7] == "ssl.key.location"@);
    assert(config_keys()[8] == "ssl.key.password"@);
    assert(config_keys()[9] == "group.id"@);
    assert(config_keys()[10] == "client.id"@);
    assert(config_keys()[11] == "transactional.id"@);
    assert(config_keys()[12] == "schema.registry.url"@);
    assert(config_keys()[13] == "schema.registry.basic.auth.user.info"@);
    assert(config_keys()[14] == "debug"@);
    assert(config_keys()[15] == "sasl.oauthbearer.client.id"@);
    assert(config_keys()[16] == "sasl.oauthbearer.client.secret"@);
    assert(config_keys()[17] == "sasl.oauthbearer.method"@);
    assert(config_keys()[18] == "sasl.oauthbearer.token.endpoint.url"@);
    assert(config_keys()[19] == "auto.offset.reset"@);
    assert(config_keys()[20] == "enable.auto.commit"@);
    assert(config_keys()[21] == "enable.auto.offset.store"@);
    assert(config_keys()[22] == "enable.partition.eof"@);
    assert(config_keys()[23] == "fetch.min.bytes"@);
    assert(config_keys()[24] == "fetch.wait.max.ms"@);
    assert(config_keys()[25] == "fetch.max.bytes"@);
    assert(config_keys()[26] == "max.partition.fetch.bytes"@);
    assert(config_keys()[27] == "max.poll.interval.ms"@);
    assert(config_keys()[28] == "session.timeout.ms"@);
    assert(config_keys()[29] == "heartbeat.interval.ms"@);
    assert(config_keys()[30] == "socket.timeout.ms"@);
    assert(config_keys()[31] == "socket.connection.setup.timeout.ms"@);
    assert(config_keys()[32] == "socket.keepalive.enable"@);
    assert(config_keys()[33] == "connections.max.idle.ms"@);
    assert(config_keys()[34] == "receive.message.max.bytes"@);
    assert(config_keys()[35] == "queued.min.messages"@);
    assert(config_keys()[36] == "queued.max.messages.kbytes"@);
    assert(config_keys()[37] == "fetch.error.backoff.ms"@);
    assert(config_keys()[38] == "retry.backoff.ms"@);
    assert(config_keys()[39] == "retry.backoff.max.ms"@);
    assert(config_keys()[40] == "reconnect.backoff.ms"@);
    assert(config_keys()[41] == "reconnect.backoff.max.ms"@);
    assert(config_keys()[42] == "allow.auto.create.topics"@);
    assert(config_keys()[43] == "partition.assignment.strategy"@);
    assert(config_keys()[44] == "check.crcs"@);
    assert(config_keys()[45] == "isolation.level"@);
    if config_keys().contains(key) {
        let i = choose|i: int| 0 <= i < config_keys().len() && config_keys()[i] == key;
        assert(config_keys()[i] == key);
    }
}

/// Every setting whose key does not begin with `schema.registry.` reaches the client of a producer
/// with its value, and no other does. It reaches the client of a scan too, unless it is one of the
/// three that a scan sets itself, and the client of a metadata query.
pub proof fn law_only_the_schema_registry_prefix_stays_out(config: kafka::TextMap, key: Seq<char>)
    ensures
        forwarded(config).contains_key(key) <==> config.contains_key(key)
            && !"schema.registry."@.is_prefix_of(key),
        forwarded(config).contains_key(key) ==> forwarded(config)[key] == config[key],
        key != "enable.auto.commit"@ && key != "enable.partition.eof"@ && key
            != "auto.offset.reset"@ ==> {
            &&& scan_settings(config).contains_key(key) <==> config.contains_key(key)
                && !"schema.registry."@.is_prefix_of(key)
            &&& scan_settings(config).contains_key(key) ==> scan_settings(config)[key]
                == config[key]
        },
        key != "group.id"@ ==> {
            &&& metadata_settings(config).contains_key(key) <==> config.contains_key(key)
                && !"schema.registry."@.is_prefix_of(key)
            &&& metadata_settings(config).contains_key(key) ==> metadata_settings(config)[key]
                == config[key]
        },
{
    text_map::law_prefix_is_the_beginning(key, "schema.registry."@);
}

/// A setting that a call gives under one of the accepted names reaches the clients: that of a
/// producer unchanged, that of a scan unless the scan sets it itself, and that of a metadata query.
/// The two settings of the schema registry are the only exceptions.
pub proof fn law_given_settings_reach_the_clients(named: Seq<params::NamedView>, key: Seq<char>)
    requires
        collected_config(named).contains_key(key),
        key != "schema.registry.url"@,
        key != "schema.registry.basic.auth.user.info"@,
    ensures
        ({
            let config = collected_config(named);
            let text = params::named_value(named, key)->0.text;
            &&& forwarded(config).contains_key(key)
            &&& forwarded(config)[key] == text
            &&& metadata_settings(config).contains_key(key)
            &&& metadata_settings(config)[key] == text
            &&& scan_settings(config).contains_key(key)
            &&& key != "enable.auto.commit"@ && key != "enable.partition.eof"@ && key
                != "auto.offset.reset"@ ==> scan_settings(config)[key] == text
        }),
{
    let config = collected_config(named);
    law_settings_are_collected_by_name(named, key);
    lemma_accepted_keys_outside_the_schema_registry(key);
    law_only_the_schema_registry_prefix_stays_out(config, key);
    law_scan_overrides_win(config);
}

/// Apart from the two settings of the schema registry, no accepted name begins as they do.
proof fn lemma_accepted_keys_outside_the_schema_registry(key: Seq<char>)
    requires
        config_keys().contains(key),
        key != "schema.registry.url"@,
        key != "schema.registry.basic.auth.user.info"@,
    ensures
        !"schema.registry."@.is_prefix_of(key),
{
    reveal_strlit("schema.registry.");
    let prefix = "schema.registry."@;
    assert(prefix[0] == 's');
    assert(prefix[1] == 'c');
    assert(config_keys()[0] == "bootstrap.servers"@);
    assert(config_keys()[1] == "security.protocol"@);
    assert(config_keys()[2] == "sasl.mechanism"@);
    assert(config_keys()[3] == "sasl.username"@);
    assert(config_keys()[4] == "sasl.password"@);
    assert(config_keys()[5] == "ssl.ca.location"@);
    assert(config_keys()[6] == "ssl.certificate.location"@);
    assert(config_keys()[7] == "ssl.key.location"@);
    assert(config_keys()[8] == "ssl.key.password"@);
    assert(config_keys()[9] == "group.id"@);
    assert(config_keys()[10] == "client.id"@);
    assert(config_keys()[11] == "transactional.id"@);
    assert(config_keys()[12] == "schema.registry.url"@);
    assert(config_keys()[13] == "schema.registry.basic.auth.user.info"@);
    assert(config_keys()[14] == "debug"@);
    assert(config_keys()[15] == "sasl.oauthbearer.client.id"@);
    assert(config_keys()[16] == "sasl.oauthbearer.client.secret"@);
    assert(config_keys()[17] == "sasl.oauthbearer.method"@);
    assert(config_keys()[18] == "sasl.oauthbearer.token.endpoint.url"@);
    assert(config_keys()[19] == "auto.offset.reset"@);
    assert(config_keys()[20] == "enable.auto.commit"@);
    assert(config_keys()[21] == "enable.auto.offset.store"@);
    assert(config_keys()[22] == "enable.partition.eof"@);
    assert(config_keys()[23] == "fetch.min.bytes"@);
    assert(config_keys()[24] == "fetch.wait.max.ms"@);
    assert(config_keys()[25] == "fetch.max.bytes"@);
    assert(config_keys()[26] == "max.partition.fetch.bytes"@);
    assert(config_keys()[27] == "max.poll.interval.ms"@);
    assert(config_keys()[28] == "session.timeout.ms"@);
    assert(config_keys()[29] == "heartbeat.interval.ms"@);
    assert(config_keys()[30] == "socket.timeout.ms"@);
    assert(config_keys()[31] == "socket.connection.setup.timeout.ms"@);
    assert(config_keys()[32] == "socket.keepalive.enable"@);
    assert(config_keys()[33] == "connections.max.idle.ms"@);
    assert(config_keys()[34] == "receive.message.max.bytes"@);
    assert(config_keys()[35] == "queued.min.messages"@);
    assert(config_keys()[36] == "queued.max.messages.kbytes"@);
    assert(config_keys()[37] == "fetch.error.backoff.ms"@);
    assert(config_keys()[38] == "retry.backoff.ms"@);
    assert(config_keys()[39] == "retry.backoff.max.ms"@);
    assert(config_keys()[40] == "reconnect.backoff.ms"@);
    assert(config_keys()[41] == "reconnect.backoff.max.ms"@);
    assert(config_keys()[42] == "allow.auto.create.topics"@);
    assert(config_keys()[43] == "partition.assignment.strategy"@);
    assert(config_keys()[44] == "check.crcs"@);
    assert(config_keys()[45] == "isolation.level"@);
    reveal_strlit("bootstrap.servers");
    assert("bootstrap.servers"@[0] == 'b');
    reveal_strlit("security.protocol");
    assert("security.protocol"@[1] == 'e');
    reveal_strlit("sasl.mechanism");
    assert("sasl.mechanism"@[1] == 'a');
    reveal_strlit("sasl.username");
    assert("sasl.username"@[1] == 'a');
    reveal_strlit("sasl.password");
    assert("sasl.password"@[1] == 'a');
    reveal_strlit("ssl.ca.location");
    assert("ssl.ca.location"@[1] == 's');
    reveal_strlit("ssl.certificate.location");
    assert("ssl.certificate.location"@[1] == 's');
    reveal_strlit("ssl.key.location");
    assert("ssl.key.location"@[1] == 's');
    reveal_strlit("ssl.key.password");
    assert("ssl.key.password"@[1] == 's');
    reveal_strlit("group.id");
    assert("group.id"@[0] == 'g');
    reveal_strlit("client.id");
    assert("client.id"@[0] == 'c');
    reveal_strlit("transactional.id");
    assert("transactional.id"@[0] == 't');
    reveal_strlit("debug");
    assert("debug"@[0] == 'd');
    reveal_strlit("sasl.oauthbearer.client.id");
    assert("sasl.oauthbearer.client.id"@[1] == 'a');
    reveal_strlit("sasl.oauthbearer.client.secret");
    assert("sasl.oauthbearer.client.secret"@[1] == 'a');
    reveal_strlit("sasl.oauthbearer.method");
    assert("sasl.oauthbearer.method"@[1] == 'a');
    reveal_strlit("sasl.oauthbearer.token.endpoint.url");
    assert("sasl.oauthbearer.token.endpoint.url"@[1] == 'a');
    reveal_strlit("auto.offset.reset");
    assert("auto.offset.reset"@[0] == 'a');
    reveal_strlit("enable.auto.commit");
    assert("enable.auto.commit"@[0] == 'e');
    reveal_strlit("enable.auto.offset.store");
    assert("enable.auto.offset.store"@[0] == 'e');
    reveal_strlit("enable.partition.eof");
    assert("enable.partition.eof"@[0] == 'e');
    reveal_strlit("fetch.min.bytes");
    assert("fetch.min.bytes"@[0] == 'f');
    reveal_strlit("fetch.wait.max.ms");
    assert("fetch.wait.max.ms"@[0] == 'f');
    reveal_strlit("fetch.max.bytes");
    assert("fetch.max.bytes"@[0] == 'f');
    reveal_strlit("max.partition.fetch.bytes");
    assert("max.partition.fetch.bytes"@[0] == 'm');
    reveal_strlit("max.poll.interval.ms");
    assert("max.poll.interval.ms"@[0] == 'm');
    reveal_strlit("session.timeout.ms");
    assert("session.timeout.ms"@[1] == 'e');
    reveal_strlit("heartbeat.interval.ms");
    assert("heartbeat.interval.ms"@[0] == 'h');
    reveal_strlit("socket.timeout.ms");
    assert("socket.timeout.ms"@[1] == 'o');
    reveal_strlit("socket.connection.setup.timeout.ms");
    assert("socket.connection.setup.timeout.ms"@[1] == 'o');
    reveal_strlit("socket.keepalive.enable");
    assert("socket.keepalive.enable"@[1] == 'o');
    reveal_strlit("connections.max.idle.ms");
    assert("connections.max.idle.ms"@[0] == 'c');
    reveal_strlit("receive.message.max.bytes");
    assert("receive.message.max.bytes"@[0] == 'r');
    reveal_strlit("queued.min.messages");
    assert("queued.min.messages"@[0] == 'q');
    reveal_strlit("queued.max.messages.kbytes");
    assert("queued.max.messages.kbytes"@[0] == 'q');
    reveal_strlit("fetch.error.backoff.ms");
    assert("fetch.error.backoff.ms"@[0] == 'f');
    reveal_strlit("retry.backoff.ms");
    assert("retry.backoff.ms"@[0] == 'r');
    reveal_strlit("retry.backoff.max.ms");
    assert("retry.backoff.max.ms"@[0] == 'r');
    reveal_strlit("reconnect.backoff.ms");
    assert("reconnect.backoff.ms"@[0] == 'r');
    reveal_strlit("reconnect.backoff.max.ms");
    assert("reconnect.backoff.max.ms"@[0] == 'r');
    reveal_strlit("allow.auto.create.topics");
    assert("allow.auto.create.topics"@[0] == 'a');
    reveal_strlit("partition.assignment.strategy");
    assert("partition.assignment.strategy"@[0] == 'p');
    reveal_strlit("check.crcs");
    assert("check.crcs"@[0] == 'c');
    reveal_strlit("isolation.level");
    assert("isolation.level"@[0] == 'i');
    let i = choose|i: int| 0 <= i < config_keys().len() && config_keys()[i] == key;
    assert(key[0] != 's' || key[1] != 'c');
    if prefix.is_prefix_of(key) {
        assert(key.subrange(0, prefix.len() as int)[0] == prefix[0]);
        assert(key.subrange(0, prefix.len() as int)[1] == prefix[1]);
    }
}

/// A call names its servers exactly where it gives a `bootstrap.servers` that is not empty; what
/// is wrong otherwise is that it is missing, or that it is empty.
pub proof fn law_servers_must_be_named(function: TableFunction, config: kafka::TextMap)
    ensures
        config_error(function, config) is None <==> config.contains_key("bootstrap.servers"@)
            && config["bootstrap.servers"@].len() > 0,
        !config.contains_key("bootstrap.servers"@) <==> config_error(function, config) == Some(
            params::BindErrorView::MissingBootstrapServers { function },
        ),
        config.contains_key("bootstrap.servers"@) && config["bootstrap.servers"@].len() == 0
            <==> config_error(function, config) == Some(
            params::BindErrorView::EmptyBootstrapServers,
        ),
{
}

} // verus!
