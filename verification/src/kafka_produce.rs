//! `tributary_produce`: sends one message, and returns where it was stored.
use crate::config;
use crate::config::{check_config, collect_config, tributary_config_keys};
use crate::json;
use crate::kafka;
use crate::params;
use crate::params::{BindError, BindParameters, TableFunction};
use crate::schema;
use crate::schema::{with_column, with_varchars, Column, ColumnType};
use crate::text_map;
use crate::text_map::{join, StringMap};
use rdkafka::message::OwnedHeaders;
use vstd::prelude::*;

verus! {

/// A call that was accepted: the message, where it goes, and the Kafka settings.
#[derive(Debug)]
pub struct ProduceBind {
    topic: String,
    message: String,
    key: Option<String>,
    headers: Option<StringMap>,
    config: StringMap,
}

/// The value of a [`ProduceBind`].
#[verifier::ext_equal]
pub struct ProduceBindView {
    pub topic: Seq<char>,
    pub message: Seq<char>,
    pub key: Option<Seq<char>>,
    pub headers: Option<kafka::TextMap>,
    pub config: kafka::TextMap,
}

/// The value of headers, where there are any.
pub open spec fn headers_view(headers: Option<StringMap>) -> Option<kafka::TextMap> {
    match headers {
        Some(h) => Some(h@),
        None => None,
    }
}

/// The value of a text, where there is one.
pub open spec fn text_view(text: Option<String>) -> Option<Seq<char>> {
    match text {
        Some(t) => Some(t@),
        None => None,
    }
}

impl View for ProduceBind {
    type V = ProduceBindView;

    closed spec fn view(&self) -> ProduceBindView {
        ProduceBindView {
            topic: self.topic@,
            message: self.message@,
            key: text_view(self.key),
            headers: headers_view(self.headers),
            config: self.config@,
        }
    }
}

/// A message to send.
pub struct ProduceRecord<'a> {
    pub topic: &'a str,
    pub payload: &'a str,
    pub key: Option<&'a str>,
    pub headers: Option<OwnedHeaders>,
}

/// Whether a record is the message of a call, with `pairs`, the headers of the call in some order,
/// as its headers.
pub open spec fn record_is(
    record: ProduceRecord<'_>,
    bind: ProduceBindView,
    pairs: Seq<(Seq<char>, Seq<char>)>,
) -> bool {
    &&& record.topic@ == bind.topic
    &&& record.payload@ == bind.message
    &&& (match record.key {
        Some(k) => Some(k@),
        None => None,
    }) == bind.key
    &&& match (record.headers, bind.headers) {
        (Some(headers), Some(map)) => {
            &&& text_map::distinct_keys(pairs)
            &&& text_map::map_of(pairs) == map
            &&& kafka::header_list(headers) == record_headers(pairs)
        },
        (None, None) => true,
        _ => false,
    }
}

/// The headers of a message: the name of each pair, and its value as UTF-8.
pub open spec fn record_headers(pairs: Seq<(Seq<char>, Seq<char>)>) -> Seq<kafka::HeaderText> {
    pairs.map_values(
        |pair: (Seq<char>, Seq<char>)| (pair.0, Some(vstd::utf8::encode_utf8(pair.1))),
    )
}

/// Makes the headers of a message.
fn owned_headers(map: &StringMap) -> (headers: OwnedHeaders)
    requires
        map@.len() <= kafka::MAX_NATIVE_ITEMS,
    ensures
        text_map::distinct_keys(map.pairs()),
        text_map::map_of(map.pairs()) == map@,
        kafka::header_list(headers) == record_headers(map.pairs()),
{
    let entries = map.entries();
    let ghost pairs = map.pairs();
    let mut headers = kafka::new_headers();
    let mut i: usize = 0;
    proof {
        text_map::lemma_map_of_len(pairs);
        assert(record_headers(pairs.take(0)) =~= Seq::empty());
    }
    while i < entries.len()
        invariant
            i <= entries.len() <= kafka::MAX_NATIVE_ITEMS,
            pairs == text_map::entries_view(entries@),
            kafka::header_list(headers) == record_headers(pairs.take(i as int)),
        decreases entries.len() - i,
    {
        headers =
        kafka::insert_header(headers, entries[i].0.as_str(), entries[i].1.as_str().as_bytes());
        proof {
            assert(pairs[i as int] == text_map::entry_view(entries[i as int]));
            assert(record_headers(pairs.take(i + 1)) =~= record_headers(
                pairs.take(i as int),
            ).push(
                (pairs[i as int].0, Some(vstd::utf8::encode_utf8(pairs[i as int].1))),
            ));
        }
        i += 1;
    }
    proof {
        assert(pairs.take(pairs.len() as int) =~= pairs);
    }
    headers
}

impl ProduceBind {
    /// The topic.
    pub fn topic(&self) -> (r: &str)
        ensures
            r@ == self@.topic,
    {
        self.topic.as_str()
    }

    /// The Kafka settings.
    pub fn config(&self) -> (r: &StringMap)
        ensures
            r@ == self@.config,
    {
        &self.config
    }

    /// The message to send: the payload, the key if there is one, and each header once, in some
    /// order.
    pub fn record(&self) -> (r: ProduceRecord<'_>)
        requires
            self@.headers matches Some(h) ==> h.len() <= kafka::MAX_NATIVE_ITEMS,
        ensures
            exists|pairs: Seq<(Seq<char>, Seq<char>)>| record_is(r, self@, pairs),
    {
        let headers: Option<OwnedHeaders> = match &self.headers {
            Some(map) => Some(owned_headers(map)),
            None => None,
        };
        let key: Option<&str> = match &self.key {
            Some(k) => Some(k.as_str()),
            None => None,
        };
        let record = ProduceRecord {
            topic: self.topic.as_str(),
            payload: self.message.as_str(),
            key,
            headers,
        };
        proof {
            let pairs = match &self.headers {
                Some(map) => map.pairs(),
                None => Seq::empty(),
            };
            assert(record_is(record, self@, pairs));
        }
        record
    }

    /// The headers, where the call gave any.
    pub fn headers(&self) -> (r: Option<&StringMap>)
        ensures
            (match r {
                Some(h) => Some(h@),
                None => None,
            }) == self@.headers,
    {
        match &self.headers {
            Some(h) => Some(h),
            None => None,
        }
    }
}

/// What the headers argument of a call comes to: `None` where it is missing or null, otherwise
/// what its text is as a JSON object of strings.
pub open spec fn headers_argument(p: params::ParametersView) -> Option<
    Result<kafka::TextMap, Seq<char>>,
> {
    match params::named_value(p.named, "headers"@) {
        Some(argument) => if argument.null {
            None
        } else {
            Some(json::json_string_object(argument.text))
        },
        None => None,
    }
}

/// The value of parsed headers.
pub open spec fn parsed_view(parsed: Option<Result<StringMap, String>>) -> Option<
    Result<kafka::TextMap, Seq<char>>,
> {
    match parsed {
        Some(Ok(map)) => Some(Ok(map@)),
        Some(Err(message)) => Some(Err(message@)),
        None => None,
    }
}

/// What a call comes to whose headers argument comes to `parsed`: topic and message must be the
/// two positional arguments, the topic not empty, the headers a JSON object of strings, and the
/// settings must name the servers.
pub open spec fn produce_bind(
    p: params::ParametersView,
    parsed: Option<Result<kafka::TextMap, Seq<char>>>,
) -> Result<ProduceBindView, params::BindErrorView> {
    let settings = config::collected_config(p.named);
    if p.positional.len() != 2 {
        Err(params::BindErrorView::WrongArguments { function: TableFunction::Produce })
    } else if p.positional[0].len() == 0 {
        Err(params::BindErrorView::EmptyTopic)
    } else if let Some(Err(detail)) = parsed {
        Err(params::BindErrorView::InvalidHeaders { detail })
    } else {
        match config::config_error(TableFunction::Produce, settings) {
            Some(e) => Err(e),
            None => Ok(
                ProduceBindView {
                    topic: p.positional[0],
                    message: p.positional[1],
                    key: match params::named_value(p.named, "key"@) {
                        Some(argument) => Some(argument.text),
                        None => None,
                    },
                    headers: match parsed {
                        Some(Ok(map)) => Some(map),
                        _ => None,
                    },
                    config: settings,
                },
            ),
        }
    }
}

/// The columns of the result.
pub open spec fn produce_columns() -> Seq<(Seq<char>, schema::TypeView)> {
    seq![
        ("topic"@, schema::TypeView::Varchar),
        ("partition"@, schema::TypeView::Integer),
        ("offset"@, schema::TypeView::Bigint),
    ]
}

/// What became of the message, as the broker reports it.
#[derive(Debug)]
pub enum DeliveryState {
    /// It was stored.
    Delivered { partition: i32, offset: i64 },
    /// It was not stored; the text says why.
    Failed(String),
}

/// The value of a [`DeliveryState`].
pub enum DeliveryView {
    Delivered { partition: i32, offset: i64 },
    Failed(Seq<char>),
}

impl View for DeliveryState {
    type V = DeliveryView;

    open spec fn view(&self) -> DeliveryView {
        match self {
            DeliveryState::Delivered { partition, offset } => DeliveryView::Delivered {
                partition: *partition,
                offset: *offset,
            },
            DeliveryState::Failed(detail) => DeliveryView::Failed(detail@),
        }
    }
}

impl DeliveryState {
    /// Makes a delivery of a report: the partition and offset of a stored message, or the text of
    /// the error.
    pub fn from_report(report: Result<(i32, i64), String>) -> (r: DeliveryState)
        ensures
            r@ == match report {
                Ok((partition, offset)) => DeliveryView::Delivered { partition, offset },
                Err(detail) => DeliveryView::Failed(detail@),
            },
    {
        match report {
            Ok((partition, offset)) => DeliveryState::Delivered { partition, offset },
            Err(detail) => DeliveryState::Failed(detail),
        }
    }
}

/// What became of handing the message to the producer.
#[derive(Debug)]
pub enum SendEvent {
    /// The producer did not take it; `detail` says why.
    Rejected { detail: String },
    /// It was flushed. `report` is the last delivery report, if one came.
    Flushed { report: Option<DeliveryState> },
}

/// The value of a [`SendEvent`].
pub enum SendView {
    Rejected { detail: Seq<char> },
    Flushed { report: Option<DeliveryView> },
}

impl View for SendEvent {
    type V = SendView;

    open spec fn view(&self) -> SendView {
        match self {
            SendEvent::Rejected { detail } => SendView::Rejected { detail: detail@ },
            SendEvent::Flushed { report } => SendView::Flushed {
                report: match report {
                    Some(delivery) => Some(delivery@),
                    None => None,
                },
            },
        }
    }
}

/// Why a message could not be sent.
#[derive(Debug)]
pub enum ProduceError {
    /// The producer did not take the message.
    Enqueue { detail: String },
    /// No delivery report came in time.
    NoReport,
    /// The broker did not store the message.
    Delivery { detail: String },
}

/// The value of a [`ProduceError`].
pub enum ProduceErrorView {
    Enqueue { detail: Seq<char> },
    NoReport,
    Delivery { detail: Seq<char> },
}

impl View for ProduceError {
    type V = ProduceErrorView;

    open spec fn view(&self) -> ProduceErrorView {
        match self {
            ProduceError::Enqueue { detail } => ProduceErrorView::Enqueue { detail: detail@ },
            ProduceError::NoReport => ProduceErrorView::NoReport,
            ProduceError::Delivery { detail } => ProduceErrorView::Delivery { detail: detail@ },
        }
    }
}

impl ProduceErrorView {
    /// The message of the error.
    pub open spec fn message(self) -> Seq<char> {
        match self {
            ProduceErrorView::Enqueue { detail } => "failed to enqueue Kafka message: "@ + detail,
            ProduceErrorView::NoReport => "Kafka producer completed without a delivery report"@,
            ProduceErrorView::Delivery { detail } => "Kafka message delivery failed: "@ + detail,
        }
    }
}

impl ProduceError {
    /// The message of the error.
    pub fn message(&self) -> (r: String)
        ensures
            r@ == self@.message(),
    {
        match self {
            ProduceError::Enqueue { detail } => join(
                "failed to enqueue Kafka message: ",
                detail.as_str(),
            ),
            ProduceError::NoReport =>
                "Kafka producer completed without a delivery report".to_owned(),
            ProduceError::Delivery { detail } => join(
                "Kafka message delivery failed: ",
                detail.as_str(),
            ),
        }
    }
}

/// The row that is returned for a stored message.
#[derive(Debug)]
pub struct ProducedRow<'a> {
    pub topic: &'a str,
    pub partition: i32,
    pub offset: i64,
}

/// How far the sending of the message is.
enum ProduceState {
    /// The delivery is reported, and not yet returned.
    Reported(DeliveryState),
    /// The delivery was returned.
    Emitted,
}

/// How far a call is: the message is not sent, its delivery is reported, or the delivery was
/// returned.
pub enum ProduceView {
    Unsent,
    Reported(DeliveryView),
    Emitted,
}

/// What a call for rows does next.
#[derive(Debug, Clone, Copy, PartialEq, Eq, Structural)]
pub enum ProduceStep {
    /// Send the message.
    Send,
    /// Return what became of it.
    Emit,
}

/// What a call for rows does next: it sends the message unless its delivery was reported.
pub open spec fn produce_step(state: ProduceView) -> ProduceStep {
    match state {
        ProduceView::Unsent => ProduceStep::Send,
        _ => ProduceStep::Emit,
    }
}

/// Why handing the message to the producer failed, if it did: the producer did not take it, or no
/// delivery report came.
pub open spec fn send_error(event: SendView) -> Option<ProduceErrorView> {
    match event {
        SendView::Rejected { detail } => Some(ProduceErrorView::Enqueue { detail }),
        SendView::Flushed { report: None } => Some(ProduceErrorView::NoReport),
        SendView::Flushed { report: Some(_) } => None,
    }
}

/// The state after the message was handed to the producer. Where that failed, the state is as it
/// was.
pub open spec fn after_send(state: ProduceView, event: SendView) -> ProduceView {
    match event {
        SendView::Flushed { report: Some(delivery) } => ProduceView::Reported(delivery),
        _ => state,
    }
}

/// The state after the delivery was returned.
pub open spec fn after_emit(state: ProduceView) -> ProduceView {
    match state {
        ProduceView::Unsent => ProduceView::Unsent,
        _ => ProduceView::Emitted,
    }
}

/// The delivery that is returned: the partition and offset at which the message was stored, `None`
/// where it was returned before, or the error where the message was not stored.
pub open spec fn emitted_delivery(state: ProduceView) -> Result<
    Option<(i32, i64)>,
    ProduceErrorView,
> {
    match state {
        ProduceView::Reported(DeliveryView::Delivered { partition, offset }) => Ok(
            Some((partition, offset)),
        ),
        ProduceView::Reported(DeliveryView::Failed(detail)) => Err(
            ProduceErrorView::Delivery { detail },
        ),
        _ => Ok(None),
    }
}

/// The state of a call over all calls for rows: there is none until a delivery is reported.
pub struct ProduceInit {
    state: Option<ProduceState>,
}

impl View for ProduceInit {
    type V = ProduceView;

    closed spec fn view(&self) -> ProduceView {
        match self.state {
            None => ProduceView::Unsent,
            Some(ProduceState::Reported(delivery)) => ProduceView::Reported(delivery@),
            Some(ProduceState::Emitted) => ProduceView::Emitted,
        }
    }
}

impl ProduceInit {
    /// Takes in what became of handing the message to the producer.
    pub fn sent(&mut self, event: SendEvent) -> (r: Result<(), ProduceError>)
        ensures
            final(self)@ == after_send(old(self)@, event@),
            match r {
                Ok(_) => send_error(event@) is None,
                Err(e) => send_error(event@) == Some(e@),
            },
    {
        match event {
            SendEvent::Rejected { detail } => Err(ProduceError::Enqueue { detail }),
            SendEvent::Flushed { report } => match report {
                Some(delivery) => {
                    self.state = Some(ProduceState::Reported(delivery));
                    Ok(())
                },
                None => Err(ProduceError::NoReport),
            },
        }
    }

    /// The row to return: once, where the message was stored. Fails once, where it was not.
    pub fn emit<'a>(&mut self, bind: &'a ProduceBind) -> (r: Result<
        Option<ProducedRow<'a>>,
        ProduceError,
    >)
        ensures
            final(self)@ == after_emit(old(self)@),
            match r {
                Ok(Some(row)) => row.topic@ == bind@.topic && emitted_delivery(old(self)@) == Ok::<
                    Option<(i32, i64)>,
                    ProduceErrorView,
                >(Some((row.partition, row.offset))),
                Ok(None) => emitted_delivery(old(self)@) == Ok::<
                    Option<(i32, i64)>,
                    ProduceErrorView,
                >(None),
                Err(e) => emitted_delivery(old(self)@) == Err::<
                    Option<(i32, i64)>,
                    ProduceErrorView,
                >(e@),
            },
    {
        match self.state.take() {
            None => Ok(None),
            Some(ProduceState::Emitted) => {
                self.state = Some(ProduceState::Emitted);
                Ok(None)
            },
            Some(ProduceState::Reported(delivery)) => {
                self.state = Some(ProduceState::Emitted);
                match delivery {
                    DeliveryState::Delivered { partition, offset } => Ok(
                        Some(ProducedRow { topic: bind.topic.as_str(), partition, offset }),
                    ),
                    DeliveryState::Failed(detail) => Err(ProduceError::Delivery { detail }),
                }
            },
        }
    }
}

/// The table function `tributary_produce`.
pub struct KafkaProduce;

impl KafkaProduce {
    /// The columns of the result.
    pub fn result_columns() -> (columns: Vec<Column>)
        ensures
            schema::columns_view(columns@) == produce_columns(),
    {
        let columns = with_column(Vec::new(), "topic", ColumnType::Varchar);
        let columns = with_column(columns, "partition", ColumnType::Integer);
        let columns = with_column(columns, "offset", ColumnType::Bigint);
        proof {
            assert(schema::columns_view(columns@) =~= produce_columns());
        }
        columns
    }

    /// Checks the arguments of a call.
    pub fn bind(bind: &BindParameters) -> (r: Result<ProduceBind, BindError>)
        ensures
            match r {
                Ok(accepted) => produce_bind(bind@, headers_argument(bind@)) == Ok::<
                    ProduceBindView,
                    params::BindErrorView,
                >(accepted@),
                Err(e) => produce_bind(bind@, headers_argument(bind@)) == Err::<
                    ProduceBindView,
                    params::BindErrorView,
                >(e@),
            },
    {
        let parsed: Option<Result<StringMap, String>> = match bind.named_parameter("headers") {
            Some(argument) => {
                if argument.null {
                    None
                } else {
                    match json::parse_string_object(argument.text.as_str()) {
                        Ok(entries) => Some(Ok(StringMap::from_entries(entries))),
                        Err(message) => Some(Err(message)),
                    }
                }
            },
            None => None,
        };
        KafkaProduce::bind_with_headers(bind, parsed)
    }

    /// Checks the arguments of a call whose headers argument was parsed already: `None` where it
    /// is missing or null, otherwise the JSON object or the message of the parser's error.
    pub fn bind_with_headers(
        bind: &BindParameters,
        parsed: Option<Result<StringMap, String>>,
    ) -> (r: Result<ProduceBind, BindError>)
        ensures
            match r {
                Ok(accepted) => produce_bind(bind@, parsed_view(parsed)) == Ok::<
                    ProduceBindView,
                    params::BindErrorView,
                >(accepted@),
                Err(e) => produce_bind(bind@, parsed_view(parsed)) == Err::<
                    ProduceBindView,
                    params::BindErrorView,
                >(e@),
            },
    {
        if bind.positional.len() != 2 {
            return Err(BindError::WrongArguments { function: TableFunction::Produce });
        }
        let topic = bind.positional[0].clone();
        if topic.as_str().is_empty() {
            return Err(BindError::EmptyTopic);
        }
        let message = bind.positional[1].clone();
        let key: Option<String> = match bind.named_parameter("key") {
            Some(argument) => Some(argument.text.clone()),
            None => None,
        };
        let headers: Option<StringMap> = match parsed {
            Some(Ok(map)) => Some(map),
            Some(Err(detail)) => {
                return Err(BindError::InvalidHeaders { detail });
            },
            None => None,
        };
        let config = collect_config(bind);
        match check_config(TableFunction::Produce, &config) {
            Ok(_) => Ok(ProduceBind { topic, message, key, headers, config }),
            Err(e) => Err(e),
        }
    }

    /// The state before the first call for rows.
    pub fn init() -> (r: ProduceInit)
        ensures
            r@ == ProduceView::Unsent,
    {
        ProduceInit { state: None }
    }

    /// What a call for rows does next.
    pub fn func(init: &ProduceInit) -> (r: ProduceStep)
        ensures
            r == produce_step(init@),
    {
        match &init.state {
            None => ProduceStep::Send,
            Some(_) => ProduceStep::Emit,
        }
    }

    /// The types of the positional parameters: topic and message.
    pub fn parameters() -> (r: Vec<ColumnType>)
        ensures
            r@ == seq![ColumnType::Varchar, ColumnType::Varchar],
    {
        vec![ColumnType::Varchar, ColumnType::Varchar]
    }

    /// The named parameters, all of them texts: key, headers, and the Kafka settings.
    pub fn named_parameters() -> (r: Vec<Column>)
        ensures
            schema::columns_view(r@) == schema::varchars(
                seq!["key"@, "headers"@] + config::config_keys(),
            ),
    {
        let columns = with_column(Vec::new(), "key", ColumnType::Varchar);
        let columns = with_column(columns, "headers", ColumnType::Varchar);
        let keys = tributary_config_keys();
        let all = with_varchars(columns, keys.as_slice());
        proof {
            assert(schema::columns_view(all@) =~= schema::varchars(
                seq!["key"@, "headers"@] + config::config_keys(),
            ));
        }
        all
    }
}

/// The state after a call for rows. `event` is what becomes of handing the message to the
/// producer, if the call does so.
pub open spec fn after_call(state: ProduceView, event: SendView) -> ProduceView {
    match produce_step(state) {
        ProduceStep::Send => after_emit(after_send(state, event)),
        ProduceStep::Emit => after_emit(state),
    }
}

/// The delivery that a call for rows returns, if any.
pub open spec fn row_of_call(state: ProduceView, event: SendView) -> Option<(i32, i64)> {
    let reported = match produce_step(state) {
        ProduceStep::Send => after_send(state, event),
        ProduceStep::Emit => state,
    };
    match emitted_delivery(reported) {
        Ok(row) => row,
        Err(_) => None,
    }
}

/// The deliveries that calls return one after another.
pub open spec fn rows_of_calls(state: ProduceView, events: Seq<SendView>) -> Seq<(i32, i64)>
    decreases events.len(),
{
    if events.len() == 0 {
        Seq::empty()
    } else {
        let rest = rows_of_calls(after_call(state, events[0]), events.drop_first());
        match row_of_call(state, events[0]) {
            Some(row) => seq![row] + rest,
            None => rest,
        }
    }
}

/// How often calls hand the message to the producer.
pub open spec fn sends_of_calls(state: ProduceView, events: Seq<SendView>) -> nat
    decreases events.len(),
{
    if events.len() == 0 {
        0
    } else {
        let rest = sends_of_calls(after_call(state, events[0]), events.drop_first());
        match produce_step(state) {
            ProduceStep::Send => 1 + rest,
            ProduceStep::Emit => rest,
        }
    }
}

/// The number of attempts to send up to the first that brings a delivery report, that one
/// included; all of them where none does.
pub open spec fn first_report(events: Seq<SendView>) -> nat
    decreases events.len(),
{
    if events.len() == 0 {
        0
    } else if send_error(events[0]) is None {
        1
    } else {
        1 + first_report(events.drop_first())
    }
}

/// However often rows are called for, the message is handed to the producer no more once a
/// delivery report came: where the first attempt brings one, it is handed over once.
pub proof fn law_no_send_after_a_report(events: Seq<SendView>)
    ensures
        sends_of_calls(ProduceView::Unsent, events) == first_report(events),
        events.len() > 0 && send_error(events[0]) is None ==> sends_of_calls(
            ProduceView::Unsent,
            events,
        ) == 1,
    decreases events.len(),
{
    if events.len() > 0 {
        if send_error(events[0]) is None {
            lemma_emitted_stays(events.drop_first());
        } else {
            law_no_send_after_a_report(events.drop_first());
        }
    }
}

/// However often rows are called for, a message comes to one row in all, which says where it was
/// stored: there is one where the first delivery report says that the message was stored, and none
/// otherwise.
pub proof fn law_message_comes_to_one_row(events: Seq<SendView>)
    ensures
        rows_of_calls(ProduceView::Unsent, events) == {
            let n = first_report(events);
            if n > 0 && n <= events.len() {
                match events[n - 1] {
                    SendView::Flushed {
                        report: Some(DeliveryView::Delivered { partition, offset }),
                    } => seq![(partition, offset)],
                    _ => Seq::empty(),
                }
            } else {
                Seq::empty()
            }
        },
    decreases events.len(),
{
    if events.len() > 0 {
        let rest = events.drop_first();
        if send_error(events[0]) is None {
            lemma_emitted_stays(rest);
            match row_of_call(ProduceView::Unsent, events[0]) {
                Some(row) => {
                    assert(seq![row] + Seq::<(i32, i64)>::empty() =~= seq![row]);
                },
                None => {},
            }
        } else {
            law_message_comes_to_one_row(rest);
            let n = first_report(rest);
            if n > 0 && n <= rest.len() {
                assert(rest[n - 1] == events[n as int]);
            }
        }
    }
}

proof fn lemma_emitted_stays(events: Seq<SendView>)
    ensures
        rows_of_calls(ProduceView::Emitted, events) == Seq::<(i32, i64)>::empty(),
        sends_of_calls(ProduceView::Emitted, events) == 0,
    decreases events.len(),
{
    if events.len() > 0 {
        lemma_emitted_stays(events.drop_first());
    }
}

/// A call is accepted exactly where it has two positional arguments, the first of them not empty,
/// its headers did not fail to parse, and its first `bootstrap.servers` is not empty. Each refusal
/// says what is wrong: the number of arguments first, then the topic, then the headers, then the
/// servers.
pub proof fn law_produce_calls_are_accepted(
    p: params::ParametersView,
    parsed: Option<Result<kafka::TextMap, Seq<char>>>,
)
    ensures
        ({
            let servers = params::named_value(p.named, "bootstrap.servers"@);
            let failed = parsed is Some && parsed->0 is Err;
            let arguments = p.positional.len() == 2 && p.positional[0].len() > 0;
            match produce_bind(p, parsed) {
                Ok(_) => arguments && !failed && servers is Some && servers->0.text.len() > 0,
                Err(params::BindErrorView::WrongArguments { function }) => p.positional.len() != 2
                    && function == TableFunction::Produce,
                Err(params::BindErrorView::EmptyTopic) => p.positional.len() == 2
                    && p.positional[0].len() == 0,
                Err(params::BindErrorView::InvalidHeaders { detail }) => arguments && failed
                    && parsed->0->Err_0 == detail,
                Err(params::BindErrorView::MissingBootstrapServers { function }) => arguments
                    && !failed && servers is None && function == TableFunction::Produce,
                Err(params::BindErrorView::EmptyBootstrapServers) => arguments && !failed
                    && servers is Some && servers->0.text.len() == 0,
            }
        }),
{
    config::law_settings_are_collected_by_name(p.named, "bootstrap.servers"@);
}

/// An accepted call keeps what it was given, whatever its headers are: the topic is the first
/// positional argument, the message the second, the key the text of the first argument named `key`
/// where there is one and none otherwise, and the settings are those of the call.
pub proof fn law_accepted_message_is_what_was_given(
    p: params::ParametersView,
    parsed: Option<Result<kafka::TextMap, Seq<char>>>,
)
    requires
        produce_bind(p, parsed) is Ok,
    ensures
        ({
            let accepted = produce_bind(p, parsed)->Ok_0;
            let key = params::named_value(p.named, "key"@);
            &&& accepted.topic == p.positional[0]
            &&& accepted.message == p.positional[1]
            &&& accepted.key is Some <==> key is Some
            &&& key is Some ==> accepted.key->0 == key->0.text
            &&& accepted.config == config::collected_config(p.named)
        }),
{
}

/// An accepted call has headers exactly where its headers argument is an object, and they are that
/// object.
pub proof fn law_accepted_headers_are_the_object(
    p: params::ParametersView,
    parsed: Option<Result<kafka::TextMap, Seq<char>>>,
)
    requires
        produce_bind(p, parsed) is Ok,
    ensures
        ({
            let accepted = produce_bind(p, parsed)->Ok_0;
            &&& accepted.headers is Some <==> parsed is Some
            &&& parsed is Some ==> accepted.headers->0 == parsed->0->Ok_0
        }),
{
}

/// Headers change nothing of a call but the headers: two calls of the same arguments that are both
/// accepted have the same topic, message, key and settings.
pub proof fn law_headers_leave_the_rest_alone(
    p: params::ParametersView,
    first: Option<Result<kafka::TextMap, Seq<char>>>,
    second: Option<Result<kafka::TextMap, Seq<char>>>,
)
    requires
        produce_bind(p, first) is Ok,
        produce_bind(p, second) is Ok,
    ensures
        ({
            let a = produce_bind(p, first)->Ok_0;
            let b = produce_bind(p, second)->Ok_0;
            &&& a.topic == b.topic
            &&& a.message == b.message
            &&& a.key == b.key
            &&& a.config == b.config
        }),
{
}

/// The headers argument of a call counts where it is given and not null, and is then read as JSON.
pub proof fn law_headers_argument_is_read_as_json(p: params::ParametersView)
    ensures
        ({
            let given = params::named_value(p.named, "headers"@);
            &&& headers_argument(p) is Some <==> given is Some && !given->0.null
            &&& headers_argument(p) is Some ==> headers_argument(p)->0
                == json::json_string_object(given->0.text)
        }),
{
}

/// The value of parsed headers is what was parsed.
pub proof fn law_parsed_value_is_what_was_parsed(parsed: Option<Result<StringMap, String>>)
    ensures
        parsed is None <==> parsed_view(parsed) is None,
        parsed matches Some(Ok(map)) ==> parsed_view(parsed) == Some(
            Ok::<kafka::TextMap, Seq<char>>(map@),
        ),
        parsed matches Some(Err(message)) ==> parsed_view(parsed) == Some(
            Err::<kafka::TextMap, Seq<char>>(message@),
        ),
{
}

/// The message that is sent is that of the call: its topic, its payload, its key where there is
/// one, and its headers where there are any. Each header of the call is sent once, its value as
/// UTF-8, and no other is sent.
pub proof fn law_sent_record_is_the_message(
    record: ProduceRecord<'_>,
    bind: ProduceBindView,
    pairs: Seq<(Seq<char>, Seq<char>)>,
    i: int,
    name: Seq<char>,
)
    requires
        record_is(record, bind, pairs),
    ensures
        record.topic@ == bind.topic,
        record.payload@ == bind.message,
        record.key is Some <==> bind.key is Some,
        record.key matches Some(key) ==> bind.key->0 == key@,
        record.headers is Some <==> bind.headers is Some,
        record.headers matches Some(headers) ==> {
            let sent = kafka::header_list(headers);
            let map = bind.headers->0;
            &&& sent.len() == map.len()
            &&& 0 <= i < sent.len() ==> {
                &&& map.contains_key(sent[i].0)
                &&& sent[i].1 == Some(vstd::utf8::encode_utf8(map[sent[i].0]))
                &&& forall|j: int| 0 <= j < i ==> (#[trigger] sent[j]).0 != sent[i].0
            }
            &&& map.contains_key(name) ==> exists|k: int|
                0 <= k < sent.len() && (#[trigger] sent[k]).0 == name
        },
{
    if let Some(headers) = record.headers {
        let sent = kafka::header_list(headers);
        text_map::lemma_map_of_len(pairs);
        text_map::lemma_map_of_contains(pairs, name);
        if 0 <= i < sent.len() {
            text_map::lemma_map_of_index(pairs, i);
            assert forall|j: int| 0 <= j < i implies (#[trigger] sent[j]).0 != sent[i].0 by {
                assert(pairs[j].0 != pairs[i].0);
            }
        }
        if bind.headers->0.contains_key(name) {
            let k = choose|k: int| 0 <= k < pairs.len() && #[trigger] pairs[k].0 == name;
            assert(sent[k].0 == name);
        }
    }
}

/// What a call for rows does is decided by whether a delivery was reported and returned: it sends
/// exactly where none was reported.
pub proof fn law_message_is_sent_until_it_is_reported(state: ProduceView, event: SendView)
    ensures
        produce_step(state) == ProduceStep::Send <==> state is Unsent,
        produce_step(state) == ProduceStep::Emit <==> state is Reported || state is Emitted,
        event matches SendView::Flushed { report: Some(delivery) } ==> {
            &&& send_error(event) is None
            &&& after_send(state, event) matches ProduceView::Reported(kept) && kept == delivery
        },
        event matches SendView::Flushed { report: None } ==> {
            &&& send_error(event) matches Some(ProduceErrorView::NoReport)
            &&& after_send(state, event) == state
        },
        event matches SendView::Rejected { detail } ==> {
            &&& send_error(event) matches Some(ProduceErrorView::Enqueue { detail: words }) && words
                == detail
            &&& after_send(state, event) == state
        },
{
}

/// A reported delivery is returned as it was reported, partition and offset each in its place, and
/// then never again; a failed one is an error with the reported words.
pub proof fn law_delivery_is_returned_as_reported(state: ProduceView)
    ensures
        state matches ProduceView::Reported(DeliveryView::Delivered { partition, offset })
            ==> emitted_delivery(state) matches Ok(Some(row)) && row.0 == partition && row.1
            == offset,
        state matches ProduceView::Reported(DeliveryView::Failed(detail)) ==> emitted_delivery(
            state,
        ) matches Err(ProduceErrorView::Delivery { detail: words }) && words == detail,
        state is Emitted || state is Unsent ==> emitted_delivery(state) matches Ok(None),
        state is Unsent <==> after_emit(state) is Unsent,
        state is Reported || state is Emitted ==> after_emit(state) is Emitted,
{
}

/// The messages say what failed, in the words of the client or the broker.
pub proof fn law_produce_messages_say_what_failed(detail: Seq<char>)
    ensures
        (ProduceErrorView::Enqueue { detail }).message() == "failed to enqueue Kafka message: "@
            + detail,
        (ProduceErrorView::Delivery { detail }).message() == "Kafka message delivery failed: "@
            + detail,
        ProduceErrorView::NoReport.message()
            == "Kafka producer completed without a delivery report"@,
{
}

/// The value of a delivery is the delivery.
pub proof fn law_delivery_value_is_the_delivery(delivery: DeliveryState)
    ensures
        match delivery {
            DeliveryState::Delivered { partition, offset } => delivery@
                == (DeliveryView::Delivered { partition, offset }),
            DeliveryState::Failed(detail) => delivery@ == DeliveryView::Failed(detail@),
        },
{
}

/// The value of what became of a message is what became of it.
pub proof fn law_send_value_is_what_became(event: SendEvent)
    ensures
        match event {
            SendEvent::Rejected { detail } => event@ == (SendView::Rejected { detail: detail@ }),
            SendEvent::Flushed { report: Some(delivery) } => event@ == (SendView::Flushed {
                report: Some(delivery@),
            }),
            SendEvent::Flushed { report: None } => event@ == (SendView::Flushed { report: None }),
        },
{
}

/// The value of an error is the error.
pub proof fn law_produce_error_value_is_the_error(error: ProduceError)
    ensures
        match error {
            ProduceError::Enqueue { detail } => error@ == (ProduceErrorView::Enqueue {
                detail: detail@,
            }),
            ProduceError::NoReport => error@ == ProduceErrorView::NoReport,
            ProduceError::Delivery { detail } => error@ == (ProduceErrorView::Delivery {
                detail: detail@,
            }),
        },
{
}

} // verus!
