//! `tributary_metadata`: the brokers, topics and partitions of a cluster, as one row.
use crate::config;
use crate::config::{check_config, collect_config, tributary_config_keys};
use crate::kafka;
use crate::layout;
use crate::metadata_row;
use crate::metadata_row::{write_metadata, BrokerRow, MetadataColumns, TopicRow};
use crate::params;
use crate::params::{BindError, BindParameters, TableFunction};
use crate::schema;
use crate::schema::{with_column, with_varchars, Column, ColumnType};
use crate::text_map::StringMap;
use vstd::prelude::*;

verus! {

/// A call of the metadata function that was accepted: the Kafka settings.
#[derive(Debug)]
pub struct MetadataBind {
    config: StringMap,
}

impl View for MetadataBind {
    type V = kafka::TextMap;

    closed spec fn view(&self) -> kafka::TextMap {
        self.config@
    }
}

impl MetadataBind {
    /// The Kafka settings.
    pub fn config(&self) -> (r: &StringMap)
        ensures
            r@ == self@,
    {
        &self.config
    }
}

/// What a call of the metadata function comes to: there must be no positional argument, and the
/// settings must name the servers.
pub open spec fn metadata_bind(p: params::ParametersView) -> Result<
    kafka::TextMap,
    params::BindErrorView,
> {
    let settings = config::collected_config(p.named);
    if p.positional.len() != 0 {
        Err(params::BindErrorView::WrongArguments { function: TableFunction::Metadata })
    } else {
        match config::config_error(TableFunction::Metadata, settings) {
            Some(e) => Err(e),
            None => Ok(settings),
        }
    }
}

/// The columns of the result of the metadata function.
pub open spec fn metadata_result_columns() -> Seq<(Seq<char>, schema::TypeView)> {
    let partition = schema::TypeView::Struct(
        seq![("id"@, schema::TypeView::Integer), ("leader"@, schema::TypeView::Integer)],
    );
    let topic = schema::TypeView::Struct(
        seq![
            ("name"@, schema::TypeView::Varchar),
            ("error"@, schema::TypeView::Varchar),
            ("partitions"@, schema::TypeView::List(Box::new(partition))),
        ],
    );
    let broker = schema::TypeView::Struct(
        seq![
            ("id"@, schema::TypeView::Integer),
            ("host"@, schema::TypeView::Varchar),
            ("port"@, schema::TypeView::Integer),
        ],
    );
    seq![
        ("brokers"@, schema::TypeView::List(Box::new(broker))),
        ("topics"@, schema::TypeView::List(Box::new(topic))),
    ]
}

/// What the cluster reported, and whether the row was returned.
struct MetadataState {
    brokers: Vec<BrokerRow>,
    topics: Vec<TopicRow>,
    emitted: bool,
}

/// The value of what the cluster reported, and whether the row was returned.
#[verifier::ext_equal]
pub struct MetadataView {
    pub brokers: Seq<metadata_row::BrokerView>,
    pub topics: Seq<metadata_row::TopicView>,
    pub emitted: bool,
}

/// What a call for rows does next.
#[derive(Debug, Clone, Copy, PartialEq, Eq, Structural)]
pub enum MetadataStep {
    /// Ask the cluster for its metadata.
    Fetch,
    /// Return the one row.
    Emit,
    /// Return no row.
    Done,
}

/// What a call for rows does next.
pub open spec fn metadata_step(state: Option<MetadataView>) -> MetadataStep {
    match state {
        None => MetadataStep::Fetch,
        Some(s) => if s.emitted {
            MetadataStep::Done
        } else {
            MetadataStep::Emit
        },
    }
}

/// The state after the cluster has answered.
pub open spec fn after_fetch(
    brokers: Seq<metadata_row::BrokerView>,
    topics: Seq<metadata_row::TopicView>,
) -> Option<MetadataView> {
    Some(MetadataView { brokers, topics, emitted: false })
}

/// The state after the row was returned.
pub open spec fn after_emit(state: Option<MetadataView>) -> Option<MetadataView> {
    match state {
        Some(s) => Some(MetadataView { emitted: true, ..s }),
        None => None,
    }
}

/// The state of a metadata query over all calls for rows: there is none until the cluster has
/// answered.
pub struct MetadataInit {
    state: Option<MetadataState>,
}

impl View for MetadataInit {
    type V = Option<MetadataView>;

    closed spec fn view(&self) -> Option<MetadataView> {
        match self.state {
            Some(s) => Some(
                MetadataView {
                    brokers: metadata_row::brokers_view(s.brokers@),
                    topics: metadata_row::topics_view(s.topics@),
                    emitted: s.emitted,
                },
            ),
            None => None,
        }
    }
}

impl MetadataInit {
    /// Takes in what the cluster reported.
    pub fn fetched(&mut self, brokers: Vec<BrokerRow>, topics: Vec<TopicRow>)
        ensures
            final(self)@ == after_fetch(
                metadata_row::brokers_view(brokers@),
                metadata_row::topics_view(topics@),
            ),
    {
        self.state = Some(MetadataState { brokers, topics, emitted: false });
    }

    /// The topics that the cluster reported, where it has answered.
    pub fn topics(&self) -> (r: Option<&Vec<TopicRow>>)
        ensures
            match (r, self@) {
                (Some(topics), Some(s)) => metadata_row::topics_view(topics@) == s.topics,
                (None, None) => true,
                _ => false,
            },
    {
        match &self.state {
            Some(state) => Some(&state.topics),
            None => None,
        }
    }

    /// The row as columns, where the cluster has answered and the row was not returned yet.
    pub fn output(&self) -> (r: Option<MetadataColumns<'_>>)
        requires
            self@ matches Some(s) ==> layout::total_length(metadata_row::partition_lists(s.topics))
                <= usize::MAX,
        ensures
            match r {
                Some(columns) => metadata_step(self@) == MetadataStep::Emit && columns@
                    == metadata_row::metadata_columns(self@->0.brokers, self@->0.topics),
                None => metadata_step(self@) != MetadataStep::Emit,
            },
    {
        match &self.state {
            Some(state) => {
                if state.emitted {
                    None
                } else {
                    Some(write_metadata(state.brokers.as_slice(), state.topics.as_slice()))
                }
            },
            None => None,
        }
    }

    /// Remembers that the row was returned.
    pub fn emitted(&mut self)
        ensures
            final(self)@ == after_emit(old(self)@),
    {
        if let Some(state) = &mut self.state {
            state.emitted = true;
        }
    }
}

/// The table function `tributary_metadata`.
pub struct KafkaMetadata;

impl KafkaMetadata {
    /// The columns of the result.
    pub fn result_columns() -> (columns: Vec<Column>)
        ensures
            schema::columns_view(columns@) == metadata_result_columns(),
    {
        let partition = with_column(Vec::new(), "id", ColumnType::Integer);
        let partition = with_column(partition, "leader", ColumnType::Integer);
        let partition_list = ColumnType::List(Box::new(ColumnType::Struct(partition)));
        let topic = with_column(Vec::new(), "name", ColumnType::Varchar);
        let topic = with_column(topic, "error", ColumnType::Varchar);
        let topic = with_column(topic, "partitions", partition_list);
        let broker = with_column(Vec::new(), "id", ColumnType::Integer);
        let broker = with_column(broker, "host", ColumnType::Varchar);
        let broker = with_column(broker, "port", ColumnType::Integer);
        let broker_list = ColumnType::List(Box::new(ColumnType::Struct(broker)));
        let topic_list = ColumnType::List(Box::new(ColumnType::Struct(topic)));
        let columns = with_column(Vec::new(), "brokers", broker_list);
        let columns = with_column(columns, "topics", topic_list);
        proof {
            reveal_with_fuel(schema::type_view, 3);
            let partition_view = seq![
                ("id"@, schema::TypeView::Integer),
                ("leader"@, schema::TypeView::Integer),
            ];
            assert(schema::columns_view(partition@) =~= partition_view);
            assert(schema::columns_view(topic@) =~= seq![
                ("name"@, schema::TypeView::Varchar),
                ("error"@, schema::TypeView::Varchar),
                (
                    "partitions"@,
                    schema::TypeView::List(Box::new(schema::TypeView::Struct(partition_view))),
                ),
            ]);
            assert(schema::columns_view(broker@) =~= seq![
                ("id"@, schema::TypeView::Integer),
                ("host"@, schema::TypeView::Varchar),
                ("port"@, schema::TypeView::Integer),
            ]);
            assert(schema::columns_view(columns@) =~= metadata_result_columns());
        }
        columns
    }

    /// Checks the arguments of a call.
    pub fn bind(bind: &BindParameters) -> (r: Result<MetadataBind, BindError>)
        ensures
            match r {
                Ok(accepted) => metadata_bind(bind@) == Ok::<kafka::TextMap, params::BindErrorView>(
                    accepted@,
                ),
                Err(e) => metadata_bind(bind@) == Err::<kafka::TextMap, params::BindErrorView>(e@),
            },
    {
        if bind.positional.len() != 0 {
            return Err(BindError::WrongArguments { function: TableFunction::Metadata });
        }
        let config = collect_config(bind);
        match check_config(TableFunction::Metadata, &config) {
            Ok(_) => Ok(MetadataBind { config }),
            Err(e) => Err(e),
        }
    }

    /// The state before the first call for rows.
    pub fn init() -> (r: MetadataInit)
        ensures
            r@ is None,
    {
        MetadataInit { state: None }
    }

    /// What a call for rows does next.
    pub fn func(init: &MetadataInit) -> (r: MetadataStep)
        ensures
            r == metadata_step(init@),
    {
        match &init.state {
            None => MetadataStep::Fetch,
            Some(state) => {
                if state.emitted {
                    MetadataStep::Done
                } else {
                    MetadataStep::Emit
                }
            },
        }
    }

    /// The types of the positional parameters: there are none.
    pub fn parameters() -> (r: Vec<ColumnType>)
        ensures
            r@ == Seq::<ColumnType>::empty(),
    {
        Vec::new()
    }

    /// The named parameters: the Kafka settings, as texts.
    pub fn named_parameters() -> (r: Vec<Column>)
        ensures
            schema::columns_view(r@) == schema::varchars(config::config_keys()),
    {
        let keys = tributary_config_keys();
        let columns = with_varchars(Vec::new(), keys.as_slice());
        proof {
            assert(schema::columns_view(columns@) =~= schema::varchars(config::config_keys()));
        }
        columns
    }
}

/// What a cluster answers: its brokers and its topics.
pub type Answer = (Seq<metadata_row::BrokerView>, Seq<metadata_row::TopicView>);

/// The state after a call for rows. `answer` is what the cluster answers if it is asked, `None`
/// being a failure, which fails the call and leaves the state alone.
pub open spec fn after_call(state: Option<MetadataView>, answer: Option<Answer>) -> Option<
    MetadataView,
> {
    match metadata_step(state) {
        MetadataStep::Fetch => match answer {
            Some(a) => after_emit(after_fetch(a.0, a.1)),
            None => state,
        },
        MetadataStep::Emit => after_emit(state),
        MetadataStep::Done => state,
    }
}

/// The row that a call for rows returns, if any: what the state holds, once the answer of the
/// cluster was taken in, laid out as columns.
pub open spec fn row_of_call(state: Option<MetadataView>, answer: Option<Answer>) -> Option<
    metadata_row::MetadataColumnsView,
> {
    let held = match metadata_step(state) {
        MetadataStep::Fetch => match answer {
            Some(a) => after_fetch(a.0, a.1),
            None => state,
        },
        _ => state,
    };
    if metadata_step(held) == MetadataStep::Emit {
        Some(metadata_row::metadata_columns(held->0.brokers, held->0.topics))
    } else {
        None
    }
}

/// The rows that calls return one after another.
pub open spec fn rows_of_calls(
    state: Option<MetadataView>,
    answers: Seq<Option<Answer>>,
) -> Seq<metadata_row::MetadataColumnsView>
    decreases answers.len(),
{
    if answers.len() == 0 {
        Seq::empty()
    } else {
        let rest = rows_of_calls(after_call(state, answers[0]), answers.drop_first());
        match row_of_call(state, answers[0]) {
            Some(row) => seq![row] + rest,
            None => rest,
        }
    }
}

/// The first answer that is not a failure.
pub open spec fn first_answer(answers: Seq<Option<Answer>>) -> Option<Answer>
    decreases answers.len(),
{
    if answers.len() == 0 {
        None
    } else {
        match answers[0] {
            Some(a) => Some(a),
            None => first_answer(answers.drop_first()),
        }
    }
}

/// However often a metadata query is called, it returns one row in all, and that row is what the
/// cluster answered first. Where the cluster never answers, there is no row.
pub proof fn law_metadata_returns_one_row(answers: Seq<Option<Answer>>)
    ensures
        rows_of_calls(None, answers) == match first_answer(answers) {
            Some(a) => seq![metadata_row::metadata_columns(a.0, a.1)],
            None => Seq::empty(),
        },
    decreases answers.len(),
{
    if answers.len() > 0 {
        match answers[0] {
            Some(a) => {
                lemma_no_rows_when_done(after_emit(after_fetch(a.0, a.1)), answers.drop_first());
                let row = metadata_row::metadata_columns(a.0, a.1);
                assert(seq![row] + Seq::<metadata_row::MetadataColumnsView>::empty() =~= seq![row]);
            },
            None => {
                law_metadata_returns_one_row(answers.drop_first());
            },
        }
    }
}

/// The first answer is one of the answers, and all before it are failures; there is none exactly
/// where all are failures.
pub proof fn law_first_answer_comes_first(answers: Seq<Option<Answer>>)
    ensures
        first_answer(answers) is None <==> forall|k: int|
            0 <= k < answers.len() ==> #[trigger] answers[k] is None,
        first_answer(answers) matches Some(a) ==> exists|k: int|
            0 <= k < answers.len() && #[trigger] answers[k] == Some(a) && forall|j: int|
                0 <= j < k ==> #[trigger] answers[j] is None,
    decreases answers.len(),
{
    if answers.len() > 0 {
        match answers[0] {
            Some(a) => {
                assert(answers[0] == Some(a));
            },
            None => {
                let rest = answers.drop_first();
                law_first_answer_comes_first(rest);
                match first_answer(rest) {
                    Some(a) => {
                        let k = choose|k: int|
                            0 <= k < rest.len() && #[trigger] rest[k] == Some(a) && forall|j: int|
                                0 <= j < k ==> #[trigger] rest[j] is None;
                        assert(answers[k + 1] == Some(a));
                        assert forall|j: int| 0 <= j < k + 1 implies #[trigger] answers[j] is None
                            by {
                            if j > 0 {
                                assert(rest[j - 1] == answers[j]);
                            }
                        }
                    },
                    None => {
                        assert forall|k: int| 0 <= k < answers.len() implies #[trigger] answers[k]
                            is None by {
                            if k > 0 {
                                assert(rest[k - 1] == answers[k]);
                            }
                        }
                    },
                }
            },
        }
    }
}

/// What the cluster reports is what the query then returns. The call that asks the cluster returns
/// a row, and that row reads back to the answer: as many brokers and topics as the cluster
/// reported, broker `i` with its number, host and port, and topic `i` with its name, its error and
/// all of its partitions in order.
pub proof fn law_row_reads_back_to_the_answer(
    brokers: Seq<metadata_row::BrokerView>,
    topics: Seq<metadata_row::TopicView>,
    i: int,
)
    ensures
        row_of_call(None, Some((brokers, topics))) is Some,
        ({
            let c = row_of_call(None, Some((brokers, topics)))->0;
            &&& c.broker_ids.len() == brokers.len()
            &&& c.broker_hosts.len() == brokers.len()
            &&& c.broker_ports.len() == brokers.len()
            &&& c.topic_names.len() == topics.len()
            &&& c.topic_errors.len() == topics.len()
            &&& c.partition_entries.len() == topics.len()
            &&& 0 <= i < brokers.len() ==> {
                &&& c.broker_ids[i] == brokers[i].id
                &&& c.broker_hosts[i] == brokers[i].host
                &&& c.broker_ports[i] == brokers[i].port
            }
            &&& 0 <= i < topics.len() ==> {
                let entry = c.partition_entries[i];
                &&& c.topic_names[i] == topics[i].name
                &&& c.topic_errors[i] == topics[i].error
                &&& entry.1 == topics[i].partitions.len()
                &&& 0 <= entry.0 && entry.0 + entry.1 <= c.partition_ids.len()
                &&& c.partition_ids.len() == c.partition_leaders.len()
                &&& forall|j: int|
                    0 <= j < topics[i].partitions.len() ==> {
                        &&& (#[trigger] topics[i].partitions[j]).id == c.partition_ids[entry.0 + j]
                        &&& topics[i].partitions[j].leader == c.partition_leaders[entry.0 + j]
                    }
            }
        }),
{
    metadata_row::law_columns_hold_each_broker_field(brokers, topics, i);
    if 0 <= i < topics.len() {
        metadata_row::law_columns_hold_each_topic_field(brokers, topics, i);
    }
}

/// Taking in the answer of the cluster keeps all of it, and its row is still to be returned.
pub proof fn law_answer_is_kept_whole(
    brokers: Seq<metadata_row::BrokerView>,
    topics: Seq<metadata_row::TopicView>,
)
    ensures
        after_fetch(brokers, topics) matches Some(state) && state.brokers == brokers
            && state.topics == topics && !state.emitted,
{
}

/// The cluster is asked exactly where it has not answered, its row is returned exactly where that
/// was not done, and returning it changes nothing but that.
pub proof fn law_metadata_goes_on_in_order(state: Option<MetadataView>)
    ensures
        metadata_step(state) == MetadataStep::Fetch <==> state is None,
        metadata_step(state) == MetadataStep::Emit <==> state is Some && !state->0.emitted,
        metadata_step(state) == MetadataStep::Done <==> state is Some && state->0.emitted,
        after_emit(state) is Some <==> state is Some,
        state is Some ==> after_emit(state)->0.emitted && after_emit(state)->0.brokers
            == state->0.brokers && after_emit(state)->0.topics == state->0.topics,
{
}

/// A call of the metadata function is accepted exactly where it has no positional argument and its
/// first `bootstrap.servers` is not empty, with the settings of the call; each refusal says what
/// is wrong, the number of arguments first.
pub proof fn law_metadata_calls_are_accepted(p: params::ParametersView)
    ensures
        ({
            let servers = params::named_value(p.named, "bootstrap.servers"@);
            match metadata_bind(p) {
                Ok(settings) => {
                    &&& p.positional.len() == 0
                    &&& servers is Some
                    &&& servers->0.text.len() > 0
                    &&& settings == config::collected_config(p.named)
                },
                Err(params::BindErrorView::WrongArguments { function }) => {
                    &&& p.positional.len() != 0
                    &&& function == TableFunction::Metadata
                },
                Err(params::BindErrorView::MissingBootstrapServers { function }) => {
                    &&& p.positional.len() == 0
                    &&& servers is None
                    &&& function == TableFunction::Metadata
                },
                Err(params::BindErrorView::EmptyBootstrapServers) => {
                    &&& p.positional.len() == 0
                    &&& servers is Some
                    &&& servers->0.text.len() == 0
                },
                Err(_) => false,
            }
        }),
{
    config::law_settings_are_collected_by_name(p.named, "bootstrap.servers"@);
}

proof fn lemma_no_rows_when_done(state: Option<MetadataView>, answers: Seq<Option<Answer>>)
    requires
        metadata_step(state) == MetadataStep::Done,
    ensures
        rows_of_calls(state, answers) == Seq::<metadata_row::MetadataColumnsView>::empty(),
    decreases answers.len(),
{
    if answers.len() > 0 {
        lemma_no_rows_when_done(state, answers.drop_first());
    }
}

} // verus!
