//! `tributary_scan_topic`: the records of a topic, as they stood when the scan started.
use crate::config;
use crate::config::{check_config, collect_config, tributary_config_keys};
use crate::kafka;
use crate::layout;
use crate::params;
use crate::params::{BindError, BindParameters, TableFunction};
use crate::row;
use crate::row::{write_rows, Row, RowColumns};
use crate::scan_state;
use crate::scan_state::{KafkaScanState, PollEvent, ScanAction, ScanError};
use crate::schema;
use crate::schema::{with_column, with_varchars, Column, ColumnType};
use crate::text_map::StringMap;
use vstd::prelude::*;

verus! {

/// The number of threads that scan a topic.
pub const MAX_THREADS: u64 = 1;

/// How long one poll of the Kafka client waits, in milliseconds.
pub const POLL_TIMEOUT_MS: u64 = 250;

/// A call of the scan that was accepted: the topic and the Kafka settings.
#[derive(Debug)]
pub struct KafkaScanBind {
    topic: String,
    config: StringMap,
}

/// The value of a [`KafkaScanBind`].
pub struct ScanBindView {
    pub topic: Seq<char>,
    pub config: kafka::TextMap,
}

impl View for KafkaScanBind {
    type V = ScanBindView;

    closed spec fn view(&self) -> ScanBindView {
        ScanBindView { topic: self.topic@, config: self.config@ }
    }
}

impl KafkaScanBind {
    /// The topic.
    pub fn topic(&self) -> (r: &str)
        ensures
            r@ == self@.topic,
    {
        self.topic.as_str()
    }

    /// The Kafka settings.
    pub fn config(&self) -> (r: &StringMap)
        ensures
            r@ == self@.config,
    {
        &self.config
    }
}

/// What a call of the scan comes to: the topic must be the one positional argument and not empty,
/// and the settings must name the servers.
pub open spec fn scan_bind(p: params::ParametersView) -> Result<
    ScanBindView,
    params::BindErrorView,
> {
    let settings = config::collected_config(p.named);
    if p.positional.len() != 1 {
        Err(params::BindErrorView::WrongArguments { function: TableFunction::ScanTopic })
    } else if p.positional[0].len() == 0 {
        Err(params::BindErrorView::EmptyTopic)
    } else {
        match config::config_error(TableFunction::ScanTopic, settings) {
            Some(e) => Err(e),
            None => Ok(ScanBindView { topic: p.positional[0], config: settings }),
        }
    }
}

/// The columns of the scan's result.
pub open spec fn scan_columns() -> Seq<(Seq<char>, schema::TypeView)> {
    seq![
        ("topic"@, schema::TypeView::Varchar),
        ("partition"@, schema::TypeView::Integer),
        ("offset"@, schema::TypeView::Bigint),
        ("key"@, schema::TypeView::Blob),
        ("message"@, schema::TypeView::Blob),
        (
            "headers"@,
            schema::TypeView::List(
                Box::new(
                    schema::TypeView::Struct(
                        seq![
                            ("key"@, schema::TypeView::Varchar),
                            ("value"@, schema::TypeView::Blob),
                        ],
                    ),
                ),
            ),
        ),
    ]
}

/// What a call for more rows does next.
#[derive(Debug, Clone, Copy, PartialEq, Eq, Structural)]
pub enum ScanStep {
    /// Connect, and take the snapshot of the topic.
    Open,
    /// Poll the Kafka client once more.
    Poll,
    /// Return the rows that are there; none means that the scan is over.
    Emit,
}

/// What a call for more rows does next, with `rows` of at most `capacity` rows collected.
pub open spec fn scan_step(
    state: Option<scan_state::ScanView>,
    rows: nat,
    capacity: nat,
) -> ScanStep {
    match state {
        None => ScanStep::Open,
        Some(s) => match scan_state::next_action(s, rows, capacity) {
            ScanAction::Poll => ScanStep::Poll,
            ScanAction::Emit => ScanStep::Emit,
        },
    }
}

/// The state of a scan over all calls for more rows: there is none until the scan is opened.
pub struct KafkaScanInit {
    state: Option<KafkaScanState>,
}

impl View for KafkaScanInit {
    type V = Option<scan_state::ScanView>;

    closed spec fn view(&self) -> Option<scan_state::ScanView> {
        match self.state {
            Some(s) => Some(s@),
            None => None,
        }
    }
}

impl KafkaScanInit {
    /// Starts the scan that was prepared.
    pub fn open(&mut self, state: KafkaScanState)
        ensures
            final(self)@ == Some(state@),
    {
        self.state = Some(state);
    }

    /// Takes in what came of a poll, and says what to do next. Where the client failed, the call
    /// fails.
    pub fn polled(
        &mut self,
        bind: &KafkaScanBind,
        capacity: usize,
        rows: &mut Vec<Row>,
        event: PollEvent,
    ) -> (r: Result<ScanStep, ScanError>)
        requires
            old(self)@ is Some,
        ensures
            final(self)@ == Some(scan_state::state_after(old(self)@->0, event@)),
            row::rows_view(final(rows)@) == row::rows_view(old(rows)@) + scan_state::rows_from(
                old(self)@->0.snapshots,
                bind@.topic,
                event@,
            ),
            match r {
                Ok(step) => scan_state::failure_of(event@) is None && step == scan_step(
                    final(self)@,
                    final(rows)@.len(),
                    capacity as nat,
                ),
                Err(e) => scan_state::failure_of(event@) == Some(e@),
            },
    {
        match &mut self.state {
            Some(state) => match state.next_rows(bind.topic.as_str(), capacity, rows, event) {
                Ok(ScanAction::Poll) => Ok(ScanStep::Poll),
                Ok(ScanAction::Emit) => Ok(ScanStep::Emit),
                Err(e) => Err(e),
            },
            None => Ok(ScanStep::Open),
        }
    }
}

/// The table function `tributary_scan_topic`.
pub struct KafkaScan;

impl KafkaScan {
    /// The columns of the result.
    pub fn result_columns() -> (columns: Vec<Column>)
        ensures
            schema::columns_view(columns@) == scan_columns(),
    {
        let header = with_column(
            with_column(Vec::new(), "key", ColumnType::Varchar),
            "value",
            ColumnType::Blob,
        );
        let header_list = ColumnType::List(Box::new(ColumnType::Struct(header)));
        let columns = with_column(Vec::new(), "topic", ColumnType::Varchar);
        let columns = with_column(columns, "partition", ColumnType::Integer);
        let columns = with_column(columns, "offset", ColumnType::Bigint);
        let columns = with_column(columns, "key", ColumnType::Blob);
        let columns = with_column(columns, "message", ColumnType::Blob);
        let columns = with_column(columns, "headers", header_list);
        proof {
            reveal_with_fuel(schema::type_view, 3);
            assert(schema::columns_view(header@) =~= seq![
                ("key"@, schema::TypeView::Varchar),
                ("value"@, schema::TypeView::Blob),
            ]);
            assert(schema::columns_view(columns@) =~= scan_columns());
        }
        columns
    }

    /// Checks the arguments of a call.
    pub fn bind(bind: &BindParameters) -> (r: Result<KafkaScanBind, BindError>)
        ensures
            match r {
                Ok(accepted) => scan_bind(bind@) == Ok::<ScanBindView, params::BindErrorView>(
                    accepted@,
                ),
                Err(e) => scan_bind(bind@) == Err::<ScanBindView, params::BindErrorView>(e@),
            },
    {
        if bind.positional.len() != 1 {
            return Err(BindError::WrongArguments { function: TableFunction::ScanTopic });
        }
        let topic = bind.positional[0].clone();
        if topic.as_str().is_empty() {
            return Err(BindError::EmptyTopic);
        }
        let config = collect_config(bind);
        match check_config(TableFunction::ScanTopic, &config) {
            Ok(_) => Ok(KafkaScanBind { topic, config }),
            Err(e) => Err(e),
        }
    }

    /// The state before the first call for rows.
    pub fn init() -> (r: KafkaScanInit)
        ensures
            r@ is None,
    {
        KafkaScanInit { state: None }
    }

    /// What a call for more rows does next.
    pub fn func(init: &KafkaScanInit, rows: usize, capacity: usize) -> (r: ScanStep)
        ensures
            r == scan_step(init@, rows as nat, capacity as nat),
    {
        match &init.state {
            None => ScanStep::Open,
            Some(state) => match state.next_action(rows, capacity) {
                ScanAction::Poll => ScanStep::Poll,
                ScanAction::Emit => ScanStep::Emit,
            },
        }
    }

    /// The chunk that a call returns: the rows as columns, or `None`, an empty chunk, where there
    /// are none.
    pub fn output<'a>(rows: &'a [Row]) -> (r: Option<RowColumns<'a>>)
        requires
            layout::total_length(row::header_lists(row::rows_view(rows@))) <= usize::MAX,
        ensures
            match r {
                Some(columns) => rows@.len() > 0 && columns@ == row::row_columns(
                    row::rows_view(rows@),
                ),
                None => rows@.len() == 0,
            },
    {
        if rows.len() == 0 {
            None
        } else {
            Some(write_rows(rows))
        }
    }

    /// The types of the positional parameters.
    pub fn parameters() -> (r: Vec<ColumnType>)
        ensures
            r@ == seq![ColumnType::Varchar],
    {
        vec![ColumnType::Varchar]
    }

    /// The named parameters: the Kafka settings, as texts.
    pub fn named_parameters() -> (r: Vec<Column>)
        ensures
            schema::columns_view(r@) == schema::varchars(config::config_keys()),
    {
        let keys = tributary_config_keys();
        let columns = with_varchars(Vec::new(), keys.as_slice());
        proof {
            assert(schema::columns_view(columns@) =~= schema::varchars(config::config_keys()));
        }
        columns
    }
}

/// A call of the scan is accepted exactly where it has one positional argument, which is not
/// empty, and its first `bootstrap.servers` is not empty. The topic is then that argument and the
/// settings are those of the call; each refusal says what is wrong, the number of arguments first,
/// then the topic.
pub proof fn law_scan_calls_are_accepted(p: params::ParametersView)
    ensures
        ({
            let servers = params::named_value(p.named, "bootstrap.servers"@);
            match scan_bind(p) {
                Ok(accepted) => {
                    &&& p.positional.len() == 1
                    &&& p.positional[0].len() > 0
                    &&& servers is Some
                    &&& servers->0.text.len() > 0
                    &&& accepted.topic == p.positional[0]
                    &&& accepted.config == config::collected_config(p.named)
                },
                Err(params::BindErrorView::WrongArguments { function }) => {
                    &&& p.positional.len() != 1
                    &&& function == TableFunction::ScanTopic
                },
                Err(params::BindErrorView::EmptyTopic) => {
                    &&& p.positional.len() == 1
                    &&& p.positional[0].len() == 0
                },
                Err(params::BindErrorView::MissingBootstrapServers { function }) => {
                    &&& p.positional.len() == 1
                    &&& p.positional[0].len() > 0
                    &&& servers is None
                    &&& function == TableFunction::ScanTopic
                },
                Err(params::BindErrorView::EmptyBootstrapServers) => {
                    &&& p.positional.len() == 1
                    &&& p.positional[0].len() > 0
                    &&& servers is Some
                    &&& servers->0.text.len() == 0
                },
                Err(_) => false,
            }
        }),
{
    config::law_settings_are_collected_by_name(p.named, "bootstrap.servers"@);
}

/// A scan is opened exactly where it is not open yet; an open one polls as long as its rows have
/// room and fewer partitions are finished than were captured, and returns its rows otherwise.
pub proof fn law_scan_is_opened_before_it_polls(
    state: Option<scan_state::ScanView>,
    rows: nat,
    capacity: nat,
)
    ensures
        scan_step(state, rows, capacity) == ScanStep::Open <==> state is None,
        scan_step(state, rows, capacity) == ScanStep::Poll <==> state is Some && rows < capacity
            && state->0.finished.len() < state->0.snapshots.len(),
        scan_step(state, rows, capacity) == ScanStep::Emit <==> state is Some && (rows >= capacity
            || state->0.finished.len() >= state->0.snapshots.len()),
{
}

} // verus!
