//! The arguments of a call of a table function, and what is wrong with them.
use crate::text_map::{join, same_text};
use vstd::prelude::*;

verus! {

/// The three table functions.
#[derive(Debug, Clone, Copy, PartialEq, Eq, Structural)]
pub enum TableFunction {
    /// Reads the records of a topic.
    ScanTopic,
    /// Describes the cluster.
    Metadata,
    /// Sends one message.
    Produce,
}

impl TableFunction {
    /// The name under which the function is registered.
    pub open spec fn spec_name(self) -> Seq<char> {
        match self {
            TableFunction::ScanTopic => "tributary_scan_topic"@,
            TableFunction::Metadata => "tributary_metadata"@,
            TableFunction::Produce => "tributary_produce"@,
        }
    }

    /// The name under which the function is registered.
    pub fn name(self) -> (r: &'static str)
        ensures
            r@ == self.spec_name(),
    {
        match self {
            TableFunction::ScanTopic => "tributary_scan_topic",
            TableFunction::Metadata => "tributary_metadata",
            TableFunction::Produce => "tributary_produce",
        }
    }

    /// The positional arguments that the function takes, as its error message puts it.
    pub open spec fn spec_usage(self) -> Seq<char> {
        match self {
            TableFunction::ScanTopic =>
                " requires one positional argument: topic; Kafka settings use named parameters"@,
            TableFunction::Metadata =>
                " does not accept positional arguments; Kafka settings use named parameters"@,
            TableFunction::Produce =>
                " requires two positional arguments: topic and message; Kafka settings, key, and headers use named parameters"@,
        }
    }

    /// The positional arguments that the function takes, as its error message puts it.
    fn usage(self) -> (r: &'static str)
        ensures
            r@ == self.spec_usage(),
    {
        match self {
            TableFunction::ScanTopic =>
                " requires one positional argument: topic; Kafka settings use named parameters",
            TableFunction::Metadata =>
                " does not accept positional arguments; Kafka settings use named parameters",
            TableFunction::Produce =>
                " requires two positional arguments: topic and message; Kafka settings, key, and headers use named parameters",
        }
    }
}

/// Why a call of a table function is refused.
#[derive(Debug)]
pub enum BindError {
    /// The number of positional arguments is not the function's.
    WrongArguments { function: TableFunction },
    /// The topic is the empty text.
    EmptyTopic,
    /// The headers are not a JSON object of strings; `detail` says why.
    InvalidHeaders { detail: String },
    /// There is no `bootstrap.servers`.
    MissingBootstrapServers { function: TableFunction },
    /// `bootstrap.servers` is the empty text.
    EmptyBootstrapServers,
}

/// The value of a [`BindError`].
pub enum BindErrorView {
    WrongArguments { function: TableFunction },
    EmptyTopic,
    InvalidHeaders { detail: Seq<char> },
    MissingBootstrapServers { function: TableFunction },
    EmptyBootstrapServers,
}

impl View for BindError {
    type V = BindErrorView;

    open spec fn view(&self) -> BindErrorView {
        match self {
            BindError::WrongArguments { function } => BindErrorView::WrongArguments {
                function: *function,
            },
            BindError::EmptyTopic => BindErrorView::EmptyTopic,
            BindError::InvalidHeaders { detail } => BindErrorView::InvalidHeaders {
                detail: detail@,
            },
            BindError::MissingBootstrapServers {
                function,
            } => BindErrorView::MissingBootstrapServers { function: *function },
            BindError::EmptyBootstrapServers => BindErrorView::EmptyBootstrapServers,
        }
    }
}

impl BindErrorView {
    /// The message of the error.
    pub open spec fn message(self) -> Seq<char> {
        match self {
            BindErrorView::WrongArguments { function } => function.spec_name()
                + function.spec_usage(),
            BindErrorView::EmptyTopic => "topic must not be empty"@,
            BindErrorView::InvalidHeaders { detail } =>
                "headers must be a JSON object with string values: "@ + detail,
            BindErrorView::MissingBootstrapServers { function } => function.spec_name()
                + " requires named parameter \"bootstrap.servers\""@,
            BindErrorView::EmptyBootstrapServers => "bootstrap.servers must not be empty"@,
        }
    }
}

impl BindError {
    /// The message of the error.
    pub fn message(&self) -> (r: String)
        ensures
            r@ == self@.message(),
    {
        match self {
            BindError::WrongArguments { function } => join(function.name(), function.usage()),
            BindError::EmptyTopic => "topic must not be empty".to_owned(),
            BindError::InvalidHeaders { detail } => join(
                "headers must be a JSON object with string values: ",
                detail.as_str(),
            ),
            BindError::MissingBootstrapServers { function } => join(
                function.name(),
                " requires named parameter \"bootstrap.servers\"",
            ),
            BindError::EmptyBootstrapServers => "bootstrap.servers must not be empty".to_owned(),
        }
    }
}

/// A named argument: its name, its value as text, and whether the value is the SQL null.
#[derive(Debug)]
pub struct NamedParameter {
    pub name: String,
    pub text: String,
    pub null: bool,
}

/// The value of a [`NamedParameter`].
pub struct NamedView {
    pub name: Seq<char>,
    pub text: Seq<char>,
    pub null: bool,
}

impl View for NamedParameter {
    type V = NamedView;

    open spec fn view(&self) -> NamedView {
        NamedView { name: self.name@, text: self.text@, null: self.null }
    }
}

/// The arguments of a call: the positional ones as texts, and the named ones that were given.
#[derive(Debug)]
pub struct BindParameters {
    pub positional: Vec<String>,
    pub named: Vec<NamedParameter>,
}

/// The value of [`BindParameters`].
pub struct ParametersView {
    pub positional: Seq<Seq<char>>,
    pub named: Seq<NamedView>,
}

impl View for BindParameters {
    type V = ParametersView;

    open spec fn view(&self) -> ParametersView {
        ParametersView {
            positional: self.positional@.map_values(|p: String| p@),
            named: self.named@.map_values(|p: NamedParameter| p@),
        }
    }
}

/// The first argument of a name.
pub open spec fn named_value(named: Seq<NamedView>, name: Seq<char>) -> Option<NamedView>
    decreases named.len(),
{
    if named.len() == 0 {
        None
    } else if named[0].name == name {
        Some(named[0])
    } else {
        named_value(named.drop_first(), name)
    }
}

impl BindParameters {
    /// The argument of a name.
    pub fn named_parameter(&self, name: &str) -> (r: Option<&NamedParameter>)
        ensures
            (match r {
                Some(p) => Some(p@),
                None => None,
            }) == named_value(self@.named, name@),
    {
        let ghost named = self@.named;
        let mut i: usize = 0;
        proof {
            assert(named.skip(0) =~= named);
        }
        while i < self.named.len()
            invariant
                i <= self.named.len(),
                named == self@.named,
                named_value(named, name@) == named_value(named.skip(i as int), name@),
            decreases self.named.len() - i,
        {
            proof {
                assert(named.skip(i as int)[0] == self.named[i as int]@);
                assert(named.skip(i as int).drop_first() =~= named.skip(i + 1));
            }
            if same_text(self.named[i].name.as_str(), name) {
                return Some(&self.named[i]);
            }
            i += 1;
        }
        None
    }
}

/// The argument of a name is the first that has the name.
pub proof fn law_first_argument_of_a_name_counts(named: Seq<NamedView>, name: Seq<char>, i: int)
    requires
        0 <= i < named.len(),
        named[i].name == name,
        forall|j: int| 0 <= j < i ==> (#[trigger] named[j]).name != name,
    ensures
        named_value(named, name) == Some(named[i]),
    decreases named.len(),
{
    if i > 0 {
        let rest = named.drop_first();
        assert(named[0].name != name);
        assert(rest[i - 1] == named[i]);
        assert forall|j: int| 0 <= j < i - 1 implies (#[trigger] rest[j]).name != name by {
            assert(named[j + 1] == rest[j]);
        }
        law_first_argument_of_a_name_counts(rest, name, i - 1);
    }
}

/// Where no argument has a name, there is no argument of that name.
pub proof fn law_no_argument_is_made_up(named: Seq<NamedView>, name: Seq<char>)
    requires
        forall|i: int| 0 <= i < named.len() ==> (#[trigger] named[i]).name != name,
    ensures
        named_value(named, name) is None,
    decreases named.len(),
{
    if named.len() > 0 {
        let rest = named.drop_first();
        assert(named[0].name != name);
        assert forall|i: int| 0 <= i < rest.len() implies (#[trigger] rest[i]).name != name by {
            assert(named[i + 1] == rest[i]);
        }
        law_no_argument_is_made_up(rest, name);
    }
}

/// The value of arguments holds them one by one, each with its name, its text and whether it is
/// null.
pub proof fn law_arguments_are_taken_one_by_one(p: BindParameters, i: int)
    ensures
        p@.positional.len() == p.positional@.len(),
        0 <= i < p.positional@.len() ==> p@.positional[i] == p.positional@[i]@,
        p@.named.len() == p.named@.len(),
        0 <= i < p.named@.len() ==> p@.named[i].name == p.named@[i].name@ && p@.named[i].text
            == p.named@[i].text@ && p@.named[i].null == p.named@[i].null,
{
}

/// The messages say which function was called and what is wrong with the call.
pub proof fn law_bind_messages_say_what_is_wrong(function: TableFunction, detail: Seq<char>)
    ensures
        (BindErrorView::InvalidHeaders { detail }).message()
            == "headers must be a JSON object with string values: "@ + detail,
        (BindErrorView::MissingBootstrapServers { function }).message() == function.spec_name()
            + " requires named parameter \"bootstrap.servers\""@,
        (BindErrorView::WrongArguments { function }).message() == function.spec_name()
            + function.spec_usage(),
        BindErrorView::EmptyTopic.message() == "topic must not be empty"@,
        BindErrorView::EmptyBootstrapServers.message() == "bootstrap.servers must not be empty"@,
{
}

/// The value of an error is the error.
pub proof fn law_bind_error_value_is_the_error(error: BindError)
    ensures
        match error {
            BindError::WrongArguments { function } => error@ == (BindErrorView::WrongArguments {
                function,
            }),
            BindError::EmptyTopic => error@ == BindErrorView::EmptyTopic,
            BindError::InvalidHeaders { detail } => error@ == (BindErrorView::InvalidHeaders {
                detail: detail@,
            }),
            BindError::MissingBootstrapServers { function } => error@
                == (BindErrorView::MissingBootstrapServers { function }),
            BindError::EmptyBootstrapServers => error@ == BindErrorView::EmptyBootstrapServers,
        },
{
}

} // verus!
