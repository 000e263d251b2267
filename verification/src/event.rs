//! The declaration of an entry point: which of the three host-visible entry
//! points a handler stands behind, under which names, and what is done when
//! the handler's pipeline fails.

use vstd::prelude::*;
use vstd::string::StringExecFns;
use crate::error::Error;
use crate::text::same_text;

verus! {

/// The three entry points that the host knows.
#[derive(Debug, Clone, Copy, PartialEq, Eq, Structural)]
pub enum HandlerType {
    /// Called with each request.
    Fetch,
    /// Called on a scheduled trigger.
    Scheduled,
    /// Called once, when the module starts.
    Start,
}

/// The options that a declaration settles.
#[derive(Debug, Clone, Copy, PartialEq, Eq, Structural)]
pub struct EventOptions {
    pub handler_type: HandlerType,
    pub respond_with_errors: bool,
}

/// Why a declaration is refused.
#[derive(Debug, PartialEq, Eq)]
pub enum EventError {
    /// An attribute that is none of the four known ones.
    InvalidAttribute(String),
    /// No attribute names an entry point.
    MissingHandlerType,
    /// More than one attribute names an entry point.
    SeveralHandlerTypes,
}

/// The entry point that an attribute names, if it names one.
pub open spec fn kind_of(attribute: Seq<char>) -> Option<HandlerType> {
    if attribute == "fetch"@ {
        Some(HandlerType::Fetch)
    } else if attribute == "scheduled"@ {
        Some(HandlerType::Scheduled)
    } else if attribute == "start"@ {
        Some(HandlerType::Start)
    } else {
        None
    }
}

/// Whether an attribute asks for failures to be answered with a response.
pub open spec fn is_respond_flag(attribute: Seq<char>) -> bool {
    attribute == "respond_with_errors"@
}

/// Whether an attribute is one of the four known ones.
pub open spec fn is_known(attribute: Seq<char>) -> bool {
    kind_of(attribute) is Some || is_respond_flag(attribute)
}

/// The texts of a list of attributes.
pub open spec fn texts(attributes: Seq<String>) -> Seq<Seq<char>> {
    Seq::new(attributes.len(), |i: int| attributes[i]@)
}

/// How many of the attributes name an entry point.
pub open spec fn kind_count(attributes: Seq<Seq<char>>) -> nat
    decreases attributes.len(),
{
    if attributes.len() == 0 {
        0
    } else if kind_of(attributes.last()) is Some {
        kind_count(attributes.drop_last()) + 1
    } else {
        kind_count(attributes.drop_last())
    }
}

/// The entry point that the last of the naming attributes names. Where
/// exactly one attribute names an entry point, it is that one.
pub open spec fn last_kind(attributes: Seq<Seq<char>>) -> Option<HandlerType>
    decreases attributes.len(),
{
    if attributes.len() == 0 {
        None
    } else if kind_of(attributes.last()) is Some {
        kind_of(attributes.last())
    } else {
        last_kind(attributes.drop_last())
    }
}

/// Whether any attribute asks for failures to be answered with a response.
pub open spec fn has_respond_flag(attributes: Seq<Seq<char>>) -> bool {
    exists|i: int| 0 <= i < attributes.len() && is_respond_flag(#[trigger] attributes[i])
}

/// The place of the first attribute that is not known, or the length of the
/// list where all are known.
pub open spec fn first_unknown(attributes: Seq<Seq<char>>) -> int
    decreases attributes.len(),
{
    if attributes.len() == 0 {
        0
    } else if !is_known(attributes[0]) {
        0
    } else {
        1 + first_unknown(attributes.drop_first())
    }
}

impl EventError {
    /// The refusal in words.
    pub open spec fn message(self) -> Seq<char> {
        match self {
            EventError::InvalidAttribute(name) => "Invalid attribute: "@ + name@,
            EventError::MissingHandlerType =>
                "must have either 'fetch', 'scheduled', or 'start' attribute, e.g. #[event(fetch)]"@,
            EventError::SeveralHandlerTypes =>
                "must have only one of the 'fetch', 'scheduled' and 'start' attributes"@,
        }
    }

    /// The refusal in words, as text.
    pub fn to_text(&self) -> (text: String)
        ensures
            text@ == self.message(),
    {
        match self {
            EventError::InvalidAttribute(name) => String::from_str("Invalid attribute: ").concat(
                name.as_str(),
            ),
            EventError::MissingHandlerType => String::from_str(
                "must have either 'fetch', 'scheduled', or 'start' attribute, e.g. #[event(fetch)]",
            ),
            EventError::SeveralHandlerTypes => String::from_str(
                "must have only one of the 'fetch', 'scheduled' and 'start' attributes",
            ),
        }
    }
}

/// Where every attribute before `n` is known, no earlier place is the first
/// unknown one.
proof fn lemma_first_unknown_from(attributes: Seq<Seq<char>>, n: int)
    requires
        0 <= n <= attributes.len(),
        forall|j: int| 0 <= j < n ==> is_known(#[trigger] attributes[j]),
    ensures
        first_unknown(attributes) == n + first_unknown(attributes.skip(n)),
    decreases n,
{
    if n == 0 {
        assert(attributes.skip(0) =~= attributes);
    } else {
        let rest = attributes.drop_first();
        assert(is_known(attributes[0]));
        assert forall|j: int| 0 <= j < n - 1 implies is_known(#[trigger] rest[j]) by {
            assert(rest[j] == attributes[j + 1]);
        }
        lemma_first_unknown_from(rest, n - 1);
        assert(rest.skip(n - 1) =~= attributes.skip(n));
    }
}

/// A list with one more attribute asks for responses exactly when the list
/// did or the attribute does.
proof fn lemma_respond_flag_of_push(attributes: Seq<Seq<char>>, attribute: Seq<char>)
    ensures
        has_respond_flag(attributes.push(attribute)) == (has_respond_flag(attributes)
            || is_respond_flag(attribute)),
{
    let more = attributes.push(attribute);
    if has_respond_flag(attributes) {
        let j = choose|j: int| 0 <= j < attributes.len() && is_respond_flag(#[trigger] attributes[j]);
        assert(is_respond_flag(more[j]));
    }
    if is_respond_flag(attribute) {
        assert(is_respond_flag(more[attributes.len() as int]));
    }
    if has_respond_flag(more) {
        let j = choose|j: int| 0 <= j < more.len() && is_respond_flag(#[trigger] more[j]);
        if j < attributes.len() {
            assert(is_respond_flag(attributes[j]));
        }
    }
}

/// Reads the attributes of a declaration, from first to last.
///
/// The first attribute that is none of `fetch`, `scheduled`, `start` and
/// `respond_with_errors` has the declaration refused under its name. With
/// every attribute known, exactly one of them must name an entry point: a
/// declaration that names none is refused, and so is one that names more
/// than one, be it the same entry point twice. Otherwise that one attribute
/// settles the entry point, and failures are answered with a response
/// exactly when `respond_with_errors` is among the attributes.
pub fn parse_options(attributes: &Vec<String>) -> (r: Result<EventOptions, EventError>)
    ensures
        first_unknown(texts(attributes@)) < attributes@.len() ==> (r matches Err(
            EventError::InvalidAttribute(name),
        ) && name@ == attributes@[first_unknown(texts(attributes@))]@),
        first_unknown(texts(attributes@)) >= attributes@.len() ==> (if kind_count(
            texts(attributes@),
        ) == 0 {
            r == Err::<EventOptions, EventError>(EventError::MissingHandlerType)
        } else if kind_count(texts(attributes@)) > 1 {
            r == Err::<EventOptions, EventError>(EventError::SeveralHandlerTypes)
        } else {
            last_kind(texts(attributes@)) matches Some(kind) && r == Ok::<
                EventOptions,
                EventError,
            >(
                EventOptions {
                    handler_type: kind,
                    respond_with_errors: has_respond_flag(texts(attributes@)),
                },
            )
        }),
{
    let ghost all = texts(attributes@);
    let mut handler_type: Option<HandlerType> = None;
    let mut several = false;
    let mut respond_with_errors = false;
    let mut i: usize = 0;
    while i < attributes.len()
        invariant
            i <= attributes.len(),
            all == texts(attributes@),
            forall|j: int| 0 <= j < i ==> is_known(#[trigger] all[j]),
            handler_type == last_kind(all.take(i as int)),
            handler_type is Some <==> kind_count(all.take(i as int)) > 0,
            several <==> kind_count(all.take(i as int)) > 1,
            respond_with_errors == has_respond_flag(all.take(i as int)),
        decreases attributes.len() - i,
    {
        let attribute = attributes[i].as_str();
        let ghost seen = all.take(i as int);
        let ghost next = all.take(i + 1);
        proof {
            reveal_strlit("fetch");
            reveal_strlit("scheduled");
            reveal_strlit("start");
            reveal_strlit("respond_with_errors");
            assert(next.drop_last() =~= seen);
            assert(next.last() == all[i as int]);
            assert(all[i as int] == attribute@);
            assert(next =~= seen.push(attribute@));
            lemma_respond_flag_of_push(seen, attribute@);
        }
        if same_text(attribute, "fetch") {
            several = handler_type.is_some();
            handler_type = Some(HandlerType::Fetch);
        } else if same_text(attribute, "scheduled") {
            several = handler_type.is_some();
            handler_type = Some(HandlerType::Scheduled);
        } else if same_text(attribute, "start") {
            several = handler_type.is_some();
            handler_type = Some(HandlerType::Start);
        } else if same_text(attribute, "respond_with_errors") {
            respond_with_errors = true;
        } else {
            proof {
                lemma_first_unknown_from(all, i as int);
                assert(all.skip(i as int)[0] == all[i as int]);
            }
            return Err(EventError::InvalidAttribute(attributes[i].clone()));
        }
        i = i + 1;
    }
    proof {
        assert(all.take(attributes@.len() as int) =~= all);
        lemma_first_unknown_from(all, all.len() as int);
        assert(all.skip(all.len() as int) =~= Seq::empty());
    }
    match handler_type {
        Some(handler_type) => {
            if several {
                Err(EventError::SeveralHandlerTypes)
            } else {
                Ok(EventOptions { handler_type, respond_with_errors })
            }
        },
        None => Err(EventError::MissingHandlerType),
    }
}

/// The name under which the host calls an entry point. The host fixes these.
pub open spec fn entry_name(kind: HandlerType) -> Seq<char> {
    match kind {
        HandlerType::Fetch => "fetch"@,
        HandlerType::Scheduled => "scheduled"@,
        HandlerType::Start => "start"@,
    }
}

/// What is put behind the name of a handler to name it anew.
pub open spec fn glue_suffix(kind: HandlerType) -> Seq<char> {
    match kind {
        HandlerType::Fetch => "_fetch_glue"@,
        HandlerType::Scheduled => "_scheduled_glue"@,
        HandlerType::Start => "_start_glue"@,
    }
}

/// The name of the module that holds the generated entry point.
pub open spec fn module_name(kind: HandlerType) -> Seq<char> {
    match kind {
        HandlerType::Fetch => "_worker_fetch"@,
        HandlerType::Scheduled => "_worker_scheduled"@,
        HandlerType::Start => "_worker_start"@,
    }
}

/// What is done about a failure of the pipeline.
#[derive(Debug, PartialEq, Eq)]
pub enum FailureAction {
    /// The invocation is given up as a whole, with the message as the cause.
    Abort { message: String },
    /// The host is answered with a response of this status whose body is the
    /// text.
    Respond { status: u16, body: String },
}

/// Whether an action is the one that the options ask for on a failure with
/// the given message: a response with status 500 and the message as its body
/// where a `fetch` entry point answers failures, else giving up with the
/// message.
pub open spec fn is_failure_action(
    options: EventOptions,
    message: Seq<char>,
    action: FailureAction,
) -> bool {
    if options.handler_type == HandlerType::Fetch && options.respond_with_errors {
        action matches FailureAction::Respond { status, body } && status == 500 && body@ == message
    } else {
        action matches FailureAction::Abort { message: cause } && cause@ == message
    }
}

impl HandlerType {
    /// The name under which the host calls this entry point.
    pub fn entry_name(&self) -> (name: &'static str)
        ensures
            name@ == entry_name(*self),
    {
        match self {
            HandlerType::Fetch => "fetch",
            HandlerType::Scheduled => "scheduled",
            HandlerType::Start => "start",
        }
    }

    /// The name of the module that holds the generated entry point.
    pub fn module_name(&self) -> (name: &'static str)
        ensures
            name@ == module_name(*self),
    {
        match self {
            HandlerType::Fetch => "_worker_fetch",
            HandlerType::Scheduled => "_worker_scheduled",
            HandlerType::Start => "_worker_start",
        }
    }

    /// The name that the handler itself is given, so that the entry point
    /// can take the name that the host calls: the handler's own name with a
    /// suffix. It differs from the name of the entry point whatever the
    /// handler was called.
    pub fn glue_name(&self, function: &str) -> (name: String)
        ensures
            name@ == function@ + glue_suffix(*self),
            name@ != entry_name(*self),
    {
        proof {
            reveal_strlit("fetch");
            reveal_strlit("scheduled");
            reveal_strlit("start");
            reveal_strlit("_fetch_glue");
            reveal_strlit("_scheduled_glue");
            reveal_strlit("_start_glue");
        }
        let suffix = match self {
            HandlerType::Fetch => "_fetch_glue",
            HandlerType::Scheduled => "_scheduled_glue",
            HandlerType::Start => "_start_glue",
        };
        let name = String::from_str(function).concat(suffix);
        assert(name@.len() == function@.len() + suffix@.len());
        name
    }

    /// Whether the entry point is asynchronous: all are but `start`.
    pub fn is_async(&self) -> (is_async: bool)
        ensures
            is_async == (*self != HandlerType::Start),
    {
        match self {
            HandlerType::Start => false,
            _ => true,
        }
    }
}

impl EventOptions {
    /// What is done about a failure of the pipeline.
    ///
    /// A `fetch` entry point that answers failures gives the host a response
    /// with status 500 whose body is the failure's message. In every other
    /// case the invocation is given up with that message.
    pub fn on_failure(&self, error: &Error) -> (action: FailureAction)
        ensures
            is_failure_action(*self, error.message(), action),
    {
        let message = error.to_text();
        match self.handler_type {
            HandlerType::Fetch => {
                if self.respond_with_errors {
                    FailureAction::Respond { status: 500, body: message }
                } else {
                    FailureAction::Abort { message }
                }
            },
            _ => FailureAction::Abort { message },
        }
    }
}

} // verus!
