//! One scrape attempt as a state machine over the events of a browser
//! session, and the gathering of the attempts of one refresh cycle.

use crate::json::{json_parse, parse_json, Json};
use crate::model::player_stat::{payload_of, UggPlayerStat, UggPlayerStatView};
use crate::player_store::{
    distinct_snapshots, distinct_targets, snapshot_views, target_views, PlayerWithStats,
    RegisteredPlayer, SnapshotView, TargetView,
};
use crate::text::{contains, occurs_in, same_text};
use vstd::prelude::*;

verus! {

/// How long one wait for the next event of a stream may last, in seconds.
pub const WAIT_SECONDS: u64 = 10;

/// Why a scrape attempt failed.
#[derive(Debug, Clone, PartialEq, Eq)]
pub enum ScrapeError {
    /// The session could not be opened or instrumented.
    PageInit(String),
    /// The page could not be navigated to.
    Navigation(String),
    /// No profile request was seen before a wait ran out.
    RequestNotFound,
    /// The body of the profile exchange could not be had.
    RequestContent,
    /// The profile request did not finish before a wait ran out.
    Timeout,
    /// The body is not a stats payload.
    PayloadMalformed,
}

/// Why no scraper could be made.
#[derive(Debug, Clone, PartialEq, Eq)]
pub enum ScraperInitError {
    Browser(String),
}

/// The reading of a [`ScrapeError`].
pub enum ScrapeErrorView {
    PageInit(Seq<char>),
    Navigation(Seq<char>),
    RequestNotFound,
    RequestContent,
    Timeout,
    PayloadMalformed,
}

impl View for ScrapeError {
    type V = ScrapeErrorView;

    open spec fn view(&self) -> ScrapeErrorView {
        match self {
            ScrapeError::PageInit(m) => ScrapeErrorView::PageInit(m@),
            ScrapeError::Navigation(m) => ScrapeErrorView::Navigation(m@),
            ScrapeError::RequestNotFound => ScrapeErrorView::RequestNotFound,
            ScrapeError::RequestContent => ScrapeErrorView::RequestContent,
            ScrapeError::Timeout => ScrapeErrorView::Timeout,
            ScrapeError::PayloadMalformed => ScrapeErrorView::PayloadMalformed,
        }
    }
}

/// The reading of the result of one attempt.
pub open spec fn outcome_view(outcome: Result<UggPlayerStat, ScrapeError>) -> Result<
    UggPlayerStatView,
    ScrapeErrorView,
> {
    match outcome {
        Ok(stat) => Ok(stat@),
        Err(e) => Err(e@),
    }
}

/// A request is the profile request iff it is a `GET` whose URL holds
/// `/api/profiles`.
pub open spec fn is_profile_exchange(method: Seq<char>, url: Seq<char>) -> bool {
    method == "GET"@ && occurs_in("/api/profiles"@, url)
}

/// Whether a request is the profile request.
pub fn is_profile_request(method: &str, url: &str) -> (r: bool)
    ensures
        r == is_profile_exchange(method@, url@),
{
    same_text(method, "GET") && contains(url, "/api/profiles")
}

/// What a decoded body gives: the payload it holds, or `PayloadMalformed`.
pub open spec fn document_outcome(doc: crate::json::JsonView) -> Result<UggPlayerStatView, ScrapeErrorView> {
    match payload_of(doc) {
        Some(stat) => Ok(stat),
        None => Err(ScrapeErrorView::PayloadMalformed),
    }
}

/// What a body gives: the payload of the JSON document it is, or
/// `PayloadMalformed` where it is none or holds none.
pub open spec fn body_outcome(body: Seq<char>) -> Result<UggPlayerStatView, ScrapeErrorView> {
    match json_parse(body) {
        Some(doc) => document_outcome(doc),
        None => Err(ScrapeErrorView::PayloadMalformed),
    }
}

/// Reads the stats payload out of a JSON document.
pub fn decode_payload(doc: &Json) -> (r: Result<UggPlayerStat, ScrapeError>)
    ensures
        outcome_view(r) == document_outcome(doc@),
{
    match UggPlayerStat::from_json(doc) {
        Some(stat) => Ok(stat),
        None => Err(ScrapeError::PayloadMalformed),
    }
}

/// Reads the stats payload out of the body of the profile exchange.
pub fn parse_payload(body: &str) -> (r: Result<UggPlayerStat, ScrapeError>)
    ensures
        outcome_view(r) == body_outcome(body@),
{
    match parse_json(body) {
        Some(doc) => decode_payload(&doc),
        None => Err(ScrapeError::PayloadMalformed),
    }
}

/// Where one scrape attempt stands.
#[derive(Debug, PartialEq, Eq)]
pub enum CorrelatorState {
    /// The session is being opened.
    Opening,
    /// The page is being navigated.
    Navigating,
    /// Waiting for the profile request to start.
    AwaitingStart,
    /// Waiting for the request of this id to finish.
    AwaitingFinish { request_id: String },
    /// Waiting for the body of the exchange of this id.
    AwaitingBody { request_id: String },
    /// The attempt has its result; the session is being closed.
    Closing { outcome: Result<UggPlayerStat, ScrapeError> },
    /// The attempt is over.
    Finished,
}

/// What the session reported.
#[derive(Debug, Clone, PartialEq, Eq)]
pub enum CorrelatorEvent {
    /// The session is open and instrumented.
    Opened,
    /// The session could not be opened.
    OpenFailed { message: String },
    /// The page load has begun.
    Navigated,
    /// The page load could not begin.
    NavigationFailed { message: String },
    /// A request was sent.
    RequestStarted { request_id: String, method: String, url: String },
    /// A request finished loading.
    RequestFinished { request_id: String },
    /// The wait ran out, or the stream ended.
    WaitElapsed,
    /// The body of the exchange.
    Body { text: String },
    /// The body could not be had.
    BodyUnavailable,
    /// The session is closed.
    Closed,
}

/// What to do next.
#[derive(Debug, PartialEq, Eq)]
pub enum CorrelatorAction {
    /// Open a session and subscribe to both streams.
    OpenSession,
    /// Navigate to the profile page.
    Navigate,
    /// Wait for the next request-sent event.
    AwaitStarted,
    /// Wait for the next loading-finished event.
    AwaitFinished,
    /// Fetch the body of this exchange.
    FetchBody { request_id: String },
    /// Close the session.
    Close,
    /// Hand this result back.
    Finish { outcome: Result<UggPlayerStat, ScrapeError> },
    /// Nothing is left to do.
    Halt,
}

/// The reading of a [`CorrelatorState`].
pub enum StateView {
    Opening,
    Navigating,
    AwaitingStart,
    AwaitingFinish { request_id: Seq<char> },
    AwaitingBody { request_id: Seq<char> },
    Closing { outcome: Result<UggPlayerStatView, ScrapeErrorView> },
    Finished,
}

/// The reading of a [`CorrelatorEvent`].
pub enum EventView {
    Opened,
    OpenFailed { message: Seq<char> },
    Navigated,
    NavigationFailed { message: Seq<char> },
    RequestStarted { request_id: Seq<char>, method: Seq<char>, url: Seq<char> },
    RequestFinished { request_id: Seq<char> },
    WaitElapsed,
    Body { text: Seq<char> },
    BodyUnavailable,
    Closed,
}

/// The reading of a [`CorrelatorAction`].
pub enum ActionView {
    OpenSession,
    Navigate,
    AwaitStarted,
    AwaitFinished,
    FetchBody { request_id: Seq<char> },
    Close,
    Finish { outcome: Result<UggPlayerStatView, ScrapeErrorView> },
    Halt,
}

impl View for CorrelatorState {
    type V = StateView;

    open spec fn view(&self) -> StateView {
        match self {
            CorrelatorState::Opening => StateView::Opening,
            CorrelatorState::Navigating => StateView::Navigating,
            CorrelatorState::AwaitingStart => StateView::AwaitingStart,
            CorrelatorState::AwaitingFinish { request_id } => StateView::AwaitingFinish {
                request_id: request_id@,
            },
            CorrelatorState::AwaitingBody { request_id } => StateView::AwaitingBody {
                request_id: request_id@,
            },
            CorrelatorState::Closing { outcome } => StateView::Closing {
                outcome: outcome_view(*outcome),
            },
            CorrelatorState::Finished => StateView::Finished,
        }
    }
}

impl View for CorrelatorEvent {
    type V = EventView;

    open spec fn view(&self) -> EventView {
        match self {
            CorrelatorEvent::Opened => EventView::Opened,
            CorrelatorEvent::OpenFailed { message } => EventView::OpenFailed { message: message@ },
            CorrelatorEvent::Navigated => EventView::Navigated,
            CorrelatorEvent::NavigationFailed { message } => EventView::NavigationFailed {
                message: message@,
            },
            CorrelatorEvent::RequestStarted { request_id, method, url } => EventView::RequestStarted {
                request_id: request_id@,
                method: method@,
                url: url@,
            },
            CorrelatorEvent::RequestFinished { request_id } => EventView::RequestFinished {
                request_id: request_id@,
            },
            CorrelatorEvent::WaitElapsed => EventView::WaitElapsed,
            CorrelatorEvent::Body { text } => EventView::Body { text: text@ },
            CorrelatorEvent::BodyUnavailable => EventView::BodyUnavailable,
            CorrelatorEvent::Closed => EventView::Closed,
        }
    }
}

impl View for CorrelatorAction {
    type V = ActionView;

    open spec fn view(&self) -> ActionView {
        match self {
            CorrelatorAction::OpenSession => ActionView::OpenSession,
            CorrelatorAction::Navigate => ActionView::Navigate,
            CorrelatorAction::AwaitStarted => ActionView::AwaitStarted,
            CorrelatorAction::AwaitFinished => ActionView::AwaitFinished,
            CorrelatorAction::FetchBody { request_id } => ActionView::FetchBody {
                request_id: request_id@,
            },
            CorrelatorAction::Close => ActionView::Close,
            CorrelatorAction::Finish { outcome } => ActionView::Finish {
                outcome: outcome_view(*outcome),
            },
            CorrelatorAction::Halt => ActionView::Halt,
        }
    }
}

/// What a state is waiting on: the action to take, or take again, while the
/// attempt stands there.
pub open spec fn pending(state: StateView) -> ActionView {
    match state {
        StateView::Opening => ActionView::OpenSession,
        StateView::Navigating => ActionView::Navigate,
        StateView::AwaitingStart => ActionView::AwaitStarted,
        StateView::AwaitingFinish { .. } => ActionView::AwaitFinished,
        StateView::AwaitingBody { request_id } => ActionView::FetchBody { request_id },
        StateView::Closing { .. } => ActionView::Close,
        StateView::Finished => ActionView::Halt,
    }
}

/// The attempt fails with `error`: the session is closed first.
pub open spec fn fail(error: ScrapeErrorView) -> (StateView, ActionView) {
    (StateView::Closing { outcome: Err(error) }, ActionView::Close)
}

/// One step of an attempt: the state after `event`, and what to do next.
///
/// An event that the state is not waiting for changes nothing: the pending
/// action is to be taken again.
pub open spec fn next(state: StateView, event: EventView) -> (StateView, ActionView) {
    match (state, event) {
        (StateView::Opening, EventView::Opened) => (StateView::Navigating, ActionView::Navigate),
        (StateView::Opening, EventView::OpenFailed { message }) => (
            StateView::Finished,
            ActionView::Finish { outcome: Err(ScrapeErrorView::PageInit(message)) },
        ),
        (StateView::Navigating, EventView::Navigated) => (
            StateView::AwaitingStart,
            ActionView::AwaitStarted,
        ),
        (StateView::Navigating, EventView::NavigationFailed { message }) => fail(
            ScrapeErrorView::Navigation(message),
        ),
        (StateView::AwaitingStart, EventView::RequestStarted { request_id, method, url }) => {
            if is_profile_exchange(method, url) {
                (StateView::AwaitingFinish { request_id }, ActionView::AwaitFinished)
            } else {
                (state, ActionView::AwaitStarted)
            }
        },
        (StateView::AwaitingStart, EventView::WaitElapsed) => fail(ScrapeErrorView::RequestNotFound),
        (StateView::AwaitingFinish { request_id }, EventView::RequestFinished { request_id: finished }) => {
            if finished == request_id {
                (StateView::AwaitingBody { request_id }, ActionView::FetchBody { request_id })
            } else {
                (state, ActionView::AwaitFinished)
            }
        },
        (StateView::AwaitingFinish { .. }, EventView::WaitElapsed) => fail(ScrapeErrorView::Timeout),
        (StateView::AwaitingBody { .. }, EventView::Body { text }) => (
            StateView::Closing { outcome: body_outcome(text) },
            ActionView::Close,
        ),
        (StateView::AwaitingBody { .. }, EventView::BodyUnavailable) => fail(
            ScrapeErrorView::RequestContent,
        ),
        (StateView::Closing { outcome }, EventView::Closed) => (
            StateView::Finished,
            ActionView::Finish { outcome },
        ),
        _ => (state, pending(state)),
    }
}

impl CorrelatorState {
    /// A new attempt, and its first action.
    pub fn start() -> (r: (CorrelatorState, CorrelatorAction))
        ensures
            r.0@ == StateView::Opening,
            r.1@ == ActionView::OpenSession,
    {
        (CorrelatorState::Opening, CorrelatorAction::OpenSession)
    }

    /// The action that this state is waiting on.
    pub fn pending_action(&self) -> (r: CorrelatorAction)
        ensures
            r@ == pending(self@),
    {
        match self {
            CorrelatorState::Opening => CorrelatorAction::OpenSession,
            CorrelatorState::Navigating => CorrelatorAction::Navigate,
            CorrelatorState::AwaitingStart => CorrelatorAction::AwaitStarted,
            CorrelatorState::AwaitingFinish { .. } => CorrelatorAction::AwaitFinished,
            CorrelatorState::AwaitingBody { request_id } => CorrelatorAction::FetchBody {
                request_id: request_id.clone(),
            },
            CorrelatorState::Closing { .. } => CorrelatorAction::Close,
            CorrelatorState::Finished => CorrelatorAction::Halt,
        }
    }

    /// Takes one step: the state after `event`, and what to do next.
    pub fn step(self, event: CorrelatorEvent) -> (r: (CorrelatorState, CorrelatorAction))
        ensures
            (r.0@, r.1@) == next(self@, event@),
    {
        match (self, event) {
            (CorrelatorState::Opening, CorrelatorEvent::Opened) => (
                CorrelatorState::Navigating,
                CorrelatorAction::Navigate,
            ),
            (CorrelatorState::Opening, CorrelatorEvent::OpenFailed { message }) => (
                CorrelatorState::Finished,
                CorrelatorAction::Finish { outcome: Err(ScrapeError::PageInit(message)) },
            ),
            (CorrelatorState::Navigating, CorrelatorEvent::Navigated) => (
                CorrelatorState::AwaitingStart,
                CorrelatorAction::AwaitStarted,
            ),
            (CorrelatorState::Navigating, CorrelatorEvent::NavigationFailed { message }) => (
                CorrelatorState::Closing { outcome: Err(ScrapeError::Navigation(message)) },
                CorrelatorAction::Close,
            ),
            (
                CorrelatorState::AwaitingStart,
                CorrelatorEvent::RequestStarted { request_id, method, url },
            ) => {
                if is_profile_request(method.as_str(), url.as_str()) {
                    (CorrelatorState::AwaitingFinish { request_id }, CorrelatorAction::AwaitFinished)
                } else {
                    (CorrelatorState::AwaitingStart, CorrelatorAction::AwaitStarted)
                }
            },
            (CorrelatorState::AwaitingStart, CorrelatorEvent::WaitElapsed) => (
                CorrelatorState::Closing { outcome: Err(ScrapeError::RequestNotFound) },
                CorrelatorAction::Close,
            ),
            (
                CorrelatorState::AwaitingFinish { request_id },
                CorrelatorEvent::RequestFinished { request_id: finished },
            ) => {
                if same_text(finished.as_str(), request_id.as_str()) {
                    (
                        CorrelatorState::AwaitingBody { request_id: request_id.clone() },
                        CorrelatorAction::FetchBody { request_id },
                    )
                } else {
                    (CorrelatorState::AwaitingFinish { request_id }, CorrelatorAction::AwaitFinished)
                }
            },
            (CorrelatorState::AwaitingFinish { .. }, CorrelatorEvent::WaitElapsed) => (
                CorrelatorState::Closing { outcome: Err(ScrapeError::Timeout) },
                CorrelatorAction::Close,
            ),
            (CorrelatorState::AwaitingBody { .. }, CorrelatorEvent::Body { text }) => (
                CorrelatorState::Closing { outcome: parse_payload(text.as_str()) },
                CorrelatorAction::Close,
            ),
            (CorrelatorState::AwaitingBody { .. }, CorrelatorEvent::BodyUnavailable) => (
                CorrelatorState::Closing { outcome: Err(ScrapeError::RequestContent) },
                CorrelatorAction::Close,
            ),
            (CorrelatorState::Closing { outcome }, CorrelatorEvent::Closed) => (
                CorrelatorState::Finished,
                CorrelatorAction::Finish { outcome },
            ),
            (state, _) => {
                let action = state.pending_action();
                (state, action)
            },
        }
    }
}

/// The readings of a sequence of events.
pub open spec fn event_views(events: Seq<CorrelatorEvent>) -> Seq<EventView> {
    Seq::new(events.len(), |i: int| events[i]@)
}

/// Where an attempt stands after a run of events, and the action that was
/// asked for last.
pub open spec fn run(state: StateView, events: Seq<EventView>) -> (StateView, ActionView)
    decreases events.len(),
{
    if events.len() == 0 {
        (state, pending(state))
    } else {
        next(run(state, events.drop_last()).0, events.last())
    }
}

/// Runs a whole attempt on a recorded run of events, as a session would
/// have reported them.
pub fn run_trace(events: Vec<CorrelatorEvent>) -> (r: (CorrelatorState, CorrelatorAction))
    ensures
        (r.0@, r.1@) == run(StateView::Opening, event_views(events@)),
{
    let (mut state, mut action) = CorrelatorState::start();
    let ghost all = event_views(events@);
    proof {
        assert(all.take(0) =~= Seq::empty());
    }
    for event in it: events.into_iter()
        invariant
            it.seq() == events@,
            all == event_views(events@),
            (state@, action@) == run(StateView::Opening, all.take(it.index())),
    {
        proof {
            let done = all.take(it.index());
            let grown = all.take(it.index() + 1);
            assert(grown.drop_last() =~= done);
            assert(grown.last() == event@);
        }
        let (after, asked) = state.step(event);
        state = after;
        action = asked;
    }
    proof {
        assert(all.take(all.len() as int) =~= all);
    }
    (state, action)
}

/// A run of events may be taken in two parts.
pub proof fn lemma_run_continues(state: StateView, first: Seq<EventView>, then: Seq<EventView>)
    requires
        then.len() > 0,
    ensures
        run(state, first + then) == run(run(state, first).0, then),
    decreases then.len(),
{
    let whole = first + then;
    let middle = run(state, first).0;
    assert(whole.drop_last() =~= first + then.drop_last());
    assert(whole.last() == then.last());
    assert(run(state, whole) == next(run(state, whole.drop_last()).0, whole.last()));
    assert(run(middle, then) == next(run(middle, then.drop_last()).0, then.last()));
    if then.len() == 1 {
        assert(first + then.drop_last() =~= first);
        assert(run(middle, then.drop_last()) == (middle, pending(middle)));
    } else {
        lemma_run_continues(state, first, then.drop_last());
    }
}

/// A session that opens and navigates leaves the attempt waiting for the
/// profile request to start.
pub proof fn lemma_session_begins()
    ensures
        run(StateView::Opening, seq![EventView::Opened, EventView::Navigated]) == (
            StateView::AwaitingStart,
            ActionView::AwaitStarted,
        ),
{
    let start = StateView::Opening;
    let none = Seq::<EventView>::empty();
    let opened = seq![EventView::Opened];
    let begun = seq![EventView::Opened, EventView::Navigated];
    assert(opened.drop_last() =~= none);
    assert(begun.drop_last() =~= opened);
    assert(run(start, none) == (start, pending(start)));
    assert(run(start, opened) == next(run(start, none).0, EventView::Opened));
    assert(run(start, begun) == next(run(start, opened).0, EventView::Navigated));
}

/// The event is a request that is not the profile request.
pub open spec fn is_other_request(event: EventView) -> bool {
    match event {
        EventView::RequestStarted { method, url, .. } => !is_profile_exchange(method, url),
        _ => false,
    }
}

/// The event says that a request other than `request_id` has finished.
pub open spec fn is_other_finish(event: EventView, request_id: Seq<char>) -> bool {
    match event {
        EventView::RequestFinished { request_id: finished } => finished != request_id,
        _ => false,
    }
}

/// Requests that are not the profile request leave the attempt waiting
/// for it.
pub proof fn lemma_other_requests_ignored(events: Seq<EventView>)
    requires
        forall|i: int| 0 <= i < events.len() ==> is_other_request(#[trigger] events[i]),
    ensures
        run(StateView::AwaitingStart, events) == (StateView::AwaitingStart, ActionView::AwaitStarted),
    decreases events.len(),
{
    if events.len() > 0 {
        lemma_other_requests_ignored(events.drop_last());
        assert(is_other_request(events[events.len() - 1]));
        assert(run(StateView::AwaitingStart, events) == next(
            run(StateView::AwaitingStart, events.drop_last()).0,
            events.last(),
        ));
    }
}

/// Where no request that starts is the profile request and the wait runs
/// out, the session is closed and the attempt fails with
/// `RequestNotFound`.
pub proof fn lemma_no_profile_request(events: Seq<EventView>)
    requires
        forall|i: int| 0 <= i < events.len() ==> is_other_request(#[trigger] events[i]),
    ensures
        run(StateView::AwaitingStart, events.push(EventView::WaitElapsed)) == fail(
            ScrapeErrorView::RequestNotFound,
        ),
        run(StateView::AwaitingStart, events.push(EventView::WaitElapsed).push(EventView::Closed)) == (
            StateView::Finished,
            ActionView::Finish { outcome: Err(ScrapeErrorView::RequestNotFound) },
        ),
{
    lemma_other_requests_ignored(events);
    let start = StateView::AwaitingStart;
    let waited = events.push(EventView::WaitElapsed);
    let closed = waited.push(EventView::Closed);
    assert(waited.drop_last() =~= events);
    assert(closed.drop_last() =~= waited);
    assert(run(start, waited) == next(run(start, events).0, EventView::WaitElapsed));
    assert(run(start, closed) == next(run(start, waited).0, EventView::Closed));
}

/// An attempt in which no request that starts is the profile request
/// before the wait runs out ends with `RequestNotFound`, the session closed.
pub proof fn lemma_attempt_without_profile_request(events: Seq<EventView>)
    requires
        forall|i: int| 0 <= i < events.len() ==> is_other_request(#[trigger] events[i]),
    ensures
        run(
            StateView::Opening,
            seq![EventView::Opened, EventView::Navigated] + events.push(EventView::WaitElapsed).push(
                EventView::Closed,
            ),
        ) == (
            StateView::Finished,
            ActionView::Finish { outcome: Err(ScrapeErrorView::RequestNotFound) },
        ),
{
    lemma_session_begins();
    lemma_no_profile_request(events);
    lemma_run_continues(
        StateView::Opening,
        seq![EventView::Opened, EventView::Navigated],
        events.push(EventView::WaitElapsed).push(EventView::Closed),
    );
}

/// Finishes of other requests leave the attempt waiting for its own.
pub proof fn lemma_other_finishes_ignored(request_id: Seq<char>, events: Seq<EventView>)
    requires
        forall|i: int| 0 <= i < events.len() ==> is_other_finish(#[trigger] events[i], request_id),
    ensures
        run(StateView::AwaitingFinish { request_id }, events) == (
            StateView::AwaitingFinish { request_id },
            ActionView::AwaitFinished,
        ),
    decreases events.len(),
{
    if events.len() > 0 {
        lemma_other_finishes_ignored(request_id, events.drop_last());
        assert(is_other_finish(events[events.len() - 1], request_id));
        assert(run(StateView::AwaitingFinish { request_id }, events) == next(
            run(StateView::AwaitingFinish { request_id }, events.drop_last()).0,
            events.last(),
        ));
    }
}

/// Where the profile request does not finish before the wait runs out, the
/// session is closed and the attempt fails with `Timeout`.
pub proof fn lemma_profile_request_unfinished(request_id: Seq<char>, events: Seq<EventView>)
    requires
        forall|i: int| 0 <= i < events.len() ==> is_other_finish(#[trigger] events[i], request_id),
    ensures
        run(StateView::AwaitingFinish { request_id }, events.push(EventView::WaitElapsed)) == fail(
            ScrapeErrorView::Timeout,
        ),
        run(
            StateView::AwaitingFinish { request_id },
            events.push(EventView::WaitElapsed).push(EventView::Closed),
        ) == (StateView::Finished, ActionView::Finish { outcome: Err(ScrapeErrorView::Timeout) }),
{
    lemma_other_finishes_ignored(request_id, events);
    let start = StateView::AwaitingFinish { request_id };
    let waited = events.push(EventView::WaitElapsed);
    let closed = waited.push(EventView::Closed);
    assert(waited.drop_last() =~= events);
    assert(closed.drop_last() =~= waited);
    assert(run(start, waited) == next(run(start, events).0, EventView::WaitElapsed));
    assert(run(start, closed) == next(run(start, waited).0, EventView::Closed));
}

/// An attempt in which the profile request starts and does not finish
/// before the wait runs out ends with `Timeout`, the session closed.
pub proof fn lemma_attempt_without_finish(
    others: Seq<EventView>,
    request_id: Seq<char>,
    method: Seq<char>,
    url: Seq<char>,
    finishes: Seq<EventView>,
)
    requires
        forall|i: int| 0 <= i < others.len() ==> is_other_request(#[trigger] others[i]),
        is_profile_exchange(method, url),
        forall|i: int| 0 <= i < finishes.len() ==> is_other_finish(#[trigger] finishes[i], request_id),
    ensures
        run(
            StateView::Opening,
            seq![EventView::Opened, EventView::Navigated] + others.push(
                EventView::RequestStarted { request_id, method, url },
            ) + finishes.push(EventView::WaitElapsed).push(EventView::Closed),
        ) == (StateView::Finished, ActionView::Finish { outcome: Err(ScrapeErrorView::Timeout) }),
{
    let begun = seq![EventView::Opened, EventView::Navigated];
    let started = others.push(EventView::RequestStarted { request_id, method, url });
    let ended = finishes.push(EventView::WaitElapsed).push(EventView::Closed);
    lemma_session_begins();
    lemma_first_match_wins(others, request_id, method, url);
    lemma_profile_request_unfinished(request_id, finishes);
    lemma_run_continues(StateView::Opening, begun, started);
    lemma_run_continues(StateView::Opening, begun + started, ended);
}

/// The first request that matches is the one that is followed: it takes
/// the attempt from waiting for a start to waiting for that finish.
pub proof fn lemma_first_match_wins(
    events: Seq<EventView>,
    request_id: Seq<char>,
    method: Seq<char>,
    url: Seq<char>,
)
    requires
        forall|i: int| 0 <= i < events.len() ==> is_other_request(#[trigger] events[i]),
        is_profile_exchange(method, url),
    ensures
        run(StateView::AwaitingStart, events.push(EventView::RequestStarted { request_id, method, url }))
            == (StateView::AwaitingFinish { request_id }, ActionView::AwaitFinished),
{
    lemma_other_requests_ignored(events);
    let start = StateView::AwaitingStart;
    let started = EventView::RequestStarted { request_id, method, url };
    let grown = events.push(started);
    assert(grown.drop_last() =~= events);
    assert(run(start, grown) == next(run(start, events).0, started));
}

/// Where the profile request starts and finishes and its body is had, the
/// session is closed and the attempt gives what the body holds.
pub proof fn lemma_attempt_gives_the_body(
    request_id: Seq<char>,
    method: Seq<char>,
    url: Seq<char>,
    text: Seq<char>,
)
    requires
        is_profile_exchange(method, url),
    ensures
        run(
            StateView::AwaitingStart,
            seq![
                EventView::RequestStarted { request_id, method, url },
                EventView::RequestFinished { request_id },
                EventView::Body { text },
                EventView::Closed,
            ],
        ) == (StateView::Finished, ActionView::Finish { outcome: body_outcome(text) }),
{
    let start = StateView::AwaitingStart;
    let e0 = EventView::RequestStarted { request_id, method, url };
    let e1 = EventView::RequestFinished { request_id };
    let e2 = EventView::Body { text };
    let e3 = EventView::Closed;
    let none = Seq::<EventView>::empty();
    assert(seq![e0].drop_last() =~= none);
    assert(seq![e0, e1].drop_last() =~= seq![e0]);
    assert(seq![e0, e1, e2].drop_last() =~= seq![e0, e1]);
    assert(seq![e0, e1, e2, e3].drop_last() =~= seq![e0, e1, e2]);
    assert(run(start, none) == (start, pending(start)));
    assert(run(start, seq![e0]) == next(run(start, none).0, e0));
    assert(run(start, seq![e0, e1]) == next(run(start, seq![e0]).0, e1));
    assert(run(start, seq![e0, e1, e2]) == next(run(start, seq![e0, e1]).0, e2));
    assert(run(start, seq![e0, e1, e2, e3]) == next(run(start, seq![e0, e1, e2]).0, e3));
}

/// Once an attempt is over, nothing changes it.
pub proof fn lemma_finished_stays(event: EventView)
    ensures
        next(StateView::Finished, event) == (StateView::Finished, ActionView::Halt),
{
}

/// An attempt ends only by the session's closing, or by its failing to
/// open: every other way out goes through `Closing`.
pub proof fn lemma_closed_before_finished(state: StateView, event: EventView)
    requires
        !(state is Finished),
        next(state, event).0 is Finished,
    ensures
        (state is Closing && event is Closed) || (state is Opening && event is OpenFailed),
        state matches StateView::Closing { outcome } ==> next(state, event).1 == (
        ActionView::Finish { outcome }),
{
}

/// The readings of the results of a cycle's attempts.
pub open spec fn outcome_views(outcomes: Seq<Result<UggPlayerStat, ScrapeError>>) -> Seq<
    Result<UggPlayerStatView, ScrapeErrorView>,
> {
    Seq::new(outcomes.len(), |i: int| outcome_view(outcomes[i]))
}

/// The snapshot that a payload gives for a target.
pub open spec fn snapshot_from(target: TargetView, stat: UggPlayerStatView) -> SnapshotView {
    SnapshotView {
        discord_id: target.discord_id,
        display_name: stat.player.display_name,
        rank: stat.rank,
        stats: stat.lifetime_stats,
    }
}

/// The snapshots of the first `upto` targets: one for each attempt that
/// succeeded, in the order of the targets. A target without an attempt has
/// none.
pub open spec fn successes(
    targets: Seq<TargetView>,
    outcomes: Seq<Result<UggPlayerStatView, ScrapeErrorView>>,
    upto: int,
) -> Seq<SnapshotView>
    decreases upto,
{
    if upto <= 0 {
        Seq::empty()
    } else {
        let before = successes(targets, outcomes, upto - 1);
        if upto <= targets.len() && upto <= outcomes.len() {
            match outcomes[upto - 1] {
                Ok(stat) => before.push(snapshot_from(targets[upto - 1], stat)),
                Err(_) => before,
            }
        } else {
            before
        }
    }
}

/// The snapshots that a refresh cycle yields.
pub open spec fn gathered(
    targets: Seq<TargetView>,
    outcomes: Seq<Result<UggPlayerStatView, ScrapeErrorView>>,
) -> Seq<SnapshotView> {
    successes(targets, outcomes, targets.len() as int)
}

/// `snapshot` is what the attempt on target `k` gave.
pub open spec fn came_from(
    targets: Seq<TargetView>,
    outcomes: Seq<Result<UggPlayerStatView, ScrapeErrorView>>,
    snapshot: SnapshotView,
    k: int,
) -> bool {
    &&& 0 <= k < targets.len()
    &&& k < outcomes.len()
    &&& outcomes[k] matches Ok(stat) && snapshot == snapshot_from(targets[k], stat)
}

/// The snapshot that one attempt gives for its target.
pub fn snapshot_of(target: &RegisteredPlayer, stat: &UggPlayerStat) -> (r: PlayerWithStats)
    ensures
        r@ == snapshot_from(target@, stat@),
{
    PlayerWithStats {
        discord_id: target.discord_id,
        display_name: stat.player.display_name.clone(),
        rank: stat.rank,
        stats: stat.lifetime_stats,
    }
}

/// Gathers the results of one refresh cycle: `outcomes[i]` is the result of
/// the attempt on `targets[i]`. An attempt that failed leaves its target
/// out, and takes nothing from the others.
pub fn get_players_stats(
    targets: &Vec<RegisteredPlayer>,
    outcomes: &Vec<Result<UggPlayerStat, ScrapeError>>,
) -> (r: Vec<PlayerWithStats>)
    ensures
        snapshot_views(r@) == gathered(target_views(targets@), outcome_views(outcomes@)),
{
    let mut players_stats: Vec<PlayerWithStats> = Vec::new();
    let ghost ts = target_views(targets@);
    let ghost os = outcome_views(outcomes@);
    let mut i: usize = 0;
    while i < targets.len()
        invariant
            i <= targets@.len(),
            ts == target_views(targets@),
            os == outcome_views(outcomes@),
            snapshot_views(players_stats@) == successes(ts, os, i as int),
        decreases targets@.len() - i,
    {
        if i < outcomes.len() {
            match &outcomes[i] {
                Ok(stat) => {
                    let ghost before = snapshot_views(players_stats@);
                    players_stats.push(snapshot_of(&targets[i], stat));
                    assert(snapshot_views(players_stats@) =~= before.push(
                        snapshot_from(ts[i as int], stat@),
                    ));
                },
                Err(_) => {},
            }
        }
        i += 1;
    }
    players_stats
}

/// How many of the first `upto` attempts failed.
pub open spec fn failures(
    outcomes: Seq<Result<UggPlayerStatView, ScrapeErrorView>>,
    upto: int,
) -> int
    decreases upto,
{
    if upto <= 0 {
        0
    } else if upto <= outcomes.len() && outcomes[upto - 1] is Err {
        failures(outcomes, upto - 1) + 1
    } else {
        failures(outcomes, upto - 1)
    }
}

/// How many attempts of a cycle failed.
pub fn count_failures(outcomes: &Vec<Result<UggPlayerStat, ScrapeError>>) -> (r: usize)
    ensures
        r == failures(outcome_views(outcomes@), outcomes@.len() as int),
{
    let mut failed: usize = 0;
    let mut i: usize = 0;
    while i < outcomes.len()
        invariant
            i <= outcomes@.len(),
            failed <= i,
            failed == failures(outcome_views(outcomes@), i as int),
        decreases outcomes@.len() - i,
    {
        if outcomes[i].is_err() {
            failed += 1;
        }
        i += 1;
    }
    failed
}

/// Every snapshot of a cycle is what the attempt on one of the targets gave.
pub proof fn lemma_snapshot_origin(
    targets: Seq<TargetView>,
    outcomes: Seq<Result<UggPlayerStatView, ScrapeErrorView>>,
    upto: int,
    i: int,
) -> (k: int)
    requires
        0 <= upto <= targets.len(),
        0 <= i < successes(targets, outcomes, upto).len(),
    ensures
        0 <= k < upto,
        came_from(targets, outcomes, successes(targets, outcomes, upto)[i], k),
    decreases upto,
{
    let before = successes(targets, outcomes, upto - 1);
    if i < before.len() {
        lemma_snapshot_origin(targets, outcomes, upto - 1, i)
    } else {
        upto - 1
    }
}

/// Every attempt that succeeded gave one of the snapshots of the cycle.
pub proof fn lemma_success_kept(
    targets: Seq<TargetView>,
    outcomes: Seq<Result<UggPlayerStatView, ScrapeErrorView>>,
    upto: int,
    k: int,
) -> (i: int)
    requires
        0 <= upto <= targets.len(),
        0 <= k < upto,
        k < outcomes.len(),
        outcomes[k] is Ok,
    ensures
        0 <= i < successes(targets, outcomes, upto).len(),
        came_from(targets, outcomes, successes(targets, outcomes, upto)[i], k),
    decreases upto,
{
    let before = successes(targets, outcomes, upto - 1);
    if k < upto - 1 {
        lemma_success_kept(targets, outcomes, upto - 1, k)
    } else {
        before.len() as int
    }
}

/// The snapshots of a cycle stand in the order of their targets.
proof fn lemma_origin_bound(
    targets: Seq<TargetView>,
    outcomes: Seq<Result<UggPlayerStatView, ScrapeErrorView>>,
    upto: int,
)
    requires
        0 <= upto <= targets.len(),
    ensures
        successes(targets, outcomes, upto).len() <= upto,
    decreases upto,
{
    if upto > 0 {
        lemma_origin_bound(targets, outcomes, upto - 1);
    }
}

/// Where the targets are keyed by identity, so are the snapshots of a
/// cycle, and each of them belongs to a target.
pub proof fn lemma_gathered_wf(
    targets: Seq<TargetView>,
    outcomes: Seq<Result<UggPlayerStatView, ScrapeErrorView>>,
    upto: int,
)
    requires
        0 <= upto <= targets.len(),
        distinct_targets(targets),
    ensures
        successes(targets, outcomes, upto).len() <= upto,
        distinct_snapshots(successes(targets, outcomes, upto)),
        ({
            let s = successes(targets, outcomes, upto);
            forall|i: int|
                #![trigger s[i]]
                0 <= i < s.len() ==> exists|k: int|
                    0 <= k < upto && (#[trigger] targets[k]).discord_id == s[i].discord_id
        }),
    decreases upto,
{
    lemma_origin_bound(targets, outcomes, upto);
    let now = successes(targets, outcomes, upto);
    assert forall|i: int| #![trigger now[i]] 0 <= i < now.len() implies exists|k: int|
        0 <= k < upto && (#[trigger] targets[k]).discord_id == now[i].discord_id by {
        let k = lemma_snapshot_origin(targets, outcomes, upto, i);
        assert(targets[k].discord_id == now[i].discord_id);
    }
    if upto > 0 {
        lemma_gathered_wf(targets, outcomes, upto - 1);
        let before = successes(targets, outcomes, upto - 1);
        let last = upto - 1;
        assert forall|i: int, j: int| 0 <= i < j < now.len() implies (#[trigger] now[i]).discord_id
            != (#[trigger] now[j]).discord_id by {
            if j < before.len() {
                assert(before[i].discord_id != before[j].discord_id);
            } else {
                let k = lemma_snapshot_origin(targets, outcomes, upto - 1, i);
                assert(targets[k].discord_id != targets[last].discord_id);
            }
        }
    }
}

} // verus!
