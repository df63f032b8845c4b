//! Handling of an incoming webhook request, as a sequence of decisions.
//!
//! Serving a request needs the event store and the target server, which the
//! host reaches. [`process_event_request`] (or [`replay_event_request`]) starts
//! a request and says which [`Action`] the host performs first; the host then
//! hands the [`Outcome`] of each action to [`EventRequest::resume`], which says
//! what to do next, until the action is [`Action::Respond`].
use vstd::prelude::*;

use crate::clock::{clock_error_message, Timestamp};
use crate::config::AppConfig;
use crate::error::{error_view, ApiError, ApiErrorView, BAD_GATEWAY, BAD_REQUEST,
    INTERNAL_SERVER_ERROR, NOT_FOUND};
use crate::headers::{
    first_value, flag_set, header_flag, headers_view, lemma_true_sets_a_flag, lemma_with_header,
    true_bytes, with_header, HeaderEntry,
};
use crate::json::{Json, JsonValue};
use crate::models::{headers_with, is_v4_id, Event, EventId, EventView, NewEvent, NewEventView};

verus! {

/// Marks a request as the replay of a stored event; set on replayed events.
pub const X_CORNERBACK_REPLAY_HEADER: &'static str = "x-cornerback-replay";

/// Asks for the event to be forwarded to the target server.
pub const X_CORNERBACK_SEND_TARGET_HEADER: &'static str = "x-cornerback-send-target";

/// The body of a request to the webhook endpoint.
#[derive(Debug)]
pub struct IncomingEventPayload {
    /// The stored event to replay, when the replay header is set.
    pub id: Option<EventId>,
    pub headers: JsonValue,
    pub body: JsonValue,
}

/// The view of an [`IncomingEventPayload`].
pub struct PayloadView {
    pub id: Option<EventId>,
    pub headers: Json,
    pub body: Json,
}

impl View for IncomingEventPayload {
    type V = PayloadView;

    open spec fn view(&self) -> PayloadView {
        PayloadView { id: self.id, headers: self.headers@, body: self.body@ }
    }
}

/// The headers of a payload that gives none: the empty object.
pub fn default_json_object() -> (r: JsonValue)
    ensures
        r@ == Json::Object(Map::empty()),
{
    let r = JsonValue::Object(Vec::new());
    assert(crate::json::entries_map(Seq::<(String, JsonValue)>::empty()) =~= Map::empty());
    r
}

/// A successful answer: `{"proxied": true}` when the event was only forwarded,
/// or the stored event.
#[derive(Debug)]
pub enum Reply {
    Proxied,
    Stored(Event),
}

/// The view of a [`Reply`].
pub enum ReplyView {
    Proxied,
    Stored(EventView),
}

impl View for Reply {
    type V = ReplyView;

    open spec fn view(&self) -> ReplyView {
        match self {
            Reply::Proxied => ReplyView::Proxied,
            Reply::Stored(e) => ReplyView::Stored(e@),
        }
    }
}

/// What the host is to do next for a request.
#[derive(Debug)]
pub enum Action {
    /// Forward the event to the target server; report [`Outcome::Sent`].
    SendToTarget(Event),
    /// Read the stored event; report [`Outcome::Fetched`].
    FetchEvent(EventId),
    /// Replace the stored event; report [`Outcome::Updated`].
    UpdateEvent(Event),
    /// Store a new event; report [`Outcome::Inserted`].
    InsertEvent(NewEvent),
    /// Answer the request; nothing remains to be done.
    Respond(Result<Reply, ApiError>),
}

/// The view of an [`Action`].
pub enum ActionView {
    SendToTarget(EventView),
    FetchEvent(EventId),
    UpdateEvent(EventView),
    InsertEvent(NewEventView),
    Respond(Result<ReplyView, ApiErrorView>),
}

impl View for Action {
    type V = ActionView;

    open spec fn view(&self) -> ActionView {
        match self {
            Action::SendToTarget(e) => ActionView::SendToTarget(e@),
            Action::FetchEvent(id) => ActionView::FetchEvent(*id),
            Action::UpdateEvent(e) => ActionView::UpdateEvent(e@),
            Action::InsertEvent(n) => ActionView::InsertEvent(n@),
            Action::Respond(Ok(reply)) => ActionView::Respond(Ok(reply@)),
            Action::Respond(Err(e)) => ActionView::Respond(Err(e@)),
        }
    }
}

/// What came of the action that the host performed.
#[derive(Debug)]
pub enum Outcome {
    /// The answer of the target server (see [`delivery_outcome`]).
    Sent(Result<(), ApiError>),
    /// The stored event, or the store's error.
    Fetched(Result<Option<Event>, String>),
    /// The store's answer to the update.
    Updated(Result<(), String>),
    /// The stored event, or the store's error.
    Inserted(Result<Event, String>),
}

/// Where a request stands.
#[derive(Debug, Clone, Copy, PartialEq, Eq)]
pub enum Stage {
    /// Forwarding the event without storing it (intercept is off).
    Proxying,
    /// Reading the stored event that a replay starts from.
    LoadingReplay,
    /// Reading the stored event to replay.
    Fetching,
    /// Writing back the replayed event.
    Updating,
    /// Storing a new event.
    Inserting,
    /// Forwarding the stored event to the target server.
    Delivering,
    /// Answered.
    Finished,
}

/// A request being served.
#[derive(Debug)]
pub struct EventRequest {
    stage: Stage,
    /// The event being written back or forwarded.
    event: Option<Event>,
    intercept: bool,
    send_to_target: bool,
}

/// The view of an [`EventRequest`].
pub struct RequestView {
    pub stage: Stage,
    pub event: Option<EventView>,
    pub intercept: bool,
    pub send_to_target: bool,
}

impl View for EventRequest {
    type V = RequestView;

    closed spec fn view(&self) -> RequestView {
        RequestView {
            stage: self.stage,
            event: match self.event {
                Some(e) => Some(e@),
                None => None,
            },
            intercept: self.intercept,
            send_to_target: self.send_to_target,
        }
    }
}

/// The message of the error for a replay that names no event.
pub open spec fn missing_id_message() -> Seq<char> {
    "id is required when replay header is set"@
}

/// The error for a stored event that does not exist.
pub open spec fn event_not_found() -> ApiErrorView {
    error_view(NOT_FOUND, "Event not found"@)
}

/// The event with the replay header set to `true`.
pub open spec fn marked_replayed(e: EventView) -> EventView {
    EventView { headers: headers_with(e.headers, X_CORNERBACK_REPLAY_HEADER@, "true"@), ..e }
}

/// The answer to a successful request: the proxied marker or the stored event.
pub open spec fn reply_of(r: Result<(), ApiErrorView>, reply: ReplyView) -> ActionView {
    match r {
        Ok(_) => ActionView::Respond(Ok(reply)),
        Err(e) => ActionView::Respond(Err(e)),
    }
}

/// How a request starts: without intercept a new event carrying the payload,
/// under a version 4 identifier and stamped with a time since the epoch, is
/// forwarded and nothing is stored (a 500 when the clock cannot stamp it); with
/// intercept, a replay reads the event it names (and is refused when it names
/// none), and anything else is stored as a new event.
pub open spec fn started(
    req: RequestView,
    action: Action,
    webhook_id: Seq<char>,
    replay: bool,
    send_to_target: bool,
    payload: PayloadView,
    intercept: bool,
) -> bool {
    &&& req.intercept == intercept
    &&& req.send_to_target == send_to_target
    &&& req.event is None
    &&& if !intercept {
        ||| {
            &&& req.stage == Stage::Proxying
            &&& action matches Action::SendToTarget(e)
            &&& e@.webhook_id == webhook_id
            &&& e@.headers == payload.headers
            &&& e@.body == payload.body
            &&& is_v4_id(e@.id)
            &&& 0 <= e@.created_at.secs
            &&& e@.created_at.nanos < 1_000_000_000
        }
        ||| {
            &&& req.stage == Stage::Finished
            &&& action@ == ActionView::Respond(
                Err(error_view(INTERNAL_SERVER_ERROR, clock_error_message())),
            )
        }
    } else if replay {
        match payload.id {
            None => req.stage == Stage::Finished && action@ == ActionView::Respond(
                Err(error_view(BAD_REQUEST, missing_id_message())),
            ),
            Some(id) => req.stage == Stage::Fetching && action@ == ActionView::FetchEvent(id),
        }
    } else {
        &&& req.stage == Stage::Inserting
        &&& action@ == ActionView::InsertEvent(
            NewEventView { webhook_id, headers: payload.headers, body: payload.body },
        )
    }
}

/// After the event `e` is stored: forward it when the request asks for it,
/// else answer with it.
pub open spec fn stored(old_req: RequestView, req: RequestView, action: ActionView, e: EventView) -> bool {
    &&& req.intercept == old_req.intercept
    &&& req.send_to_target == old_req.send_to_target
    &&& if old_req.send_to_target {
        &&& req.stage == Stage::Delivering
        &&& req.event == Some(e)
        &&& action == ActionView::SendToTarget(e)
    } else {
        &&& req.stage == Stage::Finished
        &&& action == ActionView::Respond(Ok(ReplyView::Stored(e)))
    }
}

/// After the replayed event `e` is written back: it is resent to the target,
/// whether or not the request asked for forwarding.
pub open spec fn replayed(old_req: RequestView, req: RequestView, action: ActionView, e: EventView) -> bool {
    &&& req.intercept == old_req.intercept
    &&& req.send_to_target == old_req.send_to_target
    &&& req.stage == Stage::Delivering
    &&& req.event == Some(e)
    &&& action == ActionView::SendToTarget(e)
}

/// The outcome is the report of the action that the request is waiting on.
pub open spec fn awaited(stage: Stage, outcome: Outcome) -> bool {
    match stage {
        Stage::Proxying | Stage::Delivering => outcome is Sent,
        Stage::LoadingReplay | Stage::Fetching => outcome is Fetched,
        Stage::Updating => outcome is Updated,
        Stage::Inserting => outcome is Inserted,
        Stage::Finished => false,
    }
}

/// The store's answer to a read, as the answer to the request: the event, a
/// 404 when there is none, a 500 carrying the store's message on failure.
pub fn found_event(fetched: Result<Option<Event>, String>) -> (r: Result<Event, ApiError>)
    ensures
        match fetched {
            Ok(Some(e)) => r matches Ok(f) && f@ == e@,
            Ok(None) => r matches Err(err) && err@ == event_not_found(),
            Err(m) => r matches Err(err) && err@ == error_view(INTERNAL_SERVER_ERROR, m@),
        },
{
    match fetched {
        Ok(Some(e)) => Ok(e),
        Ok(None) => {
            let r = ApiError::not_found("Event");
            proof {
                reveal_strlit("Event");
                reveal_strlit(" not found");
                reveal_strlit("Event not found");
                assert("Event"@ + " not found"@ =~= "Event not found"@);
            }
            Err(r)
        },
        Err(m) => Err(ApiError::internal_error(m)),
    }
}

/// The store's answer to a listing, as the answer to the request: the events,
/// or a 500 carrying the store's message.
pub fn listed_events(listed: Result<Vec<Event>, String>) -> (r: Result<Vec<Event>, ApiError>)
    ensures
        match listed {
            Ok(events) => r matches Ok(v) && v == events,
            Err(m) => r matches Err(err) && err@ == error_view(INTERNAL_SERVER_ERROR, m@),
        },
{
    match listed {
        Ok(events) => Ok(events),
        Err(m) => Err(ApiError::internal_error(m)),
    }
}

/// The status line of an HTTP status code, as `http::StatusCode` displays it
/// (the code, a space and its canonical reason).
pub uninterp spec fn status_line(code: u16) -> Seq<char>;

/// Formats `code` as `axum::http::StatusCode` displays itself.
///
/// Calls `StatusCode::from_u16`, which accepts exactly the codes 100 to 999,
/// then formats the status with `Display`; the text is named by `status_line`.
#[verifier::external_body]
fn status_text(code: u16) -> (s: String)
    requires
        100 <= code <= 999,
    ensures
        s@ == status_line(code),
{
    match axum::http::StatusCode::from_u16(code) {
        Ok(status) => format!("{}", status),
        Err(_) => String::new(),
    }
}

/// The message of the error for a target that answered `code`.
pub open spec fn rejected_message(code: u16) -> Seq<char> {
    "target returned status "@ + status_line(code)
}

/// The message of the error for a target that could not be reached.
pub open spec fn unreachable_message(error: Seq<char>) -> Seq<char> {
    "target send failed: "@ + error
}

/// The answer of the target server to a forwarded event: its status code, or
/// the message of the transport error. A 2xx status is a success; any other
/// status, or no answer, is a 502.
pub fn delivery_outcome(response: Result<u16, String>) -> (r: Result<(), ApiError>)
    requires
        response matches Ok(code) ==> 100 <= code <= 999,
    ensures
        match response {
            Ok(code) => if 200 <= code < 300 {
                r is Ok
            } else {
                r matches Err(e) && e@ == error_view(BAD_GATEWAY, rejected_message(code))
            },
            Err(m) => r matches Err(e) && e@ == error_view(BAD_GATEWAY, unreachable_message(m@)),
        },
{
    match response {
        Ok(code) => {
            if 200 <= code && code < 300 {
                Ok(())
            } else {
                let mut message = "target returned status ".to_string();
                let line = status_text(code);
                message.append(line.as_str());
                Err(ApiError::bad_gateway(message))
            }
        },
        Err(m) => {
            let mut message = "target send failed: ".to_string();
            message.append(m.as_str());
            Err(ApiError::bad_gateway(message))
        },
    }
}

/// How a request with intercept off starts, given the event stamped for it or
/// the error of the clock that could not stamp it: the event is forwarded and
/// the request waits for the target's answer; without an event the request is
/// answered at once with a 500 carrying the error.
pub open spec fn proxy_start(created: Result<EventView, Seq<char>>) -> (Stage, ActionView) {
    match created {
        Ok(e) => (Stage::Proxying, ActionView::SendToTarget(e)),
        Err(m) => (
            Stage::Finished,
            ActionView::Respond(Err(error_view(INTERNAL_SERVER_ERROR, m))),
        ),
    }
}

/// Starts a request with intercept off from the outcome of stamping its event
/// ([`Event::new`]): the request forwards the event it is given, whatever it
/// asked of forwarding, or answers with a 500 carrying the error.
pub fn start_proxying(created: Result<Event, String>, send_to_target: bool) -> (r: (
    EventRequest,
    Action,
))
    ensures
        r.0@.stage == proxy_start(
            match created {
                Ok(e) => Ok(e@),
                Err(m) => Err(m@),
            },
        ).0,
        r.1@ == proxy_start(
            match created {
                Ok(e) => Ok(e@),
                Err(m) => Err(m@),
            },
        ).1,
        created matches Ok(e) ==> r.1 == Action::SendToTarget(e),
        r.0@.event is None,
        !r.0@.intercept,
        r.0@.send_to_target == send_to_target,
{
    match created {
        Ok(event) => {
            let req = EventRequest {
                stage: Stage::Proxying,
                event: None,
                intercept: false,
                send_to_target,
            };
            (req, Action::SendToTarget(event))
        },
        Err(m) => {
            let req = EventRequest {
                stage: Stage::Finished,
                event: None,
                intercept: false,
                send_to_target,
            };
            (req, Action::Respond(Err(ApiError::internal_error(m))))
        },
    }
}

/// Starts a request whose flags have been read.
fn begin(
    webhook_id: String,
    replay: bool,
    send_to_target: bool,
    payload: IncomingEventPayload,
    intercept: bool,
) -> (r: (EventRequest, Action))
    ensures
        started(r.0@, r.1, webhook_id@, replay, send_to_target, payload@, intercept),
{
    if !intercept {
        let created = Event::new(webhook_id, payload.headers, payload.body);
        return start_proxying(created, send_to_target);
    }
    if replay {
        match payload.id {
            None => {
                let req = EventRequest {
                    stage: Stage::Finished,
                    event: None,
                    intercept,
                    send_to_target,
                };
                let err = ApiError::bad_request(
                    "id is required when replay header is set".to_string(),
                );
                (req, Action::Respond(Err(err)))
            },
            Some(id) => {
                let req = EventRequest { stage: Stage::Fetching, event: None, intercept, send_to_target };
                (req, Action::FetchEvent(id))
            },
        }
    } else {
        let req = EventRequest { stage: Stage::Inserting, event: None, intercept, send_to_target };
        let new_event = NewEvent { webhook_id, headers: payload.headers, body: payload.body };
        (req, Action::InsertEvent(new_event))
    }
}

/// With intercept off, a request never reaches the store: it forwards a new
/// event carrying the payload and waits only for the target's answer, or it is
/// answered at once.
pub proof fn lemma_proxy_mode_skips_the_store(
    req: RequestView,
    action: Action,
    webhook_id: Seq<char>,
    replay: bool,
    send_to_target: bool,
    payload: PayloadView,
)
    requires
        started(req, action, webhook_id, replay, send_to_target, payload, false),
    ensures
        action is SendToTarget || action is Respond,
        forall|outcome: Outcome| #[trigger] awaited(req.stage, outcome) ==> outcome is Sent,
{
}

/// A replay request that names no event is refused with a 400 at once, before
/// the store is reached.
pub proof fn lemma_replay_needs_an_id(
    req: RequestView,
    action: Action,
    webhook_id: Seq<char>,
    send_to_target: bool,
    payload: PayloadView,
)
    requires
        started(req, action, webhook_id, true, send_to_target, payload, true),
        payload.id is None,
    ensures
        req.stage == Stage::Finished,
        action@ == ActionView::Respond(Err(error_view(BAD_REQUEST, missing_id_message()))),
{
}

/// Replaying a stored event posts it again with its own identifier: with
/// intercept on, the request then reads that same event.
pub proof fn lemma_replay_reads_the_same_event(
    req: RequestView,
    action: Action,
    e: EventView,
    send_to_target: bool,
)
    requires
        started(
            req,
            action,
            e.webhook_id,
            true,
            send_to_target,
            PayloadView { id: Some(e.id), headers: e.headers, body: e.body },
            true,
        ),
    ensures
        action@ == ActionView::FetchEvent(e.id),
        req.stage == Stage::Fetching,
{
}

/// A replayed event carries the replay header set to `true`, keeps every other
/// header and its identifier, webhook, body and time.
pub proof fn lemma_replay_marks_the_event(e: EventView, m: Map<Seq<char>, Json>)
    requires
        e.headers == Json::Object(m),
    ensures
        marked_replayed(e).headers == Json::Object(
            m.insert(X_CORNERBACK_REPLAY_HEADER@, Json::Str("true"@)),
        ),
        marked_replayed(e).id == e.id,
        marked_replayed(e).webhook_id == e.webhook_id,
        marked_replayed(e).body == e.body,
        marked_replayed(e).created_at == e.created_at,
{
}

/// Whether headers (as views) ask for the stored event to be forwarded.
pub open spec fn target_wanted(headers: Seq<(Seq<char>, Seq<u8>)>, config: AppConfig) -> bool {
    config.send_to_target_by_default || flag_set(
        first_value(headers, X_CORNERBACK_SEND_TARGET_HEADER@),
    )
}

/// Whether headers (as views) ask for a replay.
pub open spec fn replay_wanted(headers: Seq<(Seq<char>, Seq<u8>)>) -> bool {
    flag_set(first_value(headers, X_CORNERBACK_REPLAY_HEADER@))
}

/// Whether the request asks for the stored event to be forwarded.
pub open spec fn wants_target(headers: Seq<HeaderEntry>, config: AppConfig) -> bool {
    target_wanted(headers_view(headers), config)
}

/// Whether the request asks for a replay.
pub open spec fn wants_replay(headers: Seq<HeaderEntry>) -> bool {
    replay_wanted(headers_view(headers))
}

/// Replaying the stored event `e` (see [`replay_event_request`]) is posting it
/// again to its webhook, its identifier, headers and body as the payload, with
/// the request's headers and the replay header set to `true`: once `e` is
/// read, the replay stands exactly where [`process_event_request`] leaves that
/// post.
pub proof fn lemma_replay_is_a_post_with_the_replay_header(
    headers: Seq<HeaderEntry>,
    config: AppConfig,
    intercept: bool,
    e: EventView,
    req: RequestView,
    action: Action,
)
    requires
        started(
            req,
            action,
            e.webhook_id,
            true,
            wants_target(headers, config),
            PayloadView { id: Some(e.id), headers: e.headers, body: e.body },
            intercept,
        ),
    ensures
        ({
            let posted = with_header(headers_view(headers), X_CORNERBACK_REPLAY_HEADER@, true_bytes());
            started(
                req,
                action,
                e.webhook_id,
                replay_wanted(posted),
                target_wanted(posted, config),
                PayloadView { id: Some(e.id), headers: e.headers, body: e.body },
                intercept,
            )
        }),
{
    let hv = headers_view(headers);
    let posted = with_header(hv, X_CORNERBACK_REPLAY_HEADER@, true_bytes());
    reveal_strlit("x-cornerback-replay");
    reveal_strlit("x-cornerback-send-target");
    assert(X_CORNERBACK_SEND_TARGET_HEADER@ != X_CORNERBACK_REPLAY_HEADER@) by {
        assert(X_CORNERBACK_SEND_TARGET_HEADER@.len() != X_CORNERBACK_REPLAY_HEADER@.len());
    }
    lemma_with_header(hv, X_CORNERBACK_REPLAY_HEADER@, true_bytes(), X_CORNERBACK_SEND_TARGET_HEADER@);
    lemma_true_sets_a_flag();
    assert(replay_wanted(posted));
    assert(target_wanted(posted, config) == wants_target(headers, config));
}

/// Starts serving an event posted to webhook `webhook_id`.
///
/// With intercept off the event is only forwarded. Otherwise, when the replay
/// header is set, the stored event named by the payload is read (a payload
/// naming none is refused with a 400); else the event is stored as new.
pub fn process_event_request(
    webhook_id: String,
    request_headers: &Vec<HeaderEntry>,
    payload: IncomingEventPayload,
    intercept: bool,
    config: &AppConfig,
) -> (r: (EventRequest, Action))
    ensures
        started(
            r.0@,
            r.1,
            webhook_id@,
            wants_replay(request_headers@),
            wants_target(request_headers@, *config),
            payload@,
            intercept,
        ),
{
    let replay = header_flag(request_headers, X_CORNERBACK_REPLAY_HEADER);
    let send_to_target = config.send_to_target_by_default || header_flag(
        request_headers,
        X_CORNERBACK_SEND_TARGET_HEADER,
    );
    begin(webhook_id, replay, send_to_target, payload, intercept)
}

/// Starts replaying the stored event `event_id`: the event is read, then posted
/// again to its webhook with the replay header set, as
/// [`process_event_request`] serves it.
pub fn replay_event_request(
    event_id: EventId,
    request_headers: &Vec<HeaderEntry>,
    intercept: bool,
    config: &AppConfig,
) -> (r: (EventRequest, Action))
    ensures
        r.0@ == (RequestView {
            stage: Stage::LoadingReplay,
            event: None,
            intercept,
            send_to_target: wants_target(request_headers@, *config),
        }),
        r.1@ == ActionView::FetchEvent(event_id),
{
    let send_to_target = config.send_to_target_by_default || header_flag(
        request_headers,
        X_CORNERBACK_SEND_TARGET_HEADER,
    );
    let req = EventRequest { stage: Stage::LoadingReplay, event: None, intercept, send_to_target };
    (req, Action::FetchEvent(event_id))
}

impl EventRequest {
    /// The request is answered.
    pub fn is_finished(&self) -> (r: bool)
        ensures
            r == (self@.stage == Stage::Finished),
    {
        match self.stage {
            Stage::Finished => true,
            _ => false,
        }
    }

    /// The next step, given what came of the action the request waited on.
    pub fn resume(&mut self, outcome: Outcome) -> (a: Action)
        requires
            awaited(old(self)@.stage, outcome),
        ensures
            match (old(self)@.stage, outcome) {
                (Stage::Proxying, Outcome::Sent(r)) => final(self)@.stage == Stage::Finished
                    && a@ == reply_of(
                    match r {
                        Ok(_) => Ok(()),
                        Err(e) => Err(e@),
                    },
                    ReplyView::Proxied,
                ),
                (Stage::Delivering, Outcome::Sent(r)) => final(self)@.stage == Stage::Finished
                    && (old(self)@.event matches Some(e) && a@ == reply_of(
                    match r {
                        Ok(_) => Ok(()),
                        Err(err) => Err(err@),
                    },
                    ReplyView::Stored(e),
                )),
                (Stage::Fetching, Outcome::Fetched(Ok(Some(e)))) => final(self)@.stage
                    == Stage::Updating && final(self)@.event == Some(marked_replayed(e@)) && a@
                    == ActionView::UpdateEvent(marked_replayed(e@)) && final(self)@.send_to_target
                    == old(self)@.send_to_target && final(self)@.intercept == old(self)@.intercept,
                (Stage::LoadingReplay, Outcome::Fetched(Ok(Some(e)))) => started(
                    final(self)@,
                    a,
                    e@.webhook_id,
                    true,
                    old(self)@.send_to_target,
                    PayloadView { id: Some(e.id), headers: e@.headers, body: e@.body },
                    old(self)@.intercept,
                ),
                (_, Outcome::Fetched(Ok(None))) => final(self)@.stage == Stage::Finished && a@
                    == ActionView::Respond(Err(event_not_found())),
                (_, Outcome::Fetched(Err(m))) => final(self)@.stage == Stage::Finished && a@
                    == ActionView::Respond(Err(error_view(INTERNAL_SERVER_ERROR, m@))),
                (_, Outcome::Updated(Ok(()))) => (old(self)@.event matches Some(e) && replayed(
                    old(self)@,
                    final(self)@,
                    a@,
                    e,
                )),
                (_, Outcome::Updated(Err(m))) => final(self)@.stage == Stage::Finished && a@
                    == ActionView::Respond(Err(error_view(INTERNAL_SERVER_ERROR, m@))),
                (_, Outcome::Inserted(Ok(e))) => stored(old(self)@, final(self)@, a@, e@),
                (_, Outcome::Inserted(Err(m))) => final(self)@.stage == Stage::Finished && a@
                    == ActionView::Respond(Err(error_view(INTERNAL_SERVER_ERROR, m@))),
                _ => false,
            },
    {
        proof {
            use_type_invariant(&*self);
        }
        match outcome {
            Outcome::Sent(sent) => {
                let reply = match self.stage {
                    Stage::Proxying => Reply::Proxied,
                    _ => {
                        let e = self.take_event();
                        Reply::Stored(e)
                    },
                };
                self.stage = Stage::Finished;
                match sent {
                    Ok(()) => Action::Respond(Ok(reply)),
                    Err(e) => Action::Respond(Err(e)),
                }
            },
            Outcome::Fetched(Err(m)) => {
                self.stage = Stage::Finished;
                Action::Respond(Err(ApiError::internal_error(m)))
            },
            Outcome::Fetched(Ok(fetched)) => {
                match fetched {
                    None => {
                        self.stage = Stage::Finished;
                        let r = found_event(Ok(None));
                        match r {
                            Ok(e) => Action::Respond(Ok(Reply::Stored(e))),
                            Err(err) => Action::Respond(Err(err)),
                        }
                    },
                    Some(mut e) => {
                        match self.stage {
                            Stage::LoadingReplay => {
                                let payload = IncomingEventPayload {
                                    id: Some(e.id),
                                    headers: e.headers,
                                    body: e.body,
                                };
                                let (req, action) = begin(
                                    e.webhook_id,
                                    true,
                                    self.send_to_target,
                                    payload,
                                    self.intercept,
                                );
                                *self = req;
                                action
                            },
                            _ => {
                                let marked = e.add_header(X_CORNERBACK_REPLAY_HEADER, "true");
                                let again = marked.clone();
                                *self = EventRequest {
                                    stage: Stage::Updating,
                                    event: Some(marked),
                                    intercept: self.intercept,
                                    send_to_target: self.send_to_target,
                                };
                                Action::UpdateEvent(again)
                            },
                        }
                    },
                }
            },
            Outcome::Updated(updated) => {
                match updated {
                    Ok(()) => {
                        let e = self.take_event();
                        self.deliver(e)
                    },
                    Err(m) => {
                        self.stage = Stage::Finished;
                        Action::Respond(Err(ApiError::internal_error(m)))
                    },
                }
            },
            Outcome::Inserted(inserted) => {
                match inserted {
                    Ok(e) => self.after_store(e),
                    Err(m) => {
                        self.stage = Stage::Finished;
                        Action::Respond(Err(ApiError::internal_error(m)))
                    },
                }
            },
        }
    }

    /// Takes the event that the request holds while writing it back or
    /// forwarding it; the request is then finished.
    fn take_event(&mut self) -> (e: Event)
        requires
            old(self)@.event is Some,
        ensures
            Some(e@) == old(self)@.event,
            final(self)@.stage == Stage::Finished,
            final(self)@.event is None,
            final(self)@.intercept == old(self)@.intercept,
            final(self)@.send_to_target == old(self)@.send_to_target,
    {
        self.stage = Stage::Finished;
        let mut slot: Option<Event> = None;
        std::mem::swap(&mut slot, &mut self.event);
        match slot {
            Some(e) => e,
            None => {
                proof {
                    assert(false);
                }
                Event {
                    id: 0,
                    webhook_id: String::new(),
                    headers: JsonValue::Null,
                    body: JsonValue::Null,
                    created_at: Timestamp { secs: 0, nanos: 0 },
                }
            },
        }
    }

    /// After the event `e` is stored: forward it when asked to, else answer.
    fn after_store(&mut self, e: Event) -> (a: Action)
        ensures
            stored(old(self)@, final(self)@, a@, e@),
    {
        if self.send_to_target {
            self.deliver(e)
        } else {
            self.stage = Stage::Finished;
            self.event = None;
            Action::Respond(Ok(Reply::Stored(e)))
        }
    }

    /// Forwards the event `e` to the target and waits for its answer.
    fn deliver(&mut self, e: Event) -> (a: Action)
        ensures
            final(self)@.intercept == old(self)@.intercept,
            final(self)@.send_to_target == old(self)@.send_to_target,
            final(self)@.stage == Stage::Delivering,
            final(self)@.event == Some(e@),
            a@ == ActionView::SendToTarget(e@),
    {
        let forwarded = e.clone();
        *self = EventRequest {
            stage: Stage::Delivering,
            event: Some(e),
            intercept: self.intercept,
            send_to_target: self.send_to_target,
        };
        Action::SendToTarget(forwarded)
    }

    /// A request that waits on an event always holds one.
    #[verifier::type_invariant]
    spec fn holds_event(self) -> bool {
        (self.stage == Stage::Updating || self.stage == Stage::Delivering) ==> self.event is Some
    }
}

} // verus!
