//! Passing on to the backend what the proxy does not serve itself.
//!
//! An [`Exchange`] decides what is done next with one request; reading bodies and sending is
//! done outside, and what came of it is handed back as an [`ExchangeEvent`].

use crate::base_url;
use crate::headers;
use crate::headers::{Field, Header};
use crate::method;
use crate::response;
use crate::text;
use axum::http::{HeaderMap, HeaderValue, Response};
use vstd::prelude::*;

verus! {

/// The longest body that a request is passed on with: 16 MiB.
pub const MAX_BODY_BYTES: usize = 16 * 1024 * 1024;

/// Why a request is answered by the proxy itself.
#[derive(Clone, Copy, Debug, PartialEq, Eq, Structural)]
pub enum FallbackError {
    /// The request's body could not be read, or is too long.
    PayloadTooLarge,
    /// The HTTP client has no such method.
    MethodNotAllowed,
    /// The backend could not be reached, or its reply could not be read.
    BadGateway,
    /// No response can be made of the backend's reply.
    InternalServerError,
}

impl FallbackError {
    /// The status that the request is answered with.
    pub open spec fn status(self) -> u16 {
        match self {
            FallbackError::PayloadTooLarge => 413,
            FallbackError::MethodNotAllowed => 405,
            FallbackError::BadGateway => 502,
            FallbackError::InternalServerError => 500,
        }
    }

    /// Returns the status that the request is answered with.
    pub fn status_code(self) -> (res: u16)
        ensures
            res == self.status(),
            self is PayloadTooLarge ==> res == 413,
            self is MethodNotAllowed ==> res == 405,
            self is BadGateway ==> res == 502,
            self is InternalServerError ==> res == 500,
    {
        match self {
            FallbackError::PayloadTooLarge => 413,
            FallbackError::MethodNotAllowed => 405,
            FallbackError::BadGateway => 502,
            FallbackError::InternalServerError => 500,
        }
    }
}

/// What a request asks for: the path and query of its URI, where the URI has them as one
/// text, and the path alone.
pub struct RequestTarget {
    pub path_and_query: Option<String>,
    pub path: String,
}

impl View for RequestTarget {
    type V = Seq<char>;

    open spec fn view(&self) -> Seq<char> {
        match self.path_and_query {
            Some(text) => text@,
            None => self.path@,
        }
    }
}

impl RequestTarget {
    /// Returns the path and query, or the path alone where the URI has no more.
    pub fn as_text(&self) -> (res: &str)
        ensures
            res@ == self@,
            self.path_and_query matches Some(text) ==> res@ == text@,
            self.path_and_query is None ==> res@ == self.path@,
    {
        match &self.path_and_query {
            Some(text) => text.as_str(),
            None => self.path.as_str(),
        }
    }
}

/// A request as it came, without its body.
pub struct InboundRequest {
    pub method: String,
    pub target: RequestTarget,
    pub headers: HeaderMap<HeaderValue>,
}

/// A request as it goes to the backend.
pub struct OutboundRequest {
    pub method: String,
    pub url: String,
    pub headers: Vec<Header>,
    pub body: Vec<u8>,
}

/// What a request to the backend holds.
#[verifier::ext_equal]
pub struct OutboundView {
    pub method: Seq<char>,
    pub url: Seq<char>,
    pub headers: Seq<Field>,
    pub body: Seq<u8>,
}

impl View for OutboundRequest {
    type V = OutboundView;

    open spec fn view(&self) -> OutboundView {
        OutboundView {
            method: self.method@,
            url: self.url@,
            headers: headers::fields(self.headers@),
            body: self.body@,
        }
    }
}

/// Why a request with this method and body is not passed on, if it is not. A body that is
/// too long comes before a method that is not allowed.
pub open spec fn refusal(method: Seq<char>, body: Seq<u8>) -> Option<FallbackError> {
    if body.len() > MAX_BODY_BYTES {
        Some(FallbackError::PayloadTooLarge)
    } else if !method::is_token(method) {
        Some(FallbackError::MethodNotAllowed)
    } else {
        None
    }
}

/// The request to the backend: with the same method and body, to the same path and query,
/// and with the fields that are passed on.
pub open spec fn outbound(
    backend_base: Seq<char>,
    method: Seq<char>,
    target: Seq<char>,
    fields: Seq<Field>,
    body: Seq<u8>,
) -> OutboundView {
    OutboundView {
        method,
        url: base_url::target_url(backend_base, target),
        headers: headers::request_fields(fields),
        body,
    }
}

/// What `res` is for a request with these parts: the request to the backend, or why it is
/// not passed on.
pub open spec fn is_planned(
    backend_base: Seq<char>,
    method: Seq<char>,
    target: Seq<char>,
    fields: Seq<Field>,
    body: Seq<u8>,
    res: Result<OutboundRequest, FallbackError>,
) -> bool {
    match res {
        Ok(planned) => {
            &&& refusal(method, body) is None
            &&& planned@ == outbound(backend_base, method, target, fields, body)
        },
        Err(error) => refusal(method, body) == Some(error),
    }
}

/// Returns the request to the backend for a request with these parts, or why there is none.
pub fn plan_from_fields(
    backend_base: &str,
    method: &str,
    target: &RequestTarget,
    headers: &Vec<Header>,
    body: Vec<u8>,
) -> (res: Result<OutboundRequest, FallbackError>)
    ensures
        is_planned(
            backend_base@,
            method@,
            target@,
            headers::fields(headers@),
            body@,
            res,
        ),
        res is Ok <==> body@.len() <= 16777216 && method::is_token(method@),
        res matches Ok(planned) ==> {
            &&& planned.method@ == method@
            &&& planned.body@ == body@
            &&& headers::fields(planned.headers@) == headers::request_fields(
                headers::fields(headers@),
            )
            &&& planned.url@ == base_url::target_url(
                backend_base@,
                match target.path_and_query {
                    Some(text) => text@,
                    None => target.path@,
                },
            )
        },
{
    if body.len() > MAX_BODY_BYTES {
        return Err(FallbackError::PayloadTooLarge);
    }
    let url: String = base_url::derive_target_url(backend_base, target.as_text());
    match method::forward_method(method) {
        Some(method) => {
            let headers: Vec<Header> = headers::select_request_headers(headers);
            Ok(OutboundRequest { method, url, headers, body })
        },
        None => Err(FallbackError::MethodNotAllowed),
    }
}

/// Returns the request to the backend for `request` with `body`, or why there is none.
pub fn plan_request(backend_base: &str, request: &InboundRequest, body: Vec<u8>) -> (res: Result<
    OutboundRequest,
    FallbackError,
>)
    ensures
        is_planned(
            backend_base@,
            request.method@,
            request.target@,
            headers::map_fields(request.headers),
            body@,
            res,
        ),
        res is Ok <==> body@.len() <= 16777216 && method::is_token(request.method@),
        res matches Ok(planned) ==> {
            &&& planned.method@ == request.method@
            &&& planned.body@ == body@
            &&& headers::fields(planned.headers@) == headers::request_fields(
                headers::map_fields(request.headers),
            )
            &&& planned.url@ == base_url::target_url(
                backend_base@,
                match request.target.path_and_query {
                    Some(text) => text@,
                    None => request.target.path@,
                },
            )
        },
{
    plan_from_fields(
        backend_base,
        request.method.as_str(),
        &request.target,
        &headers::list_map(&request.headers),
        body,
    )
}

/// How far the handling of one request has come.
pub enum Exchange {
    /// The request's body is being read.
    ReadingBody { backend_base: String, request: InboundRequest },
    /// The request was sent, and the backend has not replied yet.
    AwaitingReply,
    /// The reply has begun, and its body is being read.
    ReadingReply { status: u16, headers: HeaderMap<HeaderValue> },
    /// The request has been answered.
    Finished,
}

/// What came of an action.
pub enum ExchangeEvent {
    /// The request's body was read.
    BodyRead(Vec<u8>),
    /// The request's body could not be read, or is longer than the limit.
    BodyFailed,
    /// The backend's reply has begun.
    ReplyStarted { status: u16, headers: HeaderMap<HeaderValue> },
    /// The request could not be sent, or no reply came.
    SendFailed,
    /// The reply's body was read.
    ReplyRead(Vec<u8>),
    /// The reply's body could not be read.
    ReplyFailed,
}

/// What is to be done next.
pub enum ExchangeAction {
    /// Read the request's body, as far as `limit` bytes.
    ReadBody { limit: usize },
    /// Send this request to the backend.
    Send(OutboundRequest),
    /// Read the body of the reply.
    ReadReply,
    /// Answer the request with this response.
    Respond(Response<Vec<u8>>),
    /// Answer the request with the status of this error.
    Reject(FallbackError),
}

impl Exchange {
    /// Whether `event` is one that can come at this point.
    pub open spec fn awaits(self, event: ExchangeEvent) -> bool {
        match self {
            Exchange::ReadingBody { .. } => event is BodyRead || event is BodyFailed,
            Exchange::AwaitingReply => event is ReplyStarted || event is SendFailed,
            Exchange::ReadingReply { .. } => event is ReplyRead || event is ReplyFailed,
            Exchange::Finished => false,
        }
    }

    /// Whether `event`, which is awaited, leads to `next` and to `action`.
    pub open spec fn leads_to(
        self,
        event: ExchangeEvent,
        next: Exchange,
        action: ExchangeAction,
    ) -> bool {
        match (self, event) {
            (
                Exchange::ReadingBody { backend_base, request },
                ExchangeEvent::BodyRead(body),
            ) => match refusal(request.method@, body@) {
                Some(error) => {
                    &&& next == Exchange::Finished
                    &&& action == ExchangeAction::Reject(error)
                },
                None => {
                    &&& next == Exchange::AwaitingReply
                    &&& action matches ExchangeAction::Send(planned)
                    &&& planned@ == outbound(
                        backend_base@,
                        request.method@,
                        request.target@,
                        headers::map_fields(request.headers),
                        body@,
                    )
                },
            },
            (Exchange::ReadingBody { .. }, _) => {
                &&& next == Exchange::Finished
                &&& action == ExchangeAction::Reject(FallbackError::PayloadTooLarge)
            },
            (Exchange::AwaitingReply, ExchangeEvent::ReplyStarted { status, headers }) => {
                &&& next == Exchange::ReadingReply { status, headers }
                &&& action == ExchangeAction::ReadReply
            },
            (Exchange::ReadingReply { status, headers }, ExchangeEvent::ReplyRead(body)) => {
                &&& next == Exchange::Finished
                &&& match action {
                    ExchangeAction::Respond(response) => response::is_relayed(
                        status,
                        headers::map_fields(headers),
                        body@,
                        Some(response),
                    ),
                    ExchangeAction::Reject(error) => {
                        &&& error == FallbackError::InternalServerError
                        &&& response::is_relayed(
                            status,
                            headers::map_fields(headers),
                            body@,
                            None,
                        )
                    },
                    _ => false,
                }
            },
            _ => {
                &&& next == Exchange::Finished
                &&& action == ExchangeAction::Reject(FallbackError::BadGateway)
            },
        }
    }

    /// How many events can still come.
    pub open spec fn remaining(self) -> nat {
        match self {
            Exchange::ReadingBody { .. } => 3,
            Exchange::AwaitingReply => 2,
            Exchange::ReadingReply { .. } => 1,
            Exchange::Finished => 0,
        }
    }

    /// Begins the handling of `request`, which is to be passed on to the backend at
    /// `backend_base`: its body is read first.
    pub fn start(backend_base: String, request: InboundRequest) -> (res: (
        Exchange,
        ExchangeAction,
    ))
        ensures
            res.0 == (Exchange::ReadingBody { backend_base, request }),
            res.1 == (ExchangeAction::ReadBody { limit: MAX_BODY_BYTES }),
            res.1 == (ExchangeAction::ReadBody { limit: 16777216 }),
    {
        (
            Exchange::ReadingBody { backend_base, request },
            ExchangeAction::ReadBody { limit: MAX_BODY_BYTES },
        )
    }

    /// Takes what came of the last action, and returns where the handling stands now and
    /// what is to be done next. `None` where the event cannot come at this point.
    pub fn step(self, event: ExchangeEvent) -> (res: Option<(Exchange, ExchangeAction)>)
        ensures
            res is Some <==> self.awaits(event),
            res matches Some((next, action)) ==> self.leads_to(event, next, action),
    {
        match (self, event) {
            (
                Exchange::ReadingBody { backend_base, request },
                ExchangeEvent::BodyRead(body),
            ) => match plan_request(backend_base.as_str(), &request, body) {
                Ok(planned) => Some((Exchange::AwaitingReply, ExchangeAction::Send(planned))),
                Err(error) => Some((Exchange::Finished, ExchangeAction::Reject(error))),
            },
            (Exchange::ReadingBody { .. }, ExchangeEvent::BodyFailed) => Some(
                (Exchange::Finished, ExchangeAction::Reject(FallbackError::PayloadTooLarge)),
            ),
            (Exchange::AwaitingReply, ExchangeEvent::ReplyStarted { status, headers }) => Some(
                (Exchange::ReadingReply { status, headers }, ExchangeAction::ReadReply),
            ),
            (Exchange::AwaitingReply, ExchangeEvent::SendFailed) => Some(
                (Exchange::Finished, ExchangeAction::Reject(FallbackError::BadGateway)),
            ),
            (
                Exchange::ReadingReply { status, headers },
                ExchangeEvent::ReplyRead(body),
            ) => match response::relay_reply(status, &headers, body) {
                Some(response) => Some((Exchange::Finished, ExchangeAction::Respond(response))),
                None => Some(
                    (
                        Exchange::Finished,
                        ExchangeAction::Reject(FallbackError::InternalServerError),
                    ),
                ),
            },
            (Exchange::ReadingReply { .. }, ExchangeEvent::ReplyFailed) => Some(
                (Exchange::Finished, ExchangeAction::Reject(FallbackError::BadGateway)),
            ),
            _ => None,
        }
    }
}

/// Every event that is awaited brings the handling nearer to its end, so a request is
/// answered after three events at most; and once it is answered, no event is awaited.
pub proof fn law_exchange_ends(
    exchange: Exchange,
    event: ExchangeEvent,
    next: Exchange,
    action: ExchangeAction,
)
    requires
        exchange.awaits(event),
        exchange.leads_to(event, next, action),
    ensures
        next.remaining() < exchange.remaining() <= 3,
        next.remaining() == 0 ==> forall|later: ExchangeEvent| !next.awaits(later),
{
}

/// A request is answered exactly when its handling ends: not before, and not without an
/// answer.
pub proof fn law_answered_exactly_at_the_end(
    exchange: Exchange,
    event: ExchangeEvent,
    next: Exchange,
    action: ExchangeAction,
)
    requires
        exchange.awaits(event),
        exchange.leads_to(event, next, action),
    ensures
        next is Finished <==> action is Respond || action is Reject,
{
}

/// Which failure a request is answered with says how far its handling came: before it is
/// sent only 413 and 405 occur, while the backend is awaited only 502, and while the reply
/// is read only 502 and 500.
pub proof fn law_failure_tells_the_stage(
    exchange: Exchange,
    event: ExchangeEvent,
    next: Exchange,
    error: FallbackError,
)
    requires
        exchange.awaits(event),
        exchange.leads_to(event, next, ExchangeAction::Reject(error)),
    ensures
        exchange is ReadingBody ==> error.status() == 413 || error.status() == 405,
        exchange is AwaitingReply ==> error.status() == 502,
        exchange is ReadingReply ==> error.status() == 502 || error.status() == 500,
{
}

/// Whatever is sent to the backend has a body within the limit and a method that is a token,
/// and holds none of the fields that stay behind.
pub proof fn law_sent_request_is_clean(
    exchange: Exchange,
    event: ExchangeEvent,
    next: Exchange,
    planned: OutboundRequest,
)
    requires
        exchange.awaits(event),
        exchange.leads_to(event, next, ExchangeAction::Send(planned)),
    ensures
        planned@.body.len() <= MAX_BODY_BYTES,
        method::is_token(planned@.method),
        forall|i: int|
            0 <= i < planned@.headers.len() ==> !headers::request_drops(
                #[trigger] planned@.headers[i].0,
            ),
{
    broadcast use vstd::seq_lib::group_filter_ensures;

    let keep = |f: Field| !headers::request_drops(f.0);
    let fields = headers::map_fields(exchange->request.headers);
    assert(planned@.headers == fields.filter(keep));
    assert forall|i: int| 0 <= i < planned@.headers.len() implies !headers::request_drops(
        #[trigger] planned@.headers[i].0,
    ) by {
        assert(keep(fields.filter(keep)[i]));
    }
}

/// A request to a backend whose endpoint is `host` followed by `/mcp` goes to `host` followed
/// by the path and query that were asked for, with the same method and the same body.
pub proof fn law_forwarding_is_transparent(
    host: Seq<char>,
    exchange: Exchange,
    body: Vec<u8>,
    next: Exchange,
    planned: OutboundRequest,
)
    requires
        host.len() > 0 ==> host.last() != '/',
        exchange is ReadingBody,
        exchange->backend_base@ == base_url::base_url(host + "/mcp"@),
        exchange.leads_to(
            ExchangeEvent::BodyRead(body),
            next,
            ExchangeAction::Send(planned),
        ),
    ensures
        planned@.url == host + exchange->request.target@,
        planned@.method == exchange->request.method@,
        planned@.body == body@,
        planned@.headers == headers::request_fields(
            headers::map_fields(exchange->request.headers),
        ),
        planned.method@ == exchange->request.method@,
        planned.body@ == body@,
        headers::fields(planned.headers@) == headers::request_fields(
            headers::map_fields(exchange->request.headers),
        ),
        exchange->request.target.path_and_query matches Some(text) ==> planned.url@ == host
            + text@,
        exchange->request.target.path_and_query is None ==> planned.url@ == host
            + exchange->request.target.path@,
{
    let none = Seq::<char>::empty();
    base_url::law_target_of_mcp_backend(host, none, exchange->request.target@);
    law_target_is_path_and_query(exchange->request.target);
    assert(host + "/mcp"@ + none =~= host + "/mcp"@);
}

/// A request with a body within the limit and with a proper method, to which the backend
/// gives a reply that a response can be made of, is answered with that reply: the same
/// status, the same body, and the fields that are passed back.
pub proof fn law_reply_is_relayed(
    exchange: Exchange,
    body: Vec<u8>,
    status: u16,
    headers: HeaderMap<HeaderValue>,
    reply: Vec<u8>,
    sent: (Exchange, ExchangeAction),
    started: (Exchange, ExchangeAction),
    ended: (Exchange, ExchangeAction),
)
    requires
        exchange is ReadingBody,
        refusal(exchange->request.method@, body@) is None,
        exchange.leads_to(ExchangeEvent::BodyRead(body), sent.0, sent.1),
        sent.0.leads_to(ExchangeEvent::ReplyStarted { status, headers }, started.0, started.1),
        started.0.leads_to(ExchangeEvent::ReplyRead(reply), ended.0, ended.1),
        response::is_valid_head(
            status,
            headers::response_fields(headers::map_fields(headers)),
        ),
        response::grouped(
            response::lowered(headers::response_fields(headers::map_fields(headers))),
        ).len() < response::NAME_ROOM,
    ensures
        sent.1 is Send,
        started.1 == ExchangeAction::ReadReply,
        ended.0 == Exchange::Finished,
        ended.1 matches ExchangeAction::Respond(answer) && response::response_content(answer) == (
            response::head(status, headers::response_fields(headers::map_fields(headers))),
            reply@,
        ),
{
}

/// However many fields a reply has: the answer is the reply, with its status, its body and
/// the fields that are passed back, or it is 500, and then no response can be made of the
/// reply, or one of at least [`response::NAME_ROOM`] names found no room.
pub proof fn law_answer_is_the_reply_or_500(
    status: u16,
    headers: HeaderMap<HeaderValue>,
    reply: Vec<u8>,
    next: Exchange,
    action: ExchangeAction,
)
    requires
        (Exchange::ReadingReply { status, headers }).leads_to(
            ExchangeEvent::ReplyRead(reply),
            next,
            action,
        ),
    ensures
        ({
            let kept = headers::response_fields(headers::map_fields(headers));
            match action {
                ExchangeAction::Respond(answer) => {
                    &&& response::is_valid_head(status, kept)
                    &&& response::response_content(answer) == (
                        response::head(status, kept),
                        reply@,
                    )
                },
                ExchangeAction::Reject(error) => {
                    &&& error.status() == 500
                    &&& response::is_valid_head(status, kept) ==> {
                        &&& response::grouped(response::lowered(kept)).len() >= response::NAME_ROOM
                        &&& exists|i: int|
                            0 <= i < kept.len() && response::lacked_room(
                                status,
                                #[trigger] kept.take(i),
                            )
                    }
                },
                _ => false,
            }
        }),
{
}

/// Whether `steps` are what `events`, each of them awaited, lead to one after the other.
pub open spec fn is_run(
    start: Exchange,
    events: Seq<ExchangeEvent>,
    steps: Seq<(Exchange, ExchangeAction)>,
) -> bool {
    &&& steps.len() == events.len()
    &&& forall|i: int| 0 <= i < events.len() ==> {
        let at = if i == 0 {
            start
        } else {
            steps[i - 1].0
        };
        &&& at.awaits(#[trigger] events[i])
        &&& at.leads_to(events[i], steps[i].0, steps[i].1)
    }
}

/// Whether the request's body was read, within the limit.
pub open spec fn body_was_read(events: Seq<ExchangeEvent>) -> bool {
    events.len() > 0 && (events[0] matches ExchangeEvent::BodyRead(body) && body@.len()
        <= MAX_BODY_BYTES)
}

/// Whether the request was sent, and the reply began.
pub open spec fn reply_began(events: Seq<ExchangeEvent>) -> bool {
    events.len() > 1 && events[1] is ReplyStarted
}

/// Whether the reply was read.
pub open spec fn reply_was_read(events: Seq<ExchangeEvent>) -> bool {
    events.len() > 2 && events[2] is ReplyRead
}

/// Every handling of a request that has come to its end, whatever happened: it is answered
/// with 413 where the body was not read within the limit, else with 405 where the method is
/// no token, else with 502 where the reply did not begin or was not read, and else with what
/// the reply becomes, which is 500 where no response can be made of it.
pub proof fn law_outcome(
    start: Exchange,
    events: Seq<ExchangeEvent>,
    steps: Seq<(Exchange, ExchangeAction)>,
)
    requires
        start is ReadingBody,
        is_run(start, events, steps),
        steps.len() > 0,
        steps.last().0 is Finished,
    ensures
        ({
            let answer = steps.last().1;
            if !body_was_read(events) {
                answer == ExchangeAction::Reject(FallbackError::PayloadTooLarge)
            } else if !method::is_token(start->request.method@) {
                answer == ExchangeAction::Reject(FallbackError::MethodNotAllowed)
            } else if !reply_began(events) || !reply_was_read(events) {
                answer == ExchangeAction::Reject(FallbackError::BadGateway)
            } else {
                let status = events[1]->ReplyStarted_status;
                let fields = headers::map_fields(events[1]->ReplyStarted_headers);
                let reply = events[2]->ReplyRead_0@;
                match answer {
                    ExchangeAction::Respond(response) => response::is_relayed(
                        status,
                        fields,
                        reply,
                        Some(response),
                    ),
                    ExchangeAction::Reject(error) => {
                        &&& error == FallbackError::InternalServerError
                        &&& response::is_relayed(status, fields, reply, None)
                    },
                    _ => false,
                }
            }
        }),
{
    let first = events[0];
    assert(start.awaits(first) && start.leads_to(first, steps[0].0, steps[0].1));
    if steps.len() > 1 {
        let second = events[1];
        assert(steps[0].0.awaits(second) && steps[0].0.leads_to(second, steps[1].0, steps[1].1));
        if steps.len() > 2 {
            let third = events[2];
            assert(steps[1].0.awaits(third) && steps[1].0.leads_to(
                third,
                steps[2].0,
                steps[2].1,
            ));
            if steps.len() > 3 {
                assert(steps[2].0.awaits(events[3]));
            }
        }
    }
}

/// With a proper method, and where a reply that begins is one that a response can be made of,
/// the request is answered with the reply exactly where its body was read within the limit,
/// the reply began and the reply was read; else with 413 where the first failed, and with 502
/// where it did not. 405 and 500 do not occur.
pub proof fn law_answer_is_the_reply_413_or_502(
    start: Exchange,
    events: Seq<ExchangeEvent>,
    steps: Seq<(Exchange, ExchangeAction)>,
)
    requires
        start is ReadingBody,
        method::is_token(start->request.method@),
        is_run(start, events, steps),
        steps.len() > 0,
        steps.last().0 is Finished,
        reply_began(events) ==> {
            let status = events[1]->ReplyStarted_status;
            let kept = headers::response_fields(
                headers::map_fields(events[1]->ReplyStarted_headers),
            );
            &&& response::is_valid_head(status, kept)
            &&& response::grouped(response::lowered(kept)).len() < response::NAME_ROOM
        },
    ensures
        steps.last().1 is Respond <==> body_was_read(events) && reply_began(events)
            && reply_was_read(events),
        match steps.last().1 {
            ExchangeAction::Respond(answer) => response::response_content(answer) == (
                response::head(
                    events[1]->ReplyStarted_status,
                    headers::response_fields(
                        headers::map_fields(events[1]->ReplyStarted_headers),
                    ),
                ),
                events[2]->ReplyRead_0@,
            ),
            ExchangeAction::Reject(error) => error.status() == if body_was_read(events) {
                502u16
            } else {
                413u16
            },
            _ => false,
        },
{
    law_outcome(start, events, steps);
}

/// The statuses of the failures, as numbers.
pub proof fn law_statuses_of_failures(error: FallbackError)
    ensures
        error is PayloadTooLarge ==> error.status() == 413,
        error is MethodNotAllowed ==> error.status() == 405,
        error is BadGateway ==> error.status() == 502,
        error is InternalServerError ==> error.status() == 500,
{
}

/// A request asks for the path and query of its URI where the URI has them as one text,
/// whatever its path is, and for the path where it has not.
pub proof fn law_target_is_path_and_query(target: RequestTarget)
    ensures
        target.path_and_query matches Some(text) ==> target@ == text@,
        target.path_and_query is None ==> target@ == target.path@,
{
}

/// What is sent to the backend for every request, and when. With a base that is a stem not
/// ending in a slash and any number of slashes: the method and the body are those of the
/// request, the URL is the stem followed by the path and query, or by the path where there
/// is no more, and the fields are those that are passed on, each as often as it came. A
/// request is refused only for a body of more than 16777216 bytes, or for a method that is no
/// token.
pub proof fn law_request_as_it_is_sent(
    stem: Seq<char>,
    slashes: Seq<char>,
    method: Seq<char>,
    target: RequestTarget,
    fields: Seq<Field>,
    body: Seq<u8>,
    res: Result<OutboundRequest, FallbackError>,
    field: Field,
)
    requires
        stem.len() > 0 ==> stem[stem.len() - 1] != '/',
        forall|i: int| 0 <= i < slashes.len() ==> slashes[i] == '/',
        is_planned(stem + slashes, method, target@, fields, body, res),
    ensures
        body.len() > 16777216 ==> res == Err::<OutboundRequest, _>(FallbackError::PayloadTooLarge),
        body.len() <= 16777216 && !method::is_token(method) ==> res == Err::<OutboundRequest, _>(
            FallbackError::MethodNotAllowed,
        ),
        body.len() <= 16777216 && method::is_token(method) ==> res is Ok,
        res matches Ok(planned) ==> {
            let name = text::lower(field.0);
            let stays_behind = {
                ||| name == "host"@
                ||| name == "content-length"@
                ||| name == "connection"@
                ||| name == "keep-alive"@
                ||| name == "transfer-encoding"@
                ||| name == "upgrade"@
                ||| name == "proxy-authenticate"@
                ||| name == "proxy-authorization"@
                ||| name == "te"@
                ||| name == "trailers"@
            };
            &&& planned.method@ == method
            &&& planned.body@ == body
            &&& target.path_and_query matches Some(text) ==> planned.url@ == stem + text@
            &&& target.path_and_query is None ==> planned.url@ == stem + target.path@
            &&& headers::fields(planned.headers@) == headers::request_fields(fields)
            &&& headers::fields(planned.headers@).to_multiset().count(field)
                == if stays_behind {
                0
            } else {
                fields.to_multiset().count(field)
            }
        },
{
    base_url::law_target_of_every_base(stem, slashes, target@);
    headers::law_request_fields_by_name(fields, field);
    if res is Ok {
        let planned = res->Ok_0;
        assert(planned@.method == method && planned@.url == stem + target@);
        assert(planned@.headers == headers::request_fields(fields) && planned@.body == body);
    }
}

/// Which event is awaited at each point: the outcome of what was to be done there, good or
/// bad, and no other.
pub proof fn law_awaited_events(exchange: Exchange, event: ExchangeEvent)
    ensures
        exchange is ReadingBody ==> exchange.awaits(event) == (event is BodyRead
            || event is BodyFailed),
        exchange is AwaitingReply ==> exchange.awaits(event) == (event is ReplyStarted
            || event is SendFailed),
        exchange is ReadingReply ==> exchange.awaits(event) == (event is ReplyRead
            || event is ReplyFailed),
        exchange is Finished ==> !exchange.awaits(event),
{
}

/// What each event leads to, at each point, in terms of what is at hand there.
pub proof fn law_each_step(
    exchange: Exchange,
    event: ExchangeEvent,
    next: Exchange,
    action: ExchangeAction,
)
    requires
        exchange.awaits(event),
        exchange.leads_to(event, next, action),
    ensures
        match (exchange, event) {
            (
                Exchange::ReadingBody { backend_base, request },
                ExchangeEvent::BodyRead(body),
            ) => if body@.len() > 16777216 {
                &&& next is Finished
                &&& action == ExchangeAction::Reject(FallbackError::PayloadTooLarge)
            } else if !method::is_token(request.method@) {
                &&& next is Finished
                &&& action == ExchangeAction::Reject(FallbackError::MethodNotAllowed)
            } else {
                &&& next is AwaitingReply
                &&& action matches ExchangeAction::Send(planned)
                &&& planned.method@ == request.method@
                &&& planned.body@ == body@
                &&& planned.url@ == base_url::target_url(
                    backend_base@,
                    match request.target.path_and_query {
                        Some(text) => text@,
                        None => request.target.path@,
                    },
                )
                &&& headers::fields(planned.headers@) == headers::request_fields(
                    headers::map_fields(request.headers),
                )
            },
            (Exchange::ReadingBody { .. }, ExchangeEvent::BodyFailed) => {
                &&& next is Finished
                &&& action == ExchangeAction::Reject(FallbackError::PayloadTooLarge)
            },
            (Exchange::AwaitingReply, ExchangeEvent::ReplyStarted { status, headers }) => {
                &&& next == Exchange::ReadingReply { status, headers }
                &&& action is ReadReply
            },
            (Exchange::AwaitingReply, ExchangeEvent::SendFailed) => {
                &&& next is Finished
                &&& action == ExchangeAction::Reject(FallbackError::BadGateway)
            },
            (Exchange::ReadingReply { status, headers }, ExchangeEvent::ReplyRead(body)) => {
                &&& next is Finished
                &&& match action {
                    ExchangeAction::Respond(answer) => {
                        &&& response::is_relayed(
                            status,
                            headers::map_fields(headers),
                            body@,
                            Some(answer),
                        )
                        &&& response::response_content(answer).0.status == status
                        &&& response::response_content(answer).1 == body@
                    },
                    ExchangeAction::Reject(error) => {
                        &&& error is InternalServerError
                        &&& response::is_relayed(
                            status,
                            headers::map_fields(headers),
                            body@,
                            None,
                        )
                    },
                    _ => false,
                }
            },
            (Exchange::ReadingReply { .. }, ExchangeEvent::ReplyFailed) => {
                &&& next is Finished
                &&& action == ExchangeAction::Reject(FallbackError::BadGateway)
            },
            _ => false,
        },
{
    if action is Send {
        let planned = action->Send_0;
        assert(planned@.method == planned.method@ && planned@.url == planned.url@);
        assert(planned@.headers == headers::fields(planned.headers@));
        assert(planned@.body == planned.body@);
    }
    if action is Respond {
        response::law_status_and_body_are_the_replys(
            exchange->status,
            headers::map_fields(exchange->ReadingReply_headers),
            event->ReplyRead_0@,
            action->Respond_0,
        );
    }
}

} // verus!
