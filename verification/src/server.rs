//! The decisions behind the REST and WebSocket endpoints: who is
//! authorized, how task ids are read, and how each WebSocket client message
//! is answered.
use vstd::arithmetic::power::pow;
use vstd::prelude::*;

use crate::actions::supported_names;
use crate::error::{
    not_found_error, opt_view, unauthorized_error, validation_error, AppError, AppErrorView,
    ErrorPayload,
};
use crate::runtime::{after_insert, queued_task, ExecuteTaskRequest, TaskRecord, TaskStore};
use crate::text::{views, chars_of, owned, starts_with, starts_with_chars, string_from_chars, trim, trim_chars, chars_equal};

verus! {

// ---------------------------------------------------------------------------
// Tokens
// ---------------------------------------------------------------------------

/// The `Bearer` token of an `Authorization` header value, trimmed, when it
/// is not blank.
pub open spec fn bearer_token(authorization: Option<Seq<char>>) -> Option<Seq<char>> {
    let bearer = "Bearer "@;
    match authorization {
        Some(raw) if starts_with(raw, bearer) && trim(raw.subrange(bearer.len() as int, raw.len() as int)).len() > 0 => Some(
            trim(raw.subrange(bearer.len() as int, raw.len() as int)),
        ),
        _ => None,
    }
}

/// The `X-API-Token` header value, trimmed, when it is not blank.
pub open spec fn api_header_token(api_token: Option<Seq<char>>) -> Option<Seq<char>> {
    match api_token {
        Some(t) if trim(t).len() > 0 => Some(trim(t)),
        _ => None,
    }
}

/// The list holding the value, if there is one.
pub open spec fn opt_seq(o: Option<Seq<char>>) -> Seq<Seq<char>> {
    match o {
        Some(x) => seq![x],
        None => Seq::<Seq<char>>::empty(),
    }
}

/// The tokens a request presents in its headers: the `Bearer` token of
/// `Authorization`, then the `X-API-Token` value, each when present and
/// not blank.
pub open spec fn header_tokens(authorization: Option<Seq<char>>, api_token: Option<Seq<char>>) -> Seq<
    Seq<char>,
> {
    opt_seq(bearer_token(authorization)) + opt_seq(api_header_token(api_token))
}

fn trimmed_nonblank(v: &[char]) -> (r: Option<String>)
    ensures
        opt_view(r) == (if trim(v@).len() > 0 {
            Some(trim(v@))
        } else {
            None::<Seq<char>>
        }),
{
    let t = trim_chars(v);
    if t.len() > 0 {
        Some(string_from_chars(t.as_slice()))
    } else {
        None
    }
}

/// The tokens presented in the headers, given the text values of the
/// `Authorization` and `X-API-Token` headers (`None` when a header is
/// absent or not visible ASCII).
pub fn extract_token(authorization: &Option<String>, api_token: &Option<String>) -> (r: Vec<String>)
    ensures
        views(r@) == header_tokens(opt_view(*authorization), opt_view(*api_token)),
{
    let bearer = chars_of("Bearer ");
    let mut first: Option<String> = None;
    match authorization {
        Some(raw) => {
            let v = chars_of(raw.as_str());
            if starts_with_chars(v.as_slice(), bearer.as_slice()) {
                let mut rest: Vec<char> = Vec::new();
                let mut i: usize = bearer.len();
                while i < v.len()
                    invariant
                        bearer.len() <= i <= v.len(),
                        rest@ == v@.subrange(bearer.len() as int, i as int),
                    decreases v.len() - i,
                {
                    rest.push(v[i]);
                    assert(rest@ =~= v@.subrange(bearer.len() as int, i + 1));
                    i = i + 1;
                }
                first = trimmed_nonblank(rest.as_slice());
            }
        },
        None => {},
    }
    assert(opt_view(first) == bearer_token(opt_view(*authorization)));
    let second = match api_token {
        Some(t) => {
            let v = chars_of(t.as_str());
            trimmed_nonblank(v.as_slice())
        },
        None => None,
    };
    let mut out: Vec<String> = Vec::new();
    match first {
        Some(x) => out.push(x),
        None => {},
    }
    let ghost mid = views(out@);
    assert(mid =~= opt_seq(bearer_token(opt_view(*authorization))));
    match second {
        Some(x) => out.push(x),
        None => {},
    }
    assert(views(out@) =~= header_tokens(opt_view(*authorization), opt_view(*api_token)));
    out
}

/// Whether a request is authorized: always when no token is configured,
/// otherwise when any token it presents, in a header or in the query, is
/// the configured one.
pub open spec fn authorized(
    expected: Option<Seq<char>>,
    headers: Seq<Seq<char>>,
    query: Option<Seq<char>>,
) -> bool {
    match expected {
        None => true,
        Some(t) => headers.contains(t) || query == Some(t),
    }
}

fn opt_equals(a: &Option<String>, b: &String) -> (r: bool)
    ensures
        r == (opt_view(*a) == Some(b@)),
{
    match a {
        Some(x) => {
            let xv = chars_of(x.as_str());
            let bv = chars_of(b.as_str());
            chars_equal(xv.as_slice(), bv.as_slice())
        },
        None => false,
    }
}

fn any_equals(items: &Vec<String>, b: &String) -> (r: bool)
    ensures
        r == views(items@).contains(b@),
{
    let bv = chars_of(b.as_str());
    let mut i: usize = 0;
    while i < items.len()
        invariant
            i <= items.len(),
            bv@ == b@,
            forall|j: int| 0 <= j < i ==> items@[j]@ != b@,
        decreases items.len() - i,
    {
        let xv = chars_of(items[i].as_str());
        if chars_equal(xv.as_slice(), bv.as_slice()) {
            assert(views(items@)[i as int] == b@);
            return true;
        }
        i = i + 1;
    }
    proof {
        if views(items@).contains(b@) {
            let j = choose|j: int| 0 <= j < views(items@).len() && views(items@)[j] == b@;
            assert(items@[j]@ == b@);
        }
    }
    false
}

/// Admits the request or answers it with `unauthorized`.
pub fn authorize(expected: &Option<String>, headers: &Vec<String>, query: &Option<String>) -> (r: Result<(), AppError>)
    ensures
        authorized(opt_view(*expected), views(headers@), opt_view(*query)) ==> r is Ok,
        !authorized(opt_view(*expected), views(headers@), opt_view(*query)) ==> (r matches Err(e) && e@ == unauthorized_error()),
{
    match expected {
        None => Ok(()),
        Some(t) => {
            if any_equals(headers, t) || opt_equals(query, t) {
                Ok(())
            } else {
                Err(AppError::unauthorized())
            }
        },
    }
}

// ---------------------------------------------------------------------------
// Task ids
// ---------------------------------------------------------------------------

/// The 128-bit value of the UUID that `text` writes, as
/// `uuid::Uuid::parse_str` reads it, or `None` when it writes none.
pub uninterp spec fn uuid_text_value(text: Seq<char>) -> Option<u128>;

/// The lower-case hexadecimal digits.
pub open spec fn hex_digits() -> Seq<char> {
    "0123456789abcdef"@
}

/// The 32 hexadecimal digits of `id`, most significant first.
pub open spec fn hex_text(id: u128) -> Seq<char> {
    Seq::new(32, |k: int| hex_digits()[(id as int / pow(16, (31 - k) as nat)) % 16])
}

/// The hyphenated form of a UUID's value: its digits in groups of 8, 4,
/// 4, 4 and 12, joined with `-`. Task ids are written in this form.
pub open spec fn hyphenated(id: u128) -> Seq<char> {
    let h = hex_text(id);
    h.subrange(0, 8) + seq!['-'] + h.subrange(8, 12) + seq!['-'] + h.subrange(12, 16) + seq!['-']
        + h.subrange(16, 20) + seq!['-'] + h.subrange(20, 32)
}

/// Reads a UUID with `uuid::Uuid::parse_str` (simple, hyphenated, braced
/// or URN form) and gives its 128-bit value. Stated: the result is the
/// named value of the text, and the hyphenated form of a value reads back
/// as that value.
#[verifier::external_body]
fn parse_uuid_text(raw: &str) -> (r: Option<u128>)
    ensures
        r == uuid_text_value(raw@),
        forall|id: u128| raw@ == hyphenated(id) ==> r == Some(id),
{
    match uuid::Uuid::parse_str(raw) {
        Ok(id) => Some(id.as_u128()),
        Err(_) => None,
    }
}

/// The task id that `raw` was read as, or the error for an invalid one.
pub open spec fn task_id_result(raw: Seq<char>, parsed: Option<u128>) -> Result<u128, AppErrorView> {
    match parsed {
        Some(id) => Ok(id),
        None => Err(validation_error("Invalid task id: "@ + raw, None)),
    }
}

/// The view of a result that carries a task id.
pub open spec fn id_result_view(r: &Result<u128, AppError>) -> Result<u128, AppErrorView> {
    match r {
        Ok(id) => Ok(*id),
        Err(e) => Err(e@),
    }
}

/// The task id given what parsing `raw` gave.
pub fn task_id_from(raw: &str, parsed: Option<u128>) -> (r: Result<u128, AppError>)
    ensures
        id_result_view(&r) == task_id_result(raw@, parsed),
{
    match parsed {
        Some(id) => Ok(id),
        None => {
            let mut message = owned("Invalid task id: ");
            message.append(raw);
            Err(AppError::validation(message))
        },
    }
}

/// Reads a task id from its text.
pub fn parse_uuid(raw: &str) -> (r: Result<u128, AppError>)
    ensures
        id_result_view(&r) == task_id_result(raw@, uuid_text_value(raw@)),
        forall|id: u128| raw@ == hyphenated(id) ==> r == Ok::<u128, AppError>(id),
{
    let parsed = parse_uuid_text(raw);
    task_id_from(raw, parsed)
}

/// The task that `raw` names, for the REST lookup: an invalid id and an
/// unknown task are errors.
pub fn lookup_task(store: &TaskStore, raw: &str) -> (r: Result<TaskRecord, AppError>)
    requires
        store.wf(),
    ensures
        match task_id_result(raw@, uuid_text_value(raw@)) {
            Err(e) => r matches Err(f) && f@ == e,
            Ok(id) => if store@.tasks.contains_key(id) {
                r matches Ok(t) && t@ == store@.tasks[id]
            } else {
                r matches Err(f) && f@ == not_found_error("Task not found."@)
            },
        },
        forall|id: u128|
            raw@ == hyphenated(id) && #[trigger] store@.tasks.contains_key(id) ==> (r matches Ok(t)
                && t@ == store@.tasks[id]),
{
    let id = match parse_uuid(raw) {
        Ok(id) => id,
        Err(e) => return Err(e),
    };
    match store.get_task(id) {
        Some(t) => Ok(t),
        None => Err(AppError::not_found(owned("Task not found."))),
    }
}

// ---------------------------------------------------------------------------
// WebSocket messages
// ---------------------------------------------------------------------------

/// A message from a WebSocket client; `params` is JSON text.
#[derive(Debug, Clone)]
pub enum WsClientMessage {
    Execute { request_id: Option<String>, action: String, params: String },
    GetTask { request_id: Option<String>, task_id: String },
    Ping { request_id: Option<String> },
}

/// The answer to a WebSocket client message.
#[derive(Debug, Clone)]
pub enum WsReply {
    /// `pong`.
    Pong { request_id: Option<String> },
    /// `task.snapshot`, with the task if it is held.
    Snapshot { request_id: Option<String>, task: Option<TaskRecord> },
    /// `task.accepted`: the task was queued and now has to be run.
    Accepted { request_id: Option<String>, task: TaskRecord },
    /// `error`.
    Error { request_id: Option<String>, error: ErrorPayload },
}

/// Answers a client message against the task store: a ping gets a pong, a
/// task query a snapshot (or an error for an invalid id), and an execute
/// request queues the task (or an error for an unsupported action).
pub fn handle_client_message(store: &mut TaskStore, message: WsClientMessage, now: u64, limit: usize) -> (reply: WsReply)
    requires
        old(store).wf(),
    ensures
        final(store).wf(),
        match message {
            WsClientMessage::Ping { request_id } => reply matches WsReply::Pong { request_id: r } && opt_view(r) == opt_view(request_id) && final(store)@ == old(store)@,
            WsClientMessage::GetTask { request_id, task_id } => final(store)@ == old(store)@ && match uuid_text_value(task_id@) {
                None => reply matches WsReply::Error { request_id: r, error } && opt_view(r) == opt_view(request_id)
                    && error@ == validation_error("Invalid task id: "@ + task_id@, None).payload,
                Some(id) => reply matches WsReply::Snapshot { request_id: r, task } && opt_view(r) == opt_view(request_id)
                    && (old(store)@.tasks.contains_key(id) ==> (task matches Some(t) && t@ == old(store)@.tasks[id]))
                    && (!old(store)@.tasks.contains_key(id) ==> task is None),
            },
            WsClientMessage::Execute { request_id, action, params } => if supported_names().contains(action@) {
                reply matches WsReply::Accepted { request_id: r, task } && opt_view(r) == opt_view(request_id)
                    && task@ == queued_task(task.id, action@, params@, now)
                    && final(store)@ == after_insert(old(store)@, task@, limit as nat)
            } else {
                reply matches WsReply::Error { request_id: r, error } && opt_view(r) == opt_view(request_id)
                    && error@ == validation_error("Unsupported action: "@ + action@, None).payload
                    && final(store)@ == old(store)@
            },
        },
{
    match message {
        WsClientMessage::Ping { request_id } => WsReply::Pong { request_id },
        WsClientMessage::GetTask { request_id, task_id } => {
            match parse_uuid(task_id.as_str()) {
                Ok(id) => {
                    let task = store.get_task(id);
                    WsReply::Snapshot { request_id, task }
                },
                Err(e) => WsReply::Error { request_id, error: e.payload() },
            }
        },
        WsClientMessage::Execute { request_id, action, params } => {
            match store.submit_task(ExecuteTaskRequest { action, params }, now, limit) {
                Ok(task) => WsReply::Accepted { request_id, task },
                Err(e) => WsReply::Error { request_id, error: e.payload() },
            }
        },
    }
}

/// Authorization: with no token configured every request passes; with
/// one, a request passes exactly when it presents that token somewhere
/// (a header or the query), so presenting more tokens never shuts it out.
pub proof fn law_authorization(
    expected: Option<Seq<char>>,
    headers: Seq<Seq<char>>,
    more: Seq<Seq<char>>,
    query: Option<Seq<char>>,
)
    ensures
        expected is None ==> authorized(expected, headers, query),
        authorized(expected, headers, query) ==> authorized(expected, headers + more, query),
        expected matches Some(t) ==> authorized(expected, seq![t], None) && authorized(
            expected,
            Seq::<Seq<char>>::empty(),
            Some(t),
        ),
        expected matches Some(t) ==> ((forall|i: int| 0 <= i < headers.len() ==> headers[i] != t) && query
            != Some(t) ==> !authorized(expected, headers, query)),
{
    if let Some(t) = expected {
        if headers.contains(t) {
            let i = choose|i: int| 0 <= i < headers.len() && headers[i] == t;
            assert((headers + more)[i] == t);
        }
        assert(seq![t][0] == t);
    }
}

/// The tokens read from the headers are trimmed and not blank; a
/// non-blank `Bearer` token and a non-blank `X-API-Token` are both among
/// them.
pub proof fn law_token_headers(bearer: Seq<char>, authorization: Option<Seq<char>>, api_token: Seq<char>)
    ensures
        forall|i: int|
            0 <= i < header_tokens(authorization, Some(api_token)).len() ==> (#[trigger] header_tokens(
                authorization,
                Some(api_token),
            )[i]).len() > 0 && trim(header_tokens(authorization, Some(api_token))[i]) == header_tokens(
                authorization,
                Some(api_token),
            )[i],
        trim(api_token).len() > 0 ==> header_tokens(authorization, Some(api_token)).contains(trim(api_token)),
        trim(bearer).len() > 0 ==> header_tokens(Some("Bearer "@ + bearer), None).contains(trim(bearer)),
{
    let toks = header_tokens(authorization, Some(api_token));
    let b = opt_seq(bearer_token(authorization));
    let a = opt_seq(api_header_token(Some(api_token)));
    assert forall|i: int| 0 <= i < toks.len() implies (#[trigger] toks[i]).len() > 0 && trim(toks[i]) == toks[i] by {
        if i < b.len() {
            let raw = authorization->Some_0;
            let x = raw.subrange("Bearer "@.len() as int, raw.len() as int);
            crate::text::law_trim(x);
        } else {
            crate::text::law_trim(api_token);
            assert(toks[i] == a[i - b.len()]);
        }
    }
    if trim(api_token).len() > 0 {
        assert(toks[b.len() as int] == trim(api_token));
    }
    if trim(bearer).len() > 0 {
        let raw = "Bearer "@ + bearer;
        assert(starts_with(raw, "Bearer "@)) by {
            assert(raw.subrange(0, "Bearer "@.len() as int) =~= "Bearer "@);
        }
        assert(raw.subrange("Bearer "@.len() as int, raw.len() as int) =~= bearer);
        let toks2 = header_tokens(Some(raw), None);
        assert(toks2[0] == trim(bearer));
    }
}

} // verus!
