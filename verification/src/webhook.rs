//! Telling others that a job has ended, and trying again where that fails.
use crate::jobs;
use crate::jobs::{JobId, JobStatus, WebhookConfig, WebhookView};
use crate::json;
use crate::json::{JsonTree, MemberTree, NewValue};
use crate::time;
use crate::time::Timestamp;
use hmac::{Hmac, Mac};
use serde_json::Value;
use sha2::Sha256;
use std::collections::HashMap;
use vstd::arithmetic::power2::*;
use vstd::prelude::*;
use vstd::string::*;
use vstd::utf8::*;

verus! {

/// The milliseconds before the second attempt.
pub const FIRST_BACKOFF_MS: u64 = 1000;

/// The last attempt after which the milliseconds before the next one can be counted.
pub const LAST_BACKOFF: u32 = 55;

// ── The document ───────────────────────────────────────────────────────────

/// What a notification says: which job, its status and result, and when it was written.
pub open spec fn notification(
    job_id: JobId,
    status: JobStatus,
    result: JsonTree,
    now: Timestamp,
) -> JsonTree {
    JsonTree::Object(
        seq![
            MemberTree {
                key: "job_id"@,
                value: JsonTree::String(jobs::hyphenated(job_id.0)),
            },
            MemberTree { key: "result"@, value: result },
            MemberTree { key: "status"@, value: JsonTree::String(jobs::status_code(status)) },
            MemberTree {
                key: "timestamp"@,
                value: JsonTree::String(time::rfc3339(now.secs, now.nanos)),
            },
        ],
    )
}

/// The result in a notification: `null` for a job without one.
pub open spec fn result_tree(result: Option<Value>) -> JsonTree {
    match result {
        Some(result) => json::value_tree(result),
        None => JsonTree::Null,
    }
}

/// Makes a notification at a point in time, given how the result is rendered. A job without a result
/// has the result `null`.
pub fn webhook_payload_at(
    job_id: &JobId,
    status: JobStatus,
    result: Option<Value>,
    now: Timestamp,
) -> (r: Value)
    requires
        now.wf(),
    ensures
        json::value_tree(r) == notification(*job_id, status, result_tree(result), now),
{
    let ghost expected = notification(*job_id, status, result_tree(result), now);
    let result = match result {
        Some(result) => result,
        None => json::make_value(NewValue::Null),
    };
    let mut members: Vec<(String, Value)> = Vec::new();
    members.push(("job_id".to_owned(), json::make_value(NewValue::String(job_id.to_string()))));
    members.push(("result".to_owned(), result));
    members.push(
        ("status".to_owned(), json::make_value(NewValue::String(status.code().to_owned()))),
    );
    members.push(
        ("timestamp".to_owned(), json::make_value(NewValue::String(time::to_rfc3339(now)))),
    );
    proof {
        reveal_strlit("job_id");
        reveal_strlit("result");
        reveal_strlit("status");
        reveal_strlit("timestamp");
        assert(members@.map_values(
            |m: (String, Value)| MemberTree { key: m.0@, value: json::value_tree(m.1) },
        ) =~= expected->Object_0);
    }
    json::make_value(NewValue::Object(members))
}

// ── The request ────────────────────────────────────────────────────────────

/// What HMAC with SHA-256 makes of a key and a message.
pub uninterp spec fn hmac_sha256(key: Seq<u8>, message: Seq<u8>) -> Seq<u8>;

/// Calls `new_from_slice`, `update` and `finalize` of `hmac::Hmac<sha2::Sha256>`, which takes keys of
/// any length. Claims that the code has 32 bytes and is the one which [`hmac_sha256`] names.
#[verifier::external_body]
fn authentication_code(key: &Vec<u8>, message: &Vec<u8>) -> (r: Vec<u8>)
    ensures
        r@ == hmac_sha256(key@, message@),
        r@.len() == 32,
{
    let mut mac: Hmac<Sha256> = Hmac::new_from_slice(key).unwrap();
    mac.update(message);
    mac.finalize().into_bytes().to_vec()
}

/// Bytes as pairs of hex digits, in lower case.
pub open spec fn hex_text(bytes: Seq<u8>) -> Seq<char> {
    Seq::new(
        2 * bytes.len(),
        |i: int|
            if i % 2 == 0 {
                jobs::hex_char(bytes[i / 2] as int / 16)
            } else {
                jobs::hex_char(bytes[i / 2] as int % 16)
            },
    )
}

/// Calls `hex::encode`. Claims that it writes the text which [`hex_text`] states.
#[verifier::external_body]
fn encode_hex(bytes: &Vec<u8>) -> (r: String)
    ensures
        r@ == hex_text(bytes@),
{
    hex::encode(bytes)
}

/// The name of the header that carries the signature.
pub fn signature_header() -> (name: &'static str)
    ensures
        name@ == "X-Webhook-Signature"@,
{
    "X-Webhook-Signature"
}

/// A signature as its header carries it, given the authentication code.
pub open spec fn signature(code: Seq<u8>) -> Seq<char> {
    "sha256="@ + hex_text(code)
}

/// Writes a signature as its header carries it, given the authentication code.
pub fn signature_text(code: &Vec<u8>) -> (text: String)
    ensures
        text@ == signature(code@),
{
    let mut text = "sha256=".to_owned();
    text.append(encode_hex(code).as_str());
    text
}

/// A request that delivers a notification.
#[derive(Debug)]
pub struct WebhookRequest {
    pub url: String,
    /// Custom headers
    pub headers: Option<HashMap<String, String>>,
    pub body: String,
    /// The signature of the body, where there is a secret
    pub signature: Option<String>,
}

/// What a [`WebhookRequest`] stands for.
pub struct RequestView {
    pub url: Seq<char>,
    pub headers: Option<Map<String, String>>,
    pub body: Seq<char>,
    pub signature: Option<Seq<char>>,
}

impl View for WebhookRequest {
    type V = RequestView;

    open spec fn view(&self) -> RequestView {
        RequestView {
            url: self.url@,
            headers: jobs::table_view(self.headers),
            body: self.body@,
            signature: jobs::text_view(self.signature),
        }
    }
}

/// The request that delivers a body. It is signed if and only if there is a secret: by the HMAC of
/// the bytes of the body, with the bytes of the secret for a key.
pub open spec fn request(webhook: WebhookView, body: Seq<char>) -> RequestView {
    RequestView {
        url: webhook.callback_url,
        headers: webhook.headers,
        body,
        signature: match webhook.secret {
            Some(secret) => Some(signature(hmac_sha256(encode_utf8(secret), encode_utf8(body)))),
            None => None,
        },
    }
}

/// Makes the request that delivers a body.
pub fn webhook_request(webhook: &WebhookConfig, body: String) -> (r: WebhookRequest)
    ensures
        r@ == request(webhook@, body@),
{
    let signature = match &webhook.secret {
        Some(secret) => {
            let code = authentication_code(
                &secret.as_str().as_bytes_vec(),
                &body.as_str().as_bytes_vec(),
            );
            Some(signature_text(&code))
        },
        None => None,
    };
    WebhookRequest {
        url: webhook.callback_url.clone(),
        headers: jobs::copy_table(&webhook.headers),
        body,
        signature,
    }
}

/// Makes the request that tells of a job at a point in time, given how its result is rendered: its
/// body is the text of the notification.
pub fn notification_request_at(
    webhook: &WebhookConfig,
    job_id: &JobId,
    status: JobStatus,
    result: Option<Value>,
    now: Timestamp,
) -> (r: WebhookRequest)
    requires
        now.wf(),
    ensures
        r@ == request(
            webhook@,
            json::json_text(notification(*job_id, status, result_tree(result), now)),
        ),
{
    let payload = webhook_payload_at(job_id, status, result, now);
    webhook_request(webhook, json::write_value(&payload))
}

/// Makes the request that tells of a job now.
pub fn notification_request(
    webhook: &WebhookConfig,
    job_id: &JobId,
    status: JobStatus,
    result: Option<Value>,
) -> (r: WebhookRequest)
    ensures
        exists|now: Timestamp|
            #[trigger] now.wf() && r@ == request(
                webhook@,
                json::json_text(notification(*job_id, status, result_tree(result), now)),
            ),
{
    let now = Timestamp::now();
    notification_request_at(webhook, job_id, status, result, now)
}

// ── Delivery ───────────────────────────────────────────────────────────────

/// What came of one attempt to deliver.
#[derive(Debug)]
pub enum WebhookReply {
    /// The other side answered, with a status code and how it is written out.
    Answered { code: u16, status: String },
    /// There was no answer, for a reason.
    Unreachable(String),
}

/// What a [`WebhookReply`] stands for.
pub enum ReplyView {
    Answered { code: u16, status: Seq<char> },
    Unreachable(Seq<char>),
}

impl View for WebhookReply {
    type V = ReplyView;

    open spec fn view(&self) -> ReplyView {
        match *self {
            WebhookReply::Answered { code, status } => ReplyView::Answered { code, status: status@ },
            WebhookReply::Unreachable(error) => ReplyView::Unreachable(error@),
        }
    }
}

/// Where a delivery stands.
#[derive(Debug)]
pub enum DeliveryState {
    /// An attempt has to be made; they are counted from one.
    Attempting { attempt: u32 },
    /// This attempt succeeded.
    Delivered { attempt: u32 },
    /// No attempt is left. The error is that of the last one.
    GivenUp { last_error: Option<String> },
}

/// What a [`DeliveryState`] stands for.
pub enum StateView {
    Attempting { attempt: u32 },
    Delivered { attempt: u32 },
    GivenUp { last_error: Option<Seq<char>> },
}

impl View for DeliveryState {
    type V = StateView;

    open spec fn view(&self) -> StateView {
        match *self {
            DeliveryState::Attempting { attempt } => StateView::Attempting { attempt },
            DeliveryState::Delivered { attempt } => StateView::Delivered { attempt },
            DeliveryState::GivenUp { last_error } => StateView::GivenUp {
                last_error: jobs::text_view(last_error),
            },
        }
    }
}

/// Whether a status code says that the request succeeded.
pub open spec fn is_success(code: u16) -> bool {
    200 <= code < 300
}

/// Whether an attempt succeeded.
pub open spec fn succeeded(reply: ReplyView) -> bool {
    match reply {
        ReplyView::Answered { code, .. } => is_success(code),
        ReplyView::Unreachable(_) => false,
    }
}

/// The error of an attempt that failed.
pub open spec fn reply_error(reply: ReplyView) -> Seq<char> {
    match reply {
        ReplyView::Answered { status, .. } => "HTTP "@ + status,
        ReplyView::Unreachable(error) => error,
    }
}

/// The milliseconds between an attempt and the next.
pub open spec fn backoff_ms(attempt: u32) -> int {
    FIRST_BACKOFF_MS * pow2((attempt - 1) as nat)
}

/// Where a delivery stands before the first attempt.
pub open spec fn at_first(max_retries: u32) -> StateView {
    if max_retries >= 1 {
        StateView::Attempting { attempt: 1 }
    } else {
        StateView::GivenUp { last_error: None }
    }
}

/// Where a delivery stands after an attempt.
pub open spec fn after_reply(state: StateView, max_retries: u32, reply: ReplyView) -> StateView {
    match state {
        StateView::Attempting { attempt } => if succeeded(reply) {
            StateView::Delivered { attempt }
        } else if attempt < max_retries {
            StateView::Attempting { attempt: (attempt + 1) as u32 }
        } else {
            StateView::GivenUp { last_error: Some(reply_error(reply)) }
        },
        _ => state,
    }
}

/// Where a delivery stands after a row of attempts.
pub open spec fn after_replies(max_retries: u32, replies: Seq<ReplyView>) -> StateView
    decreases replies.len(),
{
    if replies.len() == 0 {
        at_first(max_retries)
    } else {
        after_reply(after_replies(max_retries, replies.drop_last()), max_retries, replies.last())
    }
}

/// One notification on its way.
pub struct WebhookDelivery {
    max_retries: u32,
    state: DeliveryState,
}

impl WebhookDelivery {
    /// How often delivery is tried.
    pub closed spec fn limit(self) -> u32 {
        self.max_retries
    }

    /// Where the delivery stands.
    pub closed spec fn standing(self) -> StateView {
        self.state@
    }

    /// A delivery that is to be tried so often.
    pub fn new(max_retries: u32) -> (r: WebhookDelivery)
        ensures
            r.limit() == max_retries,
            r.standing() == at_first(max_retries),
    {
        let state = if max_retries >= 1 {
            DeliveryState::Attempting { attempt: 1 }
        } else {
            DeliveryState::GivenUp { last_error: None }
        };
        WebhookDelivery { max_retries, state }
    }

    /// Where the delivery stands.
    pub fn state(&self) -> (r: &DeliveryState)
        ensures
            r@ == self.standing(),
    {
        &self.state
    }

    /// Takes in what came of the attempt that had to be made. Says how many milliseconds to wait
    /// where another one has to be made.
    pub fn reply(&mut self, reply: WebhookReply) -> (wait_ms: Option<u64>)
        requires
            old(self).standing() matches StateView::Attempting { attempt } ==> 1 <= attempt && (
            attempt <= LAST_BACKOFF || attempt >= old(self).limit() || succeeded(reply@)),
        ensures
            final(self).limit() == old(self).limit(),
            final(self).standing() == after_reply(
                old(self).standing(),
                old(self).limit(),
                reply@,
            ),
            match final(self).standing() {
                StateView::Attempting { attempt } => wait_ms is Some && wait_ms->0 == backoff_ms(
                    (attempt - 1) as u32,
                ),
                _ => wait_ms is None,
            },
    {
        let attempt: u32 = match &self.state {
            DeliveryState::Attempting { attempt } => *attempt,
            _ => return None,
        };
        let error = match reply {
            WebhookReply::Answered { code, status } => {
                if 200 <= code && code < 300 {
                    self.state = DeliveryState::Delivered { attempt };
                    return None;
                }
                let mut error = "HTTP ".to_owned();
                error.append(status.as_str());
                error
            },
            WebhookReply::Unreachable(error) => error,
        };
        if attempt < self.max_retries {
            self.state = DeliveryState::Attempting { attempt: attempt + 1 };
            Some(backoff(attempt))
        } else {
            self.state = DeliveryState::GivenUp { last_error: Some(error) };
            None
        }
    }
}

/// The milliseconds between an attempt and the next.
fn backoff(attempt: u32) -> (ms: u64)
    requires
        1 <= attempt <= LAST_BACKOFF,
    ensures
        ms == backoff_ms(attempt),
{
    let mut factor: u64 = 1;
    let mut made: u32 = 1;
    proof {
        lemma2_to64();
        lemma2_to64_rest();
    }
    while made < attempt
        invariant
            1 <= made <= attempt <= LAST_BACKOFF,
            factor == pow2((made - 1) as nat),
            pow2(54) == 0x40_0000_0000_0000,
        decreases attempt - made,
    {
        proof {
            lemma_pow2_unfold(made as nat);
            if made < 54 {
                lemma_pow2_strictly_increases(made as nat, 54);
            }
        }
        factor = 2 * factor;
        made += 1;
    }
    proof {
        if attempt < 55 {
            lemma_pow2_strictly_increases((attempt - 1) as nat, 54);
        }
    }
    FIRST_BACKOFF_MS * factor
}

// ── Laws ───────────────────────────────────────────────────────────────────

/// As long as all attempts fail, another one is made, until as many were made as are allowed; the
/// delivery is then given up, and its error is that of the last attempt.
pub proof fn law_failures_are_retried(max_retries: u32, replies: Seq<ReplyView>)
    requires
        replies.len() <= max_retries,
        forall|i: int| 0 <= i < replies.len() ==> !succeeded(#[trigger] replies[i]),
    ensures
        after_replies(max_retries, replies) == if replies.len() < max_retries {
            StateView::Attempting { attempt: (replies.len() + 1) as u32 }
        } else if replies.len() == 0 {
            StateView::GivenUp { last_error: None }
        } else {
            StateView::GivenUp { last_error: Some(reply_error(replies.last())) }
        },
    decreases replies.len(),
{
    if replies.len() > 0 {
        law_failures_are_retried(max_retries, replies.drop_last());
        assert(!succeeded(replies[replies.len() - 1]));
    }
}

/// The first attempt that succeeds delivers, if it is still allowed.
pub proof fn law_first_success_delivers(max_retries: u32, replies: Seq<ReplyView>)
    requires
        0 < replies.len() <= max_retries,
        forall|i: int| 0 <= i < replies.len() - 1 ==> !succeeded(#[trigger] replies[i]),
        succeeded(replies.last()),
    ensures
        after_replies(max_retries, replies) == (StateView::Delivered {
            attempt: replies.len() as u32,
        }),
{
    law_failures_are_retried(max_retries, replies.drop_last());
}

/// A signature depends on the secret and the body alone, and a request without a secret has none.
pub proof fn law_signed_with_the_secret(webhook: WebhookView, other: WebhookView, body: Seq<char>)
    ensures
        request(webhook, body).signature is Some <==> webhook.secret is Some,
        webhook.secret == other.secret ==> request(webhook, body).signature == request(
            other,
            body,
        ).signature,
        webhook.secret matches Some(secret) ==> request(webhook, body).signature == Some(
            signature(hmac_sha256(encode_utf8(secret), encode_utf8(body))),
        ),
{
}

/// Once delivered or given up, nothing more happens.
pub proof fn law_delivery_ends(max_retries: u32, replies: Seq<ReplyView>, more: Seq<ReplyView>)
    requires
        after_replies(max_retries, replies) !is Attempting,
    ensures
        after_replies(max_retries, replies + more) == after_replies(max_retries, replies),
    decreases more.len(),
{
    if more.len() == 0 {
        assert(replies + more =~= replies);
    } else {
        law_delivery_ends(max_retries, replies, more.drop_last());
        assert((replies + more).drop_last() =~= replies + more.drop_last());
    }
}

/// No attempt is made beyond those that are allowed.
pub proof fn law_attempts_are_limited(max_retries: u32, replies: Seq<ReplyView>)
    ensures
        match after_replies(max_retries, replies) {
            StateView::Attempting { attempt } => 1 <= attempt <= max_retries && attempt
                == replies.len() + 1,
            StateView::Delivered { attempt } => 1 <= attempt <= max_retries,
            StateView::GivenUp { last_error } => last_error is None <==> max_retries == 0,
        },
    decreases replies.len(),
{
    if replies.len() > 0 {
        law_attempts_are_limited(max_retries, replies.drop_last());
    }
}

/// Each wait is twice as long as the one before; the first is a second.
pub proof fn law_backoff_doubles(attempt: u32)
    requires
        1 <= attempt < u32::MAX,
    ensures
        backoff_ms(1) == 1000,
        backoff_ms((attempt + 1) as u32) == 2 * backoff_ms(attempt),
{
    lemma2_to64();
    lemma_pow2_unfold(attempt as nat);
    assert(1000 * (2 * pow2((attempt - 1) as nat)) == 2 * (1000 * pow2((attempt - 1) as nat)));
}

/// A notification says which job it is of, what came of it, its status and when it was written, under
/// these names and no others; a job without a result has `null` for it.
pub proof fn law_notifications_tell_of_the_job(
    job_id: JobId,
    status: JobStatus,
    result: Option<Value>,
    now: Timestamp,
)
    ensures
        notification(job_id, status, result_tree(result), now) matches JsonTree::Object(members) && {
            &&& members.len() == 4
            &&& members[0].key == "job_id"@
            &&& members[0].value == JsonTree::String(jobs::hyphenated(job_id.0))
            &&& members[1].key == "result"@
            &&& result is None ==> members[1].value is Null
            &&& result matches Some(result) ==> members[1].value == json::value_tree(result)
            &&& members[2].key == "status"@
            &&& members[2].value == JsonTree::String(jobs::status_code(status))
            &&& members[3].key == "timestamp"@
            &&& members[3].value == JsonTree::String(time::rfc3339(now.secs, now.nanos))
        },
{
}

/// A request goes to the address of the webhook, with its headers and the body, whatever the secret.
pub proof fn law_requests_carry_the_webhook(webhook: WebhookView, body: Seq<char>)
    ensures
        request(webhook, body).url == webhook.callback_url,
        request(webhook, body).headers == webhook.headers,
        request(webhook, body).body == body,
{
}

/// A signature is `sha256=`, and then each byte of the code in two hex digits in lower case, the
/// higher first.
pub proof fn law_signatures_write_the_code(code: Seq<u8>, at: int)
    requires
        0 <= at < code.len(),
    ensures
        ({
            let text = signature(code);
            let digit = |c: char, value: int|
                c as int == if value < 10 {
                    48 + value
                } else {
                    87 + value
                };
            &&& text.len() == 7 + 2 * code.len()
            &&& text.take(7) == "sha256="@
            &&& digit(text[7 + 2 * at], code[at] as int / 16)
            &&& digit(text[8 + 2 * at], code[at] as int % 16)
        }),
{
    reveal_strlit("sha256=");
    assert(signature(code).take(7) =~= "sha256="@);
    assert((2 * at) / 2 == at && (2 * at + 1) / 2 == at);
    assert((2 * at) % 2 == 0 && (2 * at + 1) % 2 == 1);
    assert(signature(code)[7 + 2 * at] == hex_text(code)[2 * at]);
    assert(signature(code)[8 + 2 * at] == hex_text(code)[2 * at + 1]);
}

/// One attempt: an answer from 200 to 299 delivers. Any other answer, and none, is a failure, after
/// which the next attempt is made if one is left; if not, the delivery is given up with the error,
/// which is the status behind `HTTP`, or the reason why there was no answer.
pub proof fn law_one_attempt(attempt: u32, max_retries: u32, reply: ReplyView)
    ensures
        ({
            let after = after_reply(StateView::Attempting { attempt }, max_retries, reply);
            let delivered = reply matches ReplyView::Answered { code, .. } && 200 <= code && code
                <= 299;
            &&& delivered ==> after == (StateView::Delivered { attempt })
            &&& !delivered && attempt < max_retries ==> after is Attempting
                && after->Attempting_attempt == attempt + 1
            &&& !delivered && attempt >= max_retries ==> after is GivenUp && match reply {
                ReplyView::Answered { code, status } => after->last_error == Some(
                    "HTTP "@ + status,
                ),
                ReplyView::Unreachable(reason) => after->last_error == Some(reason),
            }
        }),
        max_retries > 0 ==> at_first(max_retries) == (StateView::Attempting { attempt: 1 }),
        max_retries == 0 ==> at_first(max_retries) == (StateView::GivenUp { last_error: None }),
{
}

/// A request stands for what its fields hold.
pub proof fn law_requests_stand_for_their_fields(request: WebhookRequest)
    ensures
        request@.url == request.url@,
        request.headers is None <==> request@.headers is None,
        request.headers matches Some(headers) ==> request@.headers == Some(headers@),
        request@.body == request.body@,
        request.signature is None <==> request@.signature is None,
        request.signature matches Some(signature) ==> request@.signature == Some(signature@),
{
}

/// Replies and the states of a delivery stand for what they hold.
pub proof fn law_replies_and_states_stand_for_themselves(reply: WebhookReply, state: DeliveryState)
    ensures
        reply matches WebhookReply::Answered { code, status } ==> reply@ == (ReplyView::Answered {
            code,
            status: status@,
        }),
        reply matches WebhookReply::Unreachable(error) ==> reply@ == ReplyView::Unreachable(error@),
        state matches DeliveryState::Attempting { attempt } ==> state@ == (StateView::Attempting {
            attempt,
        }),
        state matches DeliveryState::Delivered { attempt } ==> state@ == (StateView::Delivered {
            attempt,
        }),
        state matches DeliveryState::GivenUp { last_error } ==> state@ matches StateView::GivenUp {
            last_error: error,
        } && (last_error is None <==> error is None) && (last_error matches Some(text) ==> error
            == Some(text@)),
{
}

/// The waits are a second, two, four and so on: before attempt `n + 1`, two to the power of `n - 1`
/// seconds.
pub proof fn law_waits_are_powers_of_two(attempt: u32)
    requires
        1 <= attempt,
    ensures
        backoff_ms(attempt) == 1000 * pow2((attempt - 1) as nat),
{
}

} // verus!
