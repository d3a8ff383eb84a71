//! The chat transport's decisions: redacting what is sent, serving a cached
//! answer that still validates, retrying failed requests with growing
//! delays, dropping the JSON response format when an endpoint rejects it,
//! asking again with feedback when an answer fails validation, and the cache
//! key of a request. Sending requests, parsing bodies, validating answers
//! and reading and writing the cache file is left to the caller.
use vstd::prelude::*;

use crate::ai::{AiError, AiTransportInfo, AiUsage, ChatProtocol};
use crate::redact::{redact_secrets, redact_secrets_spec};
use crate::text::{ascii_lower, ascii_lower_chars, chars_of, contains, contains_str, excerpt, excerpt_string, owned};

verus! {

/// Sends made per request before giving up.
pub const TRANSPORT_ATTEMPTS: u32 = 3;

/// Answers asked for before the last one is taken leniently.
pub const VALIDATION_ROUNDS: u32 = 2;

/// Milliseconds waited before the first retry; each later wait is three times longer.
pub const FIRST_RETRY_DELAY_MS: u64 = 250;

/// Characters of an error body kept.
pub const ERROR_DETAIL_LIMIT: usize = 400;

// ---------------------------------------------------------------------------
// Outbound messages
// ---------------------------------------------------------------------------

/// One message of a conversation with a model.
#[derive(Clone, Debug)]
pub struct ChatMessage {
    pub role: String,
    pub content: String,
}

/// What leaves for the model: every message with the suspected secrets in
/// its content redacted, its role and the order of the messages kept.
pub fn redact_messages(messages: Vec<ChatMessage>) -> (r: Vec<ChatMessage>)
    ensures
        r@.len() == messages@.len(),
        forall|i: int|
            0 <= i < r@.len() ==> #[trigger] r@[i].role@ == messages@[i].role@ && r@[i].content@
                == redact_secrets_spec(messages@[i].content@),
{
    let mut out: Vec<ChatMessage> = Vec::new();
    let mut i: usize = 0;
    while i < messages.len()
        invariant
            i <= messages@.len(),
            out@.len() == i,
            forall|j: int|
                0 <= j < i ==> #[trigger] out@[j].role@ == messages@[j].role@ && out@[j].content@
                    == redact_secrets_spec(messages@[j].content@),
        decreases messages.len() - i,
    {
        let m = &messages[i];
        let content = redact_secrets(m.content.as_str());
        out.push(ChatMessage { role: m.role.clone(), content });
        i = i + 1;
    }
    out
}

// ---------------------------------------------------------------------------
// Cache key
// ---------------------------------------------------------------------------

/// The SHA-256 digest of the UTF-8 bytes of `data`.
pub uninterp spec fn sha256_digest(data: Seq<char>) -> Seq<u8>;

/// `sha2::Sha256::digest` of the UTF-8 bytes of `data`, as a vector of bytes.
/// Trusted: the result is the digest named by `sha256_digest`, 32 bytes long
/// as SHA-256 digests are.
#[verifier::external_body]
fn sha256_of(data: &str) -> (r: Vec<u8>)
    ensures
        r@ == sha256_digest(data@),
        r@.len() == 32,
{
    <sha2::Sha256 as sha2::Digest>::digest(data.as_bytes()).to_vec()
}

pub open spec fn hex_digit(n: u8) -> char {
    if n < 10 {
        ((n + 48) as u8) as char
    } else {
        ((n + 87) as u8) as char
    }
}

/// Each byte as two lowercase hexadecimal digits.
pub open spec fn hex(bytes: Seq<u8>) -> Seq<char>
    decreases bytes.len(),
{
    if bytes.len() == 0 {
        Seq::empty()
    } else {
        hex(bytes.drop_last()) + seq![hex_digit(bytes.last() / 16), hex_digit(bytes.last() % 16)]
    }
}

fn hex_digit_exec(n: u8) -> (c: char)
    requires
        n < 16,
    ensures
        c == hex_digit(n),
{
    if n < 10 {
        (n + 48) as char
    } else {
        (n + 87) as char
    }
}

/// Each byte as two lowercase hexadecimal digits, in order.
pub fn hex_string(bytes: &Vec<u8>) -> (r: String)
    ensures
        r@ == hex(bytes@),
{
    let mut s = String::new();
    let mut i: usize = 0;
    while i < bytes.len()
        invariant
            i <= bytes@.len(),
            s@ == hex(bytes@.take(i as int)),
        decreases bytes.len() - i,
    {
        let b = bytes[i];
        crate::text::push_char(&mut s, hex_digit_exec(b / 16));
        crate::text::push_char(&mut s, hex_digit_exec(b % 16));
        assert(bytes@.take(i + 1).drop_last() == bytes@.take(i as int));
        assert(bytes@.take(i + 1).last() == b);
        i = i + 1;
    }
    assert(bytes@.take(bytes@.len() as int) == bytes@);
    s
}

/// The cache key of a request: the digest of the provider, endpoint, model
/// and messages (as JSON text), in hexadecimal.
pub open spec fn cache_key_spec(provider: Seq<char>, endpoint: Seq<char>, model: Seq<char>, messages: Seq<char>) -> Seq<char> {
    hex(sha256_digest(provider + endpoint + model + messages))
}

pub fn cache_key(provider: &str, endpoint: &str, model: &str, messages_json: &str) -> (r: String)
    ensures
        r@ == cache_key_spec(provider@, endpoint@, model@, messages_json@),
{
    let mut data = owned(provider);
    data.append(endpoint);
    data.append(model);
    data.append(messages_json);
    let digest = sha256_of(data.as_str());
    hex_string(&digest)
}

// ---------------------------------------------------------------------------
// The request loop
// ---------------------------------------------------------------------------

/// Where a request stands.
#[derive(Clone, Copy, PartialEq, Eq, Structural, Debug)]
pub enum ChatStage {
    /// A cached answer was handed over for validation; the verdict is awaited.
    CheckingCache,
    /// A request was sent; its reply is awaited.
    AwaitingReply,
    /// A successful reply arrived; what its body holds is awaited.
    AwaitingBody,
    /// An answer was handed over for validation; the verdict is awaited.
    AwaitingVerdict,
    Done,
}

/// What happened to the last step's action.
#[derive(Debug)]
pub enum ChatEvent {
    /// The request could not be delivered.
    NetworkError(String),
    /// The endpoint answered with this status and body.
    Reply { status: u16, body: String },
    /// The body of a successful reply: the answer's text and the token usage
    /// found in it, or why it is not JSON.
    Body(Result<(Option<String>, Option<AiUsage>), String>),
    /// The verdict on the answer: accepted, or the feedback for the model.
    Verdict(Result<(), String>),
}

/// What the caller does next.
#[derive(Debug)]
pub enum ChatAction {
    /// Wait `delay_ms`, then send the request, with the JSON response format
    /// when `include_format`; when `follow_up` is set, first add the model's
    /// rejected answer and the feedback message to the conversation.
    Send { include_format: bool, delay_ms: u64, follow_up: Option<(String, String)> },
    /// Read the body of the successful reply.
    ReadBody,
    /// Validate the answer, leniently when `lenient`.
    Validate { content: String, lenient: bool },
    /// The request is over.
    Finished(Result<AiTransportInfo, AiError>),
}

#[derive(Debug)]
pub struct ChatMachine {
    pub provider: String,
    pub supports_format_fallback: bool,
    pub include_format: bool,
    pub stage: ChatStage,
    /// Requests sent in all.
    pub attempts: u32,
    /// Sends of the current request.
    pub tries: u32,
    /// Answers validated.
    pub round: u32,
    pub usage: Option<AiUsage>,
    pub last_error: Option<AiError>,
    /// The answer under validation.
    pub content: String,
}

/// The wait before send `k` of a request (counting from zero).
pub open spec fn retry_delay(k: nat) -> nat
    decreases k,
{
    if k == 0 {
        0
    } else if k == 1 {
        FIRST_RETRY_DELAY_MS as nat
    } else {
        3 * retry_delay((k - 1) as nat)
    }
}

fn retry_delay_exec(k: u32) -> (r: u64)
    requires
        k < TRANSPORT_ATTEMPTS,
    ensures
        r == retry_delay(k as nat),
{
    proof {
        reveal_with_fuel(retry_delay, 3);
    }
    if k == 0 {
        0
    } else if k == 1 {
        250
    } else {
        750
    }
}

/// A status worth retrying: rate limiting or a server error.
pub open spec fn is_retryable(status: u16) -> bool {
    status == 429 || status >= 500
}

pub open spec fn is_success(status: u16) -> bool {
    200 <= status < 300
}

/// Whether the endpoint rejected the JSON response format, so the request
/// is sent again without it.
pub open spec fn drops_format(m: ChatMachine, e: AiError) -> bool {
    m.include_format && m.supports_format_fallback && match e {
        AiError::Http { status, detail, .. } => status == 400 && contains(ascii_lower(detail@), "response_format"@),
        _ => false,
    }
}

pub open spec fn feedback_message(feedback: Seq<char>) -> Seq<char> {
    "Your previous reply was rejected: "@ + feedback
        + ". Reply again with only the JSON object matching the schema, no other text."@
}

impl ChatMachine {
    /// The counters stay small: at most three sends per request and at most
    /// three requests (the first, one without the response format, one after
    /// a rejected answer).
    pub open spec fn wf(&self) -> bool {
        &&& self.tries <= TRANSPORT_ATTEMPTS
        &&& self.round <= VALIDATION_ROUNDS
        &&& self.attempts <= 3 * (self.round + if self.include_format { 0u32 } else { 1u32 }) + self.tries
        &&& self.attempts <= TRANSPORT_ATTEMPTS * (VALIDATION_ROUNDS + 1)
        &&& (self.include_format || self.supports_format_fallback)
        &&& (self.stage == ChatStage::AwaitingReply ==> self.tries >= 1 && self.round < VALIDATION_ROUNDS)
        &&& (self.stage == ChatStage::AwaitingBody ==> self.round < VALIDATION_ROUNDS)
        &&& (self.stage == ChatStage::CheckingCache ==> self.attempts == 0 && self.tries == 0
            && self.round == 0 && self.include_format)
        &&& (self.stage == ChatStage::AwaitingVerdict ==> self.round >= 1 && self.attempts <= 3 * (self.round
            + if self.include_format { 0u32 } else { 1u32 }))
    }
}

/// However the endpoint answers, a request is sent at most three times in a
/// row, at most two answers are asked for, and so at most nine requests go
/// out in all; the answer of the last round is validated leniently.
pub proof fn lemma_chat_send_budget(m: ChatMachine)
    requires
        m.wf(),
    ensures
        m.tries <= TRANSPORT_ATTEMPTS,
        m.round <= VALIDATION_ROUNDS,
        m.attempts <= TRANSPORT_ATTEMPTS * (VALIDATION_ROUNDS + 1),
{
}

/// The event an action awaits.
pub open spec fn event_fits(stage: ChatStage, e: ChatEvent) -> bool {
    match stage {
        ChatStage::AwaitingReply => e is NetworkError || e is Reply,
        ChatStage::AwaitingBody => e is Body,
        ChatStage::CheckingCache => e is Verdict,
        ChatStage::AwaitingVerdict => e is Verdict,
        ChatStage::Done => false,
    }
}

/// Starts a request: the first send goes out at once, with the response format.
pub fn chat_start(protocol: &ChatProtocol) -> (r: (ChatMachine, ChatAction))
    ensures
        r.0.wf(),
        r.0.provider@ == protocol.provider@,
        r.0.supports_format_fallback == protocol.supports_format_fallback,
        r.0.stage == ChatStage::AwaitingReply && r.0.include_format && r.0.attempts == 1 && r.0.tries == 1,
        r.0.round == 0 && r.0.usage is None,
        r.1 matches ChatAction::Send { include_format: true, delay_ms: 0, follow_up: None },
{
    (
        ChatMachine {
            provider: protocol.provider.clone(),
            supports_format_fallback: protocol.supports_format_fallback,
            include_format: true,
            stage: ChatStage::AwaitingReply,
            attempts: 1,
            tries: 1,
            round: 0,
            usage: None,
            last_error: None,
            content: String::new(),
        },
        ChatAction::Send { include_format: true, delay_ms: 0, follow_up: None },
    )
}

/// Opens a request. A cached answer, when there is one, is validated
/// leniently first, and nothing is sent unless it is rejected; without one
/// the first send goes out at once, with the response format.
pub fn chat_open(protocol: &ChatProtocol, cached: Option<String>) -> (r: (ChatMachine, ChatAction))
    ensures
        r.0.wf(),
        r.0.provider@ == protocol.provider@,
        r.0.supports_format_fallback == protocol.supports_format_fallback,
        r.0.include_format && r.0.round == 0 && r.0.usage is None,
        match cached {
            Some(c) => {
                &&& r.0.stage == ChatStage::CheckingCache
                &&& r.0.attempts == 0 && r.0.tries == 0
                &&& r.1 == (ChatAction::Validate { content: c, lenient: true })
            },
            None => {
                &&& r.0.stage == ChatStage::AwaitingReply
                &&& r.0.attempts == 1 && r.0.tries == 1
                &&& r.1 matches ChatAction::Send { include_format: true, delay_ms: 0, follow_up: None }
            },
        },
{
    match cached {
        None => chat_start(protocol),
        Some(c) => (
            ChatMachine {
                provider: protocol.provider.clone(),
                supports_format_fallback: protocol.supports_format_fallback,
                include_format: true,
                stage: ChatStage::CheckingCache,
                attempts: 0,
                tries: 0,
                round: 0,
                usage: None,
                last_error: None,
                content: c.clone(),
            },
            ChatAction::Validate { content: c, lenient: true },
        ),
    }
}

/// The transport info of an answer served from the cache.
pub fn cached_transport() -> (r: AiTransportInfo)
    ensures
        r.attempts == 0 && r.cache_hit && r.usage is None,
{
    AiTransportInfo { attempts: 0, cache_hit: true, usage: None }
}

pub open spec fn sends(a: ChatAction, include_format: bool, delay: nat, follow_up: Option<(Seq<char>, Seq<char>)>) -> bool {
    match a {
        ChatAction::Send { include_format: f, delay_ms, follow_up: fu } => f == include_format && delay_ms == delay
            && match (fu, follow_up) {
            (Some((x, y)), Some((p, q))) => x@ == p && y@ == q,
            (None, None) => true,
            _ => false,
        },
        _ => false,
    }
}

pub open spec fn fails_with(a: ChatAction, e: AiError) -> bool {
    a == ChatAction::Finished(Err(e))
}

pub open spec fn invalid_response(e: AiError, provider: Seq<char>, message: Seq<char>) -> bool {
    match e {
        AiError::InvalidResponse { provider: p, message: m } => p@ == provider && m@ == message,
        _ => false,
    }
}

/// After a failed request (`e`): send again without the response format when
/// the endpoint rejected it, else give up with `e`.
pub open spec fn after_failure(old_m: ChatMachine, e: AiError, m: ChatMachine, a: ChatAction) -> bool {
    if drops_format(old_m, e) {
        &&& m.stage == ChatStage::AwaitingReply
        &&& !m.include_format
        &&& m.tries == 1
        &&& m.attempts == old_m.attempts + 1
        &&& m.round == old_m.round
        &&& sends(a, false, 0, None)
    } else {
        m.stage == ChatStage::Done && fails_with(a, e)
    }
}

/// After a send failed with `e` (`retryable`): send again after the next
/// delay while sends remain; otherwise the request failed with `e`.
pub open spec fn after_retryable(old_m: ChatMachine, e: AiError, m: ChatMachine, a: ChatAction) -> bool {
    if old_m.tries < TRANSPORT_ATTEMPTS {
        &&& m.stage == ChatStage::AwaitingReply
        &&& m.tries == old_m.tries + 1
        &&& m.attempts == old_m.attempts + 1
        &&& m.round == old_m.round
        &&& m.include_format == old_m.include_format
        &&& m.last_error == Some(e)
        &&& sends(a, old_m.include_format, retry_delay(old_m.tries as nat), None)
    } else {
        after_failure(old_m, e, m, a)
    }
}

/// One step of a request, given what happened to the last action.
pub open spec fn chat_step_ok(old_m: ChatMachine, event: ChatEvent, m: ChatMachine, a: ChatAction) -> bool {
    let p = old_m.provider;
    m.provider == p && m.supports_format_fallback == old_m.supports_format_fallback && match event {
        ChatEvent::NetworkError(msg) => after_retryable(
            old_m,
            AiError::Network { provider: p, message: msg },
            m,
            a,
        ),
        ChatEvent::Reply { status, body } => {
            if is_retryable(status) {
                exists|e2: AiError| after_retryable(old_m, e2, m, a) && match e2 {
                    AiError::Http { provider: p2, status: s2, detail: d2 } => p2@ == p@ && s2 == status && d2@ == excerpt(body@, ERROR_DETAIL_LIMIT as nat),
                    _ => false,
                }
            } else if !is_success(status) {
                exists|e2: AiError| after_failure(old_m, e2, m, a) && match e2 {
                    AiError::Http { provider: p2, status: s2, detail: d2 } => p2@ == p@ && s2 == status && d2@ == excerpt(body@, ERROR_DETAIL_LIMIT as nat),
                    _ => false,
                }
            } else {
                m.stage == ChatStage::AwaitingBody && a is ReadBody && m.attempts == old_m.attempts
                    && m.round == old_m.round && m.include_format == old_m.include_format
            }
        },
        ChatEvent::Body(Err(msg)) => m.stage == ChatStage::Done && match a {
            ChatAction::Finished(Err(e)) => invalid_response(e, p@, "response body is not JSON: "@ + msg@),
            _ => false,
        },
        ChatEvent::Body(Ok((content, usage))) => {
            &&& m.usage == match usage {
                Some(u) => Some(u),
                None => old_m.usage,
            }
            &&& match content {
                None => m.stage == ChatStage::Done && match a {
                    ChatAction::Finished(Err(e)) => invalid_response(e, p@, "response is missing the assistant message content"@),
                    _ => false,
                },
                Some(c) => {
                    &&& m.stage == ChatStage::AwaitingVerdict
                    &&& m.round == old_m.round + 1
                    &&& m.attempts == old_m.attempts
                    &&& m.include_format == old_m.include_format
                    &&& m.content == c
                    &&& a == ChatAction::Validate { content: c, lenient: m.round >= VALIDATION_ROUNDS }
                },
            }
        },
        ChatEvent::Verdict(Ok(())) => m.stage == ChatStage::Done && match a {
            ChatAction::Finished(Ok(t)) => if old_m.stage == ChatStage::CheckingCache {
                t.attempts == 0 && t.cache_hit && t.usage is None
            } else {
                t.attempts == old_m.attempts && !t.cache_hit && t.usage == old_m.usage
            },
            _ => false,
        },
        ChatEvent::Verdict(Err(feedback)) => if old_m.stage == ChatStage::CheckingCache {
            &&& m.stage == ChatStage::AwaitingReply
            &&& m.tries == 1
            &&& m.attempts == 1
            &&& m.round == 0
            &&& m.include_format
            &&& sends(a, true, 0, None)
        } else if old_m.round >= VALIDATION_ROUNDS {
            m.stage == ChatStage::Done && match a {
                ChatAction::Finished(Err(e)) => invalid_response(e, p@, feedback@),
                _ => false,
            }
        } else {
            &&& m.stage == ChatStage::AwaitingReply
            &&& m.tries == 1
            &&& m.attempts == old_m.attempts + 1
            &&& m.round == old_m.round
            &&& m.include_format == old_m.include_format
            &&& sends(a, old_m.include_format, 0, Some((old_m.content@, feedback_message(feedback@))))
        },
    }
}

fn http_error(provider: &String, status: u16, body: &String) -> (e: AiError)
    ensures
        match e {
            AiError::Http { provider: p, status: s, detail: d } => p@ == provider@ && s == status && d@ == excerpt(body@, ERROR_DETAIL_LIMIT as nat),
            _ => false,
        },
{
    AiError::Http {
        provider: provider.clone(),
        status,
        detail: excerpt_string(chars_of(body.as_str()).as_slice(), ERROR_DETAIL_LIMIT),
    }
}

fn is_format_rejection(m: &ChatMachine, e: &AiError) -> (r: bool)
    ensures
        r == drops_format(*m, *e),
{
    if !(m.include_format && m.supports_format_fallback) {
        return false;
    }
    match e {
        AiError::Http { status, detail, .. } => {
            let lower = ascii_lower_chars(chars_of(detail.as_str()).as_slice());
            *status == 400 && contains_str(lower.as_slice(), "response_format")
        },
        _ => false,
    }
}

fn fail_or_drop_format(m: &mut ChatMachine, e: AiError) -> (a: ChatAction)
    requires
        old(m).wf(),
        old(m).round < VALIDATION_ROUNDS,
    ensures
        after_failure(*old(m), e, *final(m), a),
        final(m).wf(),
        final(m).provider == old(m).provider && final(m).round == old(m).round,
        final(m).usage == old(m).usage && final(m).content == old(m).content,
        final(m).supports_format_fallback == old(m).supports_format_fallback,
{
    if is_format_rejection(m, &e) {
        m.include_format = false;
        m.tries = 1;
        m.attempts = m.attempts + 1;
        m.stage = ChatStage::AwaitingReply;
        ChatAction::Send { include_format: false, delay_ms: 0, follow_up: None }
    } else {
        m.stage = ChatStage::Done;
        ChatAction::Finished(Err(e))
    }
}

fn retry_or_fail(m: &mut ChatMachine, e: AiError) -> (a: ChatAction)
    requires
        old(m).wf(),
        old(m).stage == ChatStage::AwaitingReply,
    ensures
        after_retryable(*old(m), e, *final(m), a),
        final(m).wf(),
        final(m).provider == old(m).provider && final(m).round == old(m).round,
        final(m).usage == old(m).usage && final(m).content == old(m).content,
        final(m).supports_format_fallback == old(m).supports_format_fallback,
{
    if m.tries < TRANSPORT_ATTEMPTS {
        let delay = retry_delay_exec(m.tries);
        m.tries = m.tries + 1;
        m.attempts = m.attempts + 1;
        m.last_error = Some(e);
        ChatAction::Send { include_format: m.include_format, delay_ms: delay, follow_up: None }
    } else {
        fail_or_drop_format(m, e)
    }
}

/// Takes what happened to the last action and gives the next one.
pub fn chat_step(m: &mut ChatMachine, event: ChatEvent) -> (a: ChatAction)
    requires
        old(m).wf(),
        event_fits(old(m).stage, event),
    ensures
        final(m).wf(),
        final(m).provider == old(m).provider,
        chat_step_ok(*old(m), event, *final(m), a),
{
    match event {
        ChatEvent::NetworkError(msg) => {
            let e = AiError::Network { provider: m.provider.clone(), message: msg };
            retry_or_fail(m, e)
        },
        ChatEvent::Reply { status, body } => {
            if status == 429 || status >= 500 {
                let e = http_error(&m.provider, status, &body);
                let ghost ge = e;
                let a = retry_or_fail(m, e);
                assert(after_retryable(*old(m), ge, *m, a));
                a
            } else if !(200 <= status && status < 300) {
                let e = http_error(&m.provider, status, &body);
                let ghost ge = e;
                let a = fail_or_drop_format(m, e);
                assert(after_failure(*old(m), ge, *m, a));
                a
            } else {
                m.stage = ChatStage::AwaitingBody;
                ChatAction::ReadBody
            }
        },
        ChatEvent::Body(Err(msg)) => {
            m.stage = ChatStage::Done;
            let mut message = owned("response body is not JSON: ");
            message.append(msg.as_str());
            ChatAction::Finished(Err(AiError::InvalidResponse { provider: m.provider.clone(), message }))
        },
        ChatEvent::Body(Ok((content, usage))) => {
            match usage {
                Some(u) => {
                    m.usage = Some(u);
                },
                None => {},
            }
            match content {
                None => {
                    m.stage = ChatStage::Done;
                    ChatAction::Finished(
                        Err(
                            AiError::InvalidResponse {
                                provider: m.provider.clone(),
                                message: owned("response is missing the assistant message content"),
                            },
                        ),
                    )
                },
                Some(c) => {
                    m.round = m.round + 1;
                    m.stage = ChatStage::AwaitingVerdict;
                    m.content = c.clone();
                    ChatAction::Validate { content: c, lenient: m.round >= VALIDATION_ROUNDS }
                },
            }
        },
        ChatEvent::Verdict(Ok(())) => {
            if m.stage == ChatStage::CheckingCache {
                m.stage = ChatStage::Done;
                return ChatAction::Finished(Ok(cached_transport()));
            }
            m.stage = ChatStage::Done;
            let usage = m.usage.take();
            ChatAction::Finished(Ok(AiTransportInfo { attempts: m.attempts, cache_hit: false, usage }))
        },
        ChatEvent::Verdict(Err(feedback)) => {
            if m.stage == ChatStage::CheckingCache {
                m.stage = ChatStage::AwaitingReply;
                m.tries = 1;
                m.attempts = 1;
                ChatAction::Send { include_format: true, delay_ms: 0, follow_up: None }
            } else if m.round >= VALIDATION_ROUNDS {
                m.stage = ChatStage::Done;
                ChatAction::Finished(Err(AiError::InvalidResponse { provider: m.provider.clone(), message: feedback }))
            } else {
                let mut message = owned("Your previous reply was rejected: ");
                message.append(feedback.as_str());
                message.append(". Reply again with only the JSON object matching the schema, no other text.");
                m.stage = ChatStage::AwaitingReply;
                m.tries = 1;
                m.attempts = m.attempts + 1;
                ChatAction::Send { include_format: m.include_format, delay_ms: 0, follow_up: Some((m.content.clone(), message)) }
            }
        },
    }
}


/// What a failed send tells of itself: the delivery error, or the status and
/// the start of the body of the reply.
pub open spec fn describes(e: AiError, provider: String, event: ChatEvent) -> bool {
    match event {
        ChatEvent::NetworkError(msg) => e == AiError::Network { provider, message: msg },
        ChatEvent::Reply { status, body } => match e {
            AiError::Http { provider: p2, status: s2, detail: d2 } => p2@ == provider@ && s2 == status
                && d2@ == excerpt(body@, ERROR_DETAIL_LIMIT as nat),
            _ => false,
        },
        _ => false,
    }
}

pub open spec fn is_retryable_event(e: ChatEvent) -> bool {
    match e {
        ChatEvent::NetworkError(_) => true,
        ChatEvent::Reply { status, .. } => is_retryable(status),
        _ => false,
    }
}

/// A send that fails with a network error, a 429 or a server error is sent
/// again after 250 ms and then after 750 ms; when the third send fails too,
/// the request fails with that last error, and three requests went out.
pub proof fn lemma_transport_retries_then_fails(
    m0: ChatMachine,
    e1: ChatEvent,
    m1: ChatMachine,
    a1: ChatAction,
    e2: ChatEvent,
    m2: ChatMachine,
    a2: ChatAction,
    e3: ChatEvent,
    m3: ChatMachine,
    a3: ChatAction,
)
    requires
        m0.wf(),
        m0.stage == ChatStage::AwaitingReply,
        m0.tries == 1,
        is_retryable_event(e1),
        is_retryable_event(e2),
        is_retryable_event(e3),
        chat_step_ok(m0, e1, m1, a1),
        chat_step_ok(m1, e2, m2, a2),
        chat_step_ok(m2, e3, m3, a3),
    ensures
        sends(a1, m0.include_format, FIRST_RETRY_DELAY_MS as nat, None),
        sends(a2, m0.include_format, 3 * FIRST_RETRY_DELAY_MS as nat, None),
        m2.attempts == m0.attempts + 2,
        m3.stage == ChatStage::Done,
        a3 matches ChatAction::Finished(Err(e)) && describes(e, m0.provider, e3),
{
    reveal_with_fuel(retry_delay, 3);
    assert(m1.tries == 2);
    assert(m2.tries == 3);
}

/// An answer is asked for at most twice: a rejected first answer is sent back
/// with the feedback and the question asked again; the second answer is
/// validated leniently, and when it is rejected too the request fails with
/// that feedback.
pub proof fn lemma_two_validation_rounds(
    m0: ChatMachine,
    s1: u16,
    b1: String,
    m1: ChatMachine,
    a1: ChatAction,
    c1: String,
    m2: ChatMachine,
    a2: ChatAction,
    f1: String,
    m3: ChatMachine,
    a3: ChatAction,
    s2: u16,
    b2: String,
    m4: ChatMachine,
    a4: ChatAction,
    c2: String,
    m5: ChatMachine,
    a5: ChatAction,
    f2: String,
    m6: ChatMachine,
    a6: ChatAction,
)
    requires
        m0.wf(),
        m0.stage == ChatStage::AwaitingReply,
        m0.round == 0,
        is_success(s1),
        is_success(s2),
        chat_step_ok(m0, (ChatEvent::Reply { status: s1, body: b1 }), m1, a1),
        chat_step_ok(m1, ChatEvent::Body(Ok((Some(c1), None))), m2, a2),
        chat_step_ok(m2, ChatEvent::Verdict(Err(f1)), m3, a3),
        chat_step_ok(m3, (ChatEvent::Reply { status: s2, body: b2 }), m4, a4),
        chat_step_ok(m4, ChatEvent::Body(Ok((Some(c2), None))), m5, a5),
        chat_step_ok(m5, ChatEvent::Verdict(Err(f2)), m6, a6),
    ensures
        a2 == (ChatAction::Validate { content: c1, lenient: false }),
        sends(a3, m0.include_format, 0, Some((c1@, feedback_message(f1@)))),
        a5 == (ChatAction::Validate { content: c2, lenient: true }),
        m6.stage == ChatStage::Done,
        a6 matches ChatAction::Finished(Err(e)) && invalid_response(e, m0.provider@, f2@),
        m5.attempts == m0.attempts + 1,
{
}

/// A cached answer that validates is served with no request sent; one that is
/// rejected is set aside, and the request goes out as if there were no cache.
pub proof fn lemma_cache_served_or_bypassed(m0: ChatMachine, verdict: Result<(), String>, m1: ChatMachine, a1: ChatAction)
    requires
        m0.wf(),
        m0.stage == ChatStage::CheckingCache,
        chat_step_ok(m0, ChatEvent::Verdict(verdict), m1, a1),
    ensures
        verdict is Ok ==> m1.stage == ChatStage::Done && (a1 matches ChatAction::Finished(Ok(t))
            && t.cache_hit && t.attempts == 0),
        verdict is Err ==> m1.stage == ChatStage::AwaitingReply && m1.attempts == 1 && sends(a1, true, 0, None),
{
}

} // verus!
