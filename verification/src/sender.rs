//! The OpenAI sender's own decisions: where requests go, what headers they
//! carry, and when a failed request is tried again.

use vstd::prelude::*;
use crate::text::{contains_seq, contains_str, decimal, decimal_string};

verus! {

/// Connection settings of an OpenAI-compatible endpoint.
#[derive(Debug)]
pub struct OpenAiProviderConfig {
    pub base_url: String,
    pub api_key: String,
    pub model_provider_id: Option<String>,
}

impl OpenAiProviderConfig {
    /// A copy of these settings.
    pub fn duplicate(&self) -> (r: Self)
        ensures
            r.base_url@ == self.base_url@,
            r.api_key@ == self.api_key@,
            match (r.model_provider_id, self.model_provider_id) {
                (Some(a), Some(b)) => a@ == b@,
                (None, None) => true,
                _ => false,
            },
    {
        OpenAiProviderConfig {
            base_url: self.base_url.clone(),
            api_key: self.api_key.clone(),
            model_provider_id: match &self.model_provider_id {
                Some(p) => Some(p.clone()),
                None => None,
            },
        }
    }
}

/// The provider of OpenAI-compatible models: it serves every model.
pub struct OpenAiProvider {
    cfg: OpenAiProviderConfig,
}

impl OpenAiProvider {
    /// A provider with the given settings.
    pub fn new(cfg: OpenAiProviderConfig) -> (r: Self)
        ensures
            r.config() == cfg,
    {
        OpenAiProvider { cfg }
    }

    /// The provider's settings.
    pub closed spec fn config(&self) -> OpenAiProviderConfig {
        self.cfg
    }

    /// The provider's name.
    pub fn name(&self) -> (r: &'static str)
        ensures
            r@ == "openai"@,
    {
        "openai"
    }

    /// Every model is served.
    pub fn supports_model(&self, model: &str) -> (r: bool)
        ensures
            r,
    {
        true
    }

    /// The settings a sender for `model` is made with.
    pub fn sender_settings(&self, model: &str) -> (r: OpenAiSenderSettings)
        ensures
            r.base_url@ == self.config().base_url@,
            r.api_key@ == self.config().api_key@,
            r.model@ == model@,
            match (r.model_provider_id, self.config().model_provider_id) {
                (Some(a), Some(b)) => a@ == b@,
                (None, None) => true,
                _ => false,
            },
    {
        create_openai_sender(self.cfg.duplicate(), String::from_str(model))
    }
}

/// What an OpenAI sender is made of, besides its HTTP client.
#[derive(Debug)]
pub struct OpenAiSenderSettings {
    pub base_url: String,
    pub api_key: String,
    pub model: String,
    pub model_provider_id: Option<String>,
}

/// The settings of a sender for `model` with the provider settings `cfg`.
pub fn create_openai_sender(cfg: OpenAiProviderConfig, model: String) -> (r: OpenAiSenderSettings)
    ensures
        r.base_url == cfg.base_url,
        r.api_key == cfg.api_key,
        r.model == model,
        r.model_provider_id == cfg.model_provider_id,
{
    OpenAiSenderSettings {
        base_url: cfg.base_url,
        api_key: cfg.api_key,
        model,
        model_provider_id: cfg.model_provider_id,
    }
}

/// `s` without its trailing `/` characters.
pub open spec fn trim_trailing_slashes(s: Seq<char>) -> Seq<char>
    decreases s.len(),
{
    if s.len() > 0 && s.last() == '/' {
        trim_trailing_slashes(s.drop_last())
    } else {
        s
    }
}

/// The chat-completions endpoint under `base_url`.
pub fn chat_completions_url(base_url: &str) -> (r: String)
    ensures
        r@ == trim_trailing_slashes(base_url@) + "/v1/chat/completions"@,
{
    let mut e = base_url.unicode_len();
    assert(base_url@.take(e as int) =~= base_url@);
    while e > 0 && base_url.get_char(e - 1) == '/'
        invariant
            e <= base_url@.len(),
            trim_trailing_slashes(base_url@) == trim_trailing_slashes(base_url@.take(e as int)),
        decreases e,
    {
        assert(base_url@.take(e as int).drop_last() =~= base_url@.take(e as int - 1));
        e = e - 1;
    }
    let head = base_url.substring_char(0, e);
    assert(head@ =~= base_url@.take(e as int));
    String::from_str(head).concat("/v1/chat/completions")
}

/// The `Authorization` header's value for `api_key`.
pub fn authorization_value(api_key: &str) -> (r: String)
    ensures
        r@ == "Bearer "@ + api_key@,
{
    String::from_str("Bearer ").concat(api_key)
}

/// Number of times a rate-limited request is tried again.
pub open spec fn max_retries() -> nat {
    5
}

/// What the sender does with an HTTP response.
#[derive(Debug)]
pub enum SendStep {
    /// Success: read the reply from the body.
    Accept,
    /// Rate limited: wait this many seconds and send again.
    Retry { delay_secs: u64 },
    /// Give up; `rate_limited` tells whether the retries ran out.
    Fail { rate_limited: bool },
}

/// The response says the endpoint is overloaded.
pub open spec fn is_rate_limited(status: u16, body: Seq<char>) -> bool {
    status == 429 || contains_seq(body, "rate limit"@) || contains_seq(body, "circuit breaker"@)
}

/// `2^n`.
pub open spec fn pow2(n: nat) -> nat
    decreases n,
{
    if n == 0 { 1 } else { 2 * pow2((n - 1) as nat) }
}

/// The decision on a response with `status` and `body` after `retries`
/// earlier retries: a 2xx status succeeds; a rate-limited response is tried
/// again after `2^retries` seconds while fewer than five retries were made;
/// anything else fails.
pub open spec fn send_decision(status: u16, body: Seq<char>, retries: nat) -> SendStep {
    if 200 <= status < 300 {
        SendStep::Accept
    } else if is_rate_limited(status, body) && retries < max_retries() {
        SendStep::Retry { delay_secs: pow2(retries) as u64 }
    } else {
        SendStep::Fail { rate_limited: is_rate_limited(status, body) }
    }
}

/// Decide what to do with a response (see [`send_decision`]).
pub fn send_step(status: u16, body: &str, retries: u32) -> (r: SendStep)
    ensures
        r == send_decision(status, body@, retries as nat),
{
    if 200 <= status && status < 300 {
        return SendStep::Accept;
    }
    let limited = status == 429 || contains_str(body, "rate limit") || contains_str(
        body,
        "circuit breaker",
    );
    if limited && retries < 5 {
        let d: u64 = 1u64 << retries;
        assert(d == pow2(retries as nat)) by {
            lemma_shift_is_pow2(retries);
        }
        SendStep::Retry { delay_secs: d }
    } else {
        SendStep::Fail { rate_limited: limited }
    }
}

proof fn lemma_shift_is_pow2(n: u32)
    requires
        n < 5,
    ensures
        (1u64 << n) == pow2(n as nat),
{
    assert(pow2(0) == 1);
    assert(pow2(1) == 2);
    assert(pow2(2) == 4);
    assert(pow2(3) == 8);
    assert(pow2(4) == 16);
    if n == 0 {
        assert((1u64 << 0u32) == 1) by (bit_vector);
    } else if n == 1 {
        assert((1u64 << 1u32) == 2) by (bit_vector);
    } else if n == 2 {
        assert((1u64 << 2u32) == 4) by (bit_vector);
    } else if n == 3 {
        assert((1u64 << 3u32) == 8) by (bit_vector);
    } else {
        assert((1u64 << 4u32) == 16) by (bit_vector);
    }
}

/// A rate-limited request is tried again at most five times, after waits of
/// 1, 2, 4, 8 and 16 seconds; a 2xx response is always accepted.
pub proof fn law_retries_are_bounded(status: u16, body: Seq<char>, retries: nat)
    ensures
        retries >= max_retries() ==> !(send_decision(status, body, retries) is Retry),
        send_decision(status, body, retries) is Retry ==> send_decision(status, body, retries)->delay_secs
            == pow2(retries) && pow2(retries) <= 16,
        200 <= status < 300 ==> send_decision(status, body, retries) is Accept,
{
    if retries < 5 {
        assert(pow2(0) == 1);
        assert(pow2(1) == 2);
        assert(pow2(2) == 4);
        assert(pow2(3) == 8);
        assert(pow2(4) == 16);
    }
}

/// Only rate limiting is retried: a response that is not 2xx is tried again
/// only when its status is 429 or its body mentions "rate limit" or
/// "circuit breaker", and then only while fewer than five retries were
/// made, after `2^retries` seconds; any other failed response fails at once
/// as not rate limited, whatever the number of retries.
pub proof fn law_only_rate_limits_are_retried(status: u16, body: Seq<char>, retries: nat)
    ensures
        !(200 <= status < 300) && status != 429 && !contains_seq(body, "rate limit"@) && !contains_seq(
            body,
            "circuit breaker"@,
        ) ==> send_decision(status, body, retries) == (SendStep::Fail { rate_limited: false }),
        send_decision(status, body, retries) is Retry ==> !(200 <= status < 300) && retries < 5 && (
        status == 429 || contains_seq(body, "rate limit"@) || contains_seq(body, "circuit breaker"@)),
        !(200 <= status < 300) && (status == 429 || contains_seq(body, "rate limit"@) || contains_seq(
            body,
            "circuit breaker"@,
        )) ==> send_decision(status, body, retries) == if retries < 5 {
            SendStep::Retry { delay_secs: pow2(retries) as u64 }
        } else {
            SendStep::Fail { rate_limited: true }
        },
{
}

/// The error text when the sender gives up.
pub fn send_failure_text(rate_limited: bool, status: u16, body: &str) -> (r: String)
    ensures
        r@ == if rate_limited {
            "openai: rate limit exceeded after 5 retries. http status="@ + decimal(status as nat)
                + " body="@ + body@
        } else {
            "openai: http status="@ + decimal(status as nat) + " body="@ + body@
        },
{
    let head = if rate_limited {
        String::from_str("openai: rate limit exceeded after 5 retries. http status=")
    } else {
        String::from_str("openai: http status=")
    };
    head.concat(decimal_string(status as u128).as_str()).concat(" body=").concat(body)
}

/// The headers of a chat-completions request, in order.
pub fn request_headers(settings: &OpenAiSenderSettings) -> (r: Vec<(String, String)>)
    ensures
        r@.len() == if settings.model_provider_id is Some { 3nat } else { 2nat },
        r@[0].0@ == "Authorization"@ && r@[0].1@ == "Bearer "@ + settings.api_key@,
        r@[1].0@ == "Content-Type"@ && r@[1].1@ == "application/json"@,
        settings.model_provider_id is Some ==> r@[2].0@ == "X-Model-Provider-Id"@
            && r@[2].1@ == settings.model_provider_id->Some_0@,
{
    let mut h: Vec<(String, String)> = Vec::new();
    h.push((String::from_str("Authorization"), authorization_value(settings.api_key.as_str())));
    h.push((String::from_str("Content-Type"), String::from_str("application/json")));
    if let Some(p) = &settings.model_provider_id {
        h.push((String::from_str("X-Model-Provider-Id"), p.clone()));
    }
    h
}

/// A debugging switch read from the environment: set, non-empty and not `0`.
pub fn debug_flag(value: Option<&str>) -> (r: bool)
    ensures
        r == match value {
            Some(v) => v@.len() > 0 && v@ != "0"@,
            None => false,
        },
{
    match value {
        Some(v) => {
            proof {
                reveal_strlit("0");
            }
            let n = v.unicode_len();
            if n == 0 {
                false
            } else if n == 1 && v.get_char(0) == '0' {
                assert(v@ =~= "0"@);
                false
            } else {
                assert(v@ != "0"@ ) by {
                    if n == 1 {
                        assert(v@[0] != "0"@[0]);
                    }
                }
                true
            }
        },
        None => false,
    }
}

} // verus!
