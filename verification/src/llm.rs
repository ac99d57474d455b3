//! The chat-completions protocol: the endpoint URL, the request, and what a
//! response means. Sending the request is left to the caller.

use vstd::prelude::*;
use crate::config::{ProviderConfig, default_api_key};
use crate::sanitizer::{sanitize_commit_message, sanitized};
use crate::text::{
    append_chars, chars_of, ends_with, has_suffix, is_ws, lemma_trim_ends, same_text,
    string_of, trim, trim_chars,
};

verus! {

/// A client for one provider: its settings and the URL that requests go to.
#[derive(Debug, Clone)]
pub struct LlmClient {
    provider: ProviderConfig,
    completions_url: String,
}

/// One message of a chat request.
#[derive(Debug, Clone)]
pub struct ChatMessage {
    pub role: String,
    pub content: String,
}

/// The body of a chat-completions request.
#[derive(Debug, Clone)]
pub struct ChatCompletionRequest {
    pub model: String,
    pub messages: Vec<ChatMessage>,
    /// The temperature as the bit pattern of an `f32`.
    pub temperature_bits: u32,
}

/// The parts of a chat-completions response that are read.
#[derive(Debug, Clone)]
pub struct ChatCompletionResponse {
    pub choices: Option<Vec<ChatChoice>>,
    pub error: Option<ApiErrorResponse>,
}

/// One choice of a response.
#[derive(Debug, Clone)]
pub struct ChatChoice {
    pub message: Option<ChoiceMessage>,
}

/// The message of a choice.
#[derive(Debug, Clone)]
pub struct ChoiceMessage {
    pub content: Option<String>,
}

/// The error object of a response.
#[derive(Debug, Clone)]
pub struct ApiErrorResponse {
    pub message: Option<String>,
}

/// Why no commit message came back.
#[derive(Debug, Clone)]
pub enum LlmError {
    /// The endpoint could not be reached or did not answer in time.
    Connect { url: String, details: String },
    /// The request failed otherwise.
    Request { details: String },
    /// The service answered with an error status and an error message.
    Api { status: String, message: String },
    /// The service answered with an error status and no error message.
    Status { status: String, body: String },
    /// A successful answer was not the expected JSON.
    Parse { body: String },
    /// The answer held no text.
    EmptyMessage,
}

/// `s` without its trailing slashes (`trim_end_matches('/')`).
pub open spec fn strip_trailing_slashes(s: Seq<char>) -> Seq<char>
    decreases s.len(),
{
    if s.len() > 0 && s.last() == '/' {
        strip_trailing_slashes(s.drop_last())
    } else {
        s
    }
}

/// The chat-completions URL for an endpoint: the trimmed endpoint without
/// trailing slashes, kept when it already ends in `/chat/completions`,
/// completed with `/chat/completions` after `/v1`, and with
/// `/v1/chat/completions` otherwise.
pub open spec fn normalized_url(raw: Seq<char>) -> Seq<char> {
    let t = strip_trailing_slashes(trim(raw));
    if has_suffix(t, "/chat/completions"@) {
        t
    } else if has_suffix(t, "/v1"@) {
        t + "/chat/completions"@
    } else {
        t + "/v1/chat/completions"@
    }
}

/// The raw text of the first choice's message, or empty when any part is
/// missing.
pub open spec fn first_content(resp: ChatCompletionResponse) -> Seq<char> {
    match resp.choices {
        Some(choices) => if choices.len() > 0 {
            match choices[0].message {
                Some(m) => match m.content {
                    Some(c) => c@,
                    None => seq![],
                },
                None => seq![],
            }
        } else {
            seq![]
        },
        None => seq![],
    }
}

/// The error message a response carries, if any.
pub open spec fn api_error_message(resp: ChatCompletionResponse) -> Option<Seq<char>> {
    match resp.error {
        Some(e) => match e.message {
            Some(m) => Some(m@),
            None => None,
        },
        None => None,
    }
}

/// Whether an API key is sent: it is not empty and not the built-in
/// placeholder.
pub open spec fn sends_key(api_key: Seq<char>) -> bool {
    api_key.len() > 0 && api_key != default_api_key()
}

/// [`LlmError`] as plain values.
pub enum LlmErrorView {
    Connect { url: Seq<char>, details: Seq<char> },
    Request { details: Seq<char> },
    Api { status: Seq<char>, message: Seq<char> },
    Status { status: Seq<char>, body: Seq<char> },
    Parse { body: Seq<char> },
    EmptyMessage,
}

impl View for LlmError {
    type V = LlmErrorView;

    open spec fn view(&self) -> LlmErrorView {
        match self {
            LlmError::Connect { url, details } => LlmErrorView::Connect { url: url@, details: details@ },
            LlmError::Request { details } => LlmErrorView::Request { details: details@ },
            LlmError::Api { status, message } => LlmErrorView::Api { status: status@, message: message@ },
            LlmError::Status { status, body } => LlmErrorView::Status { status: status@, body: body@ },
            LlmError::Parse { body } => LlmErrorView::Parse { body: body@ },
            LlmError::EmptyMessage => LlmErrorView::EmptyMessage,
        }
    }
}

/// The text shown for an error.
pub open spec fn error_text(e: LlmErrorView) -> Seq<char> {
    match e {
        LlmErrorView::Connect { url, details } => "Failed to connect to LLM endpoint at '"@ + url
            + "'.\n-> Is your local LLM service (e.g. LMStudio / Ollama) running?\n-> Use 'git msg config' to inspect or adjust your endpoint configuration.\n(Details: "@
            + details + ")"@,
        LlmErrorView::Request { details } => "HTTP request to LLM failed: "@ + details,
        LlmErrorView::Api { status, message } => "LLM API error ("@ + status + "): "@ + message,
        LlmErrorView::Status { status, body } => "LLM API returned error status "@ + status + ":\n"@
            + body,
        LlmErrorView::Parse { body } => "Failed to parse response JSON from LLM: "@ + body,
        LlmErrorView::EmptyMessage => "LLM returned an empty commit message."@,
    }
}

/// What a response means, given whether its status was a success, the
/// status as text, the body, and the body read as JSON (`None` where it is
/// not the expected JSON): on an error status, the API's error message if the
/// body carries one, else the status and body; on success, a parse error, an
/// empty-message error when the first choice's text is blank, or that text
/// sanitized.
pub open spec fn response_outcome(
    status_ok: bool,
    status: Seq<char>,
    body: Seq<char>,
    parsed: Option<ChatCompletionResponse>,
) -> Result<Seq<char>, LlmErrorView> {
    if !status_ok {
        match parsed {
            Some(resp) => match api_error_message(resp) {
                Some(m) => Err(LlmErrorView::Api { status, message: m }),
                None => Err(LlmErrorView::Status { status, body }),
            },
            None => Err(LlmErrorView::Status { status, body }),
        }
    } else {
        match parsed {
            None => Err(LlmErrorView::Parse { body }),
            Some(resp) => if trim(first_content(resp)).len() == 0 {
                Err(LlmErrorView::EmptyMessage)
            } else {
                Ok(sanitized(first_content(resp)))
            },
        }
    }
}

/// The view of an outcome.
pub open spec fn outcome_view(r: Result<String, LlmError>) -> Result<Seq<char>, LlmErrorView> {
    match r {
        Ok(s) => Ok(s@),
        Err(e) => Err(e@),
    }
}

/// The URL is always a chat-completions URL, and normalizing it again
/// changes nothing.
pub proof fn lemma_normalize_idempotent(raw: Seq<char>)
    ensures
        has_suffix(normalized_url(raw), "/chat/completions"@),
        normalized_url(normalized_url(raw)) == normalized_url(raw),
{
    reveal_strlit("/chat/completions");
    reveal_strlit("/v1/chat/completions");
    reveal_strlit("/v1");
    let t = strip_trailing_slashes(trim(raw));
    let r = normalized_url(raw);
    lemma_strip_slashes_prefix(trim(raw));
    lemma_trim_ends(raw);
    let full = "/chat/completions"@;
    if !has_suffix(t, full) {
        if has_suffix(t, "/v1"@) {
            assert(r.subrange(r.len() - full.len(), r.len() as int) =~= full);
        } else {
            assert(r.subrange(r.len() - full.len(), r.len() as int) =~= full);
        }
    }
    assert(has_suffix(r, full));
    let last = r.len() - 1;
    assert(r[last] == r.subrange(r.len() - full.len(), r.len() as int)[full.len() - 1]);
    assert(r.last() == 's');
    if t.len() > 0 {
        assert(r[0] == t[0]);
        assert(t[0] == trim(raw)[0]);
    } else {
        assert(r[0] == '/');
    }
    assert(trim(r) == r) by {
        lemma_unwhite_ends_trimmed(r);
    }
    assert(strip_trailing_slashes(r) == r);
}

/// An endpoint that is already a full chat-completions URL, with no white
/// space around it, is kept as it is.
pub proof fn lemma_full_url_kept(raw: Seq<char>)
    requires
        trim(raw) == raw,
        has_suffix(raw, "/chat/completions"@),
    ensures
        normalized_url(raw) == raw,
{
    reveal_strlit("/chat/completions");
    let full = "/chat/completions"@;
    assert(raw[raw.len() - 1] == raw.subrange(raw.len() - full.len(), raw.len() as int)[full.len() - 1]);
}

proof fn lemma_unwhite_ends_trimmed(r: Seq<char>)
    requires
        r.len() > 0,
        !is_ws(r[0]),
        !is_ws(r.last()),
    ensures
        trim(r) == r,
{
}

proof fn lemma_strip_slashes_prefix(s: Seq<char>)
    ensures
        strip_trailing_slashes(s).len() <= s.len(),
        strip_trailing_slashes(s) == s.take(strip_trailing_slashes(s).len() as int),
    decreases s.len(),
{
    if s.len() > 0 && s.last() == '/' {
        lemma_strip_slashes_prefix(s.drop_last());
        assert(s.drop_last().take(strip_trailing_slashes(s).len() as int) =~= s.take(
            strip_trailing_slashes(s).len() as int,
        ));
    } else {
        assert(s.take(s.len() as int) =~= s);
    }
}

impl LlmError {
    /// The text shown for this error.
    pub fn message(&self) -> (r: String)
        ensures
            r@ == error_text(self@),
    {
        let mut t: Vec<char>;
        match self {
            LlmError::Connect { url, details } => {
                t = chars_of("Failed to connect to LLM endpoint at '");
                append_chars(&mut t, &chars_of(url.as_str()));
                append_chars(
                    &mut t,
                    &chars_of(
                        "'.\n-> Is your local LLM service (e.g. LMStudio / Ollama) running?\n-> Use 'git msg config' to inspect or adjust your endpoint configuration.\n(Details: ",
                    ),
                );
                append_chars(&mut t, &chars_of(details.as_str()));
                append_chars(&mut t, &chars_of(")"));
            },
            LlmError::Request { details } => {
                t = chars_of("HTTP request to LLM failed: ");
                append_chars(&mut t, &chars_of(details.as_str()));
            },
            LlmError::Api { status, message } => {
                t = chars_of("LLM API error (");
                append_chars(&mut t, &chars_of(status.as_str()));
                append_chars(&mut t, &chars_of("): "));
                append_chars(&mut t, &chars_of(message.as_str()));
            },
            LlmError::Status { status, body } => {
                t = chars_of("LLM API returned error status ");
                append_chars(&mut t, &chars_of(status.as_str()));
                append_chars(&mut t, &chars_of(":\n"));
                append_chars(&mut t, &chars_of(body.as_str()));
            },
            LlmError::Parse { body } => {
                t = chars_of("Failed to parse response JSON from LLM: ");
                append_chars(&mut t, &chars_of(body.as_str()));
            },
            LlmError::EmptyMessage => {
                t = chars_of("LLM returned an empty commit message.");
            },
        }
        string_of(&t)
    }
}

impl LlmClient {
    /// A client for `provider`, with its URL normalized.
    pub fn new(provider: ProviderConfig) -> (r: LlmClient)
        ensures
            r.provider() == provider,
            r.completions_url()@ == normalized_url(provider.endpoint@),
    {
        let completions_url = Self::normalize_url(provider.endpoint.as_str());
        LlmClient { provider, completions_url }
    }

    /// The provider settings.
    pub closed spec fn provider(&self) -> ProviderConfig {
        self.provider
    }

    /// The URL that requests go to.
    pub closed spec fn completions_url(&self) -> String {
        self.completions_url
    }

    /// The provider settings.
    pub fn provider_config(&self) -> (r: &ProviderConfig)
        ensures
            *r == self.provider(),
    {
        &self.provider
    }

    /// The URL that requests go to.
    pub fn url(&self) -> (r: &String)
        ensures
            *r == self.completions_url(),
    {
        &self.completions_url
    }

    /// The `Authorization` header value, sent only for a real key.
    pub fn authorization(&self) -> (r: Option<String>)
        ensures
            match r {
                Some(h) => sends_key(self.provider().api_key@) && h@ == "Bearer "@
                    + self.provider().api_key@,
                None => !sends_key(self.provider().api_key@),
            },
    {
        let key = self.provider.api_key.as_str();
        if chars_of(key).len() > 0 && !same_text(key, "not-needed") {
            let mut h = chars_of("Bearer ");
            append_chars(&mut h, &chars_of(key));
            Some(string_of(&h))
        } else {
            None
        }
    }

    /// The request body: the configured model, a system and a user message,
    /// and the configured temperature.
    pub fn chat_request(&self, system_prompt: &str, user_prompt: &str) -> (r: ChatCompletionRequest)
        ensures
            r.model@ == self.provider().model@,
            r.temperature_bits == self.provider().temperature_bits,
            r.messages.len() == 2,
            r.messages[0].role@ == "system"@,
            r.messages[0].content@ == system_prompt@,
            r.messages[1].role@ == "user"@,
            r.messages[1].content@ == user_prompt@,
    {
        let mut messages: Vec<ChatMessage> = Vec::new();
        messages.push(ChatMessage { role: "system".to_owned(), content: system_prompt.to_owned() });
        messages.push(ChatMessage { role: "user".to_owned(), content: user_prompt.to_owned() });
        ChatCompletionRequest {
            model: self.provider.model.clone(),
            messages,
            temperature_bits: self.provider.temperature_bits,
        }
    }

    /// The error for a request that could not be sent: a connection error
    /// naming the URL when the endpoint was unreachable or timed out,
    /// otherwise a plain request error.
    pub fn send_error(&self, connect_or_timeout: bool, details: String) -> (r: LlmError)
        ensures
            connect_or_timeout ==> r@ == (LlmErrorView::Connect {
                url: self.completions_url()@,
                details: details@,
            }),
            !connect_or_timeout ==> r@ == (LlmErrorView::Request { details: details@ }),
    {
        if connect_or_timeout {
            LlmError::Connect { url: self.completions_url.clone(), details }
        } else {
            LlmError::Request { details }
        }
    }

    /// What a response means; see [`response_outcome`].
    pub fn interpret_response(
        status_ok: bool,
        status: String,
        body: String,
        parsed: Option<ChatCompletionResponse>,
    ) -> (r: Result<String, LlmError>)
        ensures
            outcome_view(r) == response_outcome(status_ok, status@, body@, parsed),
    {
        if !status_ok {
            match parsed {
                Some(resp) => {
                    match resp.error {
                        Some(err_obj) => {
                            match err_obj.message {
                                Some(msg) => {
                                    return Err(LlmError::Api { status, message: msg });
                                },
                                None => {},
                            }
                        },
                        None => {},
                    }
                },
                None => {},
            }
            return Err(LlmError::Status { status, body });
        }
        match parsed {
            None => Err(LlmError::Parse { body }),
            Some(resp) => {
                let raw_content: String = match &resp.choices {
                    Some(choices) => {
                        if choices.len() > 0 {
                            match &choices[0].message {
                                Some(m) => match &m.content {
                                    Some(c) => c.clone(),
                                    None => String::new(),
                                },
                                None => String::new(),
                            }
                        } else {
                            String::new()
                        }
                    },
                    None => String::new(),
                };
                assert(raw_content@ == first_content(resp));
                if trim_chars(&chars_of(raw_content.as_str())).len() == 0 {
                    Err(LlmError::EmptyMessage)
                } else {
                    Ok(sanitize_commit_message(raw_content.as_str()))
                }
            },
        }
    }

    /// Normalizes an endpoint into the chat-completions URL.
    pub fn normalize_url(raw: &str) -> (r: String)
        ensures
            r@ == normalized_url(raw@),
    {
        let mut t = trim_chars(&chars_of(raw));
        let ghost trimmed = t@;
        while t.len() > 0 && t[t.len() - 1] == '/'
            invariant
                strip_trailing_slashes(trimmed) == strip_trailing_slashes(t@),
            decreases t.len(),
        {
            t.pop();
        }
        let full = chars_of("/chat/completions");
        let v1 = chars_of("/v1");
        if ends_with(&t, &full) {
            string_of(&t)
        } else if ends_with(&t, &v1) {
            append_chars(&mut t, &full);
            string_of(&t)
        } else {
            append_chars(&mut t, &chars_of("/v1/chat/completions"));
            string_of(&t)
        }
    }
}

} // verus!
