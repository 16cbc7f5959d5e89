//! Language-model skills: what a backend is asked, what its answer is read as, and the chain of
//! refusals in front of a call.
use crate::config::{permits, EgressPolicy};
use crate::json::{json_of, object, parse_json, string, Json, JsonModel, UNREADABLE_BODY};
use crate::node_id::{NodeId, NodeModel};
use crate::text::{join, texts, trim_end, trim_end_of};
use vstd::prelude::*;
use vstd::string::*;

verus! {

/// What a backend returns.
#[derive(Debug, Clone, PartialEq, Eq)]
pub struct LlmResult {
    /// The text.
    pub output: String,
    /// Which model actually responded.
    pub model_used: String,
    /// What it cost.
    pub tokens_used: u32,
}

/// Why a backend did not answer.
#[derive(Debug, PartialEq, Eq)]
pub enum LlmError {
    /// The request did not go through.
    Http(String),
    /// The service refused.
    Api(String),
    /// The answer could not be read.
    Parse(String),
}

impl LlmError {
    /// The error as text.
    pub open spec fn text(self) -> Seq<char> {
        match self {
            LlmError::Http(e) => "HTTP error: "@ + e@,
            LlmError::Api(e) => "API error: "@ + e@,
            LlmError::Parse(e) => "parse error: "@ + e@,
        }
    }

    /// The error as text.
    pub fn message(&self) -> (r: String)
        ensures
            r@ == self.text(),
    {
        match self {
            LlmError::Http(e) => join("HTTP error: ", e.as_str()),
            LlmError::Api(e) => join("API error: ", e.as_str()),
            LlmError::Parse(e) => join("parse error: ", e.as_str()),
        }
    }
}

/// Test double: answers `"echo: {input}"`.
#[derive(Debug, Clone, Copy, PartialEq, Eq, Structural)]
pub struct EchoBackend;

impl EchoBackend {
    /// The answer: the user's text behind `echo: `, whatever else is asked. The temperature is
    /// carried by its bits.
    pub fn complete(&self, system: &str, user: &str, max_tokens: u32, temperature_bits: u32) -> (r: Result<
        LlmResult,
        LlmError,
    >)
        ensures
            r matches Ok(a) && a.output@ == "echo: "@ + user@ && a.model_used@ == "echo"@
                && a.tokens_used == 0,
    {
        Ok(
            LlmResult { output: join("echo: ", user), model_used: "echo".to_owned(), tokens_used: 0 },
        )
    }

    /// It reaches nothing outside, so it is never gated.
    pub fn endpoint(&self) -> (r: Option<&str>)
        ensures
            r is None,
    {
        None
    }
}

/// A service with the chat-completions interface. The model is fixed here and not read from a
/// prompt.
#[derive(Debug, PartialEq, Eq)]
pub struct OpenAiBackend {
    /// Where the service is.
    pub base_url: String,
    /// The bearer.
    pub api_key: String,
    /// The model.
    pub model: String,
}

/// One chat message.
pub open spec fn chat_message(role: Seq<char>, content: Seq<char>) -> JsonModel {
    object().field("role"@, string(role)).field("content"@, string(content))
}

/// The body of a chat-completions request.
pub open spec fn chat_request(
    model: Seq<char>,
    system: Seq<char>,
    user: Seq<char>,
    max_tokens: u32,
    temperature_bits: u64,
) -> JsonModel {
    object().field("model"@, string(model)).field("max_tokens"@, JsonModel::Int(max_tokens as int)).field(
        "temperature"@,
        JsonModel::Real(temperature_bits),
    ).field(
        "messages"@,
        JsonModel::Arr(
            Seq::empty().push(chat_message("system"@, system)).push(chat_message("user"@, user)),
        ),
    )
}

fn message_json(role: &str, content: &str) -> (r: Json)
    ensures
        r@ == chat_message(role@, content@),
{
    Json::empty_object().with_str("role", role).with_str("content", content)
}

/// Is this what an answer is read as, where `model` was asked?
pub open spec fn completed(r: LlmResult, answer: JsonModel, model: Seq<char>) -> bool {
    &&& r.output@ == match answer.at("choices"@).item(0).at("message"@).text_at("content"@) {
        Some(s) => s,
        None => Seq::empty(),
    }
    &&& r.tokens_used == match answer.at("usage"@).natural_at("total_tokens"@) {
        Some(n) => n as u32,
        None => 0,
    }
    &&& r.model_used@ == match answer.text_at("model"@) {
        Some(m) => m,
        None => model,
    }
}

impl OpenAiBackend {
    /// The service at a URL.
    pub fn new(base_url: &str, api_key: &str, model: &str) -> (r: Self)
        ensures
            r.base_url@ == base_url@,
            r.api_key@ == api_key@,
            r.model@ == model@,
    {
        OpenAiBackend {
            base_url: base_url.to_owned(),
            api_key: api_key.to_owned(),
            model: model.to_owned(),
        }
    }

    /// The URL a call reaches: the one that the egress gate is asked about.
    pub fn endpoint(&self) -> (r: Option<&str>)
        ensures
            r matches Some(u) && u@ == self.base_url@,
    {
        Some(self.base_url.as_str())
    }

    /// The URL a request is posted to.
    pub fn completions_url(&self) -> (r: String)
        ensures
            r@ == trim_end(self.base_url@, '/') + "/chat/completions"@,
    {
        join(trim_end_of(self.base_url.as_str(), '/').as_str(), "/chat/completions")
    }

    /// The body of a request. The temperature is carried by the bits of its 64-bit form.
    pub fn request_body(&self, system: &str, user: &str, max_tokens: u32, temperature_bits: u64) -> (r: Json)
        ensures
            r@ == chat_request(self.model@, system@, user@, max_tokens, temperature_bits),
    {
        let messages = Json::pair(message_json("system", system), message_json("user", user));
        Json::empty_object().with_str("model", self.model.as_str()).with(
            "max_tokens",
            Json::UInt(max_tokens as u64),
        ).with("temperature", Json::Real(temperature_bits)).with("messages", messages)
    }

    /// What a service that answered with an error status is reported as.
    pub fn status_error(status: &str, text: &str) -> (r: LlmError)
        ensures
            r matches LlmError::Api(e) && e@ == status@ + ": "@ + text@,
    {
        LlmError::Api(join(join(status, ": ").as_str(), text))
    }

    /// What a completion's body is read as.
    pub fn read_completion(&self, body: &[u8]) -> (r: Result<LlmResult, LlmError>)
        ensures
            match json_of(body@) {
                Some(answer) => r matches Ok(c) && completed(c, answer, self.model@),
                None => r matches Err(LlmError::Parse(e)) && e@ == UNREADABLE_BODY@,
            },
    {
        match parse_json(body) {
            Some(answer) => Ok(self.read_answer(&answer)),
            None => Err(LlmError::Parse(UNREADABLE_BODY.to_owned())),
        }
    }

    /// What an answer is read as: the first choice's content (empty where there is none), the total
    /// of tokens (zero where there is none) and the model that answered (this one where it does not
    /// say).
    pub fn read_answer(&self, answer: &Json) -> (r: LlmResult)
        ensures
            completed(r, answer@, self.model@),
    {
        let message = answer.at("choices").item(0).at("message");
        let output: String = match message.str_at("content") {
            Some(s) => s.to_owned(),
            None => String::new(),
        };
        let tokens_used: u32 = match answer.at("usage").u64_at("total_tokens") {
            Some(n) => #[verifier::truncate] (n as u32),
            None => 0,
        };
        let model_used: String = match answer.str_at("model") {
            Some(m) => m.to_owned(),
            None => self.model.clone(),
        };
        LlmResult { output, model_used, tokens_used }
    }
}

/// A request to run a skill.
#[derive(Debug, PartialEq, Eq)]
pub struct LlmInvokeRequest {
    /// The skill: `{ns}/{name}`.
    pub prompt: String,
    /// What it is given.
    pub input: String,
    /// Further values for the template.
    pub context: Vec<(String, String)>,
}

/// A refused request.
#[derive(Debug, PartialEq, Eq)]
pub struct LlmInvokeError {
    /// A stable reason.
    pub error: String,
    /// More about it.
    pub detail: String,
}

/// A skill's prompt.
#[derive(Debug, PartialEq, Eq)]
pub struct PromptTemplate {
    /// The system text.
    pub system: String,
    /// The user text.
    pub user_template: String,
    /// The most tokens an answer may cost.
    pub max_tokens: u32,
    /// The temperature, by the bits of its 32-bit form.
    pub temperature_bits: u32,
}

/// What reading a skill's prompt from the store came to.
#[derive(Debug, PartialEq, Eq)]
pub enum TemplateRead {
    /// There is none.
    Missing,
    /// There is one and it does not decode.
    Undecodable(String),
    /// Here it is.
    Read(PromptTemplate),
}

/// The backend registered for a skill, as far as the decision reads it.
#[derive(Debug, PartialEq, Eq)]
pub struct BackendInfo {
    /// The URL it reaches, if it reaches any.
    pub endpoint: Option<String>,
}

/// Everything a call is decided from, in the order it is asked for.
#[derive(Debug)]
pub struct LlmInvocation {
    /// Why the caller context is refused, if it is.
    pub context_refusal: Option<String>,
    /// The request, or why it does not parse.
    pub request: Result<LlmInvokeRequest, String>,
    /// The backend registered for the skill, if there is one.
    pub backend: Option<BackendInfo>,
    /// The skill's prompt.
    pub template: TemplateRead,
    /// The rendered system text, or why it does not render.
    pub system: Result<String, String>,
    /// The rendered user text, or why it does not render.
    pub user: Result<String, String>,
}

/// What one text is rendered from.
#[derive(Debug, PartialEq, Eq)]
pub struct RenderInput {
    /// The template's text.
    pub template: String,
    /// The skill.
    pub skill: String,
    /// The node that renders.
    pub node: String,
    /// The request's input.
    pub input: String,
    /// The request's context.
    pub context: Vec<(String, String)>,
}

/// Names and values, as texts.
pub open spec fn pairs(v: Seq<(String, String)>) -> Seq<(Seq<char>, Seq<char>)> {
    Seq::new(v.len(), |i: int| (v[i].0@, v[i].1@))
}

/// Is this what that template text is rendered from, for the request, on the node?
pub open spec fn renders(r: RenderInput, template: Seq<char>, q: LlmInvokeRequest, node: NodeModel) -> bool {
    &&& r.template@ == template
    &&& r.skill@ == q.prompt@
    &&& r.node@ == node.text()
    &&& r.input@ == q.input@
    &&& pairs(r.context@) == pairs(q.context@)
}

fn render_input(template: &str, q: &LlmInvokeRequest, node: &NodeId) -> (r: RenderInput)
    ensures
        renders(r, template@, *q, node@),
{
    let mut context: Vec<(String, String)> = Vec::new();
    let mut k: usize = 0;
    while k < q.context.len()
        invariant
            k <= q.context@.len(),
            context@.len() == k,
            forall|i: int|
                0 <= i < k ==> (#[trigger] context@[i]).0@ == q.context@[i].0@ && context@[i].1@
                    == q.context@[i].1@,
        decreases q.context@.len() - k,
    {
        context.push((q.context[k].0.clone(), q.context[k].1.clone()));
        k += 1;
    }
    assert(pairs(context@) =~= pairs(q.context@));
    RenderInput {
        template: template.to_owned(),
        skill: q.prompt.clone(),
        node: node.text(),
        input: q.input.clone(),
        context,
    }
}

/// What the system text and the user text of a call are rendered from.
pub fn render_inputs(t: &PromptTemplate, q: &LlmInvokeRequest, node: &NodeId) -> (r: (RenderInput, RenderInput))
    ensures
        renders(r.0, t.system@, *q, node@),
        renders(r.1, t.user_template@, *q, node@),
{
    (render_input(t.system.as_str(), q, node), render_input(t.user_template.as_str(), q, node))
}

/// What a backend is to be called with.
#[derive(Debug, PartialEq, Eq)]
pub struct LlmCall {
    /// The system text.
    pub system: String,
    /// The user text.
    pub user: String,
    /// The most tokens an answer may cost.
    pub max_tokens: u32,
    /// The temperature, by the bits of its 32-bit form.
    pub temperature_bits: u32,
}

/// Is this the refusal with that reason and detail?
pub open spec fn refused(r: Result<LlmCall, LlmInvokeError>, error: Seq<char>, detail: Seq<char>) -> bool {
    r matches Err(e) && e.error@ == error && e.detail@ == detail
}

fn refuse(error: &str, detail: &str) -> (r: Result<LlmCall, LlmInvokeError>)
    ensures
        refused(r, error@, detail@),
{
    Err(LlmInvokeError { error: error.to_owned(), detail: detail.to_owned() })
}

/// Decide on a call: the first of these that fails is what the caller is told. The caller context is
/// verified before anything is looked at; a backend that reaches outside is called only where the
/// egress policy permits its URL, and one that does not is never gated.
pub fn handle_llm_invoke(call: &LlmInvocation, egress: &EgressPolicy) -> (r: Result<LlmCall, LlmInvokeError>)
    ensures
        match (call.context_refusal, call.request) {
            (Some(why), _) => refused(r, "caller_context_refused"@, why@),
            (None, Err(why)) => refused(r, "parse_error"@, why@),
            (None, Ok(q)) => match call.backend {
                None => refused(r, "skill_not_found"@, "no backend registered for "@ + q.prompt@),
                Some(b) => if b.endpoint matches Some(url) && !permits(texts(egress.allow_hosts@), url@) {
                    refused(
                        r,
                        "egress_denied"@,
                        "egress policy denies the LLM endpoint for skill "@ + q.prompt@,
                    )
                } else {
                    match call.template {
                        TemplateRead::Missing => refused(
                            r,
                            "template_not_found"@,
                            "no KV entry at prompts/"@ + q.prompt@,
                        ),
                        TemplateRead::Undecodable(why) => refused(r, "template_decode_error"@, why@),
                        TemplateRead::Read(t) => match (call.system, call.user) {
                            (Err(why), _) => refused(r, "render_error"@, why@),
                            (Ok(_), Err(why)) => refused(r, "render_error"@, why@),
                            (Ok(system), Ok(user)) => r matches Ok(c) && c.system@ == system@ && c.user@
                                == user@ && c.max_tokens == t.max_tokens && c.temperature_bits
                                == t.temperature_bits,
                        },
                    }
                },
            },
        },
{
    if let Some(why) = &call.context_refusal {
        return refuse("caller_context_refused", why.as_str());
    }
    let q = match &call.request {
        Ok(q) => q,
        Err(why) => {
            return refuse("parse_error", why.as_str());
        },
    };
    let backend = match &call.backend {
        Some(b) => b,
        None => {
            return refuse(
                "skill_not_found",
                join("no backend registered for ", q.prompt.as_str()).as_str(),
            );
        },
    };
    if let Some(url) = &backend.endpoint {
        if !egress.permits_url(url.as_str()) {
            return refuse(
                "egress_denied",
                join("egress policy denies the LLM endpoint for skill ", q.prompt.as_str()).as_str(),
            );
        }
    }
    let t = match &call.template {
        TemplateRead::Missing => {
            return refuse(
                "template_not_found",
                join("no KV entry at prompts/", q.prompt.as_str()).as_str(),
            );
        },
        TemplateRead::Undecodable(why) => {
            return refuse("template_decode_error", why.as_str());
        },
        TemplateRead::Read(t) => t,
    };
    let system = match &call.system {
        Ok(s) => s,
        Err(why) => {
            return refuse("render_error", why.as_str());
        },
    };
    let user = match &call.user {
        Ok(s) => s,
        Err(why) => {
            return refuse("render_error", why.as_str());
        },
    };
    Ok(
        LlmCall {
            system: system.clone(),
            user: user.clone(),
            max_tokens: t.max_tokens,
            temperature_bits: t.temperature_bits,
        },
    )
}

/// The body of a refusal.
pub open spec fn error_body(error: Seq<char>, detail: Seq<char>) -> JsonModel {
    object().field("error"@, string(error)).field("detail"@, string(detail))
}

impl LlmInvokeError {
    /// The refusal as a reply body.
    pub fn body(&self) -> (r: Json)
        ensures
            r@ == error_body(self.error@, self.detail@),
    {
        Json::empty_object().with_str("error", self.error.as_str()).with_str(
            "detail",
            self.detail.as_str(),
        )
    }
}

/// What the caller is told once the backend has answered.
pub fn invoke_reply(answer: &Result<LlmResult, LlmError>) -> (r: Json)
    ensures
        r@ == match *answer {
            Ok(a) => object().field("output"@, string(a.output@)).field(
                "model_used"@,
                string(a.model_used@),
            ).field("tokens_used"@, JsonModel::Int(a.tokens_used as int)),
            Err(e) => error_body("llm_error"@, e.text()),
        },
{
    match answer {
        Ok(a) => Json::empty_object().with_str("output", a.output.as_str()).with_str(
            "model_used",
            a.model_used.as_str(),
        ).with("tokens_used", Json::UInt(a.tokens_used as u64)),
        Err(e) => Json::empty_object().with_str("error", "llm_error").with_str(
            "detail",
            e.message().as_str(),
        ),
    }
}

/// The key of a skill's prompt.
pub fn prompt_key(skill: &str) -> (r: String)
    ensures
        r@ == "prompts/"@ + skill@,
{
    join("prompts/", skill)
}

/// A refused caller context is refused whatever the request holds: nothing behind it is looked at.
pub proof fn lemma_context_refusal_comes_first(call: LlmInvocation, egress: EgressPolicy, r: Result<LlmCall, LlmInvokeError>)
    requires
        call_ensures(handle_llm_invoke, (&call, &egress), r),
        call.context_refusal is Some,
    ensures
        r is Err,
        r->Err_0.error@ == "caller_context_refused"@,
{
}

/// A backend that reaches outside is called only at a URL that the policy permits.
pub proof fn lemma_calls_stay_inside_the_policy(
    call: LlmInvocation,
    egress: EgressPolicy,
    r: Result<LlmCall, LlmInvokeError>,
)
    requires
        call_ensures(handle_llm_invoke, (&call, &egress), r),
        r is Ok,
    ensures
        call.backend is Some,
        call.backend->0.endpoint matches Some(url) ==> permits(texts(egress.allow_hosts@), url@),
{
}

} // verus!
