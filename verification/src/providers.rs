//! Model providers: messages and requests, the registry of configured
//! providers, request bodies and the reading of replies.
use vstd::prelude::*;
use crate::config::{AppConfig, ProviderConfig, ProviderKind};
use crate::json::{
    array_items, array_items_exec, as_string, as_string_exec, fields_view, json_object, json_top,
    member, member_exec, object_text_of, pairs_view, str_fields, string_member, string_member_exec,
    string_object, texts_read, texts_view, JsonField, JsonFieldView,
};
use crate::map::NamedMap;
use crate::text::{
    chars_of, is_blank, is_blank_chars, join, join_chars, owned, push_all, push_str, string_of,
    views,
};

verus! {

/// Who a message is from.
#[derive(Debug, Clone, Copy, PartialEq, Eq, Structural)]
pub enum MessageRole {
    System,
    User,
    Assistant,
    Tool,
}

/// One message of a conversation with a model.
#[derive(Debug)]
pub struct ModelMessage {
    pub role: MessageRole,
    pub content: String,
}

pub open spec fn message_view(m: ModelMessage) -> (MessageRole, Seq<char>) {
    (m.role, m.content@)
}

pub open spec fn messages_view(ms: Seq<ModelMessage>) -> Seq<(MessageRole, Seq<char>)> {
    ms.map_values(|m: ModelMessage| message_view(m))
}

impl ModelMessage {
    pub fn new(role: MessageRole, content: String) -> (r: ModelMessage)
        ensures
            r.role == role,
            r.content == content,
    {
        ModelMessage { role, content }
    }

    pub fn duplicate(&self) -> (r: ModelMessage)
        ensures
            message_view(r) == message_view(*self),
    {
        ModelMessage { role: self.role, content: self.content.clone() }
    }
}

/// Copies of the messages, in order.
pub fn copy_messages(ms: &Vec<ModelMessage>) -> (r: Vec<ModelMessage>)
    ensures
        messages_view(r@) == messages_view(ms@),
{
    let mut r: Vec<ModelMessage> = Vec::new();
    let mut i: usize = 0;
    while i < ms.len()
        invariant
            i <= ms@.len(),
            messages_view(r@) == messages_view(ms@).take(i as int),
        decreases ms.len() - i,
    {
        let ghost before = messages_view(r@);
        r.push(ms[i].duplicate());
        assert(messages_view(r@) =~= before.push(message_view(ms@[i as int])));
        assert(messages_view(ms@).take(i + 1) =~= messages_view(ms@).take(i as int).push(
            message_view(ms@[i as int]),
        ));
        i = i + 1;
    }
    assert(messages_view(ms@).take(ms@.len() as int) =~= messages_view(ms@));
    r
}

/// A request to a model.
#[derive(Debug)]
pub struct ModelRequest {
    pub model: String,
    pub messages: Vec<ModelMessage>,
}

/// A model's reply.
#[derive(Debug)]
pub struct ModelResponse {
    pub text: String,
}

/// What a provider is, for listing.
#[derive(Debug)]
pub struct ProviderSummary {
    pub name: String,
    pub kind: String,
    pub base_url: String,
    pub api_key_env: Option<String>,
}

/// How a summary is shown: `name: kind base_url key=$VAR`, or
/// `key=<none>` without a key variable.
pub open spec fn summary_text(
    name: Seq<char>,
    kind: Seq<char>,
    base_url: Seq<char>,
    key: Option<Seq<char>>,
) -> Seq<char> {
    name + ": "@ + kind + " "@ + base_url + match key {
        Some(k) => " key=$"@ + k,
        None => " key=<none>"@,
    }
}

impl ProviderSummary {
    /// The summary as one line of text.
    pub fn to_text(&self) -> (r: String)
        ensures
            r@ == summary_text(
                self.name@,
                self.kind@,
                self.base_url@,
                crate::tools::opt_text(self.api_key_env),
            ),
    {
        let mut out = chars_of(self.name.as_str());
        push_str(&mut out, ": ");
        push_str(&mut out, self.kind.as_str());
        push_str(&mut out, " ");
        push_str(&mut out, self.base_url.as_str());
        match &self.api_key_env {
            Some(k) => {
                push_str(&mut out, " key=$");
                push_str(&mut out, k.as_str());
            },
            None => push_str(&mut out, " key=<none>"),
        }
        string_of(&out)
    }
}

/// The role name a provider API uses; tool results go as the user's.
pub open spec fn role_text(role: MessageRole) -> Seq<char> {
    match role {
        MessageRole::System => "system"@,
        MessageRole::User => "user"@,
        MessageRole::Assistant => "assistant"@,
        MessageRole::Tool => "user"@,
    }
}

pub fn role_name(role: &MessageRole) -> (r: &'static str)
    ensures
        r@ == role_text(*role),
{
    match role {
        MessageRole::System => "system",
        MessageRole::User => "user",
        MessageRole::Assistant => "assistant",
        MessageRole::Tool => "user",
    }
}

// ---------------------------------------------------------------------------
// Endpoints and the registry
// ---------------------------------------------------------------------------

/// The settings one provider sends its requests with.
#[derive(Debug)]
pub struct ProviderEndpoint {
    pub name: String,
    pub kind: ProviderKind,
    pub base_url: String,
    pub api_key_env: Option<String>,
    pub reasoning_effort: Option<String>,
    pub max_output_tokens: Option<u32>,
}

/// An endpoint as plain values.
pub type EndpointView = (Seq<char>, ProviderKind, Seq<char>, Option<Seq<char>>, Option<Seq<char>>, Option<u32>);

pub open spec fn endpoint_view(e: ProviderEndpoint) -> EndpointView {
    (
        e.name@,
        e.kind,
        e.base_url@,
        crate::tools::opt_text(e.api_key_env),
        crate::tools::opt_text(e.reasoning_effort),
        e.max_output_tokens,
    )
}

pub open spec fn or_text(o: Option<String>, d: Seq<char>) -> Seq<char> {
    match o {
        Some(s) => s@,
        None => d,
    }
}

/// The endpoint a provider configuration gives: OpenAI and Anthropic
/// default their base URL and key variable; Anthropic defaults its output
/// limit to 8192; local and Ollama servers default to
/// `http://localhost:11434/v1` and need no key.
pub open spec fn endpoint_of(name: Seq<char>, c: ProviderConfig) -> EndpointView {
    match c.kind {
        ProviderKind::Openai => (
            name,
            c.kind,
            or_text(c.base_url, "https://api.openai.com/v1"@),
            Some(or_text(c.api_key_env, "OPENAI_API_KEY"@)),
            crate::tools::opt_text(c.reasoning_effort),
            c.max_output_tokens,
        ),
        ProviderKind::Anthropic => (
            name,
            c.kind,
            or_text(c.base_url, "https://api.anthropic.com/v1"@),
            Some(or_text(c.api_key_env, "ANTHROPIC_API_KEY"@)),
            None,
            Some(
                match c.max_output_tokens {
                    Some(m) => m,
                    None => 8192,
                },
            ),
        ),
        _ => (
            name,
            c.kind,
            or_text(c.base_url, "http://localhost:11434/v1"@),
            crate::tools::opt_text(c.api_key_env),
            None,
            c.max_output_tokens,
        ),
    }
}

fn text_or(o: &Option<String>, d: &str) -> (r: String)
    ensures
        r@ == or_text(*o, d@),
{
    match o {
        Some(s) => s.clone(),
        None => owned(d),
    }
}

impl ProviderEndpoint {
    /// The endpoint for the provider configured under `name`.
    pub fn from_config(name: &str, c: &ProviderConfig) -> (r: ProviderEndpoint)
        ensures
            endpoint_view(r) == endpoint_of(name@, *c),
    {
        match c.kind {
            ProviderKind::Openai => ProviderEndpoint {
                name: owned(name),
                kind: c.kind,
                base_url: text_or(&c.base_url, "https://api.openai.com/v1"),
                api_key_env: Some(text_or(&c.api_key_env, "OPENAI_API_KEY")),
                reasoning_effort: crate::config::clone_opt_string(&c.reasoning_effort),
                max_output_tokens: c.max_output_tokens,
            },
            ProviderKind::Anthropic => ProviderEndpoint {
                name: owned(name),
                kind: c.kind,
                base_url: text_or(&c.base_url, "https://api.anthropic.com/v1"),
                api_key_env: Some(text_or(&c.api_key_env, "ANTHROPIC_API_KEY")),
                reasoning_effort: None,
                max_output_tokens: Some(
                    match c.max_output_tokens {
                        Some(m) => m,
                        None => 8192,
                    },
                ),
            },
            _ => ProviderEndpoint {
                name: owned(name),
                kind: c.kind,
                base_url: text_or(&c.base_url, "http://localhost:11434/v1"),
                api_key_env: crate::config::clone_opt_string(&c.api_key_env),
                reasoning_effort: None,
                max_output_tokens: c.max_output_tokens,
            },
        }
    }

    /// The summary of this endpoint.
    pub fn summary(&self) -> (r: ProviderSummary)
        ensures
            r.name@ == self.name@,
            r.kind@ == kind_text(self.kind),
            r.base_url@ == self.base_url@,
            r.api_key_env == self.api_key_env,
    {
        ProviderSummary {
            name: self.name.clone(),
            kind: owned(
                match self.kind {
                    ProviderKind::Openai => "openai-responses",
                    ProviderKind::Anthropic => "anthropic-messages",
                    _ => "local-openai-compatible",
                },
            ),
            base_url: self.base_url.clone(),
            api_key_env: crate::config::clone_opt_string(&self.api_key_env),
        }
    }
}

/// The API kind a summary names.
pub open spec fn kind_text(k: ProviderKind) -> Seq<char> {
    match k {
        ProviderKind::Openai => "openai-responses"@,
        ProviderKind::Anthropic => "anthropic-messages"@,
        _ => "local-openai-compatible"@,
    }
}

pub open spec fn opt_endpoint(o: Option<ProviderEndpoint>) -> Option<EndpointView> {
    match o {
        Some(e) => Some(endpoint_view(e)),
        None => None,
    }
}

pub open spec fn opt_endpoint_of(name: Seq<char>, o: Option<ProviderConfig>) -> Option<EndpointView> {
    match o {
        Some(c) => Some(endpoint_of(name, c)),
        None => None,
    }
}
/// A registry built from a configuration lists the configured providers in
/// the configuration's key order, and so do its summaries: there is one
/// summary per configured provider, and the i-th is named by the i-th key,
/// shows that provider's kind, and its base URL is the configured one or,
/// when none is configured, the kind's default.
pub proof fn lemma_registry_follows_config(config: AppConfig, reg: ProviderRegistry, sums: Seq<ProviderSummary>)
    requires
        reg.providers.entries@.len() == config.providers.entries@.len(),
        forall|i: int|
            0 <= i < reg.providers.entries@.len() ==> (#[trigger] reg.providers.entries@[i]).0@
                == config.providers.entries@[i].0@ && endpoint_view(reg.providers.entries@[i].1)
                == endpoint_of(config.providers.entries@[i].0@, config.providers.entries@[i].1),
        sums.len() == reg.providers.entries@.len(),
        forall|i: int|
            0 <= i < sums.len() ==> (#[trigger] sums[i]).name@ == reg.providers.entries@[i].1.name@
                && sums[i].kind@ == kind_text(reg.providers.entries@[i].1.kind) && sums[i].base_url@
                == reg.providers.entries@[i].1.base_url@,
    ensures
        forall|i: int|
            0 <= i < reg.providers.entries@.len() ==> {
                let e = (#[trigger] reg.providers.entries@[i]).1;
                let c = config.providers.entries@[i];
                &&& e.name@ == c.0@
                &&& e.kind == c.1.kind
                &&& e.base_url@ == or_text(c.1.base_url, match c.1.kind {
                    ProviderKind::Openai => "https://api.openai.com/v1"@,
                    ProviderKind::Anthropic => "https://api.anthropic.com/v1"@,
                    _ => "http://localhost:11434/v1"@,
                })
            },
        sums.len() == config.providers.entries@.len(),
        forall|i: int|
            0 <= i < sums.len() ==> {
                let c = config.providers.entries@[i];
                &&& (#[trigger] sums[i]).name@ == c.0@
                &&& sums[i].kind@ == kind_text(c.1.kind)
                &&& sums[i].base_url@ == or_text(c.1.base_url, match c.1.kind {
                    ProviderKind::Openai => "https://api.openai.com/v1"@,
                    ProviderKind::Anthropic => "https://api.anthropic.com/v1"@,
                    _ => "http://localhost:11434/v1"@,
                })
            },
{
    assert forall|i: int| 0 <= i < sums.len() implies {
        let c = config.providers.entries@[i];
        &&& (#[trigger] sums[i]).name@ == c.0@
        &&& sums[i].kind@ == kind_text(c.1.kind)
        &&& sums[i].base_url@ == or_text(c.1.base_url, match c.1.kind {
            ProviderKind::Openai => "https://api.openai.com/v1"@,
            ProviderKind::Anthropic => "https://api.anthropic.com/v1"@,
            _ => "http://localhost:11434/v1"@,
        })
    } by {
        let _ = reg.providers.entries@[i];
    }
}

/// A model backend as the library sees it: how it is listed. Sending it a
/// request is done by the program around the library, with the bodies and
/// reply readers below.
pub trait ModelProvider {
    fn summary(&self) -> ProviderSummary;
}

impl ModelProvider for ProviderEndpoint {
    fn summary(&self) -> (r: ProviderSummary)
        ensures
            r.name@ == self.name@,
            r.kind@ == kind_text(self.kind),
            r.base_url@ == self.base_url@,
            r.api_key_env == self.api_key_env,
    {
        ProviderEndpoint::summary(self)
    }
}


/// The configured providers, by name.
#[derive(Debug)]
pub struct ProviderRegistry {
    pub providers: NamedMap<ProviderEndpoint>,
}

/// The message for a provider name that is not configured.
pub open spec fn unknown_provider_message(name: Seq<char>) -> Seq<char> {
    "provider `"@ + name + "` is not configured"@
}

impl ProviderRegistry {
    pub open spec fn wf(&self) -> bool {
        self.providers.wf()
    }

    /// One endpoint per configured provider, under the same name. It never
    /// fails.
    pub fn from_config(config: &AppConfig) -> (r: Result<ProviderRegistry, String>)
        requires
            config.wf(),
        ensures
            match r {
                Ok(reg) => {
                    &&& reg.wf()
                    &&& forall|k: Seq<char>|
                        opt_endpoint(#[trigger] reg.providers.lookup(k)) == opt_endpoint_of(
                            k,
                            config.providers.lookup(k),
                        )
                    &&& reg.providers.entries@.len() == config.providers.entries@.len()
                    &&& forall|i: int|
                        0 <= i < reg.providers.entries@.len() ==> (#[trigger] reg.providers.entries@[i]).0@
                            == config.providers.entries@[i].0@ && endpoint_view(reg.providers.entries@[i].1)
                            == endpoint_of(config.providers.entries@[i].0@, config.providers.entries@[i].1)
                },
                Err(_) => false,
            },
    {
        let mut built: Vec<(String, ProviderEndpoint)> = Vec::new();
        let ghost entries = config.providers.entries@;
        let mut i: usize = 0;
        while i < config.providers.entries.len()
            invariant
                i <= entries.len(),
                entries == config.providers.entries@,
                config.wf(),
                built@.len() == i,
                forall|j: int|
                    0 <= j < i ==> (#[trigger] built@[j]).0@ == entries[j].0@ && endpoint_view(built@[j].1)
                        == endpoint_of(entries[j].0@, entries[j].1),
                forall|k: Seq<char>|
                    opt_endpoint(#[trigger] crate::map::lookup_in(built@, k)) == opt_endpoint_of(
                        k,
                        crate::map::lookup_in(entries.take(i as int), k),
                    ),
            decreases entries.len() - i,
        {
            let name = &config.providers.entries[i].0;
            let endpoint = ProviderEndpoint::from_config(name.as_str(), &config.providers.entries[i].1);
            let ghost before = built@;
            built.push((name.clone(), endpoint));
            proof {
                assert(built@.drop_last() =~= before);
                assert(entries.take(i + 1).drop_last() =~= entries.take(i as int));
                assert(entries.take(i + 1).last() == entries[i as int]);
                assert forall|k: Seq<char>|
                    opt_endpoint(#[trigger] crate::map::lookup_in(built@, k)) == opt_endpoint_of(
                        k,
                        crate::map::lookup_in(entries.take(i + 1), k),
                    ) by {
                    if k != name@ {
                        assert(opt_endpoint(crate::map::lookup_in(before, k)) == opt_endpoint_of(
                            k,
                            crate::map::lookup_in(entries.take(i as int), k),
                        ));
                    }
                }
            }
            i = i + 1;
        }
        assert(entries.take(entries.len() as int) =~= entries);
        let providers = NamedMap { entries: built };
        assert(providers.wf()) by {
            assert forall|a: int, b: int| 0 <= a < b < providers.entries@.len() implies crate::map::text_lt(
                #[trigger] providers.entries@[a].0@,
                #[trigger] providers.entries@[b].0@,
            ) by {
                assert(providers.entries@[a].0@ == entries[a].0@);
                assert(providers.entries@[b].0@ == entries[b].0@);
            }
        }
        Ok(ProviderRegistry { providers })
    }

    /// The endpoint of the provider named `name`.
    pub fn get(&self, name: &str) -> (r: Result<&ProviderEndpoint, String>)
        requires
            self.wf(),
        ensures
            match r {
                Ok(e) => self.providers.lookup(name@) == Some(*e),
                Err(m) => self.providers.lookup(name@) is None && m@ == unknown_provider_message(
                    name@,
                ),
            },
    {
        match self.providers.get(name) {
            Some(e) => Ok(e),
            None => {
                let mut m = chars_of("provider `");
                push_str(&mut m, name);
                push_str(&mut m, "` is not configured");
                Err(string_of(&m))
            },
        }
    }

    /// The summaries of all providers, in name order.
    pub fn summaries(&self) -> (r: Vec<ProviderSummary>)
        ensures
            r@.len() == self.providers.entries@.len(),
            forall|i: int|
                0 <= i < r@.len() ==> (#[trigger] r@[i]).name@ == self.providers.entries@[i].1.name@
                    && r@[i].kind@ == kind_text(self.providers.entries@[i].1.kind)
                    && r@[i].base_url@ == self.providers.entries@[i].1.base_url@
                    && r@[i].api_key_env == self.providers.entries@[i].1.api_key_env,
    {
        let mut r: Vec<ProviderSummary> = Vec::new();
        let mut i: usize = 0;
        while i < self.providers.entries.len()
            invariant
                i <= self.providers.entries@.len(),
                r@.len() == i,
                forall|j: int|
                    0 <= j < i ==> (#[trigger] r@[j]).name@ == self.providers.entries@[j].1.name@
                        && r@[j].kind@ == kind_text(self.providers.entries@[j].1.kind)
                        && r@[j].base_url@ == self.providers.entries@[j].1.base_url@
                        && r@[j].api_key_env == self.providers.entries@[j].1.api_key_env,
            decreases self.providers.entries.len() - i,
        {
            r.push(self.providers.entries[i].1.summary());
            i = i + 1;
        }
        r
    }
}

// ---------------------------------------------------------------------------
// Request bodies
// ---------------------------------------------------------------------------

/// The contents of the system messages, in order.
pub open spec fn system_texts(ms: Seq<(MessageRole, Seq<char>)>) -> Seq<Seq<char>>
    decreases ms.len(),
{
    if ms.len() == 0 {
        seq![]
    } else if ms.last().0 == MessageRole::System {
        system_texts(ms.drop_last()).push(ms.last().1)
    } else {
        system_texts(ms.drop_last())
    }
}

/// The other messages as `role: content` lines, in order.
pub open spec fn dialogue_lines(ms: Seq<(MessageRole, Seq<char>)>) -> Seq<Seq<char>>
    decreases ms.len(),
{
    if ms.len() == 0 {
        seq![]
    } else if ms.last().0 == MessageRole::System {
        dialogue_lines(ms.drop_last())
    } else {
        dialogue_lines(ms.drop_last()).push(role_text(ms.last().0) + ": "@ + ms.last().1)
    }
}

/// The system text: the system messages joined by blank lines.
pub fn system_text(ms: &Vec<ModelMessage>) -> (r: Vec<char>)
    ensures
        r@ == join(system_texts(messages_view(ms@)), "\n\n"@),
{
    let ghost mv = messages_view(ms@);
    let mut parts: Vec<Vec<char>> = Vec::new();
    let mut i: usize = 0;
    while i < ms.len()
        invariant
            i <= ms@.len(),
            mv == messages_view(ms@),
            views(parts@) == system_texts(mv.take(i as int)),
        decreases ms.len() - i,
    {
        assert(mv.take(i + 1).drop_last() =~= mv.take(i as int));
        assert(mv.take(i + 1).last() == mv[i as int]);
        if ms[i].role == MessageRole::System {
            let ghost before = views(parts@);
            parts.push(chars_of(ms[i].content.as_str()));
            assert(views(parts@) =~= before.push(ms@[i as int].content@));
        }
        i = i + 1;
    }
    assert(mv.take(ms@.len() as int) =~= mv);
    join_chars(&parts, "\n\n")
}

fn dialogue_text(ms: &Vec<ModelMessage>) -> (r: Vec<char>)
    ensures
        r@ == join(dialogue_lines(messages_view(ms@)), "\n\n"@),
{
    let ghost mv = messages_view(ms@);
    let mut parts: Vec<Vec<char>> = Vec::new();
    let mut i: usize = 0;
    while i < ms.len()
        invariant
            i <= ms@.len(),
            mv == messages_view(ms@),
            views(parts@) == dialogue_lines(mv.take(i as int)),
        decreases ms.len() - i,
    {
        assert(mv.take(i + 1).drop_last() =~= mv.take(i as int));
        assert(mv.take(i + 1).last() == mv[i as int]);
        if ms[i].role != MessageRole::System {
            let mut line = chars_of(role_name(&ms[i].role));
            push_str(&mut line, ": ");
            push_str(&mut line, ms[i].content.as_str());
            let ghost before = views(parts@);
            parts.push(line);
            assert(views(parts@) =~= before.push(
                role_text(ms@[i as int].role) + ": "@ + ms@[i as int].content@,
            ));
        }
        i = i + 1;
    }
    assert(mv.take(ms@.len() as int) =~= mv);
    join_chars(&parts, "\n\n")
}

/// The `reasoning` member's object: `{"effort": ...}`.
pub open spec fn reasoning_text(effort: Seq<char>) -> Seq<char> {
    object_text_of(str_fields(seq![("effort"@, effort)]))
}

/// The fields of an OpenAI Responses request: the model, the system text as
/// instructions, the other messages as input, then the reasoning effort and
/// the output limit when configured.
pub open spec fn openai_fields(e: EndpointView, model: Seq<char>, ms: Seq<(MessageRole, Seq<char>)>) -> Seq<
    (Seq<char>, JsonFieldView),
> {
    let base = seq![
        ("model"@, JsonFieldView::Str(model)),
        ("instructions"@, JsonFieldView::Str(join(system_texts(ms), "\n\n"@))),
        ("input"@, JsonFieldView::Str(join(dialogue_lines(ms), "\n\n"@))),
    ];
    let with_effort = match e.4 {
        Some(t) => base.push(("reasoning"@, JsonFieldView::Text(reasoning_text(t)))),
        None => base,
    };
    match e.5 {
        Some(m) => with_effort.push(("max_output_tokens"@, JsonFieldView::Count(m as u64))),
        None => with_effort,
    }
}

/// The body of an OpenAI Responses request, as `serde_json` writes it.
pub open spec fn openai_body(e: EndpointView, model: Seq<char>, ms: Seq<(MessageRole, Seq<char>)>) -> Seq<char> {
    object_text_of(openai_fields(e, model, ms))
}

/// The OpenAI request body is the object of its fields, and sends what the
/// endpoint is configured with: the model as `model`, the system texts
/// joined by blank lines as `instructions`, the other messages' lines joined
/// by blank lines as `input`; under `reasoning`,
/// exactly when a reasoning effort `t` is configured, the object holding
/// `t` under `effort`; and under `max_output_tokens`, exactly when an
/// output limit is configured, that limit. No key occurs twice.
pub proof fn law_openai_body_sends_configuration(
    e: EndpointView,
    model: Seq<char>,
    ms: Seq<(MessageRole, Seq<char>)>,
)
    ensures
        exists|fields: Seq<(Seq<char>, JsonFieldView)>|
            #![trigger object_text_of(fields)]
            {
                &&& openai_body(e, model, ms) == object_text_of(fields)
                &&& crate::json::distinct_keys(fields)
                &&& exists|k: int| 0 <= k < fields.len() && #[trigger] fields[k] == ("model"@, JsonFieldView::Str(model))
                &&& exists|k: int|
                    0 <= k < fields.len() && #[trigger] fields[k] == (
                        "instructions"@,
                        JsonFieldView::Str(join(system_texts(ms), "\n\n"@)),
                    )
                &&& exists|k: int|
                    0 <= k < fields.len() && #[trigger] fields[k] == (
                        "input"@,
                        JsonFieldView::Str(join(dialogue_lines(ms), "\n\n"@)),
                    )
                &&& (e.4 matches Some(t) ==> exists|k: int|
                    0 <= k < fields.len() && #[trigger] fields[k] == (
                        "reasoning"@,
                        JsonFieldView::Text(object_text_of(seq![("effort"@, JsonFieldView::Str(t))])),
                    ))
                &&& (e.4 is None ==> forall|k: int| 0 <= k < fields.len() ==> (#[trigger] fields[k]).0 != "reasoning"@)
                &&& (e.5 matches Some(m) ==> exists|k: int|
                    0 <= k < fields.len() && #[trigger] fields[k] == (
                        "max_output_tokens"@,
                        JsonFieldView::Count(m as u64),
                    ))
                &&& (e.5 is None ==> forall|k: int|
                    0 <= k < fields.len() ==> (#[trigger] fields[k]).0 != "max_output_tokens"@)
            },
{
    reveal_strlit("model");
    reveal_strlit("instructions");
    reveal_strlit("input");
    reveal_strlit("reasoning");
    reveal_strlit("max_output_tokens");
    let fields = openai_fields(e, model, ms);
    assert(fields[0] == ("model"@, JsonFieldView::Str(model)));
    assert(fields[1] == ("instructions"@, JsonFieldView::Str(join(system_texts(ms), "\n\n"@))));
    assert(fields[2] == ("input"@, JsonFieldView::Str(join(dialogue_lines(ms), "\n\n"@))));
    assert("model"@[0] != "instructions"@[0] && "model"@[0] != "input"@[0] && "model"@[0] != "reasoning"@[0]);
    assert("model"@[1] != "max_output_tokens"@[1]);
    assert("instructions"@[2] != "input"@[2] && "instructions"@[0] != "reasoning"@[0] && "instructions"@[0]
        != "max_output_tokens"@[0]);
    assert("input"@[0] != "reasoning"@[0] && "input"@[0] != "max_output_tokens"@[0]);
    assert("reasoning"@[0] != "max_output_tokens"@[0]);
    match e.4 {
        Some(t) => {
            assert(str_fields(seq![("effort"@, t)]) =~= seq![("effort"@, JsonFieldView::Str(t))]);
            assert(fields[3] == ("reasoning"@, JsonFieldView::Text(object_text_of(seq![("effort"@, JsonFieldView::Str(t))]))));
        },
        None => {},
    }
    match e.5 {
        Some(m) => {
            assert(fields[fields.len() - 1] == ("max_output_tokens"@, JsonFieldView::Count(m as u64)));
        },
        None => {},
    }
    assert(crate::json::distinct_keys(fields));
    assert(openai_body(e, model, ms) == object_text_of(fields));
}

/// Writes the object of fields that hold no JSON text of their own, or only
/// texts that read as JSON.
fn object_of_fields(fields: &Vec<(String, JsonField)>) -> (r: String)
    requires
        texts_read(fields_view(fields@)),
    ensures
        r@ == object_text_of(fields_view(fields@)),
{
    match json_object(fields) {
        Some(t) => t,
        None => {
            assert(false);
            String::new()
        },
    }
}

impl ProviderEndpoint {
    pub fn openai_request_body(&self, request: &ModelRequest) -> (r: String)
        ensures
            r@ == openai_body(endpoint_view(*self), request.model@, messages_view(request.messages@)),
    {
        let ghost e = endpoint_view(*self);
        let ghost mv = messages_view(request.messages@);
        let mut fields: Vec<(String, JsonField)> = vec![
            (owned("model"), JsonField::Str(request.model.clone())),
            (owned("instructions"), JsonField::Str(string_of(&system_text(&request.messages)))),
            (owned("input"), JsonField::Str(string_of(&dialogue_text(&request.messages)))),
        ];
        assert(fields_view(fields@) =~= seq![
            ("model"@, JsonFieldView::Str(request.model@)),
            ("instructions"@, JsonFieldView::Str(join(system_texts(mv), "\n\n"@))),
            ("input"@, JsonFieldView::Str(join(dialogue_lines(mv), "\n\n"@))),
        ]);
        let ghost mut good: Seq<bool> = seq![true, true, true];
        match &self.reasoning_effort {
            Some(t) => {
                let inner = vec![(owned("effort"), t.clone())];
                assert(pairs_view(inner@) =~= seq![("effort"@, t@)]);
                let reasoning = string_object(&inner);
                let ghost before = fields_view(fields@);
                fields.push((owned("reasoning"), JsonField::Text(reasoning)));
                assert(fields_view(fields@) =~= before.push(("reasoning"@, JsonFieldView::Text(reasoning_text(t@)))));
                assert(json_top(reasoning_text(t@)) is Some);
            },
            None => {},
        }
        match self.max_output_tokens {
            Some(m) => {
                let ghost before = fields_view(fields@);
                fields.push((owned("max_output_tokens"), JsonField::Count(m as u64)));
                assert(fields_view(fields@) =~= before.push(("max_output_tokens"@, JsonFieldView::Count(m as u64))));
            },
            None => {},
        }
        assert(fields_view(fields@) =~= openai_fields(e, request.model@, mv));
        proof {
            let fv = fields_view(fields@);
            assert forall|k: int| 0 <= k < fv.len() implies match #[trigger] fv[k].1 {
                JsonFieldView::Text(t) => json_top(t) is Some,
                JsonFieldView::Texts(ts) => forall|j: int| 0 <= j < ts.len() ==> json_top(#[trigger] ts[j]) is Some,
                _ => true,
            } by {
            }
        }
        object_of_fields(&fields)
    }
}

/// A chat message object: `{"role": ..., "content": ...}`.
pub open spec fn chat_item(role: Seq<char>, content: Seq<char>) -> Seq<char> {
    object_text_of(str_fields(seq![("role"@, role), ("content"@, content)]))
}

fn chat_item_exec(role: &str, content: &str) -> (r: String)
    ensures
        r@ == chat_item(role@, content@),
        json_top(r@) is Some,
{
    let entries = vec![(owned("role"), owned(role)), (owned("content"), owned(content))];
    proof {
        reveal_strlit("role");
        reveal_strlit("content");
        assert(pairs_view(entries@) =~= seq![("role"@, role@), ("content"@, content@)]);
        assert("role"@[0] != "content"@[0]);
    }
    string_object(&entries)
}

/// The non-system messages as chat items, with the role each API uses:
/// Anthropic knows only `assistant` and `user`; the chat API takes
/// [`role_text`].
pub open spec fn chat_items(ms: Seq<(MessageRole, Seq<char>)>, anthropic: bool) -> Seq<Seq<char>>
    decreases ms.len(),
{
    if ms.len() == 0 {
        seq![]
    } else if ms.last().0 == MessageRole::System {
        chat_items(ms.drop_last(), anthropic)
    } else {
        let role = if anthropic {
            if ms.last().0 == MessageRole::Assistant {
                "assistant"@
            } else {
                "user"@
            }
        } else {
            role_text(ms.last().0)
        };
        chat_items(ms.drop_last(), anthropic).push(chat_item(role, ms.last().1))
    }
}

/// Every text reads as JSON.
pub open spec fn all_read(ts: Seq<Seq<char>>) -> bool {
    forall|j: int| 0 <= j < ts.len() ==> json_top(#[trigger] ts[j]) is Some
}

fn chat_items_exec(ms: &Vec<ModelMessage>, anthropic: bool, out: &mut Vec<String>)
    requires
        all_read(texts_view(old(out)@)),
    ensures
        texts_view(final(out)@) == texts_view(old(out)@) + chat_items(messages_view(ms@), anthropic),
        all_read(texts_view(final(out)@)),
{
    let ghost mv = messages_view(ms@);
    let ghost start = texts_view(out@);
    let mut i: usize = 0;
    while i < ms.len()
        invariant
            i <= ms@.len(),
            mv == messages_view(ms@),
            texts_view(out@) == start + chat_items(mv.take(i as int), anthropic),
            all_read(texts_view(out@)),
        decreases ms.len() - i,
    {
        assert(mv.take(i + 1).drop_last() =~= mv.take(i as int));
        assert(mv.take(i + 1).last() == mv[i as int]);
        if ms[i].role != MessageRole::System {
            let role = if anthropic {
                if ms[i].role == MessageRole::Assistant {
                    "assistant"
                } else {
                    "user"
                }
            } else {
                role_name(&ms[i].role)
            };
            let item = chat_item_exec(role, ms[i].content.as_str());
            let ghost before = texts_view(out@);
            out.push(item);
            assert(texts_view(out@) =~= before.push(item@));
        }
        i = i + 1;
    }
    assert(mv.take(ms@.len() as int) =~= mv);
}

/// The fields of an Anthropic Messages request: the model, the output
/// limit, the system text and the other messages.
pub open spec fn anthropic_fields(max_tokens: u32, model: Seq<char>, ms: Seq<(MessageRole, Seq<char>)>) -> Seq<
    (Seq<char>, JsonFieldView),
> {
    seq![
        ("model"@, JsonFieldView::Str(model)),
        ("max_tokens"@, JsonFieldView::Count(max_tokens as u64)),
        ("system"@, JsonFieldView::Str(join(system_texts(ms), "\n\n"@))),
        ("messages"@, JsonFieldView::Texts(chat_items(ms, true))),
    ]
}

/// The body of an Anthropic Messages request, as `serde_json` writes it.
pub open spec fn anthropic_body(max_tokens: u32, model: Seq<char>, ms: Seq<(MessageRole, Seq<char>)>) -> Seq<char> {
    object_text_of(anthropic_fields(max_tokens, model, ms))
}

/// The items of a chat-completions request: the system text first, as a
/// user message, when there is any; then the other messages.
pub open spec fn local_items(ms: Seq<(MessageRole, Seq<char>)>) -> Seq<Seq<char>> {
    let sys = join(system_texts(ms), "\n\n"@);
    if sys.len() == 0 {
        chat_items(ms, false)
    } else {
        seq![chat_item("user"@, "Harness and project instructions:\n"@ + sys)] + chat_items(ms, false)
    }
}

/// The fields of a chat-completions request to a local server: the model,
/// the messages, no streaming, then the output limit when configured.
pub open spec fn local_fields(max_tokens: Option<u32>, model: Seq<char>, ms: Seq<(MessageRole, Seq<char>)>) -> Seq<
    (Seq<char>, JsonFieldView),
> {
    let base = seq![
        ("model"@, JsonFieldView::Str(model)),
        ("messages"@, JsonFieldView::Texts(local_items(ms))),
        ("stream"@, JsonFieldView::Bool(false)),
    ];
    match max_tokens {
        Some(m) => base.push(("max_tokens"@, JsonFieldView::Count(m as u64))),
        None => base,
    }
}

/// The body of a chat-completions request, as `serde_json` writes it.
pub open spec fn local_body(max_tokens: Option<u32>, model: Seq<char>, ms: Seq<(MessageRole, Seq<char>)>) -> Seq<char> {
    object_text_of(local_fields(max_tokens, model, ms))
}

impl ProviderEndpoint {
    pub fn anthropic_request_body(&self, request: &ModelRequest) -> (r: String)
        ensures
            r@ == anthropic_body(
                match self.max_output_tokens {
                    Some(m) => m,
                    None => 8192,
                },
                request.model@,
                messages_view(request.messages@),
            ),
    {
        let max: u32 = match self.max_output_tokens {
            Some(m) => m,
            None => 8192,
        };
        let mut items: Vec<String> = Vec::new();
        assert(texts_view(items@) =~= Seq::<Seq<char>>::empty());
        chat_items_exec(&request.messages, true, &mut items);
        assert(texts_view(items@) =~= chat_items(messages_view(request.messages@), true));
        let fields: Vec<(String, JsonField)> = vec![
            (owned("model"), JsonField::Str(request.model.clone())),
            (owned("max_tokens"), JsonField::Count(max as u64)),
            (owned("system"), JsonField::Str(string_of(&system_text(&request.messages)))),
            (owned("messages"), JsonField::Texts(items)),
        ];
        let ghost fv = fields_view(fields@);
        assert(fv =~= anthropic_fields(max, request.model@, messages_view(request.messages@)));
        assert(texts_read(fv)) by {
            assert forall|k: int| 0 <= k < fv.len() implies match #[trigger] fv[k].1 {
                JsonFieldView::Text(t) => json_top(t) is Some,
                JsonFieldView::Texts(ts) => forall|j: int| 0 <= j < ts.len() ==> json_top(#[trigger] ts[j]) is Some,
                _ => true,
            } by {
                assert(k == 0 || k == 1 || k == 2 || k == 3);
            }
        }
        object_of_fields(&fields)
    }

    pub fn local_request_body(&self, request: &ModelRequest) -> (r: String)
        ensures
            r@ == local_body(self.max_output_tokens, request.model@, messages_view(request.messages@)),
    {
        let sys = system_text(&request.messages);
        let mut items: Vec<String> = Vec::new();
        assert(texts_view(items@) =~= Seq::<Seq<char>>::empty());
        if sys.len() > 0 {
            let mut content = chars_of("Harness and project instructions:\n");
            push_all(&mut content, &sys);
            let c = string_of(&content);
            let item = chat_item_exec("user", c.as_str());
            items.push(item);
            assert(texts_view(items@) =~= seq![item@]);
        }
        chat_items_exec(&request.messages, false, &mut items);
        assert(texts_view(items@) =~= local_items(messages_view(request.messages@)));
        let mut fields: Vec<(String, JsonField)> = vec![
            (owned("model"), JsonField::Str(request.model.clone())),
            (owned("messages"), JsonField::Texts(items)),
            (owned("stream"), JsonField::Bool(false)),
        ];
        match self.max_output_tokens {
            Some(m) => {
                fields.push((owned("max_tokens"), JsonField::Count(m as u64)));
            },
            None => {},
        }
        let ghost fv = fields_view(fields@);
        assert(fv =~= local_fields(self.max_output_tokens, request.model@, messages_view(request.messages@)));
        assert(texts_read(fv)) by {
            assert forall|k: int| 0 <= k < fv.len() implies match #[trigger] fv[k].1 {
                JsonFieldView::Text(t) => json_top(t) is Some,
                JsonFieldView::Texts(ts) => forall|j: int| 0 <= j < ts.len() ==> json_top(#[trigger] ts[j]) is Some,
                _ => true,
            } by {
                assert(k == 0 || k == 1 || k == 2 || k == 3);
            }
        }
        object_of_fields(&fields)
    }

    /// The URL of an API path: the base URL without trailing slashes, then
    /// the path.
    pub fn url(&self, path: &str) -> (r: String)
        ensures
            r@ == crate::text::trim_end_matches(self.base_url@, '/') + path@,
    {
        let mut out = crate::text::trim_end_matches_exec(&chars_of(self.base_url.as_str()), '/');
        push_str(&mut out, path);
        string_of(&out)
    }
}

// ---------------------------------------------------------------------------
// Reading replies
// ---------------------------------------------------------------------------

/// The `text` strings of the content blocks, in order.
pub open spec fn block_texts(blocks: Seq<Seq<char>>) -> Seq<Seq<char>>
    decreases blocks.len(),
{
    if blocks.len() == 0 {
        seq![]
    } else {
        let prev = block_texts(blocks.drop_last());
        match string_member(blocks.last(), "text"@) {
            Some(t) => prev.push(t),
            None => prev,
        }
    }
}

/// The texts of one output item's `content` array.
pub open spec fn item_texts(item: Seq<char>) -> Seq<Seq<char>> {
    match member(item, "content"@) {
        Some(c) => match array_items(c) {
            Some(blocks) => block_texts(blocks),
            None => seq![],
        },
        None => seq![],
    }
}

pub open spec fn items_texts(items: Seq<Seq<char>>) -> Seq<Seq<char>>
    decreases items.len(),
{
    if items.len() == 0 {
        seq![]
    } else {
        items_texts(items.drop_last()) + item_texts(items.last())
    }
}

/// The text of an OpenAI Responses reply: `output_text` when it is a
/// string, else the texts of the output items' content blocks, joined;
/// `None` when there are none.
pub open spec fn openai_reply_text(body: Seq<char>) -> Option<Seq<char>> {
    match string_member(body, "output_text"@) {
        Some(t) => Some(t),
        None => {
            let chunks = match member(body, "output"@) {
                Some(o) => match array_items(o) {
                    Some(items) => items_texts(items),
                    None => seq![],
                },
                None => seq![],
            };
            if chunks.len() == 0 {
                None
            } else {
                Some(join(chunks, Seq::<char>::empty()))
            }
        },
    }
}

fn block_texts_exec(blocks: &Vec<String>, out: &mut Vec<Vec<char>>)
    ensures
        views(final(out)@) == views(old(out)@) + block_texts(texts_view(blocks@)),
{
    let ghost bv = texts_view(blocks@);
    let ghost start = views(out@);
    let mut i: usize = 0;
    while i < blocks.len()
        invariant
            i <= blocks@.len(),
            bv == texts_view(blocks@),
            views(out@) == start + block_texts(bv.take(i as int)),
        decreases blocks.len() - i,
    {
        assert(bv.take(i + 1).drop_last() =~= bv.take(i as int));
        assert(bv.take(i + 1).last() == blocks@[i as int]@);
        match string_member_exec(blocks[i].as_str(), "text") {
            Some(t) => {
                let ghost before = views(out@);
                out.push(chars_of(t.as_str()));
                assert(views(out@) =~= before.push(t@));
            },
            None => {},
        }
        i = i + 1;
    }
    assert(bv.take(blocks@.len() as int) =~= bv);
}

fn join_empty(parts: &Vec<Vec<char>>) -> (r: String)
    ensures
        r@ == join(views(parts@), Seq::<char>::empty()),
{
    let mut out: Vec<char> = Vec::new();
    let mut i: usize = 0;
    while i < parts.len()
        invariant
            i <= parts@.len(),
            out@ == join(views(parts@).take(i as int), Seq::<char>::empty()),
        decreases parts.len() - i,
    {
        assert(views(parts@).take(i + 1).drop_last() =~= views(parts@).take(i as int));
        push_all(&mut out, &parts[i]);
        i = i + 1;
        if i == 1 {
            assert(out@ =~= join(views(parts@).take(i as int), Seq::<char>::empty()));
        } else {
            assert(out@ =~= join(views(parts@).take(i as int), Seq::<char>::empty()));
        }
    }
    assert(views(parts@).take(parts@.len() as int) =~= views(parts@));
    string_of(&out)
}

/// The text of an OpenAI Responses reply (a JSON text).
pub fn extract_openai_response_text(body: &str) -> (r: Result<String, String>)
    ensures
        match r {
            Ok(t) => openai_reply_text(body@) == Some(t@),
            Err(m) => openai_reply_text(body@) is None
                && m@ == "OpenAI response did not contain text output"@,
        },
{
    if let Some(t) = string_member_exec(body, "output_text") {
        return Ok(t);
    }
    let mut chunks: Vec<Vec<char>> = Vec::new();
    match member_exec(body, "output") {
        Some(o) => match array_items_exec(o.as_str()) {
            Some(items) => {
                let ghost iv = texts_view(items@);
                let mut i: usize = 0;
                while i < items.len()
                    invariant
                        i <= items@.len(),
                        iv == texts_view(items@),
                        views(chunks@) == items_texts(iv.take(i as int)),
                    decreases items.len() - i,
                {
                    assert(iv.take(i + 1).drop_last() =~= iv.take(i as int));
                    assert(iv.take(i + 1).last() == items@[i as int]@);
                    match member_exec(items[i].as_str(), "content") {
                        Some(c) => match array_items_exec(c.as_str()) {
                            Some(blocks) => block_texts_exec(&blocks, &mut chunks),
                            None => {
                                assert(views(chunks@) =~= views(chunks@) + Seq::<Seq<char>>::empty());
                            },
                        },
                        None => {
                            assert(views(chunks@) =~= views(chunks@) + Seq::<Seq<char>>::empty());
                        },
                    }
                    i = i + 1;
                }
                assert(iv.take(items@.len() as int) =~= iv);
            },
            None => {},
        },
        None => {},
    }
    if chunks.len() == 0 {
        return Err(owned("OpenAI response did not contain text output"));
    }
    Ok(join_empty(&chunks))
}

/// The texts of the `text` blocks of an Anthropic reply's content, in order.
pub open spec fn anthropic_texts(blocks: Seq<Seq<char>>) -> Seq<Seq<char>>
    decreases blocks.len(),
{
    if blocks.len() == 0 {
        seq![]
    } else {
        let prev = anthropic_texts(blocks.drop_last());
        if string_member(blocks.last(), "type"@) == Some("text"@) {
            match string_member(blocks.last(), "text"@) {
                Some(t) => prev.push(t),
                None => prev,
            }
        } else {
            prev
        }
    }
}

/// The text of an Anthropic Messages reply: its text blocks joined; `None`
/// when there are none.
pub open spec fn anthropic_reply_text(body: Seq<char>) -> Option<Seq<char>> {
    let chunks = match member(body, "content"@) {
        Some(c) => match array_items(c) {
            Some(blocks) => anthropic_texts(blocks),
            None => seq![],
        },
        None => seq![],
    };
    if chunks.len() == 0 {
        None
    } else {
        Some(join(chunks, Seq::<char>::empty()))
    }
}

pub fn extract_anthropic_text(body: &str) -> (r: Result<String, String>)
    ensures
        match r {
            Ok(t) => anthropic_reply_text(body@) == Some(t@),
            Err(m) => anthropic_reply_text(body@) is None
                && m@ == "Anthropic response did not contain text output"@,
        },
{
    let mut chunks: Vec<Vec<char>> = Vec::new();
    match member_exec(body, "content") {
        Some(c) => match array_items_exec(c.as_str()) {
            Some(blocks) => {
                let ghost bv = texts_view(blocks@);
                let mut i: usize = 0;
                while i < blocks.len()
                    invariant
                        i <= blocks@.len(),
                        bv == texts_view(blocks@),
                        views(chunks@) == anthropic_texts(bv.take(i as int)),
                    decreases blocks.len() - i,
                {
                    assert(bv.take(i + 1).drop_last() =~= bv.take(i as int));
                    assert(bv.take(i + 1).last() == blocks@[i as int]@);
                    let is_text = match string_member_exec(blocks[i].as_str(), "type") {
                        Some(t) => crate::text::same_text(t.as_str(), "text"),
                        None => false,
                    };
                    if is_text {
                        match string_member_exec(blocks[i].as_str(), "text") {
                            Some(t) => {
                                let ghost before = views(chunks@);
                                chunks.push(chars_of(t.as_str()));
                                assert(views(chunks@) =~= before.push(t@));
                            },
                            None => {},
                        }
                    }
                    i = i + 1;
                }
                assert(bv.take(blocks@.len() as int) =~= bv);
            },
            None => {},
        },
        None => {},
    }
    if chunks.len() == 0 {
        return Err(owned("Anthropic response did not contain text output"));
    }
    Ok(join_empty(&chunks))
}

/// The first choice's message in a chat-completions reply.
pub open spec fn first_choice_message(body: Seq<char>) -> Option<Seq<char>> {
    match member(body, "choices"@) {
        Some(c) => match array_items(c) {
            Some(items) => if items.len() > 0 {
                member(items[0], "message"@)
            } else {
                None
            },
            None => None,
        },
        None => None,
    }
}

pub open spec fn string_or_empty(o: Option<Seq<char>>) -> Seq<char> {
    match o {
        Some(s) => s,
        None => Seq::<char>::empty(),
    }
}

/// The text of a chat-completions reply: the first choice's `content` when
/// it is not blank, else its `reasoning` (empty when absent).
pub open spec fn local_reply_text(body: Seq<char>) -> Seq<char> {
    match first_choice_message(body) {
        Some(m) => {
            let content = string_or_empty(string_member(m, "content"@));
            if !is_blank(content) {
                content
            } else {
                string_or_empty(string_member(m, "reasoning"@))
            }
        },
        None => Seq::<char>::empty(),
    }
}

pub fn extract_local_openai_text(body: &str) -> (r: String)
    ensures
        r@ == local_reply_text(body@),
{
    let message = match member_exec(body, "choices") {
        Some(c) => match array_items_exec(c.as_str()) {
            Some(items) => if items.len() > 0 {
                member_exec(items[0].as_str(), "message")
            } else {
                None
            },
            None => None,
        },
        None => None,
    };
    match message {
        Some(m) => {
            let content = match string_member_exec(m.as_str(), "content") {
                Some(t) => t,
                None => String::new(),
            };
            if !is_blank_chars(&chars_of(content.as_str())) {
                content
            } else {
                match string_member_exec(m.as_str(), "reasoning") {
                    Some(t) => t,
                    None => String::new(),
                }
            }
        },
        None => String::new(),
    }
}

} // verus!
