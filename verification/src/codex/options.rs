//! The options of a Codex request.
use vstd::prelude::*;
use crate::dict;
use crate::dict::Dict;
use crate::json::{Json, JsonView, Number};
use crate::json_text;
use crate::json_text::number_as_double;
use crate::oauth::config::OAuthProviderConfig;
use crate::text;
use crate::text::{same_text, strip_prefix};
use crate::types::{
    clone_opt_token, ApiStreamOptions, CacheRetention, CancellationToken, Decimal, Model,
    ModelThinkingLevel, ProviderHeaders, ToolChoice, ToolChoiceView,
};
use crate::views;
use crate::views::{clone_opt_text, opt_owned};

verus! {

/// How a request travels.
#[derive(Debug, Clone, Copy, PartialEq, Eq, Structural)]
pub enum CodexTransport {
    /// By websocket, or by server-sent events where that fails.
    Auto,
    Sse,
    Websocket,
    WebsocketCached,
}

/// The transport that a name stands for.
pub open spec fn transport_named(s: Seq<char>) -> CodexTransport {
    if s == "sse"@ {
        CodexTransport::Sse
    } else if s == "websocket"@ {
        CodexTransport::Websocket
    } else if s == "websocket-cached"@ {
        CodexTransport::WebsocketCached
    } else {
        CodexTransport::Auto
    }
}

impl CodexTransport {
    /// The transport that a name stands for; an unknown name is `Auto`.
    pub fn parse(s: &str) -> (r: CodexTransport)
        ensures
            r == transport_named(s@),
    {
        if same_text(s, "sse") {
            CodexTransport::Sse
        } else if same_text(s, "websocket") {
            CodexTransport::Websocket
        } else if same_text(s, "websocket-cached") {
            CodexTransport::WebsocketCached
        } else {
            CodexTransport::Auto
        }
    }
}

/// Every option of a Codex request.
pub struct CodexStreamOptions {
    pub api_key: String,
    pub base_url: Option<String>,
    pub extra_headers: ProviderHeaders,
    pub session_id: Option<String>,
    pub cache_retention: CacheRetention,
    pub signal: Option<CancellationToken>,
    pub reasoning_effort: Option<String>,
    pub reasoning_summary: Option<String>,
    pub text_verbosity: Option<String>,
    pub tool_choice: Option<ToolChoice>,
    pub temperature: Option<Decimal>,
    pub service_tier: Option<String>,
    pub max_retries: Option<u32>,
    pub max_retry_delay_ms: Option<u64>,
    pub timeout_ms: Option<u64>,
    /// How long to wait for a websocket to open.
    pub websocket_connect_timeout_ms: Option<u64>,
    /// How long an idle websocket is kept.
    pub websocket_cache_ttl_ms: Option<u64>,
    /// How old a websocket may be when it is used again.
    pub websocket_max_age_ms: Option<u64>,
    pub transport: CodexTransport,
}

/// What the options of a Codex request mean. Of the cancellation token it is the flag that
/// counts.
#[verifier::ext_equal]
pub struct CodexOptionsView {
    pub api_key: Seq<char>,
    pub base_url: Option<Seq<char>>,
    pub extra_headers: Map<Seq<char>, Seq<char>>,
    pub session_id: Option<Seq<char>>,
    pub cache_retention: CacheRetention,
    pub signal: Option<std::sync::Arc<std::sync::atomic::AtomicBool>>,
    pub reasoning_effort: Option<Seq<char>>,
    pub reasoning_summary: Option<Seq<char>>,
    pub text_verbosity: Option<Seq<char>>,
    pub tool_choice: Option<ToolChoiceView>,
    pub temperature: Option<Seq<char>>,
    pub service_tier: Option<Seq<char>>,
    pub max_retries: Option<u32>,
    pub max_retry_delay_ms: Option<u64>,
    pub timeout_ms: Option<u64>,
    pub websocket_connect_timeout_ms: Option<u64>,
    pub websocket_cache_ttl_ms: Option<u64>,
    pub websocket_max_age_ms: Option<u64>,
    pub transport: CodexTransport,
}

impl View for CodexStreamOptions {
    type V = CodexOptionsView;

    open spec fn view(&self) -> CodexOptionsView {
        CodexOptionsView {
            api_key: self.api_key@,
            base_url: views::opt(self.base_url),
            extra_headers: dict::texts(self.extra_headers@),
            session_id: views::opt(self.session_id),
            cache_retention: self.cache_retention,
            signal: crate::types::flag_of(self.signal),
            reasoning_effort: views::opt(self.reasoning_effort),
            reasoning_summary: views::opt(self.reasoning_summary),
            text_verbosity: views::opt(self.text_verbosity),
            tool_choice: views::opt(self.tool_choice),
            temperature: views::opt(self.temperature),
            service_tier: views::opt(self.service_tier),
            max_retries: self.max_retries,
            max_retry_delay_ms: self.max_retry_delay_ms,
            timeout_ms: self.timeout_ms,
            websocket_connect_timeout_ms: self.websocket_connect_timeout_ms,
            websocket_cache_ttl_ms: self.websocket_cache_ttl_ms,
            websocket_max_age_ms: self.websocket_max_age_ms,
            transport: self.transport,
        }
    }
}

/// The options of a request that sets none.
pub open spec fn default_options() -> CodexOptionsView {
    CodexOptionsView {
        api_key: Seq::empty(),
        base_url: None,
        extra_headers: Map::empty(),
        session_id: None,
        cache_retention: CacheRetention::Off,
        signal: None,
        reasoning_effort: None,
        reasoning_summary: None,
        text_verbosity: None,
        tool_choice: None,
        temperature: None,
        service_tier: None,
        max_retries: None,
        max_retry_delay_ms: None,
        timeout_ms: None,
        websocket_connect_timeout_ms: None,
        websocket_cache_ttl_ms: None,
        websocket_max_age_ms: None,
        transport: CodexTransport::Auto,
    }
}

impl Default for CodexStreamOptions {
    fn default() -> (r: CodexStreamOptions)
        ensures
            r@ == default_options(),
    {
        let r = CodexStreamOptions {
            api_key: String::new(),
            base_url: None,
            extra_headers: Dict::new(),
            session_id: None,
            cache_retention: CacheRetention::Off,
            signal: None,
            reasoning_effort: None,
            reasoning_summary: None,
            text_verbosity: None,
            tool_choice: None,
            temperature: None,
            service_tier: None,
            max_retries: None,
            max_retry_delay_ms: None,
            timeout_ms: None,
            websocket_connect_timeout_ms: None,
            websocket_cache_ttl_ms: None,
            websocket_max_age_ms: None,
            transport: CodexTransport::Auto,
        };
        assert(r@.extra_headers =~= Map::empty());
        r
    }
}

/// The value of `key` in an optional map.
pub open spec fn mapped(m: Option<Map<Seq<char>, Seq<char>>>, key: Seq<char>) -> Option<Seq<char>> {
    match m {
        Some(levels) => if levels.contains_key(key) {
            Some(levels[key])
        } else {
            None
        },
        None => None,
    }
}

/// Looks `key` up in an optional map.
pub fn lookup(m: &Option<Dict<String>>, key: &str) -> (r: Option<String>)
    ensures
        views::opt(r) == mapped(crate::types::opt_texts(*m), key@),
{
    match m {
        Some(levels) => opt_owned(levels.get_text(key)),
        None => None,
    }
}

/// The reasoning effort that a thinking level stands for.
pub open spec fn effort_of_level(level: ModelThinkingLevel) -> Option<Seq<char>> {
    match level {
        ModelThinkingLevel::Off => None,
        ModelThinkingLevel::Low => Some("low"@),
        ModelThinkingLevel::Medium => Some("medium"@),
        ModelThinkingLevel::High => Some("high"@),
    }
}

/// The reasoning effort that a thinking level asks for. How a model spells it is left to
/// the request.
pub fn thinking_level_to_effort(model: &Model, level: ModelThinkingLevel) -> (r: Option<String>)
    ensures
        views::opt(r) == effort_of_level(level),
{
    match level {
        ModelThinkingLevel::Off => None,
        ModelThinkingLevel::Low => Some("low".to_owned()),
        ModelThinkingLevel::Medium => Some("medium".to_owned()),
        ModelThinkingLevel::High => Some("high".to_owned()),
    }
}

/// The bearer token or the key in request headers.
pub open spec fn key_in_headers(headers: Map<Seq<char>, Seq<char>>) -> Seq<char> {
    let bearer = if headers.contains_key("Authorization"@) {
        text::after_prefix(headers["Authorization"@], "Bearer "@)
    } else {
        None
    };
    match bearer {
        Some(token) => token,
        None => if headers.contains_key("x-api-key"@) {
            headers["x-api-key"@]
        } else {
            Seq::empty()
        },
    }
}

fn key_in_headers_exec(headers: &Dict<String>) -> (r: String)
    ensures
        r@ == key_in_headers(dict::texts(headers@)),
{
    let bearer: Option<String> = match headers.get_text("Authorization") {
        Some(v) => strip_prefix(v, "Bearer "),
        None => None,
    };
    match bearer {
        Some(token) => token,
        None => match headers.get_text("x-api-key") {
            Some(v) => v.to_owned(),
            None => String::new(),
        },
    }
}

/// `base` with every header of `request` but `Authorization` laid over it.
pub open spec fn merged_headers(
    base: Map<Seq<char>, Seq<char>>,
    request: Map<Seq<char>, Seq<char>>,
) -> Map<Seq<char>, Seq<char>> {
    base.union_prefer_right(request.remove("Authorization"@))
}

fn merge_headers(base: &Option<Dict<String>>, request: &Dict<String>) -> (r: Dict<String>)
    ensures
        dict::texts(r@) == merged_headers(
            views::or(crate::types::opt_texts(*base), Map::empty()),
            dict::texts(request@),
        ),
{
    let mut out: Dict<String> = match base {
        Some(d) => d.clone_texts(),
        None => Dict::new(),
    };
    let ghost start = out@;
    proof {
        assert(dict::texts(start) =~= views::or(crate::types::opt_texts(*base), Map::empty()));
    }
    let keys: Vec<String> = request.keys();
    let ghost all = views::all(keys@);
    let mut i: usize = 0;
    while i < keys.len()
        invariant
            i <= keys@.len(),
            all == views::all(keys@),
            forall|k: Seq<char>| #[trigger] request@.contains_key(k) <==> all.contains(k),
            forall|k: Seq<char>| #[trigger]
                out@.contains_key(k) <==> start.contains_key(k) || (k != "Authorization"@
                    && exists|j: int| 0 <= j < i && #[trigger] all[j] == k),
            forall|k: Seq<char>| #[trigger]
                out@.contains_key(k) ==> out@[k] == if k != "Authorization"@ && exists|j: int|
                    0 <= j < i && #[trigger] all[j] == k {
                    request@[k]
                } else {
                    start[k]
                },
        decreases keys@.len() - i,
    {
        let key: &str = keys[i].as_str();
        assert(all[i as int] == key@);
        assert(all.contains(key@));
        if !same_text(key, "Authorization") {
            if let Some(v) = request.get(key) {
                out.insert(key, v.clone());
            }
        }
        i = i + 1;
    }
    proof {
        assert forall|k: Seq<char>| request@.contains_key(k) implies exists|j: int|
            0 <= j < all.len() && #[trigger] all[j] == k by {
            assert(all.contains(k));
        }
        assert(dict::texts(out@) =~= merged_headers(dict::texts(start), dict::texts(request@)));
    }
    out
}

/// The retention that a name stands for.
pub open spec fn retention_named(s: Seq<char>) -> CacheRetention {
    if s == "short"@ {
        CacheRetention::Short
    } else if s == "long"@ {
        CacheRetention::Long
    } else {
        CacheRetention::Off
    }
}

/// The number in field `key` as a double.
pub open spec fn field_double(json: JsonView, key: Seq<char>) -> Option<Seq<char>> {
    match json.get(key) {
        Some(JsonView::Number(n)) => json_text::double_of_number(n),
        _ => None,
    }
}

fn field_double_exec(json: &Json, key: &str) -> (r: Option<String>)
    ensures
        views::opt(r) == field_double(json@, key@),
{
    match json.get(key) {
        Some(Json::Number(n)) => number_as_double(n),
        _ => None,
    }
}

/// The tool choice that a text in field `key` names.
pub open spec fn choice_named(s: Option<Seq<char>>) -> Option<ToolChoiceView> {
    if s == Some("auto"@) {
        Some(ToolChoiceView::Auto)
    } else if s == Some("none"@) {
        Some(ToolChoiceView::Never)
    } else if s == Some("required"@) {
        Some(ToolChoiceView::Required)
    } else {
        None
    }
}

/// `options` with what the fields of `extra` say laid over it.
pub open spec fn options_with_extra(options: CodexOptionsView, extra: JsonView) -> CodexOptionsView {
    CodexOptionsView {
        session_id: views::first_of(extra.field_text("session_id"@), options.session_id),
        cache_retention: match extra.field_text("cache_retention"@) {
            Some(name) => retention_named(name),
            None => options.cache_retention,
        },
        temperature: views::first_of(field_double(extra, "temperature"@), options.temperature),
        reasoning_effort: views::first_of(
            extra.field_text("reasoning"@),
            options.reasoning_effort,
        ),
        transport: match extra.field_text("transport"@) {
            Some(name) => transport_named(name),
            None => options.transport,
        },
        base_url: views::first_of(extra.field_text("base_url_override"@), options.base_url),
        tool_choice: views::first_of(
            choice_named(extra.field_text("tool_choice"@)),
            options.tool_choice,
        ),
        ..options
    }
}

/// The Codex options that the options of a request and the configuration of a
/// provider come to.
pub open spec fn bridged_options(
    base_url: Seq<char>,
    config_headers: Map<Seq<char>, Seq<char>>,
    headers: Map<Seq<char>, Seq<char>>,
    request_base_url: Option<Seq<char>>,
    signal: Option<std::sync::Arc<std::sync::atomic::AtomicBool>>,
    max_retries: Option<u32>,
    max_retry_delay_ms: Option<u64>,
    timeout_ms: Option<u64>,
) -> CodexOptionsView {
    CodexOptionsView {
        api_key: key_in_headers(headers),
        base_url: views::first_of(request_base_url, Some(base_url)),
        extra_headers: merged_headers(config_headers, headers),
        signal,
        max_retries,
        max_retry_delay_ms,
        timeout_ms,
        ..default_options()
    }
}

/// Lays the fields of `extra` over `options`.
fn apply_extra(options: &mut CodexStreamOptions, extra: &Json)
    ensures
        final(options)@ == options_with_extra(old(options)@, extra@),
{
    if let Some(s) = extra.field_str("session_id") {
        options.session_id = Some(s.to_owned());
    }
    if let Some(s) = extra.field_str("cache_retention") {
        options.cache_retention = if same_text(s, "short") {
            CacheRetention::Short
        } else if same_text(s, "long") {
            CacheRetention::Long
        } else {
            CacheRetention::Off
        };
    }
    if let Some(t) = field_double_exec(extra, "temperature") {
        options.temperature = Some(t);
    }
    if let Some(s) = extra.field_str("reasoning") {
        options.reasoning_effort = Some(s.to_owned());
    }
    if let Some(s) = extra.field_str("transport") {
        options.transport = CodexTransport::parse(s);
    }
    if let Some(s) = extra.field_str("base_url_override") {
        options.base_url = Some(s.to_owned());
    }
    if let Some(s) = extra.field_str("tool_choice") {
        if same_text(s, "auto") {
            options.tool_choice = Some(ToolChoice::Auto);
        } else if same_text(s, "none") {
            options.tool_choice = Some(ToolChoice::Never);
        } else if same_text(s, "required") {
            options.tool_choice = Some(ToolChoice::Required);
        }
    }
}

/// Reads the Codex options out of the options of a request, whose extra body
/// carries the simple ones.
pub fn codex_options_from_api(config: &OAuthProviderConfig, options: &ApiStreamOptions) -> (r:
    CodexStreamOptions)
    ensures
        ({
            let base = bridged_options(
                config.base_url@,
                views::or(crate::types::opt_texts(config.extra_headers), Map::empty()),
                dict::texts(options.request_options.headers@),
                views::opt(options.request_options.base_url),
                crate::types::flag_of(options.signal),
                options.max_retries,
                options.max_retry_delay_ms,
                options.timeout_ms,
            );
            r@ == match options.request_options.extra_body {
                Some(extra) => options_with_extra(base, extra@),
                None => base,
            }
        }),
{
    let request = &options.request_options;
    let mut out: CodexStreamOptions = CodexStreamOptions::default();
    out.api_key = key_in_headers_exec(&request.headers);
    out.base_url =
    match clone_opt_text(&request.base_url) {
        Some(u) => Some(u),
        None => Some(config.base_url.clone()),
    };
    out.extra_headers = merge_headers(&config.extra_headers, &request.headers);
    out.signal = clone_opt_token(&options.signal);
    out.max_retries = options.max_retries;
    out.max_retry_delay_ms = options.max_retry_delay_ms;
    out.timeout_ms = options.timeout_ms;
    if let Some(extra) = &request.extra_body {
        apply_extra(&mut out, extra);
    }
    out
}

/// A request is authorised with the bearer token among its headers, or else with the key among
/// them, and goes to the address that it names, or else to that of the provider; the limits are
/// those that the caller set.
pub proof fn law_request_options_are_taken(
    base_url: Seq<char>,
    config_headers: Map<Seq<char>, Seq<char>>,
    headers: Map<Seq<char>, Seq<char>>,
    request_base_url: Option<Seq<char>>,
    signal: Option<std::sync::Arc<std::sync::atomic::AtomicBool>>,
    max_retries: Option<u32>,
    max_retry_delay_ms: Option<u64>,
    timeout_ms: Option<u64>,
    token: Seq<char>,
    name: Seq<char>,
)
    ensures
        ({
            let o = bridged_options(
                base_url,
                config_headers,
                headers,
                request_base_url,
                signal,
                max_retries,
                max_retry_delay_ms,
                timeout_ms,
            );
            &&& headers.contains_key("Authorization"@) && headers["Authorization"@] == "Bearer "@
                + token ==> o.api_key == token
            &&& !headers.contains_key("Authorization"@) && headers.contains_key("x-api-key"@)
                ==> o.api_key == headers["x-api-key"@]
            &&& request_base_url is Some ==> o.base_url == request_base_url
            &&& request_base_url is None ==> o.base_url == Some(base_url)
            &&& o.signal == signal
            &&& o.max_retries == max_retries
            &&& o.max_retry_delay_ms == max_retry_delay_ms
            &&& o.timeout_ms == timeout_ms
            &&& name != "Authorization"@ && headers.contains_key(name)
                ==> o.extra_headers.contains_key(name) && o.extra_headers[name] == headers[name]
            &&& !headers.contains_key(name) && config_headers.contains_key(name)
                ==> o.extra_headers.contains_key(name) && o.extra_headers[name]
                == config_headers[name]
            &&& !config_headers.contains_key("Authorization"@) ==> !o.extra_headers.contains_key(
                "Authorization"@,
            )
        }),
{
    if headers.contains_key("Authorization"@) && headers["Authorization"@] == "Bearer "@ + token {
        let v = headers["Authorization"@];
        assert(v.take("Bearer "@.len() as int) =~= "Bearer "@);
        assert(v.skip("Bearer "@.len() as int) =~= token);
    }
}

/// What the extra body of a request says counts more than what was set before, and what it says
/// nothing of stays.
pub proof fn law_extra_body_counts(options: CodexOptionsView, extra: JsonView)
    ensures
        ({
            let o = options_with_extra(options, extra);
            let said = |key: Seq<char>| extra.field_text(key);
            &&& o.session_id == if said("session_id"@) is Some {
                said("session_id"@)
            } else {
                options.session_id
            }
            &&& o.reasoning_effort == if said("reasoning"@) is Some {
                said("reasoning"@)
            } else {
                options.reasoning_effort
            }
            &&& o.base_url == if said("base_url_override"@) is Some {
                said("base_url_override"@)
            } else {
                options.base_url
            }
            &&& said("cache_retention"@) is None ==> o.cache_retention == options.cache_retention
            &&& said("cache_retention"@) == Some("short"@) ==> o.cache_retention
                == CacheRetention::Short
            &&& said("cache_retention"@) == Some("long"@) ==> o.cache_retention
                == CacheRetention::Long
            &&& said("transport"@) is None ==> o.transport == options.transport
            &&& said("transport"@) == Some("sse"@) ==> o.transport == CodexTransport::Sse
            &&& said("transport"@) == Some("websocket"@) ==> o.transport
                == CodexTransport::Websocket
            &&& said("transport"@) == Some("websocket-cached"@) ==> o.transport
                == CodexTransport::WebsocketCached
            &&& said("tool_choice"@) == Some("none"@) ==> o.tool_choice == Some(
                ToolChoiceView::Never,
            )
            &&& said("tool_choice"@) == Some("required"@) ==> o.tool_choice == Some(
                ToolChoiceView::Required,
            )
            &&& said("tool_choice"@) == Some("auto"@) ==> o.tool_choice == Some(
                ToolChoiceView::Auto,
            )
            &&& said("tool_choice"@) is None ==> o.tool_choice == options.tool_choice
            &&& extra.get("temperature"@) is None ==> o.temperature == options.temperature
            &&& o.api_key == options.api_key
            &&& o.extra_headers == options.extra_headers
            &&& o.max_retries == options.max_retries
            &&& o.timeout_ms == options.timeout_ms
            &&& o.service_tier == options.service_tier
        }),
{
    reveal_strlit("short");
    reveal_strlit("long");
    reveal_strlit("sse");
    reveal_strlit("websocket");
    reveal_strlit("websocket-cached");
    reveal_strlit("auto");
    reveal_strlit("none");
    reveal_strlit("required");
    assert("short"@.len() == 5 && "long"@.len() == 4);
    assert("sse"@.len() == 3 && "websocket"@.len() == 9 && "websocket-cached"@.len() == 16);
    assert("auto"@.len() == 4 && "none"@.len() == 4 && "required"@.len() == 8);
    assert("auto"@[0] == 'a' && "none"@[0] == 'n');
}

/// A thinking level that is not off asks for an effort of its own name.
pub proof fn law_levels_ask_for_efforts()
    ensures
        effort_of_level(ModelThinkingLevel::Off) is None,
        effort_of_level(ModelThinkingLevel::Low) == Some("low"@),
        effort_of_level(ModelThinkingLevel::Medium) == Some("medium"@),
        effort_of_level(ModelThinkingLevel::High) == Some("high"@),
{
}

/// A transport or a retention that has no known name is the one that promises least, and a choice
/// of tools that has none is not made.
pub proof fn law_unknown_names_promise_nothing(options: CodexOptionsView, extra: JsonView)
    ensures
        ({
            let o = options_with_extra(options, extra);
            let transport = extra.field_text("transport"@);
            let retention = extra.field_text("cache_retention"@);
            let choice = extra.field_text("tool_choice"@);
            &&& transport is Some && transport != Some("sse"@) && transport != Some("websocket"@)
                && transport != Some("websocket-cached"@) ==> o.transport == CodexTransport::Auto
            &&& retention is Some && retention != Some("short"@) && retention != Some("long"@)
                ==> o.cache_retention == CacheRetention::Off
            &&& choice != Some("auto"@) && choice != Some("none"@) && choice != Some("required"@)
                ==> o.tool_choice == options.tool_choice
            &&& (match extra.get("temperature"@) {
                Some(JsonView::Number(n)) => json_text::double_of_number(n) is Some
                    ==> o.temperature == json_text::double_of_number(n),
                _ => o.temperature == options.temperature,
            })
            &&& o.reasoning_summary == options.reasoning_summary
            &&& o.text_verbosity == options.text_verbosity
            &&& o.signal == options.signal
            &&& o.max_retry_delay_ms == options.max_retry_delay_ms
        }),
{
}

/// A value is found under its own key, where there are values at all.
pub proof fn law_mapped_value_is_found(m: Map<Seq<char>, Seq<char>>, key: Seq<char>, v: Seq<char>)
    ensures
        mapped(Some(m.insert(key, v)), key) == Some(v),
        mapped(Some(m.remove(key)), key) is None,
        mapped(None, key) is None,
{
}

/// A request without either header has no key, and one whose authorisation is of another kind
/// goes by the key.
pub proof fn law_key_is_in_the_headers(headers: Map<Seq<char>, Seq<char>>, key: Seq<char>)
    ensures
        !headers.contains_key("Authorization"@) && !headers.contains_key("x-api-key"@)
            ==> key_in_headers(headers) == Seq::<char>::empty(),
        headers.contains_key("Authorization"@) && !text::begins(
            headers["Authorization"@],
            "Bearer "@,
        ) && headers.contains_key("x-api-key"@) && headers["x-api-key"@] == key ==> key_in_headers(
            headers,
        ) == key,
{
}

} // verus!
