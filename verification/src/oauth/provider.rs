//! Providers that people sign in to.
use vstd::prelude::*;
use crate::codex::run::StreamEnd;
use crate::json;
use crate::json::{clone_json, Json, JsonView, Number, NumberView};
use crate::oauth::config::OAuthProviderConfig;
use crate::oauth::login;
use crate::providers::listing;
use crate::providers::listing::{end_unavailable, fill_in};
use crate::text::{concat, same_text};
use crate::types;
use crate::types::{
    clone_models, ApiStreamOptions, Model, ModelThinkingLevel, ProviderHeaders,
    SimpleStreamOptions, ToolChoice, ToolChoiceView,
};
use crate::views;

verus! {

broadcast use crate::views::group_views;

/// How people sign in to a provider.
pub struct GenericOAuthAuth {
    pub config: OAuthProviderConfig,
}

impl GenericOAuthAuth {
    pub fn new(config: OAuthProviderConfig) -> (r: GenericOAuthAuth)
        ensures
            r.config == config,
    {
        GenericOAuthAuth { config }
    }

    pub fn name<'a>(&'a self) -> (r: &'a str)
        ensures
            r@ == self.config.display_name@,
    {
        self.config.display_name.as_str()
    }

    pub fn is_subscription(&self) -> (r: bool)
        ensures
            r == self.config.is_subscription,
    {
        self.config.is_subscription
    }

    pub fn login_label<'a>(&'a self) -> (r: Option<&'a str>)
        ensures
            views::opt(r) == views::opt(self.config.login_label),
    {
        views::opt_str(&self.config.login_label)
    }
}

/// A provider that people sign in to.
pub struct GenericOAuthProvider {
    pub id: String,
    pub name: String,
    pub config: OAuthProviderConfig,
}

/// What is said of a provider that cannot stream.
pub open spec fn no_adapter(name: Seq<char>) -> Seq<char> {
    name + " live adapter not available in this build (OAuth wire protocol shared adapter TBD)"@
}

/// The effort that a thinking level asks for.
pub open spec fn level_effort(level: ModelThinkingLevel) -> Option<Seq<char>> {
    match level {
        ModelThinkingLevel::Off => None,
        ModelThinkingLevel::Low => Some("low"@),
        ModelThinkingLevel::Medium => Some("medium"@),
        ModelThinkingLevel::High => Some("high"@),
    }
}

/// The effort that is asked for: the one named, else that of the thinking level.
pub open spec fn asked_effort(
    reasoning: Option<Seq<char>>,
    thinking: Option<ModelThinkingLevel>,
) -> Option<Seq<char>> {
    match reasoning {
        Some(r) => Some(r),
        None => match thinking {
            Some(l) => level_effort(l),
            None => None,
        },
    }
}

/// A tool choice as a request carries it.
pub open spec fn choice_json(c: ToolChoiceView) -> JsonView {
    match c {
        ToolChoiceView::Auto => json::jtext("auto"@),
        ToolChoiceView::Never => json::jtext("none"@),
        ToolChoiceView::Required => json::jtext("required"@),
        ToolChoiceView::Tool { name } => JsonView::object().with(
            "type"@,
            json::jtext("function"@),
        ).with("name"@, json::jtext(name)),
    }
}

fn choice_json_exec(c: &ToolChoice) -> (r: Json)
    ensures
        r@ == choice_json(c@),
{
    match c {
        ToolChoice::Auto => Json::text("auto"),
        ToolChoice::Never => Json::text("none"),
        ToolChoice::Required => Json::text("required"),
        ToolChoice::Tool { name } => Json::object().with("type", Json::text("function")).with(
            "name",
            Json::text(name.as_str()),
        ),
    }
}

/// A text as JSON, where there is one.
pub open spec fn opt_text(o: Option<Seq<char>>) -> Option<JsonView> {
    match o {
        Some(s) => Some(json::jtext(s)),
        None => None,
    }
}

/// The fields of a request with what the caller asked for among them.
pub open spec fn asked(extra: JsonView, options: SimpleStreamOptions) -> JsonView {
    match extra {
        JsonView::Object(_) => extra.with_opt(
            "temperature"@,
            match options.temperature {
                Some(t) => Some(JsonView::Number(NumberView::Decimal(t@))),
                None => None,
            },
        ).with_opt(
            "reasoning"@,
            opt_text(asked_effort(views::opt(options.reasoning), options.thinking)),
        ).with_opt(
            "tool_choice"@,
            match options.tool_choice {
                Some(c) => Some(choice_json(c@)),
                None => None,
            },
        ).with_opt("base_url_override"@, opt_text(views::opt(options.base_url))),
        _ => extra,
    }
}

fn ask(extra: Json, options: &SimpleStreamOptions) -> (r: Json)
    ensures
        r@ == asked(extra@, *options),
{
    if !extra.is_object() {
        return extra;
    }
    let mut out: Json = extra;
    if let Some(t) = &options.temperature {
        out.set("temperature", Json::Number(Number::Decimal(t.clone())));
    }
    if let Some(r) = &options.reasoning {
        out.set("reasoning", Json::text(r.as_str()));
    } else if let Some(level) = options.thinking {
        match level {
            ModelThinkingLevel::Off => {},
            ModelThinkingLevel::Low => {
                out.set("reasoning", Json::text("low"));
            },
            ModelThinkingLevel::Medium => {
                out.set("reasoning", Json::text("medium"));
            },
            ModelThinkingLevel::High => {
                out.set("reasoning", Json::text("high"));
            },
        }
    }
    if let Some(c) = &options.tool_choice {
        out.set("tool_choice", choice_json_exec(c));
    }
    if let Some(b) = &options.base_url {
        out.set("base_url_override", Json::text(b.as_str()));
    }
    out
}

impl GenericOAuthProvider {
    pub fn new(id: &str, name: &str, config: OAuthProviderConfig) -> (r: GenericOAuthProvider)
        ensures
            r.id@ == id@,
            r.name@ == name@,
            r.config == config,
    {
        GenericOAuthProvider { id: id.to_owned(), name: name.to_owned(), config }
    }

    /// The catalogue.
    pub fn get_models(&self) -> (r: Vec<Model>)
        ensures
            views::all(r@) == views::all(self.config.default_models@),
    {
        clone_models(&self.config.default_models)
    }

    /// Puts what the caller asked for among the fields of a request.
    pub fn apply_simple_options(
        &self,
        options: &SimpleStreamOptions,
        api_opts: &mut ApiStreamOptions,
    )
        ensures
            views::opt(final(api_opts).request_options.extra_body) == Some(
                asked(
                    views::or(
                        views::opt(old(api_opts).request_options.extra_body),
                        JsonView::object(),
                    ),
                    *options,
                ),
            ),
            final(api_opts).signal == old(api_opts).signal,
            final(api_opts).max_retries == old(api_opts).max_retries,
            final(api_opts).max_retry_delay_ms == old(api_opts).max_retry_delay_ms,
            final(api_opts).timeout_ms == old(api_opts).timeout_ms,
            final(api_opts).request_options.headers == old(api_opts).request_options.headers,
            final(api_opts).request_options.query_params
                == old(api_opts).request_options.query_params,
            final(api_opts).request_options.base_url == old(api_opts).request_options.base_url,
    {
        let extra: Json = match &api_opts.request_options.extra_body {
            Some(e) => clone_json(e),
            None => Json::object(),
        };
        api_opts.request_options.extra_body = Some(ask(extra, options));
    }

    /// Whether the provider streams by the Codex service.
    pub fn streams_codex(&self) -> (r: bool)
        ensures
            r == (self.config.api_label@ == login::CODEX_API@),
    {
        same_text(self.config.api_label.as_str(), login::CODEX_API)
    }

    /// The end of every stream of a provider that cannot stream.
    pub fn stream_end(&self, now: i64) -> (r: StreamEnd)
        ensures
            r.event@ == listing::unavailable(self.id@, no_adapter(self.name@), now).0,
            views::opt(r.result) == Some(
                listing::unavailable(self.id@, no_adapter(self.name@), now).1,
            ),
    {
        end_unavailable(
            self.id.as_str(),
            concat(
                self.name.as_str(),
                " live adapter not available in this build (OAuth wire protocol shared adapter TBD)",
            ),
            now,
        )
    }
}

/// What a provider that people sign in to is described by.
pub struct OAuthProviderSpec<'a> {
    pub id: &'a str,
    pub display_name: &'a str,
    pub base_url: &'a str,
    pub client_id: &'a str,
    pub scopes: Vec<String>,
    pub auth_url: Option<&'a str>,
    pub token_url: Option<&'a str>,
    pub device_auth_url: Option<&'a str>,
    pub redirect_uri: Option<&'a str>,
    pub is_subscription: bool,
    pub login_label: Option<&'a str>,
    pub api_label: &'a str,
    pub default_models: Vec<Model>,
    pub extra_headers: Option<ProviderHeaders>,
}

/// Whether a provider is the one that a description stands for.
pub open spec fn is_described(p: GenericOAuthProvider, d: OAuthProviderSpec) -> bool {
    &&& p.id@ == d.id@
    &&& p.name@ == d.display_name@
    &&& p.config.base_url@ == d.base_url@
    &&& p.config.client_id@ == d.client_id@
    &&& p.config.scopes == d.scopes
    &&& views::opt(p.config.auth_url) == views::opt(d.auth_url)
    &&& views::opt(p.config.token_url) == views::opt(d.token_url)
    &&& views::opt(p.config.device_auth_url) == views::opt(d.device_auth_url)
    &&& views::opt(p.config.redirect_uri) == views::opt(d.redirect_uri)
    &&& p.config.display_name@ == d.display_name@
    &&& p.config.is_subscription == d.is_subscription
    &&& views::opt(p.config.login_label) == views::opt(d.login_label)
    &&& p.config.api_label@ == d.api_label@
    &&& p.config.extra_headers == d.extra_headers
    &&& views::all(p.config.default_models@) == listing::all_filled_in(
        views::all(d.default_models@),
        d.id@,
        d.api_label@,
    )
}

/// Builds the provider that a description stands for.
pub fn build_oauth_provider(entry: OAuthProviderSpec) -> (r: GenericOAuthProvider)
    ensures
        is_described(r, entry),
{
    let models: Vec<Model> = fill_in(entry.default_models, entry.id, entry.api_label);
    GenericOAuthProvider::new(
        entry.id,
        entry.display_name,
        OAuthProviderConfig {
            base_url: entry.base_url.to_owned(),
            client_id: entry.client_id.to_owned(),
            scopes: entry.scopes,
            auth_url: views::opt_owned(entry.auth_url),
            token_url: views::opt_owned(entry.token_url),
            device_auth_url: views::opt_owned(entry.device_auth_url),
            redirect_uri: views::opt_owned(entry.redirect_uri),
            display_name: entry.display_name.to_owned(),
            is_subscription: entry.is_subscription,
            login_label: views::opt_owned(entry.login_label),
            api_label: entry.api_label.to_owned(),
            extra_headers: entry.extra_headers,
            default_models: models,
        },
    )
}

/// What the caller asked for is among the fields of the request, and fields that the caller says
/// nothing of stay.
pub proof fn law_asked_fields_are_sent(
    extra: JsonView,
    options: SimpleStreamOptions,
    name: Seq<char>,
)
    requires
        extra is Object,
    ensures
        ({
            let r = asked(extra, options);
            &&& options.temperature is Some ==> r.get("temperature"@) == Some(
                JsonView::Number(NumberView::Decimal(options.temperature->0@)),
            )
            &&& options.reasoning is Some ==> r.field_text("reasoning"@) == Some(
                options.reasoning->0@,
            )
            &&& options.reasoning is None && options.thinking == Some(ModelThinkingLevel::High)
                ==> r.field_text("reasoning"@) == Some("high"@)
            &&& options.reasoning is None && options.thinking == Some(ModelThinkingLevel::Medium)
                ==> r.field_text("reasoning"@) == Some("medium"@)
            &&& options.reasoning is None && options.thinking == Some(ModelThinkingLevel::Low)
                ==> r.field_text("reasoning"@) == Some("low"@)
            &&& options.base_url is Some ==> r.field_text("base_url_override"@) == Some(
                options.base_url->0@,
            )
            &&& options.tool_choice is Some ==> match options.tool_choice->0@ {
                ToolChoiceView::Auto => r.field_text("tool_choice"@) == Some("auto"@),
                ToolChoiceView::Never => r.field_text("tool_choice"@) == Some("none"@),
                ToolChoiceView::Required => r.field_text("tool_choice"@) == Some("required"@),
                ToolChoiceView::Tool { name } => r.text2("tool_choice"@, "name"@) == Some(name),
            }
            &&& name != "temperature"@ && name != "reasoning"@ && name != "tool_choice"@ && name
                != "base_url_override"@ ==> r.get(name) == extra.get(name)
        }),
{
    reveal_strlit("temperature");
    reveal_strlit("reasoning");
    reveal_strlit("tool_choice");
    reveal_strlit("base_url_override");
    reveal_strlit("type");
    reveal_strlit("name");
    assert("temperature"@.len() == 11 && "reasoning"@.len() == 9 && "tool_choice"@.len() == 11);
    assert("base_url_override"@.len() == 17);
    assert("temperature"@[1] == 'e' && "tool_choice"@[1] == 'o');
    assert("type"@[0] == 't' && "name"@[0] == 'n');
}

} // verus!
