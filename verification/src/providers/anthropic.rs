//! Anthropic.
use vstd::prelude::*;
use crate::auth::types;
use crate::auth::types::{ask_env, resolve_key, ApiKeyCredential, AuthContext, AuthPrompt, AuthResult};
use crate::codex::run::StreamEnd;
use crate::dict;
use crate::dict::Dict;
use crate::providers::listing;
use crate::providers::listing::{cache_prices, end_unavailable, new_chat_model, MakerName, MakerView};
use crate::text::{concat, concat3};
use crate::types::{clone_models, CancellationToken, Model, ModelThinkingLevel, ModelView};
use crate::views;

verus! {

broadcast use crate::views::group_views;

/// What the provider is reached and asked for with.
pub struct AnthropicProviderConfig {
    pub base_url: String,
    pub env_var: String,
    pub default_models: Vec<Model>,
}

/// The variable whose value counts more than the base URL.
pub const BASE_URL_VAR: &'static str = "ANTHROPIC_BASE_URL";

/// A provider of this kind.
pub struct AnthropicProvider {
    pub id: String,
    pub name: String,
    pub config: AnthropicProviderConfig,
}

/// The headers of every request.
pub open spec fn headers() -> Map<Seq<char>, Seq<char>> {
    Map::<Seq<char>, Seq<char>>::empty().insert("anthropic-version"@, "2023-06-01"@)
}

impl AnthropicProvider {
    pub fn new(id: &str, name: &str, config: AnthropicProviderConfig) -> (r: AnthropicProvider)
        ensures
            r.id@ == id@,
            r.name@ == name@,
            r.config == config,
    {
        AnthropicProvider { id: id.to_owned(), name: name.to_owned(), config }
    }

    /// The catalogue.
    pub fn get_models(&self) -> (r: Vec<Model>)
        ensures
            views::all(r@) == views::all(self.config.default_models@),
    {
        clone_models(&self.config.default_models)
    }

    /// The name of the key.
    pub fn auth_name(&self) -> (r: String)
        ensures
            r@ == self.name@ + " API key"@,
    {
        concat(self.name.as_str(), " API key")
    }

    /// What someone who enters a key is asked.
    pub fn login_prompt(&self, signal: Option<CancellationToken>) -> (r: AuthPrompt)
        ensures
            match r {
                AuthPrompt::Secret { message, placeholder, signal: s } => {
                    &&& message@ == "Enter your "@ + (self.name@ + " API key"@) + " API key:"@
                    &&& views::opt(placeholder) == Some("sk-ant-..."@)
                    &&& s == signal
                },
                _ => false,
            },
    {
        AuthPrompt::Secret {
            message: concat3(
                "Enter your ",
                self.auth_name().as_str(),
                " API key:",
            ),
            placeholder: Some("sk-ant-...".to_owned()),
            signal,
        }
    }

    /// What requests are authorised with, given what the environment holds: a key and a
    /// base URL.
    pub fn resolve_with(
        &self,
        credential: Option<&ApiKeyCredential>,
        env_key: Option<String>,
        env_base_url: Option<String>,
    ) -> (r: AuthResult)
        ensures
            r@ == types::key_result(
                types::opt_key(credential),
                views::opt(env_key),
                self.config.env_var@,
                Some(headers()),
                views::or(views::opt(env_base_url), self.config.base_url@),
            ),
    {
        let mut h: Dict<String> = Dict::new();
        h.insert("anthropic-version", "2023-06-01".to_owned());
        assert(dict::texts(h@) =~= headers());
        resolve_key(
            credential,
            env_key,
            self.config.env_var.as_str(),
            Some(h),
            match env_base_url {
                Some(url) => url,
                None => self.config.base_url.clone(),
            },
        )
    }

    /// What requests are authorised with, given what the surroundings answer when they
    /// are asked for the key and the base URL.
    pub fn resolve<C: AuthContext>(&self, ctx: &C, credential: Option<&ApiKeyCredential>) -> (r:
        AuthResult)
        ensures
            exists|key: Option<String>, base_url: Option<String>|
                {
                    &&& #[trigger] types::env_holds(ctx, self.config.env_var@, key)
                    &&& #[trigger] types::env_holds(ctx, BASE_URL_VAR@, base_url)
                    &&& r@ == types::key_result(
                        types::opt_key(credential),
                        views::opt(key),
                        self.config.env_var@,
                        Some(headers()),
                        views::or(views::opt(base_url), self.config.base_url@),
                    )
                },
    {
        let key: Option<String> = ask_env(ctx, self.config.env_var.as_str());
        let base_url: Option<String> = ask_env(ctx, BASE_URL_VAR);
        self.resolve_with(credential, key, base_url)
    }

    /// The end of every stream: the provider cannot stream.
    pub fn stream_end(&self, now: i64) -> (r: StreamEnd)
        ensures
            ({
                let end = listing::unavailable(
                    "anthropic"@,
                    "Anthropic live adapter not available in this build"@,
                    now,
                );
                r.event@ == end.0 && views::opt(r.result) == Some(end.1)
            }),
    {
        end_unavailable("anthropic", "Anthropic live adapter not available in this build".to_owned(), now)
    }
}

/// The provider Anthropic.
///
/// `maker` says how the name of the family of models is written, in ids and addresses and in
/// titles.
pub fn anthropic_provider(maker: &MakerName) -> (r: AnthropicProvider)
    ensures
        r.id@ == "anthropic"@,
        r.name@ == "Anthropic"@,
        r.config.base_url@ == "https://api.anthropic.com"@,
        r.config.env_var@ == "ANTHROPIC_API_KEY"@,
        views::all(r.config.default_models@) == anthropic_models(maker@),
{
    AnthropicProvider::new(
        "anthropic",
        "Anthropic",
        AnthropicProviderConfig {
            base_url: "https://api.anthropic.com".to_owned(),
            env_var: "ANTHROPIC_API_KEY".to_owned(),
            default_models: default_models(maker),
        },
    )
}

/// The catalogue of Anthropic.
pub open spec fn anthropic_models(maker: MakerView) -> Seq<ModelView> {
    seq![
        ModelView {
            supports_images: true,
            supports_pdf: true,
            cost_rates: listing::cache_priced("3.0"@, "15.0"@, "0.3"@, "3.75"@),
            ..listing::chat_model(
                "anthropic"@,
                "anthropic-messages"@,
                maker.word + "-3-5-sonnet-latest"@,
                maker.title + " 3.5 Sonnet"@,
                200_000,
                8_192,
                200_000,
            )
        },
        ModelView {
            supports_images: true,
            supports_pdf: true,
            cost_rates: listing::cache_priced("15.0"@, "75.0"@, "1.5"@, "18.75"@),
            ..listing::chat_model(
                "anthropic"@,
                "anthropic-messages"@,
                maker.word + "-3-opus-latest"@,
                maker.title + " 3 Opus"@,
                200_000,
                8_192,
                200_000,
            )
        },
        ModelView {
            supports_images: true,
            supports_pdf: true,
            thinking: ModelThinkingLevel::High,
            cost_rates: listing::cache_priced("3.0"@, "15.0"@, "0.3"@, "3.75"@),
            ..listing::chat_model(
                "anthropic"@,
                "anthropic-messages"@,
                maker.word + "-3-7-sonnet-latest"@,
                maker.title + " 3.7 Sonnet"@,
                200_000,
                64_000,
                200_000,
            )
        },
    ]
}

fn default_models(maker: &MakerName) -> (r: Vec<Model>)
    ensures
        views::all(r@) == anthropic_models(maker@),
{
    let mut models: Vec<Model> = Vec::new();
    let mut m: Model = new_chat_model(
        "anthropic",
        "anthropic-messages",
        concat(maker.word.as_str(), "-3-5-sonnet-latest").as_str(),
        concat(maker.title.as_str(), " 3.5 Sonnet").as_str(),
        200_000,
        8_192,
        200_000,
    );
    m.supports_images = true;
    m.supports_pdf = true;
    m.cost_rates = cache_prices("3.0", "15.0", "0.3", "3.75");
    models.push(m);
    let mut m: Model = new_chat_model(
        "anthropic",
        "anthropic-messages",
        concat(maker.word.as_str(), "-3-opus-latest").as_str(),
        concat(maker.title.as_str(), " 3 Opus").as_str(),
        200_000,
        8_192,
        200_000,
    );
    m.supports_images = true;
    m.supports_pdf = true;
    m.cost_rates = cache_prices("15.0", "75.0", "1.5", "18.75");
    models.push(m);
    let mut m: Model = new_chat_model(
        "anthropic",
        "anthropic-messages",
        concat(maker.word.as_str(), "-3-7-sonnet-latest").as_str(),
        concat(maker.title.as_str(), " 3.7 Sonnet").as_str(),
        200_000,
        64_000,
        200_000,
    );
    m.supports_images = true;
    m.supports_pdf = true;
    m.thinking = ModelThinkingLevel::High;
    m.cost_rates = cache_prices("3.0", "15.0", "0.3", "3.75");
    models.push(m);
    assert(views::all(models@) =~= anthropic_models(maker@));
    models
}

/// Every request names the version of the protocol, and adds nothing else.
pub proof fn law_requests_name_the_version(other: Seq<char>)
    requires
        other != "anthropic-version"@,
    ensures
        headers().contains_key("anthropic-version"@),
        headers()["anthropic-version"@] == "2023-06-01"@,
        !headers().contains_key(other),
{
}

} // verus!
