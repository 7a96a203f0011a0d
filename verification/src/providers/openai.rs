//! OpenAI.
use vstd::prelude::*;
use crate::auth::types;
use crate::auth::types::{ask_env, resolve_key, ApiKeyCredential, AuthContext, AuthPrompt, AuthResult};
use crate::codex::run::StreamEnd;
use crate::dict;
use crate::dict::Dict;
use crate::providers::listing;
use crate::providers::listing::{end_unavailable, new_chat_model, prices};
use crate::text::{concat, concat3};
use crate::types::{clone_models, CancellationToken, Model, ModelView};
use crate::views;

verus! {

broadcast use crate::views::group_views;

/// What the provider is reached and asked for with.
pub struct OpenAIProviderConfig {
    pub base_url: String,
    pub env_var: String,
    pub default_models: Vec<Model>,
}

/// The variable whose value counts more than the base URL.
pub const BASE_URL_VAR: &'static str = "OPENAI_BASE_URL";

/// The variable that names the organisation.
pub const ORGANIZATION_VAR: &'static str = "OPENAI_ORG_ID";

/// The headers of every request: that of the organisation, where there is one.
pub open spec fn organization_headers(organization: Option<Seq<char>>) -> Option<
    Map<Seq<char>, Seq<char>>,
> {
    match organization {
        Some(id) => Some(
            Map::<Seq<char>, Seq<char>>::empty().insert("OpenAI-Organization"@, id),
        ),
        None => None,
    }
}

/// A provider of this kind.
pub struct OpenAIProvider {
    pub id: String,
    pub name: String,
    pub config: OpenAIProviderConfig,
}

impl OpenAIProvider {
    pub fn new(id: &str, name: &str, config: OpenAIProviderConfig) -> (r: OpenAIProvider)
        ensures
            r.id@ == id@,
            r.name@ == name@,
            r.config == config,
    {
        OpenAIProvider { id: id.to_owned(), name: name.to_owned(), config }
    }

    /// The catalogue.
    pub fn get_models(&self) -> (r: Vec<Model>)
        ensures
            views::all(r@) == views::all(self.config.default_models@),
    {
        clone_models(&self.config.default_models)
    }

    /// The name of the key.
    pub fn auth_name(&self) -> (r: String)
        ensures
            r@ == self.name@ + " API key"@,
    {
        concat(self.name.as_str(), " API key")
    }

    /// What someone who enters a key is asked.
    pub fn login_prompt(&self, signal: Option<CancellationToken>) -> (r: AuthPrompt)
        ensures
            match r {
                AuthPrompt::Secret { message, placeholder, signal: s } => {
                    &&& message@ == "Enter your "@ + (self.name@ + " API key"@) + " API key:"@
                    &&& views::opt(placeholder) == Some("sk-..."@)
                    &&& s == signal
                },
                _ => false,
            },
    {
        AuthPrompt::Secret {
            message: concat3(
                "Enter your ",
                self.auth_name().as_str(),
                " API key:",
            ),
            placeholder: Some("sk-...".to_owned()),
            signal,
        }
    }

    /// What requests are authorised with, given what the environment holds: a key, a base
    /// URL and an organisation.
    pub fn resolve_with(
        &self,
        credential: Option<&ApiKeyCredential>,
        env_key: Option<String>,
        env_base_url: Option<String>,
        env_organization: Option<String>,
    ) -> (r: AuthResult)
        ensures
            r@ == types::key_result(
                types::opt_key(credential),
                views::opt(env_key),
                self.config.env_var@,
                organization_headers(views::opt(env_organization)),
                views::or(views::opt(env_base_url), self.config.base_url@),
            ),
    {
        let headers: Option<Dict<String>> = match env_organization {
            Some(id) => {
                let mut h: Dict<String> = Dict::new();
                h.insert("OpenAI-Organization", id);
                assert(dict::texts(h@) =~= organization_headers(Some(id@))->0);
                Some(h)
            },
            None => None,
        };
        resolve_key(
            credential,
            env_key,
            self.config.env_var.as_str(),
            headers,
            match env_base_url {
                Some(url) => url,
                None => self.config.base_url.clone(),
            },
        )
    }

    /// What requests are authorised with, given what the surroundings answer when they
    /// are asked for the key, the base URL and the organisation.
    pub fn resolve<C: AuthContext>(&self, ctx: &C, credential: Option<&ApiKeyCredential>) -> (r:
        AuthResult)
        ensures
            exists|key: Option<String>, base_url: Option<String>, organization: Option<String>|
                {
                    &&& #[trigger] types::env_holds(ctx, self.config.env_var@, key)
                    &&& #[trigger] types::env_holds(ctx, BASE_URL_VAR@, base_url)
                    &&& #[trigger] types::env_holds(ctx, ORGANIZATION_VAR@, organization)
                    &&& r@ == types::key_result(
                        types::opt_key(credential),
                        views::opt(key),
                        self.config.env_var@,
                        organization_headers(views::opt(organization)),
                        views::or(views::opt(base_url), self.config.base_url@),
                    )
                },
    {
        let key: Option<String> = ask_env(ctx, self.config.env_var.as_str());
        let base_url: Option<String> = ask_env(ctx, BASE_URL_VAR);
        let organization: Option<String> = ask_env(ctx, ORGANIZATION_VAR);
        self.resolve_with(credential, key, base_url, organization)
    }

    /// The end of every stream: the provider cannot stream.
    pub fn stream_end(&self, now: i64) -> (r: StreamEnd)
        ensures
            ({
                let end = listing::unavailable(
                    "openai"@,
                    "OpenAI live adapter not available in this build"@,
                    now,
                );
                r.event@ == end.0 && views::opt(r.result) == Some(end.1)
            }),
    {
        end_unavailable("openai", "OpenAI live adapter not available in this build".to_owned(), now)
    }
}

/// The provider OpenAI.
pub fn openai_provider() -> (r: OpenAIProvider)
    ensures
        r.id@ == "openai"@,
        r.name@ == "OpenAI"@,
        r.config.base_url@ == "https://api.openai.com/v1"@,
        r.config.env_var@ == "OPENAI_API_KEY"@,
        views::all(r.config.default_models@) == openai_models(),
{
    OpenAIProvider::new(
        "openai",
        "OpenAI",
        OpenAIProviderConfig {
            base_url: "https://api.openai.com/v1".to_owned(),
            env_var: "OPENAI_API_KEY".to_owned(),
            default_models: default_models(),
        },
    )
}

/// The catalogue of OpenAI.
pub open spec fn openai_models() -> Seq<ModelView> {
    seq![
        ModelView {
            supports_images: true,
            supports_audio: true,
            cost_rates: listing::priced("0.15"@, "0.6"@),
            ..listing::chat_model(
                "openai"@,
                "openai-chat-completions"@,
                "gpt-4o-mini"@,
                "GPT-4o Mini"@,
                128_000,
                16_384,
                128_000,
            )
        },
        ModelView {
            supports_images: true,
            supports_audio: true,
            supports_video: true,
            cost_rates: listing::priced("2.5"@, "10.0"@),
            ..listing::chat_model(
                "openai"@,
                "openai-chat-completions"@,
                "gpt-4o"@,
                "GPT-4o"@,
                128_000,
                16_384,
                128_000,
            )
        },
    ]
}

fn default_models() -> (r: Vec<Model>)
    ensures
        views::all(r@) == openai_models(),
{
    let mut models: Vec<Model> = Vec::new();
    let mut m: Model = new_chat_model(
        "openai",
        "openai-chat-completions",
        "gpt-4o-mini",
        "GPT-4o Mini",
        128_000,
        16_384,
        128_000,
    );
    m.supports_images = true;
    m.supports_audio = true;
    m.cost_rates = prices("0.15", "0.6");
    models.push(m);
    let mut m: Model = new_chat_model(
        "openai",
        "openai-chat-completions",
        "gpt-4o",
        "GPT-4o",
        128_000,
        16_384,
        128_000,
    );
    m.supports_images = true;
    m.supports_audio = true;
    m.supports_video = true;
    m.cost_rates = prices("2.5", "10.0");
    models.push(m);
    assert(views::all(models@) =~= openai_models());
    models
}

/// A request names the organisation that is known, and no other header is added.
pub proof fn law_organisation_is_named(id: Seq<char>, other: Seq<char>)
    requires
        other != "OpenAI-Organization"@,
    ensures
        organization_headers(Some(id)) is Some,
        organization_headers(Some(id))->0.contains_key("OpenAI-Organization"@),
        organization_headers(Some(id))->0["OpenAI-Organization"@] == id,
        !organization_headers(Some(id))->0.contains_key(other),
        organization_headers(None) is None,
{
}

} // verus!
