//! Providers that speak the chat completions protocol and take a key.
use vstd::prelude::*;
use crate::auth::types;
use crate::auth::types::{
    ask_env, clone_opt_texts, resolve_key, ApiKeyAuth, ApiKeyCredential, AuthCheck, AuthContext,
    AuthInteraction, AuthPrompt, AuthResult,
};
use crate::codex::run::StreamEnd;
use crate::providers::listing;
use crate::providers::listing::{end_unavailable, fill_in};
use crate::text;
use crate::text::{chars_of, concat, concat3, ends_with, text_range};
use crate::types::{
    clone_models, CancellationToken, Model, ModelView, ProviderHeaders,
};
use crate::views;
use crate::views::clone_opt_text;

verus! {

broadcast use crate::views::group_views;

/// What a provider is reached and asked for with.
pub struct GenericCompatConfig {
    pub base_url: String,
    /// The variable whose value counts more than the base URL, where there is one.
    pub base_url_var: Option<String>,
    /// The variable that a key is looked for in.
    pub env_var: String,
    /// The name that people know.
    pub display_name: String,
    /// What a key looks like.
    pub key_placeholder: String,
    /// Headers of every request.
    pub extra_headers: Option<ProviderHeaders>,
    pub default_models: Vec<Model>,
}

#[verifier::ext_equal]
pub struct CompatConfigView {
    pub base_url: Seq<char>,
    pub base_url_var: Option<Seq<char>>,
    pub env_var: Seq<char>,
    pub display_name: Seq<char>,
    pub key_placeholder: Seq<char>,
    pub extra_headers: Option<Map<Seq<char>, Seq<char>>>,
    pub default_models: Seq<ModelView>,
}

impl View for GenericCompatConfig {
    type V = CompatConfigView;

    open spec fn view(&self) -> CompatConfigView {
        CompatConfigView {
            base_url: self.base_url@,
            base_url_var: views::opt(self.base_url_var),
            env_var: self.env_var@,
            display_name: self.display_name@,
            key_placeholder: self.key_placeholder@,
            extra_headers: crate::types::opt_texts(self.extra_headers),
            default_models: views::all(self.default_models@),
        }
    }
}

/// A key of a provider, and where it is looked for.
pub struct GenericCompatApiKeyAuth {
    pub env_var: String,
    pub base_url: String,
    pub base_url_var: Option<String>,
    pub name: String,
    pub placeholder: String,
    pub extra_headers: Option<ProviderHeaders>,
}

/// A text without the endings `suffix`, however often it has them.
pub open spec fn without_endings(s: Seq<char>, suffix: Seq<char>) -> Seq<char>
    decreases s.len(),
{
    if suffix.len() > 0 && text::ends(s, suffix) {
        without_endings(s.take(s.len() - suffix.len()), suffix)
    } else {
        s
    }
}

fn trim_endings(s: &str, suffix: &str) -> (r: String)
    requires
        suffix@.len() > 0,
    ensures
        r@ == without_endings(s@, suffix@),
    decreases s@.len(),
{
    if ends_with(s, suffix) {
        let x: Vec<char> = chars_of(s);
        let y: Vec<char> = chars_of(suffix);
        let shorter: String = text_range(&x, 0, x.len() - y.len());
        assert(shorter@ =~= s@.take(s@.len() - suffix@.len()));
        trim_endings(shorter.as_str(), suffix)
    } else {
        s.to_owned()
    }
}

/// What someone who was asked for a key brings about: an entered key is a credential
/// that holds it and nothing else, and a refusal is handed on.
pub open spec fn comes_to(
    answer: Result<String, String>,
    r: Result<ApiKeyCredential, String>,
) -> bool {
    match (answer, r) {
        (Ok(key), Ok(c)) => c@ == types::plain_key(key@),
        (Err(e), Err(f)) => e@ == f@,
        _ => false,
    }
}

impl GenericCompatApiKeyAuth {
    /// The key of a provider.
    pub fn new(cfg: &GenericCompatConfig) -> (r: GenericCompatApiKeyAuth)
        ensures
            r.env_var@ == cfg@.env_var,
            r.base_url@ == cfg@.base_url,
            views::opt(r.base_url_var) == cfg@.base_url_var,
            r.name@ == cfg@.display_name + " API key"@,
            r.placeholder@ == cfg@.key_placeholder,
            crate::types::opt_texts(r.extra_headers) == cfg@.extra_headers,
    {
        GenericCompatApiKeyAuth {
            env_var: cfg.env_var.clone(),
            base_url: cfg.base_url.clone(),
            base_url_var: clone_opt_text(&cfg.base_url_var),
            name: concat(cfg.display_name.as_str(), " API key"),
            placeholder: cfg.key_placeholder.clone(),
            extra_headers: clone_opt_texts(&cfg.extra_headers),
        }
    }

    /// Whether a prompt asks for a key of this provider, in secret.
    pub open spec fn asks_for_key(
        &self,
        prompt: AuthPrompt,
        signal: Option<CancellationToken>,
    ) -> bool {
        match prompt {
            AuthPrompt::Secret { message, placeholder, signal: s } => {
                &&& message@ == "Enter your "@ + without_endings(self.name@, " API key"@)
                    + " API key:"@
                &&& views::opt(placeholder) == Some(self.placeholder@)
                &&& s == signal
            },
            _ => false,
        }
    }

    /// What someone who enters a key is asked.
    pub fn login_prompt(&self, signal: Option<CancellationToken>) -> (r: AuthPrompt)
        ensures
            self.asks_for_key(r, signal),
    {
        proof {
            reveal_strlit(" API key");
        }
        AuthPrompt::Secret {
            message: concat3(
                "Enter your ",
                trim_endings(self.name.as_str(), " API key").as_str(),
                " API key:",
            ),
            placeholder: Some(self.placeholder.clone()),
            signal,
        }
    }

    /// What an answer to the prompt comes to: the key alone, or why there is none.
    pub fn login_with(&self, answer: Result<String, String>) -> (r: Result<ApiKeyCredential, String>)
        ensures
            comes_to(answer, r),
    {
        match answer {
            Ok(key) => Ok(ApiKeyCredential::from_key(key)),
            Err(e) => Err(e),
        }
    }

    /// What requests are authorised with, given what the environment holds.
    pub fn resolve_with(
        &self,
        credential: Option<&ApiKeyCredential>,
        env_key: Option<String>,
        env_base_url: Option<String>,
    ) -> (r: AuthResult)
        ensures
            r@ == types::key_result(
                types::opt_key(credential),
                views::opt(env_key),
                self.env_var@,
                crate::types::opt_texts(self.extra_headers),
                views::or(views::opt(env_base_url), self.base_url@),
            ),
    {
        resolve_key(
            credential,
            env_key,
            self.env_var.as_str(),
            clone_opt_texts(&self.extra_headers),
            match env_base_url {
                Some(url) => url,
                None => self.base_url.clone(),
            },
        )
    }

    /// Whether this is what the surroundings gave for the base URL: nothing where there
    /// is no variable for it.
    pub open spec fn base_url_found<C: AuthContext>(&self, ctx: &C, answer: Option<String>) -> bool {
        match self.base_url_var {
            Some(name) => types::env_holds(ctx, name@, answer),
            None => answer is None,
        }
    }
}

impl ApiKeyAuth for GenericCompatApiKeyAuth {
    fn name(&self) -> (r: &str)
        ensures
            r@ == self.name@,
    {
        self.name.as_str()
    }

    /// Asks for a key, and makes a credential of the one that is entered. The
    /// result is that of the answer which the interaction gave to that prompt.
    fn login<I: AuthInteraction>(&self, interaction: &I) -> (r: Result<ApiKeyCredential, String>)
        ensures
            exists|
                signal: Option<CancellationToken>,
                prompt: AuthPrompt,
                answer: Result<String, String>,
            |
                {
                    &&& #[trigger] call_ensures(I::signal, (interaction,), signal)
                    &&& self.asks_for_key(prompt, signal)
                    &&& #[trigger] call_ensures(I::prompt, (interaction, prompt), answer)
                    &&& comes_to(answer, r)
                },
    {
        let signal: Option<CancellationToken> = interaction.signal();
        self.login_with(interaction.prompt(self.login_prompt(signal)))
    }

    fn check<C: AuthContext>(
        &self,
        ctx: &C,
        credential: Option<&ApiKeyCredential>,
        signal: &CancellationToken,
    ) -> (r: Option<AuthCheck>)
        ensures
            r is None,
    {
        None
    }

    /// What requests are authorised with, given what the surroundings answer when they
    /// are asked for the variable of the key and for that of the base URL.
    fn resolve<C: AuthContext>(
        &self,
        ctx: &C,
        credential: Option<&ApiKeyCredential>,
        signal: &CancellationToken,
    ) -> (r: Option<AuthResult>)
        ensures
            r is Some,
            exists|env_key: Option<String>, env_base_url: Option<String>|
                {
                    &&& #[trigger] types::env_holds(ctx, self.env_var@, env_key)
                    &&& #[trigger] self.base_url_found(ctx, env_base_url)
                    &&& r->0@ == types::key_result(
                        types::opt_key(credential),
                        views::opt(env_key),
                        self.env_var@,
                        crate::types::opt_texts(self.extra_headers),
                        views::or(views::opt(env_base_url), self.base_url@),
                    )
                },
    {
        let env_key: Option<String> = ask_env(ctx, self.env_var.as_str());
        let env_base_url: Option<String> = match &self.base_url_var {
            Some(name) => ask_env(ctx, name.as_str()),
            None => None,
        };
        assert(self.base_url_found(ctx, env_base_url));
        Some(self.resolve_with(credential, env_key, env_base_url))
    }
}

/// A provider that speaks the chat completions protocol.
pub struct GenericCompatProvider {
    pub id: String,
    pub name: String,
    pub config: GenericCompatConfig,
}

#[verifier::ext_equal]
pub struct CompatProviderView {
    pub id: Seq<char>,
    pub name: Seq<char>,
    pub config: CompatConfigView,
}

impl View for GenericCompatProvider {
    type V = CompatProviderView;

    open spec fn view(&self) -> CompatProviderView {
        CompatProviderView { id: self.id@, name: self.name@, config: self.config@ }
    }
}

/// What is said of a provider that cannot stream.
pub open spec fn no_adapter(name: Seq<char>) -> Seq<char> {
    name
        + " live adapter not available in this build (OpenAI-compat wire protocol shared adapter TBD)"@
}

impl GenericCompatProvider {
    pub fn new(id: &str, name: &str, config: GenericCompatConfig) -> (r: GenericCompatProvider)
        ensures
            r@ == (CompatProviderView { id: id@, name: name@, config: config@ }),
    {
        GenericCompatProvider { id: id.to_owned(), name: name.to_owned(), config }
    }

    pub fn config<'a>(&'a self) -> (r: &'a GenericCompatConfig)
        ensures
            *r == self.config,
    {
        &self.config
    }

    /// The key of the provider.
    pub fn api_key_auth(&self) -> (r: GenericCompatApiKeyAuth)
        ensures
            r.env_var@ == self@.config.env_var,
            r.base_url@ == self@.config.base_url,
            views::opt(r.base_url_var) == self@.config.base_url_var,
            r.name@ == self@.config.display_name + " API key"@,
            r.placeholder@ == self@.config.key_placeholder,
            crate::types::opt_texts(r.extra_headers) == self@.config.extra_headers,
    {
        GenericCompatApiKeyAuth::new(&self.config)
    }

    /// The catalogue.
    pub fn get_models(&self) -> (r: Vec<Model>)
        ensures
            views::all(r@) == self@.config.default_models,
    {
        clone_models(&self.config.default_models)
    }

    /// The end of every stream: the provider cannot stream.
    pub fn stream_end(&self, now: i64) -> (r: StreamEnd)
        ensures
            r.event@ == listing::unavailable(self@.id, no_adapter(self@.name), now).0,
            views::opt(r.result) == Some(
                listing::unavailable(self@.id, no_adapter(self@.name), now).1,
            ),
    {
        end_unavailable(
            self.id.as_str(),
            concat(
                self.name.as_str(),
                " live adapter not available in this build (OpenAI-compat wire protocol shared adapter TBD)",
            ),
            now,
        )
    }
}

/// What a provider is described by.
pub struct CompatProviderSpec<'a> {
    pub id: &'a str,
    pub display_name: &'a str,
    pub base_url: &'a str,
    pub base_url_var: Option<&'a str>,
    pub env_var: &'a str,
    pub key_placeholder: &'a str,
    pub api_label: &'a str,
    pub default_models: Vec<Model>,
    pub extra_headers: Option<ProviderHeaders>,
}

/// The provider that a description stands for.
pub open spec fn described(
    id: Seq<char>,
    display_name: Seq<char>,
    base_url: Seq<char>,
    env_var: Seq<char>,
    key_placeholder: Seq<char>,
    api_label: Seq<char>,
    default_models: Seq<ModelView>,
    extra_headers: Option<Map<Seq<char>, Seq<char>>>,
) -> CompatProviderView {
    CompatProviderView {
        id,
        name: display_name,
        config: CompatConfigView {
            base_url,
            base_url_var: None,
            env_var,
            display_name,
            key_placeholder,
            extra_headers,
            default_models: listing::all_filled_in(default_models, id, api_label),
        },
    }
}

/// A provider whose base URL is looked for in a variable first.
pub open spec fn reached_by(p: CompatProviderView, base_url_var: Seq<char>) -> CompatProviderView {
    CompatProviderView {
        config: CompatConfigView { base_url_var: Some(base_url_var), ..p.config },
        ..p
    }
}

/// Builds the provider that a description stands for.
pub fn build_compat_provider(entry: CompatProviderSpec) -> (r: GenericCompatProvider)
    ensures
        ({
            let p = described(
                entry.id@,
                entry.display_name@,
                entry.base_url@,
                entry.env_var@,
                entry.key_placeholder@,
                entry.api_label@,
                views::all(entry.default_models@),
                crate::types::opt_texts(entry.extra_headers),
            );
            r@ == match entry.base_url_var {
                Some(name) => reached_by(p, name@),
                None => p,
            }
        }),
{
    let models: Vec<Model> = fill_in(entry.default_models, entry.id, entry.api_label);
    GenericCompatProvider::new(
        entry.id,
        entry.display_name,
        GenericCompatConfig {
            base_url: entry.base_url.to_owned(),
            base_url_var: match entry.base_url_var {
                Some(name) => Some(name.to_owned()),
                None => None,
            },
            env_var: entry.env_var.to_owned(),
            display_name: entry.display_name.to_owned(),
            key_placeholder: entry.key_placeholder.to_owned(),
            extra_headers: entry.extra_headers,
            default_models: models,
        },
    )
}

/// A text loses an ending however often it has it, and nothing else.
pub proof fn law_endings_are_taken_off(s: Seq<char>, suffix: Seq<char>)
    requires
        suffix.len() > 0,
    ensures
        without_endings(s + suffix, suffix) == without_endings(s, suffix),
        !text::ends(s, suffix) ==> without_endings(s, suffix) == s,
        !text::ends(without_endings(s, suffix), suffix),
        text::begins(s, without_endings(s, suffix)),
    decreases s.len(),
{
    let all = s + suffix;
    assert(all.skip(all.len() - suffix.len()) =~= suffix);
    assert(all.take(all.len() - suffix.len()) =~= s);
    let t = without_endings(s, suffix);
    if text::ends(s, suffix) {
        let shorter = s.take(s.len() - suffix.len());
        law_endings_are_taken_off(shorter, suffix);
        assert(s.take(t.len() as int) =~= shorter.take(t.len() as int));
    } else {
        assert(s.take(t.len() as int) =~= s);
    }
}

/// A description makes a provider of that id and name, reached and asked for as it says, whose
/// models are all its own; a variable for the base URL changes nothing else.
pub proof fn law_provider_is_as_described(
    id: Seq<char>,
    display_name: Seq<char>,
    base_url: Seq<char>,
    env_var: Seq<char>,
    key_placeholder: Seq<char>,
    api_label: Seq<char>,
    models: Seq<ModelView>,
    extra_headers: Option<Map<Seq<char>, Seq<char>>>,
    base_url_var: Seq<char>,
)
    ensures
        ({
            let p = described(
                id,
                display_name,
                base_url,
                env_var,
                key_placeholder,
                api_label,
                models,
                extra_headers,
            );
            &&& p.id == id
            &&& p.name == display_name
            &&& p.config.base_url == base_url
            &&& p.config.base_url_var is None
            &&& p.config.env_var == env_var
            &&& p.config.display_name == display_name
            &&& p.config.key_placeholder == key_placeholder
            &&& p.config.extra_headers == extra_headers
            &&& p.config.default_models.len() == models.len()
            &&& forall|i: int|
                0 <= i < models.len() ==> (#[trigger] p.config.default_models[i]).id == models[i].id
            &&& forall|i: int|
                0 <= i < models.len() && models[i].provider_id.len() == 0 ==> (
                #[trigger] p.config.default_models[i]).provider_id == id
            &&& forall|i: int|
                0 <= i < models.len() && models[i].api.len() == 0 ==> (
                #[trigger] p.config.default_models[i]).api == api_label
            &&& {
                let q = reached_by(p, base_url_var);
                &&& q.config.base_url_var == Some(base_url_var)
                &&& q.id == p.id
                &&& q.name == p.name
                &&& q.config.base_url == base_url
                &&& q.config.env_var == env_var
                &&& q.config.default_models == p.config.default_models
            }
        }),
{
}

/// What is said of a provider that cannot stream begins with its name.
pub proof fn law_missing_adapter_is_named(name: Seq<char>)
    ensures
        text::begins(no_adapter(name), name),
{
    assert(no_adapter(name).take(name.len() as int) =~= name);
}

} // verus!
