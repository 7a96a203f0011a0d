//! Google Vertex AI.
use vstd::prelude::*;
use crate::auth::types;
use crate::auth::types::{ask_env, resolve_key, ApiKeyCredential, AuthContext, AuthPrompt, AuthResult};
use crate::codex::run::StreamEnd;
use crate::dict;
use crate::dict::Dict;
use crate::providers::listing;
use crate::providers::listing::{end_unavailable, new_chat_model, prices};
use crate::text::concat3;
use crate::types::{clone_models, CancellationToken, Model, ModelView};
use crate::views;

verus! {

broadcast use crate::views::group_views;

/// What the provider is reached and asked for with.
pub struct GoogleVertexProviderConfig {
    pub region: String,
    pub project_id: String,
    pub env_var: String,
    pub default_models: Vec<Model>,
}

/// A provider of this kind.
pub struct GoogleVertexProvider {
    pub id: String,
    pub name: String,
    pub config: GoogleVertexProviderConfig,
}

/// The headers of every request.
pub open spec fn headers() -> Map<Seq<char>, Seq<char>> {
    Map::<Seq<char>, Seq<char>>::empty().insert("x-goog-api-client"@, "otter-ai/0.1"@)
}

impl GoogleVertexProvider {
    pub fn new(id: &str, name: &str, config: GoogleVertexProviderConfig) -> (r: GoogleVertexProvider)
        ensures
            r.id@ == id@,
            r.name@ == name@,
            r.config == config,
    {
        GoogleVertexProvider { id: id.to_owned(), name: name.to_owned(), config }
    }

    /// The catalogue.
    pub fn get_models(&self) -> (r: Vec<Model>)
        ensures
            views::all(r@) == views::all(self.config.default_models@),
    {
        clone_models(&self.config.default_models)
    }

    /// The name of the key.
    pub fn auth_name(&self) -> (r: String)
        ensures
            r@ == "Google Vertex AI access token"@,
    {
        "Google Vertex AI access token".to_owned()
    }

    /// What someone who enters a key is asked.
    pub fn login_prompt(&self, signal: Option<CancellationToken>) -> (r: AuthPrompt)
        ensures
            match r {
                AuthPrompt::Secret { message, placeholder, signal: s } => {
                    &&& message@ == "Paste a Google Cloud access token (gcloud auth print-access-token) for project "@ + self.config.project_id@ + ":"@
                    &&& views::opt(placeholder) == Some("ya29..."@)
                    &&& s == signal
                },
                _ => false,
            },
    {
        AuthPrompt::Secret {
            message: concat3(
                "Paste a Google Cloud access token (gcloud auth print-access-token) for project ",
                self.config.project_id.as_str(),
                ":",
            ),
            placeholder: Some("ya29...".to_owned()),
            signal,
        }
    }

    /// What requests are authorised with, given what the environment holds.
    pub fn resolve_with(&self, credential: Option<&ApiKeyCredential>, env_key: Option<String>) -> (r:
        AuthResult)
        ensures
            r@ == types::key_result(
                types::opt_key(credential),
                views::opt(env_key),
                self.config.env_var@,
                Some(headers()),
                "https://"@ + self.config.region@ + "-aiplatform.googleapis.com/v1"@,
            ),
    {
        let mut h: Dict<String> = Dict::new();
        h.insert("x-goog-api-client", "otter-ai/0.1".to_owned());
        assert(dict::texts(h@) =~= headers());
        resolve_key(
            credential,
            env_key,
            self.config.env_var.as_str(),
            Some(h),
            concat3("https://", self.config.region.as_str(), "-aiplatform.googleapis.com/v1"),
        )
    }

    /// What requests are authorised with, given what the surroundings answer when they
    /// are asked for the key.
    pub fn resolve<C: AuthContext>(&self, ctx: &C, credential: Option<&ApiKeyCredential>) -> (r:
        AuthResult)
        ensures
            exists|key: Option<String>|
                {
                    &&& #[trigger] types::env_holds(ctx, self.config.env_var@, key)
                    &&& r@ == types::key_result(
                        types::opt_key(credential),
                        views::opt(key),
                        self.config.env_var@,
                        Some(headers()),
                        "https://"@ + self.config.region@ + "-aiplatform.googleapis.com/v1"@,
                    )
                },
    {
        let key: Option<String> = ask_env(ctx, self.config.env_var.as_str());
        self.resolve_with(credential, key)
    }

    /// The end of every stream: the provider cannot stream.
    pub fn stream_end(&self, now: i64) -> (r: StreamEnd)
        ensures
            ({
                let end = listing::unavailable(
                    self.id@,
                    "Google Vertex AI live adapter not available in this build"@,
                    now,
                );
                r.event@ == end.0 && views::opt(r.result) == Some(end.1)
            }),
    {
        end_unavailable(self.id.as_str(), "Google Vertex AI live adapter not available in this build".to_owned(), now)
    }
}

/// The provider Google Vertex AI.
pub fn google_vertex_provider() -> (r: GoogleVertexProvider)
    ensures
        r.id@ == "google-vertex"@,
        r.name@ == "Google Vertex AI"@,
        r.config.region@ == "us-central1"@,
        r.config.project_id@.len() == 0,
        r.config.env_var@ == "GOOGLE_APPLICATION_CREDENTIALS"@,
        views::all(r.config.default_models@) == google_vertex_models(),
{
    GoogleVertexProvider::new(
        "google-vertex",
        "Google Vertex AI",
        GoogleVertexProviderConfig {
            region: "us-central1".to_owned(),
            project_id: String::new(),
            env_var: "GOOGLE_APPLICATION_CREDENTIALS".to_owned(),
            default_models: default_models(),
        },
    )
}

/// The catalogue of Google Vertex AI.
pub open spec fn google_vertex_models() -> Seq<ModelView> {
    seq![
        ModelView {
            supports_images: true,
            supports_audio: true,
            supports_video: true,
            supports_pdf: true,
            cost_rates: listing::priced("1.25"@, "5.0"@),
            ..listing::chat_model(
                "google-vertex"@,
                "google-vertex-ai"@,
                "gemini-2.5-pro"@,
                "Gemini 2.5 Pro (Vertex AI)"@,
                1_000_000,
                65_536,
                1_000_000,
            )
        },
        ModelView {
            supports_images: true,
            supports_audio: true,
            supports_video: true,
            supports_pdf: true,
            cost_rates: listing::priced("0.1"@, "0.4"@),
            ..listing::chat_model(
                "google-vertex"@,
                "google-vertex-ai"@,
                "gemini-2.0-flash"@,
                "Gemini 2.0 Flash (Vertex AI)"@,
                1_000_000,
                65_536,
                1_000_000,
            )
        },
    ]
}

fn default_models() -> (r: Vec<Model>)
    ensures
        views::all(r@) == google_vertex_models(),
{
    let mut models: Vec<Model> = Vec::new();
    let mut m: Model = new_chat_model(
        "google-vertex",
        "google-vertex-ai",
        "gemini-2.5-pro",
        "Gemini 2.5 Pro (Vertex AI)",
        1_000_000,
        65_536,
        1_000_000,
    );
    m.supports_images = true;
    m.supports_audio = true;
    m.supports_video = true;
    m.supports_pdf = true;
    m.cost_rates = prices("1.25", "5.0");
    models.push(m);
    let mut m: Model = new_chat_model(
        "google-vertex",
        "google-vertex-ai",
        "gemini-2.0-flash",
        "Gemini 2.0 Flash (Vertex AI)",
        1_000_000,
        65_536,
        1_000_000,
    );
    m.supports_images = true;
    m.supports_audio = true;
    m.supports_video = true;
    m.supports_pdf = true;
    m.cost_rates = prices("0.1", "0.4");
    models.push(m);
    assert(views::all(models@) =~= google_vertex_models());
    models
}

/// Every request names this client, and adds nothing else.
pub proof fn law_requests_name_the_client(other: Seq<char>)
    requires
        other != "x-goog-api-client"@,
    ensures
        headers().contains_key("x-goog-api-client"@),
        headers()["x-goog-api-client"@] == "otter-ai/0.1"@,
        !headers().contains_key(other),
{
}

} // verus!
