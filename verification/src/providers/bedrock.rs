//! Amazon Bedrock.
use vstd::prelude::*;
use crate::auth::types;
use crate::auth::types::{ask_env, resolve_key, ApiKeyCredential, AuthContext, AuthPrompt, AuthResult};
use crate::codex::run::StreamEnd;
use crate::providers::listing;
use crate::providers::listing::{end_unavailable, new_chat_model, prices, MakerName, MakerView};
use crate::text::{concat, concat3};
use crate::types::{clone_models, CancellationToken, Model, ModelThinkingLevel, ModelView};
use crate::views;

verus! {

broadcast use crate::views::group_views;

/// What the provider is reached and asked for with.
pub struct BedrockProviderConfig {
    pub region: String,
    pub env_var: String,
    pub default_models: Vec<Model>,
}

/// A provider of this kind.
pub struct BedrockProvider {
    pub id: String,
    pub name: String,
    pub config: BedrockProviderConfig,
}

impl BedrockProvider {
    pub fn new(id: &str, name: &str, config: BedrockProviderConfig) -> (r: BedrockProvider)
        ensures
            r.id@ == id@,
            r.name@ == name@,
            r.config == config,
    {
        BedrockProvider { id: id.to_owned(), name: name.to_owned(), config }
    }

    /// The catalogue.
    pub fn get_models(&self) -> (r: Vec<Model>)
        ensures
            views::all(r@) == views::all(self.config.default_models@),
    {
        clone_models(&self.config.default_models)
    }

    /// The name of the key.
    pub fn auth_name(&self) -> (r: String)
        ensures
            r@ == "Amazon Bedrock Bearer Token"@,
    {
        "Amazon Bedrock Bearer Token".to_owned()
    }

    /// What someone who enters a key is asked.
    pub fn login_prompt(&self, signal: Option<CancellationToken>) -> (r: AuthPrompt)
        ensures
            match r {
                AuthPrompt::Secret { message, placeholder, signal: s } => {
                    &&& message@ == "Enter your AWS_BEARER_TOKEN_BEDROCK (region "@ + self.config.region@ + "):"@
                    &&& views::opt(placeholder) == Some("eyJ... (SigV4-minted bearer)"@)
                    &&& s == signal
                },
                _ => false,
            },
    {
        AuthPrompt::Secret {
            message: concat3(
                "Enter your AWS_BEARER_TOKEN_BEDROCK (region ",
                self.config.region.as_str(),
                "):",
            ),
            placeholder: Some("eyJ... (SigV4-minted bearer)".to_owned()),
            signal,
        }
    }

    /// What requests are authorised with, given what the environment holds.
    pub fn resolve_with(&self, credential: Option<&ApiKeyCredential>, env_key: Option<String>) -> (r:
        AuthResult)
        ensures
            r@ == types::key_result(
                types::opt_key(credential),
                views::opt(env_key),
                self.config.env_var@,
                None,
                "https://bedrock-runtime."@ + self.config.region@ + ".amazonaws.com"@,
            ),
    {
        resolve_key(
            credential,
            env_key,
            self.config.env_var.as_str(),
            None,
            concat3("https://bedrock-runtime.", self.config.region.as_str(), ".amazonaws.com"),
        )
    }

    /// What requests are authorised with, given what the surroundings answer when they
    /// are asked for the key.
    pub fn resolve<C: AuthContext>(&self, ctx: &C, credential: Option<&ApiKeyCredential>) -> (r:
        AuthResult)
        ensures
            exists|key: Option<String>|
                {
                    &&& #[trigger] types::env_holds(ctx, self.config.env_var@, key)
                    &&& r@ == types::key_result(
                        types::opt_key(credential),
                        views::opt(key),
                        self.config.env_var@,
                        None,
                        "https://bedrock-runtime."@ + self.config.region@ + ".amazonaws.com"@,
                    )
                },
    {
        let key: Option<String> = ask_env(ctx, self.config.env_var.as_str());
        self.resolve_with(credential, key)
    }

    /// The end of every stream: the provider cannot stream.
    pub fn stream_end(&self, now: i64) -> (r: StreamEnd)
        ensures
            ({
                let end = listing::unavailable(
                    self.id@,
                    "Bedrock live adapter not available in this build"@,
                    now,
                );
                r.event@ == end.0 && views::opt(r.result) == Some(end.1)
            }),
    {
        end_unavailable(self.id.as_str(), "Bedrock live adapter not available in this build".to_owned(), now)
    }
}

/// The provider Amazon Bedrock.
///
/// `maker` says how the name of the family of models is written, in ids and addresses and in
/// titles.
pub fn bedrock_provider(maker: &MakerName) -> (r: BedrockProvider)
    ensures
        r.id@ == "amazon-bedrock"@,
        r.name@ == "Amazon Bedrock"@,
        r.config.region@ == "us-east-1"@,
        r.config.env_var@ == "AWS_BEARER_TOKEN_BEDROCK"@,
        views::all(r.config.default_models@) == bedrock_models(maker@),
{
    BedrockProvider::new(
        "amazon-bedrock",
        "Amazon Bedrock",
        BedrockProviderConfig {
            region: "us-east-1".to_owned(),
            env_var: "AWS_BEARER_TOKEN_BEDROCK".to_owned(),
            default_models: default_models(maker),
        },
    )
}

/// The catalogue of Amazon Bedrock.
pub open spec fn bedrock_models(maker: MakerView) -> Seq<ModelView> {
    seq![
        ModelView {
            supports_images: true,
            supports_pdf: true,
            thinking: ModelThinkingLevel::High,
            cost_rates: listing::priced("3.0"@, "15.0"@),
            ..listing::chat_model(
                "amazon-bedrock"@,
                "bedrock-converse-stream"@,
                "anthropic."@ + maker.word + "-3-7-sonnet-20250219-v1:0"@,
                maker.title + " 3.7 Sonnet (Bedrock)"@,
                200_000,
                64_000,
                200_000,
            )
        },
        listing::chat_model(
            "amazon-bedrock"@,
            "bedrock-converse-stream"@,
            "meta.llama3-2-70b-instruct-v1:0"@,
            "Llama 3.2 70B Instruct (Bedrock)"@,
            128_000,
            8_192,
            128_000,
        ),
    ]
}

fn default_models(maker: &MakerName) -> (r: Vec<Model>)
    ensures
        views::all(r@) == bedrock_models(maker@),
{
    let mut models: Vec<Model> = Vec::new();
    let mut m: Model = new_chat_model(
        "amazon-bedrock",
        "bedrock-converse-stream",
        concat3("anthropic.", maker.word.as_str(), "-3-7-sonnet-20250219-v1:0").as_str(),
        concat(maker.title.as_str(), " 3.7 Sonnet (Bedrock)").as_str(),
        200_000,
        64_000,
        200_000,
    );
    m.supports_images = true;
    m.supports_pdf = true;
    m.thinking = ModelThinkingLevel::High;
    m.cost_rates = prices("3.0", "15.0");
    models.push(m);
    let m: Model = new_chat_model(
        "amazon-bedrock",
        "bedrock-converse-stream",
        "meta.llama3-2-70b-instruct-v1:0",
        "Llama 3.2 70B Instruct (Bedrock)",
        128_000,
        8_192,
        128_000,
    );
    models.push(m);
    assert(views::all(models@) =~= bedrock_models(maker@));
    models
}

} // verus!
