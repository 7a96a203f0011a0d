//! GitHub Copilot.
use vstd::prelude::*;
use crate::oauth::provider::{build_oauth_provider, GenericOAuthProvider, OAuthProviderSpec};
use crate::providers::listing;
use crate::providers::listing::{new_chat_model, MakerName, MakerView};
use crate::text::concat;
use crate::types::{Model, ModelThinkingLevel, ModelView};
use crate::views;

verus! {

broadcast use crate::views::group_views;

pub type GitHubCopilotProvider = GenericOAuthProvider;

/// What people allow the provider to do.
pub open spec fn scopes() -> Seq<Seq<char>> {
    seq!["read:user"@]
}

/// The provider GitHub Copilot.
///
/// `maker` says how the name of the family of models is written, in ids and addresses and in
/// titles.
pub fn github_copilot_provider(maker: &MakerName) -> (r: GitHubCopilotProvider)
    ensures
        r.id@ == "github-copilot"@,
        r.name@ == "GitHub Copilot"@,
        r.config.base_url@ == "https://api.githubcopilot.com"@,
        r.config.client_id@ == "Iv1.b507a3c57e6377c4"@,
        views::all(r.config.scopes@) == scopes(),
        r.config.auth_url is None,
        views::opt(r.config.token_url) == Some("https://github.com/login/oauth/access_token"@),
        views::opt(r.config.device_auth_url) == Some("https://github.com/login/device/code"@),
        r.config.redirect_uri is None,
        views::opt(r.config.login_label) == Some("GitHub Copilot"@),
        r.config.display_name@ == "GitHub Copilot"@,
        r.config.is_subscription == true,
        r.config.api_label@ == "openai-chat-completions"@,
        r.config.extra_headers is None,
        views::all(r.config.default_models@) == listing::all_filled_in(
            github_copilot_models(maker@),
            "github-copilot"@,
            "openai-chat-completions"@,
        ),
{
    let mut scope_list: Vec<String> = Vec::new();
    scope_list.push("read:user".to_owned());
    assert(views::all(scope_list@) =~= scopes());
    build_oauth_provider(
        OAuthProviderSpec {
            id: "github-copilot",
            display_name: "GitHub Copilot",
            base_url: "https://api.githubcopilot.com",
            client_id: "Iv1.b507a3c57e6377c4",
            scopes: scope_list,
            auth_url: None,
            token_url: Some("https://github.com/login/oauth/access_token"),
            device_auth_url: Some("https://github.com/login/device/code"),
            redirect_uri: None,
            is_subscription: true,
            login_label: Some("GitHub Copilot"),
            api_label: "openai-chat-completions",
            default_models: default_models(maker),
            extra_headers: None,
        },
    )
}

/// The catalogue of GitHub Copilot.
pub open spec fn github_copilot_models(maker: MakerView) -> Seq<ModelView> {
    seq![
        ModelView {
            supports_images: true,
            ..listing::chat_model(
                "github-copilot"@,
                "openai-chat-completions"@,
                "gpt-4o"@,
                "GPT-4o (Copilot)"@,
                128_000,
                16_384,
                128_000,
            )
        },
        ModelView {
            supports_images: true,
            thinking: ModelThinkingLevel::High,
            ..listing::chat_model(
                "github-copilot"@,
                "openai-chat-completions"@,
                maker.word + "-3.7-sonnet"@,
                maker.title + " 3.7 Sonnet (Copilot)"@,
                200_000,
                64_000,
                200_000,
            )
        },
        ModelView {
            supports_images: true,
            ..listing::chat_model(
                "github-copilot"@,
                "openai-chat-completions"@,
                "gemini-2.0-flash"@,
                "Gemini 2.0 Flash (Copilot)"@,
                1_000_000,
                65_536,
                1_000_000,
            )
        },
        ModelView {
            supports_system_prompt: false,
            thinking: ModelThinkingLevel::Medium,
            reasoning: true,
            ..listing::chat_model(
                "github-copilot"@,
                "openai-chat-completions"@,
                "o3-mini"@,
                "o3-mini (Copilot)"@,
                200_000,
                100_000,
                200_000,
            )
        },
    ]
}

fn default_models(maker: &MakerName) -> (r: Vec<Model>)
    ensures
        views::all(r@) == github_copilot_models(maker@),
{
    let mut models: Vec<Model> = Vec::new();
    let mut m: Model = new_chat_model(
        "github-copilot",
        "openai-chat-completions",
        "gpt-4o",
        "GPT-4o (Copilot)",
        128_000,
        16_384,
        128_000,
    );
    m.supports_images = true;
    models.push(m);
    let mut m: Model = new_chat_model(
        "github-copilot",
        "openai-chat-completions",
        concat(maker.word.as_str(), "-3.7-sonnet").as_str(),
        concat(maker.title.as_str(), " 3.7 Sonnet (Copilot)").as_str(),
        200_000,
        64_000,
        200_000,
    );
    m.supports_images = true;
    m.thinking = ModelThinkingLevel::High;
    models.push(m);
    let mut m: Model = new_chat_model(
        "github-copilot",
        "openai-chat-completions",
        "gemini-2.0-flash",
        "Gemini 2.0 Flash (Copilot)",
        1_000_000,
        65_536,
        1_000_000,
    );
    m.supports_images = true;
    models.push(m);
    let mut m: Model = new_chat_model(
        "github-copilot",
        "openai-chat-completions",
        "o3-mini",
        "o3-mini (Copilot)",
        200_000,
        100_000,
        200_000,
    );
    m.supports_system_prompt = false;
    m.thinking = ModelThinkingLevel::Medium;
    m.reasoning = true;
    models.push(m);
    assert(views::all(models@) =~= github_copilot_models(maker@));
    models
}

} // verus!
