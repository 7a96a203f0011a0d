//! OpenRouter.
use vstd::prelude::*;
use crate::dict;
use crate::dict::Dict;
use crate::providers::compat;
use crate::providers::compat::{build_compat_provider, CompatProviderSpec, GenericCompatProvider};
use crate::providers::listing;
use crate::providers::listing::{new_chat_model, prices, MakerName, MakerView};
use crate::text::{concat, concat3};
use crate::types::{Model, ModelThinkingLevel, ModelView};
use crate::views;

verus! {

broadcast use crate::views::group_views;

pub type OpenRouterProvider = GenericCompatProvider;

/// The headers of every request.
pub open spec fn headers() -> Map<Seq<char>, Seq<char>> {
    Map::<Seq<char>, Seq<char>>::empty().insert(
        "HTTP-Referer"@,
        "https://github.com/recover965455/otter-ai"@,
    ).insert(
        "X-Title"@,
        "otter-ai"@,
    )
}

/// The provider OpenRouter.
///
/// `maker` says how the name of the family of models is written, in ids and addresses and in
/// titles.
pub fn openrouter_provider(maker: &MakerName) -> (r: OpenRouterProvider)
    ensures
        r@ == compat::described(
            "openrouter"@,
            "OpenRouter"@,
            "https://openrouter.ai/api/v1"@,
            "OPENROUTER_API_KEY"@,
            "sk-or-v1-..."@,
            "openai-chat-completions"@,
            openrouter_models(maker@),
            Some(headers()),
        ),
{
    let mut extra: Dict<String> = Dict::new();
    extra.insert("HTTP-Referer", "https://github.com/recover965455/otter-ai".to_owned());
    extra.insert("X-Title", "otter-ai".to_owned());
    assert(dict::texts(extra@) =~= headers());
    build_compat_provider(
        CompatProviderSpec {
            id: "openrouter",
            display_name: "OpenRouter",
            base_url: "https://openrouter.ai/api/v1",
            base_url_var: None,
            env_var: "OPENROUTER_API_KEY",
            key_placeholder: "sk-or-v1-...",
            api_label: "openai-chat-completions",
            default_models: default_models(maker),
            extra_headers: Some(extra),
        },
    )
}

/// The catalogue of OpenRouter.
pub open spec fn openrouter_models(maker: MakerView) -> Seq<ModelView> {
    seq![
        ModelView {
            supports_images: true,
            supports_pdf: true,
            thinking: ModelThinkingLevel::High,
            cost_rates: listing::priced("3.0"@, "15.0"@),
            ..listing::chat_model(
                "openrouter"@,
                "openai-chat-completions"@,
                "anthropic/"@ + maker.word + "-3.7-sonnet"@,
                maker.title + " 3.7 Sonnet (OpenRouter)"@,
                200_000,
                64_000,
                200_000,
            )
        },
        ModelView {
            supports_images: true,
            cost_rates: listing::priced("0.15"@, "0.6"@),
            ..listing::chat_model(
                "openrouter"@,
                "openai-chat-completions"@,
                "openai/gpt-4o-mini"@,
                "GPT-4o Mini (OpenRouter)"@,
                128_000,
                16_384,
                128_000,
            )
        },
        ModelView {
            supports_images: true,
            supports_audio: true,
            supports_video: true,
            supports_pdf: true,
            ..listing::chat_model(
                "openrouter"@,
                "openai-chat-completions"@,
                "google/gemini-2.5-pro-exp-03-25:free"@,
                "Gemini 2.5 Pro Exp (Free, OpenRouter)"@,
                1_000_000,
                65_536,
                1_000_000,
            )
        },
    ]
}

fn default_models(maker: &MakerName) -> (r: Vec<Model>)
    ensures
        views::all(r@) == openrouter_models(maker@),
{
    let mut models: Vec<Model> = Vec::new();
    let mut m: Model = new_chat_model(
        "openrouter",
        "openai-chat-completions",
        concat3("anthropic/", maker.word.as_str(), "-3.7-sonnet").as_str(),
        concat(maker.title.as_str(), " 3.7 Sonnet (OpenRouter)").as_str(),
        200_000,
        64_000,
        200_000,
    );
    m.supports_images = true;
    m.supports_pdf = true;
    m.thinking = ModelThinkingLevel::High;
    m.cost_rates = prices("3.0", "15.0");
    models.push(m);
    let mut m: Model = new_chat_model(
        "openrouter",
        "openai-chat-completions",
        "openai/gpt-4o-mini",
        "GPT-4o Mini (OpenRouter)",
        128_000,
        16_384,
        128_000,
    );
    m.supports_images = true;
    m.cost_rates = prices("0.15", "0.6");
    models.push(m);
    let mut m: Model = new_chat_model(
        "openrouter",
        "openai-chat-completions",
        "google/gemini-2.5-pro-exp-03-25:free",
        "Gemini 2.5 Pro Exp (Free, OpenRouter)",
        1_000_000,
        65_536,
        1_000_000,
    );
    m.supports_images = true;
    m.supports_audio = true;
    m.supports_video = true;
    m.supports_pdf = true;
    models.push(m);
    assert(views::all(models@) =~= openrouter_models(maker@));
    models
}

/// Every request says where it comes from and under which title, and adds nothing else.
pub proof fn law_requests_say_where_they_come_from(other: Seq<char>)
    requires
        other != "HTTP-Referer"@,
        other != "X-Title"@,
    ensures
        headers().contains_key("HTTP-Referer"@),
        headers()["HTTP-Referer"@] == "https://github.com/recover965455/otter-ai"@,
        headers().contains_key("X-Title"@),
        headers()["X-Title"@] == "otter-ai"@,
        !headers().contains_key(other),
{
    reveal_strlit("HTTP-Referer");
    reveal_strlit("X-Title");
    assert("HTTP-Referer"@.len() == 12 && "X-Title"@.len() == 7);
}

} // verus!
