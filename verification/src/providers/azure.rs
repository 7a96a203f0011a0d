//! Azure OpenAI.
use vstd::prelude::*;
use crate::providers::compat;
use crate::providers::compat::{build_compat_provider, CompatProviderSpec, GenericCompatProvider};
use crate::providers::listing;
use crate::providers::listing::{new_chat_model, prices};
use crate::types::{Model, ModelView};
use crate::views;

verus! {

broadcast use crate::views::group_views;

pub type AzureOpenAIProvider = GenericCompatProvider;

/// The provider Azure OpenAI.
pub fn azure_openai_provider() -> (r: AzureOpenAIProvider)
    ensures
        r@ == compat::reached_by(
            compat::described(
                "azure-openai-responses"@,
                "Azure OpenAI"@,
                ""@,
                "AZURE_OPENAI_API_KEY"@,
                "azure-..."@,
                "azure-openai-responses"@,
                azure_models(),
                None,
            ),
            "AZURE_OPENAI_ENDPOINT"@,
        ),
{
    build_compat_provider(
        CompatProviderSpec {
            id: "azure-openai-responses",
            display_name: "Azure OpenAI",
            base_url: "",
            base_url_var: Some("AZURE_OPENAI_ENDPOINT"),
            env_var: "AZURE_OPENAI_API_KEY",
            key_placeholder: "azure-...",
            api_label: "azure-openai-responses",
            default_models: default_models(),
            extra_headers: None,
        },
    )
}

/// The catalogue of Azure OpenAI.
pub open spec fn azure_models() -> Seq<ModelView> {
    seq![
        ModelView {
            supports_images: true,
            cost_rates: listing::priced("0.15"@, "0.6"@),
            ..listing::chat_model(
                "azure-openai-responses"@,
                "azure-openai-responses"@,
                "gpt-4o-mini"@,
                "Azure GPT-4o Mini"@,
                128_000,
                16_384,
                128_000,
            )
        },
        ModelView {
            supports_images: true,
            supports_audio: true,
            cost_rates: listing::priced("2.5"@, "10.0"@),
            ..listing::chat_model(
                "azure-openai-responses"@,
                "azure-openai-responses"@,
                "gpt-4o"@,
                "Azure GPT-4o"@,
                128_000,
                16_384,
                128_000,
            )
        },
    ]
}

fn default_models() -> (r: Vec<Model>)
    ensures
        views::all(r@) == azure_models(),
{
    let mut models: Vec<Model> = Vec::new();
    let mut m: Model = new_chat_model(
        "azure-openai-responses",
        "azure-openai-responses",
        "gpt-4o-mini",
        "Azure GPT-4o Mini",
        128_000,
        16_384,
        128_000,
    );
    m.supports_images = true;
    m.cost_rates = prices("0.15", "0.6");
    models.push(m);
    let mut m: Model = new_chat_model(
        "azure-openai-responses",
        "azure-openai-responses",
        "gpt-4o",
        "Azure GPT-4o",
        128_000,
        16_384,
        128_000,
    );
    m.supports_images = true;
    m.supports_audio = true;
    m.cost_rates = prices("2.5", "10.0");
    models.push(m);
    assert(views::all(models@) =~= azure_models());
    models
}

} // verus!
