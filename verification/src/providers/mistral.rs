//! Mistral.
use vstd::prelude::*;
use crate::providers::compat;
use crate::providers::compat::{build_compat_provider, CompatProviderSpec, GenericCompatProvider};
use crate::providers::listing;
use crate::providers::listing::{new_chat_model, prices};
use crate::types::{Model, ModelView};
use crate::views;

verus! {

broadcast use crate::views::group_views;

pub type MistralProvider = GenericCompatProvider;

/// The provider Mistral.
pub fn mistral_provider() -> (r: MistralProvider)
    ensures
        r@ == compat::described(
            "mistral"@,
            "Mistral"@,
            "https://api.mistral.ai/v1"@,
            "MISTRAL_API_KEY"@,
            "trMZ..."@,
            "mistral-conversations"@,
            mistral_models(),
            None,
        ),
{
    build_compat_provider(
        CompatProviderSpec {
            id: "mistral",
            display_name: "Mistral",
            base_url: "https://api.mistral.ai/v1",
            base_url_var: None,
            env_var: "MISTRAL_API_KEY",
            key_placeholder: "trMZ...",
            api_label: "mistral-conversations",
            default_models: default_models(),
            extra_headers: None,
        },
    )
}

/// The catalogue of Mistral.
pub open spec fn mistral_models() -> Seq<ModelView> {
    seq![
        ModelView {
            cost_rates: listing::priced("2.0"@, "6.0"@),
            default_temperature: Some("0.7"@),
            ..listing::chat_model(
                "mistral"@,
                "mistral-conversations"@,
                "mistral-large-latest"@,
                "Mistral Large"@,
                128_000,
                8_000,
                128_000,
            )
        },
        ModelView {
            cost_rates: listing::priced("0.2"@, "0.6"@),
            default_temperature: Some("0.7"@),
            ..listing::chat_model(
                "mistral"@,
                "mistral-conversations"@,
                "mistral-small-latest"@,
                "Mistral Small"@,
                32_000,
                8_000,
                32_000,
            )
        },
        ModelView {
            cost_rates: listing::priced("0.2"@, "0.6"@),
            default_temperature: Some("0.7"@),
            ..listing::chat_model(
                "mistral"@,
                "mistral-conversations"@,
                "codestral-latest"@,
                "Codestral"@,
                80_000,
                8_000,
                80_000,
            )
        },
    ]
}

fn default_models() -> (r: Vec<Model>)
    ensures
        views::all(r@) == mistral_models(),
{
    let mut models: Vec<Model> = Vec::new();
    let mut m: Model = new_chat_model(
        "mistral",
        "mistral-conversations",
        "mistral-large-latest",
        "Mistral Large",
        128_000,
        8_000,
        128_000,
    );
    m.cost_rates = prices("2.0", "6.0");
    m.default_temperature = Some("0.7".to_owned());
    models.push(m);
    let mut m: Model = new_chat_model(
        "mistral",
        "mistral-conversations",
        "mistral-small-latest",
        "Mistral Small",
        32_000,
        8_000,
        32_000,
    );
    m.cost_rates = prices("0.2", "0.6");
    m.default_temperature = Some("0.7".to_owned());
    models.push(m);
    let mut m: Model = new_chat_model(
        "mistral",
        "mistral-conversations",
        "codestral-latest",
        "Codestral",
        80_000,
        8_000,
        80_000,
    );
    m.cost_rates = prices("0.2", "0.6");
    m.default_temperature = Some("0.7".to_owned());
    models.push(m);
    assert(views::all(models@) =~= mistral_models());
    models
}

} // verus!
