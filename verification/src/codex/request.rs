//! The body of a Codex request.
use vstd::prelude::*;
use crate::codex::grammar;
use crate::codex::grammar::{create_grammar_tool_input_properties, resolve_grammar_sampling};
use crate::codex::options;
use crate::codex::options::{lookup, CodexOptionsView, CodexStreamOptions};
use crate::codex::replay;
use crate::codex::replay::{convert_responses_messages, ReplayTarget};
use crate::json;
use crate::json::{clone_json, Json, JsonView, Number, NumberView};
use crate::types::{Context, ContextView, Model, ModelView, Tool, ToolChoice, ToolChoiceView, ToolView};
use crate::views;

verus! {

broadcast use crate::views::group_views;

/// Whether a provider uses the combined tool-call ids of the protocol.
pub open spec fn is_codex_provider(id: Seq<char>) -> bool {
    id == "openai"@ || id == "openai-codex"@ || id == "opencode"@ || id == "chatgpt-plus"@
}

/// The providers that use the combined tool-call ids of the protocol.
pub fn codex_tool_call_providers() -> (r: Vec<&'static str>)
    ensures
        forall|id: Seq<char>| #[trigger] replay::is_among(r@, id) == is_codex_provider(id),
{
    let r: Vec<&'static str> = vec!["openai", "openai-codex", "opencode", "chatgpt-plus"];
    proof {
        assert forall|id: Seq<char>| #[trigger] replay::is_among(r@, id) == is_codex_provider(
            id,
        ) by {
            if is_codex_provider(id) {
                assert(r@[0]@ == id || r@[1]@ == id || r@[2]@ == id || r@[3]@ == id);
            }
        }
    }
    r
}

/// The tool choice as the protocol writes it; that of the request comes before
/// that of the conversation.
pub open spec fn tool_choice_json(
    stream_choice: Option<ToolChoiceView>,
    context_choice: Option<ToolChoiceView>,
) -> JsonView {
    match views::first_of(stream_choice, context_choice) {
        None => json::jtext("auto"@),
        Some(ToolChoiceView::Auto) => json::jtext("auto"@),
        Some(ToolChoiceView::Never) => json::jtext("none"@),
        Some(ToolChoiceView::Required) => json::jtext("required"@),
        Some(ToolChoiceView::Tool { name }) => JsonView::object().with(
            "type"@,
            json::jtext("function"@),
        ).with("name"@, json::jtext(name)),
    }
}

/// Writes the tool choice of a request.
pub fn serialize_tool_choice(
    stream_choice: &Option<ToolChoice>,
    context_choice: &Option<ToolChoice>,
) -> (r: Json)
    ensures
        r@ == tool_choice_json(views::opt(*stream_choice), views::opt(*context_choice)),
{
    let choice: Option<&ToolChoice> = match stream_choice {
        Some(c) => Some(c),
        None => match context_choice {
            Some(c) => Some(c),
            None => None,
        },
    };
    match choice {
        None => Json::text("auto"),
        Some(ToolChoice::Auto) => Json::text("auto"),
        Some(ToolChoice::Never) => Json::text("none"),
        Some(ToolChoice::Required) => Json::text("required"),
        Some(ToolChoice::Tool { name }) => Json::object().with("type", Json::text("function")).with(
            "name",
            Json::text(name.as_str()),
        ),
    }
}

/// A tool as the protocol writes it: one with a grammar is a custom tool, any
/// other a function.
pub open spec fn tool_json(tool: ToolView) -> JsonView {
    let description = json::jtext(views::or(tool.description, Seq::empty()));
    match grammar::grammar_of(tool) {
        Some((syntax, definition)) => JsonView::object().with("type"@, json::jtext("custom"@)).with(
            "name"@,
            json::jtext(tool.name),
        ).with("description"@, description).with(
            "format"@,
            JsonView::object().with("type"@, json::jtext("grammar"@)).with(
                "syntax"@,
                json::jtext(syntax),
            ).with("definition"@, json::jtext(definition)),
        ),
        None => JsonView::object().with("type"@, json::jtext("function"@)).with(
            "name"@,
            json::jtext(tool.name),
        ).with("description"@, description).with("parameters"@, tool.parameters).with(
            "strict"@,
            JsonView::Null,
        ),
    }
}

fn tool_json_exec(tool: &Tool) -> (r: Json)
    ensures
        r@ == tool_json(tool@),
{
    let description: Json = match &tool.description {
        Some(d) => Json::text(d.as_str()),
        None => Json::string(String::new()),
    };
    match resolve_grammar_sampling(tool) {
        Some((syntax, definition)) => Json::object().with("type", Json::text("custom")).with(
            "name",
            Json::text(tool.name.as_str()),
        ).with("description", description).with(
            "format",
            Json::object().with("type", Json::text("grammar")).with(
                "syntax",
                Json::string(syntax),
            ).with("definition", Json::string(definition)),
        ),
        None => Json::object().with("type", Json::text("function")).with(
            "name",
            Json::text(tool.name.as_str()),
        ).with("description", description).with("parameters", clone_json(&tool.parameters)).with(
            "strict",
            Json::Null,
        ),
    }
}

/// Every tool as the protocol writes it.
pub open spec fn tools_json(tools: Seq<ToolView>) -> Seq<JsonView> {
    tools.map_values(|t: ToolView| tool_json(t))
}

fn tools_json_exec(tools: &Vec<Tool>) -> (r: Vec<Json>)
    ensures
        views::all(r@) == tools_json(views::all(tools@)),
{
    let mut out: Vec<Json> = Vec::new();
    let mut i: usize = 0;
    let ghost want = tools_json(views::all(tools@));
    while i < tools.len()
        invariant
            i <= tools@.len(),
            want == tools_json(views::all(tools@)),
            views::all(out@) == want.take(i as int),
        decreases tools@.len() - i,
    {
        let item: Json = tool_json_exec(&tools[i]);
        out.push(item);
        proof {
            views::lemma_take_step(want, i as int);
        }
        i = i + 1;
    }
    proof {
        views::lemma_take_all(want);
    }
    out
}

/// The reasoning effort as the model spells it; `off` is `none` to a model that
/// does not spell it otherwise.
pub open spec fn effort_text(
    levels: Option<Map<Seq<char>, Seq<char>>>,
    effort: Seq<char>,
) -> Seq<char> {
    if effort == "off"@ {
        views::or(options::mapped(levels, "off"@), "none"@)
    } else {
        views::or(options::mapped(levels, effort), effort)
    }
}

/// The reasoning settings of a request.
pub open spec fn reasoning_json(
    model: ModelView,
    effort: Seq<char>,
    summary: Option<Seq<char>>,
) -> JsonView {
    JsonView::object().with(
        "effort"@,
        json::jtext(effort_text(model.thinking_level_map, effort)),
    ).with("summary"@, json::jtext(views::or(summary, "auto"@)))
}

/// `Some(f(x))` of an optional text.
pub open spec fn opt_jtext(o: Option<Seq<char>>) -> Option<JsonView> {
    match o {
        Some(s) => Some(json::jtext(s)),
        None => None,
    }
}

/// The body of a request, given the input properties of its tools with a
/// grammar.
pub open spec fn request_body(
    model: ModelView,
    context: ContextView,
    opts: CodexOptionsView,
    cache_session_id: Option<Seq<char>>,
    properties: Map<Seq<char>, Seq<char>>,
) -> JsonView {
    let target = ReplayTarget {
        provider: model.provider_id,
        allowed: is_codex_provider(model.provider_id),
        properties,
    };
    JsonView::object().with("model"@, json::jtext(model.id)).with(
        "store"@,
        JsonView::Bool(false),
    ).with("stream"@, JsonView::Bool(true)).with(
        "instructions"@,
        json::jtext(views::or(context.system_prompt, "You are a helpful assistant."@)),
    ).with("input"@, JsonView::Array(replay::input_items(context, false, target))).with(
        "text"@,
        JsonView::object().with("verbosity"@, json::jtext(views::or(opts.text_verbosity, "low"@))),
    ).with(
        "include"@,
        JsonView::Array(seq![json::jtext("reasoning.encrypted_content"@)]),
    ).with("tool_choice"@, tool_choice_json(opts.tool_choice, context.tool_choice)).with(
        "parallel_tool_calls"@,
        JsonView::Bool(true),
    ).with_opt("prompt_cache_key"@, opt_jtext(cache_session_id)).with_opt(
        "temperature"@,
        match opts.temperature {
            Some(t) => Some(JsonView::Number(NumberView::Decimal(t))),
            None => None,
        },
    ).with_opt("service_tier"@, opt_jtext(opts.service_tier)).with_opt(
        "tools"@,
        if context.tools.len() == 0 {
            None
        } else {
            Some(JsonView::Array(tools_json(context.tools)))
        },
    ).with_opt(
        "reasoning"@,
        match opts.reasoning_effort {
            Some(e) => Some(reasoning_json(model, e, opts.reasoning_summary)),
            None => None,
        },
    )
}

/// Builds the body of a request. It fails where a tool asks for a grammar that
/// it cannot have.
pub fn build_request_body(
    model: &Model,
    context: &Context,
    opts: &CodexStreamOptions,
    cache_session_id: Option<&str>,
) -> (r: Result<Json, String>)
    ensures
        match grammar::grammar_properties(context@.tools) {
            Ok(properties) => r is Ok && r->Ok_0@ == request_body(
                model@,
                context@,
                opts@,
                views::opt(cache_session_id),
                properties,
            ),
            Err(e) => r is Err && r->Err_0@ == e,
        },
{
    let properties = match create_grammar_tool_input_properties(&context.tools) {
        Ok(d) => d,
        Err(e) => {
            return Err(e);
        },
    };
    let providers: Vec<&'static str> = codex_tool_call_providers();
    let input: Vec<Json> = convert_responses_messages(
        model,
        context,
        providers.as_slice(),
        false,
        &properties,
    );
    let mut included: Vec<Json> = Vec::new();
    included.push(Json::text("reasoning.encrypted_content"));
    assert(views::all(included@) =~= seq![json::jtext("reasoning.encrypted_content"@)]);
    let instructions: Json = match &context.system_prompt {
        Some(s) => Json::text(s.as_str()),
        None => Json::text("You are a helpful assistant."),
    };
    let verbosity: Json = match &opts.text_verbosity {
        Some(s) => Json::text(s.as_str()),
        None => Json::text("low"),
    };
    let mut body = Json::object().with("model", Json::text(model.id.as_str())).with(
        "store",
        Json::Bool(false),
    ).with("stream", Json::Bool(true)).with("instructions", instructions).with(
        "input",
        Json::array(input),
    ).with("text", Json::object().with("verbosity", verbosity)).with(
        "include",
        Json::array(included),
    ).with(
        "tool_choice",
        serialize_tool_choice(&opts.tool_choice, &context.tool_choice),
    ).with("parallel_tool_calls", Json::Bool(true));
    if let Some(sid) = cache_session_id {
        body.set("prompt_cache_key", Json::text(sid));
    }
    if let Some(t) = &opts.temperature {
        body.set("temperature", Json::Number(Number::Decimal(t.clone())));
    }
    if let Some(tier) = &opts.service_tier {
        body.set("service_tier", Json::text(tier.as_str()));
    }
    if context.tools.len() > 0 {
        let tools: Vec<Json> = tools_json_exec(&context.tools);
        body.set("tools", Json::array(tools));
    }
    if let Some(effort) = &opts.reasoning_effort {
        let known: Option<String> = lookup(&model.thinking_level_map, effort.as_str());
        let spelled: Json = match known {
            Some(s) => Json::string(s),
            None => if crate::text::same_text(effort.as_str(), "off") {
                Json::text("none")
            } else {
                Json::text(effort.as_str())
            },
        };
        let summary: Json = match &opts.reasoning_summary {
            Some(s) => Json::text(s.as_str()),
            None => Json::text("auto"),
        };
        body.set("reasoning", Json::object().with("effort", spelled).with("summary", summary));
    }
    Ok(body)
}

} // verus!
