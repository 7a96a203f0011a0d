//! Conversations as input items of the Responses protocol.
use vstd::prelude::*;
use crate::codex::ids;
use crate::codex::ids::{short_hash, split_normalized_tool_call_id, split_tool_call_id};
use crate::codex::signature;
use crate::codex::signature::parse_text_signature;
use crate::dict;
use crate::dict::Dict;
use crate::json;
use crate::json::{Json, JsonView};
use crate::json_text;
use crate::json_text::{parse_json, print_json};
use crate::text;
use crate::text::{chars_of, concat, decimal, same_text};
use crate::types;
use crate::types::{
    content_text, BlockView, ContentBlock, Context, ContextView, ImageContent, Message,
    MessageView, Model,
};
use crate::views;
use crate::views::opt_str;

verus! {

broadcast use crate::views::group_views;

/// The input part that a block of a user message becomes: a text or an image.
pub open spec fn user_part(block: BlockView) -> Option<JsonView> {
    match block {
        BlockView::Text { text, .. } => Some(
            JsonView::object().with("type"@, json::jtext("input_text"@)).with(
                "text"@,
                json::jtext(text),
            ),
        ),
        BlockView::Image { data, mime_type, .. } => Some(
            JsonView::object().with("type"@, json::jtext("input_image"@)).with(
                "detail"@,
                json::jtext("auto"@),
            ).with(
                "image_url"@,
                json::jtext(
                    "data:"@ + views::or(mime_type, "application/octet-stream"@) + ";base64,"@
                        + data,
                ),
            ),
        ),
        _ => None,
    }
}

/// The input parts of a user message.
pub open spec fn user_parts(content: Seq<BlockView>) -> Seq<JsonView>
    decreases content.len(),
{
    if content.len() == 0 {
        Seq::empty()
    } else {
        let before = user_parts(content.drop_last());
        match user_part(content.last()) {
            Some(p) => before.push(p),
            None => before,
        }
    }
}

fn image_part(image: &ImageContent) -> (r: Json)
    ensures
        user_part(types::block_view(ContentBlock::Image(*image))) == Some(r@),
{
    let mime: &str = match opt_str(&image.mime_type) {
        Some(m) => m,
        None => "application/octet-stream",
    };
    let mut url: String = concat("data:", mime);
    url.append(";base64,");
    url.append(image.data.as_str());
    Json::object().with("type", Json::text("input_image")).with("detail", Json::text("auto")).with(
        "image_url",
        Json::string(url),
    )
}

fn user_parts_exec(content: &Vec<ContentBlock>) -> (r: Vec<Json>)
    ensures
        views::all(r@) == user_parts(views::all(content@)),
{
    let ghost all = views::all(content@);
    let mut out: Vec<Json> = Vec::new();
    let mut i: usize = 0;
    while i < content.len()
        invariant
            i <= content@.len(),
            all == views::all(content@),
            views::all(out@) == user_parts(all.take(i as int)),
        decreases content@.len() - i,
    {
        proof {
            views::lemma_take_step(all, i as int);
        }
        match &content[i] {
            ContentBlock::Text { text, .. } => {
                let part = Json::object().with("type", Json::text("input_text")).with(
                    "text",
                    Json::text(text.as_str()),
                );
                out.push(part);
            },
            ContentBlock::Image(image) => {
                let part = image_part(image);
                out.push(part);
            },
            _ => {},
        }
        i = i + 1;
    }
    proof {
        views::lemma_take_all(all);
    }
    out
}

/// The message id under which a text block is replayed: the one that its
/// signature names, hashed where that is too long; without a signature one made
/// of the positions of the message and of the text in it.
pub open spec fn text_item_id(
    text_signature: Option<Seq<char>>,
    message_index: nat,
    text_index: nat,
) -> Seq<char> {
    let id = match text_signature {
        Some(sig) => signature::signature_parts(sig, json_text::json_of_text(sig)).0,
        None => Seq::empty(),
    };
    if id.len() == 0 {
        if text_index == 0 {
            "msg_pi_"@ + text::decimal_text(message_index)
        } else {
            "msg_pi_"@ + text::decimal_text(message_index) + "_"@ + text::decimal_text(text_index)
        }
    } else if id.len() > ids::ID_MAX_CHARS {
        "msg_"@ + ids::short_hash_text(id)
    } else {
        id
    }
}

fn text_item_id_exec(
    text_signature: &Option<String>,
    message_index: usize,
    text_index: usize,
) -> (r: String)
    ensures
        r@ == text_item_id(
            views::opt(*text_signature),
            message_index as nat,
            text_index as nat,
        ),
{
    let id: String = match parse_text_signature(opt_str(text_signature)) {
        Some((id, _)) => id,
        None => String::new(),
    };
    let n: usize = chars_of(id.as_str()).len();
    if n == 0 {
        let mut out: String = "msg_pi_".to_owned();
        out.append(decimal(message_index as u64).as_str());
        if text_index != 0 {
            out.append("_");
            out.append(decimal(text_index as u64).as_str());
        }
        out
    } else if n > ids::ID_MAX_CHARS {
        concat("msg_", short_hash(id.as_str()).as_str())
    } else {
        id
    }
}

/// The item that replays a text of the assistant.
pub open spec fn text_item(text: Seq<char>, id: Seq<char>) -> JsonView {
    JsonView::object().with("type"@, json::jtext("message"@)).with(
        "role"@,
        json::jtext("assistant"@),
    ).with(
        "content"@,
        JsonView::Array(
            seq![
                JsonView::object().with("type"@, json::jtext("output_text"@)).with(
                    "text"@,
                    json::jtext(text),
                ).with("annotations"@, JsonView::Array(Seq::empty())),
            ],
        ),
    ).with("status"@, json::jtext("completed"@)).with("id"@, json::jtext(id))
}

fn text_item_exec(text: &str, id: String) -> (r: Json)
    ensures
        r@ == text_item(text@, id@),
{
    let none: Vec<Json> = Vec::new();
    let part = Json::object().with("type", Json::text("output_text")).with(
        "text",
        Json::text(text),
    ).with("annotations", Json::array(none));
    let mut parts: Vec<Json> = Vec::new();
    parts.push(part);
    assert(views::all(parts@) =~= seq![part@]);
    Json::object().with("type", Json::text("message")).with("role", Json::text("assistant")).with(
        "content",
        Json::array(parts),
    ).with("status", Json::text("completed")).with("id", Json::string(id))
}

/// The item that replays a call of a tool with a grammar: its input is the text
/// in property `property`.
pub open spec fn custom_call_item(
    id: Seq<char>,
    name: Seq<char>,
    arguments: JsonView,
    property: Seq<char>,
) -> JsonView {
    let (call_id, item_id) = ids::split_id(id);
    let item = JsonView::object().with("type"@, json::jtext("custom_tool_call"@)).with(
        "call_id"@,
        json::jtext(call_id),
    ).with("name"@, json::jtext(name)).with(
        "input"@,
        json::jtext(views::or(arguments.field_text(property), Seq::empty())),
    );
    match item_id {
        Some(i) => item.with("id"@, json::jtext(i)),
        None => item,
    }
}

fn custom_call_item_exec(id: &str, name: &str, arguments: &Json, property: &str) -> (r: Json)
    ensures
        r@ == custom_call_item(id@, name@, arguments@, property@),
{
    let (call_id, item_id) = split_tool_call_id(id);
    let input: String = match arguments.field_str(property) {
        Some(s) => s.to_owned(),
        None => String::new(),
    };
    assert(input@ =~= views::or(arguments@.field_text(property@), Seq::empty()));
    let item = Json::object().with("type", Json::text("custom_tool_call")).with(
        "call_id",
        Json::string(call_id),
    ).with("name", Json::text(name)).with("input", Json::string(input));
    match item_id {
        Some(i) => item.with("id", Json::string(i)),
        None => item,
    }
}

/// The item that replays a call of a plain tool: its arguments are JSON text.
pub open spec fn function_call_item(
    id: Seq<char>,
    name: Seq<char>,
    arguments: JsonView,
    allowed: bool,
    same_provider: bool,
) -> JsonView {
    let (call_id, item_id) = ids::sent_ids(id, allowed, same_provider);
    let item = JsonView::object().with("type"@, json::jtext("function_call"@)).with(
        "call_id"@,
        json::jtext(call_id),
    ).with("name"@, json::jtext(name)).with(
        "arguments"@,
        json::jtext(json_text::text_of_json(arguments)),
    );
    match item_id {
        Some(i) => item.with("id"@, json::jtext(i)),
        None => item,
    }
}

fn function_call_item_exec(
    id: &str,
    name: &str,
    arguments: &Json,
    allowed: bool,
    same_provider: bool,
) -> (r: Json)
    ensures
        r@ == function_call_item(id@, name@, arguments@, allowed, same_provider),
{
    let (call_id, item_id) = split_normalized_tool_call_id(id, allowed, same_provider);
    let item = Json::object().with("type", Json::text("function_call")).with(
        "call_id",
        Json::string(call_id),
    ).with("name", Json::text(name)).with("arguments", Json::string(print_json(arguments)));
    match item_id {
        Some(i) => item.with("id", Json::string(i)),
        None => item,
    }
}

/// How many text blocks there are.
pub open spec fn text_count(content: Seq<BlockView>) -> nat {
    types::block_texts(content).len()
}

/// What a conversation is replayed to: the provider of the model, whether it
/// takes combined tool-call ids, and the input properties of tools with a
/// grammar.
pub struct ReplayTarget {
    pub provider: Seq<char>,
    pub allowed: bool,
    pub properties: Map<Seq<char>, Seq<char>>,
}

/// The item that replays a block of an assistant message of `provider`, if it
/// is replayed at all.
pub open spec fn assistant_item(
    block: BlockView,
    provider: Seq<char>,
    message_index: nat,
    text_index: nat,
    target: ReplayTarget,
) -> Option<JsonView> {
    match block {
        BlockView::Thinking { signature, .. } => match signature {
            Some(sig) => match json_text::json_of_text(sig) {
                Ok(item) => Some(item),
                Err(_) => None,
            },
            None => None,
        },
        BlockView::Text { text, text_signature } => Some(
            text_item(text, text_item_id(text_signature, message_index, text_index)),
        ),
        BlockView::ToolCall { id, name, arguments } => Some(
            if target.properties.contains_key(name) {
                custom_call_item(id, name, arguments, target.properties[name])
            } else {
                function_call_item(
                    id,
                    name,
                    arguments,
                    target.allowed,
                    provider == target.provider,
                )
            },
        ),
        _ => None,
    }
}

/// The items that replay the content of an assistant message.
pub open spec fn assistant_items(
    content: Seq<BlockView>,
    provider: Seq<char>,
    message_index: nat,
    target: ReplayTarget,
) -> Seq<JsonView>
    decreases content.len(),
{
    if content.len() == 0 {
        Seq::empty()
    } else {
        let before = assistant_items(content.drop_last(), provider, message_index, target);
        match assistant_item(
            content.last(),
            provider,
            message_index,
            text_count(content.drop_last()),
            target,
        ) {
            Some(item) => before.push(item),
            None => before,
        }
    }
}

/// The items that replay one message.
pub open spec fn message_items(message: MessageView, index: nat, target: ReplayTarget) -> Seq<
    JsonView,
> {
    match message {
        MessageView::User { content, .. } => {
            let parts = user_parts(content);
            if parts.len() == 0 {
                Seq::empty()
            } else {
                seq![
                    JsonView::object().with("role"@, json::jtext("user"@)).with(
                        "content"@,
                        JsonView::Array(parts),
                    ),
                ]
            }
        },
        MessageView::Assistant(a) => assistant_items(a.content, a.provider, index, target),
        MessageView::ToolResult { tool_call_id, tool_name, content, .. } => {
            let (call_id, _) = ids::sent_ids(tool_call_id, target.allowed, true);
            let text = text::joined(types::block_texts(content), "\n"@);
            seq![
                JsonView::object().with(
                    "type"@,
                    json::jtext(
                        if target.properties.contains_key(tool_name) {
                            "custom_tool_call_output"@
                        } else {
                            "function_call_output"@
                        },
                    ),
                ).with("call_id"@, json::jtext(call_id)).with(
                    "output"@,
                    json::jtext(
                        if text.len() == 0 {
                            "(no tool output)"@
                        } else {
                            text
                        },
                    ),
                ),
            ]
        },
        MessageView::System { .. } => Seq::empty(),
    }
}

/// The items that replay a list of messages.
pub open spec fn messages_items(messages: Seq<MessageView>, target: ReplayTarget) -> Seq<JsonView>
    decreases messages.len(),
{
    if messages.len() == 0 {
        Seq::empty()
    } else {
        let n = (messages.len() - 1) as nat;
        messages_items(messages.drop_last(), target) + message_items(messages.last(), n, target)
    }
}

/// The system prompt as an item.
pub open spec fn system_items(prompt: Option<Seq<char>>) -> Seq<JsonView> {
    match prompt {
        Some(p) => seq![
            JsonView::object().with("role"@, json::jtext("system"@)).with(
                "content"@,
                json::jtext(p),
            ),
        ],
        None => Seq::empty(),
    }
}

/// The input items of a conversation.
pub open spec fn input_items(
    context: ContextView,
    include_system_prompt: bool,
    target: ReplayTarget,
) -> Seq<JsonView> {
    (if include_system_prompt {
        system_items(context.system_prompt)
    } else {
        Seq::empty()
    }) + messages_items(context.messages, target)
}

fn assistant_items_exec(
    content: &Vec<ContentBlock>,
    provider: &str,
    message_index: usize,
    model_provider: &str,
    allowed: bool,
    properties: &Dict<String>,
) -> (r: Vec<Json>)
    ensures
        views::all(r@) == assistant_items(
            views::all(content@),
            provider@,
            message_index as nat,
            (ReplayTarget {
                provider: model_provider@,
                allowed,
                properties: dict::texts(properties@),
            }),
        ),
{
    let ghost target = ReplayTarget {
        provider: model_provider@,
        allowed,
        properties: dict::texts(properties@),
    };
    let ghost all = views::all(content@);
    let same_provider: bool = same_text(provider, model_provider);
    let mut out: Vec<Json> = Vec::new();
    let mut text_index: usize = 0;
    let mut i: usize = 0;
    while i < content.len()
        invariant
            text_index <= i <= content@.len(),
            all == views::all(content@),
            target == (ReplayTarget {
                provider: model_provider@,
                allowed,
                properties: dict::texts(properties@),
            }),
            same_provider == (provider@ == model_provider@),
            text_index == text_count(all.take(i as int)),
            views::all(out@) == assistant_items(
                all.take(i as int),
                provider@,
                message_index as nat,
                target,
            ),
        decreases content@.len() - i,
    {
        proof {
            views::lemma_take_step(all, i as int);
        }
        match &content[i] {
            ContentBlock::Thinking { signature, .. } => {
                if let Some(sig) = signature {
                    if let Ok(item) = parse_json(sig.as_str()) {
                        out.push(item);
                    }
                }
            },
            ContentBlock::Text { text, text_signature } => {
                let id: String = text_item_id_exec(text_signature, message_index, text_index);
                let item: Json = text_item_exec(text.as_str(), id);
                out.push(item);
                text_index = text_index + 1;
            },
            ContentBlock::ToolCall { id, name, arguments } => {
                let item: Json = match properties.get_text(name.as_str()) {
                    Some(property) => custom_call_item_exec(
                        id.as_str(),
                        name.as_str(),
                        arguments,
                        property,
                    ),
                    None => function_call_item_exec(
                        id.as_str(),
                        name.as_str(),
                        arguments,
                        allowed,
                        same_provider,
                    ),
                };
                out.push(item);
            },
            _ => {},
        }
        i = i + 1;
    }
    proof {
        views::lemma_take_all(all);
    }
    out
}

fn tool_output_item(
    tool_call_id: &str,
    tool_name: &str,
    content: &Vec<ContentBlock>,
    allowed: bool,
    properties: &Dict<String>,
) -> (r: Json)
    ensures
        forall|provider: Seq<char>, is_error: bool, timestamp: i64, index: nat|
            #[trigger] message_items(
                MessageView::ToolResult {
                    tool_call_id: tool_call_id@,
                    tool_name: tool_name@,
                    content: views::all(content@),
                    is_error,
                    timestamp,
                },
                index,
                ReplayTarget { provider, allowed, properties: dict::texts(properties@) },
            ) == seq![r@],
{
    let (call_id, _) = split_normalized_tool_call_id(tool_call_id, allowed, true);
    let joined: String = content_text(content);
    let output: Json = if chars_of(joined.as_str()).len() == 0 {
        Json::text("(no tool output)")
    } else {
        Json::string(joined)
    };
    let kind: Json = if properties.get_text(tool_name).is_some() {
        Json::text("custom_tool_call_output")
    } else {
        Json::text("function_call_output")
    };
    Json::object().with("type", kind).with("call_id", Json::string(call_id)).with("output", output)
}

/// Whether `provider` is among `allowed`.
pub open spec fn is_among(allowed: Seq<&str>, provider: Seq<char>) -> bool {
    exists|i: int| 0 <= i < allowed.len() && (#[trigger] allowed[i])@ == provider
}

fn is_among_exec(allowed: &[&str], provider: &str) -> (r: bool)
    ensures
        r == is_among(allowed@, provider@),
{
    let mut i: usize = 0;
    while i < allowed.len()
        invariant
            i <= allowed@.len(),
            forall|j: int| 0 <= j < i ==> (#[trigger] allowed@[j])@ != provider@,
        decreases allowed@.len() - i,
    {
        if same_text(allowed[i], provider) {
            return true;
        }
        i = i + 1;
    }
    false
}

/// Converts a conversation to the input items of the Responses protocol.
pub fn convert_responses_messages(
    model: &Model,
    context: &Context,
    allowed_tool_call_providers: &[&str],
    include_system_prompt: bool,
    grammar_tool_input_properties: &Dict<String>,
) -> (r: Vec<Json>)
    ensures
        views::all(r@) == input_items(
            context@,
            include_system_prompt,
            (ReplayTarget {
                provider: model.provider_id@,
                allowed: is_among(allowed_tool_call_providers@, model.provider_id@),
                properties: dict::texts(grammar_tool_input_properties@),
            }),
        ),
{
    let allowed: bool = is_among_exec(allowed_tool_call_providers, model.provider_id.as_str());
    let ghost target = ReplayTarget {
        provider: model.provider_id@,
        allowed,
        properties: dict::texts(grammar_tool_input_properties@),
    };
    let ghost all = views::all(context.messages@);
    let mut out: Vec<Json> = Vec::new();
    if include_system_prompt {
        if let Some(prompt) = &context.system_prompt {
            let item = Json::object().with("role", Json::text("system")).with(
                "content",
                Json::text(prompt.as_str()),
            );
            out.push(item);
            assert(views::all(out@) =~= system_items(context@.system_prompt));
        }
    }
    let ghost head = if include_system_prompt {
        system_items(context@.system_prompt)
    } else {
        Seq::empty()
    };
    assert(views::all(out@) =~= head + messages_items(all.take(0), target));
    let mut i: usize = 0;
    while i < context.messages.len()
        invariant
            i <= context.messages@.len(),
            all == views::all(context.messages@),
            target == (ReplayTarget {
                provider: model.provider_id@,
                allowed,
                properties: dict::texts(grammar_tool_input_properties@),
            }),
            views::all(out@) == head + messages_items(all.take(i as int), target),
        decreases context.messages@.len() - i,
    {
        proof {
            views::lemma_take_step(all, i as int);
        }
        let ghost before = views::all(out@);
        match &context.messages[i] {
            Message::User { content, .. } => {
                let parts: Vec<Json> = user_parts_exec(content);
                if parts.len() > 0 {
                    let item = Json::object().with("role", Json::text("user")).with(
                        "content",
                        Json::array(parts),
                    );
                    out.push(item);
                }
            },
            Message::Assistant { content, provider, .. } => {
                let mut items: Vec<Json> = assistant_items_exec(
                    content,
                    provider.as_str(),
                    i,
                    model.provider_id.as_str(),
                    allowed,
                    grammar_tool_input_properties,
                );
                out.append(&mut items);
            },
            Message::ToolResult { tool_call_id, tool_name, content, .. } => {
                let item: Json = tool_output_item(
                    tool_call_id.as_str(),
                    tool_name.as_str(),
                    content,
                    allowed,
                    grammar_tool_input_properties,
                );
                out.push(item);
            },
            Message::System { .. } => {},
        }
        assert(views::all(out@) =~= before + message_items(all[i as int], i as nat, target));
        assert(views::all(out@) =~= head + messages_items(all.take(i + 1), target));
        i = i + 1;
    }
    proof {
        views::lemma_take_all(all);
    }
    out
}

} // verus!
