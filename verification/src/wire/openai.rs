//! Requests to and responses of the OpenAI chat completions service.
use vstd::prelude::*;
use crate::cost;
use crate::cost::calculate_usage_cost;
use crate::json;
use crate::json::{clone_json, Json, JsonView};
use crate::json_text;
use crate::json_text::{parse_json, print_json};
use crate::text;
use crate::types;
use crate::types::{
    content_text, BlockView, ContentBlock, Context, ContextView, FormatView, Message, MessageView,
    Model, ModelView, ResponseFormat, Tool, ToolView, Usage, UsageView,
};
use crate::views;
use crate::wire::blocks;
use crate::wire::blocks::{
    decimal_json, image_url, text_part_json, tool_description_text, tool_schema,
};
use crate::wire::events;
use crate::wire::events::{
    model_message, push_call_events, push_text_events, read_answer, start_event, WireEvent,
    WireEventView,
};

verus! {

broadcast use crate::views::group_views;

/// A block of a user message, where the service takes it.
pub open spec fn user_part(b: BlockView) -> Option<JsonView> {
    match b {
        BlockView::Text { text, .. } => Some(blocks::text_part(text)),
        BlockView::Image { data, mime_type, .. } => Some(
            JsonView::object().with("type"@, json::jtext("image_url"@)).with(
                "image_url"@,
                JsonView::object().with(
                    "url"@,
                    json::jtext(blocks::image_address(data, mime_type)),
                ),
            ),
        ),
        _ => None,
    }
}

fn user_part_exec(b: &ContentBlock) -> (r: Option<Json>)
    ensures
        views::opt(r) == user_part(b@),
{
    match b {
        ContentBlock::Text { text, .. } => Some(text_part_json(text.as_str())),
        ContentBlock::Image(img) => Some(
            Json::object().with("type", Json::text("image_url")).with(
                "image_url",
                Json::object().with("url", Json::string(image_url(img))),
            ),
        ),
        _ => None,
    }
}

/// The blocks of a user message that the service takes, in order.
pub open spec fn user_parts(content: Seq<BlockView>) -> Seq<JsonView>
    decreases content.len(),
{
    if content.len() == 0 {
        Seq::empty()
    } else {
        let before = user_parts(content.drop_last());
        match user_part(content.last()) {
            Some(p) => before.push(p),
            None => before,
        }
    }
}

fn user_parts_exec(content: &Vec<ContentBlock>) -> (r: Vec<Json>)
    ensures
        views::all(r@) == user_parts(views::all(content@)),
{
    let ghost all = views::all(content@);
    let mut out: Vec<Json> = Vec::new();
    let mut i: usize = 0;
    while i < content.len()
        invariant
            i <= content@.len(),
            all == views::all(content@),
            views::all(out@) == user_parts(all.take(i as int)),
        decreases content@.len() - i,
    {
        proof {
            views::lemma_take_step(all, i as int);
        }
        if let Some(p) = user_part_exec(&content[i]) {
            out.push(p);
        }
        i = i + 1;
    }
    proof {
        views::lemma_take_all(all);
    }
    out
}

/// The text blocks of an assistant message, as parts.
pub open spec fn said_parts(content: Seq<BlockView>) -> Seq<JsonView>
    decreases content.len(),
{
    if content.len() == 0 {
        Seq::empty()
    } else {
        let before = said_parts(content.drop_last());
        match content.last() {
            BlockView::Text { text, .. } => before.push(blocks::text_part(text)),
            _ => before,
        }
    }
}

/// A tool call of the service: its arguments go as text.
pub open spec fn service_call(id: Seq<char>, name: Seq<char>, arguments: JsonView) -> JsonView {
    JsonView::object().with("id"@, json::jtext(id)).with("type"@, json::jtext("function"@)).with(
        "function"@,
        JsonView::object().with("name"@, json::jtext(name)).with(
            "arguments"@,
            json::jtext(json_text::text_of_json(arguments)),
        ),
    )
}

/// The tool calls of an assistant message.
pub open spec fn service_calls(content: Seq<BlockView>) -> Seq<JsonView>
    decreases content.len(),
{
    if content.len() == 0 {
        Seq::empty()
    } else {
        let before = service_calls(content.drop_last());
        match content.last() {
            BlockView::ToolCall { id, name, arguments } => before.push(
                service_call(id, name, arguments),
            ),
            _ => before,
        }
    }
}

/// Parts as content: a single text part goes as its text.
pub open spec fn parts_content(parts: Seq<JsonView>) -> JsonView {
    if parts.len() == 1 && parts[0].field_text("text"@) is Some {
        json::jtext(parts[0].field_text("text"@)->0)
    } else {
        JsonView::Array(parts)
    }
}

fn parts_content_exec(parts: Vec<Json>) -> (r: Json)
    ensures
        r@ == parts_content(views::all(parts@)),
{
    if parts.len() == 1 {
        assert(views::all(parts@)[0] == parts@[0]@);
        if let Some(t) = parts[0].field_str("text") {
            return Json::text(t);
        }
    }
    Json::array(parts)
}

/// The content of an assistant message: none where it says nothing.
pub open spec fn said_content(parts: Seq<JsonView>) -> JsonView {
    if parts.len() == 0 {
        JsonView::Null
    } else {
        parts_content(parts)
    }
}

/// A message of the service.
pub open spec fn service_message(m: MessageView) -> JsonView {
    match m {
        MessageView::User { content, .. } => JsonView::object().with(
            "role"@,
            json::jtext("user"@),
        ).with("content"@, parts_content(user_parts(content))),
        MessageView::Assistant(a) => {
            let calls = service_calls(a.content);
            JsonView::object().with("role"@, json::jtext("assistant"@)).with(
                "content"@,
                said_content(said_parts(a.content)),
            ).with_opt(
                "tool_calls"@,
                if calls.len() == 0 {
                    None
                } else {
                    Some(JsonView::Array(calls))
                },
            )
        },
        MessageView::ToolResult { tool_call_id, content, .. } => JsonView::object().with(
            "role"@,
            json::jtext("tool"@),
        ).with("tool_call_id"@, json::jtext(tool_call_id)).with(
            "content"@,
            json::jtext(text::joined(types::block_texts(content), "\n"@)),
        ),
        MessageView::System { content, .. } => JsonView::object().with(
            "role"@,
            json::jtext("system"@),
        ).with("content"@, json::jtext(text::joined(types::block_texts(content), "\n"@))),
    }
}

fn assistant_message_json(content: &Vec<ContentBlock>) -> (r: Json)
    ensures
        ({
            let calls = service_calls(views::all(content@));
            r@ == JsonView::object().with("role"@, json::jtext("assistant"@)).with(
                "content"@,
                said_content(said_parts(views::all(content@))),
            ).with_opt(
                "tool_calls"@,
                if calls.len() == 0 {
                    None
                } else {
                    Some(JsonView::Array(calls))
                },
            )
        }),
{
    let ghost all = views::all(content@);
    let mut said: Vec<Json> = Vec::new();
    let mut calls: Vec<Json> = Vec::new();
    let mut i: usize = 0;
    while i < content.len()
        invariant
            i <= content@.len(),
            all == views::all(content@),
            views::all(said@) == said_parts(all.take(i as int)),
            views::all(calls@) == service_calls(all.take(i as int)),
        decreases content@.len() - i,
    {
        proof {
            views::lemma_take_step(all, i as int);
        }
        match &content[i] {
            ContentBlock::Text { text, .. } => {
                said.push(text_part_json(text.as_str()));
            },
            ContentBlock::ToolCall { id, name, arguments } => {
                calls.push(
                    Json::object().with("id", Json::text(id.as_str())).with(
                        "type",
                        Json::text("function"),
                    ).with(
                        "function",
                        Json::object().with("name", Json::text(name.as_str())).with(
                            "arguments",
                            Json::string(print_json(arguments)),
                        ),
                    ),
                );
            },
            _ => {},
        }
        i = i + 1;
    }
    proof {
        views::lemma_take_all(all);
    }
    let content_json: Json = if said.len() > 0 {
        parts_content_exec(said)
    } else {
        Json::Null
    };
    let mut out: Json = Json::object().with("role", Json::text("assistant")).with(
        "content",
        content_json,
    );
    if calls.len() > 0 {
        out.set("tool_calls", Json::array(calls));
    }
    out
}

fn service_message_json(m: &Message) -> (r: Json)
    ensures
        r@ == service_message(m@),
{
    match m {
        Message::User { content, .. } => Json::object().with("role", Json::text("user")).with(
            "content",
            parts_content_exec(user_parts_exec(content)),
        ),
        Message::Assistant { content, .. } => assistant_message_json(content),
        Message::ToolResult { tool_call_id, content, .. } => Json::object().with(
            "role",
            Json::text("tool"),
        ).with("tool_call_id", Json::text(tool_call_id.as_str())).with(
            "content",
            Json::string(content_text(content)),
        ),
        Message::System { content, .. } => Json::object().with("role", Json::text("system")).with(
            "content",
            Json::string(content_text(content)),
        ),
    }
}

/// The messages of a request: the system prompt, then the conversation.
pub open spec fn service_messages(ctx: ContextView) -> Seq<JsonView> {
    let system: Seq<JsonView> = match ctx.system_prompt {
        Some(s) => seq![
            JsonView::object().with("role"@, json::jtext("system"@)).with(
                "content"@,
                json::jtext(s),
            ),
        ],
        None => Seq::empty(),
    };
    system + ctx.messages.map_values(|m: MessageView| service_message(m))
}

/// The shape of a response, as the service is asked for it.
pub open spec fn service_format(f: FormatView) -> JsonView {
    match f {
        FormatView::Text => JsonView::object().with("type"@, json::jtext("text"@)),
        FormatView::JsonObject => JsonView::object().with("type"@, json::jtext("jsonobject"@)),
        FormatView::JsonSchema { name, schema, strict } => JsonView::object().with(
            "type"@,
            json::jtext("jsonschema"@),
        ).with("name"@, json::jtext(name)).with_opt("schema"@, schema).with(
            "strict"@,
            JsonView::Bool(strict),
        ),
    }
}

fn service_format_json(f: &ResponseFormat) -> (r: Json)
    ensures
        r@ == service_format(f@),
{
    match f {
        ResponseFormat::Text => Json::object().with("type", Json::text("text")),
        ResponseFormat::JsonObject => Json::object().with("type", Json::text("jsonobject")),
        ResponseFormat::JsonSchema(s) => {
            let mut out: Json = Json::object().with("type", Json::text("jsonschema")).with(
                "name",
                Json::text(s.name.as_str()),
            );
            if let Some(schema) = &s.schema {
                out.set("schema", clone_json(schema));
            }
            out.with("strict", Json::Bool(s.strict))
        },
    }
}

/// A tool of the service.
pub open spec fn service_tool(t: ToolView) -> JsonView {
    JsonView::object().with("type"@, json::jtext("function"@)).with(
        "function"@,
        JsonView::object().with("name"@, json::jtext(t.name)).with(
            "description"@,
            json::jtext(blocks::tool_description(t)),
        ).with("parameters"@, t.parameters),
    )
}

fn service_tools(tools: &Vec<Tool>) -> (r: Vec<Json>)
    ensures
        views::all(r@) == views::all(tools@).map_values(|t: ToolView| service_tool(t)),
{
    let ghost all = views::all(tools@);
    let mut out: Vec<Json> = Vec::new();
    let mut i: usize = 0;
    while i < tools.len()
        invariant
            i <= tools@.len(),
            out@.len() == i,
            all == views::all(tools@),
            forall|j: int| 0 <= j < i ==> #[trigger] views::all(out@)[j] == service_tool(all[j]),
        decreases tools@.len() - i,
    {
        let ghost before = views::all(out@);
        let t: &Tool = &tools[i];
        out.push(
            Json::object().with("type", Json::text("function")).with(
                "function",
                Json::object().with("name", Json::text(t.name.as_str())).with(
                    "description",
                    Json::string(tool_description_text(t)),
                ).with("parameters", tool_schema(t)),
            ),
        );
        assert(forall|j: int| 0 <= j < i ==> #[trigger] views::all(out@)[j] == before[j]);
        i = i + 1;
    }
    assert(views::all(out@) =~= all.map_values(|t: ToolView| service_tool(t)));
    out
}

/// The request for a response to a conversation.
pub open spec fn request(model: ModelView, ctx: ContextView, stream: bool) -> JsonView {
    JsonView::object().with("model"@, json::jtext(model.id)).with(
        "stream"@,
        JsonView::Bool(stream),
    ).with_opt(
        "temperature"@,
        match views::first_of(ctx.temperature, model.default_temperature) {
            Some(d) => Some(blocks::decimal_number(d)),
            None => None,
        },
    ).with_opt(
        "max_tokens"@,
        match ctx.max_tokens {
            Some(n) => Some(json::junsigned(n)),
            None => None,
        },
    ).with_opt(
        "response_format"@,
        match ctx.response_format {
            Some(f) => Some(service_format(f)),
            None => None,
        },
    ).with("messages"@, JsonView::Array(service_messages(ctx))).with_opt(
        "tools"@,
        if ctx.tools.len() == 0 {
            None
        } else {
            Some(JsonView::Array(ctx.tools.map_values(|t: ToolView| service_tool(t))))
        },
    )
}

/// Builds the request for a response to a conversation.
pub fn build_openai_request(model: &Model, ctx: &Context, stream: bool) -> (r: Json)
    ensures
        r@ == request(model@, ctx@, stream),
{
    let mut body: Json = Json::object().with("model", Json::text(model.id.as_str())).with(
        "stream",
        Json::Bool(stream),
    );
    if let Some(t) = &ctx.temperature {
        body.set("temperature", decimal_json(t.as_str()));
    } else if let Some(t) = &model.default_temperature {
        body.set("temperature", decimal_json(t.as_str()));
    }
    if let Some(n) = ctx.max_tokens {
        body.set("max_tokens", Json::unsigned(n));
    }
    if let Some(f) = &ctx.response_format {
        body.set("response_format", service_format_json(f));
    }
    let mut messages: Vec<Json> = Vec::new();
    if let Some(s) = &ctx.system_prompt {
        messages.push(
            Json::object().with("role", Json::text("system")).with(
                "content",
                Json::text(s.as_str()),
            ),
        );
    }
    let ghost system: Seq<JsonView> = match ctx@.system_prompt {
        Some(s) => seq![
            JsonView::object().with("role"@, json::jtext("system"@)).with(
                "content"@,
                json::jtext(s),
            ),
        ],
        None => Seq::empty(),
    };
    assert(views::all(messages@) =~= system);
    let ghost all = ctx@.messages;
    let mut i: usize = 0;
    while i < ctx.messages.len()
        invariant
            i <= ctx.messages@.len(),
            all == views::all(ctx.messages@),
            views::all(messages@) == system + all.take(i as int).map_values(
                |m: MessageView| service_message(m),
            ),
        decreases ctx.messages@.len() - i,
    {
        proof {
            views::lemma_take_step(all, i as int);
        }
        messages.push(service_message_json(&ctx.messages[i]));
        assert(views::all(messages@) =~= system + all.take(i + 1).map_values(
            |m: MessageView| service_message(m),
        ));
        i = i + 1;
    }
    proof {
        views::lemma_take_all(all);
    }
    assert(views::all(messages@) =~= service_messages(ctx@));
    body.set("messages", Json::array(messages));
    if ctx.tools.len() > 0 {
        body.set("tools", Json::array(service_tools(&ctx.tools)));
    }
    body
}

/// What was read of the message of a response.
#[verifier::ext_equal]
pub struct ReadView {
    pub events: Seq<WireEventView>,
    pub content: Seq<BlockView>,
}

/// The arguments of a tool call: those that are no JSON count as none.
pub open spec fn call_arguments(parsed: Result<JsonView, Seq<char>>) -> JsonView {
    match parsed {
        Ok(v) => v,
        Err(_) => JsonView::Null,
    }
}

/// A tool call of a response.
pub open spec fn call_read(call: JsonView) -> BlockView {
    let f = views::or(call.get("function"@), JsonView::Null);
    BlockView::ToolCall {
        id: views::or(call.field_text("id"@), Seq::empty()),
        name: views::or(f.field_text("name"@), Seq::empty()),
        arguments: call_arguments(
            json_text::json_of_text(views::or(f.field_text("arguments"@), "{}"@)),
        ),
    }
}

/// What was read behind tool calls.
pub open spec fn calls_read(
    first: ReadView,
    model: ModelView,
    calls: Seq<JsonView>,
    now: i64,
) -> ReadView
    decreases calls.len(),
{
    if calls.len() == 0 {
        first
    } else {
        let before = calls_read(first, model, calls.drop_last(), now);
        let call = call_read(calls.last());
        ReadView {
            events: before.events + events::call_events(model, calls.len() - 1, call, call, now),
            content: before.content.push(call),
        }
    }
}

/// What was read of the message of a response: text that is not empty, then the
/// tool calls.
pub open spec fn message_read(
    first: Seq<WireEventView>,
    model: ModelView,
    message: JsonView,
    now: i64,
) -> ReadView {
    let text = views::or(message.field_text("content"@), Seq::empty());
    let said = if text.len() == 0 {
        ReadView { events: first, content: Seq::empty() }
    } else {
        ReadView {
            events: first + events::text_events(text),
            content: seq![BlockView::Text { text, text_signature: None }],
        }
    };
    calls_read(
        said,
        model,
        views::or(message.field_items("tool_calls"@), Seq::empty()),
        now,
    )
}

/// The usage that a response reports.
pub open spec fn usage_read(model: ModelView, u: JsonView) -> UsageView {
    let counts = cost::counted(
        views::or(u.field_unsigned("prompt_tokens"@), 0),
        views::or(u.field_unsigned("completion_tokens"@), 0),
        views::or(u.unsigned2("prompt_tokens_details"@, "cached_tokens"@), 0),
        0,
    );
    UsageView { cost: cost::cost_of(model.cost_rates, counts), ..counts }
}

/// The first choice of a response.
pub open spec fn first_choice(json: JsonView) -> Option<JsonView> {
    match json.field_items("choices"@) {
        Some(items) => if items.len() > 0 {
            Some(items[0])
        } else {
            None
        },
        None => None,
    }
}

/// What a response is reported as.
pub open spec fn response_events(model: ModelView, json: JsonView, now: i64) -> Seq<WireEventView> {
    let first = seq![events::start_of(model, now)];
    let choice = views::or(first_choice(json), JsonView::Null);
    let stop = choice.field_text("finish_reason"@);
    let read = message_read(first, model, views::or(choice.get("message"@), JsonView::Null), now);
    let usage = match json.get("usage"@) {
        Some(u) => Some(usage_read(model, u)),
        None => None,
    };
    let reported = match usage {
        Some(u) => read.events.push(WireEventView::Usage { usage: u }),
        None => read.events,
    };
    reported.push(
        WireEventView::Done {
            reason: views::or(stop, "unknown"@),
            message: events::message_of(
                model,
                read.content,
                views::or(usage, types::no_usage()),
                stop,
                now,
            ),
        },
    )
}

fn owned_or(o: Option<&str>, d: &str) -> (r: String)
    ensures
        r@ == views::or(views::opt(o), d@),
{
    match o {
        Some(s) => s.to_owned(),
        None => d.to_owned(),
    }
}

/// The arguments of a tool call: those that are no JSON count as none.
pub fn arguments_or_null(parsed: Result<Json, String>) -> (r: Json)
    ensures
        r@ == call_arguments(
            match parsed {
                Ok(v) => Ok(v@),
                Err(e) => Err(e@),
            },
        ),
{
    match parsed {
        Ok(v) => v,
        Err(_) => Json::Null,
    }
}

/// Turns a response into the events that report it.
pub fn from_openai_response_json(model: &Model, json: &Json, now: i64) -> (r: Vec<WireEvent>)
    ensures
        views::all(r@) == response_events(model@, json@, now),
{
    let mut events: Vec<WireEvent> = Vec::new();
    events.push(start_event(model, now));
    let ghost first = seq![events::start_of(model@, now)];
    assert(views::all(events@) =~= first);
    let mut content: Vec<ContentBlock> = Vec::new();
    assert(views::all(content@) =~= Seq::<BlockView>::empty());
    let mut usage: Usage = Usage::default();
    let null: Json = Json::Null;
    let none: Vec<Json> = Vec::new();
    let choice: &Json = match json.field_array("choices") {
        Some(items) => if items.len() > 0 {
            &items[0]
        } else {
            &null
        },
        None => &null,
    };
    assert(choice@ == views::or(first_choice(json@), JsonView::Null));
    let stop_reason: Option<String> = views::opt_owned(choice.field_str("finish_reason"));
    let message: &Json = match choice.get("message") {
        Some(m) => m,
        None => &null,
    };
    if let Some(said) = message.field_str("content") {
        if !said.is_empty() {
            push_text_events(&mut events, said);
            content.push(ContentBlock::Text { text: said.to_owned(), text_signature: None });
        }
    }
    let ghost text = views::or(message@.field_text("content"@), Seq::empty());
    let ghost said_view = if text.len() == 0 {
        ReadView { events: first, content: Seq::empty() }
    } else {
        ReadView {
            events: first + events::text_events(text),
            content: seq![BlockView::Text { text, text_signature: None }],
        }
    };
    assert((ReadView { events: views::all(events@), content: views::all(content@) })
        =~= said_view);
    let calls: &Vec<Json> = match message.field_array("tool_calls") {
        Some(v) => v,
        None => &none,
    };
    let ghost all = views::all(calls@);
    assert(all =~= views::or(message@.field_items("tool_calls"@), Seq::empty()));
    proof {
        views::lemma_take_all(all);
    }
    let mut i: usize = 0;
    while i < calls.len()
        invariant
            i <= calls@.len(),
            all == views::all(calls@),
            null@ == JsonView::Null,
            (ReadView { events: views::all(events@), content: views::all(content@) })
                == calls_read(said_view, model@, all.take(i as int), now),
        decreases calls@.len() - i,
    {
        proof {
            views::lemma_take_step(all, i as int);
        }
        let call: &Json = &calls[i];
        let f: &Json = match call.get("function") {
            Some(v) => v,
            None => &null,
        };
        let id: String = owned_or(call.field_str("id"), "");
        let name: String = owned_or(f.field_str("name"), "");
        proof {
            reveal_strlit("");
            assert(""@ =~= Seq::<char>::empty());
        }
        let args_text: String = owned_or(f.field_str("arguments"), "{}");
        let arguments: Json = arguments_or_null(parse_json(args_text.as_str()));
        push_call_events(
            &mut events,
            model,
            i,
            id.as_str(),
            name.as_str(),
            &arguments,
            &arguments,
            now,
        );
        content.push(ContentBlock::ToolCall { id, name, arguments });
        assert(content@.last()@ == call_read(all[i as int]));
        assert((ReadView { events: views::all(events@), content: views::all(content@) })
            =~= calls_read(said_view, model@, all.take(i + 1), now));
        i = i + 1;
    }
    proof {
        views::lemma_take_all(all);
    }
    if let Some(u) = json.get("usage") {
        let input: u64 = u.field_u64("prompt_tokens").unwrap_or(0);
        let output: u64 = u.field_u64("completion_tokens").unwrap_or(0);
        let cache_read: u64 = u.u64_2("prompt_tokens_details", "cached_tokens").unwrap_or(0);
        usage.input = input;
        usage.output = output;
        usage.cache_read = cache_read;
        usage.cost = calculate_usage_cost(input, output, cache_read, 0, model);
        assert(usage@ == usage_read(model@, u@));
        events.push(WireEvent::Usage { usage: usage.clone() });
    }
    let reason: String = owned_or(views::opt_str(&stop_reason), "unknown");
    let done: Message = model_message(model, content, usage, stop_reason, now);
    events.push(WireEvent::Done { reason, message: done });
    events
}

proof fn lemma_calls_open(first: ReadView, model: ModelView, calls: Seq<JsonView>, now: i64)
    requires
        first.events.len() >= 1,
    ensures
        calls_read(first, model, calls, now).events.len() >= 1,
        calls_read(first, model, calls, now).events[0] == first.events[0],
    decreases calls.len(),
{
    if calls.len() > 0 {
        lemma_calls_open(first, model, calls.drop_last(), now);
    }
}

/// A response is always reported as opened first and as done last.
pub proof fn law_response_opens_and_ends(model: ModelView, json: JsonView, now: i64)
    ensures
        response_events(model, json, now).len() >= 2,
        response_events(model, json, now)[0] == events::start_of(model, now),
        response_events(model, json, now).last() is Done,
{
    let first = seq![events::start_of(model, now)];
    let choice = views::or(first_choice(json), JsonView::Null);
    let message = views::or(choice.get("message"@), JsonView::Null);
    let text = views::or(message.field_text("content"@), Seq::empty());
    let said = if text.len() == 0 {
        ReadView { events: first, content: Seq::empty() }
    } else {
        ReadView {
            events: first + events::text_events(text),
            content: seq![BlockView::Text { text, text_signature: None }],
        }
    };
    lemma_calls_open(
        said,
        model,
        views::or(message.field_items("tool_calls"@), Seq::empty()),
        now,
    );
}

/// Turns what the service answered into the events that report it, unless that is a failure
/// or no JSON.
pub fn from_openai_response_text(model: &Model, success: bool, status: &str, text: &str, now: i64) -> (r:
    Result<Vec<WireEvent>, String>)
    ensures
        match events::answered(success, status@, text@) {
            Ok(v) => r is Ok && views::all(r->Ok_0@) == response_events(model@, v, now),
            Err(e) => r is Err && r->Err_0@ == e,
        },
{
    match read_answer(success, status, text) {
        Ok(json) => Ok(from_openai_response_json(model, &json, now)),
        Err(e) => Err(e),
    }
}

} // verus!
