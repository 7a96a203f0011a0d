//! Requests to and responses of the Anthropic messages service.
use vstd::prelude::*;
use crate::cost;
use crate::cost::calculate_usage_cost;
use crate::json;
use crate::json::{clone_json, Json, JsonView};
use crate::text;
use crate::text::{concat3, same_text};
use crate::types;
use crate::types::{
    content_text, BlockView, ContentBlock, Context, ContextView, Message, MessageView, Model,
    ModelView, Tool, ToolChoice, ToolChoiceView, ToolView, Usage, UsageView,
};
use crate::views;
use crate::wire::blocks;
use crate::wire::blocks::{
    decimal_json, image_base64, image_media_type, text_part_json, tool_description_text,
    tool_schema,
};
use crate::wire::events;
use crate::wire::events::{
    model_message, push_call_events, push_text_events, read_answer, start_event, WireEvent,
    WireEventView,
};

verus! {

broadcast use crate::views::group_views;

/// How many tokens are asked for where neither the context nor the model says.
pub const DEFAULT_MAX_TOKENS: u64 = 4096;

/// A block of a user message, where the service takes it.
pub open spec fn user_part(b: BlockView) -> Option<JsonView> {
    match b {
        BlockView::Text { text, .. } => Some(blocks::text_part(text)),
        BlockView::Image { data, mime_type, .. } => Some(
            JsonView::object().with("type"@, json::jtext("image"@)).with(
                "source"@,
                JsonView::object().with("type"@, json::jtext("base64"@)).with(
                    "media_type"@,
                    json::jtext(blocks::image_type(data, mime_type)),
                ).with("data"@, json::jtext(blocks::image_payload(data))),
            ),
        ),
        _ => None,
    }
}

fn user_part_exec(b: &ContentBlock) -> (r: Option<Json>)
    ensures
        views::opt(r) == user_part(b@),
{
    match b {
        ContentBlock::Text { text, .. } => Some(text_part_json(text.as_str())),
        ContentBlock::Image(img) => Some(
            Json::object().with("type", Json::text("image")).with(
                "source",
                Json::object().with("type", Json::text("base64")).with(
                    "media_type",
                    Json::string(image_media_type(img)),
                ).with("data", Json::string(image_base64(img.data.as_str()))),
            ),
        ),
        _ => None,
    }
}

/// A block of an assistant message, where the service takes it. Thinking goes as
/// text.
pub open spec fn assistant_part(b: BlockView) -> Option<JsonView> {
    match b {
        BlockView::Text { text, .. } => Some(blocks::text_part(text)),
        BlockView::ToolCall { id, name, arguments } => Some(
            JsonView::object().with("type"@, json::jtext("tool_use"@)).with(
                "id"@,
                json::jtext(id),
            ).with("name"@, json::jtext(name)).with("input"@, arguments),
        ),
        BlockView::Thinking { thinking, .. } => Some(blocks::text_part(thinking)),
        _ => None,
    }
}

fn assistant_part_exec(b: &ContentBlock) -> (r: Option<Json>)
    ensures
        views::opt(r) == assistant_part(b@),
{
    match b {
        ContentBlock::Text { text, .. } => Some(text_part_json(text.as_str())),
        ContentBlock::ToolCall { id, name, arguments } => Some(
            Json::object().with("type", Json::text("tool_use")).with(
                "id",
                Json::text(id.as_str()),
            ).with("name", Json::text(name.as_str())).with("input", clone_json(arguments)),
        ),
        ContentBlock::Thinking { thinking, .. } => Some(text_part_json(thinking.as_str())),
        _ => None,
    }
}

/// The blocks of a user message that the service takes, in order.
pub open spec fn user_parts(content: Seq<BlockView>) -> Seq<JsonView>
    decreases content.len(),
{
    if content.len() == 0 {
        Seq::empty()
    } else {
        let before = user_parts(content.drop_last());
        match user_part(content.last()) {
            Some(p) => before.push(p),
            None => before,
        }
    }
}

/// The blocks of an assistant message that the service takes, in order.
pub open spec fn assistant_parts(content: Seq<BlockView>) -> Seq<JsonView>
    decreases content.len(),
{
    if content.len() == 0 {
        Seq::empty()
    } else {
        let before = assistant_parts(content.drop_last());
        match assistant_part(content.last()) {
            Some(p) => before.push(p),
            None => before,
        }
    }
}

fn user_parts_exec(content: &Vec<ContentBlock>) -> (r: Vec<Json>)
    ensures
        views::all(r@) == user_parts(views::all(content@)),
{
    let ghost all = views::all(content@);
    let mut out: Vec<Json> = Vec::new();
    let mut i: usize = 0;
    while i < content.len()
        invariant
            i <= content@.len(),
            all == views::all(content@),
            views::all(out@) == user_parts(all.take(i as int)),
        decreases content@.len() - i,
    {
        proof {
            views::lemma_take_step(all, i as int);
        }
        if let Some(p) = user_part_exec(&content[i]) {
            out.push(p);
        }
        i = i + 1;
    }
    proof {
        views::lemma_take_all(all);
    }
    out
}

fn assistant_parts_exec(content: &Vec<ContentBlock>) -> (r: Vec<Json>)
    ensures
        views::all(r@) == assistant_parts(views::all(content@)),
{
    let ghost all = views::all(content@);
    let mut out: Vec<Json> = Vec::new();
    let mut i: usize = 0;
    while i < content.len()
        invariant
            i <= content@.len(),
            all == views::all(content@),
            views::all(out@) == assistant_parts(all.take(i as int)),
        decreases content@.len() - i,
    {
        proof {
            views::lemma_take_step(all, i as int);
        }
        if let Some(p) = assistant_part_exec(&content[i]) {
            out.push(p);
        }
        i = i + 1;
    }
    proof {
        views::lemma_take_all(all);
    }
    out
}

/// A message of the service.
pub open spec fn turn(role: Seq<char>, content: Seq<JsonView>) -> JsonView {
    JsonView::object().with("role"@, json::jtext(role)).with("content"@, JsonView::Array(content))
}

fn turn_json(role: &str, content: Vec<Json>) -> (r: Json)
    ensures
        r@ == turn(role@, views::all(content@)),
{
    Json::object().with("role", Json::text(role)).with("content", Json::array(content))
}

/// The assistant message that keeps two user messages apart.
pub open spec fn filler() -> JsonView {
    turn("assistant"@, seq![blocks::text_part(" "@)])
}

fn filler_json() -> (r: Json)
    ensures
        r@ == filler(),
{
    let mut parts: Vec<Json> = Vec::new();
    parts.push(text_part_json(" "));
    assert(views::all(parts@) =~= seq![blocks::text_part(" "@)]);
    turn_json("assistant", parts)
}

/// The result of a tool, as a part.
pub open spec fn tool_result_part(
    tool_call_id: Seq<char>,
    text: Seq<char>,
    is_error: bool,
) -> JsonView {
    JsonView::object().with("type"@, json::jtext("tool_result"@)).with(
        "tool_use_id"@,
        json::jtext(tool_call_id),
    ).with("content"@, json::jtext(text)).with("is_error"@, JsonView::Bool(is_error))
}

/// A conversation as far as it was turned into messages of the service.
#[verifier::ext_equal]
pub struct TurnsView {
    pub turns: Seq<JsonView>,
    /// Whether the last message is the user's.
    pub user_last: bool,
    pub system: Option<Seq<char>>,
}

/// The turns behind one more of the user's: a user message never follows another.
pub open spec fn user_turn(t: TurnsView, content: Seq<JsonView>) -> TurnsView {
    let kept_apart = if t.user_last {
        t.turns.push(filler())
    } else {
        t.turns
    };
    TurnsView { turns: kept_apart.push(turn("user"@, content)), user_last: true, ..t }
}

/// The turns behind one more message. Tool results are the user's; system messages
/// join the system prompt; assistant messages without content are left out.
pub open spec fn turned(t: TurnsView, m: MessageView) -> TurnsView {
    match m {
        MessageView::User { content, .. } => user_turn(t, user_parts(content)),
        MessageView::Assistant(a) => {
            let parts = assistant_parts(a.content);
            if parts.len() == 0 {
                t
            } else {
                TurnsView {
                    turns: t.turns.push(turn("assistant"@, parts)),
                    user_last: false,
                    ..t
                }
            }
        },
        MessageView::ToolResult { tool_call_id, content, is_error, .. } => user_turn(
            t,
            seq![
                tool_result_part(
                    tool_call_id,
                    text::joined(types::block_texts(content), "\n"@),
                    is_error,
                ),
            ],
        ),
        MessageView::System { content, .. } => {
            let said = text::joined(types::block_texts(content), "\n"@);
            TurnsView {
                system: Some(
                    match t.system {
                        Some(s) => s + "\n\n"@ + said,
                        None => said,
                    },
                ),
                ..t
            }
        },
    }
}

/// The turns of a conversation.
pub open spec fn turns_of(system: Option<Seq<char>>, messages: Seq<MessageView>) -> TurnsView
    decreases messages.len(),
{
    if messages.len() == 0 {
        TurnsView { turns: Seq::empty(), user_last: false, system }
    } else {
        turned(turns_of(system, messages.drop_last()), messages.last())
    }
}

struct Turns {
    turns: Vec<Json>,
    user_last: bool,
    system: Option<String>,
}

impl View for Turns {
    type V = TurnsView;

    closed spec fn view(&self) -> TurnsView {
        TurnsView {
            turns: views::all(self.turns@),
            user_last: self.user_last,
            system: views::opt(self.system),
        }
    }
}

impl Turns {
    fn add_user(&mut self, content: Vec<Json>)
        ensures
            final(self)@ == user_turn(old(self)@, views::all(content@)),
    {
        if self.user_last {
            self.turns.push(filler_json());
        }
        self.turns.push(turn_json("user", content));
        self.user_last = true;
    }

    fn add(&mut self, m: &Message)
        ensures
            final(self)@ == turned(old(self)@, m@),
    {
        match m {
            Message::User { content, .. } => {
                self.add_user(user_parts_exec(content));
            },
            Message::Assistant { content, .. } => {
                let parts: Vec<Json> = assistant_parts_exec(content);
                if parts.len() > 0 {
                    self.turns.push(turn_json("assistant", parts));
                    self.user_last = false;
                }
            },
            Message::ToolResult { tool_call_id, content, is_error, .. } => {
                let part: Json = Json::object().with("type", Json::text("tool_result")).with(
                    "tool_use_id",
                    Json::text(tool_call_id.as_str()),
                ).with("content", Json::string(content_text(content))).with(
                    "is_error",
                    Json::Bool(*is_error),
                );
                let mut parts: Vec<Json> = Vec::new();
                parts.push(part);
                assert(views::all(parts@) =~= seq![part@]);
                self.add_user(parts);
            },
            Message::System { content, .. } => {
                let said: String = content_text(content);
                let joined: String = match &self.system {
                    Some(s) => concat3(s.as_str(), "\n\n", said.as_str()),
                    None => said,
                };
                self.system = Some(joined);
            },
        }
    }
}

/// A tool of the service.
pub open spec fn service_tool(t: ToolView) -> JsonView {
    JsonView::object().with("name"@, json::jtext(t.name)).with(
        "description"@,
        json::jtext(blocks::tool_description(t)),
    ).with("input_schema"@, t.parameters)
}

fn service_tool_json(t: &Tool) -> (r: Json)
    ensures
        r@ == service_tool(t@),
{
    Json::object().with("name", Json::text(t.name.as_str())).with(
        "description",
        Json::string(tool_description_text(t)),
    ).with("input_schema", tool_schema(t))
}

/// A tool choice of the service, which has no way to forbid tools.
pub open spec fn service_choice(c: ToolChoiceView) -> JsonView {
    match c {
        ToolChoiceView::Auto => JsonView::object().with("type"@, json::jtext("auto"@)),
        ToolChoiceView::Never => JsonView::object().with("type"@, json::jtext("auto"@)),
        ToolChoiceView::Required => JsonView::object().with("type"@, json::jtext("any"@)),
        ToolChoiceView::Tool { name } => JsonView::object().with(
            "type"@,
            json::jtext("tool"@),
        ).with("name"@, json::jtext(name)),
    }
}

fn service_choice_json(c: &ToolChoice) -> (r: Json)
    ensures
        r@ == service_choice(c@),
{
    match c {
        ToolChoice::Auto => Json::object().with("type", Json::text("auto")),
        ToolChoice::Never => Json::object().with("type", Json::text("auto")),
        ToolChoice::Required => Json::object().with("type", Json::text("any")),
        ToolChoice::Tool { name } => Json::object().with("type", Json::text("tool")).with(
            "name",
            Json::text(name.as_str()),
        ),
    }
}

fn service_tools(tools: &Vec<Tool>) -> (r: Vec<Json>)
    ensures
        views::all(r@) == views::all(tools@).map_values(|t: ToolView| service_tool(t)),
{
    let ghost all = views::all(tools@);
    let mut out: Vec<Json> = Vec::new();
    let mut i: usize = 0;
    while i < tools.len()
        invariant
            i <= tools@.len(),
            out@.len() == i,
            all == views::all(tools@),
            forall|j: int| 0 <= j < i ==> #[trigger] views::all(out@)[j] == service_tool(all[j]),
        decreases tools@.len() - i,
    {
        let ghost before = views::all(out@);
        out.push(service_tool_json(&tools[i]));
        assert(forall|j: int| 0 <= j < i ==> #[trigger] views::all(out@)[j] == before[j]);
        i = i + 1;
    }
    assert(views::all(out@) =~= all.map_values(|t: ToolView| service_tool(t)));
    out
}

/// The request for a response to a conversation.
pub open spec fn request(model: ModelView, ctx: ContextView) -> JsonView {
    let t = turns_of(ctx.system_prompt, ctx.messages);
    JsonView::object().with("model"@, json::jtext(model.id)).with(
        "max_tokens"@,
        json::junsigned(
            views::or(ctx.max_tokens, views::or(model.max_output_tokens, DEFAULT_MAX_TOKENS)),
        ),
    ).with_opt(
        "temperature"@,
        match views::first_of(ctx.temperature, model.default_temperature) {
            Some(d) => Some(blocks::decimal_number(d)),
            None => None,
        },
    ).with_opt(
        "system"@,
        match t.system {
            Some(s) => Some(json::jtext(s)),
            None => None,
        },
    ).with("messages"@, JsonView::Array(t.turns)).with_opt(
        "tools"@,
        if ctx.tools.len() == 0 {
            None
        } else {
            Some(JsonView::Array(ctx.tools.map_values(|t: ToolView| service_tool(t))))
        },
    ).with_opt(
        "tool_choice"@,
        if ctx.tools.len() == 0 {
            None
        } else {
            match ctx.tool_choice {
                Some(c) => Some(service_choice(c)),
                None => None,
            }
        },
    )
}

/// Builds the request for a response to a conversation.
pub fn build_anthropic_request(model: &Model, ctx: &Context) -> (r: Json)
    ensures
        r@ == request(model@, ctx@),
{
    let max_tokens: u64 = match ctx.max_tokens {
        Some(n) => n,
        None => match model.max_output_tokens {
            Some(n) => n,
            None => DEFAULT_MAX_TOKENS,
        },
    };
    let mut body: Json = Json::object().with("model", Json::text(model.id.as_str())).with(
        "max_tokens",
        Json::unsigned(max_tokens),
    );
    if let Some(t) = &ctx.temperature {
        body.set("temperature", decimal_json(t.as_str()));
    } else if let Some(t) = &model.default_temperature {
        body.set("temperature", decimal_json(t.as_str()));
    }
    let mut t: Turns = Turns {
        turns: Vec::new(),
        user_last: false,
        system: views::clone_opt_text(&ctx.system_prompt),
    };
    let ghost all = ctx@.messages;
    let ghost system = ctx@.system_prompt;
    let mut i: usize = 0;
    proof {
        views::lemma_take_all(all);
        assert(t@ =~= turns_of(system, all.take(0)));
    }
    while i < ctx.messages.len()
        invariant
            i <= ctx.messages@.len(),
            all == views::all(ctx.messages@),
            t@ == turns_of(system, all.take(i as int)),
        decreases ctx.messages@.len() - i,
    {
        proof {
            views::lemma_take_step(all, i as int);
        }
        t.add(&ctx.messages[i]);
        i = i + 1;
    }
    proof {
        views::lemma_take_all(all);
    }
    if let Some(s) = t.system {
        body.set("system", Json::string(s));
    }
    body.set("messages", Json::array(t.turns));
    if ctx.tools.len() > 0 {
        body.set("tools", Json::array(service_tools(&ctx.tools)));
        if let Some(c) = &ctx.tool_choice {
            body.set("tool_choice", service_choice_json(c));
        }
    }
    body
}

/// Whether a message of the service is the user's.
pub open spec fn is_user_turn(t: JsonView) -> bool {
    t.field_text("role"@) == Some("user"@)
}

proof fn lemma_turns_apart(system: Option<Seq<char>>, messages: Seq<MessageView>)
    ensures
        ({
            let t = turns_of(system, messages);
            &&& forall|i: int|
                0 <= i < t.turns.len() - 1 ==> !(is_user_turn(#[trigger] t.turns[i])
                    && is_user_turn(t.turns[i + 1]))
            &&& !t.user_last && t.turns.len() > 0 ==> !is_user_turn(t.turns.last())
        }),
    decreases messages.len(),
{
    if messages.len() > 0 {
        lemma_turns_apart(system, messages.drop_last());
        reveal_strlit("assistant");
        reveal_strlit("user");
        assert("assistant"@.len() != "user"@.len());
        let before = turns_of(system, messages.drop_last());
        let after = turns_of(system, messages);
        reveal_strlit("role");
        reveal_strlit("content");
        assert("role"@.len() != "content"@.len());
        assert(!is_user_turn(filler()));
        assert forall|i: int| 0 <= i < after.turns.len() - 1 implies !(is_user_turn(
            #[trigger] after.turns[i],
        ) && is_user_turn(after.turns[i + 1])) by {
            if i < before.turns.len() - 1 {
                assert(after.turns[i] == before.turns[i]);
                assert(after.turns[i + 1] == before.turns[i + 1]);
            } else if i == before.turns.len() - 1 {
                assert(after.turns[i] == before.turns.last());
            }
        }
    }
}

/// No two messages of the user follow each other in a request, whatever the
/// conversation.
pub proof fn law_user_turns_are_kept_apart(
    system: Option<Seq<char>>,
    messages: Seq<MessageView>,
    i: int,
)
    requires
        0 <= i < turns_of(system, messages).turns.len() - 1,
    ensures
        !(is_user_turn(turns_of(system, messages).turns[i]) && is_user_turn(
            turns_of(system, messages).turns[i + 1],
        )),
{
    lemma_turns_apart(system, messages);
}

/// What was read of the content of a response.
#[verifier::ext_equal]
pub struct ReadView {
    pub events: Seq<WireEventView>,
    pub content: Seq<BlockView>,
    pub calls: nat,
}

/// What was read behind one more block: text that is not empty and tool calls are
/// taken, anything else is left out.
pub open spec fn block_read(r: ReadView, model: ModelView, block: JsonView, now: i64) -> ReadView {
    if block.field_text("type"@) == Some("text"@) {
        let text = views::or(block.field_text("text"@), Seq::empty());
        if text.len() == 0 {
            r
        } else {
            ReadView {
                events: r.events + events::text_events(text),
                content: r.content.push(BlockView::Text { text, text_signature: None }),
                ..r
            }
        }
    } else if block.field_text("type"@) == Some("tool_use"@) {
        let call = BlockView::ToolCall {
            id: views::or(block.field_text("id"@), Seq::empty()),
            name: views::or(block.field_text("name"@), Seq::empty()),
            arguments: views::or(block.get("input"@), JsonView::Null),
        };
        ReadView {
            events: r.events + events::call_events(model, r.calls as int, call, call, now),
            content: r.content.push(call),
            calls: r.calls + 1,
        }
    } else {
        r
    }
}

/// What was read of blocks.
pub open spec fn blocks_read(
    first: Seq<WireEventView>,
    model: ModelView,
    blocks: Seq<JsonView>,
    now: i64,
) -> ReadView
    decreases blocks.len(),
{
    if blocks.len() == 0 {
        ReadView { events: first, content: Seq::empty(), calls: 0 }
    } else {
        block_read(blocks_read(first, model, blocks.drop_last(), now), model, blocks.last(), now)
    }
}

/// The usage that a response reports.
pub open spec fn usage_read(model: ModelView, u: JsonView) -> UsageView {
    let counts = cost::counted(
        views::or(u.field_unsigned("input_tokens"@), 0),
        views::or(u.field_unsigned("output_tokens"@), 0),
        views::or(u.field_unsigned("cache_read_input_tokens"@), 0),
        views::or(u.field_unsigned("cache_creation_input_tokens"@), 0),
    );
    UsageView { cost: cost::cost_of(model.cost_rates, counts), ..counts }
}

/// What a response is reported as.
pub open spec fn response_events(model: ModelView, json: JsonView, now: i64) -> Seq<WireEventView> {
    let stop = json.field_text("stop_reason"@);
    let read = blocks_read(
        seq![events::start_of(model, now)],
        model,
        views::or(json.field_items("content"@), Seq::empty()),
        now,
    );
    let usage = match json.get("usage"@) {
        Some(u) => Some(usage_read(model, u)),
        None => None,
    };
    let reported = match usage {
        Some(u) => read.events.push(WireEventView::Usage { usage: u }),
        None => read.events,
    };
    reported.push(
        WireEventView::Done {
            reason: views::or(stop, "unknown"@),
            message: events::message_of(
                model,
                read.content,
                views::or(usage, types::no_usage()),
                stop,
                now,
            ),
        },
    )
}

fn owned_or_empty(o: Option<&str>) -> (r: String)
    ensures
        r@ == views::or(views::opt(o), Seq::empty()),
{
    match o {
        Some(s) => s.to_owned(),
        None => String::new(),
    }
}

/// Turns a response into the events that report it.
pub fn from_anthropic_response_json(model: &Model, json: &Json, now: i64) -> (r: Vec<WireEvent>)
    ensures
        views::all(r@) == response_events(model@, json@, now),
{
    let mut events: Vec<WireEvent> = Vec::new();
    events.push(start_event(model, now));
    let ghost first = seq![events::start_of(model@, now)];
    assert(views::all(events@) =~= first);
    let mut content: Vec<ContentBlock> = Vec::new();
    let mut usage: Usage = Usage::default();
    let stop_reason: Option<String> = views::opt_owned(json.field_str("stop_reason"));
    let none: Vec<Json> = Vec::new();
    let items: &Vec<Json> = match json.field_array("content") {
        Some(v) => v,
        None => &none,
    };
    let ghost all = views::all(items@);
    assert(all =~= views::or(json@.field_items("content"@), Seq::empty()));
    let mut calls: usize = 0;
    let mut i: usize = 0;
    proof {
        views::lemma_take_all(all);
        assert(views::all(content@) =~= Seq::<BlockView>::empty());
    }
    while i < items.len()
        invariant
            i <= items@.len(),
            calls <= i,
            all == views::all(items@),
            (ReadView { events: views::all(events@), content: views::all(content@), calls: calls as nat })
                == blocks_read(first, model@, all.take(i as int), now),
        decreases items@.len() - i,
    {
        proof {
            views::lemma_take_step(all, i as int);
        }
        let block: &Json = &items[i];
        let ghost so_far = blocks_read(first, model@, all.take(i as int), now);
        assert(block@ == all[i as int]);
        if let Some(kind) = block.field_str("type") {
            if same_text(kind, "text") {
                let said: String = owned_or_empty(block.field_str("text"));
                if !said.as_str().is_empty() {
                    push_text_events(&mut events, said.as_str());
                    content.push(ContentBlock::Text { text: said, text_signature: None });
                }
            } else if same_text(kind, "tool_use") {
                let id: String = owned_or_empty(block.field_str("id"));
                let name: String = owned_or_empty(block.field_str("name"));
                let input: Json = match block.get("input") {
                    Some(v) => clone_json(v),
                    None => Json::Null,
                };
                push_call_events(
                    &mut events,
                    model,
                    calls,
                    id.as_str(),
                    name.as_str(),
                    &input,
                    &input,
                    now,
                );
                content.push(ContentBlock::ToolCall { id, name, arguments: input });
                calls = calls + 1;
            }
        }
        assert((ReadView {
            events: views::all(events@),
            content: views::all(content@),
            calls: calls as nat,
        }) =~= block_read(so_far, model@, all[i as int], now));
        i = i + 1;
    }
    proof {
        views::lemma_take_all(all);
    }
    if let Some(u) = json.get("usage") {
        let input: u64 = u.field_u64("input_tokens").unwrap_or(0);
        let output: u64 = u.field_u64("output_tokens").unwrap_or(0);
        let cache_write: u64 = u.field_u64("cache_creation_input_tokens").unwrap_or(0);
        let cache_read: u64 = u.field_u64("cache_read_input_tokens").unwrap_or(0);
        usage.input = input;
        usage.output = output;
        usage.cache_read = cache_read;
        usage.cache_write = cache_write;
        usage.cost = calculate_usage_cost(input, output, cache_read, cache_write, model);
        assert(usage@ == usage_read(model@, u@));
        events.push(WireEvent::Usage { usage: usage.clone() });
    }
    let reason: String = match &stop_reason {
        Some(s) => s.clone(),
        None => "unknown".to_owned(),
    };
    let message: Message = model_message(model, content, usage, stop_reason, now);
    events.push(WireEvent::Done { reason, message });
    events
}

/// A response is always reported as opened first and as done last.
pub proof fn law_response_opens_and_ends(model: ModelView, json: JsonView, now: i64)
    ensures
        response_events(model, json, now).len() >= 2,
        response_events(model, json, now)[0] == events::start_of(model, now),
        response_events(model, json, now).last() is Done,
{
    let first = seq![events::start_of(model, now)];
    let items = views::or(json.field_items("content"@), Seq::empty());
    lemma_read_opens(first, model, items, now);
}

proof fn lemma_read_opens(
    first: Seq<WireEventView>,
    model: ModelView,
    items: Seq<JsonView>,
    now: i64,
)
    requires
        first.len() == 1,
    ensures
        blocks_read(first, model, items, now).events.len() >= 1,
        blocks_read(first, model, items, now).events[0] == first[0],
    decreases items.len(),
{
    if items.len() > 0 {
        lemma_read_opens(first, model, items.drop_last(), now);
    }
}

/// Turns what the service answered into the events that report it, unless that is a failure
/// or no JSON.
pub fn from_anthropic_response_text(model: &Model, success: bool, status: &str, text: &str, now: i64) -> (r:
    Result<Vec<WireEvent>, String>)
    ensures
        match events::answered(success, status@, text@) {
            Ok(v) => r is Ok && views::all(r->Ok_0@) == response_events(model@, v, now),
            Err(e) => r is Err && r->Err_0@ == e,
        },
{
    match read_answer(success, status, text) {
        Ok(json) => Ok(from_anthropic_response_json(model, &json, now)),
        Err(e) => Err(e),
    }
}

} // verus!
