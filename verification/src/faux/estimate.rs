//! How many tokens a scripted exchange would have used.
use vstd::prelude::*;
use vstd::utf8::*;
use crate::dict;
use crate::dict::Dict;
use crate::json;
use crate::json::Json;
use crate::json_text;
use crate::json_text::print_json;
use crate::text;
use crate::text::{concat, concat3, decimal, join};
use crate::types;
use crate::types::{
    AssistantMessage, AssistantView, BlockView, CacheRetention, ContentBlock, Context, ContextView,
    Message, MessageView, SamplingView, SimpleStreamOptions, Tool, ToolConstrainedSampling,
    ToolView, Usage, UsageCost, UsageView,
};
use crate::views;

verus! {

broadcast use crate::views::group_views;

/// The tokens of so many bytes: one for four bytes or a part of them.
pub open spec fn tokens_of(bytes: nat) -> nat {
    (bytes + 3) / 4
}

fn tokens_of_len(bytes: usize) -> (r: u64)
    ensures
        r == tokens_of(bytes as nat),
        r <= 0x4000_0000_0000_0000,
{
    let whole: u64 = (bytes / 4) as u64;
    if bytes % 4 == 0 {
        whole
    } else {
        whole + 1
    }
}

/// The tokens of a text.
pub fn estimate_tokens(text: &str) -> (r: u64)
    ensures
        r == tokens_of(encode_utf8(text@).len()),
{
    tokens_of_len(text.as_bytes().len())
}

/// What a block of a user or system message counts as.
pub open spec fn block_text(b: BlockView) -> Seq<char> {
    match b {
        BlockView::Text { text, .. } => text,
        BlockView::Image { data, mime_type, .. } => "[image:"@ + views::or(
            mime_type,
            "application/octet-stream"@,
        ) + ":"@ + text::decimal_text(encode_utf8(data).len()) + "]"@,
        _ => Seq::empty(),
    }
}

/// What a block of an assistant message counts as.
pub open spec fn assistant_block_text(b: BlockView) -> Seq<char> {
    match b {
        BlockView::Text { text, .. } => text,
        BlockView::Thinking { thinking, .. } => thinking,
        BlockView::ToolCall { name, arguments, .. } => name + ":"@ + json_text::text_of_json(
            arguments,
        ),
        _ => Seq::empty(),
    }
}

/// What a block of a tool result counts as.
pub open spec fn result_block_text(b: BlockView) -> Seq<char> {
    match b {
        BlockView::Text { text, .. } => text,
        _ => Seq::empty(),
    }
}

fn block_text_exec(b: &ContentBlock) -> (r: String)
    ensures
        r@ == block_text(b@),
{
    match b {
        ContentBlock::Text { text, .. } => text.clone(),
        ContentBlock::Image(img) => {
            let mime: &str = match &img.mime_type {
                Some(m) => m.as_str(),
                None => "application/octet-stream",
            };
            let n: u64 = img.data.as_str().as_bytes().len() as u64;
            let mut s: String = concat3("[image:", mime, ":");
            s.append(decimal(n).as_str());
            s.append("]");
            s
        },
        _ => String::new(),
    }
}

fn assistant_block_text_exec(b: &ContentBlock) -> (r: String)
    ensures
        r@ == assistant_block_text(b@),
{
    match b {
        ContentBlock::Text { text, .. } => text.clone(),
        ContentBlock::Thinking { thinking, .. } => thinking.clone(),
        ContentBlock::ToolCall { name, arguments, .. } => concat3(
            name.as_str(),
            ":",
            print_json(arguments).as_str(),
        ),
        _ => String::new(),
    }
}

fn result_block_text_exec(b: &ContentBlock) -> (r: String)
    ensures
        r@ == result_block_text(b@),
{
    match b {
        ContentBlock::Text { text, .. } => text.clone(),
        _ => String::new(),
    }
}

/// What the content of a user or system message counts as.
pub open spec fn content_line(content: Seq<BlockView>) -> Seq<char> {
    text::joined(content.map_values(|b: BlockView| block_text(b)), "\n"@)
}

/// What the content of an assistant message counts as.
pub open spec fn assistant_line(content: Seq<BlockView>) -> Seq<char> {
    text::joined(content.map_values(|b: BlockView| assistant_block_text(b)), "\n"@)
}

/// What the content of a user or system message counts as.
pub fn content_to_text(content: &Vec<ContentBlock>) -> (r: String)
    ensures
        r@ == content_line(views::all(content@)),
{
    let ghost all = views::all(content@);
    let mut lines: Vec<String> = Vec::new();
    let mut i: usize = 0;
    while i < content.len()
        invariant
            i <= content@.len(),
            lines@.len() == i,
            all == views::all(content@),
            forall|j: int| 0 <= j < i ==> #[trigger] views::all(lines@)[j] == block_text(all[j]),
        decreases content@.len() - i,
    {
        let ghost before = views::all(lines@);
        lines.push(block_text_exec(&content[i]));
        assert(forall|j: int| 0 <= j < i ==> #[trigger] views::all(lines@)[j] == before[j]);
        i = i + 1;
    }
    assert(views::all(lines@) =~= all.map_values(|b: BlockView| block_text(b)));
    join(&lines, "\n")
}

/// What the content of an assistant message counts as.
pub fn assistant_content_to_text(content: &Vec<ContentBlock>) -> (r: String)
    ensures
        r@ == assistant_line(views::all(content@)),
{
    let ghost all = views::all(content@);
    let mut lines: Vec<String> = Vec::new();
    let mut i: usize = 0;
    while i < content.len()
        invariant
            i <= content@.len(),
            lines@.len() == i,
            all == views::all(content@),
            forall|j: int|
                0 <= j < i ==> #[trigger] views::all(lines@)[j] == assistant_block_text(all[j]),
        decreases content@.len() - i,
    {
        let ghost before = views::all(lines@);
        lines.push(assistant_block_text_exec(&content[i]));
        assert(forall|j: int| 0 <= j < i ==> #[trigger] views::all(lines@)[j] == before[j]);
        i = i + 1;
    }
    assert(views::all(lines@) =~= all.map_values(|b: BlockView| assistant_block_text(b)));
    join(&lines, "\n")
}

/// What a message counts as.
pub open spec fn message_line(m: MessageView) -> Seq<char> {
    match m {
        MessageView::User { content, .. } => content_line(content),
        MessageView::Assistant(a) => assistant_line(a.content),
        MessageView::ToolResult { tool_name, content, .. } => "toolResult:"@ + text::joined(
            seq![tool_name] + content.map_values(|b: BlockView| result_block_text(b)),
            "\n"@,
        ),
        MessageView::System { content, .. } => content_line(content),
    }
}

fn tool_result_line(tool_name: &str, content: &Vec<ContentBlock>) -> (r: String)
    ensures
        r@ == "toolResult:"@ + text::joined(
            seq![tool_name@] + views::all(content@).map_values(
                |b: BlockView| result_block_text(b),
            ),
            "\n"@,
        ),
{
    let ghost all = views::all(content@);
    let mut lines: Vec<String> = Vec::new();
    lines.push(tool_name.to_owned());
    let mut i: usize = 0;
    while i < content.len()
        invariant
            i <= content@.len(),
            lines@.len() == i + 1,
            all == views::all(content@),
            views::all(lines@)[0] == tool_name@,
            forall|j: int|
                1 <= j <= i ==> #[trigger] views::all(lines@)[j] == result_block_text(all[j - 1]),
        decreases content@.len() - i,
    {
        let ghost before = views::all(lines@);
        lines.push(result_block_text_exec(&content[i]));
        assert(forall|j: int| 0 <= j <= i ==> #[trigger] views::all(lines@)[j] == before[j]);
        i = i + 1;
    }
    assert(views::all(lines@) =~= seq![tool_name@] + all.map_values(
        |b: BlockView| result_block_text(b),
    ));
    concat("toolResult:", join(&lines, "\n").as_str())
}

/// What a message counts as.
pub fn message_to_text(m: &Message) -> (r: String)
    ensures
        r@ == message_line(m@),
{
    match m {
        Message::User { content, .. } => content_to_text(content),
        Message::Assistant { content, .. } => assistant_content_to_text(content),
        Message::ToolResult { tool_name, content, .. } => tool_result_line(
            tool_name.as_str(),
            content,
        ),
        Message::System { content, .. } => content_to_text(content),
    }
}

/// The role of a message.
pub open spec fn role(m: MessageView) -> Seq<char> {
    match m {
        MessageView::User { .. } => "user"@,
        MessageView::Assistant(_) => "assistant"@,
        MessageView::ToolResult { .. } => "toolResult"@,
        MessageView::System { .. } => "system"@,
    }
}

fn role_exec(m: &Message) -> (r: &'static str)
    ensures
        r@ == role(m@),
{
    match m {
        Message::User { .. } => "user",
        Message::Assistant { .. } => "assistant",
        Message::ToolResult { .. } => "toolResult",
        Message::System { .. } => "system",
    }
}

/// A text as a JSON string.
pub open spec fn json_string(s: Seq<char>) -> Seq<char> {
    json_text::text_of_json(json::jtext(s))
}

fn json_string_exec(s: &str) -> (r: String)
    ensures
        r@ == json_string(s@),
{
    print_json(&Json::text(s))
}

/// A sampling constraint as JSON text.
pub open spec fn sampling_text(s: SamplingView) -> Seq<char> {
    let head = "{\"type\":"@ + json_string(s.sampling_type);
    match s.variants {
        None => head + "}"@,
        Some(v) => {
            let lark = match v.openai_lark {
                Some(l) => "\"openai_lark\":"@ + json_string(l),
                None => Seq::empty(),
            };
            let regex = match v.openai_regex {
                Some(x) => "\"openai_regex\":"@ + json_string(x),
                None => Seq::empty(),
            };
            let between = if v.openai_lark is Some && v.openai_regex is Some {
                ","@
            } else {
                Seq::empty()
            };
            head + ",\"variants\":{"@ + lark + between + regex + "}}"@
        },
    }
}

fn sampling_text_exec(s: &ToolConstrainedSampling) -> (r: String)
    ensures
        r@ == sampling_text(s@),
{
    let mut out: String = concat("{\"type\":", json_string_exec(s.sampling_type.as_str()).as_str());
    match &s.variants {
        None => {
            out.append("}");
        },
        Some(v) => {
            out.append(",\"variants\":{");
            let ghost head = out@;
            if let Some(l) = &v.openai_lark {
                out.append("\"openai_lark\":");
                out.append(json_string_exec(l.as_str()).as_str());
            }
            if v.openai_lark.is_some() && v.openai_regex.is_some() {
                out.append(",");
            }
            if let Some(x) = &v.openai_regex {
                out.append("\"openai_regex\":");
                out.append(json_string_exec(x.as_str()).as_str());
            }
            out.append("}}");
            assert(out@ =~= sampling_text(s@));
        },
    }
    out
}

/// A tool as JSON text, its fields in the order in which they are declared.
pub open spec fn tool_text(t: ToolView) -> Seq<char> {
    let description = match t.description {
        Some(d) => ",\"description\":"@ + json_string(d),
        None => Seq::empty(),
    };
    let sampling = match t.constrained_sampling {
        Some(s) => ",\"constrained_sampling\":"@ + sampling_text(s),
        None => Seq::empty(),
    };
    "{\"name\":"@ + json_string(t.name) + description + ",\"parameters\":"@
        + json_text::text_of_json(t.parameters) + sampling + "}"@
}

fn tool_text_exec(t: &Tool) -> (r: String)
    ensures
        r@ == tool_text(t@),
{
    let mut out: String = concat("{\"name\":", json_string_exec(t.name.as_str()).as_str());
    if let Some(d) = &t.description {
        out.append(",\"description\":");
        out.append(json_string_exec(d.as_str()).as_str());
    }
    out.append(",\"parameters\":");
    out.append(print_json(&t.parameters).as_str());
    if let Some(s) = &t.constrained_sampling {
        out.append(",\"constrained_sampling\":");
        out.append(sampling_text_exec(s).as_str());
    }
    out.append("}");
    assert(out@ =~= tool_text(t@));
    out
}

/// Tools as JSON text.
pub open spec fn tools_text(tools: Seq<ToolView>) -> Seq<char> {
    "["@ + text::joined(tools.map_values(|t: ToolView| tool_text(t)), ","@) + "]"@
}

fn tools_text_exec(tools: &Vec<Tool>) -> (r: String)
    ensures
        r@ == tools_text(views::all(tools@)),
{
    let ghost all = views::all(tools@);
    let mut parts: Vec<String> = Vec::new();
    let mut i: usize = 0;
    while i < tools.len()
        invariant
            i <= tools@.len(),
            parts@.len() == i,
            all == views::all(tools@),
            forall|j: int| 0 <= j < i ==> #[trigger] views::all(parts@)[j] == tool_text(all[j]),
        decreases tools@.len() - i,
    {
        let ghost before = views::all(parts@);
        parts.push(tool_text_exec(&tools[i]));
        assert(forall|j: int| 0 <= j < i ==> #[trigger] views::all(parts@)[j] == before[j]);
        i = i + 1;
    }
    assert(views::all(parts@) =~= all.map_values(|t: ToolView| tool_text(t)));
    concat3("[", join(&parts, ",").as_str(), "]")
}

/// The parts of a context as text: the system prompt, every message, the tools.
pub open spec fn context_parts(ctx: ContextView) -> Seq<Seq<char>> {
    let system: Seq<Seq<char>> = match ctx.system_prompt {
        Some(s) => seq!["system:"@ + s],
        None => Seq::empty(),
    };
    let messages = ctx.messages.map_values(
        |m: MessageView| role(m) + ":"@ + message_line(m),
    );
    let tools: Seq<Seq<char>> = if ctx.tools.len() == 0 {
        Seq::empty()
    } else {
        seq!["tools:"@ + tools_text(ctx.tools)]
    };
    system + messages + tools
}

/// A context as text.
pub open spec fn context_text(ctx: ContextView) -> Seq<char> {
    text::joined(context_parts(ctx), "\n\n"@)
}

/// A context as text.
pub fn serialize_context(ctx: &Context) -> (r: String)
    ensures
        r@ == context_text(ctx@),
{
    let mut parts: Vec<String> = Vec::new();
    if let Some(sys) = &ctx.system_prompt {
        parts.push(concat("system:", sys.as_str()));
    }
    let ghost system: Seq<Seq<char>> = match ctx@.system_prompt {
        Some(s) => seq!["system:"@ + s],
        None => Seq::empty(),
    };
    assert(views::all(parts@) =~= system);
    let ghost all = ctx@.messages;
    let mut i: usize = 0;
    while i < ctx.messages.len()
        invariant
            i <= ctx.messages@.len(),
            all == ctx@.messages,
            all == views::all(ctx.messages@),
            views::all(parts@) == system + all.take(i as int).map_values(
                |m: MessageView| role(m) + ":"@ + message_line(m),
            ),
        decreases ctx.messages@.len() - i,
    {
        proof {
            views::lemma_take_step(all, i as int);
        }
        let m: &Message = &ctx.messages[i];
        parts.push(concat3(role_exec(m), ":", message_to_text(m).as_str()));
        assert(views::all(parts@) =~= system + all.take(i + 1).map_values(
            |m: MessageView| role(m) + ":"@ + message_line(m),
        ));
        i = i + 1;
    }
    proof {
        views::lemma_take_all(all);
    }
    if ctx.tools.len() > 0 {
        parts.push(concat("tools:", tools_text_exec(&ctx.tools).as_str()));
    }
    assert(views::all(parts@) =~= context_parts(ctx@));
    join(&parts, "\n\n")
}

/// How many bytes two sequences have in common at their start.
pub open spec fn common_prefix(a: Seq<u8>, b: Seq<u8>) -> nat
    decreases a.len(),
{
    if a.len() == 0 || b.len() == 0 || a[0] != b[0] {
        0
    } else {
        1 + common_prefix(a.skip(1), b.skip(1))
    }
}

proof fn lemma_common_prefix_is(a: Seq<u8>, b: Seq<u8>, n: int)
    requires
        0 <= n <= a.len(),
        n <= b.len(),
        forall|i: int| 0 <= i < n ==> a[i] == b[i],
        n < a.len() && n < b.len() ==> a[n] != b[n],
    ensures
        common_prefix(a, b) == n,
    decreases n,
{
    if n > 0 {
        lemma_common_prefix_is(a.skip(1), b.skip(1), n - 1);
    }
}

/// How many bytes two texts have in common at their start.
pub fn common_prefix_len(a: &str, b: &str) -> (r: usize)
    ensures
        r == common_prefix(encode_utf8(a@), encode_utf8(b@)),
        r <= encode_utf8(a@).len(),
        r <= encode_utf8(b@).len(),
{
    let x: &[u8] = a.as_bytes();
    let y: &[u8] = b.as_bytes();
    let mut i: usize = 0;
    while i < x.len() && i < y.len() && x[i] == y[i]
        invariant
            i <= x@.len(),
            i <= y@.len(),
            forall|j: int| 0 <= j < i ==> x@[j] == y@[j],
        decreases x@.len() - i,
    {
        i = i + 1;
    }
    proof {
        lemma_common_prefix_is(x@, y@, i as int);
    }
    i
}

/// Whether two texts part between two characters.
pub open spec fn part_between(previous: Seq<char>, prompt: Seq<char>) -> bool {
    let n = common_prefix(encode_utf8(previous), encode_utf8(prompt)) as int;
    is_char_boundary(encode_utf8(previous), n) && is_char_boundary(encode_utf8(prompt), n)
}

/// The usage of an exchange. Where prompts are cached, what a prompt shares with
/// the previous one is read from the cache and the rest is written to it.
pub open spec fn estimated(
    prompt: Seq<char>,
    output: Seq<char>,
    cached: bool,
    previous: Option<Seq<char>>,
) -> UsageView {
    let prompt_tokens = tokens_of(encode_utf8(prompt).len());
    let output_tokens = tokens_of(encode_utf8(output).len());
    let (read, write) = if !cached {
        (0nat, 0nat)
    } else {
        match previous {
            Some(p) => {
                let n = common_prefix(encode_utf8(p), encode_utf8(prompt));
                (tokens_of(n), tokens_of((encode_utf8(prompt).len() - n) as nat))
            },
            None => (0nat, prompt_tokens),
        }
    };
    UsageView {
        input: (prompt_tokens - read) as u64,
        output: output_tokens as u64,
        cache_read: read as u64,
        cache_write: write as u64,
        reasoning: 0,
        total_tokens: (prompt_tokens + output_tokens + write) as u64,
        cost: types::no_cost(),
    }
}

/// The usage of an exchange.
pub fn estimate_usage(prompt: &str, output: &str, cached: bool, previous: Option<&str>) -> (r: Usage)
    requires
        cached ==> match previous {
            Some(p) => part_between(p@, prompt@),
            None => true,
        },
    ensures
        r@ == estimated(prompt@, output@, cached, views::opt(previous)),
        r@.total_tokens == r@.input + r@.output + r@.cache_read + r@.cache_write,
{
    let len: usize = prompt.as_bytes().len();
    let prompt_tokens: u64 = tokens_of_len(len);
    let output_tokens: u64 = tokens_of_len(output.as_bytes().len());
    let mut cache_read: u64 = 0;
    let mut cache_write: u64 = 0;
    if cached {
        match previous {
            Some(p) => {
                let n: usize = common_prefix_len(p, prompt);
                cache_read = tokens_of_len(n);
                cache_write = tokens_of_len(len - n);
            },
            None => {
                cache_write = prompt_tokens;
            },
        }
    }
    let input: u64 = prompt_tokens - cache_read;
    Usage {
        input,
        output: output_tokens,
        cache_read,
        cache_write,
        reasoning: 0,
        total_tokens: input + output_tokens + cache_read + cache_write,
        cost: UsageCost::default(),
    }
}

/// The session whose prompts are cached, if any is: prompts are cached where that is
/// asked for, and only there.
pub open spec fn caching_session(
    session: Option<Seq<char>>,
    retention: Option<CacheRetention>,
) -> Option<Seq<char>> {
    match retention {
        Some(CacheRetention::Short) | Some(CacheRetention::Long) => session,
        _ => None,
    }
}

/// What the content of an assistant message counts as; any other has none.
pub open spec fn output_line(m: MessageView) -> Seq<char> {
    match m {
        MessageView::Assistant(a) => assistant_line(a.content),
        _ => assistant_line(Seq::empty()),
    }
}

/// The message with its usage, and the prompts that are remembered behind it; none
/// where a prompt and the one before it part within a character.
pub open spec fn with_usage(
    m: MessageView,
    ctx: ContextView,
    session: Option<Seq<char>>,
    prompts: Map<Seq<char>, Seq<char>>,
) -> Option<(MessageView, Map<Seq<char>, Seq<char>>)> {
    let prompt = context_text(ctx);
    let previous = match session {
        Some(sid) => if prompts.contains_key(sid) {
            Some(prompts[sid])
        } else {
            None
        },
        None => None,
    };
    if previous is Some && !part_between(previous->0, prompt) {
        None
    } else {
        let usage = estimated(prompt, output_line(m), session is Some, previous);
        Some(
            (
                match m {
                    MessageView::Assistant(a) => MessageView::Assistant(
                        AssistantView { usage, ..a },
                    ),
                    _ => m,
                },
                match session {
                    Some(sid) => prompts.insert(sid, prompt),
                    None => prompts,
                },
            ),
        )
    }
}

/// Gives a message the usage that its exchange would have had, and remembers the
/// prompt of its session. Where the prompt and the one before it part within a
/// character, it does neither.
pub fn with_usage_estimate(
    message: AssistantMessage,
    ctx: &Context,
    options: Option<&SimpleStreamOptions>,
    prompt_cache: &mut Dict<String>,
) -> (r: Option<AssistantMessage>)
    ensures
        ({
            let session = match options {
                Some(o) => caching_session(views::opt(o.session_id), o.cache_retention),
                None => None,
            };
            match with_usage(message@, ctx@, session, dict::texts(old(prompt_cache)@)) {
                Some((m, prompts)) => {
                    &&& r is Some
                    &&& r->0@ == m
                    &&& dict::texts(final(prompt_cache)@) == prompts
                },
                None => r is None && final(prompt_cache)@ == old(prompt_cache)@,
            }
        }),
{
    let prompt: String = serialize_context(ctx);
    let output: String = match &message {
        Message::Assistant { content, .. } => assistant_content_to_text(content),
        _ => {
            let none: Vec<ContentBlock> = Vec::new();
            assert(views::all(none@) =~= Seq::<BlockView>::empty());
            assistant_content_to_text(&none)
        },
    };
    let session: Option<&str> = match options {
        Some(o) => match o.cache_retention {
            Some(CacheRetention::Short) | Some(CacheRetention::Long) => views::opt_str(
                &o.session_id,
            ),
            _ => None,
        },
        None => None,
    };
    let usage: Usage = match session {
        Some(sid) => match prompt_cache.get_text(sid) {
            Some(previous) => {
                let n: usize = common_prefix_len(previous, prompt.as_str());
                if !(previous.is_char_boundary(n) && prompt.as_str().is_char_boundary(n)) {
                    return None;
                }
                estimate_usage(prompt.as_str(), output.as_str(), true, Some(previous))
            },
            None => estimate_usage(prompt.as_str(), output.as_str(), true, None),
        },
        None => estimate_usage(prompt.as_str(), output.as_str(), false, None),
    };
    if let Some(sid) = session {
        let ghost before = dict::texts(prompt_cache@);
        prompt_cache.insert(sid, prompt);
        assert(dict::texts(prompt_cache@) =~= before.insert(sid@, prompt@));
    }
    Some(message.with_usage(usage))
}

proof fn lemma_common_with_itself(a: Seq<u8>)
    ensures
        common_prefix(a, a) == a.len(),
{
    lemma_common_prefix_is(a, a, a.len() as int);
}

/// A session that sends the same prompt again reads all of it from the cache: it
/// neither pays for input nor writes anything.
pub proof fn law_same_prompt_is_cached(prompt: Seq<char>, output: Seq<char>)
    requires
        encode_utf8(prompt).len() <= usize::MAX,
    ensures
        part_between(prompt, prompt),
        ({
            let u = estimated(prompt, output, true, Some(prompt));
            &&& u.input == 0
            &&& u.cache_write == 0
            &&& u.cache_read == tokens_of(encode_utf8(prompt).len())
        }),
{
    lemma_common_with_itself(encode_utf8(prompt));
    encode_utf8_valid_utf8(prompt);
    is_char_boundary_start_end_of_seq(encode_utf8(prompt));
}

/// Without caching nothing is read from the cache or written to it, and the prompt
/// is paid for in full.
pub proof fn law_uncached_prompt_is_input(prompt: Seq<char>, output: Seq<char>)
    requires
        encode_utf8(prompt).len() <= usize::MAX,
    ensures
        ({
            let u = estimated(prompt, output, false, None);
            &&& u.input == tokens_of(encode_utf8(prompt).len())
            &&& u.cache_read == 0
            &&& u.cache_write == 0
        }),
{
}

/// The prompt of a session that is cached is the one that the next is held against.
pub proof fn law_prompt_is_remembered(
    m: MessageView,
    ctx: ContextView,
    session: Seq<char>,
    prompts: Map<Seq<char>, Seq<char>>,
)
    requires
        with_usage(m, ctx, Some(session), prompts) is Some,
    ensures
        match with_usage(m, ctx, Some(session), prompts) {
            Some((_, after)) => after.contains_key(session) && after[session] == context_text(ctx),
            None => false,
        },
{
}

} // verus!
