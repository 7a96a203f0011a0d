//! Messages, models, tools and stream events, with their mathematical models.
use vstd::prelude::*;
use crate::dict::Dict;
use crate::json::{clone_json, Json, JsonView};
use crate::text::join;
use crate::views;
use crate::views::clone_opt_text;

verus! {

broadcast use crate::views::group_views;

/// The name of a wire protocol.
pub type Api = String;

/// The name of a provider.
pub type ProviderId = String;

/// Request headers by name.
pub type ProviderHeaders = Dict<String>;

/// Environment variables by name.
pub type ProviderEnv = Dict<String>;

/// A fractional quantity, as the shortest decimal text that reads back as the
/// same double.
pub type Decimal = String;

/// The wire protocols that the library knows by name.
#[derive(Debug, Clone, Copy, PartialEq, Eq, Structural)]
pub enum KnownApi {
    OpenaiCompletions,
    MistralConversations,
    OpenaiResponses,
    AzureOpenaiResponses,
    OpenaiCodexResponses,
    AnthropicMessages,
    BedrockConverseStream,
    GoogleGenerativeAi,
    GoogleVertex,
    PiMessages,
}

/// Prices that hold above a number of input tokens.
pub struct CostTier {
    pub input_tokens_above: u64,
    pub input_per_million: Decimal,
    pub output_per_million: Decimal,
    pub cache_read_per_million: Decimal,
    pub cache_write_per_million: Decimal,
}

pub struct CostTierView {
    pub input_tokens_above: u64,
    pub input_per_million: Seq<char>,
    pub output_per_million: Seq<char>,
    pub cache_read_per_million: Seq<char>,
    pub cache_write_per_million: Seq<char>,
}

impl View for CostTier {
    type V = CostTierView;

    open spec fn view(&self) -> CostTierView {
        CostTierView {
            input_tokens_above: self.input_tokens_above,
            input_per_million: self.input_per_million@,
            output_per_million: self.output_per_million@,
            cache_read_per_million: self.cache_read_per_million@,
            cache_write_per_million: self.cache_write_per_million@,
        }
    }
}

/// The prices of a model, in dollars per million tokens.
pub struct ModelCostRates {
    pub input_per_million: Option<Decimal>,
    pub output_per_million: Option<Decimal>,
    pub input_cache_read_per_million: Option<Decimal>,
    pub input_cache_write_per_million: Option<Decimal>,
    pub tiers: Vec<CostTier>,
}

pub struct ModelCostRatesView {
    pub input_per_million: Option<Seq<char>>,
    pub output_per_million: Option<Seq<char>>,
    pub input_cache_read_per_million: Option<Seq<char>>,
    pub input_cache_write_per_million: Option<Seq<char>>,
    pub tiers: Seq<CostTierView>,
}

impl View for ModelCostRates {
    type V = ModelCostRatesView;

    open spec fn view(&self) -> ModelCostRatesView {
        ModelCostRatesView {
            input_per_million: views::opt(self.input_per_million),
            output_per_million: views::opt(self.output_per_million),
            input_cache_read_per_million: views::opt(self.input_cache_read_per_million),
            input_cache_write_per_million: views::opt(self.input_cache_write_per_million),
            tiers: views::all(self.tiers@),
        }
    }
}

/// A number of tokens and the price per million of them; without a price they
/// are free.
pub struct Charge {
    pub tokens: u64,
    pub per_million: Option<Decimal>,
}

pub struct ChargeView {
    pub tokens: u64,
    pub per_million: Option<Seq<char>>,
}

impl View for Charge {
    type V = ChargeView;

    open spec fn view(&self) -> ChargeView {
        ChargeView { tokens: self.tokens, per_million: views::opt(self.per_million) }
    }
}

/// The factor that a service tier puts on every charge.
#[derive(Debug, Clone, Copy, PartialEq, Eq, Structural)]
pub enum CostScale {
    /// One half.
    Half,
    One,
    Two,
    /// Five halves.
    TwoAndAHalf,
}

/// What a response costs, charge by charge. The cost in dollars is the sum of
/// `tokens * per_million / 1_000_000` over the charges, times the scale.
pub struct UsageCost {
    pub input: Charge,
    pub output: Charge,
    pub cache_read: Charge,
    pub cache_write: Charge,
    pub scale: CostScale,
}

pub struct UsageCostView {
    pub input: ChargeView,
    pub output: ChargeView,
    pub cache_read: ChargeView,
    pub cache_write: ChargeView,
    pub scale: CostScale,
}

impl View for UsageCost {
    type V = UsageCostView;

    open spec fn view(&self) -> UsageCostView {
        UsageCostView {
            input: self.input@,
            output: self.output@,
            cache_read: self.cache_read@,
            cache_write: self.cache_write@,
            scale: self.scale,
        }
    }
}

/// The tokens that a response used, and their cost.
pub struct Usage {
    pub input: u64,
    pub output: u64,
    pub cache_read: u64,
    pub cache_write: u64,
    /// Reasoning tokens, a part of `output`.
    pub reasoning: u64,
    pub total_tokens: u64,
    pub cost: UsageCost,
}

pub struct UsageView {
    pub input: u64,
    pub output: u64,
    pub cache_read: u64,
    pub cache_write: u64,
    pub reasoning: u64,
    pub total_tokens: u64,
    pub cost: UsageCostView,
}

impl View for Usage {
    type V = UsageView;

    open spec fn view(&self) -> UsageView {
        UsageView {
            input: self.input,
            output: self.output,
            cache_read: self.cache_read,
            cache_write: self.cache_write,
            reasoning: self.reasoning,
            total_tokens: self.total_tokens,
            cost: self.cost@,
        }
    }
}

/// No tokens at no price.
pub open spec fn no_charge() -> ChargeView {
    ChargeView { tokens: 0, per_million: None }
}

/// The cost of nothing.
pub open spec fn no_cost() -> UsageCostView {
    UsageCostView {
        input: no_charge(),
        output: no_charge(),
        cache_read: no_charge(),
        cache_write: no_charge(),
        scale: CostScale::One,
    }
}

/// The usage of nothing.
pub open spec fn no_usage() -> UsageView {
    UsageView {
        input: 0,
        output: 0,
        cache_read: 0,
        cache_write: 0,
        reasoning: 0,
        total_tokens: 0,
        cost: no_cost(),
    }
}

impl Charge {
    pub fn free() -> (r: Charge)
        ensures
            r@ == no_charge(),
    {
        Charge { tokens: 0, per_million: None }
    }
}

impl Clone for Charge {
    fn clone(&self) -> (r: Charge)
        ensures
            r@ == self@,
    {
        Charge { tokens: self.tokens, per_million: clone_opt_text(&self.per_million) }
    }
}

impl Default for UsageCost {
    fn default() -> (r: UsageCost)
        ensures
            r@ == no_cost(),
    {
        UsageCost {
            input: Charge::free(),
            output: Charge::free(),
            cache_read: Charge::free(),
            cache_write: Charge::free(),
            scale: CostScale::One,
        }
    }
}

impl Clone for UsageCost {
    fn clone(&self) -> (r: UsageCost)
        ensures
            r@ == self@,
    {
        UsageCost {
            input: self.input.clone(),
            output: self.output.clone(),
            cache_read: self.cache_read.clone(),
            cache_write: self.cache_write.clone(),
            scale: self.scale,
        }
    }
}

impl Default for Usage {
    fn default() -> (r: Usage)
        ensures
            r@ == no_usage(),
    {
        Usage {
            input: 0,
            output: 0,
            cache_read: 0,
            cache_write: 0,
            reasoning: 0,
            total_tokens: 0,
            cost: UsageCost::default(),
        }
    }
}

impl Clone for Usage {
    fn clone(&self) -> (r: Usage)
        ensures
            r@ == self@,
    {
        Usage {
            input: self.input,
            output: self.output,
            cache_read: self.cache_read,
            cache_write: self.cache_write,
            reasoning: self.reasoning,
            total_tokens: self.total_tokens,
            cost: self.cost.clone(),
        }
    }
}

/// How much a model thinks before it answers.
#[derive(Debug, Clone, Copy, PartialEq, Eq, Structural)]
pub enum ModelThinkingLevel {
    Off,
    Low,
    Medium,
    High,
}

/// A model of a provider's catalogue.
pub struct Model {
    pub id: String,
    pub provider_id: ProviderId,
    pub name: String,
    pub api: Api,
    pub max_input_tokens: Option<u64>,
    pub max_output_tokens: Option<u64>,
    pub supports_images: bool,
    pub supports_audio: bool,
    pub supports_video: bool,
    pub supports_pdf: bool,
    pub supports_tool_calling: bool,
    pub supports_structured_output: bool,
    pub supports_system_prompt: bool,
    pub thinking: ModelThinkingLevel,
    pub reasoning: bool,
    pub cost_rates: ModelCostRates,
    pub context_window: Option<u64>,
    pub default_temperature: Option<Decimal>,
    /// Names of thinking levels as this model spells them.
    pub thinking_level_map: Option<Dict<String>>,
}

#[verifier::ext_equal]
pub struct ModelView {
    pub id: Seq<char>,
    pub provider_id: Seq<char>,
    pub name: Seq<char>,
    pub api: Seq<char>,
    pub max_input_tokens: Option<u64>,
    pub max_output_tokens: Option<u64>,
    pub supports_images: bool,
    pub supports_audio: bool,
    pub supports_video: bool,
    pub supports_pdf: bool,
    pub supports_tool_calling: bool,
    pub supports_structured_output: bool,
    pub supports_system_prompt: bool,
    pub thinking: ModelThinkingLevel,
    pub reasoning: bool,
    pub cost_rates: ModelCostRatesView,
    pub context_window: Option<u64>,
    pub default_temperature: Option<Seq<char>>,
    pub thinking_level_map: Option<Map<Seq<char>, Seq<char>>>,
}

pub open spec fn opt_texts(o: Option<Dict<String>>) -> Option<Map<Seq<char>, Seq<char>>> {
    match o {
        Some(m) => Some(crate::dict::texts(m@)),
        None => None,
    }
}

impl View for Model {
    type V = ModelView;

    open spec fn view(&self) -> ModelView {
        ModelView {
            id: self.id@,
            provider_id: self.provider_id@,
            name: self.name@,
            api: self.api@,
            max_input_tokens: self.max_input_tokens,
            max_output_tokens: self.max_output_tokens,
            supports_images: self.supports_images,
            supports_audio: self.supports_audio,
            supports_video: self.supports_video,
            supports_pdf: self.supports_pdf,
            supports_tool_calling: self.supports_tool_calling,
            supports_structured_output: self.supports_structured_output,
            supports_system_prompt: self.supports_system_prompt,
            thinking: self.thinking,
            reasoning: self.reasoning,
            cost_rates: self.cost_rates@,
            context_window: self.context_window,
            default_temperature: views::opt(self.default_temperature),
            thinking_level_map: opt_texts(self.thinking_level_map),
        }
    }
}

impl Clone for CostTier {
    fn clone(&self) -> (r: CostTier)
        ensures
            r == *self,
    {
        CostTier {
            input_tokens_above: self.input_tokens_above,
            input_per_million: self.input_per_million.clone(),
            output_per_million: self.output_per_million.clone(),
            cache_read_per_million: self.cache_read_per_million.clone(),
            cache_write_per_million: self.cache_write_per_million.clone(),
        }
    }
}

/// The prices of a model without any.
pub open spec fn no_rates() -> ModelCostRatesView {
    ModelCostRatesView {
        input_per_million: None,
        output_per_million: None,
        input_cache_read_per_million: None,
        input_cache_write_per_million: None,
        tiers: Seq::empty(),
    }
}

impl Default for ModelCostRates {
    fn default() -> (r: ModelCostRates)
        ensures
            r@ == no_rates(),
    {
        ModelCostRates {
            input_per_million: None,
            output_per_million: None,
            input_cache_read_per_million: None,
            input_cache_write_per_million: None,
            tiers: Vec::new(),
        }
    }
}

impl Clone for ModelCostRates {
    fn clone(&self) -> (r: ModelCostRates)
        ensures
            r@ == self@,
    {
        let mut tiers: Vec<CostTier> = Vec::new();
        let mut i: usize = 0;
        while i < self.tiers.len()
            invariant
                i <= self.tiers@.len(),
                tiers@ == self.tiers@.take(i as int),
            decreases self.tiers@.len() - i,
        {
            tiers.push(self.tiers[i].clone());
            proof {
                views::lemma_take_step(self.tiers@, i as int);
            }
            i = i + 1;
        }
        proof {
            views::lemma_take_all(self.tiers@);
        }
        ModelCostRates {
            input_per_million: clone_opt_text(&self.input_per_million),
            output_per_million: clone_opt_text(&self.output_per_million),
            input_cache_read_per_million: clone_opt_text(&self.input_cache_read_per_million),
            input_cache_write_per_million: clone_opt_text(&self.input_cache_write_per_million),
            tiers,
        }
    }
}

impl Clone for Model {
    fn clone(&self) -> (r: Model)
        ensures
            r@ == self@,
    {
        Model {
            id: self.id.clone(),
            provider_id: self.provider_id.clone(),
            name: self.name.clone(),
            api: self.api.clone(),
            max_input_tokens: self.max_input_tokens,
            max_output_tokens: self.max_output_tokens,
            supports_images: self.supports_images,
            supports_audio: self.supports_audio,
            supports_video: self.supports_video,
            supports_pdf: self.supports_pdf,
            supports_tool_calling: self.supports_tool_calling,
            supports_structured_output: self.supports_structured_output,
            supports_system_prompt: self.supports_system_prompt,
            thinking: self.thinking,
            reasoning: self.reasoning,
            cost_rates: self.cost_rates.clone(),
            context_window: self.context_window,
            default_temperature: clone_opt_text(&self.default_temperature),
            thinking_level_map: match &self.thinking_level_map {
                Some(m) => Some(m.clone_texts()),
                None => None,
            },
        }
    }
}

/// A copy of a list of models.
pub fn clone_models(models: &Vec<Model>) -> (r: Vec<Model>)
    ensures
        views::all(r@) == views::all(models@),
{
    let mut out: Vec<Model> = Vec::new();
    let mut i: usize = 0;
    while i < models.len()
        invariant
            i <= models@.len(),
            views::all(out@) == views::all(models@).take(i as int),
        decreases models@.len() - i,
    {
        out.push(models[i].clone());
        proof {
            views::lemma_take_step(views::all(models@), i as int);
        }
        i = i + 1;
    }
    proof {
        views::lemma_take_all(views::all(models@));
    }
    out
}

/// The first model with an id.
pub open spec fn model_with_id(models: Seq<ModelView>, id: Seq<char>) -> Option<ModelView>
    decreases models.len(),
{
    if models.len() == 0 {
        None
    } else if models[0].id == id {
        Some(models[0])
    } else {
        model_with_id(models.skip(1), id)
    }
}

/// The first model with an id.
pub fn find_model(models: &Vec<Model>, id: &str) -> (r: Option<Model>)
    ensures
        views::opt(r) == model_with_id(views::all(models@), id@),
{
    let ghost all = views::all(models@);
    let mut i: usize = 0;
    assert(all.skip(0) =~= all);
    while i < models.len()
        invariant
            i <= models@.len(),
            all == views::all(models@),
            model_with_id(all.skip(i as int), id@) == model_with_id(all, id@),
        decreases models@.len() - i,
    {
        assert(all.skip(i as int)[0] == all[i as int]);
        assert(all.skip(i as int).skip(1) =~= all.skip(i + 1));
        if crate::text::same_text(models[i].id.as_str(), id) {
            return Some(models[i].clone());
        }
        i = i + 1;
    }
    None
}

/// A grammar for the input of a tool, in the notations that it is given in.
pub struct ToolGrammarVariants {
    pub openai_lark: Option<String>,
    pub openai_regex: Option<String>,
}

/// How the input of a tool is constrained; only the type `grammar` is honoured.
pub struct ToolConstrainedSampling {
    pub sampling_type: String,
    pub variants: Option<ToolGrammarVariants>,
}

/// A tool that a model may call.
pub struct Tool {
    pub name: String,
    pub description: Option<String>,
    /// The JSON schema of the arguments.
    pub parameters: Json,
    pub constrained_sampling: Option<ToolConstrainedSampling>,
}

pub struct GrammarView {
    pub openai_lark: Option<Seq<char>>,
    pub openai_regex: Option<Seq<char>>,
}

pub struct SamplingView {
    pub sampling_type: Seq<char>,
    pub variants: Option<GrammarView>,
}

#[verifier::ext_equal]
pub struct ToolView {
    pub name: Seq<char>,
    pub description: Option<Seq<char>>,
    pub parameters: JsonView,
    pub constrained_sampling: Option<SamplingView>,
}

impl View for ToolGrammarVariants {
    type V = GrammarView;

    open spec fn view(&self) -> GrammarView {
        GrammarView {
            openai_lark: views::opt(self.openai_lark),
            openai_regex: views::opt(self.openai_regex),
        }
    }
}

impl View for ToolConstrainedSampling {
    type V = SamplingView;

    open spec fn view(&self) -> SamplingView {
        SamplingView { sampling_type: self.sampling_type@, variants: views::opt(self.variants) }
    }
}

impl View for Tool {
    type V = ToolView;

    open spec fn view(&self) -> ToolView {
        ToolView {
            name: self.name@,
            description: views::opt(self.description),
            parameters: self.parameters@,
            constrained_sampling: views::opt(self.constrained_sampling),
        }
    }
}

/// An image, its bytes in base64.
pub struct ImageContent {
    pub content_type: String,
    pub data: String,
    pub mime_type: Option<String>,
}

/// A part of a message.
pub enum ContentBlock {
    Text {
        text: String,
        /// The identity that the server gave the message, so that it can be
        /// replayed under the same id.
        text_signature: Option<String>,
    },
    Thinking { thinking: String, signature: Option<String> },
    ToolCall { id: String, name: String, arguments: Json },
    ToolResult {
        tool_call_id: String,
        tool_name: String,
        content: Vec<ContentBlock>,
        is_error: bool,
    },
    Image(ImageContent),
}

/// What a [`ContentBlock`] means.
#[verifier::ext_equal]
pub enum BlockView {
    Text { text: Seq<char>, text_signature: Option<Seq<char>> },
    Thinking { thinking: Seq<char>, signature: Option<Seq<char>> },
    ToolCall { id: Seq<char>, name: Seq<char>, arguments: JsonView },
    ToolResult {
        tool_call_id: Seq<char>,
        tool_name: Seq<char>,
        content: Seq<BlockView>,
        is_error: bool,
    },
    Image { content_type: Seq<char>, data: Seq<char>, mime_type: Option<Seq<char>> },
}

pub open spec fn block_view(block: ContentBlock) -> BlockView
    decreases block,
{
    match block {
        ContentBlock::Text { text, text_signature } => BlockView::Text {
            text: text@,
            text_signature: views::opt(text_signature),
        },
        ContentBlock::Thinking { thinking, signature } => BlockView::Thinking {
            thinking: thinking@,
            signature: views::opt(signature),
        },
        ContentBlock::ToolCall { id, name, arguments } => BlockView::ToolCall {
            id: id@,
            name: name@,
            arguments: arguments@,
        },
        ContentBlock::ToolResult {
            tool_call_id,
            tool_name,
            content,
            is_error,
        } => BlockView::ToolResult {
            tool_call_id: tool_call_id@,
            tool_name: tool_name@,
            content: Seq::new(
                content@.len(),
                |i: int|
                    if 0 <= i < content@.len() {
                        block_view(content@[i])
                    } else {
                        BlockView::Text { text: Seq::empty(), text_signature: None }
                    },
            ),
            is_error,
        },
        ContentBlock::Image(image) => BlockView::Image {
            content_type: image.content_type@,
            data: image.data@,
            mime_type: views::opt(image.mime_type),
        },
    }
}

impl View for ContentBlock {
    type V = BlockView;

    open spec fn view(&self) -> BlockView {
        block_view(*self)
    }
}

/// A copy of a block.
pub fn clone_block(block: &ContentBlock) -> (r: ContentBlock)
    ensures
        r@ == block@,
    decreases block,
{
    match block {
        ContentBlock::Text { text, text_signature } => ContentBlock::Text {
            text: text.clone(),
            text_signature: clone_opt_text(text_signature),
        },
        ContentBlock::Thinking { thinking, signature } => ContentBlock::Thinking {
            thinking: thinking.clone(),
            signature: clone_opt_text(signature),
        },
        ContentBlock::ToolCall { id, name, arguments } => ContentBlock::ToolCall {
            id: id.clone(),
            name: name.clone(),
            arguments: clone_json(arguments),
        },
        ContentBlock::ToolResult { tool_call_id, tool_name, content, is_error } => {
            let copy = clone_blocks(content);
            let r = ContentBlock::ToolResult {
                tool_call_id: tool_call_id.clone(),
                tool_name: tool_name.clone(),
                content: copy,
                is_error: *is_error,
            };
            proof {
                assert(views::all(copy@) == views::all(content@));
                assert(r@->content =~= views::all(copy@));
                assert(block@->content =~= views::all(content@));
            }
            r
        },
        ContentBlock::Image(image) => ContentBlock::Image(
            ImageContent {
                content_type: image.content_type.clone(),
                data: image.data.clone(),
                mime_type: clone_opt_text(&image.mime_type),
            },
        ),
    }
}

/// A copy of each block.
pub fn clone_blocks(blocks: &Vec<ContentBlock>) -> (r: Vec<ContentBlock>)
    ensures
        views::all(r@) == views::all(blocks@),
    decreases blocks,
{
    let mut out: Vec<ContentBlock> = Vec::new();
    let mut i: usize = 0;
    while i < blocks.len()
        invariant
            i <= blocks@.len(),
            views::all(out@) == views::all(blocks@).take(i as int),
        decreases blocks@.len() - i,
    {
        let copy = clone_block(&blocks[i]);
        out.push(copy);
        proof {
            views::lemma_take_step(views::all(blocks@), i as int);
        }
        i = i + 1;
    }
    proof {
        views::lemma_take_all(views::all(blocks@));
    }
    out
}

impl Clone for ContentBlock {
    fn clone(&self) -> (r: ContentBlock)
        ensures
            r@ == self@,
    {
        clone_block(self)
    }
}

/// A message of a conversation. Timestamps are milliseconds since the epoch.
pub enum Message {
    User { content: Vec<ContentBlock>, timestamp: i64 },
    Assistant {
        content: Vec<ContentBlock>,
        api: Api,
        provider: ProviderId,
        model: Option<String>,
        usage: Usage,
        stop_reason: Option<String>,
        error_message: Option<String>,
        response_id: Option<String>,
        /// Whether the service said that its turn is over.
        end_turn: Option<bool>,
        timestamp: i64,
    },
    ToolResult {
        tool_call_id: String,
        tool_name: String,
        content: Vec<ContentBlock>,
        is_error: bool,
        timestamp: i64,
    },
    System { content: Vec<ContentBlock>, timestamp: i64 },
}

pub type AssistantMessage = Message;

/// What an assistant message means.
#[verifier::ext_equal]
pub struct AssistantView {
    pub content: Seq<BlockView>,
    pub api: Seq<char>,
    pub provider: Seq<char>,
    pub model: Option<Seq<char>>,
    pub usage: UsageView,
    pub stop_reason: Option<Seq<char>>,
    pub error_message: Option<Seq<char>>,
    pub response_id: Option<Seq<char>>,
    pub end_turn: Option<bool>,
    pub timestamp: i64,
}

/// What a [`Message`] means.
#[verifier::ext_equal]
pub enum MessageView {
    User { content: Seq<BlockView>, timestamp: i64 },
    Assistant(AssistantView),
    ToolResult {
        tool_call_id: Seq<char>,
        tool_name: Seq<char>,
        content: Seq<BlockView>,
        is_error: bool,
        timestamp: i64,
    },
    System { content: Seq<BlockView>, timestamp: i64 },
}

impl View for Message {
    type V = MessageView;

    open spec fn view(&self) -> MessageView {
        match *self {
            Message::User { content, timestamp } => MessageView::User {
                content: views::all(content@),
                timestamp,
            },
            Message::Assistant {
                content,
                api,
                provider,
                model,
                usage,
                stop_reason,
                error_message,
                response_id,
                end_turn,
                timestamp,
            } => MessageView::Assistant(
                AssistantView {
                    content: views::all(content@),
                    api: api@,
                    provider: provider@,
                    model: views::opt(model),
                    usage: usage@,
                    stop_reason: views::opt(stop_reason),
                    error_message: views::opt(error_message),
                    response_id: views::opt(response_id),
                    end_turn,
                    timestamp,
                },
            ),
            Message::ToolResult {
                tool_call_id,
                tool_name,
                content,
                is_error,
                timestamp,
            } => MessageView::ToolResult {
                tool_call_id: tool_call_id@,
                tool_name: tool_name@,
                content: views::all(content@),
                is_error,
                timestamp,
            },
            Message::System { content, timestamp } => MessageView::System {
                content: views::all(content@),
                timestamp,
            },
        }
    }
}

impl Clone for Message {
    fn clone(&self) -> (r: Message)
        ensures
            r@ == self@,
    {
        match self {
            Message::User { content, timestamp } => Message::User {
                content: clone_blocks(content),
                timestamp: *timestamp,
            },
            Message::Assistant {
                content,
                api,
                provider,
                model,
                usage,
                stop_reason,
                error_message,
                response_id,
                end_turn,
                timestamp,
            } => Message::Assistant {
                content: clone_blocks(content),
                api: api.clone(),
                provider: provider.clone(),
                model: clone_opt_text(model),
                usage: usage.clone(),
                stop_reason: clone_opt_text(stop_reason),
                error_message: clone_opt_text(error_message),
                response_id: clone_opt_text(response_id),
                end_turn: *end_turn,
                timestamp: *timestamp,
            },
            Message::ToolResult { tool_call_id, tool_name, content, is_error, timestamp } => {
                Message::ToolResult {
                    tool_call_id: tool_call_id.clone(),
                    tool_name: tool_name.clone(),
                    content: clone_blocks(content),
                    is_error: *is_error,
                    timestamp: *timestamp,
                }
            },
            Message::System { content, timestamp } => Message::System {
                content: clone_blocks(content),
                timestamp: *timestamp,
            },
        }
    }
}

/// An assistant message without content.
pub open spec fn empty_assistant(
    api: Seq<char>,
    provider: Seq<char>,
    timestamp: i64,
) -> AssistantView {
    AssistantView {
        content: Seq::empty(),
        api,
        provider,
        model: None,
        usage: no_usage(),
        stop_reason: None,
        error_message: None,
        response_id: None,
        end_turn: None,
        timestamp,
    }
}

impl Message {
    /// A user message with one text block.
    pub fn user_from_string(text: String, timestamp: i64) -> (r: Message)
        ensures
            r@ == (MessageView::User {
                content: seq![BlockView::Text { text: text@, text_signature: None }],
                timestamp,
            }),
    {
        let mut content: Vec<ContentBlock> = Vec::new();
        content.push(ContentBlock::Text { text, text_signature: None });
        assert(views::all(content@) =~= seq![BlockView::Text { text: text@, text_signature: None }]);
        Message::User { content, timestamp }
    }

    /// An assistant message without content.
    pub fn assistant_default(api: Api, provider: ProviderId, timestamp: i64) -> (r: Message)
        ensures
            r@ == MessageView::Assistant(empty_assistant(api@, provider@, timestamp)),
    {
        Message::Assistant {
            content: Vec::new(),
            api,
            provider,
            model: None,
            usage: Usage::default(),
            stop_reason: None,
            error_message: None,
            response_id: None,
            end_turn: None,
            timestamp,
        }
    }

    /// Replaces the content of an assistant message.
    pub fn with_content(self, content: Vec<ContentBlock>) -> (r: Message)
        ensures
            r@ == (match self@ {
                MessageView::Assistant(a) => MessageView::Assistant(
                    AssistantView { content: views::all(content@), ..a },
                ),
                _ => self@,
            }),
    {
        match self {
            Message::Assistant {
                content: _,
                api,
                provider,
                model,
                usage,
                stop_reason,
                error_message,
                response_id,
                end_turn,
                timestamp,
            } => Message::Assistant {
                content,
                api,
                provider,
                model,
                usage,
                stop_reason,
                error_message,
                response_id,
                end_turn,
                timestamp,
            },
            other => other,
        }
    }

    /// Replaces the model name of an assistant message.
    pub fn with_model(self, model: Option<String>) -> (r: Message)
        ensures
            r@ == (match self@ {
                MessageView::Assistant(a) => MessageView::Assistant(
                    AssistantView { model: views::opt(model), ..a },
                ),
                _ => self@,
            }),
    {
        match self {
            Message::Assistant {
                content,
                api,
                provider,
                model: _,
                usage,
                stop_reason,
                error_message,
                response_id,
                end_turn,
                timestamp,
            } => Message::Assistant {
                content,
                api,
                provider,
                model,
                usage,
                stop_reason,
                error_message,
                response_id,
                end_turn,
                timestamp,
            },
            other => other,
        }
    }

    /// Replaces the usage of an assistant message.
    pub fn with_usage(self, usage: Usage) -> (r: Message)
        ensures
            r@ == (match self@ {
                MessageView::Assistant(a) => MessageView::Assistant(
                    AssistantView { usage: usage@, ..a },
                ),
                _ => self@,
            }),
    {
        match self {
            Message::Assistant {
                content,
                api,
                provider,
                model,
                usage: _,
                stop_reason,
                error_message,
                response_id,
                end_turn,
                timestamp,
            } => Message::Assistant {
                content,
                api,
                provider,
                model,
                usage,
                stop_reason,
                error_message,
                response_id,
                end_turn,
                timestamp,
            },
            other => other,
        }
    }

    /// Replaces the stop reason of an assistant message.
    pub fn with_stop_reason(self, reason: Option<String>) -> (r: Message)
        ensures
            r@ == (match self@ {
                MessageView::Assistant(a) => MessageView::Assistant(
                    AssistantView { stop_reason: views::opt(reason), ..a },
                ),
                _ => self@,
            }),
    {
        match self {
            Message::Assistant {
                content,
                api,
                provider,
                model,
                usage,
                stop_reason: _,
                error_message,
                response_id,
                end_turn,
                timestamp,
            } => Message::Assistant {
                content,
                api,
                provider,
                model,
                usage,
                stop_reason: reason,
                error_message,
                response_id,
                end_turn,
                timestamp,
            },
            other => other,
        }
    }

    /// Sets the error of an assistant message.
    pub fn with_error_message(self, msg: String) -> (r: Message)
        ensures
            r@ == (match self@ {
                MessageView::Assistant(a) => MessageView::Assistant(
                    AssistantView { error_message: Some(msg@), ..a },
                ),
                _ => self@,
            }),
    {
        match self {
            Message::Assistant {
                content,
                api,
                provider,
                model,
                usage,
                stop_reason,
                error_message: _,
                response_id,
                end_turn,
                timestamp,
            } => Message::Assistant {
                content,
                api,
                provider,
                model,
                usage,
                stop_reason,
                error_message: Some(msg),
                response_id,
                end_turn,
                timestamp,
            },
            other => other,
        }
    }

    /// The stop reason of an assistant message.
    pub fn stop_reason<'a>(&'a self) -> (r: Option<&'a str>)
        ensures
            views::opt(r) == (match self@ {
                MessageView::Assistant(a) => a.stop_reason,
                _ => None,
            }),
    {
        match self {
            Message::Assistant { stop_reason, .. } => crate::views::opt_str(stop_reason),
            _ => None,
        }
    }
}

/// Which tool a model is to call.
pub enum ToolChoice {
    Auto,
    /// No tool.
    Never,
    Required,
    Tool { name: String },
}

pub enum ToolChoiceView {
    Auto,
    Never,
    Required,
    Tool { name: Seq<char> },
}

impl View for ToolChoice {
    type V = ToolChoiceView;

    open spec fn view(&self) -> ToolChoiceView {
        match *self {
            ToolChoice::Auto => ToolChoiceView::Auto,
            ToolChoice::Never => ToolChoiceView::Never,
            ToolChoice::Required => ToolChoiceView::Required,
            ToolChoice::Tool { name } => ToolChoiceView::Tool { name: name@ },
        }
    }
}

impl Clone for ToolChoice {
    fn clone(&self) -> (r: ToolChoice)
        ensures
            r == *self,
    {
        match self {
            ToolChoice::Auto => ToolChoice::Auto,
            ToolChoice::Never => ToolChoice::Never,
            ToolChoice::Required => ToolChoice::Required,
            ToolChoice::Tool { name } => ToolChoice::Tool { name: name.clone() },
        }
    }
}

/// A schema that a response is to follow.
pub struct JsonSchemaFormat {
    pub name: String,
    pub schema: Option<Json>,
    pub strict: bool,
}

/// The shape that a response is to have.
pub enum ResponseFormat {
    Text,
    JsonObject,
    JsonSchema(JsonSchemaFormat),
}

pub enum FormatView {
    Text,
    JsonObject,
    JsonSchema { name: Seq<char>, schema: Option<JsonView>, strict: bool },
}

impl View for ResponseFormat {
    type V = FormatView;

    open spec fn view(&self) -> FormatView {
        match *self {
            ResponseFormat::Text => FormatView::Text,
            ResponseFormat::JsonObject => FormatView::JsonObject,
            ResponseFormat::JsonSchema(f) => FormatView::JsonSchema {
                name: f.name@,
                schema: views::opt(f.schema),
                strict: f.strict,
            },
        }
    }
}

impl Clone for ResponseFormat {
    fn clone(&self) -> (r: ResponseFormat)
        ensures
            r@ == self@,
    {
        match self {
            ResponseFormat::Text => ResponseFormat::Text,
            ResponseFormat::JsonObject => ResponseFormat::JsonObject,
            ResponseFormat::JsonSchema(f) => ResponseFormat::JsonSchema(
                JsonSchemaFormat {
                    name: f.name.clone(),
                    schema: match &f.schema {
                        Some(j) => Some(clone_json(j)),
                        None => None,
                    },
                    strict: f.strict,
                },
            ),
        }
    }
}

/// A conversation and what the model may use in it.
pub struct Context {
    pub system_prompt: Option<String>,
    pub messages: Vec<Message>,
    pub tools: Vec<Tool>,
    pub tool_choice: Option<ToolChoice>,
    pub temperature: Option<Decimal>,
    pub max_tokens: Option<u64>,
    pub response_format: Option<ResponseFormat>,
}

#[verifier::ext_equal]
pub struct ContextView {
    pub system_prompt: Option<Seq<char>>,
    pub messages: Seq<MessageView>,
    pub tools: Seq<ToolView>,
    pub tool_choice: Option<ToolChoiceView>,
    pub temperature: Option<Seq<char>>,
    pub max_tokens: Option<u64>,
    pub response_format: Option<FormatView>,
}

impl View for Context {
    type V = ContextView;

    open spec fn view(&self) -> ContextView {
        ContextView {
            system_prompt: views::opt(self.system_prompt),
            messages: views::all(self.messages@),
            tools: views::all(self.tools@),
            tool_choice: views::opt(self.tool_choice),
            temperature: views::opt(self.temperature),
            max_tokens: self.max_tokens,
            response_format: views::opt(self.response_format),
        }
    }
}

/// A conversation without anything in it.
pub open spec fn empty_context() -> ContextView {
    ContextView {
        system_prompt: None,
        messages: Seq::empty(),
        tools: Seq::empty(),
        tool_choice: None,
        temperature: None,
        max_tokens: None,
        response_format: None,
    }
}

impl Default for Context {
    fn default() -> (r: Context)
        ensures
            r@ == empty_context(),
    {
        Context {
            system_prompt: None,
            messages: Vec::new(),
            tools: Vec::new(),
            tool_choice: None,
            temperature: None,
            max_tokens: None,
            response_format: None,
        }
    }
}

/// How long a provider is asked to keep a prompt in its cache.
#[derive(Debug, Clone, Copy, PartialEq, Eq, Structural)]
pub enum CacheRetention {
    Off,
    Short,
    Long,
}

/// What a response stream reports.
pub enum AssistantMessageEvent {
    Start { partial: AssistantMessage },
    TextStart,
    TextDelta { delta: String },
    TextEnd,
    ThinkingStart,
    ThinkingDelta { delta: String },
    ThinkingEnd { signature: Option<String> },
    ToolcallStart { content_index: usize, id: Option<String>, name: Option<String> },
    ToolcallDelta { content_index: usize, delta: String },
    ToolcallEnd { content_index: usize, tool_call: ContentBlock },
    Usage { usage: Usage },
    Done { reason: String, message: AssistantMessage },
    Error { reason: String, error: String },
}

/// What an [`AssistantMessageEvent`] means.
#[verifier::ext_equal]
pub enum EventView {
    Start { partial: MessageView },
    TextStart,
    TextDelta { delta: Seq<char> },
    TextEnd,
    ThinkingStart,
    ThinkingDelta { delta: Seq<char> },
    ThinkingEnd { signature: Option<Seq<char>> },
    ToolcallStart { content_index: int, id: Option<Seq<char>>, name: Option<Seq<char>> },
    ToolcallDelta { content_index: int, delta: Seq<char> },
    ToolcallEnd { content_index: int, tool_call: BlockView },
    Usage { usage: UsageView },
    Done { reason: Seq<char>, message: MessageView },
    Error { reason: Seq<char>, error: Seq<char> },
}

impl View for AssistantMessageEvent {
    type V = EventView;

    open spec fn view(&self) -> EventView {
        match *self {
            AssistantMessageEvent::Start { partial } => EventView::Start { partial: partial@ },
            AssistantMessageEvent::TextStart => EventView::TextStart,
            AssistantMessageEvent::TextDelta { delta } => EventView::TextDelta { delta: delta@ },
            AssistantMessageEvent::TextEnd => EventView::TextEnd,
            AssistantMessageEvent::ThinkingStart => EventView::ThinkingStart,
            AssistantMessageEvent::ThinkingDelta { delta } => EventView::ThinkingDelta {
                delta: delta@,
            },
            AssistantMessageEvent::ThinkingEnd { signature } => EventView::ThinkingEnd {
                signature: views::opt(signature),
            },
            AssistantMessageEvent::ToolcallStart {
                content_index,
                id,
                name,
            } => EventView::ToolcallStart {
                content_index: content_index as int,
                id: views::opt(id),
                name: views::opt(name),
            },
            AssistantMessageEvent::ToolcallDelta {
                content_index,
                delta,
            } => EventView::ToolcallDelta { content_index: content_index as int, delta: delta@ },
            AssistantMessageEvent::ToolcallEnd {
                content_index,
                tool_call,
            } => EventView::ToolcallEnd {
                content_index: content_index as int,
                tool_call: tool_call@,
            },
            AssistantMessageEvent::Usage { usage } => EventView::Usage { usage: usage@ },
            AssistantMessageEvent::Done { reason, message } => EventView::Done {
                reason: reason@,
                message: message@,
            },
            AssistantMessageEvent::Error { reason, error } => EventView::Error {
                reason: reason@,
                error: error@,
            },
        }
    }
}

/// The texts of the text blocks, in order.
pub open spec fn block_texts(blocks: Seq<BlockView>) -> Seq<Seq<char>>
    decreases blocks.len(),
{
    if blocks.len() == 0 {
        Seq::empty()
    } else {
        let before = block_texts(blocks.drop_last());
        match blocks.last() {
            BlockView::Text { text, .. } => before.push(text),
            _ => before,
        }
    }
}

proof fn lemma_block_texts_add(a: Seq<BlockView>, b: Seq<BlockView>)
    ensures
        block_texts(a + b) == block_texts(a) + block_texts(b),
    decreases b.len(),
{
    if b.len() == 0 {
        assert(a + b =~= a);
    } else {
        lemma_block_texts_add(a, b.drop_last());
        assert((a + b).drop_last() =~= a + b.drop_last());
    }
    assert(block_texts(a + b) =~= block_texts(a) + block_texts(b));
}

/// The texts of blocks stand in the order of the blocks: a text block gives its own text, any
/// other block none.
pub proof fn law_texts_of_blocks(before: Seq<BlockView>, block: BlockView, behind: Seq<BlockView>)
    ensures
        block_texts(before + seq![block] + behind) == block_texts(before) + (match block {
            BlockView::Text { text, .. } => seq![text],
            _ => Seq::empty(),
        }) + block_texts(behind),
        block_texts(Seq::empty()) == Seq::<Seq<char>>::empty(),
{
    reveal_with_fuel(block_texts, 2);
    lemma_block_texts_add(before + seq![block], behind);
    lemma_block_texts_add(before, seq![block]);
    assert(seq![block].drop_last() =~= Seq::<BlockView>::empty());
    assert(block_texts(seq![block]) =~= (match block {
        BlockView::Text { text, .. } => seq![text],
        _ => Seq::empty(),
    }));
}

/// The texts of the text blocks of a message.
pub fn texts_of_blocks(content: &Vec<ContentBlock>) -> (r: Vec<String>)
    ensures
        views::all(r@) == block_texts(views::all(content@)),
{
    let ghost all = views::all(content@);
    let mut out: Vec<String> = Vec::new();
    let mut i: usize = 0;
    while i < content.len()
        invariant
            i <= content@.len(),
            all == views::all(content@),
            views::all(out@) == block_texts(all.take(i as int)),
        decreases content@.len() - i,
    {
        proof {
            views::lemma_take_step(all, i as int);
        }
        if let ContentBlock::Text { text, .. } = &content[i] {
            out.push(text.clone());
        }
        i = i + 1;
    }
    proof {
        views::lemma_take_all(all);
    }
    out
}

/// The text blocks of a message, one per line; other blocks do not count.
pub fn content_text(content: &Vec<ContentBlock>) -> (r: String)
    ensures
        r@ == crate::text::joined(block_texts(views::all(content@)), "\n"@),
{
    let parts: Vec<String> = texts_of_blocks(content);
    join(&parts, "\n")
}


/// What a request to a provider adds to the defaults.
pub struct ProviderRequestOptions {
    pub headers: ProviderHeaders,
    pub extra_body: Option<Json>,
    pub query_params: Dict<String>,
    /// A base URL for this request only.
    pub base_url: Option<String>,
}

/// The options of a request as an adapter takes them.
pub struct ApiStreamOptions {
    pub signal: Option<CancellationToken>,
    pub request_options: ProviderRequestOptions,
    /// How often a request is repeated after a rate limit or a transient error.
    pub max_retries: Option<u32>,
    /// The longest delay that a server may ask for; zero takes any.
    pub max_retry_delay_ms: Option<u64>,
    /// How long to wait for the headers of a response.
    pub timeout_ms: Option<u64>,
}

/// The options of a request as a caller gives them.
pub struct SimpleStreamOptions {
    pub signal: Option<CancellationToken>,
    pub temperature: Option<Decimal>,
    pub max_tokens: Option<u64>,
    pub response_format: Option<ResponseFormat>,
    pub tool_choice: Option<ToolChoice>,
    pub thinking: Option<ModelThinkingLevel>,
    /// A reasoning effort by name, such as `minimal` or `off`.
    pub reasoning: Option<String>,
    pub provider_extra: Option<Json>,
    pub session_id: Option<String>,
    pub cache_retention: Option<CacheRetention>,
    /// A base URL for this request only.
    pub base_url: Option<String>,
}

impl Default for ProviderRequestOptions {
    fn default() -> (r: ProviderRequestOptions)
        ensures
            r.headers@ == Map::<Seq<char>, String>::empty(),
            r.extra_body is None,
            r.query_params@ == Map::<Seq<char>, String>::empty(),
            r.base_url is None,
    {
        ProviderRequestOptions {
            headers: Dict::new(),
            extra_body: None,
            query_params: Dict::new(),
            base_url: None,
        }
    }
}

impl Default for ApiStreamOptions {
    fn default() -> (r: ApiStreamOptions)
        ensures
            r.signal is None,
            r.request_options.headers@ == Map::<Seq<char>, String>::empty(),
            r.request_options.extra_body is None,
            r.request_options.query_params@ == Map::<Seq<char>, String>::empty(),
            r.request_options.base_url is None,
            r.max_retries is None,
            r.max_retry_delay_ms is None,
            r.timeout_ms is None,
    {
        ApiStreamOptions {
            signal: None,
            request_options: ProviderRequestOptions::default(),
            max_retries: None,
            max_retry_delay_ms: None,
            timeout_ms: None,
        }
    }
}

impl Default for SimpleStreamOptions {
    fn default() -> (r: SimpleStreamOptions)
        ensures
            r.signal is None,
            r.temperature is None,
            r.max_tokens is None,
            r.response_format is None,
            r.tool_choice is None,
            r.thinking is None,
            r.reasoning is None,
            r.provider_extra is None,
            r.session_id is None,
            r.cache_retention is None,
            r.base_url is None,
    {
        SimpleStreamOptions {
            signal: None,
            temperature: None,
            max_tokens: None,
            response_format: None,
            tool_choice: None,
            thinking: None,
            reasoning: None,
            provider_extra: None,
            session_id: None,
            cache_retention: None,
            base_url: None,
        }
    }
}

/// A flag that many holders share. Once one of them raises it, it stays up.
/// What [`CancellationToken::is_cancelled`] returns depends on the other
/// holders, so no contract speaks of its value.
pub struct CancellationToken {
    inner: std::sync::Arc<std::sync::atomic::AtomicBool>,
}

impl CancellationToken {
    /// The flag that a token shares with its copies.
    pub closed spec fn cell(&self) -> std::sync::Arc<std::sync::atomic::AtomicBool> {
        self.inner
    }

    /// A token with a flag of its own, which is down.
    pub fn new() -> (r: CancellationToken) {
        CancellationToken {
            inner: std::sync::Arc::new(std::sync::atomic::AtomicBool::new(false)),
        }
    }

    /// Raises the flag.
    pub fn cancel(&self) {
        self.inner.store(true, std::sync::atomic::Ordering::SeqCst);
    }

    /// Whether the flag is up.
    pub fn is_cancelled(&self) -> (r: bool) {
        self.inner.load(std::sync::atomic::Ordering::SeqCst)
    }

    /// A token that shares the flag of this one.
    pub fn child_token(&self) -> (r: CancellationToken)
        ensures
            r.cell() == self.cell(),
    {
        CancellationToken { inner: self.inner.clone() }
    }
}

impl Default for CancellationToken {
    fn default() -> (r: CancellationToken) {
        CancellationToken::new()
    }
}

impl Clone for CancellationToken {
    fn clone(&self) -> (r: CancellationToken)
        ensures
            r.cell() == self.cell(),
    {
        self.child_token()
    }
}

/// The flag of a token that may be missing.
pub open spec fn flag_of(o: Option<CancellationToken>) -> Option<
    std::sync::Arc<std::sync::atomic::AtomicBool>,
> {
    match o {
        Some(t) => Some(t.cell()),
        None => None,
    }
}

/// A copy of an optional token.
pub fn clone_opt_token(o: &Option<CancellationToken>) -> (r: Option<CancellationToken>)
    ensures
        flag_of(r) == flag_of(*o),
{
    match o {
        Some(t) => Some(t.child_token()),
        None => None,
    }
}

/// The first model of an id is found, whatever stands behind it.
pub proof fn law_first_model_is_found(
    before: Seq<ModelView>,
    model: ModelView,
    behind: Seq<ModelView>,
)
    requires
        forall|i: int| 0 <= i < before.len() ==> (#[trigger] before[i]).id != model.id,
    ensures
        model_with_id(before + seq![model] + behind, model.id) == Some(model),
        model_with_id(before, model.id) is None,
    decreases before.len(),
{
    let all = before + seq![model] + behind;
    if before.len() == 0 {
        assert(all[0] == model);
    } else {
        let rest = before.skip(1);
        assert forall|i: int| 0 <= i < rest.len() implies (#[trigger] rest[i]).id != model.id by {
            assert(rest[i] == before[i + 1]);
        }
        law_first_model_is_found(rest, model, behind);
        assert(all[0] == before[0]);
        assert(all.skip(1) =~= rest + seq![model] + behind);
    }
}

/// A message that nothing is known of yet has no content, no reason and no error, and counts and
/// costs nothing.
pub proof fn law_empty_message_says_nothing(api: Seq<char>, provider: Seq<char>, timestamp: i64)
    ensures
        ({
            let a = empty_assistant(api, provider, timestamp);
            &&& a.api == api
            &&& a.provider == provider
            &&& a.timestamp == timestamp
            &&& a.content.len() == 0
            &&& a.model is None
            &&& a.stop_reason is None
            &&& a.error_message is None
            &&& a.response_id is None
            &&& a.end_turn is None
            &&& a.usage.input == 0
            &&& a.usage.output == 0
            &&& a.usage.cache_read == 0
            &&& a.usage.cache_write == 0
            &&& a.usage.total_tokens == 0
            &&& a.usage.cost.input.tokens == 0
            &&& a.usage.cost.output.tokens == 0
        }),
{
}

} // verus!
