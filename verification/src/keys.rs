//! The names that JSON objects are made of are told apart.
use vstd::prelude::*;

verus! {

/// The names that requests to and responses of chat services are made of differ from each other.
pub proof fn lemma_wire_keys()
    ensures
        "model"@.len() == 5,
        "model"@[0] == 'm',
        "max_tokens"@.len() == 10,
        "max_tokens"@[0] == 'm',
        "max_tokens"@[1] == 'a',
        "temperature"@.len() == 11,
        "temperature"@[0] == 't',
        "temperature"@[1] == 'e',
        "system"@.len() == 6,
        "system"@[0] == 's',
        "system"@[1] == 'y',
        "messages"@.len() == 8,
        "messages"@[0] == 'm',
        "tools"@.len() == 5,
        "tools"@[0] == 't',
        "tool_choice"@.len() == 11,
        "tool_choice"@[0] == 't',
        "tool_choice"@[1] == 'o',
        "tool_choice"@[5] == 'c',
        "name"@.len() == 4,
        "name"@[0] == 'n',
        "description"@.len() == 11,
        "description"@[0] == 'd',
        "input_schema"@.len() == 12,
        "input_schema"@[0] == 'i',
        "input_schema"@[6] == 's',
        "role"@.len() == 4,
        "role"@[0] == 'r',
        "content"@.len() == 7,
        "content"@[0] == 'c',
        "content"@[1] == 'o',
        "type"@.len() == 4,
        "type"@[0] == 't',
        "type"@[1] == 'y',
        "text"@.len() == 4,
        "text"@[0] == 't',
        "text"@[1] == 'e',
        "image"@.len() == 5,
        "image"@[0] == 'i',
        "image"@[1] == 'm',
        "source"@.len() == 6,
        "source"@[0] == 's',
        "source"@[1] == 'o',
        "media_type"@.len() == 10,
        "media_type"@[0] == 'm',
        "media_type"@[1] == 'e',
        "data"@.len() == 4,
        "data"@[0] == 'd',
        "base64"@.len() == 6,
        "base64"@[0] == 'b',
        "tool_use"@.len() == 8,
        "tool_use"@[0] == 't',
        "tool_result"@.len() == 11,
        "tool_result"@[0] == 't',
        "tool_result"@[1] == 'o',
        "tool_result"@[5] == 'r',
        "id"@.len() == 2,
        "input"@.len() == 5,
        "input"@[0] == 'i',
        "input"@[1] == 'n',
        "tool_use_id"@.len() == 11,
        "tool_use_id"@[0] == 't',
        "tool_use_id"@[1] == 'o',
        "tool_use_id"@[5] == 'u',
        "is_error"@.len() == 8,
        "is_error"@[0] == 'i',
        "user"@.len() == 4,
        "user"@[0] == 'u',
        "assistant"@.len() == 9,
        "assistant"@[0] == 'a',
        "assistant"@[1] == 's',
        "tool"@.len() == 4,
        "tool"@[0] == 't',
        "tool"@[1] == 'o',
        "auto"@.len() == 4,
        "auto"@[0] == 'a',
        "any"@.len() == 3,
        "any"@[0] == 'a',
        "stream"@.len() == 6,
        "stream"@[0] == 's',
        "stream"@[1] == 't',
        "stream"@[3] == 'e',
        "response_format"@.len() == 15,
        "image_url"@.len() == 9,
        "image_url"@[0] == 'i',
        "url"@.len() == 3,
        "url"@[0] == 'u',
        "function"@.len() == 8,
        "function"@[0] == 'f',
        "arguments"@.len() == 9,
        "arguments"@[0] == 'a',
        "arguments"@[1] == 'r',
        "tool_calls"@.len() == 10,
        "tool_calls"@[0] == 't',
        "tool_call_id"@.len() == 12,
        "tool_call_id"@[0] == 't',
        "parameters"@.len() == 10,
        "parameters"@[0] == 'p',
        "schema"@.len() == 6,
        "schema"@[0] == 's',
        "schema"@[1] == 'c',
        "strict"@.len() == 6,
        "strict"@[0] == 's',
        "strict"@[1] == 't',
        "strict"@[3] == 'i',
        "jsonobject"@.len() == 10,
        "jsonobject"@[0] == 'j',
        "jsonobject"@[4] == 'o',
        "jsonschema"@.len() == 10,
        "jsonschema"@[0] == 'j',
        "jsonschema"@[4] == 's',
        "stop_reason"@.len() == 11,
        "stop_reason"@[0] == 's',
        "usage"@.len() == 5,
        "usage"@[0] == 'u',
        "input_tokens"@.len() == 12,
        "input_tokens"@[0] == 'i',
        "input_tokens"@[6] == 't',
        "output_tokens"@.len() == 13,
        "output_tokens"@[0] == 'o',
        "cache_read_input_tokens"@.len() == 23,
        "cache_creation_input_tokens"@.len() == 27,
        "choices"@.len() == 7,
        "choices"@[0] == 'c',
        "choices"@[1] == 'h',
        "message"@.len() == 7,
        "message"@[0] == 'm',
        "finish_reason"@.len() == 13,
        "finish_reason"@[0] == 'f',
        "prompt_tokens"@.len() == 13,
        "prompt_tokens"@[0] == 'p',
        "completion_tokens"@.len() == 17,
        "prompt_tokens_details"@.len() == 21,
        "cached_tokens"@.len() == 13,
        "cached_tokens"@[0] == 'c',
        "unknown"@.len() == 7,
        "unknown"@[0] == 'u',
{
    reveal_strlit("model");
    reveal_strlit("max_tokens");
    reveal_strlit("temperature");
    reveal_strlit("system");
    reveal_strlit("messages");
    reveal_strlit("tools");
    reveal_strlit("tool_choice");
    reveal_strlit("name");
    reveal_strlit("description");
    reveal_strlit("input_schema");
    reveal_strlit("role");
    reveal_strlit("content");
    reveal_strlit("type");
    reveal_strlit("text");
    reveal_strlit("image");
    reveal_strlit("source");
    reveal_strlit("media_type");
    reveal_strlit("data");
    reveal_strlit("base64");
    reveal_strlit("tool_use");
    reveal_strlit("tool_result");
    reveal_strlit("id");
    reveal_strlit("input");
    reveal_strlit("tool_use_id");
    reveal_strlit("is_error");
    reveal_strlit("user");
    reveal_strlit("assistant");
    reveal_strlit("tool");
    reveal_strlit("auto");
    reveal_strlit("any");
    reveal_strlit("stream");
    reveal_strlit("response_format");
    reveal_strlit("image_url");
    reveal_strlit("url");
    reveal_strlit("function");
    reveal_strlit("arguments");
    reveal_strlit("tool_calls");
    reveal_strlit("tool_call_id");
    reveal_strlit("parameters");
    reveal_strlit("schema");
    reveal_strlit("strict");
    reveal_strlit("jsonobject");
    reveal_strlit("jsonschema");
    reveal_strlit("stop_reason");
    reveal_strlit("usage");
    reveal_strlit("input_tokens");
    reveal_strlit("output_tokens");
    reveal_strlit("cache_read_input_tokens");
    reveal_strlit("cache_creation_input_tokens");
    reveal_strlit("choices");
    reveal_strlit("message");
    reveal_strlit("finish_reason");
    reveal_strlit("prompt_tokens");
    reveal_strlit("completion_tokens");
    reveal_strlit("prompt_tokens_details");
    reveal_strlit("cached_tokens");
    reveal_strlit("unknown");
}

/// The names that Codex requests and events are made of differ from each other.
pub proof fn lemma_codex_keys()
    ensures
        "model"@.len() == 5,
        "model"@[0] == 'm',
        "store"@.len() == 5,
        "store"@[0] == 's',
        "stream"@.len() == 6,
        "stream"@[0] == 's',
        "stream"@[1] == 't',
        "stream"@[2] == 'r',
        "stream"@[3] == 'e',
        "instructions"@.len() == 12,
        "instructions"@[0] == 'i',
        "input"@.len() == 5,
        "input"@[0] == 'i',
        "text"@.len() == 4,
        "text"@[0] == 't',
        "text"@[1] == 'e',
        "include"@.len() == 7,
        "include"@[0] == 'i',
        "tool_choice"@.len() == 11,
        "tool_choice"@[0] == 't',
        "tool_choice"@[1] == 'o',
        "parallel_tool_calls"@.len() == 19,
        "prompt_cache_key"@.len() == 16,
        "prompt_cache_key"@[0] == 'p',
        "temperature"@.len() == 11,
        "temperature"@[0] == 't',
        "temperature"@[1] == 'e',
        "service_tier"@.len() == 12,
        "service_tier"@[0] == 's',
        "tools"@.len() == 5,
        "tools"@[0] == 't',
        "reasoning"@.len() == 9,
        "reasoning"@[0] == 'r',
        "effort"@.len() == 6,
        "effort"@[0] == 'e',
        "summary"@.len() == 7,
        "summary"@[0] == 's',
        "verbosity"@.len() == 9,
        "verbosity"@[0] == 'v',
        "role"@.len() == 4,
        "role"@[0] == 'r',
        "content"@.len() == 7,
        "content"@[0] == 'c',
        "content"@[1] == 'o',
        "type"@.len() == 4,
        "type"@[0] == 't',
        "type"@[1] == 'y',
        "user"@.len() == 4,
        "user"@[0] == 'u',
        "system"@.len() == 6,
        "system"@[0] == 's',
        "system"@[1] == 'y',
        "system"@[2] == 's',
        "assistant"@.len() == 9,
        "assistant"@[0] == 'a',
        "assistant"@[1] == 's',
        "message"@.len() == 7,
        "message"@[0] == 'm',
        "status"@.len() == 6,
        "status"@[0] == 's',
        "status"@[1] == 't',
        "status"@[2] == 'a',
        "completed"@.len() == 9,
        "completed"@[0] == 'c',
        "id"@.len() == 2,
        "annotations"@.len() == 11,
        "annotations"@[0] == 'a',
        "input_text"@.len() == 10,
        "input_text"@[0] == 'i',
        "output_text"@.len() == 11,
        "output_text"@[0] == 'o',
        "input_image"@.len() == 11,
        "input_image"@[0] == 'i',
        "image_url"@.len() == 9,
        "image_url"@[0] == 'i',
        "detail"@.len() == 6,
        "detail"@[0] == 'd',
        "auto"@.len() == 4,
        "auto"@[0] == 'a',
        "none"@.len() == 4,
        "none"@[0] == 'n',
        "none"@[1] == 'o',
        "required"@.len() == 8,
        "required"@[0] == 'r',
        "required"@[2] == 'q',
        "call_id"@.len() == 7,
        "call_id"@[0] == 'c',
        "call_id"@[1] == 'a',
        "name"@.len() == 4,
        "name"@[0] == 'n',
        "name"@[1] == 'a',
        "arguments"@.len() == 9,
        "arguments"@[0] == 'a',
        "arguments"@[1] == 'r',
        "output"@.len() == 6,
        "output"@[0] == 'o',
        "function_call"@.len() == 13,
        "custom_tool_call"@.len() == 16,
        "custom_tool_call"@[0] == 'c',
        "function_call_output"@.len() == 20,
        "custom_tool_call_output"@.len() == 23,
        "function"@.len() == 8,
        "function"@[0] == 'f',
        "custom"@.len() == 6,
        "custom"@[0] == 'c',
        "description"@.len() == 11,
        "description"@[0] == 'd',
        "parameters"@.len() == 10,
        "parameters"@[0] == 'p',
        "strict"@.len() == 6,
        "strict"@[0] == 's',
        "strict"@[1] == 't',
        "strict"@[2] == 'r',
        "strict"@[3] == 'i',
        "format"@.len() == 6,
        "format"@[0] == 'f',
        "grammar"@.len() == 7,
        "grammar"@[0] == 'g',
        "syntax"@.len() == 6,
        "syntax"@[0] == 's',
        "syntax"@[1] == 'y',
        "syntax"@[2] == 'n',
        "definition"@.len() == 10,
        "definition"@[0] == 'd',
        "off"@.len() == 3,
        "off"@[0] == 'o',
        "low"@.len() == 3,
        "low"@[0] == 'l',
        "response"@.len() == 8,
        "response"@[0] == 'r',
        "response"@[2] == 's',
        "error"@.len() == 5,
        "error"@[0] == 'e',
        "code"@.len() == 4,
        "code"@[0] == 'c',
        "delta"@.len() == 5,
        "delta"@[0] == 'd',
        "item"@.len() == 4,
        "item"@[0] == 'i',
        "output_index"@.len() == 12,
        "output_index"@[0] == 'o',
{
    reveal_strlit("model");
    reveal_strlit("store");
    reveal_strlit("stream");
    reveal_strlit("instructions");
    reveal_strlit("input");
    reveal_strlit("text");
    reveal_strlit("include");
    reveal_strlit("tool_choice");
    reveal_strlit("parallel_tool_calls");
    reveal_strlit("prompt_cache_key");
    reveal_strlit("temperature");
    reveal_strlit("service_tier");
    reveal_strlit("tools");
    reveal_strlit("reasoning");
    reveal_strlit("effort");
    reveal_strlit("summary");
    reveal_strlit("verbosity");
    reveal_strlit("role");
    reveal_strlit("content");
    reveal_strlit("type");
    reveal_strlit("user");
    reveal_strlit("system");
    reveal_strlit("assistant");
    reveal_strlit("message");
    reveal_strlit("status");
    reveal_strlit("completed");
    reveal_strlit("id");
    reveal_strlit("annotations");
    reveal_strlit("input_text");
    reveal_strlit("output_text");
    reveal_strlit("input_image");
    reveal_strlit("image_url");
    reveal_strlit("detail");
    reveal_strlit("auto");
    reveal_strlit("none");
    reveal_strlit("required");
    reveal_strlit("call_id");
    reveal_strlit("name");
    reveal_strlit("arguments");
    reveal_strlit("output");
    reveal_strlit("function_call");
    reveal_strlit("custom_tool_call");
    reveal_strlit("function_call_output");
    reveal_strlit("custom_tool_call_output");
    reveal_strlit("function");
    reveal_strlit("custom");
    reveal_strlit("description");
    reveal_strlit("parameters");
    reveal_strlit("strict");
    reveal_strlit("format");
    reveal_strlit("grammar");
    reveal_strlit("syntax");
    reveal_strlit("definition");
    reveal_strlit("off");
    reveal_strlit("low");
    reveal_strlit("response");
    reveal_strlit("error");
    reveal_strlit("code");
    reveal_strlit("delta");
    reveal_strlit("item");
    reveal_strlit("output_index");
}

/// The types of the events of a Codex response and of its items differ from each other.
pub proof fn lemma_event_types()
    ensures
        "error"@.len() == 5,
        "response.failed"@.len() == 15,
        "response.done"@.len() == 13,
        "response.done"@[0] == 'r',
        "response.completed"@.len() == 18,
        "response.incomplete"@.len() == 19,
        "response.created"@.len() == 16,
        "response.created"@[0] == 'r',
        "response.output_item.added"@.len() == 26,
        "response.output_item.added"@[16] == 'i',
        "response.reasoning_summary_text.delta"@.len() == 37,
        "response.reasoning_summary_text.delta"@[9] == 'r',
        "response.reasoning_text.delta"@.len() == 29,
        "response.reasoning_summary_part.done"@.len() == 36,
        "response.reasoning_summary_part.done"@[9] == 'r',
        "response.output_text.delta"@.len() == 26,
        "response.output_text.delta"@[16] == 't',
        "response.refusal.delta"@.len() == 22,
        "response.function_call_arguments.delta"@.len() == 38,
        "response.function_call_arguments.done"@.len() == 37,
        "response.function_call_arguments.done"@[9] == 'f',
        "response.custom_tool_call_input.delta"@.len() == 37,
        "response.custom_tool_call_input.delta"@[9] == 'c',
        "response.custom_tool_call_input.done"@.len() == 36,
        "response.custom_tool_call_input.done"@[9] == 'c',
        "response.output_item.done"@.len() == 25,
        "reasoning"@.len() == 9,
        "reasoning"@[0] == 'r',
        "message"@.len() == 7,
        "function_call"@.len() == 13,
        "function_call"@[0] == 'f',
        "custom_tool_call"@.len() == 16,
        "custom_tool_call"@[0] == 'c',
        "completed"@.len() == 9,
        "completed"@[0] == 'c',
        "completed"@[1] == 'o',
        "incomplete"@.len() == 10,
        "failed"@.len() == 6,
        "failed"@[0] == 'f',
        "cancelled"@.len() == 9,
        "cancelled"@[0] == 'c',
        "cancelled"@[1] == 'a',
        "queued"@.len() == 6,
        "queued"@[0] == 'q',
        "in_progress"@.len() == 11,
{
    reveal_strlit("error");
    reveal_strlit("response.failed");
    reveal_strlit("response.done");
    reveal_strlit("response.completed");
    reveal_strlit("response.incomplete");
    reveal_strlit("response.created");
    reveal_strlit("response.output_item.added");
    reveal_strlit("response.reasoning_summary_text.delta");
    reveal_strlit("response.reasoning_text.delta");
    reveal_strlit("response.reasoning_summary_part.done");
    reveal_strlit("response.output_text.delta");
    reveal_strlit("response.refusal.delta");
    reveal_strlit("response.function_call_arguments.delta");
    reveal_strlit("response.function_call_arguments.done");
    reveal_strlit("response.custom_tool_call_input.delta");
    reveal_strlit("response.custom_tool_call_input.done");
    reveal_strlit("response.output_item.done");
    reveal_strlit("reasoning");
    reveal_strlit("message");
    reveal_strlit("function_call");
    reveal_strlit("custom_tool_call");
    reveal_strlit("completed");
    reveal_strlit("incomplete");
    reveal_strlit("failed");
    reveal_strlit("cancelled");
    reveal_strlit("queued");
    reveal_strlit("in_progress");
}

} // verus!
