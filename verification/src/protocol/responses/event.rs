//! Names of the Responses streaming events this library reads and writes.
use vstd::prelude::*;

verus! {

pub const CREATED: &'static str = "response.created";

pub const IN_PROGRESS: &'static str = "response.in_progress";

pub const OUTPUT_ITEM_ADDED: &'static str = "response.output_item.added";

pub const OUTPUT_ITEM_DONE: &'static str = "response.output_item.done";

pub const CONTENT_PART_ADDED: &'static str = "response.content_part.added";

pub const CONTENT_PART_DONE: &'static str = "response.content_part.done";

pub const TEXT_DELTA: &'static str = "response.output_text.delta";

pub const TEXT_DONE: &'static str = "response.output_text.done";

pub const REASONING_SUMMARY_TEXT_DELTA: &'static str = "response.reasoning_summary_text.delta";

pub const REASONING_SUMMARY_TEXT_DONE: &'static str = "response.reasoning_summary_text.done";

pub const FUNC_ARGS_DELTA: &'static str = "response.function_call_arguments.delta";

pub const FUNC_ARGS_DONE: &'static str = "response.function_call_arguments.done";

pub const COMPLETED: &'static str = "response.completed";

pub const INCOMPLETE: &'static str = "response.incomplete";

pub const FAILED: &'static str = "response.failed";

} // verus!
