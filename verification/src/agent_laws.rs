//! What holds of every subagent run, and of the configuration it is started with.
use vstd::prelude::*;

use crate::agent::{all_extractable, briefs_in, can_clip, catalog, catalog_entry, catalog_head};
use crate::agent::{clipped_line, command_line, config_text, event_in, event_views, events_in};
use crate::agent::{failure, failure_detail, final_message, first_line, has_event, home_name};
use crate::agent::{is_home, is_plan, last_part, output_name, reasoning_level, reasoning_levels};
use crate::agent::{report, sanitized, turns_in, AgentEvent, AgentEventView, CodexArg, CodexArgView};
use crate::agent::{CodexHome, Outcome, Plan, RunFailure, SpawnArgs};
use crate::codec::json_parse;
use crate::config::{is_daemon, is_flag, lemma_model_named, model_named, no_flags, provider_named};
use crate::config::{proxy_args, read_flags, selected, wanted_model, with_flag, FlagsView};
use crate::config::{ModelConfig, ProviderConfig, ProxyArgs, ProxyArgsView, SpawnerConfig};
use crate::json::{empty_object, opt_string, JsonView};
use crate::proxy::ProxyConfig;
use crate::text::{byte_len, char_alphanumeric, decimal, find_from, fitting_prefix};
use crate::text::{lemma_byte_len_push, lemma_find_from, lemma_fitting_prefix, lines_of};
use crate::text::{signed_decimal, trimmed};

verus! {

/// The words of the catalog are all different.
proof fn lemma_catalog_words()
    ensures
        "slug"@ != "display_name"@,
        "slug"@ != "description"@,
        "slug"@ != "context_window"@,
        "slug"@ != "max_context_window"@,
        "slug"@ != "auto_compact_token_limit"@,
        "slug"@ != "default_reasoning_level"@,
        "slug"@ != "supported_reasoning_levels"@,
        "slug"@ != "shell_type"@,
        "slug"@ != "visibility"@,
        "slug"@ != "supported_in_api"@,
        "slug"@ != "priority"@,
        "slug"@ != "additional_speed_tiers"@,
        "slug"@ != "service_tiers"@,
        "slug"@ != "base_instructions"@,
        "slug"@ != "supports_reasoning_summaries"@,
        "slug"@ != "default_reasoning_summary"@,
        "slug"@ != "support_verbosity"@,
        "slug"@ != "default_verbosity"@,
        "slug"@ != "apply_patch_tool_type"@,
        "slug"@ != "web_search_tool_type"@,
        "slug"@ != "experimental_supported_tools"@,
        "slug"@ != "supports_parallel_tool_calls"@,
        "slug"@ != "supports_image_detail_original"@,
        "slug"@ != "effective_context_window_percent"@,
        "slug"@ != "input_modalities"@,
        "slug"@ != "supports_search_tool"@,
        "slug"@ != "use_responses_lite"@,
        "slug"@ != "truncation_policy"@,
        "display_name"@ != "description"@,
        "display_name"@ != "context_window"@,
        "display_name"@ != "max_context_window"@,
        "display_name"@ != "auto_compact_token_limit"@,
        "display_name"@ != "default_reasoning_level"@,
        "display_name"@ != "supported_reasoning_levels"@,
        "display_name"@ != "shell_type"@,
        "display_name"@ != "visibility"@,
        "display_name"@ != "supported_in_api"@,
        "display_name"@ != "priority"@,
        "display_name"@ != "additional_speed_tiers"@,
        "display_name"@ != "service_tiers"@,
        "display_name"@ != "base_instructions"@,
        "display_name"@ != "supports_reasoning_summaries"@,
        "display_name"@ != "default_reasoning_summary"@,
        "display_name"@ != "support_verbosity"@,
        "display_name"@ != "default_verbosity"@,
        "display_name"@ != "apply_patch_tool_type"@,
        "display_name"@ != "web_search_tool_type"@,
        "display_name"@ != "experimental_supported_tools"@,
        "display_name"@ != "supports_parallel_tool_calls"@,
        "display_name"@ != "supports_image_detail_original"@,
        "display_name"@ != "effective_context_window_percent"@,
        "display_name"@ != "input_modalities"@,
        "display_name"@ != "supports_search_tool"@,
        "display_name"@ != "use_responses_lite"@,
        "display_name"@ != "truncation_policy"@,
        "description"@ != "context_window"@,
        "description"@ != "max_context_window"@,
        "description"@ != "auto_compact_token_limit"@,
        "description"@ != "default_reasoning_level"@,
        "description"@ != "supported_reasoning_levels"@,
        "description"@ != "shell_type"@,
        "description"@ != "visibility"@,
        "description"@ != "supported_in_api"@,
        "description"@ != "priority"@,
        "description"@ != "additional_speed_tiers"@,
        "description"@ != "service_tiers"@,
        "description"@ != "base_instructions"@,
        "description"@ != "supports_reasoning_summaries"@,
        "description"@ != "default_reasoning_summary"@,
        "description"@ != "support_verbosity"@,
        "description"@ != "default_verbosity"@,
        "description"@ != "apply_patch_tool_type"@,
        "description"@ != "web_search_tool_type"@,
        "description"@ != "experimental_supported_tools"@,
        "description"@ != "supports_parallel_tool_calls"@,
        "description"@ != "supports_image_detail_original"@,
        "description"@ != "effective_context_window_percent"@,
        "description"@ != "input_modalities"@,
        "description"@ != "supports_search_tool"@,
        "description"@ != "use_responses_lite"@,
        "description"@ != "truncation_policy"@,
        "context_window"@ != "max_context_window"@,
        "context_window"@ != "auto_compact_token_limit"@,
        "context_window"@ != "default_reasoning_level"@,
        "context_window"@ != "supported_reasoning_levels"@,
        "context_window"@ != "shell_type"@,
        "context_window"@ != "visibility"@,
        "context_window"@ != "supported_in_api"@,
        "context_window"@ != "priority"@,
        "context_window"@ != "additional_speed_tiers"@,
        "context_window"@ != "service_tiers"@,
        "context_window"@ != "base_instructions"@,
        "context_window"@ != "supports_reasoning_summaries"@,
        "context_window"@ != "default_reasoning_summary"@,
        "context_window"@ != "support_verbosity"@,
        "context_window"@ != "default_verbosity"@,
        "context_window"@ != "apply_patch_tool_type"@,
        "context_window"@ != "web_search_tool_type"@,
        "context_window"@ != "experimental_supported_tools"@,
        "context_window"@ != "supports_parallel_tool_calls"@,
        "context_window"@ != "supports_image_detail_original"@,
        "context_window"@ != "effective_context_window_percent"@,
        "context_window"@ != "input_modalities"@,
        "context_window"@ != "supports_search_tool"@,
        "context_window"@ != "use_responses_lite"@,
        "context_window"@ != "truncation_policy"@,
        "max_context_window"@ != "auto_compact_token_limit"@,
        "max_context_window"@ != "default_reasoning_level"@,
        "max_context_window"@ != "supported_reasoning_levels"@,
        "max_context_window"@ != "shell_type"@,
        "max_context_window"@ != "visibility"@,
        "max_context_window"@ != "supported_in_api"@,
        "max_context_window"@ != "priority"@,
        "max_context_window"@ != "additional_speed_tiers"@,
        "max_context_window"@ != "service_tiers"@,
        "max_context_window"@ != "base_instructions"@,
        "max_context_window"@ != "supports_reasoning_summaries"@,
        "max_context_window"@ != "default_reasoning_summary"@,
        "max_context_window"@ != "support_verbosity"@,
        "max_context_window"@ != "default_verbosity"@,
        "max_context_window"@ != "apply_patch_tool_type"@,
        "max_context_window"@ != "web_search_tool_type"@,
        "max_context_window"@ != "experimental_supported_tools"@,
        "max_context_window"@ != "supports_parallel_tool_calls"@,
        "max_context_window"@ != "supports_image_detail_original"@,
        "max_context_window"@ != "effective_context_window_percent"@,
        "max_context_window"@ != "input_modalities"@,
        "max_context_window"@ != "supports_search_tool"@,
        "max_context_window"@ != "use_responses_lite"@,
        "max_context_window"@ != "truncation_policy"@,
        "auto_compact_token_limit"@ != "default_reasoning_level"@,
        "auto_compact_token_limit"@ != "supported_reasoning_levels"@,
        "auto_compact_token_limit"@ != "shell_type"@,
        "auto_compact_token_limit"@ != "visibility"@,
        "auto_compact_token_limit"@ != "supported_in_api"@,
        "auto_compact_token_limit"@ != "priority"@,
        "auto_compact_token_limit"@ != "additional_speed_tiers"@,
        "auto_compact_token_limit"@ != "service_tiers"@,
        "auto_compact_token_limit"@ != "base_instructions"@,
        "auto_compact_token_limit"@ != "supports_reasoning_summaries"@,
        "auto_compact_token_limit"@ != "default_reasoning_summary"@,
        "auto_compact_token_limit"@ != "support_verbosity"@,
        "auto_compact_token_limit"@ != "default_verbosity"@,
        "auto_compact_token_limit"@ != "apply_patch_tool_type"@,
        "auto_compact_token_limit"@ != "web_search_tool_type"@,
        "auto_compact_token_limit"@ != "experimental_supported_tools"@,
        "auto_compact_token_limit"@ != "supports_parallel_tool_calls"@,
        "auto_compact_token_limit"@ != "supports_image_detail_original"@,
        "auto_compact_token_limit"@ != "effective_context_window_percent"@,
        "auto_compact_token_limit"@ != "input_modalities"@,
        "auto_compact_token_limit"@ != "supports_search_tool"@,
        "auto_compact_token_limit"@ != "use_responses_lite"@,
        "auto_compact_token_limit"@ != "truncation_policy"@,
        "default_reasoning_level"@ != "supported_reasoning_levels"@,
        "default_reasoning_level"@ != "shell_type"@,
        "default_reasoning_level"@ != "visibility"@,
        "default_reasoning_level"@ != "supported_in_api"@,
        "default_reasoning_level"@ != "priority"@,
        "default_reasoning_level"@ != "additional_speed_tiers"@,
        "default_reasoning_level"@ != "service_tiers"@,
        "default_reasoning_level"@ != "base_instructions"@,
        "default_reasoning_level"@ != "supports_reasoning_summaries"@,
        "default_reasoning_level"@ != "default_reasoning_summary"@,
        "default_reasoning_level"@ != "support_verbosity"@,
        "default_reasoning_level"@ != "default_verbosity"@,
        "default_reasoning_level"@ != "apply_patch_tool_type"@,
        "default_reasoning_level"@ != "web_search_tool_type"@,
        "default_reasoning_level"@ != "experimental_supported_tools"@,
        "default_reasoning_level"@ != "supports_parallel_tool_calls"@,
        "default_reasoning_level"@ != "supports_image_detail_original"@,
        "default_reasoning_level"@ != "effective_context_window_percent"@,
        "default_reasoning_level"@ != "input_modalities"@,
        "default_reasoning_level"@ != "supports_search_tool"@,
        "default_reasoning_level"@ != "use_responses_lite"@,
        "default_reasoning_level"@ != "truncation_policy"@,
        "supported_reasoning_levels"@ != "shell_type"@,
        "supported_reasoning_levels"@ != "visibility"@,
        "supported_reasoning_levels"@ != "supported_in_api"@,
        "supported_reasoning_levels"@ != "priority"@,
        "supported_reasoning_levels"@ != "additional_speed_tiers"@,
        "supported_reasoning_levels"@ != "service_tiers"@,
        "supported_reasoning_levels"@ != "base_instructions"@,
        "supported_reasoning_levels"@ != "supports_reasoning_summaries"@,
        "supported_reasoning_levels"@ != "default_reasoning_summary"@,
        "supported_reasoning_levels"@ != "support_verbosity"@,
        "supported_reasoning_levels"@ != "default_verbosity"@,
        "supported_reasoning_levels"@ != "apply_patch_tool_type"@,
        "supported_reasoning_levels"@ != "web_search_tool_type"@,
        "supported_reasoning_levels"@ != "experimental_supported_tools"@,
        "supported_reasoning_levels"@ != "supports_parallel_tool_calls"@,
        "supported_reasoning_levels"@ != "supports_image_detail_original"@,
        "supported_reasoning_levels"@ != "effective_context_window_percent"@,
        "supported_reasoning_levels"@ != "input_modalities"@,
        "supported_reasoning_levels"@ != "supports_search_tool"@,
        "supported_reasoning_levels"@ != "use_responses_lite"@,
        "supported_reasoning_levels"@ != "truncation_policy"@,
        "shell_type"@ != "visibility"@,
        "shell_type"@ != "supported_in_api"@,
        "shell_type"@ != "priority"@,
        "shell_type"@ != "additional_speed_tiers"@,
        "shell_type"@ != "service_tiers"@,
        "shell_type"@ != "base_instructions"@,
        "shell_type"@ != "supports_reasoning_summaries"@,
        "shell_type"@ != "default_reasoning_summary"@,
        "shell_type"@ != "support_verbosity"@,
        "shell_type"@ != "default_verbosity"@,
        "shell_type"@ != "apply_patch_tool_type"@,
        "shell_type"@ != "web_search_tool_type"@,
        "shell_type"@ != "experimental_supported_tools"@,
        "shell_type"@ != "supports_parallel_tool_calls"@,
        "shell_type"@ != "supports_image_detail_original"@,
        "shell_type"@ != "effective_context_window_percent"@,
        "shell_type"@ != "input_modalities"@,
        "shell_type"@ != "supports_search_tool"@,
        "shell_type"@ != "use_responses_lite"@,
        "shell_type"@ != "truncation_policy"@,
        "visibility"@ != "supported_in_api"@,
        "visibility"@ != "priority"@,
        "visibility"@ != "additional_speed_tiers"@,
        "visibility"@ != "service_tiers"@,
        "visibility"@ != "base_instructions"@,
        "visibility"@ != "supports_reasoning_summaries"@,
        "visibility"@ != "default_reasoning_summary"@,
        "visibility"@ != "support_verbosity"@,
        "visibility"@ != "default_verbosity"@,
        "visibility"@ != "apply_patch_tool_type"@,
        "visibility"@ != "web_search_tool_type"@,
        "visibility"@ != "experimental_supported_tools"@,
        "visibility"@ != "supports_parallel_tool_calls"@,
        "visibility"@ != "supports_image_detail_original"@,
        "visibility"@ != "effective_context_window_percent"@,
        "visibility"@ != "input_modalities"@,
        "visibility"@ != "supports_search_tool"@,
        "visibility"@ != "use_responses_lite"@,
        "visibility"@ != "truncation_policy"@,
        "supported_in_api"@ != "priority"@,
        "supported_in_api"@ != "additional_speed_tiers"@,
        "supported_in_api"@ != "service_tiers"@,
        "supported_in_api"@ != "base_instructions"@,
        "supported_in_api"@ != "supports_reasoning_summaries"@,
        "supported_in_api"@ != "default_reasoning_summary"@,
        "supported_in_api"@ != "support_verbosity"@,
        "supported_in_api"@ != "default_verbosity"@,
        "supported_in_api"@ != "apply_patch_tool_type"@,
        "supported_in_api"@ != "web_search_tool_type"@,
        "supported_in_api"@ != "experimental_supported_tools"@,
        "supported_in_api"@ != "supports_parallel_tool_calls"@,
        "supported_in_api"@ != "supports_image_detail_original"@,
        "supported_in_api"@ != "effective_context_window_percent"@,
        "supported_in_api"@ != "input_modalities"@,
        "supported_in_api"@ != "supports_search_tool"@,
        "supported_in_api"@ != "use_responses_lite"@,
        "supported_in_api"@ != "truncation_policy"@,
        "priority"@ != "additional_speed_tiers"@,
        "priority"@ != "service_tiers"@,
        "priority"@ != "base_instructions"@,
        "priority"@ != "supports_reasoning_summaries"@,
        "priority"@ != "default_reasoning_summary"@,
        "priority"@ != "support_verbosity"@,
        "priority"@ != "default_verbosity"@,
        "priority"@ != "apply_patch_tool_type"@,
        "priority"@ != "web_search_tool_type"@,
        "priority"@ != "experimental_supported_tools"@,
        "priority"@ != "supports_parallel_tool_calls"@,
        "priority"@ != "supports_image_detail_original"@,
        "priority"@ != "effective_context_window_percent"@,
        "priority"@ != "input_modalities"@,
        "priority"@ != "supports_search_tool"@,
        "priority"@ != "use_responses_lite"@,
        "priority"@ != "truncation_policy"@,
        "additional_speed_tiers"@ != "service_tiers"@,
        "additional_speed_tiers"@ != "base_instructions"@,
        "additional_speed_tiers"@ != "supports_reasoning_summaries"@,
        "additional_speed_tiers"@ != "default_reasoning_summary"@,
        "additional_speed_tiers"@ != "support_verbosity"@,
        "additional_speed_tiers"@ != "default_verbosity"@,
        "additional_speed_tiers"@ != "apply_patch_tool_type"@,
        "additional_speed_tiers"@ != "web_search_tool_type"@,
        "additional_speed_tiers"@ != "experimental_supported_tools"@,
        "additional_speed_tiers"@ != "supports_parallel_tool_calls"@,
        "additional_speed_tiers"@ != "supports_image_detail_original"@,
        "additional_speed_tiers"@ != "effective_context_window_percent"@,
        "additional_speed_tiers"@ != "input_modalities"@,
        "additional_speed_tiers"@ != "supports_search_tool"@,
        "additional_speed_tiers"@ != "use_responses_lite"@,
        "additional_speed_tiers"@ != "truncation_policy"@,
        "service_tiers"@ != "base_instructions"@,
        "service_tiers"@ != "supports_reasoning_summaries"@,
        "service_tiers"@ != "default_reasoning_summary"@,
        "service_tiers"@ != "support_verbosity"@,
        "service_tiers"@ != "default_verbosity"@,
        "service_tiers"@ != "apply_patch_tool_type"@,
        "service_tiers"@ != "web_search_tool_type"@,
        "service_tiers"@ != "experimental_supported_tools"@,
        "service_tiers"@ != "supports_parallel_tool_calls"@,
        "service_tiers"@ != "supports_image_detail_original"@,
        "service_tiers"@ != "effective_context_window_percent"@,
        "service_tiers"@ != "input_modalities"@,
        "service_tiers"@ != "supports_search_tool"@,
        "service_tiers"@ != "use_responses_lite"@,
        "service_tiers"@ != "truncation_policy"@,
        "base_instructions"@ != "supports_reasoning_summaries"@,
        "base_instructions"@ != "default_reasoning_summary"@,
        "base_instructions"@ != "support_verbosity"@,
        "base_instructions"@ != "default_verbosity"@,
        "base_instructions"@ != "apply_patch_tool_type"@,
        "base_instructions"@ != "web_search_tool_type"@,
        "base_instructions"@ != "experimental_supported_tools"@,
        "base_instructions"@ != "supports_parallel_tool_calls"@,
        "base_instructions"@ != "supports_image_detail_original"@,
        "base_instructions"@ != "effective_context_window_percent"@,
        "base_instructions"@ != "input_modalities"@,
        "base_instructions"@ != "supports_search_tool"@,
        "base_instructions"@ != "use_responses_lite"@,
        "base_instructions"@ != "truncation_policy"@,
        "supports_reasoning_summaries"@ != "default_reasoning_summary"@,
        "supports_reasoning_summaries"@ != "support_verbosity"@,
        "supports_reasoning_summaries"@ != "default_verbosity"@,
        "supports_reasoning_summaries"@ != "apply_patch_tool_type"@,
        "supports_reasoning_summaries"@ != "web_search_tool_type"@,
        "supports_reasoning_summaries"@ != "experimental_supported_tools"@,
        "supports_reasoning_summaries"@ != "supports_parallel_tool_calls"@,
        "supports_reasoning_summaries"@ != "supports_image_detail_original"@,
        "supports_reasoning_summaries"@ != "effective_context_window_percent"@,
        "supports_reasoning_summaries"@ != "input_modalities"@,
        "supports_reasoning_summaries"@ != "supports_search_tool"@,
        "supports_reasoning_summaries"@ != "use_responses_lite"@,
        "supports_reasoning_summaries"@ != "truncation_policy"@,
        "default_reasoning_summary"@ != "support_verbosity"@,
        "default_reasoning_summary"@ != "default_verbosity"@,
        "default_reasoning_summary"@ != "apply_patch_tool_type"@,
        "default_reasoning_summary"@ != "web_search_tool_type"@,
        "default_reasoning_summary"@ != "experimental_supported_tools"@,
        "default_reasoning_summary"@ != "supports_parallel_tool_calls"@,
        "default_reasoning_summary"@ != "supports_image_detail_original"@,
        "default_reasoning_summary"@ != "effective_context_window_percent"@,
        "default_reasoning_summary"@ != "input_modalities"@,
        "default_reasoning_summary"@ != "supports_search_tool"@,
        "default_reasoning_summary"@ != "use_responses_lite"@,
        "default_reasoning_summary"@ != "truncation_policy"@,
        "support_verbosity"@ != "default_verbosity"@,
        "support_verbosity"@ != "apply_patch_tool_type"@,
        "support_verbosity"@ != "web_search_tool_type"@,
        "support_verbosity"@ != "experimental_supported_tools"@,
        "support_verbosity"@ != "supports_parallel_tool_calls"@,
        "support_verbosity"@ != "supports_image_detail_original"@,
        "support_verbosity"@ != "effective_context_window_percent"@,
        "support_verbosity"@ != "input_modalities"@,
        "support_verbosity"@ != "supports_search_tool"@,
        "support_verbosity"@ != "use_responses_lite"@,
        "support_verbosity"@ != "truncation_policy"@,
        "default_verbosity"@ != "apply_patch_tool_type"@,
        "default_verbosity"@ != "web_search_tool_type"@,
        "default_verbosity"@ != "experimental_supported_tools"@,
        "default_verbosity"@ != "supports_parallel_tool_calls"@,
        "default_verbosity"@ != "supports_image_detail_original"@,
        "default_verbosity"@ != "effective_context_window_percent"@,
        "default_verbosity"@ != "input_modalities"@,
        "default_verbosity"@ != "supports_search_tool"@,
        "default_verbosity"@ != "use_responses_lite"@,
        "default_verbosity"@ != "truncation_policy"@,
        "apply_patch_tool_type"@ != "web_search_tool_type"@,
        "apply_patch_tool_type"@ != "experimental_supported_tools"@,
        "apply_patch_tool_type"@ != "supports_parallel_tool_calls"@,
        "apply_patch_tool_type"@ != "supports_image_detail_original"@,
        "apply_patch_tool_type"@ != "effective_context_window_percent"@,
        "apply_patch_tool_type"@ != "input_modalities"@,
        "apply_patch_tool_type"@ != "supports_search_tool"@,
        "apply_patch_tool_type"@ != "use_responses_lite"@,
        "apply_patch_tool_type"@ != "truncation_policy"@,
        "web_search_tool_type"@ != "experimental_supported_tools"@,
        "web_search_tool_type"@ != "supports_parallel_tool_calls"@,
        "web_search_tool_type"@ != "supports_image_detail_original"@,
        "web_search_tool_type"@ != "effective_context_window_percent"@,
        "web_search_tool_type"@ != "input_modalities"@,
        "web_search_tool_type"@ != "supports_search_tool"@,
        "web_search_tool_type"@ != "use_responses_lite"@,
        "web_search_tool_type"@ != "truncation_policy"@,
        "experimental_supported_tools"@ != "supports_parallel_tool_calls"@,
        "experimental_supported_tools"@ != "supports_image_detail_original"@,
        "experimental_supported_tools"@ != "effective_context_window_percent"@,
        "experimental_supported_tools"@ != "input_modalities"@,
        "experimental_supported_tools"@ != "supports_search_tool"@,
        "experimental_supported_tools"@ != "use_responses_lite"@,
        "experimental_supported_tools"@ != "truncation_policy"@,
        "supports_parallel_tool_calls"@ != "supports_image_detail_original"@,
        "supports_parallel_tool_calls"@ != "effective_context_window_percent"@,
        "supports_parallel_tool_calls"@ != "input_modalities"@,
        "supports_parallel_tool_calls"@ != "supports_search_tool"@,
        "supports_parallel_tool_calls"@ != "use_responses_lite"@,
        "supports_parallel_tool_calls"@ != "truncation_policy"@,
        "supports_image_detail_original"@ != "effective_context_window_percent"@,
        "supports_image_detail_original"@ != "input_modalities"@,
        "supports_image_detail_original"@ != "supports_search_tool"@,
        "supports_image_detail_original"@ != "use_responses_lite"@,
        "supports_image_detail_original"@ != "truncation_policy"@,
        "effective_context_window_percent"@ != "input_modalities"@,
        "effective_context_window_percent"@ != "supports_search_tool"@,
        "effective_context_window_percent"@ != "use_responses_lite"@,
        "effective_context_window_percent"@ != "truncation_policy"@,
        "input_modalities"@ != "supports_search_tool"@,
        "input_modalities"@ != "use_responses_lite"@,
        "input_modalities"@ != "truncation_policy"@,
        "supports_search_tool"@ != "use_responses_lite"@,
        "supports_search_tool"@ != "truncation_policy"@,
        "use_responses_lite"@ != "truncation_policy"@,
{
    reveal_strlit("slug");
    reveal_strlit("display_name");
    reveal_strlit("description");
    reveal_strlit("context_window");
    reveal_strlit("max_context_window");
    reveal_strlit("auto_compact_token_limit");
    reveal_strlit("default_reasoning_level");
    reveal_strlit("supported_reasoning_levels");
    reveal_strlit("shell_type");
    reveal_strlit("visibility");
    reveal_strlit("supported_in_api");
    reveal_strlit("priority");
    reveal_strlit("additional_speed_tiers");
    reveal_strlit("service_tiers");
    reveal_strlit("base_instructions");
    reveal_strlit("supports_reasoning_summaries");
    reveal_strlit("default_reasoning_summary");
    reveal_strlit("support_verbosity");
    reveal_strlit("default_verbosity");
    reveal_strlit("apply_patch_tool_type");
    reveal_strlit("web_search_tool_type");
    reveal_strlit("experimental_supported_tools");
    reveal_strlit("supports_parallel_tool_calls");
    reveal_strlit("supports_image_detail_original");
    reveal_strlit("effective_context_window_percent");
    reveal_strlit("input_modalities");
    reveal_strlit("supports_search_tool");
    reveal_strlit("use_responses_lite");
    reveal_strlit("truncation_policy");
    assert("slug"@.len() == 4);
    assert("display_name"@.len() == 12);
    assert("description"@.len() == 11);
    assert("context_window"@.len() == 14);
    assert("max_context_window"@.len() == 18);
    assert("auto_compact_token_limit"@.len() == 24);
    assert("default_reasoning_level"@.len() == 23);
    assert("supported_reasoning_levels"@.len() == 26);
    assert("shell_type"@.len() == 10);
    assert("visibility"@.len() == 10);
    assert("supported_in_api"@.len() == 16);
    assert("priority"@.len() == 8);
    assert("additional_speed_tiers"@.len() == 22);
    assert("service_tiers"@.len() == 13);
    assert("base_instructions"@.len() == 17);
    assert("supports_reasoning_summaries"@.len() == 28);
    assert("default_reasoning_summary"@.len() == 25);
    assert("support_verbosity"@.len() == 17);
    assert("default_verbosity"@.len() == 17);
    assert("apply_patch_tool_type"@.len() == 21);
    assert("web_search_tool_type"@.len() == 20);
    assert("experimental_supported_tools"@.len() == 28);
    assert("supports_parallel_tool_calls"@.len() == 28);
    assert("supports_image_detail_original"@.len() == 30);
    assert("effective_context_window_percent"@.len() == 32);
    assert("input_modalities"@.len() == 16);
    assert("supports_search_tool"@.len() == 20);
    assert("use_responses_lite"@.len() == 18);
    assert("truncation_policy"@.len() == 17);
    assert("max_context_window"@[0] != "use_responses_lite"@[0]);
    assert("shell_type"@[0] != "visibility"@[0]);
    assert("supported_in_api"@[0] != "input_modalities"@[0]);
    assert("base_instructions"@[0] != "support_verbosity"@[0]);
    assert("base_instructions"@[0] != "default_verbosity"@[0]);
    assert("base_instructions"@[0] != "truncation_policy"@[0]);
    assert("supports_reasoning_summaries"@[0] != "experimental_supported_tools"@[0]);
    assert("supports_reasoning_summaries"@[9] != "supports_parallel_tool_calls"@[9]);
    assert("support_verbosity"@[0] != "default_verbosity"@[0]);
    assert("support_verbosity"@[0] != "truncation_policy"@[0]);
    assert("default_verbosity"@[0] != "truncation_policy"@[0]);
    assert("web_search_tool_type"@[0] != "supports_search_tool"@[0]);
    assert("experimental_supported_tools"@[0] != "supports_parallel_tool_calls"@[0]);
}

/// The words of a report are all different.
proof fn lemma_report_words()
    ensures
        "task_name"@ != "model"@,
        "task_name"@ != "provider"@,
        "task_name"@ != "exit_code"@,
        "task_name"@ != "turns"@,
        "task_name"@ != "tool_calls"@,
        "task_name"@ != "final_message"@,
        "task_name"@ != "stderr_tail"@,
        "model"@ != "provider"@,
        "model"@ != "exit_code"@,
        "model"@ != "turns"@,
        "model"@ != "tool_calls"@,
        "model"@ != "final_message"@,
        "model"@ != "stderr_tail"@,
        "provider"@ != "exit_code"@,
        "provider"@ != "turns"@,
        "provider"@ != "tool_calls"@,
        "provider"@ != "final_message"@,
        "provider"@ != "stderr_tail"@,
        "exit_code"@ != "turns"@,
        "exit_code"@ != "tool_calls"@,
        "exit_code"@ != "final_message"@,
        "exit_code"@ != "stderr_tail"@,
        "turns"@ != "tool_calls"@,
        "turns"@ != "final_message"@,
        "turns"@ != "stderr_tail"@,
        "tool_calls"@ != "final_message"@,
        "tool_calls"@ != "stderr_tail"@,
        "final_message"@ != "stderr_tail"@,
{
    reveal_strlit("task_name");
    reveal_strlit("model");
    reveal_strlit("provider");
    reveal_strlit("exit_code");
    reveal_strlit("turns");
    reveal_strlit("tool_calls");
    reveal_strlit("final_message");
    reveal_strlit("stderr_tail");
    assert("task_name"@.len() == 9);
    assert("model"@.len() == 5);
    assert("provider"@.len() == 8);
    assert("exit_code"@.len() == 9);
    assert("turns"@.len() == 5);
    assert("tool_calls"@.len() == 10);
    assert("final_message"@.len() == 13);
    assert("stderr_tail"@.len() == 11);
    assert("task_name"@[0] != "exit_code"@[0]);
    assert("model"@[0] != "turns"@[0]);
}

/// The kinds of items and events are all different.
proof fn lemma_kind_words()
    ensures
        "message"@ != "function_call"@,
        "message"@ != "reasoning"@,
        "message"@ != "OutputItemDone"@,
        "message"@ != "TurnComplete"@,
        "message"@ != "TurnStarted"@,
        "message"@ != "unknown"@,
        "function_call"@ != "reasoning"@,
        "function_call"@ != "OutputItemDone"@,
        "function_call"@ != "TurnComplete"@,
        "function_call"@ != "TurnStarted"@,
        "function_call"@ != "unknown"@,
        "reasoning"@ != "OutputItemDone"@,
        "reasoning"@ != "TurnComplete"@,
        "reasoning"@ != "TurnStarted"@,
        "reasoning"@ != "unknown"@,
        "OutputItemDone"@ != "TurnComplete"@,
        "OutputItemDone"@ != "TurnStarted"@,
        "OutputItemDone"@ != "unknown"@,
        "TurnComplete"@ != "TurnStarted"@,
        "TurnComplete"@ != "unknown"@,
        "TurnStarted"@ != "unknown"@,
{
    reveal_strlit("message");
    reveal_strlit("function_call");
    reveal_strlit("reasoning");
    reveal_strlit("OutputItemDone");
    reveal_strlit("TurnComplete");
    reveal_strlit("TurnStarted");
    reveal_strlit("unknown");
    assert("message"@.len() == 7);
    assert("function_call"@.len() == 13);
    assert("reasoning"@.len() == 9);
    assert("OutputItemDone"@.len() == 14);
    assert("TurnComplete"@.len() == 12);
    assert("TurnStarted"@.len() == 11);
    assert("unknown"@.len() == 7);
    assert("message"@[0] != "unknown"@[0]);
}

// ── providers and models ──────────────────────────────────────────────

/// A provider is found under its name, the first of that name, and under no other.
pub proof fn law_providers_are_found_by_name(
    providers: Seq<(String, ProviderConfig)>,
    name: Seq<char>,
    i: int,
)
    requires
        0 <= i <= providers.len(),
        forall|k: int| 0 <= k < i ==> (#[trigger] providers[k]).0@ != name,
        i < providers.len() ==> providers[i].0@ == name,
    ensures
        provider_named(providers, name) == if i < providers.len() {
            Some(providers[i].1)
        } else {
            None
        },
    decreases i,
{
    if i > 0 {
        assert(providers[0].0@ != name);
        let rest = providers.drop_first();
        assert forall|k: int| 0 <= k < i - 1 implies (#[trigger] rest[k]).0@ != name by {
            assert(rest[k] == providers[k + 1]);
        }
        law_providers_are_found_by_name(rest, name, i - 1);
    }
}

/// A model is found under its slug, the first of that slug, and under no other.
pub proof fn law_models_are_found_by_slug(models: Seq<ModelConfig>, slug: Seq<char>, i: int)
    requires
        0 <= i <= models.len(),
        forall|k: int| 0 <= k < i ==> (#[trigger] models[k]).slug@ != slug,
        i < models.len() ==> models[i].slug@ == slug,
    ensures
        model_named(models, slug) == if i < models.len() {
            Some(models[i])
        } else {
            None
        },
    decreases i,
{
    if i > 0 {
        assert(models[0].slug@ != slug);
        let rest = models.drop_first();
        assert forall|k: int| 0 <= k < i - 1 implies (#[trigger] rest[k]).slug@ != slug by {
            assert(rest[k] == models[k + 1]);
        }
        law_models_are_found_by_slug(rest, slug, i - 1);
    }
}

/// A selection is the provider of that name and its model of that slug, or its first model where
/// none was named. It fails where there is no such provider, and where the provider has no such
/// model, and says which.
pub proof fn law_selections_are_what_was_asked_for(
    config: SpawnerConfig,
    provider: Seq<char>,
    model: Option<Seq<char>>,
)
    ensures
        ({
            let p = provider_named(config.providers@, provider);
            let slug = match model {
                Some(m) => m,
                None => if p->Some_0.models@.len() > 0 {
                    p->Some_0.models@[0].slug@
                } else {
                    "unknown"@
                },
            };
            match p {
                None => selected(config, provider, model) == Err::<
                    (ProviderConfig, ModelConfig),
                    Seq<char>,
                >("provider '"@ + provider + "' not in mcp-spawner.toml"@),
                Some(found) => match model_named(found.models@, slug) {
                    Some(m) => selected(config, provider, model) == Ok::<
                        (ProviderConfig, ModelConfig),
                        Seq<char>,
                    >((found, m)),
                    None => selected(config, provider, model) == Err::<
                        (ProviderConfig, ModelConfig),
                        Seq<char>,
                    >("model '"@ + slug + "' not in provider '"@ + provider + "'"@),
                },
            }
        }),
{
}

// ── plans ─────────────────────────────────────────────────────────────

/// A plan keeps to its arguments: the run may take as long as they say, and ten minutes where they
/// say nothing; its model is the one they name, or else the provider's first; and it talks to the
/// provider's daemon, with the context window of that model.
pub proof fn law_plans_keep_to_the_arguments(plan: Plan, args: SpawnArgs, config: SpawnerConfig)
    requires
        selected(config, args.provider@, opt_string(args.model)) is Ok,
        is_plan(
            plan,
            args,
            selected(config, args.provider@, opt_string(args.model))->Ok_0,
        ),
    ensures
        args.timeout_sec matches Some(n) ==> plan.timeout_sec == n,
        args.timeout_sec is None ==> plan.timeout_sec == 600,
        args.model matches Some(model) ==> plan.model_slug@ == model@,
        ({
            let found = selected(config, args.provider@, opt_string(args.model))->Ok_0;
            &&& provider_named(config.providers@, args.provider@) == Some(found.0)
            &&& found.0.models@.contains(found.1)
            &&& plan.model_slug@ == found.1.slug@
            &&& args.model is None ==> found.0.models@.len() > 0 && plan.model_slug@
                == found.0.models@[0].slug@
            &&& plan.context_window == found.1.context_window
            &&& plan.proxy_url@ == found.0.proxy_url@
        }),
{
    let found = selected(config, args.provider@, opt_string(args.model))->Ok_0;
    lemma_model_named(found.0.models@, wanted_model(opt_string(args.model), found.0.models@));
}

/// A daemon serves the provider that the command line names: it talks to that provider's base URL
/// with its key, under the model that was named or else its first.
pub proof fn law_daemons_serve_what_was_asked_for(
    cfg: ProxyConfig,
    args: ProxyArgs,
    provider: ProviderConfig,
)
    requires
        is_daemon(cfg, args, provider),
    ensures
        cfg.provider_name@ == args.provider@,
        cfg.upstream_base@ == provider.base_url@,
        cfg.api_key@ == provider.api_key@,
        args.model matches Some(model) ==> cfg.model_slug@ == model@,
        args.model is None && provider.models@.len() > 0 ==> cfg.model_slug@
            == provider.models@[0].slug@,
{
}

// ── the proxy command ─────────────────────────────────────────────────

/// The daemon listens at its own place unless it is told another, and needs to be told its
/// provider.
pub proof fn law_commands_need_a_provider(
    program: Seq<char>,
    command: Seq<char>,
    provider: Seq<char>,
)
    ensures
        proxy_args(seq![program, command]) == Err::<ProxyArgsView, Seq<char>>(
            "missing --provider"@,
        ),
        proxy_args(seq![program, command, "--provider"@, provider]) == Ok::<
            ProxyArgsView,
            Seq<char>,
        >(ProxyArgsView { provider, listen: "127.0.0.1:15722"@, model: None }),
{
    reveal_with_fuel(read_flags, 3);
}

proof fn lemma_read_bad_flag(
    args: Seq<Seq<char>>,
    i: int,
    flags: FlagsView,
    last: Seq<char>,
)
    requires
        read_flags(args, i, flags) is Ok,
        0 <= i <= args.len(),
    ensures
        read_flags(args.push(last), i, flags) == Err::<FlagsView, Seq<char>>(
            if is_flag(last) {
                "missing value for "@ + last
            } else {
                "unknown proxy argument: "@ + last
            },
        ),
    decreases args.len() - i,
{
    let longer = args.push(last);
    if i < args.len() {
        assert(longer[i] == args[i] && longer[i + 1] == args[i + 1]);
        lemma_read_bad_flag(
            args,
            i + 2,
            with_flag(flags, args[i], args[i + 1]),
            last,
        );
    } else {
        assert(longer[i] == last);
    }
}

/// A flag without a value and an argument that is no flag are turned away, and named.
pub proof fn law_bad_commands_are_turned_away(args: Seq<Seq<char>>, last: Seq<char>)
    requires
        proxy_args(args) is Ok,
        args.len() >= 2,
    ensures
        last == "--provider"@ || last == "--listen"@ || last == "--model"@ ==> proxy_args(
            args.push(last),
        ) == Err::<ProxyArgsView, Seq<char>>("missing value for "@ + last),
        last != "--provider"@ && last != "--listen"@ && last != "--model"@ ==> proxy_args(
            args.push(last),
        ) == Err::<ProxyArgsView, Seq<char>>("unknown proxy argument: "@ + last),
{
    lemma_read_bad_flag(args, 2, no_flags(), last);
}

// ── the command line ──────────────────────────────────────────────────

/// A word of a command line.
pub open spec fn word(s: Seq<char>) -> CodexArgView {
    CodexArgView::Word(s)
}

/// The subagent is run once, in a sandbox in which it may write to its workspace, and tells what it
/// does as JSON. It is told its model and its directory where there is one, and where to leave its
/// last word. Nothing else is told it.
pub proof fn law_subagents_are_told_what_they_need(
    model: Option<Seq<char>>,
    cwd: Option<Seq<char>>,
)
    ensures
        ({
            let line = command_line(model, cwd);
            let m: int = if model is Some {
                2
            } else {
                0
            };
            let c: int = if cwd is Some {
                2
            } else {
                0
            };
            &&& line.len() == 7 + m + c
            &&& line[0] == word("exec"@)
            &&& line.contains(word("--skip-git-repo-check"@))
            &&& line.contains(word("--json"@))
            &&& line[3] == word("--sandbox"@) && line[4] == word("workspace-write"@)
            &&& model matches Some(slug) ==> line[5] == word("-m"@) && line[6] == word(slug)
            &&& line[5 + m] == word("-o"@) && line[6 + m] == CodexArgView::OutputPath
            &&& cwd matches Some(dir) ==> line[7 + m] == word("-C"@) && line[8 + m] == word(dir)
        }),
{
    let line = command_line(model, cwd);
    assert(line[1] == word("--skip-git-repo-check"@));
    assert(line[2] == word("--json"@));
}

// ── files ─────────────────────────────────────────────────────────────

/// A line of a configuration file that sets a key to a text.
pub open spec fn text_line(key: Seq<char>, value: Seq<char>) -> Seq<char> {
    key + " = \""@ + value + "\"\n"@
}

/// The configuration of a subagent names its model and its size, its catalog, and the daemon that
/// serves it as its one provider.
pub proof fn law_configurations_point_at_the_daemon(
    provider_name: Seq<char>,
    model_slug: Seq<char>,
    context_window: int,
    proxy_base_url: Seq<char>,
)
    ensures
        config_text(provider_name, model_slug, context_window, proxy_base_url) == text_line(
            "model_provider"@,
            "custom"@,
        ) + text_line("model"@, model_slug) + ("model_context_window = "@ + signed_decimal(
            context_window,
        ) + "\n"@) + text_line("model_catalog_json"@, "model-catalog.json"@)
            + "\n[model_providers.custom]\n"@ + text_line("name"@, provider_name) + text_line(
            "base_url"@,
            proxy_base_url,
        ) + text_line("wire_api"@, "responses"@),
{
    reveal_strlit("model_provider = \"custom\"\nmodel = \"");
    reveal_strlit("\"\nmodel_context_window = ");
    reveal_strlit(
        "\nmodel_catalog_json = \"model-catalog.json\"\n\n[model_providers.custom]\nname = \"",
    );
    reveal_strlit("\"\nbase_url = \"");
    reveal_strlit("\"\nwire_api = \"responses\"\n");
    reveal_strlit("model_provider");
    reveal_strlit("custom");
    reveal_strlit("model");
    reveal_strlit("model_context_window = ");
    reveal_strlit("\n");
    reveal_strlit("model_catalog_json");
    reveal_strlit("model-catalog.json");
    reveal_strlit("\n[model_providers.custom]\n");
    reveal_strlit("name");
    reveal_strlit("base_url");
    reveal_strlit("wire_api");
    reveal_strlit("responses");
    reveal_strlit(" = \"");
    reveal_strlit("\"\n");
    let close = "\"\n"@;
    assert("model_provider = \"custom\"\nmodel = \""@ =~= text_line("model_provider"@, "custom"@)
        + ("model"@ + " = \""@));
    assert("\"\nmodel_context_window = "@ =~= close + "model_context_window = "@);
    assert("\nmodel_catalog_json = \"model-catalog.json\"\n\n[model_providers.custom]\nname = \""@
        =~= "\n"@ + text_line("model_catalog_json"@, "model-catalog.json"@)
        + "\n[model_providers.custom]\n"@ + ("name"@ + " = \""@));
    assert("\"\nbase_url = \""@ =~= close + ("base_url"@ + " = \""@));
    assert("\"\nwire_api = \"responses\"\n"@ =~= close + text_line("wire_api"@, "responses"@));
    assert(config_text(provider_name, model_slug, context_window, proxy_base_url) =~= text_line(
        "model_provider"@,
        "custom"@,
    ) + text_line("model"@, model_slug) + ("model_context_window = "@ + signed_decimal(
        context_window,
    ) + "\n"@) + text_line("model_catalog_json"@, "model-catalog.json"@)
        + "\n[model_providers.custom]\n"@ + text_line("name"@, provider_name) + text_line(
        "base_url"@,
        proxy_base_url,
    ) + text_line("wire_api"@, "responses"@));
}

/// A number is written with a sign only where it is negative.
pub proof fn law_numbers_have_their_sign(i: int)
    ensures
        i >= 0 ==> signed_decimal(i) == decimal(i as nat),
        i < 0 ==> signed_decimal(i) == seq!['-'] + decimal((-i) as nat),
{
}

/// The catalog of a subagent holds its one model, with the context window it has, and what Codex is
/// to make of it.
pub proof fn law_catalogs_hold_the_one_model(model_slug: Seq<char>, context_window: int)
    ensures
        ({
            let models = catalog(model_slug, context_window).items("models"@);
            let entry = models[0];
            let levels = entry.items("supported_reasoning_levels"@);
            &&& models.len() == 1
            &&& entry.text("slug"@) == Some(model_slug)
            &&& entry.text("display_name"@) == Some(model_slug)
            &&& entry.text("description"@) == Some(model_slug + " via codex-mcp-spawner"@)
            &&& entry.get("context_window"@) == Some(JsonView::Int(context_window))
            &&& entry.get("max_context_window"@) == Some(JsonView::Int(context_window))
            &&& entry.get("auto_compact_token_limit"@) == Some(JsonView::Null)
            &&& entry.text("default_reasoning_level"@) == Some("medium"@)
            &&& levels.len() == 3
            &&& levels[0].text("effort"@) == Some("low"@)
            &&& levels[1].text("effort"@) == Some("medium"@)
            &&& levels[2].text("effort"@) == Some("high"@)
            &&& entry.text("shell_type"@) == Some("shell_command"@)
            &&& entry.text("visibility"@) == Some("list"@)
            &&& entry.get("supported_in_api"@) == Some(JsonView::Bool(true))
            &&& entry.get("priority"@) == Some(JsonView::Int(1))
            &&& entry.get("additional_speed_tiers"@) == Some(
                JsonView::Array(Seq::<JsonView>::empty()),
            )
            &&& entry.get("service_tiers"@) == Some(JsonView::Array(Seq::<JsonView>::empty()))
            &&& entry.text("base_instructions"@) == Some(Seq::<char>::empty())
            &&& entry.get("supports_reasoning_summaries"@) == Some(JsonView::Bool(false))
            &&& entry.text("default_reasoning_summary"@) == Some("none"@)
            &&& entry.get("support_verbosity"@) == Some(JsonView::Bool(false))
            &&& entry.get("default_verbosity"@) == Some(JsonView::Null)
            &&& entry.text("apply_patch_tool_type"@) == Some("freeform"@)
            &&& entry.text("web_search_tool_type"@) == Some("text_and_image"@)
            &&& entry.get("experimental_supported_tools"@) == Some(
                JsonView::Array(Seq::<JsonView>::empty()),
            )
            &&& entry.get("supports_parallel_tool_calls"@) == Some(JsonView::Bool(true))
            &&& entry.get("supports_image_detail_original"@) == Some(JsonView::Bool(false))
            &&& entry.get("effective_context_window_percent"@) == Some(JsonView::Int(95))
            &&& entry.get("input_modalities"@) == Some(
                JsonView::Array(seq![JsonView::Text("text"@)]),
            )
            &&& entry.get("supports_search_tool"@) == Some(JsonView::Bool(false))
            &&& entry.get("use_responses_lite"@) == Some(JsonView::Bool(false))
            &&& entry.member("truncation_policy"@).text("mode"@) == Some("bytes"@)
            &&& entry.member("truncation_policy"@).get("limit"@) == Some(JsonView::Int(10000))
        }),
{
    lemma_catalog_words();
    reveal_strlit("effort");
    reveal_strlit("description");
    reveal_strlit("mode");
    reveal_strlit("limit");
    assert("effort"@.len() == 6 && "description"@.len() == 11 && "mode"@.len() == 4);
    assert("limit"@.len() == 5);
    let head = catalog_head(model_slug, context_window);
    let entry = catalog_entry(head);
    assert(head is Object);
    assert(catalog(model_slug, context_window).items("models"@) =~= seq![entry]);
    assert(head.get("supported_reasoning_levels"@) == Some(reasoning_levels()));
    assert(entry.get("supported_reasoning_levels"@) == Some(reasoning_levels()));
    let policy = empty_object().with_text("mode"@, "bytes"@).with("limit"@, JsonView::Int(10000));
    assert(entry.get("truncation_policy"@) == Some(policy));
}

/// A name for a file keeps its letters, digits, hyphens and underscores, and has an underscore for
/// everything else.
pub proof fn law_file_names_are_safe(s: Seq<char>, i: int)
    requires
        0 <= i < s.len(),
    ensures
        sanitized(s).len() == s.len(),
        char_alphanumeric(s[i]) || s[i] == '-' || s[i] == '_' ==> sanitized(s)[i] == s[i],
        !char_alphanumeric(s[i]) && s[i] != '-' && s[i] != '_' ==> sanitized(s)[i] == '_',
{
}

// ── reports ───────────────────────────────────────────────────────────

proof fn lemma_turns_in(events: Seq<AgentEventView>)
    ensures
        turns_in(events) == events.filter(
            |e: AgentEventView| e.event_type == "TurnComplete"@,
        ).len(),
    decreases events.len(),
{
    reveal(Seq::filter);
    if events.len() > 0 {
        lemma_turns_in(events.drop_last());
    }
}

/// The items that were finished and can be told in a few words.
pub open spec fn told_items(events: Seq<AgentEventView>) -> Seq<AgentEventView> {
    events.filter(
        |e: AgentEventView| e.event_type == "OutputItemDone"@ && e.brief is Some,
    )
}

proof fn lemma_briefs_in(events: Seq<AgentEventView>)
    ensures
        briefs_in(events) == told_items(events).map_values(
            |e: AgentEventView| JsonView::Text(e.brief->Some_0),
        ),
    decreases events.len(),
{
    reveal(Seq::filter);
    if events.len() > 0 {
        lemma_briefs_in(events.drop_last());
    }
    assert(briefs_in(events) =~= told_items(events).map_values(
        |e: AgentEventView| JsonView::Text(e.brief->Some_0),
    ));
}

/// A report says whose run it was, how it ended, how many turns it took, what was done in them, in
/// order, and the subagent's last word, which is empty where there is none. Where a run failed
/// without a word, the end of its error output is there, and only there.
pub proof fn law_reports_say_how_it_went(outcome: Outcome, stderr: Seq<char>)
    ensures
        ({
            let r = report(outcome, stderr);
            let events = event_views(outcome.events@);
            let silent = match outcome.final_output {
                Some(text) => trimmed(text@).len() == 0,
                None => true,
            };
            &&& r.text("task_name"@) == Some(outcome.task_name@)
            &&& r.text("provider"@) == Some(outcome.provider@)
            &&& r.text("model"@) == Some(
                match outcome.model {
                    Some(model) => model@,
                    None => "inherited"@,
                },
            )
            &&& r.get("exit_code"@) == Some(
                match outcome.exit_code {
                    Some(code) => JsonView::Int(code as int),
                    None => JsonView::Null,
                },
            )
            &&& r.get("turns"@) == Some(
                JsonView::Int(
                    events.filter(
                        |e: AgentEventView| e.event_type == "TurnComplete"@,
                    ).len() as int,
                ),
            )
            &&& r.items("tool_calls"@) == told_items(events).map_values(
                |e: AgentEventView| JsonView::Text(e.brief->Some_0),
            )
            &&& outcome.final_output matches Some(text) ==> r.text("final_message"@) == Some(
                trimmed(text@),
            )
            &&& outcome.final_output is None ==> r.text("final_message"@) == Some(
                Seq::<char>::empty(),
            )
            &&& silent && !outcome.success && trimmed(stderr).len() > 0 ==> r.text("stderr_tail"@)
                == Some(last_part(trimmed(stderr), 500))
            &&& !silent || outcome.success || trimmed(stderr).len() == 0 ==> r.get(
                "stderr_tail"@,
            ) is None
        }),
{
    lemma_report_words();
    let events = event_views(outcome.events@);
    lemma_turns_in(events);
    lemma_briefs_in(events);
    let r = report(outcome, stderr);
    assert(r.get("tool_calls"@) == Some(JsonView::Array(briefs_in(events))));
}

/// What a subagent reports on the way is told in a few words: a message by its first line, a call
/// by the name of its tool, anything else by its kind; and turns by whether they begin or end.
pub proof fn law_events_are_told_in_a_few_words(value: JsonView)
    ensures
        ({
            let event = event_in(value);
            let item = value.member("item"@);
            let kind = item.text("type"@);
            &&& event.event_type == (match value.text("type"@) {
                Some(kind) => kind,
                None => "unknown"@,
            })
            &&& value.text("type"@) == Some("TurnComplete"@) ==> event.brief == Some(
                "turn finished"@,
            )
            &&& value.text("type"@) == Some("TurnStarted"@) ==> event.brief == Some("turn started"@)
            &&& value.text("type"@) == Some("OutputItemDone"@) ==> {
                &&& kind is None ==> event.brief is None
                &&& kind == Some("reasoning"@) ==> event.brief == Some("[reasoning]"@)
                &&& kind == Some("function_call"@) ==> event.brief == (match item.text("name"@) {
                    Some(name) => Some("[tool] "@ + name),
                    None => None,
                })
                &&& kind == Some("message"@) ==> event.brief == (if item.items("content"@).len() > 0
                    && item.items("content"@)[0].text("text"@) is Some {
                    Some(clipped_line(item.items("content"@)[0].text("text"@)->Some_0, 80))
                } else {
                    None
                })
                &&& kind is Some && kind != Some("reasoning"@) && kind != Some("function_call"@)
                    && kind != Some("message"@) ==> event.brief == Some("["@ + kind->Some_0 + "]"@)
            }
            &&& value.text("type"@) != Some("TurnComplete"@) && value.text("type"@) != Some(
                "TurnStarted"@,
            ) && value.text("type"@) != Some("OutputItemDone"@) ==> event.brief is None
        }),
{
    lemma_kind_words();
}

/// Every line of output that is JSON reports an event, in order, and no other line does.
pub proof fn law_lines_report_events(rows: Seq<Seq<char>>, row: Seq<char>)
    ensures
        events_in(Seq::empty()) == Seq::<AgentEventView>::empty(),
        json_parse(row) is Ok ==> events_in(rows.push(row)) == events_in(rows).push(
            event_in(json_parse(row)->Ok_0),
        ),
        json_parse(row) is Err ==> events_in(rows.push(row)) == events_in(rows),
{
    assert(rows.push(row).drop_last() =~= rows);
}

/// A text of one line that is not too long is told as it is; of a longer text the beginning is
/// told, and of several lines the first.
pub proof fn law_long_texts_are_clipped(line: Seq<char>, rest: Seq<char>, max: nat)
    requires
        forall|i: int| 0 <= i < line.len() ==> line[i] != '\n' && line[i] != '\r',
        line.len() > 0,
    ensures
        byte_len(line) <= max ==> clipped_line(line, max) == line && clipped_line(
            line + seq!['\n'] + rest,
            max,
        ) == line,
        byte_len(line) > max ==> clipped_line(line, max).last() == '…' && clipped_line(
            line,
            max,
        ).drop_last().is_prefix_of(line),
{
    let text = line + seq!['\n'] + rest;
    lemma_newline_from(text, line.len() as int, 0);
    assert(text.take(line.len() as int) =~= line);
    lemma_no_newline(line);
    assert(lines_of(line) == seq![line]);
    assert(lines_of(text)[0] == line);
    if byte_len(line) > max {
        reveal_strlit("…");
        let shown = clipped_line(line, max);
        lemma_fitting(line, max);
        let k = shown.len() - 1;
        assert(shown.drop_last() =~= line.take(k));
    }
}

proof fn lemma_fitting(line: Seq<char>, max: nat)
    ensures
        fitting_prefix(line, max) <= line.len(),
{
    lemma_fitting_prefix(line, max);
}

proof fn lemma_newline_from(s: Seq<char>, k: int, from: int)
    requires
        0 <= from <= k < s.len(),
        s[k] == '\n',
        forall|i: int| from <= i < k ==> s[i] != '\n',
    ensures
        find_from(s, seq!['\n'], from) == Some(k),
    decreases k - from,
{
    let here = s.subrange(from, from + 1);
    assert(here.len() == 1 && here[0] == s[from]);
    if from < k {
        assert(s[from] != '\n');
        assert(here != seq!['\n']) by {
            assert(seq!['\n'][0] == '\n');
        }
        lemma_newline_from(s, k, from + 1);
    } else {
        assert(here =~= seq!['\n']);
    }
}

proof fn lemma_no_newline(s: Seq<char>)
    requires
        forall|i: int| 0 <= i < s.len() ==> s[i] != '\n',
    ensures
        find_from(s, seq!['\n'], 0) is None,
{
    lemma_find_from(s, seq!['\n'], 0);
    if let Some(i) = find_from(s, seq!['\n'], 0) {
        assert(s.subrange(i, i + 1)[0] == s[i]);
    }
}

/// A run that fails is reported under its name, with what went wrong.
pub proof fn law_failures_say_what_went_wrong(
    task_name: Seq<char>,
    error: String,
    seconds: u64,
)
    ensures
        failure(task_name, error@) == "[subagent "@ + task_name + " "@ + error@ + "]"@,
        failure_detail(RunFailure::Setup(error)) == error@,
        failure_detail(RunFailure::Start(error)) == "failed to start: "@ + error@,
        failure_detail(RunFailure::Wait(error)) == "io error: "@ + error@,
        failure_detail(RunFailure::Timeout(seconds)) == "timed out after "@ + decimal(
            seconds as nat,
        ) + "s"@,
{
}

/// What a subagent reports can be told unless it is a message whose first line would have to be cut
/// within a character.
pub proof fn law_most_can_be_told(value: JsonView, text: Seq<char>, max: nat, k: int)
    ensures
        value.text("type"@) != Some("OutputItemDone"@) ==> has_event(value),
        value.member("item"@).text("type"@) != Some("message"@) ==> has_event(value),
        byte_len(first_line(text)) <= max ==> can_clip(text, max),
        0 <= k <= first_line(text).len() && byte_len(first_line(text).take(k)) == max ==> can_clip(
            text,
            max,
        ),
        can_clip(text, max) && byte_len(first_line(text)) > max ==> byte_len(
            clipped_line(text, max).drop_last(),
        ) == max,
        value.text("type"@) == Some("OutputItemDone"@) && value.member("item"@).text("type"@)
            == Some("message"@) && value.member("item"@).items("content"@).len() > 0 && value.member(
            "item"@,
        ).items("content"@)[0].text("text"@) == Some(text) ==> (has_event(value) <==> can_clip(
            text,
            80,
        )),
{
    lemma_kind_words();
    reveal_strlit("…");
    let line = first_line(text);
    lemma_fitting_prefix(line, max);
    let n = fitting_prefix(line, max) as int;
    if byte_len(line) > max {
        assert(clipped_line(text, max).drop_last() =~= line.take(n));
    }
    if 0 <= k <= line.len() && byte_len(line.take(k)) == max && byte_len(line) > max {
        if k > n {
            lemma_byte_len_grows(line, n + 1, k);
        } else {
            lemma_byte_len_grows(line, k, n);
        }
    }
}

proof fn lemma_byte_len_grows(s: Seq<char>, i: int, k: int)
    requires
        0 <= i <= k <= s.len(),
    ensures
        byte_len(s.take(i)) <= byte_len(s.take(k)),
    decreases k - i,
{
    if i < k {
        lemma_byte_len_grows(s, i, k - 1);
        assert(s.take(k) =~= s.take(k - 1).push(s[k - 1]));
        lemma_byte_len_push(s.take(k - 1), s[k - 1]);
    }
}

/// Every line of output is looked at, and one that cannot be told is enough.
pub proof fn law_all_lines_are_looked_at(rows: Seq<Seq<char>>, i: int)
    requires
        0 <= i < rows.len(),
        json_parse(rows[i]) is Ok,
        !has_event(json_parse(rows[i])->Ok_0),
    ensures
        !all_extractable(rows),
{
}

/// Where every line can be told, all can.
pub proof fn law_lines_that_can_be_told(rows: Seq<Seq<char>>)
    requires
        forall|i: int|
            0 <= i < rows.len() ==> (json_parse(#[trigger] rows[i]) is Ok ==> has_event(
                json_parse(rows[i])->Ok_0,
            )),
    ensures
        all_extractable(rows),
{
}

/// A level of reasoning has its name and a word on it.
pub proof fn law_levels_have_a_word(effort: Seq<char>, description: Seq<char>)
    ensures
        reasoning_level(effort, description).text("effort"@) == Some(effort),
        reasoning_level(effort, description).text("description"@) == Some(description),
        reasoning_levels() is Array,
        reasoning_levels()->Array_0.len() == 3,
        reasoning_levels()->Array_0[0].text("description"@) == Some("Fast"@),
        reasoning_levels()->Array_0[1].text("description"@) == Some("Balanced"@),
        reasoning_levels()->Array_0[2].text("description"@) == Some("Deep reasoning"@),
{
    reveal_strlit("effort");
    reveal_strlit("description");
    assert("effort"@.len() == 6 && "description"@.len() == 11);
}

/// An event, a word of a command line and the arguments of the proxy command stand for all that they
/// hold.
pub proof fn law_all_is_there(event: AgentEvent, arg: CodexArg, args: ProxyArgs)
    ensures
        event@.event_type == event.event_type@ && event@.brief == opt_string(event.brief),
        arg matches CodexArg::Word(s) ==> arg@ == CodexArgView::Word(s@),
        arg is OutputPath ==> arg@ == CodexArgView::OutputPath,
        args@.provider == args.provider@ && args@.listen == args.listen@ && args@.model
            == opt_string(args.model),
{
}

/// The file for a subagent's last word is named after its task and its process, and its home after
/// its provider.
pub proof fn law_files_are_named_after_what_they_are_for(
    task_name: Seq<char>,
    process: nat,
    provider_name: Seq<char>,
)
    ensures
        ("codex_subagent_"@ + sanitized(task_name) + "_"@).is_prefix_of(
            output_name(task_name, process),
        ),
        (decimal(process) + ".txt"@).is_suffix_of(output_name(task_name, process)),
        output_name(task_name, process).len() == "codex_subagent_"@.len() + task_name.len()
            + "_"@.len() + decimal(process).len() + ".txt"@.len(),
        "codex-subagent-"@.is_prefix_of(home_name(provider_name)),
        sanitized(provider_name).is_suffix_of(home_name(provider_name)),
        home_name(provider_name).len() == "codex-subagent-"@.len() + provider_name.len(),
{
    let name = output_name(task_name, process);
    let head = "codex_subagent_"@ + sanitized(task_name) + "_"@;
    let tail = decimal(process) + ".txt"@;
    assert(head =~= name.take(head.len() as int));
    assert(tail =~= name.skip(name.len() - tail.len()));
    let home = home_name(provider_name);
    assert("codex-subagent-"@ =~= home.take("codex-subagent-"@.len() as int));
    assert(sanitized(provider_name) =~= home.skip(home.len() - provider_name.len()));
}

/// The directory that the environment names is taken where it is there. Else it is a place under the
/// user's own directory, and under the one for temporary files where the user has none.
pub proof fn law_homes_are_where_they_are_named(
    choice: CodexHome,
    named: Option<Seq<char>>,
    is_there: bool,
    home: Option<Seq<char>>,
)
    requires
        is_home(choice, named, is_there, home),
    ensures
        named matches Some(path) ==> is_there ==> (choice matches CodexHome::At(p) && p@ == path),
        !is_there || named is None ==> choice is Under,
        home matches Some(path) ==> (choice matches CodexHome::Under(p) ==> p@ == path),
        home is None ==> (choice matches CodexHome::Under(p) ==> p@ == "/tmp"@),
{
}

} // verus!
