//! Model metadata and the picker presets that are derived from it.

use vstd::prelude::*;

use crate::text::opt_text;
use crate::text::texts;

verus! {

/// Whether a model is offered in the picker.
#[derive(Clone, Copy, Debug, PartialEq, Eq, Structural)]
pub enum ModelVisibility {
    /// Offered in the picker.
    List,
    /// Usable by name only.
    Hide,
}

/// One reasoning effort that a model supports.
#[derive(Debug, PartialEq, Eq)]
pub struct ReasoningLevel {
    pub effort: String,
    pub description: String,
}

/// How tool output is cut down before it reaches the model.
#[derive(Debug, PartialEq, Eq)]
pub struct TruncationPolicy {
    pub mode: String,
    pub limit: i64,
}

/// Metadata of one model.
#[derive(Debug, PartialEq, Eq)]
pub struct ModelInfo {
    pub slug: String,
    pub display_name: String,
    pub description: Option<String>,
    pub default_reasoning_level: Option<String>,
    pub supported_reasoning_levels: Vec<ReasoningLevel>,
    pub shell_type: String,
    pub visibility: ModelVisibility,
    pub supported_in_api: bool,
    pub priority: i32,
    pub upgrade: Option<String>,
    pub base_instructions: String,
    pub supports_reasoning_summaries: bool,
    pub support_verbosity: bool,
    pub default_verbosity: Option<String>,
    pub apply_patch_tool_type: Option<String>,
    pub truncation_policy: TruncationPolicy,
    pub supports_parallel_tool_calls: bool,
    pub supports_image_detail_original: bool,
    pub context_window: Option<i64>,
    pub experimental_supported_tools: Vec<String>,
    /// Set where the metadata is the generic one for models that the catalog does not know.
    pub used_fallback_model_metadata: bool,
}

/// One entry of the model picker.
#[derive(Debug, PartialEq, Eq)]
pub struct ModelPreset {
    pub model: String,
    pub display_name: String,
    pub description: Option<String>,
    pub default_reasoning_level: Option<String>,
    pub supported_reasoning_levels: Vec<ReasoningLevel>,
    pub show_in_picker: bool,
    pub supported_in_api: bool,
    pub is_default: bool,
}

/// What a [`ReasoningLevel`] holds.
pub ghost struct ReasoningLevelView {
    pub effort: Seq<char>,
    pub description: Seq<char>,
}

/// What a [`ModelInfo`] holds.
pub ghost struct ModelInfoView {
    pub slug: Seq<char>,
    pub display_name: Seq<char>,
    pub description: Option<Seq<char>>,
    pub default_reasoning_level: Option<Seq<char>>,
    pub supported_reasoning_levels: Seq<ReasoningLevelView>,
    pub shell_type: Seq<char>,
    pub visibility: ModelVisibility,
    pub supported_in_api: bool,
    pub priority: i32,
    pub upgrade: Option<Seq<char>>,
    pub base_instructions: Seq<char>,
    pub supports_reasoning_summaries: bool,
    pub support_verbosity: bool,
    pub default_verbosity: Option<Seq<char>>,
    pub apply_patch_tool_type: Option<Seq<char>>,
    pub truncation_mode: Seq<char>,
    pub truncation_limit: i64,
    pub supports_parallel_tool_calls: bool,
    pub supports_image_detail_original: bool,
    pub context_window: Option<i64>,
    pub experimental_supported_tools: Seq<Seq<char>>,
    pub used_fallback_model_metadata: bool,
}

/// What a [`ModelPreset`] holds.
pub ghost struct ModelPresetView {
    pub model: Seq<char>,
    pub display_name: Seq<char>,
    pub description: Option<Seq<char>>,
    pub default_reasoning_level: Option<Seq<char>>,
    pub supported_reasoning_levels: Seq<ReasoningLevelView>,
    pub show_in_picker: bool,
    pub supported_in_api: bool,
    pub is_default: bool,
}

impl View for ReasoningLevel {
    type V = ReasoningLevelView;

    open spec fn view(&self) -> ReasoningLevelView {
        ReasoningLevelView { effort: self.effort@, description: self.description@ }
    }
}

/// The reasoning levels held by a sequence.
pub open spec fn levels(v: Seq<ReasoningLevel>) -> Seq<ReasoningLevelView> {
    v.map_values(|l: ReasoningLevel| l@)
}

impl View for ModelInfo {
    type V = ModelInfoView;

    open spec fn view(&self) -> ModelInfoView {
        ModelInfoView {
            slug: self.slug@,
            display_name: self.display_name@,
            description: opt_text(self.description),
            default_reasoning_level: opt_text(self.default_reasoning_level),
            supported_reasoning_levels: levels(self.supported_reasoning_levels@),
            shell_type: self.shell_type@,
            visibility: self.visibility,
            supported_in_api: self.supported_in_api,
            priority: self.priority,
            upgrade: opt_text(self.upgrade),
            base_instructions: self.base_instructions@,
            supports_reasoning_summaries: self.supports_reasoning_summaries,
            support_verbosity: self.support_verbosity,
            default_verbosity: opt_text(self.default_verbosity),
            apply_patch_tool_type: opt_text(self.apply_patch_tool_type),
            truncation_mode: self.truncation_policy.mode@,
            truncation_limit: self.truncation_policy.limit,
            supports_parallel_tool_calls: self.supports_parallel_tool_calls,
            supports_image_detail_original: self.supports_image_detail_original,
            context_window: self.context_window,
            experimental_supported_tools: texts(self.experimental_supported_tools@),
            used_fallback_model_metadata: self.used_fallback_model_metadata,
        }
    }
}

impl View for ModelPreset {
    type V = ModelPresetView;

    open spec fn view(&self) -> ModelPresetView {
        ModelPresetView {
            model: self.model@,
            display_name: self.display_name@,
            description: opt_text(self.description),
            default_reasoning_level: opt_text(self.default_reasoning_level),
            supported_reasoning_levels: levels(self.supported_reasoning_levels@),
            show_in_picker: self.show_in_picker,
            supported_in_api: self.supported_in_api,
            is_default: self.is_default,
        }
    }
}

/// The metadata held by a sequence of models.
pub open spec fn infos(v: Seq<ModelInfo>) -> Seq<ModelInfoView> {
    v.map_values(|m: ModelInfo| m@)
}

/// The entries held by a sequence of presets.
pub open spec fn presets(v: Seq<ModelPreset>) -> Seq<ModelPresetView> {
    v.map_values(|p: ModelPreset| p@)
}

impl Clone for ReasoningLevel {
    fn clone(&self) -> (r: Self)
        ensures
            r == *self,
    {
        ReasoningLevel { effort: self.effort.clone(), description: self.description.clone() }
    }
}

impl Clone for TruncationPolicy {
    fn clone(&self) -> (r: Self)
        ensures
            r == *self,
    {
        TruncationPolicy { mode: self.mode.clone(), limit: self.limit }
    }
}

impl Clone for ModelInfo {
    fn clone(&self) -> (r: Self)
        ensures
            r@ == self@,
    {
        let r = ModelInfo {
            slug: self.slug.clone(),
            display_name: self.display_name.clone(),
            description: self.description.clone(),
            default_reasoning_level: self.default_reasoning_level.clone(),
            supported_reasoning_levels: self.supported_reasoning_levels.clone(),
            shell_type: self.shell_type.clone(),
            visibility: self.visibility,
            supported_in_api: self.supported_in_api,
            priority: self.priority,
            upgrade: self.upgrade.clone(),
            base_instructions: self.base_instructions.clone(),
            supports_reasoning_summaries: self.supports_reasoning_summaries,
            support_verbosity: self.support_verbosity,
            default_verbosity: self.default_verbosity.clone(),
            apply_patch_tool_type: self.apply_patch_tool_type.clone(),
            truncation_policy: self.truncation_policy.clone(),
            supports_parallel_tool_calls: self.supports_parallel_tool_calls,
            supports_image_detail_original: self.supports_image_detail_original,
            context_window: self.context_window,
            experimental_supported_tools: self.experimental_supported_tools.clone(),
            used_fallback_model_metadata: self.used_fallback_model_metadata,
        };
        proof {
            assert(r.supported_reasoning_levels@ =~= self.supported_reasoning_levels@);
            assert(r.experimental_supported_tools@ =~= self.experimental_supported_tools@);
        }
        r
    }
}

} // verus!
