//! Model listings as servers send them.

use vstd::prelude::*;

use crate::text::ends_with;
use crate::text::lower_text;
use crate::text::only;
use crate::text::opt_text;
use crate::text::same_text;
use crate::text::same_text_ignoring_case;
use crate::text::space;
use crate::text::texts;
use crate::text::trim;
use crate::text::trim_by;
use crate::text::trim_end_by;
use crate::text::trim_end_char;

verus! {

/// One entry of an OpenAI-compatible listing.
#[derive(Debug, PartialEq, Eq)]
pub struct OpenAiCompatModel {
    pub id: String,
    pub model_picker_enabled: Option<bool>,
    pub supported_endpoints: Vec<String>,
}

/// What an [`OpenAiCompatModel`] holds.
pub ghost struct CompatView {
    pub id: Seq<char>,
    pub model_picker_enabled: Option<bool>,
    pub supported_endpoints: Seq<Seq<char>>,
}

impl View for OpenAiCompatModel {
    type V = CompatView;

    open spec fn view(&self) -> CompatView {
        CompatView {
            id: self.id@,
            model_picker_enabled: self.model_picker_enabled,
            supported_endpoints: texts(self.supported_endpoints@),
        }
    }
}

/// The entries held by a sequence.
pub open spec fn compat_entries(v: Seq<OpenAiCompatModel>) -> Seq<CompatView> {
    v.map_values(|m: OpenAiCompatModel| m@)
}

/// Whether `endpoint`, without trailing slashes, ends in `/responses`.
pub open spec fn is_responses_endpoint(endpoint: Seq<char>) -> bool {
    "/responses"@.is_suffix_of(trim_end_by(endpoint, only('/')))
}

/// Whether an entry names no endpoints at all or names the Responses endpoint.
pub open spec fn serves_responses(m: CompatView) -> bool {
    m.supported_endpoints.len() == 0 || exists|i: int|
        0 <= i < m.supported_endpoints.len() && is_responses_endpoint(
            #[trigger] m.supported_endpoints[i],
        )
}

impl OpenAiCompatModel {
    /// Whether the picker may show the model: unless the server says that it may not.
    pub fn is_picker_enabled(&self) -> (r: bool)
        ensures
            r == (self@.model_picker_enabled != Some(false)),
    {
        match self.model_picker_enabled {
            Some(enabled) => enabled,
            None => true,
        }
    }

    /// Whether the model can be reached through the Responses endpoint, as far as the server says.
    pub fn supports_responses_endpoint(&self) -> (r: bool)
        ensures
            r == serves_responses(self@),
    {
        if self.supported_endpoints.len() == 0 {
            return true;
        }
        let mut i: usize = 0;
        while i < self.supported_endpoints.len()
            invariant
                i <= self.supported_endpoints@.len(),
                forall|j: int|
                    0 <= j < i ==> !is_responses_endpoint(#[trigger] self@.supported_endpoints[j]),
            decreases self.supported_endpoints@.len() - i,
        {
            let trimmed = trim_end_char(self.supported_endpoints[i].as_str(), '/');
            if ends_with(trimmed, "/responses") {
                assert(is_responses_endpoint(self@.supported_endpoints[i as int]));
                return true;
            }
            i = i + 1;
        }
        false
    }
}

/// One entry of an Ollama listing.
#[derive(Debug, PartialEq, Eq)]
pub struct OllamaTagsModel {
    pub name: String,
    pub model_picker_enabled: Option<bool>,
}

/// What an [`OllamaTagsModel`] holds.
pub ghost struct TagsView {
    pub name: Seq<char>,
    pub model_picker_enabled: Option<bool>,
}

impl View for OllamaTagsModel {
    type V = TagsView;

    open spec fn view(&self) -> TagsView {
        TagsView { name: self.name@, model_picker_enabled: self.model_picker_enabled }
    }
}

/// The entries held by a sequence.
pub open spec fn tags_entries(v: Seq<OllamaTagsModel>) -> Seq<TagsView> {
    v.map_values(|m: OllamaTagsModel| m@)
}

impl OllamaTagsModel {
    /// Whether the picker may show the model: unless the server says that it may not.
    pub fn is_picker_enabled(&self) -> (r: bool)
        ensures
            r == (self@.model_picker_enabled != Some(false)),
    {
        match self.model_picker_enabled {
            Some(enabled) => enabled,
            None => true,
        }
    }
}

/// The value of a provider-specific option, as far as the catalog reads it.
#[derive(Clone, Copy, Debug, PartialEq, Eq, Structural)]
pub enum OptionValue {
    Bool(bool),
    /// Any value that is not a boolean.
    Other,
}

/// A provider-specific option of a model.
#[derive(Debug, PartialEq, Eq)]
pub struct ModelOption {
    pub key: String,
    pub value: OptionValue,
}

/// One model of a models.dev provider. The options are the entries of a table, each key once.
#[derive(Debug, PartialEq, Eq)]
pub struct ModelsDevModel {
    pub id: Option<String>,
    pub name: Option<String>,
    pub status: Option<String>,
    pub model_picker_enabled: Option<bool>,
    pub options: Vec<ModelOption>,
}

/// A model of a models.dev provider under its key.
#[derive(Debug, PartialEq, Eq)]
pub struct ModelsDevModelEntry {
    pub key: String,
    pub model: ModelsDevModel,
}

/// One provider of the models.dev catalog. The models are the entries of a table, each key once,
/// in whatever order the table was walked.
#[derive(Debug, PartialEq, Eq)]
pub struct ModelsDevProvider {
    pub name: String,
    pub api: Option<String>,
    pub models: Vec<ModelsDevModelEntry>,
}

/// A models.dev provider under its id. A catalog is a sequence of these, each id once, in whatever
/// order the table was walked.
#[derive(Debug, PartialEq, Eq)]
pub struct ModelsDevEntry {
    pub id: String,
    pub provider: ModelsDevProvider,
}

/// What a [`ModelsDevModel`] holds.
pub ghost struct DevModelView {
    pub id: Option<Seq<char>>,
    pub name: Option<Seq<char>>,
    pub status: Option<Seq<char>>,
    pub model_picker_enabled: Option<bool>,
    pub options: Seq<(Seq<char>, OptionValue)>,
}

/// What a [`ModelsDevProvider`] holds.
pub ghost struct DevProviderView {
    pub name: Seq<char>,
    pub api: Option<Seq<char>>,
    pub models: Seq<(Seq<char>, DevModelView)>,
}

impl View for ModelsDevModel {
    type V = DevModelView;

    open spec fn view(&self) -> DevModelView {
        DevModelView {
            id: opt_text(self.id),
            name: opt_text(self.name),
            status: opt_text(self.status),
            model_picker_enabled: self.model_picker_enabled,
            options: self.options@.map_values(|o: ModelOption| (o.key@, o.value)),
        }
    }
}

/// The models held by a sequence of entries.
pub open spec fn dev_models(v: Seq<ModelsDevModelEntry>) -> Seq<(Seq<char>, DevModelView)> {
    v.map_values(|e: ModelsDevModelEntry| (e.key@, e.model@))
}

impl View for ModelsDevProvider {
    type V = DevProviderView;

    open spec fn view(&self) -> DevProviderView {
        DevProviderView {
            name: self.name@,
            api: opt_text(self.api),
            models: dev_models(self.models@),
        }
    }
}

/// The providers held by a catalog.
pub open spec fn dev_catalog(v: Seq<ModelsDevEntry>) -> Seq<(Seq<char>, DevProviderView)> {
    v.map_values(|e: ModelsDevEntry| (e.id@, e.provider@))
}

/// The id of a model: its own or, where it has none, its key, without white space around it; none
/// where nothing is left.
pub open spec fn resolved_id(m: DevModelView, key: Seq<char>) -> Option<Seq<char>> {
    let raw = match m.id {
        Some(id) => id,
        None => key,
    };
    let id = trim_by(raw, space());
    if id.len() == 0 {
        None
    } else {
        Some(id)
    }
}

/// The boolean that the first option under `key` holds; none where that option is missing or is no
/// boolean.
pub open spec fn option_flag(options: Seq<(Seq<char>, OptionValue)>, key: Seq<char>) -> Option<bool>
    decreases options.len(),
{
    if options.len() == 0 {
        None
    } else if options[0].0 == key {
        match options[0].1 {
            OptionValue::Bool(b) => Some(b),
            OptionValue::Other => None,
        }
    } else {
        option_flag(options.drop_first(), key)
    }
}

/// Whether the picker may show a models.dev model: its own flag decides, else its option.
pub open spec fn dev_picker_enabled(m: DevModelView) -> bool {
    match m.model_picker_enabled {
        Some(enabled) => enabled,
        None => option_flag(m.options, "model_picker_enabled"@) != Some(false),
    }
}

/// Whether the status of a models.dev model says `deprecated`, in any case of letters.
pub open spec fn dev_deprecated(m: DevModelView) -> bool {
    match m.status {
        Some(status) => lower_text(status) == lower_text("deprecated"@),
        None => false,
    }
}

impl ModelsDevModel {
    /// The id of the model, or of its key `fallback` where it has none.
    pub fn resolved_id(&self, fallback: &str) -> (r: Option<String>)
        ensures
            opt_text(r) == resolved_id(self@, fallback@),
    {
        let raw = match &self.id {
            Some(id) => id.as_str(),
            None => fallback,
        };
        let id = trim(raw);
        if id.is_empty() {
            None
        } else {
            Some(id.to_string())
        }
    }

    /// Whether the picker may show the model.
    pub fn is_picker_enabled(&self) -> (r: bool)
        ensures
            r == dev_picker_enabled(self@),
    {
        if let Some(enabled) = self.model_picker_enabled {
            return enabled;
        }
        let ghost all = self@.options;
        let mut i: usize = 0;
        assert(all.skip(0) =~= all);
        while i < self.options.len()
            invariant
                i <= self.options@.len(),
                self.model_picker_enabled is None,
                all == self@.options,
                option_flag(all, "model_picker_enabled"@) == option_flag(
                    all.skip(i as int),
                    "model_picker_enabled"@,
                ),
            decreases self.options@.len() - i,
        {
            proof {
                assert(all.skip(i as int)[0] == all[i as int]);
                assert(all.skip(i as int).drop_first() =~= all.skip(i + 1));
            }
            if same_text(self.options[i].key.as_str(), "model_picker_enabled") {
                return match self.options[i].value {
                    OptionValue::Bool(b) => b,
                    OptionValue::Other => true,
                };
            }
            i = i + 1;
        }
        true
    }

    /// Whether the catalog calls the model deprecated.
    pub fn is_deprecated(&self) -> (r: bool)
        ensures
            r == dev_deprecated(self@),
    {
        match &self.status {
            Some(status) => same_text_ignoring_case(status.as_str(), "deprecated"),
            None => false,
        }
    }
}

} // verus!
