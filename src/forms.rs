use vstd::prelude::*;

use crate::config::{texts, ModelConfig, StackConfig};
use crate::table::Table;
use crate::text::{
    decimal_of, decimal_text, float_text, is_blank, is_blank_text, is_float_text,
    parse_unsigned, parses_unsigned, same_text, trim, trimmed, unsigned_value,
};
use crate::keys::{Key, KeyCode};
use crate::widgets::{flips, input_after_key, moves_back, moves_on, selection_after_key, Selector, TextInput, Toggle};

verus! {

broadcast use vstd::string::group_string_axioms;

/// Whether a form makes a new entry or changes an existing one.
#[derive(Debug, Clone, Copy, PartialEq, Eq, Structural)]
pub enum FormMode {
    Create,
    Edit,
}

/// Model ids that `catalog` offers for the provider `key`: those of the
/// first option with that key, none when no option has it.
pub open spec fn catalog_model_ids(catalog: Seq<ProviderOption>, key: Seq<char>) -> Seq<Seq<char>>
    decreases catalog.len(),
{
    if catalog.len() == 0 {
        seq![]
    } else if catalog[0].key@ == key {
        catalog[0].model_id_texts()
    } else {
        catalog_model_ids(catalog.drop_first(), key)
    }
}

/// A provider that setup and the model form can offer, with its suggested
/// models as (alias, model id) pairs.
#[derive(Debug, Clone)]
pub struct ProviderOption {
    pub key: String,
    pub name: String,
    pub auth_type: String,
    pub provider_type: String,
    pub default_models: Vec<(String, String)>,
}

impl ProviderOption {
    /// The suggested model ids, in order.
    pub open spec fn model_id_texts(&self) -> Seq<Seq<char>> {
        self.default_models@.map_values(|p: (String, String)| p.1@)
    }

    /// Model ids of this option's suggested models, in order.
    pub fn model_ids(&self) -> (r: Vec<String>)
        ensures
            texts(r@) == self.model_id_texts(),
    {
        let mut r: Vec<String> = Vec::new();
        let mut i: usize = 0;
        while i < self.default_models.len()
            invariant
                i <= self.default_models@.len(),
                texts(r@) == self.default_models@.subrange(0, i as int).map_values(|p: (String, String)| p.1@),
            decreases self.default_models@.len() - i,
        {
            let ghost prev = r@;
            let s = self.default_models[i].1.clone();
            r.push(s);
            assert(texts(r@) =~= texts(prev).push(s@));
            assert(self.default_models@.subrange(0, i + 1) =~= self.default_models@.subrange(0, i as int).push(self.default_models@[i as int]));
            i = i + 1;
        }
        assert(self.default_models@.subrange(0, i as int) =~= self.default_models@);
        r
    }

    /// Model ids that `catalog` offers for the provider `key`.
    pub fn models_for_provider(catalog: &Vec<ProviderOption>, key: &str) -> (r: Vec<String>)
        ensures
            texts(r@) == catalog_model_ids(catalog@, key@),
    {
        let mut i: usize = 0;
        assert(catalog@.subrange(0, catalog@.len() as int) =~= catalog@);
        while i < catalog.len()
            invariant
                i <= catalog@.len(),
                catalog_model_ids(catalog@, key@) == catalog_model_ids(catalog@.subrange(i as int, catalog@.len() as int), key@),
            decreases catalog@.len() - i,
        {
            let ghost rest = catalog@.subrange(i as int, catalog@.len() as int);
            assert(rest[0] == catalog@[i as int]);
            if same_text(catalog[i].key.as_str(), key) {
                return catalog[i].model_ids();
            }
            assert(rest.drop_first() =~= catalog@.subrange(i + 1, catalog@.len() as int));
            i = i + 1;
        }
        let r: Vec<String> = Vec::new();
        assert(texts(r@) =~= Seq::<Seq<char>>::empty());
        r
    }
}

/// Problems that stop a model form from being saved, in display order.
pub open spec fn model_form_errors(f: ModelForm) -> Seq<Seq<char>> {
    (if is_blank(f.alias.value@) { seq!["Alias is required"@] } else { seq![] }) + (if f.provider.options@.len() == 0 {
        seq!["No providers configured"@]
    } else {
        seq![]
    }) + (if f.model.selected_text() is None { seq!["Model is required"@] } else { seq![] })
}

/// Model create/edit form: alias, provider, model id, "set as default".
#[derive(Debug, Clone)]
pub struct ModelForm {
    pub mode: FormMode,
    pub original_alias: Option<String>,
    pub focused_field: usize,
    pub alias: TextInput,
    pub provider: Selector,
    pub model: Selector,
    pub set_as_default: Toggle,
}

impl ModelForm {
    pub open spec fn wf(&self) -> bool {
        &&& self.focused_field < 4
        &&& self.alias.wf()
        &&& self.provider.wf()
        &&& self.model.wf()
    }

    /// A blank form; the model choices are those of the first provider.
    pub fn new_create(providers: Vec<String>, catalog: &Vec<ProviderOption>) -> (r: Self)
        ensures
            r.wf(),
            r.mode == FormMode::Create,
            r.original_alias is None,
            r.focused_field == 0,
            r.alias.value@.len() == 0,
            r.provider.options@ == providers@,
            r.provider.selected == 0,
            texts(r.model.options@) == catalog_model_ids(
                catalog@,
                if providers@.len() > 0 { providers@[0]@ } else { Seq::empty() },
            ),
            r.model.selected == 0,
            !r.set_as_default.value,
    {
        let models = if providers.len() > 0 {
            ProviderOption::models_for_provider(catalog, providers[0].as_str())
        } else {
            proof {
                reveal_strlit("");
                assert(""@ =~= Seq::<char>::empty());
            }
            ProviderOption::models_for_provider(catalog, "")
        };
        ModelForm {
            mode: FormMode::Create,
            original_alias: None,
            focused_field: 0,
            alias: TextInput::new().with_placeholder("e.g., fast, smart"),
            provider: Selector::new(providers),
            model: Selector::new(models),
            set_as_default: Toggle::new("Set as default model"),
        }
    }

    /// A form holding an existing model entry.
    pub fn new_edit(
        alias: &str,
        config: &ModelConfig,
        is_default: bool,
        providers: Vec<String>,
        catalog: &Vec<ProviderOption>,
    ) -> (r: Self)
        ensures
            r.wf(),
            r.mode == FormMode::Edit,
            r.original_alias matches Some(a) && a@ == alias@,
            r.focused_field == 0,
            r.alias.value@ == alias@,
            r.provider.options@ == providers@,
            texts(r.model.options@) == catalog_model_ids(catalog@, config.provider@),
            r.set_as_default.value == is_default,
    {
        let mut provider_selector = Selector::new(providers);
        provider_selector.select_by_value(config.provider.as_str());
        let models = ProviderOption::models_for_provider(catalog, config.provider.as_str());
        let mut model_selector = Selector::new(models);
        model_selector.select_by_value(config.model.as_str());
        ModelForm {
            mode: FormMode::Edit,
            original_alias: Some(String::from_str(alias)),
            focused_field: 0,
            alias: TextInput::new().with_value(alias),
            provider: provider_selector,
            model: model_selector,
            set_as_default: Toggle::new("Set as default model").with_value(is_default),
        }
    }

    pub fn field_count() -> (r: usize)
        ensures
            r == 4,
    {
        4
    }

    pub fn next_field(&mut self)
        requires
            old(self).wf(),
        ensures
            final(self).wf(),
            final(self).focused_field == (old(self).focused_field + 1) % 4,
            *final(self) == (ModelForm { focused_field: final(self).focused_field, ..*old(self) }),
    {
        self.focused_field = (self.focused_field + 1) % ModelForm::field_count();
    }

    pub fn prev_field(&mut self)
        requires
            old(self).wf(),
        ensures
            final(self).wf(),
            final(self).focused_field == (if old(self).focused_field == 0 { 3 } else { old(self).focused_field - 1 }),
            *final(self) == (ModelForm { focused_field: final(self).focused_field, ..*old(self) }),
    {
        self.focused_field = if self.focused_field == 0 { ModelForm::field_count() - 1 } else { self.focused_field - 1 };
    }

    pub fn selected_provider(&self) -> (r: Option<&str>)
        ensures
            r is Some <==> self.provider.selected_text() is Some,
            r matches Some(v) ==> self.provider.selected_text() == Some(v@),
    {
        self.provider.selected_value()
    }

    /// Rebuilds the model choices from the selected provider, selecting the
    /// first; does nothing when no provider is selected.
    pub fn update_model_options(&mut self, catalog: &Vec<ProviderOption>)
        requires
            old(self).wf(),
        ensures
            final(self).wf(),
            final(self).alias == old(self).alias,
            final(self).provider == old(self).provider,
            final(self).set_as_default == old(self).set_as_default,
            final(self).focused_field == old(self).focused_field,
            final(self).mode == old(self).mode,
            final(self).original_alias == old(self).original_alias,
            match old(self).provider.selected_text() {
                Some(p) => texts(final(self).model.options@) == catalog_model_ids(catalog@, p)
                    && final(self).model.selected == 0,
                None => final(self).model == old(self).model,
            },
    {
        let models = match self.provider.selected_value() {
            Some(key) => Some(ProviderOption::models_for_provider(catalog, key)),
            None => None,
        };
        match models {
            Some(m) => {
                self.model = Selector::new(m);
            },
            None => {},
        }
    }

    /// Every problem that blocks saving, all at once.
    pub fn validate(&self) -> (r: Vec<String>)
        ensures
            texts(r@) == model_form_errors(*self),
    {
        let mut errors: Vec<String> = Vec::new();
        if is_blank_text(self.alias.value.as_str()) {
            errors.push(String::from_str("Alias is required"));
        }
        let ghost e1 = texts(errors@);
        assert(e1 =~= (if is_blank(self.alias.value@) { seq!["Alias is required"@] } else { seq![] }));
        if self.provider.is_empty() {
            errors.push(String::from_str("No providers configured"));
        }
        let ghost e2 = texts(errors@);
        assert(e2 =~= e1 + (if self.provider.options@.len() == 0 { seq!["No providers configured"@] } else { seq![] }));
        if self.model.selected_value().is_none() {
            errors.push(String::from_str("Model is required"));
        }
        assert(texts(errors@) =~= e2 + (if self.model.selected_text() is None { seq!["Model is required"@] } else { seq![] }));
        errors
    }

    /// The entry this form describes: the selected provider and model id
    /// (empty when none is selected), with no extra fields.
    pub fn to_config(&self) -> (r: ModelConfig)
        ensures
            r.provider@ == (match self.provider.selected_text() { Some(p) => p, None => Seq::empty() }),
            r.model@ == (match self.model.selected_text() { Some(m) => m, None => Seq::empty() }),
            r.extra.wf(),
            r.extra.entries@.len() == 0,
    {
        let provider = match self.provider.selected_value() {
            Some(p) => String::from_str(p),
            None => String::new(),
        };
        let model = match self.model.selected_value() {
            Some(m) => String::from_str(m),
            None => String::new(),
        };
        ModelConfig { provider, model, extra: Table::new() }
    }
}

/// Some trimmed text, or nothing when the input is blank.
pub open spec fn optional_text(v: Seq<char>) -> Option<Seq<char>> {
    if is_blank(v) {
        None
    } else {
        Some(trimmed(v))
    }
}

pub open spec fn text_view(o: Option<String>) -> Option<Seq<char>> {
    match o {
        Some(s) => Some(s@),
        None => None,
    }
}

/// Problems that stop a stack form from being saved, in display order.
pub open spec fn stack_form_errors(f: StackForm) -> Seq<Seq<char>> {
    (if is_blank(f.name.value@) { seq!["Name is required"@] } else { seq![] }) + (if !is_blank(
        f.temperature.value@,
    ) && !float_text(trimmed(f.temperature.value@)) {
        seq!["Temperature must be a number"@]
    } else {
        seq![]
    }) + (if !is_blank(f.timeout.value@) && !parses_unsigned(
        trimmed(f.timeout.value@),
        u64::MAX as int,
    ) {
        seq!["Timeout must be a positive number"@]
    } else {
        seq![]
    }) + (if !is_blank(f.max_tokens.value@) && !parses_unsigned(
        trimmed(f.max_tokens.value@),
        u32::MAX as int,
    ) {
        seq!["Max tokens must be a positive number"@]
    } else {
        seq![]
    })
}

/// `c` is the stack entry that form `f` describes (see `StackForm::to_config`).
pub open spec fn stack_entry_of(f: StackForm, c: StackConfig) -> bool {
    &&& text_view(c.name) == Some(trimmed(f.name.value@))
    &&& text_view(c.extends) == optional_text(f.extends.value@)
    &&& text_view(c.model) == optional_text(f.model.value@)
    &&& text_view(c.temperature) == (if float_text(trimmed(f.temperature.value@)) {
            Some(trimmed(f.temperature.value@))
        } else {
            None
        })
    &&& c.timeout == (if parses_unsigned(trimmed(f.timeout.value@), u64::MAX as int) {
            Some(unsigned_value(trimmed(f.timeout.value@)) as u64)
        } else {
            None
        })
    &&& c.max_tokens == (if parses_unsigned(trimmed(f.max_tokens.value@), u32::MAX as int) {
            Some(unsigned_value(trimmed(f.max_tokens.value@)) as u32)
        } else {
            None
        })
    &&& text_view(c.skill) == optional_text(f.skill.value@)
    &&& text_view(c.context) == (if is_blank(f.context@) { None } else { Some(f.context@) })
    &&& text_view(c.context_file) == optional_text(f.context_file.value@)
    &&& c.unrestricted == (if f.unrestricted.value { Some(true) } else { None })
}

/// Stack create/edit form. `context` is the multi-line context text.
#[derive(Debug, Clone)]
pub struct StackForm {
    pub mode: FormMode,
    pub original_name: Option<String>,
    pub focused_field: usize,
    pub name: TextInput,
    pub extends: TextInput,
    pub model: TextInput,
    pub temperature: TextInput,
    pub timeout: TextInput,
    pub max_tokens: TextInput,
    pub skill: TextInput,
    pub context: String,
    pub context_file: TextInput,
    pub unrestricted: Toggle,
}

fn optional_input(o: &Option<String>) -> (r: TextInput)
    ensures
        r.wf(),
        r.value@ == (match o { Some(s) => s@, None => Seq::empty() }),
{
    match o {
        Some(s) => TextInput::new().with_value(s.as_str()),
        None => TextInput::new(),
    }
}

fn optional_field(input: &TextInput) -> (r: Option<String>)
    ensures
        text_view(r) == optional_text(input.value@),
{
    if is_blank_text(input.value.as_str()) {
        None
    } else {
        Some(trim(input.value.as_str()))
    }
}

impl StackForm {
    pub open spec fn wf(&self) -> bool {
        &&& self.focused_field < 10
        &&& self.name.wf()
        &&& self.extends.wf()
        &&& self.model.wf()
        &&& self.temperature.wf()
        &&& self.timeout.wf()
        &&& self.max_tokens.wf()
        &&& self.skill.wf()
        &&& self.context_file.wf()
    }

    pub fn new_create() -> (r: Self)
        ensures
            r.wf(),
            r.mode == FormMode::Create,
            r.original_name is None,
            r.focused_field == 0,
            r.name.value@.len() == 0,
            r.temperature.value@.len() == 0,
            r.timeout.value@.len() == 0,
            r.max_tokens.value@.len() == 0,
            r.context@.len() == 0,
            !r.unrestricted.value,
    {
        StackForm {
            mode: FormMode::Create,
            original_name: None,
            focused_field: 0,
            name: TextInput::new().with_placeholder("e.g., codex-architect"),
            extends: TextInput::new().with_placeholder("Base stack to extend (optional)"),
            model: TextInput::new().with_placeholder("Model alias (optional)"),
            temperature: TextInput::new().with_placeholder("0.0 - 2.0 (optional)"),
            timeout: TextInput::new().with_placeholder("Timeout in ms (optional)"),
            max_tokens: TextInput::new().with_placeholder("Max tokens (optional)"),
            skill: TextInput::new().with_placeholder("Skill name (optional)"),
            context: String::new(),
            context_file: TextInput::new().with_placeholder("Path to context file (optional)"),
            unrestricted: Toggle::new("Unrestricted mode"),
        }
    }

    /// A form holding an existing stack; absent values show as empty text.
    pub fn new_edit(name: &str, config: &StackConfig) -> (r: Self)
        ensures
            r.wf(),
            r.mode == FormMode::Edit,
            r.original_name matches Some(n) && n@ == name@,
            r.focused_field == 0,
            r.name.value@ == name@,
            r.extends.value@ == (match config.extends { Some(s) => s@, None => Seq::empty() }),
            r.model.value@ == (match config.model { Some(s) => s@, None => Seq::empty() }),
            r.temperature.value@ == (match config.temperature { Some(s) => s@, None => Seq::empty() }),
            r.timeout.value@ == (match config.timeout { Some(t) => decimal_of(t as nat), None => Seq::empty() }),
            r.max_tokens.value@ == (match config.max_tokens { Some(t) => decimal_of(t as nat), None => Seq::empty() }),
            r.skill.value@ == (match config.skill { Some(s) => s@, None => Seq::empty() }),
            r.context@ == (match config.context { Some(s) => s@, None => Seq::empty() }),
            r.context_file.value@ == (match config.context_file { Some(s) => s@, None => Seq::empty() }),
            r.unrestricted.value == (config.unrestricted == Some(true)),
    {
        let timeout = match config.timeout {
            Some(t) => TextInput::new().with_value(decimal_text(t).as_str()),
            None => TextInput::new(),
        };
        let max_tokens = match config.max_tokens {
            Some(t) => TextInput::new().with_value(decimal_text(t as u64).as_str()),
            None => TextInput::new(),
        };
        let context = match &config.context {
            Some(c) => c.clone(),
            None => String::new(),
        };
        let unrestricted = match config.unrestricted {
            Some(u) => u,
            None => false,
        };
        StackForm {
            mode: FormMode::Edit,
            original_name: Some(String::from_str(name)),
            focused_field: 0,
            name: TextInput::new().with_value(name),
            extends: optional_input(&config.extends),
            model: optional_input(&config.model),
            temperature: optional_input(&config.temperature),
            timeout,
            max_tokens,
            skill: optional_input(&config.skill),
            context,
            context_file: optional_input(&config.context_file),
            unrestricted: Toggle::new("Unrestricted mode").with_value(unrestricted),
        }
    }

    pub fn field_count() -> (r: usize)
        ensures
            r == 10,
    {
        10
    }

    pub fn next_field(&mut self)
        requires
            old(self).wf(),
        ensures
            final(self).wf(),
            final(self).focused_field == (old(self).focused_field + 1) % 10,
            *final(self) == (StackForm { focused_field: final(self).focused_field, ..*old(self) }),
    {
        self.focused_field = (self.focused_field + 1) % StackForm::field_count();
    }

    pub fn prev_field(&mut self)
        requires
            old(self).wf(),
        ensures
            final(self).wf(),
            final(self).focused_field == (if old(self).focused_field == 0 { 9 } else { old(self).focused_field - 1 }),
            *final(self) == (StackForm { focused_field: final(self).focused_field, ..*old(self) }),
    {
        self.focused_field = if self.focused_field == 0 { StackForm::field_count() - 1 } else { self.focused_field - 1 };
    }

    /// Every problem that blocks saving, all at once.
    pub fn validate(&self) -> (r: Vec<String>)
        ensures
            texts(r@) == stack_form_errors(*self),
    {
        let mut errors: Vec<String> = Vec::new();
        if is_blank_text(self.name.value.as_str()) {
            errors.push(String::from_str("Name is required"));
        }
        let ghost e1 = texts(errors@);
        assert(e1 =~= (if is_blank(self.name.value@) { seq!["Name is required"@] } else { seq![] }));
        if !is_blank_text(self.temperature.value.as_str()) && !is_float_text(trim(self.temperature.value.as_str()).as_str()) {
            errors.push(String::from_str("Temperature must be a number"));
        }
        let ghost e2 = texts(errors@);
        assert(e2 =~= e1 + (if !is_blank(self.temperature.value@) && !float_text(trimmed(self.temperature.value@)) {
            seq!["Temperature must be a number"@]
        } else {
            seq![]
        }));
        if !is_blank_text(self.timeout.value.as_str()) && parse_unsigned(trim(self.timeout.value.as_str()).as_str(), u64::MAX).is_none() {
            errors.push(String::from_str("Timeout must be a positive number"));
        }
        let ghost e3 = texts(errors@);
        assert(e3 =~= e2 + (if !is_blank(self.timeout.value@) && !parses_unsigned(trimmed(self.timeout.value@), u64::MAX as int) {
            seq!["Timeout must be a positive number"@]
        } else {
            seq![]
        }));
        if !is_blank_text(self.max_tokens.value.as_str()) && parse_unsigned(trim(self.max_tokens.value.as_str()).as_str(), u32::MAX as u64).is_none() {
            errors.push(String::from_str("Max tokens must be a positive number"));
        }
        assert(texts(errors@) =~= e3 + (if !is_blank(self.max_tokens.value@) && !parses_unsigned(trimmed(self.max_tokens.value@), u32::MAX as int) {
            seq!["Max tokens must be a positive number"@]
        } else {
            seq![]
        }));
        errors
    }

    /// The stack entry this form describes. Blank optional fields become
    /// absent values (never zero); numbers are read from the trimmed text.
    pub fn to_config(&self) -> (r: StackConfig)
        ensures
            stack_entry_of(*self, r),
    {
        let temp = trim(self.temperature.value.as_str());
        let temperature = if is_float_text(temp.as_str()) { Some(temp) } else { None };
        let timeout = parse_unsigned(trim(self.timeout.value.as_str()).as_str(), u64::MAX);
        let max_tokens = match parse_unsigned(trim(self.max_tokens.value.as_str()).as_str(), u32::MAX as u64) {
            Some(v) => Some(v as u32),
            None => None,
        };
        let context = if is_blank_text(self.context.as_str()) { None } else { Some(self.context.clone()) };
        StackConfig {
            name: Some(trim(self.name.value.as_str())),
            extends: optional_field(&self.extends),
            model: optional_field(&self.model),
            temperature,
            timeout,
            max_tokens,
            skill: optional_field(&self.skill),
            context,
            context_file: optional_field(&self.context_file),
            unrestricted: if self.unrestricted.value { Some(true) } else { None },
        }
    }
}

/// `v` is model form `f` after a key other than Ctrl+S and Esc: Tab and
/// BackTab move the focus, any other key goes to the focused field, and a
/// provider change rebuilds the model choices from `catalog`.
pub open spec fn model_form_after_key(f: ModelForm, v: ModelForm, key: Key, catalog: Seq<ProviderOption>) -> bool {
    if key.code == KeyCode::Tab {
        v == ModelForm { focused_field: ((f.focused_field + 1) % 4) as usize, ..f }
    } else if key.code == KeyCode::BackTab {
        v == ModelForm { focused_field: if f.focused_field == 0 { 3 } else { (f.focused_field - 1) as usize }, ..f }
    } else if f.focused_field == 0 {
        input_after_key(f.alias, v.alias, key) && v == ModelForm { alias: v.alias, ..f }
    } else if f.focused_field == 1 {
        &&& v == ModelForm { provider: v.provider, model: v.model, ..f }
        &&& v.provider.options == f.provider.options
        &&& v.provider.selected == selection_after_key(f.provider, key)
        &&& if (moves_back(key) || moves_on(key)) && v.provider.selected_text() is Some {
            texts(v.model.options@) == catalog_model_ids(catalog, v.provider.selected_text()->0) && v.model.selected == 0
        } else {
            v.model == f.model
        }
    } else if f.focused_field == 2 {
        v == ModelForm { model: v.model, ..f } && v.model.options == f.model.options
            && v.model.selected == selection_after_key(f.model, key)
    } else {
        v == ModelForm { set_as_default: v.set_as_default, ..f } && v.set_as_default.label == f.set_as_default.label
            && v.set_as_default.value == (if flips(key) { !f.set_as_default.value } else { f.set_as_default.value })
    }
}

/// `v` is stack form `f` after a key other than Ctrl+S and Esc: Tab and
/// BackTab move the focus, any other key goes to the focused field; the
/// multi-line context field (position 7) is edited elsewhere and stays.
pub open spec fn stack_form_after_key(f: StackForm, v: StackForm, key: Key) -> bool {
    let ff = f.focused_field;
    if key.code == KeyCode::Tab {
        v == StackForm { focused_field: ((ff + 1) % 10) as usize, ..f }
    } else if key.code == KeyCode::BackTab {
        v == StackForm { focused_field: if ff == 0 { 9 } else { (ff - 1) as usize }, ..f }
    } else if ff == 0 {
        input_after_key(f.name, v.name, key) && v == StackForm { name: v.name, ..f }
    } else if ff == 1 {
        input_after_key(f.extends, v.extends, key) && v == StackForm { extends: v.extends, ..f }
    } else if ff == 2 {
        input_after_key(f.model, v.model, key) && v == StackForm { model: v.model, ..f }
    } else if ff == 3 {
        input_after_key(f.temperature, v.temperature, key) && v == StackForm { temperature: v.temperature, ..f }
    } else if ff == 4 {
        input_after_key(f.timeout, v.timeout, key) && v == StackForm { timeout: v.timeout, ..f }
    } else if ff == 5 {
        input_after_key(f.max_tokens, v.max_tokens, key) && v == StackForm { max_tokens: v.max_tokens, ..f }
    } else if ff == 6 {
        input_after_key(f.skill, v.skill, key) && v == StackForm { skill: v.skill, ..f }
    } else if ff == 7 {
        v == f
    } else if ff == 8 {
        input_after_key(f.context_file, v.context_file, key) && v == StackForm { context_file: v.context_file, ..f }
    } else {
        v == StackForm { unrestricted: v.unrestricted, ..f } && v.unrestricted.label == f.unrestricted.label
            && v.unrestricted.value == (if flips(key) { !f.unrestricted.value } else { f.unrestricted.value })
    }
}

/// Form that adds a custom tool by its executable path.
#[derive(Debug, Clone)]
pub struct ToolForm {
    pub path: TextInput,
}

impl ToolForm {
    pub fn new() -> (r: Self)
        ensures
            r.path.wf(),
            r.path.value@.len() == 0,
            r.path.cursor == 0,
            r.path.placeholder@ == "Path to custom tool executable"@,
    {
        ToolForm { path: TextInput::new().with_placeholder("Path to custom tool executable") }
    }

    pub fn validate(&self) -> (r: Vec<String>)
        ensures
            texts(r@) == (if is_blank(self.path.value@) { seq!["Path is required"@] } else { seq![] }),
    {
        let mut errors: Vec<String> = Vec::new();
        if is_blank_text(self.path.value.as_str()) {
            errors.push(String::from_str("Path is required"));
        }
        assert(texts(errors@) =~= (if is_blank(self.path.value@) { seq!["Path is required"@] } else { seq![] }));
        errors
    }
}

} // verus!
