use vstd::prelude::*;

use crate::cli::CliStatus;
use crate::config::{
    ToolsConfig, builtin_tool_names, order_by_name, sorted_by_name, text_le, texts, HookInfo, KarlConfig,
    ModelConfig, SkillInfo, StackConfig,
};
use crate::filtered_list::{identity_positions, FilteredList};
use crate::forms::{ModelForm, ProviderOption, StackForm, ToolForm};
use crate::keys::{Key, KeyCode};
use crate::table::{Duplicate, Table};
use crate::forms::{FormMode, model_form_after_key, model_form_errors, stack_entry_of, stack_form_after_key, stack_form_errors};
use crate::text::{concat3, contains_seq, join_texts, joined, lower_of, matches_query, same_text, trim, trimmed};
use crate::wizard::{finishes, starts_login, wizard_next_step, InitStep, OAuthStatus, WizardOutcome};
use crate::widgets::{input_after_key, text_after_key, ConfirmDialog, TextInput};
use crate::wizard::InitWizard;

verus! {

broadcast use vstd::string::group_string_axioms;

/// Sections of the page.
#[derive(Debug, Clone, Copy, PartialEq, Eq, Structural)]
pub enum Section {
    Settings,
    Models,
    Stacks,
    Skills,
    Tools,
    Hooks,
}

/// Another name for a section.
pub type Tab = Section;

/// Position of a section in page order.
pub open spec fn section_index(s: Section) -> int {
    match s {
        Section::Settings => 0,
        Section::Models => 1,
        Section::Stacks => 2,
        Section::Skills => 3,
        Section::Tools => 4,
        Section::Hooks => 5,
    }
}

impl Section {
    /// All sections in page order.
    pub fn all() -> (r: Vec<Section>)
        ensures
            r@.len() == 6,
            forall|i: int| 0 <= i < 6 ==> section_index(#[trigger] r@[i]) == i,
    {
        vec![
            Section::Settings,
            Section::Models,
            Section::Stacks,
            Section::Skills,
            Section::Tools,
            Section::Hooks,
        ]
    }

    pub fn name(&self) -> (r: &'static str)
        ensures
            r@ == (match *self {
                Section::Settings => "Settings"@,
                Section::Models => "Models"@,
                Section::Stacks => "Stacks"@,
                Section::Skills => "Skills"@,
                Section::Tools => "Tools"@,
                Section::Hooks => "Hooks"@,
            }),
    {
        match self {
            Section::Settings => "Settings",
            Section::Models => "Models",
            Section::Stacks => "Stacks",
            Section::Skills => "Skills",
            Section::Tools => "Tools",
            Section::Hooks => "Hooks",
        }
    }

    /// The following section, wrapping from the last to the first.
    pub fn next(self) -> (r: Self)
        ensures
            section_index(r) == (section_index(self) + 1) % 6,
    {
        match self {
            Section::Settings => Section::Models,
            Section::Models => Section::Stacks,
            Section::Stacks => Section::Skills,
            Section::Skills => Section::Tools,
            Section::Tools => Section::Hooks,
            Section::Hooks => Section::Settings,
        }
    }

    /// The preceding section, wrapping from the first to the last.
    pub fn prev(self) -> (r: Self)
        ensures
            section_index(r) == (section_index(self) + 5) % 6,
    {
        match self {
            Section::Settings => Section::Hooks,
            Section::Models => Section::Settings,
            Section::Stacks => Section::Models,
            Section::Skills => Section::Stacks,
            Section::Tools => Section::Skills,
            Section::Hooks => Section::Tools,
        }
    }

    /// The section with number `n`, counting from 1.
    pub fn from_number(n: u8) -> (r: Option<Self>)
        ensures
            1 <= n <= 6 ==> (r matches Some(s) && section_index(s) == n - 1),
            !(1 <= n <= 6) ==> r is None,
    {
        match n {
            1 => Some(Section::Settings),
            2 => Some(Section::Models),
            3 => Some(Section::Stacks),
            4 => Some(Section::Skills),
            5 => Some(Section::Tools),
            6 => Some(Section::Hooks),
            _ => None,
        }
    }
}

/// What the main area shows.
#[derive(Debug, Clone, Copy, PartialEq, Eq, Structural)]
pub enum PageView {
    List,
    Detail,
    Edit,
    Create,
    Confirm,
}

/// What typed keys go to.
#[derive(Debug, Clone, Copy, PartialEq, Eq, Structural)]
pub enum InputMode {
    Normal,
    Search,
    Editing,
}

/// A model alias as listed.
#[derive(Debug, Clone)]
pub struct ModelItem {
    pub alias: String,
    pub config: ModelConfig,
}

/// A stack as listed, with where it came from: "inline" for stacks of the
/// configuration, the file path for stacks found on disk.
#[derive(Debug, Clone)]
pub struct StackItem {
    pub name: String,
    pub config: StackConfig,
    pub source: String,
}

impl Duplicate for StackItem {
    open spec fn same_as(&self, other: &Self) -> bool {
        self.name@ == other.name@ && self.config.same_as(&other.config) && self.source@
            == other.source@
    }

    fn duplicate(&self) -> (r: Self) {
        StackItem {
            name: self.name.clone(),
            config: self.config.duplicate(),
            source: self.source.clone(),
        }
    }
}

/// A tool as listed.
#[derive(Debug, Clone)]
pub struct ToolItem {
    pub name: String,
    pub enabled: bool,
    pub is_builtin: bool,
}

/// An action waiting for the user's confirmation.
#[derive(Debug, Clone)]
pub enum PendingAction {
    DeleteModel(String),
    DeleteStack(String),
    DeleteTool(String),
    Quit,
}

/// A save that the driver has to carry out, and how to report it.
#[derive(Debug, Clone)]
pub enum SaveKind {
    /// Saving edits; success clears the dirty flag.
    Edits,
    /// Saving the configuration that setup produced, with its default alias.
    Setup(String),
}

/// The listed models mirror the configuration's model entries, in order.
pub open spec fn models_mirror(items: Seq<ModelItem>, entries: Seq<(String, ModelConfig)>) -> bool {
    &&& items.len() == entries.len()
    &&& forall|i: int| 0 <= i < items.len()
        ==> #[trigger] items[i].alias@ == entries[i].0@ && items[i].config.same_as(&entries[i].1)
}

/// The listed tools: the four built-ins, each enabled when the
/// configuration enables it, then every custom tool, enabled.
pub open spec fn tools_mirror(items: Seq<ToolItem>, enabled: Seq<String>, custom: Seq<String>) -> bool {
    &&& items.len() == 4 + custom.len()
    &&& forall|i: int| 0 <= i < 4 ==> {
        &&& (#[trigger] items[i]).name@ == builtin_tool_names()[i]
        &&& items[i].is_builtin
        &&& items[i].enabled == texts(enabled).contains(builtin_tool_names()[i])
    }
    &&& forall|j: int| 0 <= j < custom.len() ==> {
        &&& (#[trigger] items[4 + j]).name@ == custom[j]@
        &&& !items[4 + j].is_builtin
        &&& items[4 + j].enabled
    }
}

/// The inline stack entry `e` as a listed stack.
pub open spec fn inline_item_of(e: (String, StackConfig), it: StackItem) -> bool {
    it.name@ == e.0@ && it.config.same_as(&e.1) && it.source@ == "inline"@
}

/// Application state, driven one key at a time. Work that leaves the
/// process (saving, discovery on disk, the status fetch, the interactive
/// login, the multi-line editor) is requested through the public fields
/// `save_request`, `discovery_requested`, `cli_refresh_requested`,
/// `needs_login_flow` and `context_key`, and its result handed back through
/// the methods made for it.
pub struct App {
    pub section: Section,
    pub tab: Tab,
    pub view: PageView,
    pub input_mode: InputMode,
    pub should_quit: bool,
    pub status_message: Option<String>,
    pub scroll_offset: u16,
    pub config: KarlConfig,
    pub config_path: String,
    pub dirty: bool,
    pub models: FilteredList<ModelItem>,
    pub model_search: TextInput,
    pub stacks: FilteredList<StackItem>,
    pub stack_search: TextInput,
    pub skills: FilteredList<SkillInfo>,
    pub skill_search: TextInput,
    pub tools: FilteredList<ToolItem>,
    pub tool_search: TextInput,
    pub tool_form: Option<ToolForm>,
    pub hooks: FilteredList<HookInfo>,
    pub hook_search: TextInput,
    pub confirm_dialog: Option<ConfirmDialog>,
    pub pending_action: Option<PendingAction>,
    pub model_form: Option<ModelForm>,
    pub stack_form: Option<StackForm>,
    pub cli_status: CliStatus,
    pub needs_login_flow: bool,
    pub init_wizard: Option<InitWizard>,
    /// Providers the model form offers model ids for.
    pub catalog: Vec<ProviderOption>,
    /// Stacks found on disk at the last discovery.
    pub file_stacks: Vec<StackItem>,
    pub save_request: Option<SaveKind>,
    pub discovery_requested: bool,
    pub cli_refresh_requested: bool,
    /// A key meant for the multi-line context editor of the stack form.
    pub context_key: Option<Key>,
}

fn empty_input(placeholder: &str) -> (r: TextInput)
    ensures
        r.wf(),
        r.value@.len() == 0,
        r.cursor == 0,
{
    TextInput::new().with_placeholder(placeholder)
}

impl App {
    pub open spec fn wf(&self) -> bool {
        &&& self.config.wf()
        &&& self.models.wf()
        &&& self.stacks.wf()
        &&& self.skills.wf()
        &&& self.tools.wf()
        &&& self.hooks.wf()
        &&& self.model_search.wf()
        &&& self.stack_search.wf()
        &&& self.skill_search.wf()
        &&& self.tool_search.wf()
        &&& self.hook_search.wf()
        &&& (self.model_form matches Some(f) ==> f.wf())
        &&& (self.stack_form matches Some(f) ==> f.wf())
        &&& (self.tool_form matches Some(f) ==> f.path.wf())
        &&& (self.init_wizard matches Some(w) ==> w.wf())
    }

    /// A fresh application over a loaded configuration. In setup mode the
    /// wizard takes over and the lists stay empty; otherwise the lists are
    /// filled and a status fetch is requested.
    pub fn new(config: KarlConfig, config_path: String, catalog: Vec<ProviderOption>, init_mode: bool) -> (r: Self)
        requires
            config.wf(),
            init_mode ==> catalog@.len() > 0,
        ensures
            r.wf(),
            r.config == config,
            r.config_path == config_path,
            !r.dirty,
            !r.should_quit,
            r.section == Section::Settings,
            r.view == PageView::List,
            r.input_mode == InputMode::Normal,
            r.init_wizard is Some <==> init_mode,
            r.confirm_dialog is None,
            r.pending_action is None,
            r.model_form is None,
            r.stack_form is None,
            r.tool_form is None,
            r.save_request is None,
            r.cli_status is Loading,
            r.cli_refresh_requested == !init_mode,
            r.discovery_requested == !init_mode,
            !init_mode ==> models_mirror(r.models.items@, config.models.entries@),
            !init_mode ==> tools_mirror(r.tools.items@, config.tools.enabled@, config.tools.custom@),
    {
        let (init_wizard, catalog) = if init_mode {
            (Some(InitWizard::new(catalog)), Vec::new())
        } else {
            (None, catalog)
        };
        let mut app = App {
            section: Section::Settings,
            tab: Section::Settings,
            view: PageView::List,
            input_mode: InputMode::Normal,
            should_quit: false,
            status_message: None,
            scroll_offset: 0,
            config,
            config_path,
            dirty: false,
            models: FilteredList::new(Vec::new()),
            model_search: empty_input("Search models..."),
            stacks: FilteredList::new(Vec::new()),
            stack_search: empty_input("Search stacks..."),
            skills: FilteredList::new(Vec::new()),
            skill_search: empty_input("Search skills..."),
            tools: FilteredList::new(Vec::new()),
            tool_search: empty_input("Search tools..."),
            tool_form: None,
            hooks: FilteredList::new(Vec::new()),
            hook_search: empty_input("Search hooks..."),
            confirm_dialog: None,
            pending_action: None,
            model_form: None,
            stack_form: None,
            cli_status: CliStatus::Loading,
            needs_login_flow: false,
            init_wizard,
            catalog,
            file_stacks: Vec::new(),
            save_request: None,
            discovery_requested: !init_mode,
            cli_refresh_requested: !init_mode,
            context_key: None,
        };
        if !init_mode {
            app.refresh_all();
        }
        app
    }

    /// Asks the driver to fetch the status document again.
    pub fn refresh_cli_info(&mut self)
        ensures
            final(self).cli_status is Loading,
            final(self).cli_refresh_requested,
            *final(self) == (App {
                cli_status: final(self).cli_status,
                cli_refresh_requested: true,
                ..*old(self)
            }),
    {
        self.cli_status = CliStatus::Loading;
        self.cli_refresh_requested = true;
    }

    /// The status document (or why there is none) arrived.
    pub fn set_cli_status(&mut self, status: CliStatus)
        ensures
            *final(self) == (App { cli_status: status, cli_refresh_requested: false, ..*old(self) }),
    {
        self.cli_status = status;
        self.cli_refresh_requested = false;
    }

    /// Asks the driver to run the interactive login.
    pub fn request_login(&mut self)
        ensures
            *final(self) == (App { needs_login_flow: true, ..*old(self) }),
    {
        self.needs_login_flow = true;
    }

    /// Rebuilds the model, stack and tool lists from the configuration and
    /// the last discovery; filters are dropped.
    pub fn refresh_all(&mut self)
        requires
            old(self).wf(),
        ensures
            final(self).wf(),
            models_mirror(final(self).models.items@, final(self).config.models.entries@),
            tools_mirror(final(self).tools.items@, final(self).config.tools.enabled@, final(self).config.tools.custom@),
            *final(self) == (App {
                models: final(self).models,
                stacks: final(self).stacks,
                tools: final(self).tools,
                ..*old(self)
            }),
    {
        self.refresh_models();
        self.refresh_stacks();
        self.refresh_tools();
    }

    fn refresh_models(&mut self)
        requires
            old(self).wf(),
        ensures
            final(self).wf(),
            models_mirror(final(self).models.items@, final(self).config.models.entries@),
            *final(self) == (App { models: final(self).models, ..*old(self) }),
    {
        let mut items: Vec<ModelItem> = Vec::new();
        let mut i: usize = 0;
        while i < self.config.models.entries.len()
            invariant
                i <= self.config.models.entries@.len(),
                models_mirror(items@, self.config.models.entries@.subrange(0, i as int)),
            decreases self.config.models.entries@.len() - i,
        {
            let alias = self.config.models.entries[i].0.clone();
            let config = self.config.models.entries[i].1.duplicate();
            items.push(ModelItem { alias, config });
            i = i + 1;
        }
        assert(self.config.models.entries@.subrange(0, i as int) =~= self.config.models.entries@);
        self.models.replace_all(items);
    }

    fn refresh_stacks(&mut self)
        requires
            old(self).wf(),
        ensures
            final(self).wf(),
            stacks_merged(final(self).stacks.items@, final(self).config.stacks, final(self).file_stacks@),
            *final(self) == (App { stacks: final(self).stacks, ..*old(self) }),
    {
        let items = merge_stacks(&self.config.stacks, &self.file_stacks);
        self.stacks.replace_all(items);
    }

    fn refresh_tools(&mut self)
        requires
            old(self).wf(),
        ensures
            final(self).wf(),
            tools_mirror(final(self).tools.items@, final(self).config.tools.enabled@, final(self).config.tools.custom@),
            *final(self) == (App { tools: final(self).tools, ..*old(self) }),
    {
        let builtins = crate::config::builtin_tools();
        assert(builtins@.len() == texts(builtins@).len());
        let mut items: Vec<ToolItem> = Vec::new();
        let mut i: usize = 0;
        while i < 4
            invariant
                texts(builtins@) == builtin_tool_names(),
                builtins@.len() == 4,
                i <= 4,
                items@.len() == i,
                forall|k: int| 0 <= k < i ==> {
                    &&& (#[trigger] items@[k]).name@ == builtin_tool_names()[k]
                    &&& items@[k].is_builtin
                    &&& items@[k].enabled == texts(self.config.tools.enabled@).contains(builtin_tool_names()[k])
                },
            decreases 4 - i,
        {
            assert(texts(builtins@)[i as int] == builtins@[i as int]@);
            let on = contains_text_item(&self.config.tools.enabled, builtins[i].as_str());
            items.push(ToolItem { name: builtins[i].clone(), enabled: on, is_builtin: true });
            i = i + 1;
        }
        let mut j: usize = 0;
        while j < self.config.tools.custom.len()
            invariant
                j <= self.config.tools.custom@.len(),
                items@.len() == 4 + j,
                forall|k: int| 0 <= k < 4 ==> {
                    &&& (#[trigger] items@[k]).name@ == builtin_tool_names()[k]
                    &&& items@[k].is_builtin
                    &&& items@[k].enabled == texts(self.config.tools.enabled@).contains(builtin_tool_names()[k])
                },
                forall|k: int| 0 <= k < j ==> {
                    &&& (#[trigger] items@[4 + k]).name@ == self.config.tools.custom@[k]@
                    &&& !items@[4 + k].is_builtin
                    &&& items@[4 + k].enabled
                },
            decreases self.config.tools.custom@.len() - j,
        {
            items.push(ToolItem { name: self.config.tools.custom[j].clone(), enabled: true, is_builtin: false });
            j = j + 1;
        }
        self.tools.replace_all(items);
    }

    /// Results of discovery on disk: stack files, skills and hooks. The
    /// stack list is rebuilt; skill and hook lists are replaced.
    pub fn set_discovery(&mut self, file_stacks: Vec<StackItem>, skills: Vec<SkillInfo>, hooks: Vec<HookInfo>)
        requires
            old(self).wf(),
        ensures
            final(self).wf(),
            final(self).file_stacks@ == file_stacks@,
            stacks_merged(final(self).stacks.items@, final(self).config.stacks, file_stacks@),
            final(self).skills.items@ == skills@,
            final(self).hooks.items@ == hooks@,
            !final(self).discovery_requested,
            *final(self) == (App {
                file_stacks: final(self).file_stacks,
                stacks: final(self).stacks,
                skills: final(self).skills,
                hooks: final(self).hooks,
                discovery_requested: false,
                ..*old(self)
            }),
    {
        self.file_stacks = file_stacks;
        self.refresh_stacks();
        self.skills.replace_all(skills);
        self.hooks.replace_all(hooks);
        self.discovery_requested = false;
    }

    pub fn is_wizard_mode(&self) -> (r: bool)
        ensures
            r == self.init_wizard is Some,
    {
        self.init_wizard.is_some()
    }
}

/// The text occurs among `v`.
fn contains_text_item(v: &Vec<String>, x: &str) -> (r: bool)
    ensures
        r == texts(v@).contains(x@),
{
    let mut i: usize = 0;
    while i < v.len()
        invariant
            i <= v@.len(),
            forall|k: int| 0 <= k < i ==> #[trigger] v@[k]@ != x@,
        decreases v@.len() - i,
    {
        if same_text(v[i].as_str(), x) {
            assert(texts(v@)[i as int] == x@);
            return true;
        }
        i = i + 1;
    }
    proof {
        if texts(v@).contains(x@) {
            let k = choose|k: int| 0 <= k < texts(v@).len() && texts(v@)[k] == x@;
            assert(v@[k]@ == x@);
        }
    }
    false
}

/// Some item of `s` lists the configuration's stack `e`.
pub open spec fn lists_inline(s: Seq<StackItem>, e: (String, StackConfig)) -> bool {
    exists|i: int| 0 <= i < s.len() && inline_item_of(e, #[trigger] s[i])
}

/// Some pair of `s` carries an item listing the configuration's stack `e`.
pub open spec fn pairs_list_inline(s: Seq<(String, StackItem)>, e: (String, StackConfig)) -> bool {
    exists|i: int| 0 <= i < s.len() && inline_item_of(e, #[trigger] s[i].1)
}

/// `it` lists the configuration's stack `e`, or a stack file of `files`
/// whose name the configuration does not use.
pub open spec fn stack_source_ok(it: StackItem, inline: Table<StackConfig>, files: Seq<StackItem>) -> bool {
    ||| exists|j: int| 0 <= j < inline.entries@.len() && inline_item_of(#[trigger] inline.entries@[j], it)
    ||| (!inline.view().contains_key(it.name@) && exists|j: int| 0 <= j < files.len() && it.same_as(
        &#[trigger] files[j],
    ))
}

/// The file stack at `j` is listed: no stack of the configuration and no
/// earlier file has its name.
pub open spec fn file_wins(inline: Table<StackConfig>, files: Seq<StackItem>, j: int) -> bool {
    !inline.view().contains_key(files[j].name@) && forall|k: int| 0 <= k < j ==> #[trigger] files[k].name@ != files[j].name@
}

/// Some item of `s` has the content of `it`.
pub open spec fn lists_item(s: Seq<StackItem>, it: StackItem) -> bool {
    exists|i: int| 0 <= i < s.len() && (#[trigger] s[i]).same_as(&it)
}

/// `r` is the stack list made from the configuration's stacks and the
/// stack files: strictly in name order (no name twice), every stack of the
/// configuration listed as "inline", every winning file listed, nothing else.
pub open spec fn stacks_merged(r: Seq<StackItem>, inline: Table<StackConfig>, files: Seq<StackItem>) -> bool {
    &&& forall|i: int, j: int| 0 <= i < j < r.len() ==> text_le(#[trigger] r[i].name@, #[trigger] r[j].name@)
        && r[i].name@ != r[j].name@
    &&& forall|i: int| 0 <= i < r.len() ==> stack_source_ok(#[trigger] r[i], inline, files)
    &&& forall|j: int| 0 <= j < inline.entries@.len() ==> lists_inline(r, #[trigger] inline.entries@[j])
    &&& forall|j: int| 0 <= j < files.len() && file_wins(inline, files, j) ==> lists_item(r, #[trigger] files[j])
}

/// Stacks of the configuration followed by stack files whose name is not
/// taken yet (the configuration's own win, then the first file of a name),
/// put in name order.
pub fn merge_stacks(inline: &Table<StackConfig>, files: &Vec<StackItem>) -> (r: Vec<StackItem>)
    requires
        inline.wf(),
    ensures
        stacks_merged(r@, *inline, files@),
{
    let mut keyed: Vec<(String, StackItem)> = Vec::new();
    let mut i: usize = 0;
    while i < inline.entries.len()
        invariant
            i <= inline.entries@.len(),
            inline.wf(),
            keyed@.len() == i,
            forall|k: int| 0 <= k < keyed@.len() ==> #[trigger] keyed@[k].0@ == keyed@[k].1.name@,
            forall|k: int| 0 <= k < keyed@.len() ==> inline_item_of(inline.entries@[k], #[trigger] keyed@[k].1),
        decreases inline.entries@.len() - i,
    {
        let item = StackItem {
            name: inline.entries[i].0.clone(),
            config: inline.entries[i].1.duplicate(),
            source: String::from_str("inline"),
        };
        keyed.push((item.name.clone(), item));
        i = i + 1;
    }
    let ghost n_inline = keyed@.len();
    proof {
        assert forall|a: int, b: int| 0 <= a < b < keyed@.len() implies #[trigger] keyed@[a].0@ != #[trigger] keyed@[b].0@ by {
            assert(inline_item_of(inline.entries@[a], keyed@[a].1));
            assert(inline_item_of(inline.entries@[b], keyed@[b].1));
        }
    }
    let mut j: usize = 0;
    while j < files.len()
        invariant
            j <= files@.len(),
            inline.wf(),
            n_inline == inline.entries@.len(),
            n_inline <= keyed@.len(),
            forall|k: int| 0 <= k < keyed@.len() ==> #[trigger] keyed@[k].0@ == keyed@[k].1.name@,
            forall|k: int| 0 <= k < n_inline ==> inline_item_of(inline.entries@[k], #[trigger] keyed@[k].1),
            forall|k: int| 0 <= k < keyed@.len() ==> stack_source_ok(#[trigger] keyed@[k].1, *inline, files@),
            forall|a: int, b: int| 0 <= a < b < keyed@.len() ==> #[trigger] keyed@[a].0@ != #[trigger] keyed@[b].0@,
            forall|k: int| n_inline <= k < keyed@.len() ==> exists|q: int| 0 <= q < j && #[trigger] files@[q].name@
                == (#[trigger] keyed@[k]).0@,
            forall|q: int| 0 <= q < j && file_wins(*inline, files@, q) ==> exists|k: int| 0 <= k < keyed@.len()
                && (#[trigger] keyed@[k]).1.same_as(&#[trigger] files@[q]),
        decreases files@.len() - j,
    {
        let taken = has_name(&keyed, files[j].name.as_str());
        proof {
            if taken && file_wins(*inline, files@, j as int) {
                let k = choose|k: int| 0 <= k < keyed@.len() && #[trigger] keyed@[k].0@ == files@[j as int].name@;
                if k < n_inline {
                    assert(inline.entries@[k].0@ == files@[j as int].name@);
                } else {
                    let q = choose|q: int| 0 <= q < j && #[trigger] files@[q].name@ == (#[trigger] keyed@[k]).0@;
                    assert(files@[q].name@ != files@[j as int].name@);
                }
            }
        }
        if !taken {
            let item = files[j].duplicate();
            proof {
                if inline.view().contains_key(item.name@) {
                    let w = choose|w: int| 0 <= w < inline.entries@.len() && #[trigger] inline.entries@[w].0@ == item.name@;
                    assert(keyed@[w].0@ == files@[j as int].name@);
                }
            }
            let ghost before = keyed@;
            keyed.push((item.name.clone(), item));
            proof {
                assert(keyed@[before.len() as int].1.same_as(&files@[j as int]));
                assert forall|q: int| 0 <= q < j + 1 && file_wins(*inline, files@, q) implies exists|k: int| 0 <= k < keyed@.len()
                    && (#[trigger] keyed@[k]).1.same_as(&#[trigger] files@[q]) by {
                    if q < j {
                        let k = choose|k: int| 0 <= k < before.len() && (#[trigger] before[k]).1.same_as(&#[trigger] files@[q]);
                        assert(keyed@[k] == before[k]);
                    } else {
                        assert(keyed@[before.len() as int].1.same_as(&files@[q]));
                    }
                }
                assert forall|k: int| n_inline <= k < keyed@.len() implies exists|q: int| 0 <= q < j + 1 && #[trigger] files@[q].name@
                    == (#[trigger] keyed@[k]).0@ by {
                    if k < before.len() {
                        let q = choose|q: int| 0 <= q < j && #[trigger] files@[q].name@ == (#[trigger] before[k]).0@;
                        assert(keyed@[k] == before[k]);
                        assert(files@[q].name@ == keyed@[k].0@);
                    } else {
                        assert(files@[j as int].name@ == keyed@[k].0@);
                    }
                }
            }
        } else {
            proof {
                assert forall|q: int| 0 <= q < j + 1 && file_wins(*inline, files@, q) implies exists|k: int| 0 <= k < keyed@.len()
                    && (#[trigger] keyed@[k]).1.same_as(&#[trigger] files@[q]) by {
                    if q < j {
                    }
                }
                assert forall|k: int| n_inline <= k < keyed@.len() implies exists|q: int| 0 <= q < j + 1 && #[trigger] files@[q].name@
                    == (#[trigger] keyed@[k]).0@ by {
                    let q = choose|q: int| 0 <= q < j && #[trigger] files@[q].name@ == (#[trigger] keyed@[k]).0@;
                    assert(files@[q].name@ == keyed@[k].0@);
                }
            }
        }
        j = j + 1;
    }
    proof {
        assert forall|k: int| 0 <= k < keyed@.len() implies stack_source_ok(#[trigger] keyed@[k].1, *inline, files@) by {
            if k < n_inline {
                assert(inline_item_of(inline.entries@[k], keyed@[k].1));
            }
        }
    }
    let ghost pre = keyed@;
    let sorted = order_by_name(keyed);
    let ghost all = sorted@;
    proof {
        lemma_reorder_keeps_distinct(pre, all);
        assert forall|k: int| 0 <= k < all.len() implies #[trigger] all[k].0@ == all[k].1.name@ by {
            vstd::seq_lib::to_multiset_contains(all, all[k]);
            vstd::seq_lib::to_multiset_contains(pre, all[k]);
            assert(all.contains(all[k]));
        }
        assert forall|k: int| 0 <= k < all.len() implies stack_source_ok(#[trigger] all[k].1, *inline, files@) by {
            vstd::seq_lib::to_multiset_contains(all, all[k]);
            vstd::seq_lib::to_multiset_contains(pre, all[k]);
            assert(all.contains(all[k]));
            let w = choose|w: int| 0 <= w < pre.len() && pre[w] == all[k];
            assert(stack_source_ok(pre[w].1, *inline, files@));
        }
        assert forall|q: int| 0 <= q < inline.entries@.len() implies pairs_list_inline(all, #[trigger] inline.entries@[q]) by {
            vstd::seq_lib::to_multiset_contains(pre, pre[q]);
            vstd::seq_lib::to_multiset_contains(all, pre[q]);
            assert(pre.contains(pre[q]));
            let k = choose|k: int| 0 <= k < all.len() && all[k] == pre[q];
            assert(inline_item_of(inline.entries@[q], all[k].1));
        }
        assert forall|q: int| 0 <= q < files@.len() && file_wins(*inline, files@, q) implies pairs_list_item(all, #[trigger] files@[q]) by {
            let w = choose|w: int| 0 <= w < pre.len() && (#[trigger] pre[w]).1.same_as(&files@[q]);
            vstd::seq_lib::to_multiset_contains(pre, pre[w]);
            vstd::seq_lib::to_multiset_contains(all, pre[w]);
            assert(pre.contains(pre[w]));
            let k = choose|k: int| 0 <= k < all.len() && all[k] == pre[w];
            assert(all[k].1.same_as(&files@[q]));
        }
    }
    let mut r: Vec<StackItem> = Vec::new();
    let mut rest = sorted;
    let ghost mut taken: int = 0;
    while rest.len() > 0
        invariant
            0 <= taken <= all.len(),
            rest@ == all.subrange(taken, all.len() as int),
            r@.len() == taken,
            forall|k: int| 0 <= k < taken ==> #[trigger] r@[k] == all[k].1,
            forall|k: int| 0 <= k < all.len() ==> #[trigger] all[k].0@ == all[k].1.name@,
            forall|k: int| 0 <= k < all.len() ==> stack_source_ok(#[trigger] all[k].1, *inline, files@),
            forall|q: int| 0 <= q < inline.entries@.len() ==> pairs_list_inline(all, #[trigger] inline.entries@[q]),
            forall|q: int| 0 <= q < files@.len() && file_wins(*inline, files@, q) ==> pairs_list_item(all, #[trigger] files@[q]),
            forall|a: int, b: int| 0 <= a < b < all.len() ==> #[trigger] all[a].0@ != #[trigger] all[b].0@,
            sorted_by_name(all),
        decreases rest@.len(),
    {
        let (_, item) = rest.remove(0);
        r.push(item);
        proof {
            taken = taken + 1;
            assert(rest@ =~= all.subrange(taken, all.len() as int));
        }
    }
    assert forall|a: int, b: int| 0 <= a < b < r@.len() implies text_le(#[trigger] r@[a].name@, #[trigger] r@[b].name@)
        && r@[a].name@ != r@[b].name@ by {
        assert(text_le(all[a].0@, all[b].0@));
        assert(all[a].0@ != all[b].0@);
    }
    assert forall|q: int| 0 <= q < inline.entries@.len() implies lists_inline(r@, #[trigger] inline.entries@[q]) by {
        assert(pairs_list_inline(all, inline.entries@[q]));
        let k = choose|k: int| 0 <= k < all.len() && inline_item_of(inline.entries@[q], #[trigger] all[k].1);
        assert(r@[k] == all[k].1);
    }
    assert forall|q: int| 0 <= q < files@.len() && file_wins(*inline, files@, q) implies lists_item(r@, #[trigger] files@[q]) by {
        assert(pairs_list_item(all, files@[q]));
        let k = choose|k: int| 0 <= k < all.len() && (#[trigger] all[k]).1.same_as(&files@[q]);
        assert(r@[k] == all[k].1);
    }
    assert forall|k: int| 0 <= k < r@.len() implies stack_source_ok(#[trigger] r@[k], *inline, files@) by {
        assert(r@[k] == all[k].1);
    }
    r
}

/// Some pair of `s` carries an item with the content of `it`.
pub open spec fn pairs_list_item(s: Seq<(String, StackItem)>, it: StackItem) -> bool {
    exists|i: int| 0 <= i < s.len() && (#[trigger] s[i]).1.same_as(&it)
}

/// Reordering entries keeps their names distinct.
proof fn lemma_reorder_keeps_distinct<T>(a: Seq<(String, T)>, b: Seq<(String, T)>)
    requires
        a.to_multiset() == b.to_multiset(),
        forall|x: int, y: int| 0 <= x < y < a.len() ==> #[trigger] a[x].0@ != #[trigger] a[y].0@,
    ensures
        forall|x: int, y: int| 0 <= x < y < b.len() ==> #[trigger] b[x].0@ != #[trigger] b[y].0@,
{
    assert forall|x: int, y: int| 0 <= x < y < b.len() implies #[trigger] b[x].0@ != #[trigger] b[y].0@ by {
        if b[x].0@ == b[y].0@ {
            vstd::seq_lib::to_multiset_contains(b, b[x]);
            vstd::seq_lib::to_multiset_contains(a, b[x]);
            assert(b.contains(b[x]));
            let p = choose|p: int| 0 <= p < a.len() && a[p] == b[x];
            vstd::seq_lib::to_multiset_contains(b, b[y]);
            vstd::seq_lib::to_multiset_contains(a, b[y]);
            assert(b.contains(b[y]));
            let q = choose|q: int| 0 <= q < a.len() && a[q] == b[y];
            if p != q {
                if p < q {
                    assert(a[p].0@ != a[q].0@);
                } else {
                    assert(a[q].0@ != a[p].0@);
                }
            }
            vstd::seq_lib::to_multiset_remove(b, x);
            vstd::seq_lib::to_multiset_remove(a, p);
            let br = b.remove(x);
            let ar = a.remove(p);
            assert(br[y - 1] == b[y]);
            assert(br.contains(b[x]));
            vstd::seq_lib::to_multiset_contains(br, b[x]);
            vstd::seq_lib::to_multiset_contains(ar, b[x]);
            assert(ar.to_multiset() == br.to_multiset());
            let z = choose|z: int| 0 <= z < ar.len() && ar[z] == b[x];
            let az = if z < p { z } else { z + 1 };
            assert(ar[z] == a[az]);
            if az < p {
                assert(a[az].0@ != a[p].0@);
            } else {
                assert(a[p].0@ != a[az].0@);
            }
        }
    }
}

/// Some entry of `v` has the name `x`.
fn has_name(v: &Vec<(String, StackItem)>, x: &str) -> (r: bool)
    ensures
        r == exists|k: int| 0 <= k < v@.len() && #[trigger] v@[k].0@ == x@,
{
    let mut i: usize = 0;
    while i < v.len()
        invariant
            i <= v@.len(),
            forall|k: int| 0 <= k < i ==> #[trigger] v@[k].0@ != x@,
        decreases v@.len() - i,
    {
        if same_text(v[i].0.as_str(), x) {
            return true;
        }
        i = i + 1;
    }
    false
}

/// `s` without the texts equal to `x`, order kept.
pub open spec fn without_text(s: Seq<Seq<char>>, x: Seq<char>) -> Seq<Seq<char>>
    decreases s.len(),
{
    if s.len() == 0 {
        s
    } else if s.last() == x {
        without_text(s.drop_last(), x)
    } else {
        without_text(s.drop_last(), x).push(s.last())
    }
}

proof fn lemma_without_text_drops(s: Seq<Seq<char>>, x: Seq<char>)
    ensures
        !without_text(s, x).contains(x),
    decreases s.len(),
{
    if s.len() > 0 {
        lemma_without_text_drops(s.drop_last(), x);
        let w = without_text(s.drop_last(), x);
        if s.last() != x {
            assert forall|i: int| 0 <= i < w.len() + 1 implies #[trigger] w.push(s.last())[i] != x by {
                if i < w.len() {
                    assert(w.push(s.last())[i] == w[i]);
                    assert(!w.contains(x));
                }
            }
        }
    }
}

/// Drops every text equal to `x`.
fn remove_text(v: &mut Vec<String>, x: &str)
    ensures
        texts(final(v)@) == without_text(texts(old(v)@), x@),
{
    let mut kept: Vec<String> = Vec::new();
    let mut i: usize = 0;
    while i < v.len()
        invariant
            i <= v@.len(),
            *v == *old(v),
            texts(kept@) == without_text(texts(v@).subrange(0, i as int), x@),
        decreases v@.len() - i,
    {
        let ghost pre = texts(v@).subrange(0, i as int);
        assert(texts(v@).subrange(0, i + 1).drop_last() =~= pre);
        if !same_text(v[i].as_str(), x) {
            let ghost before = kept@;
            kept.push(v[i].clone());
            assert(texts(kept@) =~= texts(before).push(v@[i as int]@));
        }
        i = i + 1;
    }
    assert(texts(v@).subrange(0, i as int) =~= texts(v@));
    *v = kept;
}

/// Saving the model form: with any validation error only the status line
/// changes (to the errors joined by ", ") and the form stays open;
/// otherwise the entry the form describes is stored under the trimmed
/// alias (the old alias removed when renamed), made the default when asked,
/// and the form closes.
pub open spec fn model_save_effects(o: App, f: App) -> bool {
    &&& f == (App {
        model_form: f.model_form,
        config: f.config,
        dirty: f.dirty,
        models: f.models,
        view: f.view,
        input_mode: f.input_mode,
        status_message: f.status_message,
        ..o
    })
    &&& o.model_form is None ==> f == o
    &&& match o.model_form {
        Some(m) => if model_form_errors(m).len() > 0 {
            &&& f.config == o.config && f.model_form == o.model_form && f.dirty == o.dirty
            &&& f.view == o.view && f.input_mode == o.input_mode && f.models == o.models
            &&& f.status_message matches Some(t) && t@ == joined(model_form_errors(m), ", "@)
        } else {
            let a = trimmed(m.alias.value@);
            let base = match m.original_alias {
                Some(oa) => if oa@ != a { o.config.models.view().remove(oa@) } else { o.config.models.view() },
                None => o.config.models.view(),
            };
            &&& f.model_form is None
            &&& f.dirty
            &&& f.config.models.view().contains_key(a)
            &&& f.config.models.view().remove(a) == base.remove(a)
            &&& f.config.models.view()[a].provider@ == m.provider.selected_text()->0
            &&& f.config.models.view()[a].model@ == m.model.selected_text()->0
            &&& f.config.models.view()[a].extra.entries@.len() == 0
            &&& f.config.default_model@ == (if m.set_as_default.value { a } else { o.config.default_model@ })
            &&& f.config == (KarlConfig { models: f.config.models, default_model: f.config.default_model, ..o.config })
            &&& f.view == PageView::List
            &&& f.input_mode == InputMode::Normal
            &&& models_mirror(f.models.items@, f.config.models.entries@)
        },
        None => true,
    }
}

/// Saving the stack form, all or nothing as for the model form; the entry
/// stored under the trimmed name is the one `StackForm::to_config` gives.
pub open spec fn stack_save_effects(o: App, f: App) -> bool {
    &&& f == (App {
        stack_form: f.stack_form,
        config: f.config,
        dirty: f.dirty,
        stacks: f.stacks,
        view: f.view,
        input_mode: f.input_mode,
        status_message: f.status_message,
        ..o
    })
    &&& o.stack_form is None ==> f == o
    &&& match o.stack_form {
        Some(m) => if stack_form_errors(m).len() > 0 {
            &&& f.config == o.config && f.stack_form == o.stack_form && f.dirty == o.dirty
            &&& f.view == o.view && f.input_mode == o.input_mode && f.stacks == o.stacks
            &&& f.status_message matches Some(t) && t@ == joined(stack_form_errors(m), ", "@)
        } else {
            let n = trimmed(m.name.value@);
            let base = match m.original_name {
                Some(on) => if on@ != n { o.config.stacks.view().remove(on@) } else { o.config.stacks.view() },
                None => o.config.stacks.view(),
            };
            &&& f.stack_form is None
            &&& f.dirty
            &&& f.config.stacks.view().contains_key(n)
            &&& f.config.stacks.view().remove(n) == base.remove(n)
            &&& stack_entry_of(m, f.config.stacks.view()[n])
            &&& f.config == (KarlConfig { stacks: f.config.stacks, ..o.config })
            &&& f.view == PageView::List
            &&& f.input_mode == InputMode::Normal
            &&& stacks_merged(f.stacks.items@, f.config.stacks, f.file_stacks@)
        },
        None => true,
    }
}

/// What finishing setup leaves: the chosen provider's entry (its kind, and
/// either OAuth login or the trimmed API key, with the OpenRouter endpoint
/// for that provider), one model under the trimmed alias with the selected
/// model id (or the provider's first suggestion), that alias as default, a
/// save request, the wizard closed and the program quitting.
pub open spec fn setup_effects(o: App, f: App, w: InitWizard) -> bool {
    let p = w.catalog@[w.provider_index as int];
    let a = trimmed(w.model_alias.value@);
    let e = f.config.providers.view()[p.key@];
    &&& f == (App { init_wizard: None, should_quit: true, config: f.config, save_request: f.save_request, ..o })
    &&& f.config == (KarlConfig {
        models: f.config.models,
        providers: f.config.providers,
        default_model: f.config.default_model,
        ..o.config
    })
    &&& f.config.default_model@ == a
    &&& f.config.models.view().contains_key(a)
    &&& f.config.models.view().remove(a) == o.config.models.view().remove(a)
    &&& f.config.models.view()[a].provider@ == p.key@
    &&& f.config.models.view()[a].model@ == (match w.model_selector.selected_text() {
        Some(m) => m,
        None => if p.default_models@.len() > 0 { p.default_models@[0].1@ } else { Seq::empty() },
    })
    &&& f.config.providers.view().contains_key(p.key@)
    &&& f.config.providers.view().remove(p.key@) == o.config.providers.view().remove(p.key@)
    &&& e.provider_type@ == p.provider_type@
    &&& if p.auth_type@ == "oauth"@ {
        (e.auth_type matches Some(t) && t@ == "oauth"@) && e.api_key is None && e.base_url is None
    } else {
        &&& e.auth_type is None
        &&& (e.api_key matches Some(k) && k@ == trimmed(w.api_key.value@))
        &&& if p.key@ == "openrouter"@ {
            e.base_url matches Some(u) && u@ == "https://openrouter.ai/api/v1"@
        } else {
            e.base_url is None
        }
    }
    &&& (f.save_request matches Some(SaveKind::Setup(t)) && t@ == a)
}

/// What a key does while the setup wizard is open: Esc quits; the
/// finishing key runs `setup_effects`; any other key moves the wizard to
/// `wizard_next_step` and, on the login step's Enter, requests the login.
pub open spec fn wizard_key_effects(o: App, f: App, key: Key) -> bool {
    let w = o.init_wizard->0;
    if key.code == KeyCode::Esc {
        f == (App { should_quit: true, ..o })
    } else if finishes(w, key) {
        setup_effects(o, f, w)
    } else {
        &&& f == (App { init_wizard: f.init_wizard, needs_login_flow: f.needs_login_flow, ..o })
        &&& (f.init_wizard matches Some(v) && v.step == wizard_next_step(w, key) && v.catalog == w.catalog
            && (starts_login(w, key) ==> v.oauth_status == OAuthStatus::InProgress))
        &&& f.needs_login_flow == (o.needs_login_flow || starts_login(w, key))
    }
}

/// What a key does in the search box: Esc empties it and shows the whole
/// list again, Enter keeps the filter, any other key edits the text and,
/// when the text takes the key, filters the list again (ignoring case).
pub open spec fn search_key_effects(o: App, f: App, key: Key) -> bool {
    &&& (key.code == KeyCode::Esc || key.code == KeyCode::Enter ==> f.input_mode == InputMode::Normal)
    &&& (o.section == Section::Models ==> f.models.items == o.models.items && if key.code == KeyCode::Esc {
        f.model_search.value@.len() == 0 && f.models.filtered_indices@ == identity_positions(o.models.items@.len())
    } else if key.code == KeyCode::Enter {
        f.model_search == o.model_search && f.models == o.models
    } else {
        input_after_key(o.model_search, f.model_search, key) && if text_after_key(o.model_search.value@, o.model_search.cursor as int, key).2 {
            forall|k: int| 0 <= k < f.models.items@.len() ==> (#[trigger] f.models.filtered_indices@.contains(k as usize) <==> contains_seq(lower_of(f.models.items@[k].alias@), lower_of(f.model_search.value@)))
        } else {
            f.models == o.models
        }
    })
    &&& (o.section == Section::Stacks ==> f.stacks.items == o.stacks.items && if key.code == KeyCode::Esc {
        f.stack_search.value@.len() == 0 && f.stacks.filtered_indices@ == identity_positions(o.stacks.items@.len())
    } else if key.code == KeyCode::Enter {
        f.stack_search == o.stack_search && f.stacks == o.stacks
    } else {
        input_after_key(o.stack_search, f.stack_search, key) && if text_after_key(o.stack_search.value@, o.stack_search.cursor as int, key).2 {
            forall|k: int| 0 <= k < f.stacks.items@.len() ==> (#[trigger] f.stacks.filtered_indices@.contains(k as usize) <==> contains_seq(lower_of(f.stacks.items@[k].name@), lower_of(f.stack_search.value@)))
        } else {
            f.stacks == o.stacks
        }
    })
    &&& (o.section == Section::Skills ==> f.skills.items == o.skills.items && if key.code == KeyCode::Esc {
        f.skill_search.value@.len() == 0 && f.skills.filtered_indices@ == identity_positions(o.skills.items@.len())
    } else if key.code == KeyCode::Enter {
        f.skill_search == o.skill_search && f.skills == o.skills
    } else {
        input_after_key(o.skill_search, f.skill_search, key) && if text_after_key(o.skill_search.value@, o.skill_search.cursor as int, key).2 {
            forall|k: int| 0 <= k < f.skills.items@.len() ==> (#[trigger] f.skills.filtered_indices@.contains(k as usize) <==> (contains_seq(lower_of(f.skills.items@[k].name@), lower_of(f.skill_search.value@)) || contains_seq(lower_of(f.skills.items@[k].description@), lower_of(f.skill_search.value@))))
        } else {
            f.skills == o.skills
        }
    })
    &&& (o.section == Section::Tools ==> f.tools.items == o.tools.items && if key.code == KeyCode::Esc {
        f.tool_search.value@.len() == 0 && f.tools.filtered_indices@ == identity_positions(o.tools.items@.len())
    } else if key.code == KeyCode::Enter {
        f.tool_search == o.tool_search && f.tools == o.tools
    } else {
        input_after_key(o.tool_search, f.tool_search, key) && if text_after_key(o.tool_search.value@, o.tool_search.cursor as int, key).2 {
            forall|k: int| 0 <= k < f.tools.items@.len() ==> (#[trigger] f.tools.filtered_indices@.contains(k as usize) <==> contains_seq(lower_of(f.tools.items@[k].name@), lower_of(f.tool_search.value@)))
        } else {
            f.tools == o.tools
        }
    })
    &&& (o.section == Section::Hooks ==> f.hooks.items == o.hooks.items && if key.code == KeyCode::Esc {
        f.hook_search.value@.len() == 0 && f.hooks.filtered_indices@ == identity_positions(o.hooks.items@.len())
    } else if key.code == KeyCode::Enter {
        f.hook_search == o.hook_search && f.hooks == o.hooks
    } else {
        input_after_key(o.hook_search, f.hook_search, key) && if text_after_key(o.hook_search.value@, o.hook_search.cursor as int, key).2 {
            forall|k: int| 0 <= k < f.hooks.items@.len() ==> (#[trigger] f.hooks.filtered_indices@.contains(k as usize) <==> contains_seq(lower_of(f.hooks.items@[k].name@), lower_of(f.hook_search.value@)))
        } else {
            f.hooks == o.hooks
        }
    })
}

/// What a key does on the confirmation prompt (see `handle_key`).
pub open spec fn confirm_key_effects(o: App, f: App, key: Key) -> bool {
                let d = o.confirm_dialog->0;
                match key.code {
                    KeyCode::Left | KeyCode::Char('h') => f == (App {
                        confirm_dialog: Some(ConfirmDialog { selected: false, ..d }),
                        ..o
                    }),
                    KeyCode::Right | KeyCode::Char('l') => f == (App {
                        confirm_dialog: Some(ConfirmDialog { selected: true, ..d }),
                        ..o
                    }),
                    KeyCode::Tab => f == (App { confirm_dialog: Some(ConfirmDialog { selected: !d.selected, ..d }), ..o }),
                    KeyCode::Enter => f.confirm_dialog is None && f.pending_action is None
                        && (!d.selected ==> f.config == o.config && f.dirty
                        == o.dirty && f.should_quit == o.should_quit)
                        && (d.selected ==> match o.pending_action {
                        Some(PendingAction::DeleteStack(n)) => f.config.stacks.view()
                            == o.config.stacks.view().remove(n@) && f.dirty
                            && f.config == (KarlConfig { stacks: f.config.stacks, ..o.config }),
                        Some(PendingAction::DeleteModel(n)) => f.config.models.view()
                            == o.config.models.view().remove(n@) && f.dirty
                            && f.config == (KarlConfig { models: f.config.models, ..o.config }),
                        Some(PendingAction::DeleteTool(n)) => texts(f.config.tools.custom@)
                            == without_text(texts(o.config.tools.custom@), n@) && f.dirty,
                        Some(PendingAction::Quit) => f.should_quit && f.config == o.config,
                        None => f.config == o.config,
                    }),
                    KeyCode::Esc => f.confirm_dialog is None && f.pending_action is None
                        && f.config == o.config && f.dirty == o.dirty,
                    _ => f == o,
                }
}

/// What a key does on an open form: Ctrl+S saves (see the save
/// effects), Esc closes every form unsaved, Tab/BackTab move the focus and
/// any other key goes to the focused field. The multi-line context field
/// of the stack form passes its keys on through `context_key`.
pub open spec fn form_key_effects(o: App, f: App, key: Key) -> bool {
    if key.ctrl && key.code == KeyCode::Char('s') {
        if o.model_form is Some {
            model_save_effects(o, f)
        } else if o.stack_form is Some {
            stack_save_effects(o, f)
        } else {
            tool_save_effects(o, f)
        }
    } else if key.code == KeyCode::Esc {
        f == (App {
            model_form: None,
            stack_form: None,
            tool_form: None,
            view: PageView::List,
            input_mode: InputMode::Normal,
            status_message: f.status_message,
            ..o
        })
    } else if o.model_form is Some {
        f == (App { model_form: f.model_form, ..o }) && (f.model_form matches Some(v)
            && model_form_after_key(o.model_form->0, v, key, o.catalog@))
    } else if o.stack_form is Some {
        let m = o.stack_form->0;
        &&& f == (App { stack_form: f.stack_form, context_key: f.context_key, ..o })
        &&& (f.stack_form matches Some(v) && stack_form_after_key(m, v, key))
        &&& f.context_key == (if m.focused_field == 7 && key.code != KeyCode::Tab && key.code != KeyCode::BackTab {
            Some(key)
        } else {
            o.context_key
        })
    } else if o.tool_form is Some {
        f == (App { tool_form: f.tool_form, ..o }) && (f.tool_form matches Some(v)
            && input_after_key(o.tool_form->0.path, v.path, key))
    } else {
        true
    }
}

/// Saving the tool form adds its trimmed path as a custom tool; a blank
/// path or one already listed changes only the status line.
pub open spec fn tool_save_effects(o: App, f: App) -> bool {
    &&& f == (App {
        tool_form: f.tool_form,
        config: f.config,
        dirty: f.dirty,
        tools: f.tools,
        view: f.view,
        input_mode: f.input_mode,
        status_message: f.status_message,
        ..o
    })
    &&& match o.tool_form {
        Some(m) => {
            let p = trimmed(m.path.value@);
            if crate::text::is_blank(m.path.value@) || texts(o.config.tools.custom@).contains(p) {
                f.config == o.config && f.tool_form == o.tool_form && f.dirty == o.dirty && f.view == o.view
            } else {
                texts(f.config.tools.custom@) == texts(o.config.tools.custom@).push(p) && f.tool_form is None && f.dirty
            }
        },
        None => f == o,
    }
}

/// Space on the tools list switches the selected built-in tool, in the list
/// and in the configuration's enabled names; custom tools are left alone.
pub open spec fn tool_toggle_effects(o: App, f: App) -> bool {
    &&& f == (App { tools: f.tools, config: f.config, dirty: f.dirty, ..o })
    &&& f.config == (KarlConfig { tools: ToolsConfig { enabled: f.config.tools.enabled, ..o.config.tools }, ..o.config })
    &&& match o.tools.selected_item_index() {
        Some(i) => if o.tools.items@[i as int].is_builtin {
            &&& f.dirty
            &&& f.tools.items@[i as int].enabled == !o.tools.items@[i as int].enabled
            &&& texts(f.config.tools.enabled@).contains(o.tools.items@[i as int].name@) == f.tools.items@[i as int].enabled
        } else {
            f.config == o.config && f.dirty == o.dirty
        },
        None => f.config == o.config && f.dirty == o.dirty,
    }
}

/// `d` opens a prompt set on "No" for deleting the selected model or stack,
/// or for removing the selected custom tool; otherwise nothing changes.
pub open spec fn delete_prompt_effects(o: App, f: App) -> bool {
    &&& f == (App { confirm_dialog: f.confirm_dialog, pending_action: f.pending_action, ..o })
    &&& (o.section == Section::Stacks ==> match o.stacks.selected_item_index() {
        Some(i) => (f.confirm_dialog matches Some(d) && !d.selected)
            && (f.pending_action matches Some(PendingAction::DeleteStack(n)) && n@ == o.stacks.items@[i as int].name@),
        None => f == o,
    })
    &&& (o.section == Section::Models ==> match o.models.selected_item_index() {
        Some(i) => (f.confirm_dialog matches Some(d) && !d.selected)
            && (f.pending_action matches Some(PendingAction::DeleteModel(n)) && n@ == o.models.items@[i as int].alias@),
        None => f == o,
    })
    &&& (o.section == Section::Tools ==> match o.tools.selected_item_index() {
        Some(i) => if o.tools.items@[i as int].is_builtin {
            f == o
        } else {
            (f.confirm_dialog matches Some(d) && !d.selected)
                && (f.pending_action matches Some(PendingAction::DeleteTool(n)) && n@ == o.tools.items@[i as int].name@)
        },
        None => f == o,
    })
    &&& (o.section != Section::Stacks && o.section != Section::Models && o.section != Section::Tools ==> f == o)
}

/// `n` opens an empty form for the current section (models, stacks or
/// tools); the model form offers the configured providers.
pub open spec fn create_effects(o: App, f: App) -> bool {
    &&& f == (App {
        model_form: f.model_form,
        stack_form: f.stack_form,
        tool_form: f.tool_form,
        view: f.view,
        input_mode: f.input_mode,
        ..o
    })
    &&& if o.section == Section::Models {
        &&& (f.model_form matches Some(m) && m.mode == FormMode::Create && m.alias.value@.len() == 0
            && m.provider.options@.len() == o.config.providers.entries@.len() && (forall|i: int|
            0 <= i < m.provider.options@.len() ==> #[trigger] m.provider.options@[i] == o.config.providers.entries@[i].0))
        &&& f.view == PageView::Create && f.input_mode == InputMode::Editing
    } else if o.section == Section::Stacks {
        &&& (f.stack_form matches Some(m) && m.mode == FormMode::Create && m.name.value@.len() == 0)
        &&& f.view == PageView::Create && f.input_mode == InputMode::Editing
    } else if o.section == Section::Tools {
        &&& (f.tool_form matches Some(m) && m.path.value@.len() == 0)
        &&& f.view == PageView::Create && f.input_mode == InputMode::Editing
    } else {
        f == o
    }
}

/// `e` opens a form holding the selected model (marked default when it is)
/// or the selected stack; without a selection nothing changes.
pub open spec fn edit_effects(o: App, f: App) -> bool {
    &&& f == (App { model_form: f.model_form, stack_form: f.stack_form, view: f.view, input_mode: f.input_mode, ..o })
    &&& if o.section == Section::Models && o.models.selected_item_index() is Some {
        let it = o.models.items@[o.models.selected_item_index()->0 as int];
        &&& (f.model_form matches Some(m) && m.mode == FormMode::Edit && m.alias.value@ == it.alias@
            && (m.original_alias matches Some(a) && a@ == it.alias@)
            && m.set_as_default.value == (o.config.default_model@ == it.alias@))
        &&& f.view == PageView::Edit && f.input_mode == InputMode::Editing
    } else if o.section == Section::Stacks && o.stacks.selected_item_index() is Some {
        let it = o.stacks.items@[o.stacks.selected_item_index()->0 as int];
        &&& (f.stack_form matches Some(m) && m.mode == FormMode::Edit && m.name.value@ == it.name@
            && (m.original_name matches Some(a) && a@ == it.name@))
        &&& f.view == PageView::Edit && f.input_mode == InputMode::Editing
    } else {
        f == o
    }
}

/// What a key does with no modal context open.
pub open spec fn normal_key_effects(o: App, f: App, key: Key) -> bool {
    &&& (key.code == KeyCode::Char('q') ==> f.config == o.config && if o.dirty {
        (f.confirm_dialog matches Some(d) && !d.selected) && (f.pending_action matches Some(PendingAction::Quit))
            && f.should_quit == o.should_quit
    } else {
        f.should_quit
    })
    &&& (key.ctrl && key.code == KeyCode::Char('c') ==> f.should_quit)
    &&& (key.ctrl && key.code == KeyCode::Char('s') ==> f.save_request == Some(SaveKind::Edits) && f.config == o.config)
    &&& (key.code == KeyCode::Tab ==> section_index(f.section) == (section_index(o.section) + 1) % 6
        && f.view == PageView::List)
    &&& (key.code == KeyCode::BackTab ==> section_index(f.section) == (section_index(o.section) + 5) % 6
        && f.view == PageView::List)
    &&& (key.code != KeyCode::Char(' ') ==> f.config == o.config)
    &&& (o.view == PageView::List && key.code == KeyCode::Char('/') && !key.ctrl ==> f.input_mode == InputMode::Search)
    &&& (o.view == PageView::List && key.code == KeyCode::Char('d') ==> delete_prompt_effects(o, f))
    &&& (o.view == PageView::List && key.code == KeyCode::Char('n') ==> create_effects(o, f))
    &&& (o.view == PageView::List && key.code == KeyCode::Char('e') ==> edit_effects(o, f))
    &&& (o.view == PageView::Detail && key.code == KeyCode::Char('e') ==> edit_effects(o, f))
    &&& (o.view == PageView::List && o.section == Section::Tools && key.code == KeyCode::Char(' ')
        ==> tool_toggle_effects(o, f))
    &&& (o.view == PageView::List && (key.code == KeyCode::Enter || key.code == KeyCode::Char('l')
        || key.code == KeyCode::Right) ==> f == (App { view: PageView::Detail, ..o }))
}

impl App {
    /// Routes one key to exactly one handler: the wizard when present, else
    /// the confirmation prompt, else an open form, else the search box, else
    /// normal navigation. A layer below the one that takes the key never
    /// sees it.
    pub fn handle_key(&mut self, key: Key)
        requires
            old(self).wf(),
        ensures
            final(self).wf(),
            old(self).init_wizard is Some ==> *final(self) == (App {
                init_wizard: final(self).init_wizard,
                should_quit: final(self).should_quit,
                needs_login_flow: final(self).needs_login_flow,
                config: final(self).config,
                save_request: final(self).save_request,
                ..*old(self)
            }),
            old(self).init_wizard is Some ==> wizard_key_effects(*old(self), *final(self), key),
            old(self).init_wizard is None && old(self).confirm_dialog is Some ==> *final(self) == (App {
                confirm_dialog: final(self).confirm_dialog,
                pending_action: final(self).pending_action,
                config: final(self).config,
                dirty: final(self).dirty,
                models: final(self).models,
                stacks: final(self).stacks,
                tools: final(self).tools,
                status_message: final(self).status_message,
                should_quit: final(self).should_quit,
                ..*old(self)
            }),
            old(self).init_wizard is None && old(self).confirm_dialog is None && (
            old(self).model_form is Some || old(self).stack_form is Some || old(self).tool_form is Some)
                ==> *final(self) == (App {
                model_form: final(self).model_form,
                stack_form: final(self).stack_form,
                tool_form: final(self).tool_form,
                config: final(self).config,
                dirty: final(self).dirty,
                models: final(self).models,
                stacks: final(self).stacks,
                tools: final(self).tools,
                view: final(self).view,
                input_mode: final(self).input_mode,
                status_message: final(self).status_message,
                context_key: final(self).context_key,
                ..*old(self)
            }),
            old(self).init_wizard is None && old(self).confirm_dialog is Some ==> confirm_key_effects(
                *old(self),
                *final(self),
                key,
            ),
            old(self).init_wizard is None && old(self).confirm_dialog is None && (
            old(self).model_form is Some || old(self).stack_form is Some || old(self).tool_form is Some)
                ==> form_key_effects(*old(self), *final(self), key),
            old(self).init_wizard is None && old(self).confirm_dialog is None && old(self).model_form is None
                && old(self).stack_form is None && old(self).tool_form is None && old(self).input_mode
                != InputMode::Search ==> normal_key_effects(*old(self), *final(self), key),
            old(self).init_wizard is None && old(self).confirm_dialog is None && old(self).model_form is None
                && old(self).stack_form is None && old(self).tool_form is None && old(self).input_mode
                == InputMode::Search ==> search_key_effects(*old(self), *final(self), key),
            old(self).init_wizard is None && old(self).confirm_dialog is None && old(self).model_form is None
                && old(self).stack_form is None && old(self).tool_form is None && old(self).input_mode
                == InputMode::Search ==> *final(self) == (App {
                input_mode: final(self).input_mode,
                model_search: final(self).model_search,
                stack_search: final(self).stack_search,
                skill_search: final(self).skill_search,
                tool_search: final(self).tool_search,
                hook_search: final(self).hook_search,
                models: final(self).models,
                stacks: final(self).stacks,
                skills: final(self).skills,
                tools: final(self).tools,
                hooks: final(self).hooks,
                ..*old(self)
            }),
    {
        if self.init_wizard.is_some() {
            self.handle_wizard_key(key);
            return;
        }
        if self.confirm_dialog.is_some() {
            self.handle_confirm_key(key);
            return;
        }
        if self.model_form.is_some() {
            self.handle_model_form_key(key);
            return;
        }
        if self.stack_form.is_some() {
            self.handle_stack_form_key(key);
            return;
        }
        if self.tool_form.is_some() {
            self.handle_tool_form_key(key);
            return;
        }
        if self.input_mode == InputMode::Search {
            self.handle_search_key(key);
            return;
        }
        self.handle_normal_key(key);
    }

    /// Keys with no modal context open: quit, save, section switching, then
    /// the keys of the current view.
    fn handle_normal_key(&mut self, key: Key)
        requires
            old(self).wf(),
        ensures
            final(self).wf(),
            normal_key_effects(*old(self), *final(self), key),
    {
        match key.code {
            KeyCode::Char('q') => {
                if self.dirty {
                    self.confirm_dialog = Some(
                        ConfirmDialog::new("Unsaved Changes", "You have unsaved changes. Quit anyway?"),
                    );
                    self.pending_action = Some(PendingAction::Quit);
                } else {
                    self.should_quit = true;
                }
                return;
            },
            KeyCode::Char('c') if key.ctrl => {
                self.should_quit = true;
                return;
            },
            KeyCode::Char('s') if key.ctrl => {
                self.save_config();
                return;
            },
            _ => {},
        }
        match key.code {
            KeyCode::Tab => {
                self.section = self.section.next();
                self.tab = self.section;
                self.view = PageView::List;
                return;
            },
            KeyCode::BackTab => {
                self.section = self.section.prev();
                self.tab = self.section;
                self.view = PageView::List;
                return;
            },
            KeyCode::Char(c) => {
                if '0' <= c && c <= '9' {
                    let n = (c as u32 - '0' as u32) as u8;
                    match Section::from_number(n) {
                        Some(section) => {
                            self.section = section;
                            self.tab = section;
                            self.view = PageView::List;
                        },
                        None => {},
                    }
                    return;
                }
            },
            _ => {},
        }
        match self.view {
            PageView::List => self.handle_list_key(key),
            PageView::Detail => self.handle_detail_key(key),
            _ => {},
        }
    }

    fn handle_list_key(&mut self, key: Key)
        requires
            old(self).wf(),
        ensures
            final(self).wf(),
            key.code != KeyCode::Char(' ') ==> final(self).config == old(self).config,
            key.code == KeyCode::Char('/') ==> final(self).input_mode == InputMode::Search,
            key.code == KeyCode::Char('d') ==> delete_prompt_effects(*old(self), *final(self)),
            key.code == KeyCode::Char('n') ==> create_effects(*old(self), *final(self)),
            key.code == KeyCode::Char('e') ==> edit_effects(*old(self), *final(self)),
            old(self).section == Section::Tools && key.code == KeyCode::Char(' ') ==> tool_toggle_effects(*old(self), *final(self)),
            key.code == KeyCode::Enter || key.code == KeyCode::Char('l') || key.code == KeyCode::Right
                ==> *final(self) == (App { view: PageView::Detail, ..*old(self) }),
    {
        match key.code {
            KeyCode::Down | KeyCode::Char('j') => self.move_down(),
            KeyCode::Up | KeyCode::Char('k') => self.move_up(),
            KeyCode::Enter | KeyCode::Char('l') | KeyCode::Right => {
                self.view = PageView::Detail;
            },
            KeyCode::Char('/') => {
                self.input_mode = InputMode::Search;
            },
            KeyCode::Char('r') => {
                self.refresh_all();
                self.refresh_cli_info();
                self.discovery_requested = true;
                self.status_message = Some(String::from_str("Refreshed"));
            },
            KeyCode::Char('L') if self.section == Section::Settings => {
                self.request_login();
            },
            KeyCode::Char(' ') if self.section == Section::Tools => {
                self.toggle_selected_tool();
            },
            KeyCode::Char('n') => {
                self.start_create();
            },
            KeyCode::Char('e') => {
                self.start_edit();
            },
            KeyCode::Char('d') => {
                self.confirm_delete();
            },
            _ => {},
        }
    }

    fn handle_detail_key(&mut self, key: Key)
        requires
            old(self).wf(),
        ensures
            final(self).wf(),
            final(self).config == old(self).config,
            key.code == KeyCode::Char('e') ==> edit_effects(*old(self), *final(self)),
    {
        match key.code {
            KeyCode::Esc | KeyCode::Char('h') | KeyCode::Left => {
                self.view = PageView::List;
            },
            KeyCode::Char('e') => {
                self.start_edit();
            },
            _ => {},
        }
    }

    /// Typing into the search box of the current section; Esc clears the
    /// filter and leaves, Enter keeps it and leaves.
    fn handle_search_key(&mut self, key: Key)
        requires
            old(self).wf(),
        ensures
            final(self).wf(),
            *final(self) == (App {
                input_mode: final(self).input_mode,
                model_search: final(self).model_search,
                stack_search: final(self).stack_search,
                skill_search: final(self).skill_search,
                tool_search: final(self).tool_search,
                hook_search: final(self).hook_search,
                models: final(self).models,
                stacks: final(self).stacks,
                skills: final(self).skills,
                tools: final(self).tools,
                hooks: final(self).hooks,
                ..*old(self)
            }),
            search_key_effects(*old(self), *final(self), key),
    {
        match key.code {
            KeyCode::Esc => {
                self.input_mode = InputMode::Normal;
                self.clear_search();
            },
            KeyCode::Enter => {
                self.input_mode = InputMode::Normal;
            },
            _ => {
                let handled = match self.section {
                    Section::Models => self.model_search.handle_key(key),
                    Section::Stacks => self.stack_search.handle_key(key),
                    Section::Skills => self.skill_search.handle_key(key),
                    Section::Tools => self.tool_search.handle_key(key),
                    Section::Hooks => self.hook_search.handle_key(key),
                    Section::Settings => false,
                };
                if handled {
                    self.apply_search();
                }
            },
        }
    }

    /// Filters the current section's list by its search text, ignoring case.
    fn apply_search(&mut self)
        requires
            old(self).wf(),
        ensures
            final(self).wf(),
            *final(self) == (App {
                models: final(self).models,
                stacks: final(self).stacks,
                skills: final(self).skills,
                tools: final(self).tools,
                hooks: final(self).hooks,
                ..*old(self)
            }),
            old(self).section == Section::Models ==> final(self).models.items == old(self).models.items
                && forall|k: int| 0 <= k < old(self).models.items@.len() ==> (#[trigger] final(self).models.filtered_indices@.contains(k as usize)
                <==> contains_seq(lower_of(old(self).models.items@[k].alias@), lower_of(old(self).model_search.value@))),
            old(self).section == Section::Stacks ==> final(self).stacks.items == old(self).stacks.items
                && forall|k: int| 0 <= k < old(self).stacks.items@.len() ==> (#[trigger] final(self).stacks.filtered_indices@.contains(k as usize)
                <==> contains_seq(lower_of(old(self).stacks.items@[k].name@), lower_of(old(self).stack_search.value@))),
            old(self).section == Section::Skills ==> final(self).skills.items == old(self).skills.items
                && forall|k: int| 0 <= k < old(self).skills.items@.len() ==> (#[trigger] final(self).skills.filtered_indices@.contains(k as usize)
                <==> (contains_seq(lower_of(old(self).skills.items@[k].name@), lower_of(old(self).skill_search.value@))
                || contains_seq(lower_of(old(self).skills.items@[k].description@), lower_of(old(self).skill_search.value@)))),
            old(self).section == Section::Tools ==> final(self).tools.items == old(self).tools.items
                && forall|k: int| 0 <= k < old(self).tools.items@.len() ==> (#[trigger] final(self).tools.filtered_indices@.contains(k as usize)
                <==> contains_seq(lower_of(old(self).tools.items@[k].name@), lower_of(old(self).tool_search.value@))),
            old(self).section == Section::Hooks ==> final(self).hooks.items == old(self).hooks.items
                && forall|k: int| 0 <= k < old(self).hooks.items@.len() ==> (#[trigger] final(self).hooks.filtered_indices@.contains(k as usize)
                <==> contains_seq(lower_of(old(self).hooks.items@[k].name@), lower_of(old(self).hook_search.value@))),
    {
        match self.section {
            Section::Models => {
                let query = self.model_search.value.clone();
                let pred = |item: &ModelItem| -> (r: bool) ensures r == contains_seq(lower_of(item.alias@), lower_of(query@)) { matches_query(item.alias.as_str(), query.as_str()) };
                self.models.apply_filter(pred);
                proof {
                    assert forall|k: int| 0 <= k < self.models.items@.len() implies (#[trigger] self.models.filtered_indices@.contains(k as usize) <==> contains_seq(lower_of(self.models.items@[k].alias@), lower_of(query@))) by {
                        assert(pred.ensures((&self.models.items@[k],), self.models.filtered_indices@.contains(k as usize)));
                    }
                }
            },
            Section::Stacks => {
                let query = self.stack_search.value.clone();
                let pred = |item: &StackItem| -> (r: bool) ensures r == contains_seq(lower_of(item.name@), lower_of(query@)) { matches_query(item.name.as_str(), query.as_str()) };
                self.stacks.apply_filter(pred);
                proof {
                    assert forall|k: int| 0 <= k < self.stacks.items@.len() implies (#[trigger] self.stacks.filtered_indices@.contains(k as usize) <==> contains_seq(lower_of(self.stacks.items@[k].name@), lower_of(query@))) by {
                        assert(pred.ensures((&self.stacks.items@[k],), self.stacks.filtered_indices@.contains(k as usize)));
                    }
                }
            },
            Section::Skills => {
                let query = self.skill_search.value.clone();
                let pred = |item: &SkillInfo| -> (r: bool) ensures r == (contains_seq(lower_of(item.name@), lower_of(query@)) || contains_seq(lower_of(item.description@), lower_of(query@))) { matches_query(item.name.as_str(), query.as_str()) || matches_query(item.description.as_str(), query.as_str()) };
                self.skills.apply_filter(pred);
                proof {
                    assert forall|k: int| 0 <= k < self.skills.items@.len() implies (#[trigger] self.skills.filtered_indices@.contains(k as usize) <==> (contains_seq(lower_of(self.skills.items@[k].name@), lower_of(query@)) || contains_seq(lower_of(self.skills.items@[k].description@), lower_of(query@)))) by {
                        assert(pred.ensures((&self.skills.items@[k],), self.skills.filtered_indices@.contains(k as usize)));
                    }
                }
            },
            Section::Tools => {
                let query = self.tool_search.value.clone();
                let pred = |item: &ToolItem| -> (r: bool) ensures r == contains_seq(lower_of(item.name@), lower_of(query@)) { matches_query(item.name.as_str(), query.as_str()) };
                self.tools.apply_filter(pred);
                proof {
                    assert forall|k: int| 0 <= k < self.tools.items@.len() implies (#[trigger] self.tools.filtered_indices@.contains(k as usize) <==> contains_seq(lower_of(self.tools.items@[k].name@), lower_of(query@))) by {
                        assert(pred.ensures((&self.tools.items@[k],), self.tools.filtered_indices@.contains(k as usize)));
                    }
                }
            },
            Section::Hooks => {
                let query = self.hook_search.value.clone();
                let pred = |item: &HookInfo| -> (r: bool) ensures r == contains_seq(lower_of(item.name@), lower_of(query@)) { matches_query(item.name.as_str(), query.as_str()) };
                self.hooks.apply_filter(pred);
                proof {
                    assert forall|k: int| 0 <= k < self.hooks.items@.len() implies (#[trigger] self.hooks.filtered_indices@.contains(k as usize) <==> contains_seq(lower_of(self.hooks.items@[k].name@), lower_of(query@))) by {
                        assert(pred.ensures((&self.hooks.items@[k],), self.hooks.filtered_indices@.contains(k as usize)));
                    }
                }
            },
            Section::Settings => {},
        }
    }

    /// Empties the current section's search box and shows its whole list.
    fn clear_search(&mut self)
        requires
            old(self).wf(),
        ensures
            final(self).wf(),
            *final(self) == (App {
                model_search: final(self).model_search,
                stack_search: final(self).stack_search,
                skill_search: final(self).skill_search,
                tool_search: final(self).tool_search,
                hook_search: final(self).hook_search,
                models: final(self).models,
                stacks: final(self).stacks,
                skills: final(self).skills,
                tools: final(self).tools,
                hooks: final(self).hooks,
                ..*old(self)
            }),
            old(self).section == Section::Models ==> final(self).model_search.value@.len() == 0 && final(self).models.items == old(self).models.items
                && final(self).models.filtered_indices@ == identity_positions(old(self).models.items@.len()),
            old(self).section == Section::Stacks ==> final(self).stack_search.value@.len() == 0 && final(self).stacks.items == old(self).stacks.items
                && final(self).stacks.filtered_indices@ == identity_positions(old(self).stacks.items@.len()),
            old(self).section == Section::Skills ==> final(self).skill_search.value@.len() == 0 && final(self).skills.items == old(self).skills.items
                && final(self).skills.filtered_indices@ == identity_positions(old(self).skills.items@.len()),
            old(self).section == Section::Tools ==> final(self).tool_search.value@.len() == 0 && final(self).tools.items == old(self).tools.items
                && final(self).tools.filtered_indices@ == identity_positions(old(self).tools.items@.len()),
            old(self).section == Section::Hooks ==> final(self).hook_search.value@.len() == 0 && final(self).hooks.items == old(self).hooks.items
                && final(self).hooks.filtered_indices@ == identity_positions(old(self).hooks.items@.len()),
    {
        match self.section {
            Section::Models => {
                self.model_search.clear();
                self.models.clear_filter();
            },
            Section::Stacks => {
                self.stack_search.clear();
                self.stacks.clear_filter();
            },
            Section::Skills => {
                self.skill_search.clear();
                self.skills.clear_filter();
            },
            Section::Tools => {
                self.tool_search.clear();
                self.tools.clear_filter();
            },
            Section::Hooks => {
                self.hook_search.clear();
                self.hooks.clear_filter();
            },
            Section::Settings => {},
        }
    }

    fn move_down(&mut self)
        requires
            old(self).wf(),
        ensures
            final(self).wf(),
            *final(self) == (App {
                models: final(self).models,
                stacks: final(self).stacks,
                skills: final(self).skills,
                tools: final(self).tools,
                hooks: final(self).hooks,
                ..*old(self)
            }),
    {
        match self.section {
            Section::Models => self.models.next(),
            Section::Stacks => self.stacks.next(),
            Section::Skills => self.skills.next(),
            Section::Tools => self.tools.next(),
            Section::Hooks => self.hooks.next(),
            Section::Settings => {},
        }
    }

    fn move_up(&mut self)
        requires
            old(self).wf(),
        ensures
            final(self).wf(),
            *final(self) == (App {
                models: final(self).models,
                stacks: final(self).stacks,
                skills: final(self).skills,
                tools: final(self).tools,
                hooks: final(self).hooks,
                ..*old(self)
            }),
    {
        match self.section {
            Section::Models => self.models.previous(),
            Section::Stacks => self.stacks.previous(),
            Section::Skills => self.skills.previous(),
            Section::Tools => self.tools.previous(),
            Section::Hooks => self.hooks.previous(),
            Section::Settings => {},
        }
    }

    /// Switches the selected built-in tool on or off, in the list and in
    /// the configuration; custom tools are left alone.
    fn toggle_selected_tool(&mut self)
        requires
            old(self).wf(),
        ensures
            final(self).wf(),
            tool_toggle_effects(*old(self), *final(self)),
    {
        match self.tools.selected_index() {
            Some(idx) => {
                let is_builtin = self.tools.items[idx].is_builtin;
                if is_builtin {
                    let name = self.tools.items[idx].name.clone();
                    let enabled = !self.tools.items[idx].enabled;
                    self.tools.items.set(idx, ToolItem { name: name.clone(), enabled, is_builtin: true });
                    if enabled {
                        if !contains_text_item(&self.config.tools.enabled, name.as_str()) {
                            let ghost before = self.config.tools.enabled@;
                            self.config.tools.enabled.push(name);
                            assert(texts(self.config.tools.enabled@) =~= texts(before).push(name@));
                            assert(texts(self.config.tools.enabled@)[before.len() as int] == name@);
                        }
                    } else {
                        remove_text(&mut self.config.tools.enabled, name.as_str());
                        proof {
                            lemma_without_text_drops(texts(old(self).config.tools.enabled@), name@);
                        }
                    }
                    self.dirty = true;
                }
            },
            None => {},
        }
    }

    /// Opens a confirmation prompt, set on "No", for deleting the selected
    /// model or stack or removing the selected custom tool.
    fn confirm_delete(&mut self)
        requires
            old(self).wf(),
        ensures
            final(self).wf(),
            delete_prompt_effects(*old(self), *final(self)),
    {
        match self.section {
            Section::Models => {
                match self.models.selected() {
                    Some(model) => {
                        let msg = concat3("Delete model '", model.alias.as_str(), "'?");
                        self.confirm_dialog = Some(ConfirmDialog::new("Delete Model", msg.as_str()));
                        self.pending_action = Some(PendingAction::DeleteModel(model.alias.clone()));
                    },
                    None => {},
                }
            },
            Section::Stacks => {
                match self.stacks.selected() {
                    Some(stack) => {
                        let msg = concat3("Delete stack '", stack.name.as_str(), "'?");
                        self.confirm_dialog = Some(ConfirmDialog::new("Delete Stack", msg.as_str()));
                        self.pending_action = Some(PendingAction::DeleteStack(stack.name.clone()));
                    },
                    None => {},
                }
            },
            Section::Tools => {
                match self.tools.selected() {
                    Some(tool) => {
                        if !tool.is_builtin {
                            let msg = concat3("Remove custom tool '", tool.name.as_str(), "'?");
                            self.confirm_dialog = Some(ConfirmDialog::new("Remove Tool", msg.as_str()));
                            self.pending_action = Some(PendingAction::DeleteTool(tool.name.clone()));
                        }
                    },
                    None => {},
                }
            },
            _ => {},
        }
    }

    /// Keys on the confirmation prompt: Left/h picks "No", Right/l picks
    /// "Yes", Tab flips, Enter closes and runs the pending action only when
    /// "Yes" is picked, Esc closes and drops it.
    fn handle_confirm_key(&mut self, key: Key)
        requires
            old(self).wf(),
            old(self).confirm_dialog is Some,
        ensures
            final(self).wf(),
            *final(self) == (App {
                confirm_dialog: final(self).confirm_dialog,
                pending_action: final(self).pending_action,
                config: final(self).config,
                dirty: final(self).dirty,
                models: final(self).models,
                stacks: final(self).stacks,
                tools: final(self).tools,
                status_message: final(self).status_message,
                should_quit: final(self).should_quit,
                ..*old(self)
            }),
            confirm_key_effects(*old(self), *final(self), key),
    {
        let mut dialog = match self.confirm_dialog.take() {
            Some(d) => d,
            None => {
                return;
            },
        };
        match key.code {
            KeyCode::Left | KeyCode::Char('h') => {
                dialog.select_cancel();
                self.confirm_dialog = Some(dialog);
            },
            KeyCode::Right | KeyCode::Char('l') => {
                dialog.select_confirm();
                self.confirm_dialog = Some(dialog);
            },
            KeyCode::Tab => {
                dialog.toggle();
                self.confirm_dialog = Some(dialog);
            },
            KeyCode::Enter => {
                let confirmed = dialog.is_confirmed();
                let action = self.pending_action.take();
                if confirmed {
                    match action {
                        Some(a) => self.execute_action(a),
                        None => {},
                    }
                }
            },
            KeyCode::Esc => {
                self.pending_action = None;
            },
            _ => {
                self.confirm_dialog = Some(dialog);
            },
        }
    }

    fn execute_action(&mut self, action: PendingAction)
        requires
            old(self).wf(),
        ensures
            final(self).wf(),
            *final(self) == (App {
                config: final(self).config,
                dirty: final(self).dirty,
                models: final(self).models,
                stacks: final(self).stacks,
                tools: final(self).tools,
                status_message: final(self).status_message,
                should_quit: final(self).should_quit,
                ..*old(self)
            }),
            match action {
                PendingAction::DeleteStack(n) => final(self).config.stacks.view()
                    == old(self).config.stacks.view().remove(n@) && final(self).dirty
                    && final(self).config == (KarlConfig { stacks: final(self).config.stacks, ..old(self).config }),
                PendingAction::DeleteModel(n) => final(self).config.models.view()
                    == old(self).config.models.view().remove(n@) && final(self).dirty
                    && final(self).config == (KarlConfig { models: final(self).config.models, ..old(self).config }),
                PendingAction::DeleteTool(n) => texts(final(self).config.tools.custom@)
                    == without_text(texts(old(self).config.tools.custom@), n@) && final(self).dirty,
                PendingAction::Quit => final(self).should_quit && final(self).config == old(self).config,
            },
    {
        match action {
            PendingAction::DeleteModel(alias) => {
                self.config.models.remove(alias.as_str());
                self.dirty = true;
                self.refresh_models();
                self.status_message = Some(concat3("Deleted model '", alias.as_str(), "'"));
            },
            PendingAction::DeleteStack(name) => {
                self.config.stacks.remove(name.as_str());
                self.dirty = true;
                self.refresh_stacks();
                self.status_message = Some(concat3("Deleted stack '", name.as_str(), "'"));
            },
            PendingAction::DeleteTool(path) => {
                remove_text(&mut self.config.tools.custom, path.as_str());
                self.dirty = true;
                self.refresh_tools();
                self.status_message = Some(concat3("Removed tool '", path.as_str(), "'"));
            },
            PendingAction::Quit => {
                self.should_quit = true;
            },
        }
    }

    /// Asks the driver to save the configuration.
    fn save_config(&mut self)
        ensures
            *final(self) == (App { save_request: Some(SaveKind::Edits), ..*old(self) }),
    {
        self.save_request = Some(SaveKind::Edits);
    }

    /// The driver's answer to a save request: success clears the dirty
    /// flag after saving edits; failure keeps everything and reports why.
    pub fn finish_save(&mut self, result: Result<(), String>)
        ensures
            final(self).save_request is None,
            final(self).config == old(self).config,
            final(self).dirty == (if result is Ok && old(self).save_request matches Some(SaveKind::Edits) {
                false
            } else {
                old(self).dirty
            }),
            *final(self) == (App {
                save_request: None,
                dirty: final(self).dirty,
                status_message: final(self).status_message,
                ..*old(self)
            }),
            match old(self).save_request {
                Some(SaveKind::Edits) => final(self).status_message matches Some(t) && t@ == (match result {
                    Ok(_) => "Config saved"@,
                    Err(e) => "Save failed: "@ + e@,
                }),
                Some(SaveKind::Setup(a)) => final(self).status_message matches Some(t) && t@ == (match result {
                    Ok(_) => "Setup complete! Default model: "@ + a@,
                    Err(e) => "Setup failed: "@ + e@,
                }),
                None => final(self).status_message == old(self).status_message,
            },
    {
        match self.save_request.take() {
            Some(SaveKind::Edits) => match result {
                Ok(()) => {
                    self.dirty = false;
                    self.status_message = Some(String::from_str("Config saved"));
                },
                Err(e) => {
                    self.status_message = Some(String::from_str("Save failed: ").concat(e.as_str()));
                },
            },
            Some(SaveKind::Setup(alias)) => match result {
                Ok(()) => {
                    self.status_message = Some(String::from_str("Setup complete! Default model: ").concat(alias.as_str()));
                },
                Err(e) => {
                    self.status_message = Some(String::from_str("Setup failed: ").concat(e.as_str()));
                },
            },
            None => {},
        }
    }

    /// Provider names of the configuration, in table order.
    fn get_provider_names(&self) -> (r: Vec<String>)
        requires
            self.config.wf(),
        ensures
            r@.len() == self.config.providers.entries@.len(),
            forall|i: int| 0 <= i < r@.len() ==> #[trigger] r@[i] == self.config.providers.entries@[i].0,
    {
        self.config.providers.keys()
    }

    /// Opens an empty form for the current section, when it has one.
    fn start_create(&mut self)
        requires
            old(self).wf(),
        ensures
            final(self).wf(),
            create_effects(*old(self), *final(self)),
    {
        match self.section {
            Section::Models => {
                let providers = self.get_provider_names();
                self.model_form = Some(ModelForm::new_create(providers, &self.catalog));
                self.view = PageView::Create;
                self.input_mode = InputMode::Editing;
            },
            Section::Stacks => {
                self.stack_form = Some(StackForm::new_create());
                self.view = PageView::Create;
                self.input_mode = InputMode::Editing;
            },
            Section::Tools => {
                self.tool_form = Some(ToolForm::new());
                self.view = PageView::Create;
                self.input_mode = InputMode::Editing;
            },
            _ => {},
        }
    }

    /// Opens a form holding the selected model or stack.
    fn start_edit(&mut self)
        requires
            old(self).wf(),
        ensures
            final(self).wf(),
            edit_effects(*old(self), *final(self)),
    {
        match self.section {
            Section::Models => {
                match self.models.selected() {
                    Some(model) => {
                        let is_default = same_text(self.config.default_model.as_str(), model.alias.as_str());
                        let providers = self.config.providers.keys();
                        let form = ModelForm::new_edit(model.alias.as_str(), &model.config, is_default, providers, &self.catalog);
                        self.model_form = Some(form);
                        self.view = PageView::Edit;
                        self.input_mode = InputMode::Editing;
                    },
                    None => {},
                }
            },
            Section::Stacks => {
                match self.stacks.selected() {
                    Some(stack) => {
                        let form = StackForm::new_edit(stack.name.as_str(), &stack.config);
                        self.stack_form = Some(form);
                        self.view = PageView::Edit;
                        self.input_mode = InputMode::Editing;
                    },
                    None => {},
                }
            },
            _ => {},
        }
    }

    /// Closes every form without saving anything.
    fn cancel_form(&mut self)
        ensures
            *final(self) == (App {
                model_form: None,
                stack_form: None,
                tool_form: None,
                view: PageView::List,
                input_mode: InputMode::Normal,
                status_message: final(self).status_message,
                ..*old(self)
            }),
    {
        self.model_form = None;
        self.stack_form = None;
        self.tool_form = None;
        self.view = PageView::List;
        self.input_mode = InputMode::Normal;
        self.status_message = Some(String::from_str("Cancelled"));
    }

    /// Keys on the model form: Ctrl+S saves, Esc cancels, Tab/BackTab move
    /// between fields, anything else goes to the focused field. A change of
    /// provider rebuilds the model choices.
    fn handle_model_form_key(&mut self, key: Key)
        requires
            old(self).wf(),
            old(self).model_form is Some,
        ensures
            final(self).wf(),
            *final(self) == (App {
                model_form: final(self).model_form,
                stack_form: final(self).stack_form,
                tool_form: final(self).tool_form,
                config: final(self).config,
                dirty: final(self).dirty,
                models: final(self).models,
                view: final(self).view,
                input_mode: final(self).input_mode,
                status_message: final(self).status_message,
                ..*old(self)
            }),
            form_key_effects(*old(self), *final(self), key),
    {
        if key.ctrl && key.code == KeyCode::Char('s') {
            self.save_model_form();
            return;
        }
        if key.code == KeyCode::Esc {
            self.cancel_form();
            return;
        }
        let mut form = match self.model_form.take() {
            Some(f) => f,
            None => {
                return;
            },
        };
        match key.code {
            KeyCode::Tab => form.next_field(),
            KeyCode::BackTab => form.prev_field(),
            _ => {
                if form.focused_field == 0 {
                    form.alias.handle_key(key);
                } else if form.focused_field == 1 {
                    if form.provider.handle_key(key) {
                        form.update_model_options(&self.catalog);
                    }
                } else if form.focused_field == 2 {
                    form.model.handle_key(key);
                } else {
                    form.set_as_default.handle_key(key);
                }
            },
        }
        self.model_form = Some(form);
    }

    /// Commits the model form. With any validation error nothing is
    /// changed but the status line, and the form stays open. Otherwise the
    /// entry is stored under the trimmed alias (the old alias removed when
    /// it was renamed), made the default when asked, and the form closes.
    pub fn save_model_form(&mut self)
        requires
            old(self).wf(),
        ensures
            final(self).wf(),
            model_save_effects(*old(self), *final(self)),
    {
        let form = match self.model_form.take() {
            Some(f) => f,
            None => {
                return;
            },
        };
        let errors = form.validate();
        assert(texts(errors@).len() == errors@.len());
        if errors.len() > 0 {
            self.status_message = Some(join_texts(&errors, ", "));
            self.model_form = Some(form);
            return;
        }
        let alias = trim(form.alias.value.as_str());
        let config = form.to_config();
        match &form.original_alias {
            Some(original) => {
                if !same_text(original.as_str(), alias.as_str()) {
                    self.config.models.remove(original.as_str());
                }
            },
            None => {},
        }
        let ghost base = self.config.models.view();
        self.config.models.insert(alias.clone(), config);
        assert(self.config.models.view().remove(alias@) =~= base.remove(alias@));
        if form.set_as_default.value {
            self.config.default_model = alias.clone();
        }
        self.dirty = true;
        self.refresh_models();
        self.view = PageView::List;
        self.input_mode = InputMode::Normal;
        let verb = if form.mode == crate::forms::FormMode::Create { "Created model '" } else { "Updated model '" };
        self.status_message = Some(concat3(verb, alias.as_str(), "'"));
    }

    /// Keys on the stack form; the multi-line context field hands its keys
    /// to the driver's editor through `context_key`.
    fn handle_stack_form_key(&mut self, key: Key)
        requires
            old(self).wf(),
            old(self).stack_form is Some,
        ensures
            final(self).wf(),
            *final(self) == (App {
                model_form: final(self).model_form,
                stack_form: final(self).stack_form,
                tool_form: final(self).tool_form,
                config: final(self).config,
                dirty: final(self).dirty,
                stacks: final(self).stacks,
                view: final(self).view,
                input_mode: final(self).input_mode,
                status_message: final(self).status_message,
                context_key: final(self).context_key,
                ..*old(self)
            }),
            old(self).model_form is None ==> form_key_effects(*old(self), *final(self), key),
    {
        if key.ctrl && key.code == KeyCode::Char('s') {
            self.save_stack_form();
            return;
        }
        if key.code == KeyCode::Esc {
            self.cancel_form();
            return;
        }
        let mut form = match self.stack_form.take() {
            Some(f) => f,
            None => {
                return;
            },
        };
        match key.code {
            KeyCode::Tab => form.next_field(),
            KeyCode::BackTab => form.prev_field(),
            _ => {
                let f = form.focused_field;
                if f == 0 {
                    form.name.handle_key(key);
                } else if f == 1 {
                    form.extends.handle_key(key);
                } else if f == 2 {
                    form.model.handle_key(key);
                } else if f == 3 {
                    form.temperature.handle_key(key);
                } else if f == 4 {
                    form.timeout.handle_key(key);
                } else if f == 5 {
                    form.max_tokens.handle_key(key);
                } else if f == 6 {
                    form.skill.handle_key(key);
                } else if f == 7 {
                    self.context_key = Some(key);
                } else if f == 8 {
                    form.context_file.handle_key(key);
                } else {
                    form.unrestricted.handle_key(key);
                }
            },
        }
        self.stack_form = Some(form);
    }

    /// The driver's editor produced new context text for the stack form.
    pub fn set_stack_context(&mut self, text: String)
        requires
            old(self).wf(),
        ensures
            final(self).wf(),
            final(self).context_key is None,
            match old(self).stack_form {
                Some(f) => final(self).stack_form == Some(StackForm { context: text, ..f }),
                None => final(self).stack_form is None,
            },
            *final(self) == (App {
                stack_form: final(self).stack_form,
                context_key: None,
                ..*old(self)
            }),
    {
        match self.stack_form.take() {
            Some(f) => {
                self.stack_form = Some(StackForm { context: text, ..f });
            },
            None => {},
        }
        self.context_key = None;
    }

    /// Commits the stack form, all or nothing, like `save_model_form`.
    #[verifier::rlimit(60)]
    pub fn save_stack_form(&mut self)
        requires
            old(self).wf(),
        ensures
            final(self).wf(),
            stack_save_effects(*old(self), *final(self)),
    {
        let form = match self.stack_form.take() {
            Some(f) => f,
            None => {
                return;
            },
        };
        let errors = form.validate();
        assert(texts(errors@).len() == errors@.len());
        if errors.len() > 0 {
            self.status_message = Some(join_texts(&errors, ", "));
            self.stack_form = Some(form);
            return;
        }
        let name = trim(form.name.value.as_str());
        let config = form.to_config();
        match &form.original_name {
            Some(original) => {
                if !same_text(original.as_str(), name.as_str()) {
                    self.config.stacks.remove(original.as_str());
                }
            },
            None => {},
        }
        let ghost base = self.config.stacks.view();
        let ghost entry = config;
        self.config.stacks.insert(name.clone(), config);
        assert(self.config.stacks.view().remove(name@) =~= base.remove(name@));
        assert(self.config.stacks.view()[name@] == entry);
        self.dirty = true;
        self.refresh_stacks();
        self.view = PageView::List;
        self.input_mode = InputMode::Normal;
        let verb = if form.mode == crate::forms::FormMode::Create { "Created stack '" } else { "Updated stack '" };
        self.status_message = Some(concat3(verb, name.as_str(), "'"));
    }

    fn handle_tool_form_key(&mut self, key: Key)
        requires
            old(self).wf(),
            old(self).tool_form is Some,
        ensures
            final(self).wf(),
            *final(self) == (App {
                model_form: final(self).model_form,
                stack_form: final(self).stack_form,
                tool_form: final(self).tool_form,
                config: final(self).config,
                dirty: final(self).dirty,
                tools: final(self).tools,
                view: final(self).view,
                input_mode: final(self).input_mode,
                status_message: final(self).status_message,
                ..*old(self)
            }),
            old(self).model_form is None && old(self).stack_form is None ==> form_key_effects(*old(self), *final(self), key),
    {
        if key.ctrl && key.code == KeyCode::Char('s') {
            self.save_tool_form();
            return;
        }
        if key.code == KeyCode::Esc {
            self.cancel_form();
            return;
        }
        let mut form = match self.tool_form.take() {
            Some(f) => f,
            None => {
                return;
            },
        };
        form.path.handle_key(key);
        self.tool_form = Some(form);
    }

    /// Adds the form's trimmed path as a custom tool; a blank path or one
    /// already listed leaves everything but the status line unchanged.
    pub fn save_tool_form(&mut self)
        requires
            old(self).wf(),
        ensures
            final(self).wf(),
            tool_save_effects(*old(self), *final(self)),
    {
        let form = match self.tool_form.take() {
            Some(f) => f,
            None => {
                return;
            },
        };
        let errors = form.validate();
        assert(texts(errors@).len() == errors@.len());
        if errors.len() > 0 {
            self.status_message = Some(join_texts(&errors, ", "));
            self.tool_form = Some(form);
            return;
        }
        let path = trim(form.path.value.as_str());
        if contains_text_item(&self.config.tools.custom, path.as_str()) {
            self.status_message = Some(String::from_str("Tool already exists"));
            self.tool_form = Some(form);
            return;
        }
        let ghost before = self.config.tools.custom@;
        self.config.tools.custom.push(path.clone());
        assert(texts(self.config.tools.custom@) =~= texts(before).push(path@));
        self.dirty = true;
        self.refresh_tools();
        self.view = PageView::List;
        self.input_mode = InputMode::Normal;
        self.status_message = Some(concat3("Added tool '", path.as_str(), "'"));
    }

    fn handle_wizard_key(&mut self, key: Key)
        requires
            old(self).wf(),
            old(self).init_wizard is Some,
        ensures
            final(self).wf(),
            wizard_key_effects(*old(self), *final(self), key),
    {
        let mut wizard = match self.init_wizard.take() {
            Some(w) => w,
            None => {
                return;
            },
        };
        let outcome = wizard.handle_key(key);
        match outcome {
            WizardOutcome::Quit => {
                self.init_wizard = Some(wizard);
                self.should_quit = true;
            },
            WizardOutcome::Login => {
                self.init_wizard = Some(wizard);
                self.needs_login_flow = true;
            },
            WizardOutcome::Finish => {
                self.complete_wizard(wizard);
            },
            WizardOutcome::Continue => {
                self.init_wizard = Some(wizard);
            },
        }
    }

    /// The interactive login ended. During setup the outcome goes to the
    /// wizard; otherwise the status line reports it and the status document
    /// is fetched again.
    pub fn login_finished(&mut self, success: bool)
        requires
            old(self).wf(),
        ensures
            final(self).wf(),
            !final(self).needs_login_flow,
            old(self).init_wizard is Some ==> *final(self) == (App {
                init_wizard: final(self).init_wizard,
                needs_login_flow: false,
                ..*old(self)
            }),
            old(self).init_wizard is None ==> *final(self) == (App {
                needs_login_flow: false,
                cli_status: final(self).cli_status,
                cli_refresh_requested: true,
                status_message: final(self).status_message,
                ..*old(self)
            }) && final(self).cli_status is Loading && (final(self).status_message matches Some(t) && t@ == (if success {
                "Login successful"@
            } else {
                "Login cancelled"@
            })),
    {
        if self.init_wizard.is_some() {
            self.wizard_oauth_complete(success);
        } else {
            self.needs_login_flow = false;
            self.refresh_cli_info();
            self.status_message = Some(
                if success { String::from_str("Login successful") } else { String::from_str("Login cancelled") },
            );
        }
    }

    /// The interactive login ended; its outcome goes to the wizard.
    pub fn wizard_oauth_complete(&mut self, success: bool)
        requires
            old(self).wf(),
        ensures
            final(self).wf(),
            *final(self) == (App { init_wizard: final(self).init_wizard, needs_login_flow: false, ..*old(self) }),
            match old(self).init_wizard {
                Some(w) => final(self).init_wizard matches Some(v) && v == (InitWizard {
                    oauth_status: v.oauth_status,
                    step: v.step,
                    ..w
                }) && (success ==> v.oauth_status == OAuthStatus::Success && v.step == InitStep::CreateModel)
                    && (!success ==> v.oauth_status is Failed && v.step == w.step),
                None => final(self).init_wizard is None,
            },
    {
        self.needs_login_flow = false;
        match self.init_wizard.take() {
            Some(mut w) => {
                w.oauth_complete(success);
                self.init_wizard = Some(w);
            },
            None => {},
        }
    }

    /// Ends setup: stores the chosen provider and one model under the typed
    /// alias, makes it the default, requests the save and quits.
    fn complete_wizard(&mut self, wizard: InitWizard)
        requires
            old(self).wf(),
            wizard.wf(),
        ensures
            final(self).wf(),
            setup_effects(*old(self), *final(self), wizard),
    {
        let provider = wizard.selected_provider();
        let model_alias = trim(wizard.model_alias.value.as_str());
        let model_id = match wizard.selected_model() {
            Some(m) => String::from_str(m),
            None => {
                if provider.default_models.len() > 0 {
                    provider.default_models[0].1.clone()
                } else {
                    String::new()
                }
            },
        };
        let mut provider_config = crate::config::ProviderConfig::new();
        provider_config.provider_type = provider.provider_type.clone();
        if same_text(provider.auth_type.as_str(), "oauth") {
            provider_config.auth_type = Some(String::from_str("oauth"));
        } else {
            provider_config.api_key = Some(trim(wizard.api_key.value.as_str()));
            if same_text(provider.key.as_str(), "openrouter") {
                provider_config.base_url = Some(String::from_str("https://openrouter.ai/api/v1"));
            }
        }
        let ghost pc = provider_config;
        let ghost providers_before = self.config.providers.view();
        self.config.providers.insert(provider.key.clone(), provider_config);
        assert(self.config.providers.view()[provider.key@] == pc);
        assert(self.config.providers.view().remove(provider.key@) =~= providers_before.remove(provider.key@));
        let model_config = ModelConfig {
            provider: provider.key.clone(),
            model: model_id,
            extra: Table::new(),
        };
        let ghost mc = model_config;
        let ghost models_before = self.config.models.view();
        self.config.models.insert(model_alias.clone(), model_config);
        assert(self.config.models.view()[model_alias@] == mc);
        assert(self.config.models.view().remove(model_alias@) =~= models_before.remove(model_alias@));
        self.config.default_model = model_alias.clone();
        self.save_request = Some(SaveKind::Setup(model_alias));
        self.init_wizard = None;
        self.should_quit = true;
    }
}

} // verus!
