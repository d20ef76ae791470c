use vstd::prelude::*;

use crate::table::{entries_map, keys_distinct, lemma_entries_map_at, Duplicate, Table};
use crate::text::{contains_seq, contains_text};

verus! {

broadcast use vstd::string::group_string_axioms;

pub open spec fn same_opt_text(a: Option<String>, b: Option<String>) -> bool {
    match (a, b) {
        (Some(x), Some(y)) => x@ == y@,
        (None, None) => true,
        _ => false,
    }
}

fn dup_opt_text(o: &Option<String>) -> (r: Option<String>)
    ensures
        same_opt_text(r, *o),
{
    match o {
        Some(s) => Some(s.clone()),
        None => None,
    }
}

/// One model alias: which provider serves it and under which model id.
/// `extra` keeps unknown fields as (key, JSON text).
#[derive(Debug, Clone)]
pub struct ModelConfig {
    pub provider: String,
    pub model: String,
    pub extra: Table<String>,
}

impl Duplicate for ModelConfig {
    open spec fn same_as(&self, other: &Self) -> bool {
        self.provider@ == other.provider@ && self.model@ == other.model@ && self.extra.same_as(
            &other.extra,
        )
    }

    fn duplicate(&self) -> (r: Self) {
        ModelConfig {
            provider: self.provider.clone(),
            model: self.model.clone(),
            extra: self.extra.duplicate(),
        }
    }
}

/// One provider: its kind tag, endpoint, credentials and unknown fields.
#[derive(Debug, Clone)]
pub struct ProviderConfig {
    pub provider_type: String,
    pub base_url: Option<String>,
    pub api_key: Option<String>,
    pub auth_type: Option<String>,
    pub extra: Table<String>,
}

impl ProviderConfig {
    pub fn new() -> (r: Self)
        ensures
            r.provider_type@.len() == 0,
            r.base_url is None,
            r.api_key is None,
            r.auth_type is None,
            r.extra.wf(),
            r.extra.entries@.len() == 0,
    {
        ProviderConfig {
            provider_type: String::new(),
            base_url: None,
            api_key: None,
            auth_type: None,
            extra: Table::new(),
        }
    }
}

impl Duplicate for ProviderConfig {
    open spec fn same_as(&self, other: &Self) -> bool {
        &&& self.provider_type@ == other.provider_type@
        &&& same_opt_text(self.base_url, other.base_url)
        &&& same_opt_text(self.api_key, other.api_key)
        &&& same_opt_text(self.auth_type, other.auth_type)
        &&& self.extra.same_as(&other.extra)
    }

    fn duplicate(&self) -> (r: Self) {
        ProviderConfig {
            provider_type: self.provider_type.clone(),
            base_url: dup_opt_text(&self.base_url),
            api_key: dup_opt_text(&self.api_key),
            auth_type: dup_opt_text(&self.auth_type),
            extra: self.extra.duplicate(),
        }
    }
}

/// Built-in tools switched on and paths of custom tool executables.
#[derive(Debug, Clone)]
pub struct ToolsConfig {
    pub enabled: Vec<String>,
    pub custom: Vec<String>,
}

/// The built-in tool names, in order.
pub open spec fn builtin_tool_names() -> Seq<Seq<char>> {
    seq!["bash"@, "read"@, "write"@, "edit"@]
}

/// The texts of a list of strings.
pub open spec fn texts(v: Seq<String>) -> Seq<Seq<char>> {
    v.map_values(|s: String| s@)
}

pub fn builtin_tools() -> (r: Vec<String>)
    ensures
        texts(r@) == builtin_tool_names(),
{
    let r = vec![
        String::from_str("bash"),
        String::from_str("read"),
        String::from_str("write"),
        String::from_str("edit"),
    ];
    assert(texts(r@) =~= builtin_tool_names());
    r
}

impl Default for ToolsConfig {
    fn default() -> (r: Self)
        ensures
            texts(r.enabled@) == builtin_tool_names(),
            r.custom@.len() == 0,
    {
        ToolsConfig { enabled: builtin_tools(), custom: Vec::new() }
    }
}

/// Retry and concurrency policy.
#[derive(Debug, Clone)]
pub struct VolleyConfig {
    pub max_concurrent: u32,
    pub retry_attempts: u32,
    pub retry_backoff: String,
}

impl Default for VolleyConfig {
    fn default() -> (r: Self)
        ensures
            r.max_concurrent == 3,
            r.retry_attempts == 3,
            r.retry_backoff@ == "exponential"@,
    {
        VolleyConfig {
            max_concurrent: 3,
            retry_attempts: 3,
            retry_backoff: String::from_str("exponential"),
        }
    }
}

/// A prompt stack. `temperature` holds the number as written (decimal
/// text); it is checked when a form commits it.
#[derive(Debug, Clone)]
pub struct StackConfig {
    pub name: Option<String>,
    pub extends: Option<String>,
    pub model: Option<String>,
    pub temperature: Option<String>,
    pub timeout: Option<u64>,
    pub max_tokens: Option<u32>,
    pub skill: Option<String>,
    pub context: Option<String>,
    pub context_file: Option<String>,
    pub unrestricted: Option<bool>,
}

impl Duplicate for StackConfig {
    open spec fn same_as(&self, other: &Self) -> bool {
        &&& same_opt_text(self.name, other.name)
        &&& same_opt_text(self.extends, other.extends)
        &&& same_opt_text(self.model, other.model)
        &&& same_opt_text(self.temperature, other.temperature)
        &&& self.timeout == other.timeout
        &&& self.max_tokens == other.max_tokens
        &&& same_opt_text(self.skill, other.skill)
        &&& same_opt_text(self.context, other.context)
        &&& same_opt_text(self.context_file, other.context_file)
        &&& self.unrestricted == other.unrestricted
    }

    fn duplicate(&self) -> (r: Self) {
        StackConfig {
            name: dup_opt_text(&self.name),
            extends: dup_opt_text(&self.extends),
            model: dup_opt_text(&self.model),
            temperature: dup_opt_text(&self.temperature),
            timeout: self.timeout,
            max_tokens: self.max_tokens,
            skill: dup_opt_text(&self.skill),
            context: dup_opt_text(&self.context),
            context_file: dup_opt_text(&self.context_file),
            unrestricted: self.unrestricted,
        }
    }
}

/// The whole configuration.
#[derive(Debug, Clone)]
pub struct KarlConfig {
    pub default_model: String,
    pub models: Table<ModelConfig>,
    pub providers: Table<ProviderConfig>,
    pub tools: ToolsConfig,
    pub volley: VolleyConfig,
    pub stacks: Table<StackConfig>,
    pub extra: Table<String>,
}

impl KarlConfig {
    pub open spec fn wf(&self) -> bool {
        self.models.wf() && self.providers.wf() && self.stacks.wf() && self.extra.wf()
    }
}

impl Default for KarlConfig {
    /// Built-in defaults: default alias "fast", no models, providers or
    /// stacks, the four built-in tools on, and the default retry policy.
    fn default() -> (r: Self)
        ensures
            r.wf(),
            r.default_model@ == "fast"@,
            r.models.view().is_empty(),
            r.providers.view().is_empty(),
            r.stacks.view().is_empty(),
            r.extra.view().is_empty(),
            texts(r.tools.enabled@) == builtin_tool_names(),
            r.tools.custom@.len() == 0,
            r.volley.max_concurrent == 3,
            r.volley.retry_attempts == 3,
            r.volley.retry_backoff@ == "exponential"@,
    {
        KarlConfig {
            default_model: String::from_str("fast"),
            models: Table::new(),
            providers: Table::new(),
            tools: ToolsConfig::default(),
            volley: VolleyConfig::default(),
            stacks: Table::new(),
            extra: Table::new(),
        }
    }
}

/// Skill metadata found on disk.
#[derive(Debug, Clone)]
pub struct SkillInfo {
    pub name: String,
    pub description: String,
    pub license: Option<String>,
    pub path: String,
}

/// A hook script found on disk.
#[derive(Debug, Clone)]
pub struct HookInfo {
    pub name: String,
    pub hook_type: String,
    pub path: String,
}

/// File name of the project layer, relative to the working directory.
pub fn project_config_path() -> (r: String)
    ensures
        r@ == ".karl.json"@,
{
    String::from_str(".karl.json")
}

/// `over` laid on `base`: keys of both, values of `over` where both have one.
pub open spec fn layered<V>(base: Map<Seq<char>, V>, over: Option<Map<Seq<char>, V>>) -> Map<
    Seq<char>,
    V,
> {
    match over {
        Some(o) => base.union_prefer_right(o),
        None => base,
    }
}

/// Where the merged configuration is saved: the project file when that
/// layer was loaded, the global file otherwise.
pub open spec fn save_target(
    global_path: Seq<char>,
    project: Option<KarlConfig>,
    project_path: Seq<char>,
) -> Seq<char> {
    if project is Some {
        project_path
    } else {
        global_path
    }
}

proof fn lemma_prefix_distinct<V>(s: Seq<(String, V)>, i: int)
    requires
        keys_distinct(s),
        0 <= i <= s.len(),
    ensures
        keys_distinct(s.subrange(0, i)),
{
    let t = s.subrange(0, i);
    assert forall|a: int, b: int|
        0 <= a < t.len() && 0 <= b < t.len() && a != b implies #[trigger] t[a].0@ != #[trigger] t[b].0@ by {
        assert(t[a] == s[a]);
        assert(t[b] == s[b]);
    }
}

proof fn lemma_prefix_step<V>(s: Seq<(String, V)>, i: int)
    requires
        keys_distinct(s),
        0 <= i < s.len(),
    ensures
        entries_map(s.subrange(0, i + 1)) == entries_map(s.subrange(0, i)).insert(s[i].0@, s[i].1),
{
    let p = s.subrange(0, i);
    let q = s.subrange(0, i + 1);
    lemma_prefix_distinct(s, i);
    lemma_prefix_distinct(s, i + 1);
    assert(q =~= p.push(s[i]));
    if entries_map(p).contains_key(s[i].0@) {
        let j = choose|j: int| 0 <= j < p.len() && #[trigger] p[j].0@ == s[i].0@;
        assert(p[j] == s[j]);
    }
    assert forall|key: Seq<char>| #[trigger] entries_map(q).contains_key(key) == entries_map(p).insert(s[i].0@, s[i].1).contains_key(key) by {
        if entries_map(p).contains_key(key) {
            let j = choose|j: int| 0 <= j < p.len() && #[trigger] p[j].0@ == key;
            assert(q[j] == p[j]);
        }
        if key == s[i].0@ {
            assert(q[i] == s[i]);
        }
        if entries_map(q).contains_key(key) {
            let j = choose|j: int| 0 <= j < q.len() && #[trigger] q[j].0@ == key;
            if j < i {
                assert(p[j] == q[j]);
            }
        }
    }
    assert forall|key: Seq<char>| #[trigger] entries_map(q).contains_key(key) implies entries_map(q)[key] == entries_map(p).insert(s[i].0@, s[i].1)[key] by {
        let j = choose|j: int| 0 <= j < q.len() && #[trigger] q[j].0@ == key;
        lemma_entries_map_at(q, j);
        if j < i {
            assert(p[j] == q[j]);
            lemma_entries_map_at(p, j);
        }
    }
    assert(entries_map(q) =~= entries_map(p).insert(s[i].0@, s[i].1));
}

/// Inserts every entry of `from` into `into`, later keys over earlier ones.
fn overlay_table<V>(into: &mut Table<V>, from: Table<V>)
    requires
        old(into).wf(),
        from.wf(),
    ensures
        final(into).wf(),
        final(into).view() == old(into).view().union_prefer_right(from.view()),
{
    let ghost orig = from.entries@;
    let mut rest = from.entries;
    let ghost mut done: int = 0;
    let ghost base = into.view();
    assert(entries_map(orig.subrange(0, 0)) =~= Map::<Seq<char>, V>::empty());
    assert(base.union_prefer_right(Map::<Seq<char>, V>::empty()) =~= base);
    while rest.len() > 0
        invariant
            into.wf(),
            keys_distinct(orig),
            0 <= done <= orig.len(),
            rest@ == orig.subrange(done, orig.len() as int),
            into.view() == base.union_prefer_right(entries_map(orig.subrange(0, done))),
        decreases rest@.len(),
    {
        let (k, v) = rest.remove(0);
        proof {
            assert(orig[done] == (k, v));
            lemma_prefix_step(orig, done);
        }
        into.insert(k, v);
        proof {
            assert(base.union_prefer_right(entries_map(orig.subrange(0, done + 1))) =~= base.union_prefer_right(
                entries_map(orig.subrange(0, done)),
            ).insert(k@, v));
            done = done + 1;
            assert(rest@ =~= orig.subrange(done, orig.len() as int));
        }
    }
    assert(orig.subrange(0, done) =~= orig);
}

/// Builds the effective configuration from the layers that could be read:
/// the global layer replaces the defaults whole; the project layer adds its
/// models, providers and stacks over those, and its default alias when it
/// names one. Also answers which file saves go to.
pub fn merge_layers(
    global: Option<KarlConfig>,
    global_path: String,
    project: Option<KarlConfig>,
    project_path: String,
) -> (r: (KarlConfig, String))
    requires
        global matches Some(g) ==> g.wf(),
        project matches Some(p) ==> p.wf(),
    ensures
        r.0.wf(),
        r.1@ == save_target(global_path@, project, project_path@),
        ({
            let base_models = match global { Some(g) => g.models.view(), None => Map::empty() };
            r.0.models.view() == layered(base_models, match project {
                Some(p) => Some(p.models.view()),
                None => None,
            })
        }),
        ({
            let base_providers = match global {
                Some(g) => g.providers.view(),
                None => Map::empty(),
            };
            r.0.providers.view() == layered(base_providers, match project {
                Some(p) => Some(p.providers.view()),
                None => None,
            })
        }),
        ({
            let base_stacks = match global { Some(g) => g.stacks.view(), None => Map::empty() };
            r.0.stacks.view() == layered(base_stacks, match project {
                Some(p) => Some(p.stacks.view()),
                None => None,
            })
        }),
        r.0.default_model@ == (match project {
            Some(p) if p.default_model@.len() > 0 => p.default_model@,
            _ => match global {
                Some(g) => g.default_model@,
                None => "fast"@,
            },
        }),
        match global {
            Some(g) => r.0.tools == g.tools && r.0.volley == g.volley && r.0.extra == g.extra,
            None => texts(r.0.tools.enabled@) == builtin_tool_names() && r.0.tools.custom@.len()
                == 0 && r.0.volley.max_concurrent == 3 && r.0.volley.retry_attempts == 3
                && r.0.volley.retry_backoff@ == "exponential"@ && r.0.extra.view().is_empty(),
        },
{
    let mut config = match global {
        Some(g) => g,
        None => KarlConfig::default(),
    };
    assert(config.models.view() =~= match global { Some(g) => g.models.view(), None => Map::empty() });
    assert(config.providers.view() =~= match global { Some(g) => g.providers.view(), None => Map::empty() });
    assert(config.stacks.view() =~= match global { Some(g) => g.stacks.view(), None => Map::empty() });
    let mut path = global_path;
    match project {
        Some(p) => {
            let use_default = p.default_model.as_str().unicode_len() > 0;
            overlay_table(&mut config.models, p.models);
            overlay_table(&mut config.providers, p.providers);
            overlay_table(&mut config.stacks, p.stacks);
            if use_default {
                config.default_model = p.default_model;
            }
            path = project_path;
        },
        None => {},
    }
    (config, path)
}

/// Layering law: every key of the project layer carries the project's
/// value, every other key of the global layer keeps the global value, no
/// other key appears, and without a project layer the global map is kept
/// exactly.
pub proof fn lemma_layering<V>(global: Map<Seq<char>, V>, project: Option<Map<Seq<char>, V>>)
    ensures
        project is None ==> layered(global, project) == global,
        project matches Some(p) ==> {
            &&& forall|k: Seq<char>| #[trigger] p.contains_key(k)
                ==> layered(global, project).contains_key(k) && layered(global, project)[k] == p[k]
            &&& forall|k: Seq<char>| global.contains_key(k) && !p.contains_key(k)
                ==> #[trigger] layered(global, project).contains_key(k) && layered(global, project)[k]
                == global[k]
            &&& forall|k: Seq<char>| #[trigger] layered(global, project).contains_key(k)
                ==> global.contains_key(k) || p.contains_key(k)
        },
{
}

/// Kind of a hook script, from its file name.
pub open spec fn hook_kind_of(name: Seq<char>) -> Seq<char> {
    if contains_seq(name, "pre-task"@) {
        "pre-task"@
    } else if contains_seq(name, "post-task"@) {
        "post-task"@
    } else if contains_seq(name, "pre-tool"@) {
        "pre-tool"@
    } else if contains_seq(name, "post-tool"@) {
        "post-tool"@
    } else if contains_seq(name, "on-error"@) {
        "on-error"@
    } else {
        "unknown"@
    }
}

/// Classifies a hook by the first kind whose name occurs in `name`.
pub fn hook_kind(name: &str) -> (r: &'static str)
    ensures
        r@ == hook_kind_of(name@),
{
    if contains_text(name, "pre-task") {
        "pre-task"
    } else if contains_text(name, "post-task") {
        "post-task"
    } else if contains_text(name, "pre-tool") {
        "pre-tool"
    } else if contains_text(name, "post-tool") {
        "post-tool"
    } else if contains_text(name, "on-error") {
        "on-error"
    } else {
        "unknown"
    }
}

/// `a` comes no later than `b` in character order.
pub open spec fn text_le(a: Seq<char>, b: Seq<char>) -> bool
    decreases a.len(),
{
    if a.len() == 0 {
        true
    } else if b.len() == 0 {
        false
    } else if a[0] != b[0] {
        (a[0] as u32) < (b[0] as u32)
    } else {
        text_le(a.drop_first(), b.drop_first())
    }
}

/// Entries ordered by their names.
pub open spec fn sorted_by_name<T>(s: Seq<(String, T)>) -> bool {
    forall|i: int, j: int| 0 <= i < j < s.len() ==> text_le(#[trigger] s[i].0@, #[trigger] s[j].0@)
}

/// Relies on `slice::sort_by` with `String`'s order, which compares texts
/// byte by byte (the same as character by character): the entries are
/// rearranged, none lost or added, into name order.
#[verifier::external_body]
fn sort_by_name<T>(v: &mut Vec<(String, T)>)
    ensures
        final(v)@.to_multiset() == old(v)@.to_multiset(),
        sorted_by_name(final(v)@),
{
    v.sort_by(|a, b| a.0.cmp(&b.0))
}

/// Entries put in name order; none lost or added.
pub fn order_by_name<T>(v: Vec<(String, T)>) -> (r: Vec<(String, T)>)
    ensures
        r@.to_multiset() == v@.to_multiset(),
        sorted_by_name(r@),
{
    let mut r = v;
    sort_by_name(&mut r);
    r
}

} // verus!
