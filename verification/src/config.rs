//! Choosing the model provider from the table in `api_keys.yaml`.

use vstd::prelude::*;
use vstd::string::StringExecFns;
use crate::text::{cat2, cat3, join_strings, joined, str_eq, views};

verus! {

/// The provider that the agent talks to.
#[derive(Debug)]
pub struct AgentConfig {
    /// The provider's name in the table.
    pub provider: String,
    /// The base address of its chat API.
    pub base_url: String,
    /// The key sent as a bearer token.
    pub api_key: String,
    /// The model asked for.
    pub model: String,
}

/// The view of a configuration.
pub struct ConfigView {
    pub provider: Seq<char>,
    pub base_url: Seq<char>,
    pub api_key: Seq<char>,
    pub model: Seq<char>,
}

impl View for AgentConfig {
    type V = ConfigView;

    open spec fn view(&self) -> ConfigView {
        ConfigView {
            provider: self.provider@,
            base_url: self.base_url@,
            api_key: self.api_key@,
            model: self.model@,
        }
    }
}

/// One provider of the table.
pub struct ProviderEntry {
    pub url: String,
    pub api_key: String,
    pub model: String,
}

/// The view of a provider entry.
pub struct EntryView {
    pub url: Seq<char>,
    pub api_key: Seq<char>,
    pub model: Seq<char>,
}

impl View for ProviderEntry {
    type V = EntryView;

    open spec fn view(&self) -> EntryView {
        EntryView { url: self.url@, api_key: self.api_key@, model: self.model@ }
    }
}

/// The providers of the configuration file, by name, and the default one.
pub struct ProviderTable {
    default: Option<String>,
    providers: Vec<(String, ProviderEntry)>,
}

/// The view of the provider table: the default's name, and the providers in the order
/// they were added.
pub struct TableView {
    pub default: Option<Seq<char>>,
    pub providers: Seq<(Seq<char>, EntryView)>,
}

impl View for ProviderTable {
    type V = TableView;

    closed spec fn view(&self) -> TableView {
        TableView {
            default: match self.default {
                Some(d) => Some(d@),
                None => None,
            },
            providers: self.providers@.map_values(|p: (String, ProviderEntry)| (p.0@, p.1@)),
        }
    }
}

/// The names of the providers.
pub open spec fn provider_names(p: Seq<(Seq<char>, EntryView)>) -> Seq<Seq<char>> {
    p.map_values(|e: (Seq<char>, EntryView)| e.0)
}

/// No name occurs twice in the table.
pub open spec fn names_distinct(p: Seq<(Seq<char>, EntryView)>) -> bool {
    forall|i: int, j: int| 0 <= i < j < p.len() ==> p[i].0 != p[j].0
}

/// The first position with this name.
pub open spec fn is_first(p: Seq<(Seq<char>, EntryView)>, name: Seq<char>, i: int) -> bool {
    &&& 0 <= i < p.len()
    &&& p[i].0 == name
    &&& forall|j: int| 0 <= j < i ==> p[j].0 != name
}

/// The position of the provider with this name, if any (the first, should it occur twice).
pub open spec fn find_provider(p: Seq<(Seq<char>, EntryView)>, name: Seq<char>) -> Option<int> {
    if exists|i: int| 0 <= i < p.len() && p[i].0 == name {
        Some(choose|i: int| is_first(p, name, i))
    } else {
        None
    }
}

proof fn lemma_first_exists(p: Seq<(Seq<char>, EntryView)>, name: Seq<char>, i: int) -> (k: int)
    requires
        0 <= i < p.len(),
        p[i].0 == name,
    ensures
        is_first(p, name, k),
    decreases i,
{
    if forall|j: int| 0 <= j < i ==> p[j].0 != name {
        i
    } else {
        let j = choose|j: int| 0 <= j < i && p[j].0 == name;
        lemma_first_exists(p, name, j)
    }
}

proof fn lemma_find_first(p: Seq<(Seq<char>, EntryView)>, name: Seq<char>, i: int)
    requires
        is_first(p, name, i),
    ensures
        find_provider(p, name) == Some(i),
{
    let k = choose|k: int| is_first(p, name, k);
    assert(is_first(p, name, k));
    if k < i {
        assert(p[k].0 != name);
    }
    if i < k {
        assert(p[i].0 != name);
    }
}

/// The table after adding a provider: an entry of the same name is replaced in place,
/// a new name goes last.
pub open spec fn insert_spec(t: TableView, name: Seq<char>, e: EntryView) -> TableView {
    match find_provider(t.providers, name) {
        Some(i) => TableView { providers: t.providers.update(i, (name, e)), ..t },
        None => TableView { providers: t.providers.push((name, e)), ..t },
    }
}

impl ProviderTable {
    /// An empty table with the given default.
    pub fn new(default: Option<String>) -> (t: ProviderTable)
        ensures
            t@.default == (match default {
                Some(d) => Some(d@),
                None => None::<Seq<char>>,
            }),
            t@.providers == Seq::<(Seq<char>, EntryView)>::empty(),
            names_distinct(t@.providers),
    {
        let t = ProviderTable { default, providers: Vec::new() };
        assert(t@.providers =~= Seq::<(Seq<char>, EntryView)>::empty());
        t
    }

    /// Adds a provider under a name.
    #[verifier::loop_isolation(false)]
    pub fn insert(&mut self, name: String, entry: ProviderEntry)
        requires
            names_distinct(old(self)@.providers),
        ensures
            final(self)@ == insert_spec(old(self)@, name@, entry@),
            names_distinct(final(self)@.providers),
    {
        let ghost p = self@.providers;
        let ghost nv = name@;
        let ghost ev = entry@;
        let mut i: usize = 0;
        while i < self.providers.len()
            invariant
                p == self@.providers,
                self@ == old(self)@,
                i <= p.len(),
                forall|j: int| 0 <= j < i ==> p[j].0 != nv,
            decreases p.len() - i,
        {
            assert(p[i as int].0 == self.providers@[i as int].0@);
            if str_eq(self.providers[i].0.as_str(), name.as_str()) {
                assert(p[i as int].0 == nv);
                proof {
                    lemma_find_first(p, nv, i as int);
                }
                self.providers.set(i, (name, entry));
                assert(self@.providers =~= p.update(i as int, (nv, ev)));
                assert(self@.default == old(self)@.default);
                assert(self@ == insert_spec(old(self)@, nv, ev));
                return;
            }
            i = i + 1;
        }
        assert(find_provider(p, nv) is None);
        self.providers.push((name, entry));
        assert(self@.providers =~= p.push((nv, ev)));
        assert(self@.default == old(self)@.default);
        assert(self@ == insert_spec(old(self)@, nv, ev));
    }

    /// The names of the providers, in the order they were added.
    pub fn names(&self) -> (r: Vec<String>)
        ensures
            views(r@) == provider_names(self@.providers),
    {
        let mut r: Vec<String> = Vec::new();
        let mut i: usize = 0;
        while i < self.providers.len()
            invariant
                i <= self.providers@.len(),
                r@.len() == i,
                forall|j: int| 0 <= j < i ==> (#[trigger] r@[j])@ == self.providers@[j].0@,
            decreases self.providers@.len() - i,
        {
            r.push(self.providers[i].0.clone());
            i = i + 1;
        }
        assert(views(r@) =~= provider_names(self@.providers));
        r
    }
}

/// Why no configuration came out.
pub enum ConfigError {
    /// The file could not be read.
    Unreadable { path: String, reason: String },
    /// The file is not the YAML expected.
    Malformed { reason: String },
    /// The table has no provider.
    NoProviders,
    /// Neither the environment nor the file names a provider.
    NoProviderChosen { available: Vec<String> },
    /// The provider named is not in the table.
    UnknownProvider { name: String, available: Vec<String> },
}

/// The view of a configuration error.
pub enum ConfigErrorView {
    Unreadable { path: Seq<char>, reason: Seq<char> },
    Malformed { reason: Seq<char> },
    NoProviders,
    NoProviderChosen { available: Seq<Seq<char>> },
    UnknownProvider { name: Seq<char>, available: Seq<Seq<char>> },
}

impl View for ConfigError {
    type V = ConfigErrorView;

    open spec fn view(&self) -> ConfigErrorView {
        match self {
            ConfigError::Unreadable { path, reason } => ConfigErrorView::Unreadable {
                path: path@,
                reason: reason@,
            },
            ConfigError::Malformed { reason } => ConfigErrorView::Malformed { reason: reason@ },
            ConfigError::NoProviders => ConfigErrorView::NoProviders,
            ConfigError::NoProviderChosen { available } => ConfigErrorView::NoProviderChosen {
                available: views(available@),
            },
            ConfigError::UnknownProvider { name, available } => ConfigErrorView::UnknownProvider {
                name: name@,
                available: views(available@),
            },
        }
    }
}

/// The view of a configuration result.
pub open spec fn config_result_view(r: Result<AgentConfig, ConfigError>) -> Result<ConfigView, ConfigErrorView> {
    match r {
        Ok(c) => Ok(c@),
        Err(e) => Err(e@),
    }
}

/// The provider chosen: the one the environment names, else the file's default; the
/// table must not be empty, and the name must be in it.
pub open spec fn resolve_spec(t: TableView, env_provider: Option<Seq<char>>) -> Result<ConfigView, ConfigErrorView> {
    if t.providers.len() == 0 {
        Err(ConfigErrorView::NoProviders)
    } else {
        let target = match env_provider {
            Some(n) => Some(n),
            None => t.default,
        };
        match target {
            None => Err(ConfigErrorView::NoProviderChosen { available: provider_names(t.providers) }),
            Some(name) => match find_provider(t.providers, name) {
                None => Err(
                    ConfigErrorView::UnknownProvider { name, available: provider_names(t.providers) },
                ),
                Some(i) => Ok(
                    ConfigView {
                        provider: name,
                        base_url: t.providers[i].1.url,
                        api_key: t.providers[i].1.api_key,
                        model: t.providers[i].1.model,
                    },
                ),
            },
        }
    }
}

/// Chooses the provider: the one that `AGENT_PROVIDER` names (given here as
/// `env_provider`), else the table's default.
#[verifier::loop_isolation(false)]
pub fn resolve_config(table: &ProviderTable, env_provider: Option<String>) -> (r: Result<
    AgentConfig,
    ConfigError,
>)
    ensures
        config_result_view(r) == resolve_spec(
            table@,
            match env_provider {
                Some(n) => Some(n@),
                None => None,
            },
        ),
{
    if table.providers.len() == 0 {
        return Err(ConfigError::NoProviders);
    }
    let target = match env_provider {
        Some(n) => Some(n),
        None => match &table.default {
            Some(d) => Some(d.clone()),
            None => None,
        },
    };
    match target {
        None => Err(ConfigError::NoProviderChosen { available: table.names() }),
        Some(name) => {
            let ghost p = table@.providers;
            let mut i: usize = 0;
            while i < table.providers.len()
                invariant
                    p == table@.providers,
                    i <= p.len(),
                    forall|j: int| 0 <= j < i ==> p[j].0 != name@,
                decreases p.len() - i,
            {
                assert(p[i as int].0 == table.providers@[i as int].0@);
                if str_eq(table.providers[i].0.as_str(), name.as_str()) {
                    assert(p[i as int].0 == name@);
                    let e = &table.providers[i].1;
                    let c = AgentConfig {
                        provider: name,
                        base_url: e.url.clone(),
                        api_key: e.api_key.clone(),
                        model: e.model.clone(),
                    };
                    proof {
                        lemma_find_first(p, name@, i as int);
                    }
                    return Ok(c);
                }
                i = i + 1;
            }
            assert(find_provider(p, name@) is None);
            Err(ConfigError::UnknownProvider { name, available: table.names() })
        },
    }
}

/// The message shown for a configuration error.
pub open spec fn error_message(e: ConfigErrorView) -> Seq<char> {
    match e {
        ConfigErrorView::Unreadable { path, reason } => "无法读取配置文件 "@ + path + ": "@ + reason,
        ConfigErrorView::Malformed { reason } => "解析 YAML 失败: "@ + reason,
        ConfigErrorView::NoProviders => "api_keys.yaml 中没有配置任何 Provider"@,
        ConfigErrorView::NoProviderChosen { available } =>
            "未指定 Provider。请设置 AGENT_PROVIDER 环境变量或在 yaml 中配置 default\n可用: "@
            + joined(available, ", "@),
        ConfigErrorView::UnknownProvider { name, available } => "未找到 Provider \""@ + name
            + "\"，可用: "@ + joined(available, ", "@),
    }
}

impl ConfigError {
    /// The message shown for the error.
    pub fn message(&self) -> (r: String)
        ensures
            r@ == error_message(self@),
    {
        match self {
            ConfigError::Unreadable { path, reason } => {
                let mut r = cat3("无法读取配置文件 ", path.as_str(), ": ");
                r.append(reason.as_str());
                r
            },
            ConfigError::Malformed { reason } => cat2("解析 YAML 失败: ", reason.as_str()),
            ConfigError::NoProviders => "api_keys.yaml 中没有配置任何 Provider".to_owned(),
            ConfigError::NoProviderChosen { available } => cat2(
                "未指定 Provider。请设置 AGENT_PROVIDER 环境变量或在 yaml 中配置 default\n可用: ",
                join_strings(available, ", ").as_str(),
            ),
            ConfigError::UnknownProvider { name, available } => {
                let mut r = cat3("未找到 Provider \"", name.as_str(), "\"，可用: ");
                r.append(join_strings(available, ", ").as_str());
                r
            },
        }
    }
}

/// The provider that `AGENT_PROVIDER` names is used, whatever the file's default, when
/// the table has it.
pub proof fn law_env_overrides_default(t: TableView, name: Seq<char>, i: int)
    requires
        0 <= i < t.providers.len(),
        t.providers[i].0 == name,
    ensures
        resolve_spec(t, Some(name)) is Ok,
        resolve_spec(t, Some(name))->Ok_0.provider == name,
{
}

/// Without `AGENT_PROVIDER`, the file's default is used, when the table has it.
pub proof fn law_default_without_env(t: TableView, name: Seq<char>, i: int)
    requires
        t.default == Some(name),
        0 <= i < t.providers.len(),
        t.providers[i].0 == name,
    ensures
        resolve_spec(t, None) is Ok,
        resolve_spec(t, None)->Ok_0.provider == name,
{
}

/// A chosen configuration is one entry of the table, under its own name.
pub proof fn law_config_is_an_entry(t: TableView, env_provider: Option<Seq<char>>)
    requires
        resolve_spec(t, env_provider) is Ok,
    ensures
        ({
            let c = resolve_spec(t, env_provider)->Ok_0;
            exists|i: int|
                0 <= i < t.providers.len() && #[trigger] t.providers[i].0 == c.provider
                    && t.providers[i].1 == (EntryView {
                    url: c.base_url,
                    api_key: c.api_key,
                    model: c.model,
                })
        }),
{
    let c = resolve_spec(t, env_provider)->Ok_0;
    let target = match env_provider {
        Some(n) => n,
        None => t.default->Some_0,
    };
    let w = choose|w: int| 0 <= w < t.providers.len() && t.providers[w].0 == target;
    let k = lemma_first_exists(t.providers, target, w);
    lemma_find_first(t.providers, target, k);
    assert(t.providers[k].0 == c.provider);
}

/// Success comes exactly when the table is not empty and the name chosen (the
/// environment's, else the default) is in it.
pub proof fn law_config_success(t: TableView, env_provider: Option<Seq<char>>)
    ensures
        (resolve_spec(t, env_provider) is Ok) == (t.providers.len() > 0 && ({
            let target = match env_provider {
                Some(n) => Some(n),
                None => t.default,
            };
            target matches Some(n) && exists|i: int| 0 <= i < t.providers.len() && t.providers[i].0 == n
        })),
{
}

/// A provider just added is the one chosen under its name, with the entry just added.
pub proof fn law_insert_then_resolve(t: TableView, name: Seq<char>, e: EntryView)
    ensures
        resolve_spec(insert_spec(t, name, e), Some(name)) == Ok::<ConfigView, ConfigErrorView>(
            ConfigView { provider: name, base_url: e.url, api_key: e.api_key, model: e.model },
        ),
{
    let u = insert_spec(t, name, e);
    match find_provider(t.providers, name) {
        Some(i) => {
            let w = choose|w: int| 0 <= w < t.providers.len() && t.providers[w].0 == name;
            let k = lemma_first_exists(t.providers, name, w);
            lemma_find_first(t.providers, name, k);
            assert(is_first(u.providers, name, i));
            lemma_find_first(u.providers, name, i);
        },
        None => {
            let n = t.providers.len() as int;
            assert(is_first(u.providers, name, n));
            lemma_find_first(u.providers, name, n);
        },
    }
}

} // verus!
