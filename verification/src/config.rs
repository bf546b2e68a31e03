//! Global configuration: the registries wapm talks to, the login token kept
//! for each, and the other settings of the configuration file.

use vstd::prelude::*;
use vstd::string::StrSliceExecFns;
use vstd::string::StringExecFns;
use crate::assoc::{
    key_index, keys_unique, lemma_key_index, lemma_remove_lookup, lemma_upsert_lookup, lookup,
    remove_key, upsert,
};
use crate::text::{
    opt_view,
    ends_with, i32_to_decimal, int_decimal, lemma_i32_decimal_reads_back, parse_i32, spec_ends_with, spec_parse_i32, str_eq,
};

verus! {

/// The registry URL as its GraphQL endpoint: `/graphql` is appended unless
/// the URL already ends with it (after a `/`, only `graphql`).
pub open spec fn spec_format_graphql(r: Seq<char>) -> Seq<char> {
    if spec_ends_with(r, "/graphql"@) {
        r
    } else if spec_ends_with(r, "/"@) {
        r + "graphql"@
    } else {
        r + "/graphql"@
    }
}

/// The GraphQL endpoint of a registry URL.
pub fn format_graphql(registry: &str) -> (res: String)
    ensures
        res@ == spec_format_graphql(registry@),
{
    if ends_with(registry, "/graphql") {
        String::from_str(registry)
    } else if ends_with(registry, "/") {
        String::from_str(registry).concat("graphql")
    } else {
        String::from_str(registry).concat("/graphql")
    }
}

/// A GraphQL endpoint ends with `/graphql`, and formatting it again changes
/// nothing.
pub proof fn law_format_graphql_idempotent(r: Seq<char>)
    ensures
        spec_ends_with(spec_format_graphql(r), "/graphql"@),
        spec_format_graphql(spec_format_graphql(r)) == spec_format_graphql(r),
{
    reveal_strlit("/graphql");
    reveal_strlit("graphql");
    reveal_strlit("/");
    let f = spec_format_graphql(r);
    if spec_ends_with(r, "/graphql"@) {
    } else if spec_ends_with(r, "/"@) {
        assert(f.subrange(f.len() - 8, f.len() as int) =~= "/graphql"@) by {
            assert(r.subrange(r.len() - 1, r.len() as int)[0] == r[r.len() - 1]);
            assert(r[r.len() - 1] == '/');
            assert(f.subrange(f.len() - 8, f.len() as int)[0] == r[r.len() - 1]);
        }
    } else {
        assert(f.subrange(f.len() - 8, f.len() as int) =~= "/graphql"@);
    }
}

pub open spec fn tokens_view(v: Seq<(String, String)>) -> Seq<(Seq<char>, Seq<char>)> {
    v.map_values(|e: (String, String)| (e.0@, e.1@))
}

fn copy_opt(o: &Option<String>) -> (res: Option<String>)
    ensures
        opt_view(res) == opt_view(*o),
{
    match o {
        Some(s) => Some(s.clone()),
        None => None,
    }
}

/// A single registry and the token for it.
#[derive(Debug, Clone, PartialEq, Eq)]
pub struct Registry {
    pub url: String,
    pub token: Option<String>,
}

/// Several registries: the current one, and a login token per registry URL.
#[derive(Debug, Clone, PartialEq, Eq)]
pub struct MultiRegistry {
    /// Currently active registry
    pub current: String,
    /// Registry URL and login token, one entry per URL, so as to switch
    /// between registries easily.
    pub tokens: Vec<(String, String)>,
}

/// The registry configuration.
#[derive(Debug, Clone, PartialEq, Eq)]
pub enum Registries {
    Single(Registry),
    Multi(MultiRegistry),
}

pub struct RegistryModel {
    pub url: Seq<char>,
    pub token: Option<Seq<char>>,
}

pub struct MultiRegistryModel {
    pub current: Seq<char>,
    pub tokens: Seq<(Seq<char>, Seq<char>)>,
}

pub enum RegistriesModel {
    Single(RegistryModel),
    Multi(MultiRegistryModel),
}

impl View for Registry {
    type V = RegistryModel;

    open spec fn view(&self) -> RegistryModel {
        RegistryModel { url: self.url@, token: opt_view(self.token) }
    }
}

impl View for MultiRegistry {
    type V = MultiRegistryModel;

    open spec fn view(&self) -> MultiRegistryModel {
        MultiRegistryModel { current: self.current@, tokens: tokens_view(self.tokens@) }
    }
}

impl View for Registries {
    type V = RegistriesModel;

    open spec fn view(&self) -> RegistriesModel {
        match self {
            Registries::Single(s) => RegistriesModel::Single(s@),
            Registries::Multi(m) => RegistriesModel::Multi(m@),
        }
    }
}

/// Whether setting a token also makes its registry the current one.
#[derive(PartialEq, Eq, Copy, Clone, Debug, Structural)]
pub enum UpdateRegistry {
    Update,
    LeaveAsIs,
}

impl RegistriesModel {
    /// No registry URL has two tokens.
    pub open spec fn wf(self) -> bool {
        match self {
            RegistriesModel::Single(_) => true,
            RegistriesModel::Multi(m) => keys_unique(m.tokens),
        }
    }

    /// The current registry's GraphQL endpoint.
    pub open spec fn current_registry(self) -> Seq<char> {
        match self {
            RegistriesModel::Single(s) => spec_format_graphql(s.url),
            RegistriesModel::Multi(m) => spec_format_graphql(m.current),
        }
    }

    /// The token kept for a registry: a single registry's token when the URL
    /// or its endpoint is the registry's; otherwise the token under the URL,
    /// or else under its endpoint.
    pub open spec fn token_for(self, r: Seq<char>) -> Option<Seq<char>> {
        match self {
            RegistriesModel::Single(s) => if s.url == r || spec_format_graphql(r) == s.url {
                s.token
            } else {
                None
            },
            RegistriesModel::Multi(m) => match lookup(m.tokens, r) {
                Some(t) => Some(t),
                None => lookup(m.tokens, spec_format_graphql(r)),
            },
        }
    }

    /// The configuration with the current registry's token forgotten.
    pub open spec fn cleared(self) -> RegistriesModel {
        match self {
            RegistriesModel::Single(s) => RegistriesModel::Single(
                RegistryModel { url: s.url, token: None },
            ),
            RegistriesModel::Multi(m) => RegistriesModel::Multi(
                MultiRegistryModel {
                    current: m.current,
                    tokens: remove_key(
                        remove_key(m.tokens, m.current),
                        spec_format_graphql(m.current),
                    ),
                },
            ),
        }
    }

    /// The configuration with `r` as the current registry (`r` is already an
    /// endpoint).
    pub open spec fn with_current(self, r: Seq<char>) -> RegistriesModel {
        match self {
            RegistriesModel::Single(s) => RegistriesModel::Single(
                RegistryModel { url: r, token: s.token },
            ),
            RegistriesModel::Multi(m) => RegistriesModel::Multi(
                MultiRegistryModel { current: r, tokens: m.tokens },
            ),
        }
    }

    /// The configuration with token `t` kept for registry `r`. A single
    /// registry stays single when `r` is its URL; otherwise it turns into
    /// several, keeping its own token under its endpoint.
    pub open spec fn with_token(self, r: Seq<char>, t: Seq<char>, u: UpdateRegistry) -> RegistriesModel {
        match self {
            RegistriesModel::Single(s) => if s.url == r {
                RegistriesModel::Single(RegistryModel { url: spec_format_graphql(r), token: Some(t) })
            } else {
                let first: Seq<(Seq<char>, Seq<char>)> = match s.token {
                    Some(old) => seq![(spec_format_graphql(s.url), old)],
                    None => seq![],
                };
                RegistriesModel::Multi(
                    MultiRegistryModel {
                        current: spec_format_graphql(s.url),
                        tokens: upsert(first, spec_format_graphql(r), t),
                    },
                )
            },
            RegistriesModel::Multi(m) => RegistriesModel::Multi(
                MultiRegistryModel {
                    current: if u == UpdateRegistry::Update {
                        spec_format_graphql(r)
                    } else {
                        m.current
                    },
                    tokens: upsert(m.tokens, spec_format_graphql(r), t),
                },
            ),
        }
    }
}

/// Position of the token kept under a registry URL.
fn find_token(m: &Vec<(String, String)>, k: &str) -> (res: Option<usize>)
    ensures
        res is None ==> key_index(tokens_view(m@), k@) == -1,
        res matches Some(i) ==> key_index(tokens_view(m@), k@) == i && i < m@.len(),
{
    let ghost v = tokens_view(m@);
    let key = String::from_str(k);
    proof {
        lemma_key_index(v, k@);
    }
    for i in 0..m.len()
        invariant
            v == tokens_view(m@),
            key@ == k@,
            forall|j: int| 0 <= j < i ==> v[j].0 != k@,
    {
        assert(v[i as int] == (m@[i as int].0@, m@[i as int].1@));
        if m[i].0 == key {
            proof {
                lemma_key_index(v, k@);
            }
            return Some(i);
        }
    }
    proof {
        lemma_key_index(v, k@);
    }
    None
}

fn lookup_token(m: &Vec<(String, String)>, k: &str) -> (res: Option<String>)
    ensures
        opt_view(res) == lookup(tokens_view(m@), k@),
{
    match find_token(m, k) {
        Some(i) => Some(m[i].1.clone()),
        None => None,
    }
}

fn upsert_token(m: &mut Vec<(String, String)>, k: String, v: String)
    ensures
        tokens_view(final(m)@) == upsert(tokens_view(old(m)@), k@, v@),
{
    let ghost before = tokens_view(m@);
    match find_token(m, k.as_str()) {
        Some(i) => {
            m[i] = (k, v);
            assert(tokens_view(m@) =~= before.update(i as int, (k@, v@)));
        },
        None => {
            m.push((k, v));
            assert(tokens_view(m@) =~= before.push((k@, v@)));
        },
    }
}

fn remove_token(m: &mut Vec<(String, String)>, k: &str)
    ensures
        tokens_view(final(m)@) == remove_key(tokens_view(old(m)@), k@),
{
    let ghost before = tokens_view(m@);
    if let Some(i) = find_token(m, k) {
        m.remove(i);
        assert(tokens_view(m@) =~= before.remove(i as int));
    }
}

impl Default for Registries {
    /// The registry that wapm uses out of the box.
    fn default() -> (res: Registries)
        ensures
            res@ == RegistriesModel::Single(
                RegistryModel {
                    url: spec_format_graphql("https://registry.wapm.io"@),
                    token: None,
                },
            ),
    {
        Registries::Single(Registry { url: format_graphql("https://registry.wapm.io"), token: None })
    }
}

impl Registries {
    /// Forgets the token of the current (active) registry.
    pub fn clear_current_registry_token(&mut self)
        ensures
            final(self)@ == old(self)@.cleared(),
    {
        match self {
            Registries::Single(s) => {
                s.token = None;
            },
            Registries::Multi(m) => {
                let endpoint = format_graphql(m.current.as_str());
                remove_token(&mut m.tokens, m.current.as_str());
                remove_token(&mut m.tokens, endpoint.as_str());
            },
        }
    }

    /// The GraphQL endpoint of the current registry.
    pub fn get_graphql_url(&self) -> (res: String)
        ensures
            res@ == spec_format_graphql(self@.current_registry()),
    {
        let registry = self.get_current_registry();
        format_graphql(registry.as_str())
    }

    /// Gets the current (active) registry URL
    pub fn get_current_registry(&self) -> (res: String)
        ensures
            res@ == self@.current_registry(),
    {
        match self {
            Registries::Single(s) => format_graphql(s.url.as_str()),
            Registries::Multi(m) => format_graphql(m.current.as_str()),
        }
    }

    /// Sets the current (active) registry URL, as its GraphQL endpoint.
    pub fn set_current_registry(&mut self, registry: &str)
        ensures
            final(self)@ == old(self)@.with_current(spec_format_graphql(registry@)),
    {
        let registry = format_graphql(registry);
        match self {
            Registries::Single(s) => {
                s.url = registry;
            },
            Registries::Multi(m) => {
                m.current = registry;
            },
        }
    }

    /// Returns the login token for the registry
    pub fn get_login_token_for_registry(&self, registry: &str) -> (res: Option<String>)
        ensures
            opt_view(res) == self@.token_for(registry@),
    {
        match self {
            Registries::Single(s) => {
                let endpoint = format_graphql(registry);
                if s.url == String::from_str(registry) || endpoint == s.url {
                    copy_opt(&s.token)
                } else {
                    None
                }
            },
            Registries::Multi(m) => {
                match lookup_token(&m.tokens, registry) {
                    Some(t) => Some(t),
                    None => {
                        let endpoint = format_graphql(registry);
                        lookup_token(&m.tokens, endpoint.as_str())
                    },
                }
            },
        }
    }

    /// Sets the login token for the registry URL
    pub fn set_login_token_for_registry(
        &mut self,
        registry: &str,
        token: &str,
        update_current_registry: UpdateRegistry,
    )
        ensures
            final(self)@ == old(self)@.with_token(registry@, token@, update_current_registry),
    {
        let endpoint = format_graphql(registry);
        let new_map = match self {
            Registries::Single(s) => {
                if s.url == String::from_str(registry) {
                    Registries::Single(Registry { url: endpoint, token: Some(String::from_str(token)) })
                } else {
                    let own = format_graphql(s.url.as_str());
                    let mut map: Vec<(String, String)> = Vec::new();
                    if let Some(t) = &s.token {
                        map.push((own.clone(), t.clone()));
                    }
                    let ghost first = tokens_view(map@);
                    assert(first =~= match s@.token {
                        Some(old) => seq![(spec_format_graphql(s@.url), old)],
                        None => seq![],
                    });
                    upsert_token(&mut map, endpoint, String::from_str(token));
                    Registries::Multi(MultiRegistry { current: own, tokens: map })
                }
            },
            Registries::Multi(m) => {
                let mut tokens = copy_tokens(&m.tokens);
                upsert_token(&mut tokens, endpoint.clone(), String::from_str(token));
                let current = if update_current_registry == UpdateRegistry::Update {
                    endpoint
                } else {
                    m.current.clone()
                };
                Registries::Multi(MultiRegistry { current, tokens })
            },
        };
        *self = new_map;
    }
}

fn copy_tokens(v: &Vec<(String, String)>) -> (res: Vec<(String, String)>)
    ensures
        tokens_view(res@) == tokens_view(v@),
{
    let mut res: Vec<(String, String)> = Vec::new();
    for i in 0..v.len()
        invariant
            res@.len() == i,
            tokens_view(res@) == tokens_view(v@).take(i as int),
    {
        let e = (v[i].0.clone(), v[i].1.clone());
        let ghost old_res = res@;
        res.push(e);
        assert(tokens_view(res@) =~= tokens_view(v@).take(i + 1)) by {
            assert forall|j: int| 0 <= j < i + 1 implies tokens_view(res@)[j] == tokens_view(
                v@,
            ).take(i + 1)[j] by {
                if j < i {
                    assert(tokens_view(res@)[j] == (res@[j].0@, res@[j].1@));
                    assert(tokens_view(old_res)[j] == (old_res[j].0@, old_res[j].1@));
                }
            }
        }
    }
    assert(tokens_view(v@).take(v.len() as int) =~= tokens_view(v@));
    res
}


/// Setting the token for a registry and reading the token for its endpoint
/// gives that token back.
pub proof fn law_token_read_back(reg: RegistriesModel, r: Seq<char>, t: Seq<char>, u: UpdateRegistry)
    ensures
        reg.with_token(r, t, u).token_for(spec_format_graphql(r)) == Some(t),
{
    law_format_graphql_idempotent(r);
    match reg {
        RegistriesModel::Single(s) => {
            if s.url != r {
                let first: Seq<(Seq<char>, Seq<char>)> = match s.token {
                    Some(old) => seq![(spec_format_graphql(s.url), old)],
                    None => seq![],
                };
                lemma_upsert_lookup(first, spec_format_graphql(r), t, spec_format_graphql(r));
            }
        },
        RegistriesModel::Multi(m) => {
            lemma_upsert_lookup(m.tokens, spec_format_graphql(r), t, spec_format_graphql(r));
        },
    }
}

/// Setting a token without asking to switch leaves the current registry as it was.
pub proof fn law_leave_as_is_keeps_current(reg: RegistriesModel, r: Seq<char>, t: Seq<char>)
    ensures
        reg.with_token(r, t, UpdateRegistry::LeaveAsIs).current_registry() == reg.current_registry(),
{
    law_format_graphql_idempotent(r);
    match reg {
        RegistriesModel::Single(s) => {
            law_format_graphql_idempotent(s.url);
        },
        RegistriesModel::Multi(_) => {},
    }
}

/// Setting the token for a registry and reading the token for that same
/// registry gives the token back, where no other token is kept under the
/// registry's URL as written (only endpoints are keys).
pub proof fn law_token_read_back_as_given(reg: RegistriesModel, r: Seq<char>, t: Seq<char>, u: UpdateRegistry)
    requires
        reg matches RegistriesModel::Multi(m) ==> (r != spec_format_graphql(r) ==> lookup(m.tokens, r) is None),
    ensures
        reg.with_token(r, t, u).token_for(r) == Some(t),
{
    law_format_graphql_idempotent(r);
    let fr = spec_format_graphql(r);
    match reg {
        RegistriesModel::Single(s) => {
            if s.url != r {
                let first: Seq<(Seq<char>, Seq<char>)> = match s.token {
                    Some(old) => seq![(spec_format_graphql(s.url), old)],
                    None => seq![],
                };
                lemma_upsert_lookup(first, fr, t, r);
                lemma_upsert_lookup(first, fr, t, fr);
                if r != fr {
                    law_format_graphql_idempotent(s.url);
                    lemma_key_index(first, r);
                }
            }
        },
        RegistriesModel::Multi(m) => {
            lemma_upsert_lookup(m.tokens, fr, t, r);
            lemma_upsert_lookup(m.tokens, fr, t, fr);
        },
    }
}

/// Setting the token for a registry keeps the token of every registry with
/// another endpoint, where a single registry is kept under its endpoint.
pub proof fn law_other_tokens_kept(reg: RegistriesModel, r: Seq<char>, t: Seq<char>, u: UpdateRegistry, r2: Seq<char>)
    requires
        reg matches RegistriesModel::Single(s) ==> s.url == spec_format_graphql(s.url),
        spec_format_graphql(r2) != spec_format_graphql(r),
    ensures
        reg.with_token(r, t, u).token_for(r2) == reg.token_for(r2),
{
    law_format_graphql_idempotent(r);
    law_format_graphql_idempotent(r2);
    let fr = spec_format_graphql(r);
    let fr2 = spec_format_graphql(r2);
    match reg {
        RegistriesModel::Single(s) => {
            law_format_graphql_idempotent(s.url);
            if s.url != r {
                let first: Seq<(Seq<char>, Seq<char>)> = match s.token {
                    Some(old) => seq![(spec_format_graphql(s.url), old)],
                    None => seq![],
                };
                lemma_upsert_lookup(first, fr, t, r2);
                lemma_upsert_lookup(first, fr, t, fr2);
                lemma_key_index(first, r2);
                lemma_key_index(first, fr2);
            }
        },
        RegistriesModel::Multi(m) => {
            lemma_upsert_lookup(m.tokens, fr, t, r2);
            lemma_upsert_lookup(m.tokens, fr, t, fr2);
        },
    }
}

/// Setting a token and asking to switch makes the registry's endpoint the
/// current one, where several registries are kept.
pub proof fn law_update_switches_current(reg: RegistriesModel, r: Seq<char>, t: Seq<char>)
    requires
        reg is Multi,
    ensures
        reg.with_token(r, t, UpdateRegistry::Update).current_registry() == spec_format_graphql(r),
{
    law_format_graphql_idempotent(r);
}

/// After the current registry's token is cleared, no token is found for the
/// current registry.
pub proof fn law_clear_forgets_current(reg: RegistriesModel)
    requires
        reg.wf(),
    ensures
        reg.cleared().wf(),
        reg.cleared().current_registry() == reg.current_registry(),
        reg.cleared().token_for(reg.cleared().current_registry()) == None::<Seq<char>>,
{
    match reg {
        RegistriesModel::Single(_) => {},
        RegistriesModel::Multi(m) => {
            let f = spec_format_graphql(m.current);
            law_format_graphql_idempotent(m.current);
            let once = remove_key(m.tokens, m.current);
            lemma_remove_lookup(m.tokens, m.current, f);
            lemma_remove_lookup(once, f, f);
        },
    }
}

/// Switching registries makes the given registry's endpoint the current one.
pub proof fn law_set_current_read_back(reg: RegistriesModel, r: Seq<char>)
    ensures
        reg.with_current(spec_format_graphql(r)).current_registry() == spec_format_graphql(r),
{
    law_format_graphql_idempotent(r);
}

/// Setting a token keeps every registry URL with one token.
pub proof fn law_with_token_wf(reg: RegistriesModel, r: Seq<char>, t: Seq<char>, u: UpdateRegistry)
    requires
        reg.wf(),
    ensures
        reg.with_token(r, t, u).wf(),
{
    match reg {
        RegistriesModel::Single(s) => {
            let first: Seq<(Seq<char>, Seq<char>)> = match s.token {
                Some(old) => seq![(spec_format_graphql(s.url), old)],
                None => seq![],
            };
            lemma_upsert_lookup(first, spec_format_graphql(r), t, spec_format_graphql(r));
        },
        RegistriesModel::Multi(m) => {
            lemma_upsert_lookup(m.tokens, spec_format_graphql(r), t, spec_format_graphql(r));
        },
    }
}


/// The default cooldown for wax, in seconds.
pub fn wax_default_cooldown() -> (res: i32)
    ensures
        res == 5 * 60,
{
    5 * 60
}

/// Whether telemetry is enabled (`"true"` or not).
#[derive(Debug, Clone, PartialEq, Eq)]
pub struct Telemetry {
    pub enabled: String,
}

/// Whether update notifications are enabled (`"true"` or not).
#[derive(Debug, Clone, PartialEq, Eq)]
pub struct UpdateNotifications {
    pub enabled: String,
}

/// The proxy to use when connecting to the Internet.
#[derive(Debug, Clone, PartialEq, Eq)]
pub struct Proxy {
    pub url: Option<String>,
}

/// The global configuration.
#[derive(Debug, Clone, PartialEq, Eq)]
pub struct Config {
    /// The number of seconds to wait before checking the registry for a new
    /// version of the package.
    pub wax_cooldown: i32,
    /// The registry that wapm will connect to.
    pub registry: Registries,
    /// Whether or not telemetry is enabled.
    pub telemetry: Telemetry,
    /// Whether or not updated notifications are enabled.
    pub update_notifications: UpdateNotifications,
    /// The proxy to use when connecting to the Internet.
    pub proxy: Proxy,
}

pub struct ConfigModel {
    pub wax_cooldown: i32,
    pub registry: RegistriesModel,
    pub telemetry: Seq<char>,
    pub update_notifications: Seq<char>,
    pub proxy: Option<Seq<char>>,
}

impl View for Config {
    type V = ConfigModel;

    open spec fn view(&self) -> ConfigModel {
        ConfigModel {
            wax_cooldown: self.wax_cooldown,
            registry: self.registry@,
            telemetry: self.telemetry.enabled@,
            update_notifications: self.update_notifications.enabled@,
            proxy: opt_view(self.proxy.url),
        }
    }
}

impl Default for Telemetry {
    fn default() -> (res: Telemetry)
        ensures
            res.enabled@ == "true"@,
    {
        Telemetry { enabled: String::from_str("true") }
    }
}

impl Default for UpdateNotifications {
    fn default() -> (res: UpdateNotifications)
        ensures
            res.enabled@ == "true"@,
    {
        UpdateNotifications { enabled: String::from_str("true") }
    }
}

impl Default for Proxy {
    fn default() -> (res: Proxy)
        ensures
            res.url is None,
    {
        Proxy { url: None }
    }
}

impl Default for Config {
    fn default() -> (res: Config)
        ensures
            res@ == (ConfigModel {
                wax_cooldown: 300i32,
                registry: RegistriesModel::Single(
                    RegistryModel {
                        url: spec_format_graphql("https://registry.wapm.io"@),
                        token: None,
                    },
                ),
                telemetry: "true"@,
                update_notifications: "true"@,
                proxy: None,
            }),
    {
        Config {
            registry: Registries::default(),
            telemetry: Telemetry::default(),
            update_notifications: UpdateNotifications::default(),
            proxy: Proxy::default(),
            wax_cooldown: wax_default_cooldown(),
        }
    }
}

/// Name of the configuration file in the configuration folder.
pub const GLOBAL_CONFIG_FILE_NAME: &'static str = "wapm.toml";

/// Name of the configuration folder under the home directory.
pub const GLOBAL_CONFIG_FOLDER_NAME: &'static str = ".wasmer";

/// Name of the wax index file in the configuration folder.
pub const GLOBAL_WAX_INDEX_FILE_NAME: &'static str = ".wax_index.json";

/// Name of the database file in the configuration folder.
pub const GLOBAL_CONFIG_DATABASE_FILE_NAME: &'static str = "wapm.sqlite";

/// A text that may be missing, by its view.
pub open spec fn opt_str_view(s: Option<&str>) -> Option<Seq<char>> {
    match s {
        Some(x) => Some(x@),
        None => None,
    }
}

/// Environment variable that names the configuration folder.
pub const GLOBAL_CONFIG_FOLDER_ENV_VAR: &'static str = "WASMER_DIR";

/// `dir` joined with the path `name`, as `Path::join` joins them: an absolute
/// `name` replaces `dir`; otherwise a separator goes between them unless `dir`
/// is empty or already ends with one.
pub open spec fn spec_join(dir: Seq<char>, name: Seq<char>) -> Seq<char> {
    if name.len() > 0 && name[0] == '/' {
        name
    } else if dir.len() == 0 {
        name
    } else if dir.last() == '/' {
        dir + name
    } else {
        dir + seq!['/'] + name
    }
}

/// Joins a directory and a relative path.
pub fn join_path(dir: &str, name: &str) -> (res: String)
    ensures
        res@ == spec_join(dir@, name@),
{
    proof {
        reveal_strlit("/");
    }
    if name.unicode_len() > 0 && name.get_char(0) == '/' {
        String::from_str(name)
    } else if dir.unicode_len() == 0 {
        String::from_str(name)
    } else if ends_with(dir, "/") {
        assert(dir@.subrange(dir@.len() - 1, dir@.len() as int)[0] == dir@.last());
        String::from_str(dir).concat(name)
    } else {
        assert(dir@.last() != '/') by {
            if dir@.last() == '/' {
                assert(dir@.subrange(dir@.len() - 1, dir@.len() as int) =~= "/"@);
            }
        }
        let r = String::from_str(dir).concat("/").concat(name);
        assert(r@ =~= spec_join(dir@, name@));
        r
    }
}

/// Why the configuration could not be read or its folder made.
#[derive(Debug, Clone, PartialEq, Eq)]
pub enum GlobalConfigError {
    /// The file could not be read; the reason.
    Io(String),
    /// The file is not a valid configuration; the reason.
    Toml(String),
    /// There is no home directory to fall back on.
    CannotFindHomeDirectory,
    /// The folder could not be made; the reason.
    CannotCreateConfigDirectory(String),
}

/// The configuration folder: the value of `WASMER_DIR` where it is set and
/// not empty; otherwise `.wasmer` under the home directory, or under the
/// current directory where there is no home, or under `/`.
pub open spec fn spec_folder(
    wasmer_dir: Option<Seq<char>>,
    home: Option<Seq<char>>,
    current_dir: Option<Seq<char>>,
) -> Seq<char> {
    match wasmer_dir {
        Some(d) if d.len() > 0 => d,
        _ => {
            let base = match home {
                Some(h) => h,
                None => match current_dir {
                    Some(c) => c,
                    None => seq!['/'],
                },
            };
            spec_join(base, ".wasmer"@)
        },
    }
}

impl Config {
    /// The configuration folder, given `WASMER_DIR`, the home directory and
    /// the current directory as far as they are known.
    pub fn get_folder(wasmer_dir: Option<&str>, home: Option<&str>, current_dir: Option<&str>) -> (res:
        String)
        ensures
            res@ == spec_folder(opt_str_view(wasmer_dir), opt_str_view(home), opt_str_view(current_dir)),
    {
        proof {
            reveal_strlit("/");
        }
        if let Some(d) = wasmer_dir {
            if d.unicode_len() > 0 {
                return String::from_str(d);
            }
        }
        let base = match home {
            Some(h) => h,
            None => match current_dir {
                Some(c) => c,
                None => "/",
            },
        };
        assert(base@ == (match home {
            Some(h) => h@,
            None => match current_dir {
                Some(c) => c@,
                None => seq!['/'],
            },
        }));
        join_path(base, GLOBAL_CONFIG_FOLDER_NAME)
    }

    /// Where the configuration file is, given the configuration folder.
    pub fn get_file_location(folder: &str) -> (res: String)
        ensures
            res@ == spec_join(folder@, "wapm.toml"@),
    {
        join_path(folder, GLOBAL_CONFIG_FILE_NAME)
    }

    /// Where the wax index is, given the configuration folder.
    pub fn get_wax_file_path(folder: &str) -> (res: String)
        ensures
            res@ == spec_join(folder@, ".wax_index.json"@),
    {
        join_path(folder, GLOBAL_WAX_INDEX_FILE_NAME)
    }

    /// Where the database is, given the configuration folder.
    pub fn get_database_file_path(folder: &str) -> (res: String)
        ensures
            res@ == spec_join(folder@, "wapm.sqlite"@),
    {
        join_path(folder, GLOBAL_CONFIG_DATABASE_FILE_NAME)
    }

    /// Where globally installed packages go, given the configuration folder.
    pub fn get_globals_directory(folder: &str) -> (res: String)
        ensures
            res@ == spec_join(folder@, "globals"@),
    {
        join_path(folder, "globals")
    }

    /// Whether update notifications are enabled, given the configuration that
    /// could be loaded (none when loading failed, which counts as enabled).
    pub fn update_notifications_enabled(loaded: Option<&Config>) -> (res: bool)
        ensures
            res == match loaded {
                Some(c) => c.update_notifications.enabled@ == "true"@,
                None => true,
            },
    {
        match loaded {
            Some(c) => str_eq(c.update_notifications.enabled.as_str(), "true"),
            None => true,
        }
    }
}

/// Why a configuration key could not be read or set.
#[derive(Debug, Clone, PartialEq, Eq)]
pub enum ConfigError {
    KeyNotFound { key: String },
    CanNotParse { value: String, key: String },
    /// No token is kept for the current registry.
    NotLoggedIn { registry: String },
}

pub enum ConfigErrorModel {
    KeyNotFound { key: Seq<char> },
    CanNotParse { value: Seq<char>, key: Seq<char> },
    NotLoggedIn { registry: Seq<char> },
}

impl View for ConfigError {
    type V = ConfigErrorModel;

    open spec fn view(&self) -> ConfigErrorModel {
        match self {
            ConfigError::KeyNotFound { key } => ConfigErrorModel::KeyNotFound { key: key@ },
            ConfigError::CanNotParse { value, key } => ConfigErrorModel::CanNotParse {
                value: value@,
                key: key@,
            },
            ConfigError::NotLoggedIn { registry } => ConfigErrorModel::NotLoggedIn {
                registry: registry@,
            },
        }
    }
}

/// The value of a configuration key.
pub open spec fn spec_get(c: ConfigModel, key: Seq<char>) -> Result<Seq<char>, ConfigErrorModel> {
    if key == "registry.url"@ {
        Ok(c.registry.current_registry())
    } else if key == "registry.token"@ {
        match c.registry.token_for(c.registry.current_registry()) {
            Some(t) => Ok(t),
            None => Err(ConfigErrorModel::NotLoggedIn { registry: c.registry.current_registry() }),
        }
    } else if key == "telemetry.enabled"@ {
        Ok(c.telemetry)
    } else if key == "update-notifications.enabled"@ {
        Ok(c.update_notifications)
    } else if key == "proxy.url"@ {
        match c.proxy {
            Some(u) => Ok(u),
            None => Ok("No proxy configured"@),
        }
    } else if key == "wax.cooldown"@ {
        Ok(int_decimal(c.wax_cooldown as int))
    } else {
        Err(ConfigErrorModel::KeyNotFound { key })
    }
}

/// The configuration after setting a key.
pub open spec fn spec_set(c: ConfigModel, key: Seq<char>, value: Seq<char>) -> Result<
    ConfigModel,
    ConfigErrorModel,
> {
    if key == "registry.url"@ {
        if c.registry.current_registry() != value {
            Ok(ConfigModel { registry: c.registry.with_current(spec_format_graphql(value)), ..c })
        } else {
            Ok(c)
        }
    } else if key == "registry.token"@ {
        Ok(
            ConfigModel {
                registry: c.registry.with_token(
                    c.registry.current_registry(),
                    value,
                    UpdateRegistry::LeaveAsIs,
                ),
                ..c
            },
        )
    } else if key == "telemetry.enabled"@ {
        Ok(ConfigModel { telemetry: value, ..c })
    } else if key == "update-notifications.enabled"@ {
        Ok(ConfigModel { update_notifications: value, ..c })
    } else if key == "proxy.url"@ {
        Ok(ConfigModel { proxy: if value.len() == 0 { None } else { Some(value) }, ..c })
    } else if key == "wax.cooldown"@ {
        match spec_parse_i32(value) {
            Some(n) => Ok(ConfigModel { wax_cooldown: n, ..c }),
            None => Err(ConfigErrorModel::CanNotParse { value, key }),
        }
    } else {
        Err(ConfigErrorModel::KeyNotFound { key })
    }
}

pub open spec fn get_result_view(r: Result<String, ConfigError>) -> Result<
    Seq<char>,
    ConfigErrorModel,
> {
    match r {
        Ok(s) => Ok(s@),
        Err(e) => Err(e@),
    }
}

/// Reads a configuration key.
pub fn get(config: &mut Config, key: String) -> (res: Result<String, ConfigError>)
    ensures
        final(config)@ == old(config)@,
        get_result_view(res) == spec_get(old(config)@, key@),
{
    let k = key.as_str();
    if str_eq(k, "registry.url") {
        Ok(config.registry.get_current_registry())
    } else if str_eq(k, "registry.token") {
        let current = config.registry.get_current_registry();
        match config.registry.get_login_token_for_registry(current.as_str()) {
            Some(t) => Ok(t),
            None => Err(ConfigError::NotLoggedIn { registry: current }),
        }
    } else if str_eq(k, "telemetry.enabled") {
        Ok(config.telemetry.enabled.clone())
    } else if str_eq(k, "update-notifications.enabled") {
        Ok(config.update_notifications.enabled.clone())
    } else if str_eq(k, "proxy.url") {
        match &config.proxy.url {
            Some(url) => Ok(url.clone()),
            None => Ok(String::from_str("No proxy configured")),
        }
    } else if str_eq(k, "wax.cooldown") {
        Ok(i32_to_decimal(config.wax_cooldown))
    } else {
        Err(ConfigError::KeyNotFound { key })
    }
}

/// Sets a configuration key. On an error the configuration is left as it was.
pub fn set(config: &mut Config, key: String, value: String) -> (res: Result<(), ConfigError>)
    ensures
        match spec_set(old(config)@, key@, value@) {
            Ok(c) => res is Ok && final(config)@ == c,
            Err(e) => res matches Err(x) && x@ == e && final(config)@ == old(config)@,
        },
{
    let k = key.as_str();
    if str_eq(k, "registry.url") {
        if config.registry.get_current_registry() != value {
            config.registry.set_current_registry(value.as_str());
        }
        Ok(())
    } else if str_eq(k, "registry.token") {
        let current = config.registry.get_current_registry();
        config.registry.set_login_token_for_registry(
            current.as_str(),
            value.as_str(),
            UpdateRegistry::LeaveAsIs,
        );
        Ok(())
    } else if str_eq(k, "telemetry.enabled") {
        config.telemetry.enabled = value;
        Ok(())
    } else if str_eq(k, "update-notifications.enabled") {
        config.update_notifications.enabled = value;
        Ok(())
    } else if str_eq(k, "proxy.url") {
        config.proxy.url = if value.as_str().unicode_len() == 0 {
            None
        } else {
            Some(value)
        };
        Ok(())
    } else if str_eq(k, "wax.cooldown") {
        match parse_i32(value.as_str()) {
            Some(n) => {
                config.wax_cooldown = n;
                Ok(())
            },
            None => Err(ConfigError::CanNotParse { value: value.clone(), key: key.clone() }),
        }
    } else {
        Err(ConfigError::KeyNotFound { key })
    }
}

/// The configuration keys differ from one another.
proof fn lemma_keys_distinct()
    ensures
        "registry.url"@.len() == 12,
        "registry.token"@.len() == 14,
        "telemetry.enabled"@.len() == 17,
        "update-notifications.enabled"@.len() == 28,
        "proxy.url"@.len() == 9,
        "wax.cooldown"@.len() == 12,
        "registry.url"@[0] == 'r',
        "wax.cooldown"@[0] == 'w',
{
    reveal_strlit("registry.url");
    reveal_strlit("registry.token");
    reveal_strlit("telemetry.enabled");
    reveal_strlit("update-notifications.enabled");
    reveal_strlit("proxy.url");
    reveal_strlit("wax.cooldown");
}

/// What reading a key gives back right after it was set to `value`.
pub open spec fn read_back(key: Seq<char>, value: Seq<char>) -> Seq<char> {
    if key == "registry.url"@ {
        spec_format_graphql(value)
    } else if key == "proxy.url"@ && value.len() == 0 {
        "No proxy configured"@
    } else if key == "wax.cooldown"@ {
        int_decimal(spec_parse_i32(value)->Some_0 as int)
    } else {
        value
    }
}

/// Reading a key right after setting it gives back what was set: the
/// registry's endpoint for `registry.url`, the value itself for the token,
/// telemetry, update notifications and a proxy, and the number for the cooldown.
pub proof fn law_set_then_get(c: ConfigModel, key: Seq<char>, value: Seq<char>)
    requires
        spec_set(c, key, value) is Ok,
    ensures
        spec_get(spec_set(c, key, value)->Ok_0, key) == Ok::<Seq<char>, ConfigErrorModel>(
            read_back(key, value),
        ),
        key == "registry.token"@ ==> spec_set(c, key, value)->Ok_0.registry.current_registry()
            == c.registry.current_registry(),
{
    lemma_keys_distinct();
    let c2 = spec_set(c, key, value)->Ok_0;
    if key == "registry.url"@ {
        law_format_graphql_idempotent(value);
        law_set_current_read_back(c.registry, value);
        match c.registry {
            RegistriesModel::Single(s) => law_format_graphql_idempotent(s.url),
            RegistriesModel::Multi(m) => law_format_graphql_idempotent(m.current),
        }
        assert(c2.registry.current_registry() == spec_format_graphql(value));
        assert(spec_get(c2, key) == Ok::<Seq<char>, ConfigErrorModel>(read_back(key, value)));
    } else if key == "registry.token"@ {
        let cur = c.registry.current_registry();
        match c.registry {
            RegistriesModel::Single(s) => law_format_graphql_idempotent(s.url),
            RegistriesModel::Multi(m) => law_format_graphql_idempotent(m.current),
        }
        law_token_read_back(c.registry, cur, value, UpdateRegistry::LeaveAsIs);
        law_leave_as_is_keeps_current(c.registry, cur, value);
        assert(c2.registry.current_registry() == cur);
        assert(c2.registry.token_for(cur) == Some(value));
        assert(spec_get(c2, key) == Ok::<Seq<char>, ConfigErrorModel>(read_back(key, value)));
    } else if key == "telemetry.enabled"@ {
        assert(c2.telemetry == value);
        assert(spec_get(c2, key) == Ok::<Seq<char>, ConfigErrorModel>(read_back(key, value)));
    } else if key == "update-notifications.enabled"@ {
        assert(spec_get(c2, key) == Ok::<Seq<char>, ConfigErrorModel>(read_back(key, value)));
    } else if key == "proxy.url"@ {
        assert(spec_get(c2, key) == Ok::<Seq<char>, ConfigErrorModel>(read_back(key, value)));
    } else {
        assert(key == "wax.cooldown"@);
        assert(c2.wax_cooldown == spec_parse_i32(value)->Some_0);
        assert(spec_get(c2, key) == Ok::<Seq<char>, ConfigErrorModel>(read_back(key, value)));
    }
}


/// Setting the cooldown to a number written in decimal and reading it back
/// gives that same text.
pub proof fn law_cooldown_round_trip(c: ConfigModel, n: i32)
    ensures
        spec_set(c, "wax.cooldown"@, int_decimal(n as int)) is Ok,
        spec_get(spec_set(c, "wax.cooldown"@, int_decimal(n as int))->Ok_0, "wax.cooldown"@) == Ok::<
            Seq<char>,
            ConfigErrorModel,
        >(int_decimal(n as int)),
{
    lemma_keys_distinct();
    lemma_i32_decimal_reads_back(n);
    law_set_then_get(c, "wax.cooldown"@, int_decimal(n as int));
}


/// Setting a key that is not one of the configuration's, or a cooldown that
/// is not a number, is refused with the matching error, and the
/// configuration stays as it was (`set` keeps it on every refusal).
pub proof fn law_bad_set_refused(c: ConfigModel, key: Seq<char>, value: Seq<char>)
    requires
        (key != "registry.url"@ && key != "registry.token"@ && key != "telemetry.enabled"@ && key
            != "update-notifications.enabled"@ && key != "proxy.url"@ && key != "wax.cooldown"@) || (key
            == "wax.cooldown"@ && spec_parse_i32(value) is None),
    ensures
        key == "wax.cooldown"@ ==> spec_set(c, key, value) == Err::<ConfigModel, ConfigErrorModel>(
            ConfigErrorModel::CanNotParse { value, key },
        ),
        key != "wax.cooldown"@ ==> spec_set(c, key, value) == Err::<ConfigModel, ConfigErrorModel>(
            ConfigErrorModel::KeyNotFound { key },
        ),
{
    lemma_keys_distinct();
}


/// Without a `WASMER_DIR` (unset or empty), the configuration folder is
/// `.wasmer` under the home directory where one is known, whatever the
/// current directory is; under the current directory where no home is
/// known; and under `/` where neither is. With one, it is that directory
/// itself.
pub proof fn law_folder_under_home(
    wasmer_dir: Option<Seq<char>>,
    home: Option<Seq<char>>,
    current_dir: Option<Seq<char>>,
    other_dir: Option<Seq<char>>,
)
    ensures
        (wasmer_dir is None || wasmer_dir->Some_0.len() == 0) && home is Some ==> spec_folder(
            wasmer_dir,
            home,
            current_dir,
        ) == spec_join(home->Some_0, ".wasmer"@),
        (wasmer_dir is None || wasmer_dir->Some_0.len() == 0) && home is Some ==> spec_folder(
            wasmer_dir,
            home,
            current_dir,
        ) == spec_folder(wasmer_dir, home, other_dir),
        wasmer_dir is Some && wasmer_dir->Some_0.len() > 0 ==> spec_folder(wasmer_dir, home, current_dir)
            == wasmer_dir->Some_0,
        (wasmer_dir is None || wasmer_dir->Some_0.len() == 0) && home is None && current_dir is Some
            ==> spec_folder(wasmer_dir, home, current_dir) == spec_join(current_dir->Some_0, ".wasmer"@),
        (wasmer_dir is None || wasmer_dir->Some_0.len() == 0) && home is None && current_dir is None
            ==> spec_folder(wasmer_dir, home, current_dir) == spec_join(seq!['/'], ".wasmer"@),
{
}

} // verus!
