//! Layered configuration.
//!
//! A configuration is a set of optional fields. Layers (built-in defaults,
//! the environment, a data directory, explicit values) each resolve to such
//! a set, and loading applies them in order onto an empty configuration: a
//! later layer's field wins where it is set, and leaves the field as it was
//! where it is not. Accessors fall back to the defaults for unset fields.

pub mod defaults;

use crate::config::defaults::{
    BIND_ADDRESS, DB_PATH, HOST, MAX_RETRIES, ROOT_EMAIL, ROOT_PASSWORD, SESSIONS_DB_FILE,
};
use vstd::prelude::*;

verus! {

/// How serious a conflict between configuration sources is.
#[derive(Debug, Clone, Copy, PartialEq, Eq, Structural)]
pub enum ConflictSeverity {
    Fatal,
    Warning,
}

/// A conflict between configuration sources.
#[derive(Debug, Clone)]
pub struct Conflict {
    pub severity: ConflictSeverity,
    pub field: String,
    pub message: String,
}

/// Application configuration: every field is optional and falls back to the
/// value in [`defaults`] when read.
#[derive(Debug, Clone)]
pub struct Config {
    /// Path of the SQLite database file.
    pub db_path: Option<String>,
    /// Path of the sessions database file.
    pub sessions_db_path: Option<String>,
    /// Delivery-attempt cap given to new queues.
    pub default_max_retries: Option<usize>,
    /// Base URL of the server.
    pub host: Option<String>,
    /// Socket address the server listens on.
    pub bind_address: Option<String>,
    /// Email of the root administrator.
    pub root_email: Option<String>,
    /// Password of the root administrator.
    pub root_password: Option<String>,
}

/// A configuration viewed as optional character sequences.
pub struct ConfigView {
    pub db_path: Option<Seq<char>>,
    pub sessions_db_path: Option<Seq<char>>,
    pub default_max_retries: Option<usize>,
    pub host: Option<Seq<char>>,
    pub bind_address: Option<Seq<char>>,
    pub root_email: Option<Seq<char>>,
    pub root_password: Option<Seq<char>>,
}

/// An optional string viewed as an optional character sequence.
pub open spec fn opt_str(o: Option<String>) -> Option<Seq<char>> {
    match o {
        Some(s) => Some(s@),
        None => None,
    }
}

impl View for Config {
    type V = ConfigView;

    open spec fn view(&self) -> ConfigView {
        ConfigView {
            db_path: opt_str(self.db_path),
            sessions_db_path: opt_str(self.sessions_db_path),
            default_max_retries: self.default_max_retries,
            host: opt_str(self.host),
            bind_address: opt_str(self.bind_address),
            root_email: opt_str(self.root_email),
            root_password: opt_str(self.root_password),
        }
    }
}

/// The configuration with no field set.
pub open spec fn empty_config() -> ConfigView {
    ConfigView {
        db_path: None,
        sessions_db_path: None,
        default_max_retries: None,
        host: None,
        bind_address: None,
        root_email: None,
        root_password: None,
    }
}

/// `over` where it is set, else `under`.
pub open spec fn overlay<T>(under: Option<T>, over: Option<T>) -> Option<T> {
    match over {
        Some(v) => Some(v),
        None => under,
    }
}

/// `other` applied onto `base`, field by field.
pub open spec fn apply_config(base: ConfigView, other: ConfigView) -> ConfigView {
    ConfigView {
        db_path: overlay(base.db_path, other.db_path),
        sessions_db_path: overlay(base.sessions_db_path, other.sessions_db_path),
        default_max_retries: overlay(base.default_max_retries, other.default_max_retries),
        host: overlay(base.host, other.host),
        bind_address: overlay(base.bind_address, other.bind_address),
        root_email: overlay(base.root_email, other.root_email),
        root_password: overlay(base.root_password, other.root_password),
    }
}

/// The layers applied in order onto `base`.
pub open spec fn apply_layers(base: ConfigView, layers: Seq<ConfigView>) -> ConfigView
    decreases layers.len(),
{
    if layers.len() == 0 {
        base
    } else {
        apply_config(apply_layers(base, layers.drop_last()), layers.last())
    }
}

/// The value of the last element that is set, or `fallback` if none is.
pub open spec fn last_set<T>(values: Seq<Option<T>>, fallback: Option<T>) -> Option<T>
    decreases values.len(),
{
    if values.len() == 0 {
        fallback
    } else {
        match values.last() {
            Some(v) => Some(v),
            None => last_set(values.drop_last(), fallback),
        }
    }
}

/// Configurations viewed in order.
pub open spec fn configs_view(v: Seq<Config>) -> Seq<ConfigView> {
    v.map_values(|c: Config| c@)
}

impl Default for Config {
    /// The configuration with no field set.
    fn default() -> (r: Config)
        ensures
            r@ == empty_config(),
    {
        Config {
            db_path: None,
            sessions_db_path: None,
            default_max_retries: None,
            host: None,
            bind_address: None,
            root_email: None,
            root_password: None,
        }
    }
}

/// `over` where it is set, else `under`.
fn overlay_value<T>(under: Option<T>, over: Option<T>) -> (r: Option<T>)
    ensures
        r == overlay(under, over),
{
    match over {
        Some(v) => Some(v),
        None => under,
    }
}

/// The path of `rel` under the directory `base`, as `Path::join` builds it.
pub uninterp spec fn path_join(base: Seq<char>, rel: Seq<char>) -> Seq<char>;

/// The parent directory of a path, as `Path::parent` gives it.
pub uninterp spec fn path_parent(p: Seq<char>) -> Option<Seq<char>>;

/// `std::path::Path::join`, rendered back to a string: `rel` adjoined to
/// `base` (replacing it when `rel` is absolute). A function of the two
/// paths alone.
#[verifier::external_body]
fn join_path(base: &str, rel: &str) -> (r: String)
    ensures
        r@ == path_join(base@, rel@),
{
    std::path::Path::new(base).join(rel).to_string_lossy().into_owned()
}

/// `std::path::Path::parent`, rendered back to a string: the path without
/// its final component, or none when the path ends in a root or is empty.
/// A function of the path alone.
#[verifier::external_body]
fn parent_path(p: &str) -> (r: Option<String>)
    ensures
        opt_str(r) == path_parent(p@),
{
    match std::path::Path::new(p).parent() {
        Some(d) => Some(d.to_string_lossy().into_owned()),
        None => None,
    }
}

/// The sessions database path a configuration yields: the configured one,
/// else `sessions.db` in the directory of the main database.
pub open spec fn sessions_path_of(c: ConfigView) -> Seq<char> {
    match c.sessions_db_path {
        Some(p) => p,
        None => match path_parent(db_path_of(c)) {
            Some(dir) => path_join(dir, SESSIONS_DB_FILE@),
            None => SESSIONS_DB_FILE@,
        },
    }
}

/// The main database path a configuration yields.
pub open spec fn db_path_of(c: ConfigView) -> Seq<char> {
    match c.db_path {
        Some(p) => p,
        None => DB_PATH@,
    }
}

impl Config {
    /// This configuration with the fields `other` sets taken from `other`.
    pub fn apply(self, other: Config) -> (r: Config)
        ensures
            r@ == apply_config(self@, other@),
    {
        Config {
            db_path: overlay_value(self.db_path, other.db_path),
            sessions_db_path: overlay_value(self.sessions_db_path, other.sessions_db_path),
            default_max_retries: overlay_value(self.default_max_retries, other.default_max_retries),
            host: overlay_value(self.host, other.host),
            bind_address: overlay_value(self.bind_address, other.bind_address),
            root_email: overlay_value(self.root_email, other.root_email),
            root_password: overlay_value(self.root_password, other.root_password),
        }
    }

    /// The configured server base URL, or the default.
    pub fn host(&self) -> (r: String)
        ensures
            r@ == (match self.host {
                Some(h) => h@,
                None => HOST@,
            }),
    {
        match &self.host {
            Some(h) => h.clone(),
            None => HOST.to_owned(),
        }
    }

    /// The configured bind address, or the loopback default.
    pub fn bind_address(&self) -> (r: &str)
        ensures
            r@ == (match self.bind_address {
                Some(a) => a@,
                None => BIND_ADDRESS@,
            }),
    {
        match &self.bind_address {
            Some(a) => a.as_str(),
            None => BIND_ADDRESS,
        }
    }

    /// The configured database path, or the default.
    pub fn db_path(&self) -> (r: &str)
        ensures
            r@ == db_path_of(self@),
    {
        match &self.db_path {
            Some(p) => p.as_str(),
            None => DB_PATH,
        }
    }

    /// The configured sessions database path, or `sessions.db` next to the
    /// main database (so relocating the main database carries the sessions
    /// file along).
    pub fn sessions_db_path(&self) -> (r: String)
        ensures
            r@ == sessions_path_of(self@),
    {
        match &self.sessions_db_path {
            Some(p) => p.clone(),
            None => match parent_path(self.db_path()) {
                Some(dir) => join_path(dir.as_str(), SESSIONS_DB_FILE),
                None => SESSIONS_DB_FILE.to_owned(),
            },
        }
    }

    /// The configured delivery-attempt cap for new queues, or the default.
    pub fn default_max_retries(&self) -> (r: usize)
        ensures
            r == (match self.default_max_retries {
                Some(n) => n,
                None => MAX_RETRIES,
            }),
    {
        match self.default_max_retries {
            Some(n) => n,
            None => MAX_RETRIES,
        }
    }

    /// The configured root administrator email, or the default.
    pub fn root_email(&self) -> (r: &str)
        ensures
            r@ == (match self.root_email {
                Some(e) => e@,
                None => ROOT_EMAIL@,
            }),
    {
        match &self.root_email {
            Some(e) => e.as_str(),
            None => ROOT_EMAIL,
        }
    }

    /// The configured root administrator password, or the default.
    pub fn root_password(&self) -> (r: &str)
        ensures
            r@ == (match self.root_password {
                Some(p) => p@,
                None => ROOT_PASSWORD@,
            }),
    {
        match &self.root_password {
            Some(p) => p.as_str(),
            None => ROOT_PASSWORD,
        }
    }

    /// Whether a root password was explicitly configured, as opposed to
    /// falling back to the default.
    pub fn root_password_provided(&self) -> (r: bool)
        ensures
            r == self.root_password.is_some(),
    {
        self.root_password.is_some()
    }
}

/// Collects configuration layers and applies them in order.
pub struct ConfigBuilder {
    base: Config,
    layers: Vec<Config>,
}

impl View for ConfigBuilder {
    /// The base configuration and the layers, in order.
    type V = (ConfigView, Seq<ConfigView>);

    closed spec fn view(&self) -> (ConfigView, Seq<ConfigView>) {
        (self.base@, configs_view(self.layers@))
    }
}

impl ConfigBuilder {
    /// A builder over the empty configuration, with no layers.
    pub fn new() -> (r: ConfigBuilder)
        ensures
            r@.0 == empty_config(),
            r@.1.len() == 0,
    {
        ConfigBuilder { base: Config::default(), layers: Vec::new() }
    }

    /// Adds a resolved layer after the ones already added.
    pub fn with_layer(self, layer: Config) -> (r: ConfigBuilder)
        ensures
            r@.0 == self@.0,
            r@.1 == self@.1.push(layer@),
    {
        let ghost before = configs_view(self.layers@);
        let ghost lv = layer@;
        let mut layers = self.layers;
        layers.push(layer);
        assert(configs_view(layers@) =~= before.push(lv));
        ConfigBuilder { base: self.base, layers }
    }

    /// Applies the layers in order onto the base configuration.
    pub fn load(self) -> (r: Config)
        ensures
            r@ == apply_layers(self@.0, self@.1),
    {
        let ghost all = configs_view(self.layers@);
        let mut config = self.base;
        let mut rest = self.layers;
        let ghost base = config@;
        let ghost n = rest.len();
        let mut done: usize = 0;
        while rest.len() > 0
            invariant
                done + rest.len() == n,
                n == all.len(),
                forall|j: int| 0 <= j < rest.len() ==> (#[trigger] rest@[j])@ == all[done + j],
                config@ == apply_layers(base, all.take(done as int)),
            decreases rest.len(),
        {
            let layer = rest.remove(0);
            proof {
                assert(all.take(done + 1).drop_last() =~= all.take(done as int));
                assert(all.take(done + 1).last() == layer@);
            }
            config = config.apply(layer);
            done += 1;
        }
        assert(all.take(n as int) =~= all);
        config
    }
}

/// The layer of built-in defaults.
pub struct DefaultsLayer;

impl DefaultsLayer {
    /// Every default except the sessions path, which is derived from the
    /// database path (a later layer may move it), and the root password,
    /// left unset so that an explicitly configured one can be told apart.
    pub fn resolve(&self) -> (r: Config)
        ensures
            r@ == (ConfigView {
                db_path: Some(DB_PATH@),
                sessions_db_path: None,
                default_max_retries: Some(MAX_RETRIES),
                host: Some(HOST@),
                bind_address: Some(BIND_ADDRESS@),
                root_email: Some(ROOT_EMAIL@),
                root_password: None,
            }),
    {
        Config {
            db_path: Some(DB_PATH.to_owned()),
            sessions_db_path: None,
            default_max_retries: Some(MAX_RETRIES),
            host: Some(HOST.to_owned()),
            bind_address: Some(BIND_ADDRESS.to_owned()),
            root_email: Some(ROOT_EMAIL.to_owned()),
            root_password: None,
        }
    }
}

/// The layer read from `NERVEMQ_`-prefixed environment variables.
pub struct EnvironmentLayer;

/// The layer that places the database files under a directory.
pub struct DataDirLayer {
    dir: String,
}

impl View for DataDirLayer {
    /// The directory.
    type V = Seq<char>;

    closed spec fn view(&self) -> Seq<char> {
        self.dir@
    }
}

impl DataDirLayer {
    /// A layer for the directory `dir`.
    pub fn new(dir: String) -> (r: DataDirLayer)
        ensures
            r@ == dir@,
    {
        DataDirLayer { dir }
    }

    /// Sets the database path to `nervemq.db` in the directory, and nothing
    /// else (the sessions database follows it there).
    pub fn resolve(&self) -> (r: Config)
        ensures
            r@ == (ConfigView { db_path: Some(path_join(self@, DB_PATH@)), ..empty_config() }),
    {
        Config {
            db_path: Some(join_path(self.dir.as_str(), DB_PATH)),
            ..Config::default()
        }
    }
}

// ---------------------------------------------------------------------------
// Laws of layering
// ---------------------------------------------------------------------------

/// Applying the empty configuration changes nothing.
pub proof fn lemma_apply_empty_right(c: ConfigView)
    ensures
        apply_config(c, empty_config()) == c,
{
}

/// Applying a configuration onto the empty one gives that configuration.
pub proof fn lemma_apply_empty_left(c: ConfigView)
    ensures
        apply_config(empty_config(), c) == c,
{
}

/// Applying is associative: layering `b` then `c` onto `a` is layering the
/// combination of `b` and `c`.
pub proof fn lemma_apply_associative(a: ConfigView, b: ConfigView, c: ConfigView)
    ensures
        apply_config(apply_config(a, b), c) == apply_config(a, apply_config(b, c)),
{
}

/// Applying a configuration twice is applying it once.
pub proof fn lemma_apply_idempotent(a: ConfigView, b: ConfigView)
    ensures
        apply_config(apply_config(a, b), b) == apply_config(a, b),
{
}

/// After loading, each field holds the value of the last layer that sets
/// it, or the base value if no layer does.
pub proof fn lemma_load_takes_last_set(base: ConfigView, layers: Seq<ConfigView>)
    ensures
        apply_layers(base, layers).db_path == last_set(
            layers.map_values(|c: ConfigView| c.db_path),
            base.db_path,
        ),
        apply_layers(base, layers).sessions_db_path == last_set(
            layers.map_values(|c: ConfigView| c.sessions_db_path),
            base.sessions_db_path,
        ),
        apply_layers(base, layers).default_max_retries == last_set(
            layers.map_values(|c: ConfigView| c.default_max_retries),
            base.default_max_retries,
        ),
        apply_layers(base, layers).host == last_set(
            layers.map_values(|c: ConfigView| c.host),
            base.host,
        ),
        apply_layers(base, layers).bind_address == last_set(
            layers.map_values(|c: ConfigView| c.bind_address),
            base.bind_address,
        ),
        apply_layers(base, layers).root_email == last_set(
            layers.map_values(|c: ConfigView| c.root_email),
            base.root_email,
        ),
        apply_layers(base, layers).root_password == last_set(
            layers.map_values(|c: ConfigView| c.root_password),
            base.root_password,
        ),
    decreases layers.len(),
{
    if layers.len() > 0 {
        lemma_load_takes_last_set(base, layers.drop_last());
        assert(layers.map_values(|c: ConfigView| c.db_path).drop_last() =~= layers.drop_last().map_values(|c: ConfigView| c.db_path));
        assert(layers.map_values(|c: ConfigView| c.sessions_db_path).drop_last() =~= layers.drop_last().map_values(|c: ConfigView| c.sessions_db_path));
        assert(layers.map_values(|c: ConfigView| c.default_max_retries).drop_last() =~= layers.drop_last().map_values(|c: ConfigView| c.default_max_retries));
        assert(layers.map_values(|c: ConfigView| c.host).drop_last() =~= layers.drop_last().map_values(|c: ConfigView| c.host));
        assert(layers.map_values(|c: ConfigView| c.bind_address).drop_last() =~= layers.drop_last().map_values(|c: ConfigView| c.bind_address));
        assert(layers.map_values(|c: ConfigView| c.root_email).drop_last() =~= layers.drop_last().map_values(|c: ConfigView| c.root_email));
        assert(layers.map_values(|c: ConfigView| c.root_password).drop_last() =~= layers.drop_last().map_values(|c: ConfigView| c.root_password));
    }
}

/// Loading `layers` then `more` is loading `more` onto the result of
/// loading `layers`.
pub proof fn lemma_load_concat(base: ConfigView, layers: Seq<ConfigView>, more: Seq<ConfigView>)
    ensures
        apply_layers(base, layers + more) == apply_layers(apply_layers(base, layers), more),
    decreases more.len(),
{
    if more.len() == 0 {
        assert(layers + more =~= layers);
    } else {
        assert((layers + more).drop_last() =~= layers + more.drop_last());
        lemma_load_concat(base, layers, more.drop_last());
    }
}

} // verus!
