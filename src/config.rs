use vstd::prelude::*;

use crate::error::DfxConfigError;
use crate::graph::{dependency_graph, find_canister, is_canister, resolution_error, resolution_roots, resolve_dependencies, is_build_order, names_view};
use crate::principal::CanisterId;

verus! {

/// Type-specific properties of a canister declaration.
#[derive(Clone, Debug)]
pub enum CanisterTypeProperties {
    Rust { package: String, candid: String },
    Assets { source: Vec<String> },
    Custom { wasm: String, candid: String, build: Vec<String> },
    Motoko,
}

impl CanisterTypeProperties {
    /// The type tag under which this kind of canister is declared.
    pub open spec fn spec_name(&self) -> Seq<char> {
        match self {
            CanisterTypeProperties::Rust { .. } => "rust"@,
            CanisterTypeProperties::Motoko => "motoko"@,
            CanisterTypeProperties::Assets { .. } => "assets"@,
            CanisterTypeProperties::Custom { .. } => "custom"@,
        }
    }

    pub fn name(&self) -> (r: &'static str)
        ensures
            r@ == self.spec_name(),
    {
        match self {
            CanisterTypeProperties::Rust { .. } => "rust",
            CanisterTypeProperties::Motoko => "motoko",
            CanisterTypeProperties::Assets { .. } => "assets",
            CanisterTypeProperties::Custom { .. } => "custom",
        }
    }
}

/// Why the type-specific fields of a canister declaration were refused.
#[derive(Debug)]
pub enum PropertiesError {
    /// The declared type needs this field.
    MissingField(String),
    /// The declared type is none of `motoko`, `rust`, `assets`, `custom`.
    UnknownVariant(String),
}

/// The type-specific properties that a declaration with these fields
/// describes; `None` stands for an absent field.
pub open spec fn properties_from_fields(
    type_tag: Option<Seq<char>>,
    package: Option<String>,
    source: Option<Vec<String>>,
    candid: Option<String>,
    build: Option<Vec<String>>,
    wasm: Option<String>,
    r: Result<CanisterTypeProperties, PropertiesError>,
) -> bool {
    match type_tag {
        None => r matches Ok(CanisterTypeProperties::Motoko),
        Some(t) => if t == "motoko"@ {
            r matches Ok(CanisterTypeProperties::Motoko)
        } else if t == "rust"@ {
            match (candid, package) {
                (Some(c), Some(p)) => r matches Ok(CanisterTypeProperties::Rust { package: p2, candid: c2 })
                    && p2 == p && c2 == c,
                (None, _) => r matches Err(PropertiesError::MissingField(f)) && f@ == "candid"@,
                (Some(_), None) => r matches Err(PropertiesError::MissingField(f)) && f@ == "package"@,
            }
        } else if t == "assets"@ {
            match source {
                Some(v) => r matches Ok(CanisterTypeProperties::Assets { source: s }) && s == v,
                None => r matches Err(PropertiesError::MissingField(f)) && f@ == "source"@,
            }
        } else if t == "custom"@ {
            match (build, candid, wasm) {
                (Some(b), Some(c), Some(w)) => r matches Ok(CanisterTypeProperties::Custom { wasm: w2, candid: c2, build: b2 })
                    && w2 == w && c2 == c && b2 == b,
                (None, _, _) => r matches Err(PropertiesError::MissingField(f)) && f@ == "build"@,
                (Some(_), None, _) => r matches Err(PropertiesError::MissingField(f)) && f@ == "candid"@,
                (Some(_), Some(_), None) => r matches Err(PropertiesError::MissingField(f)) && f@ == "wasm"@,
            }
        } else {
            r matches Err(PropertiesError::UnknownVariant(x)) && x@ == t
        },
    }
}

fn missing_field(name: &str) -> (r: PropertiesError)
    ensures
        r matches PropertiesError::MissingField(f) && f@ == name@,
{
    PropertiesError::MissingField(String::from_str(name))
}

impl CanisterTypeProperties {
    /// Builds the properties from the fields of a canister declaration: the
    /// `type` field picks the variant (Motoko when absent), which then
    /// requires its own fields.
    pub fn from_fields(
        type_tag: Option<String>,
        package: Option<String>,
        source: Option<Vec<String>>,
        candid: Option<String>,
        build: Option<Vec<String>>,
        wasm: Option<String>,
    ) -> (r: Result<CanisterTypeProperties, PropertiesError>)
        ensures
            properties_from_fields(
                match type_tag {
                    Some(t) => Some(t@),
                    None => None,
                },
                package,
                source,
                candid,
                build,
                wasm,
                r,
            ),
    {
        proof {
            reveal_strlit("motoko");
            reveal_strlit("rust");
            reveal_strlit("assets");
            reveal_strlit("custom");
            reveal_strlit("candid");
            reveal_strlit("package");
            reveal_strlit("source");
            reveal_strlit("build");
            reveal_strlit("wasm");
        }
        let t = match type_tag {
            None => {
                return Ok(CanisterTypeProperties::Motoko);
            },
            Some(t) => t,
        };
        if t == String::from_str("motoko") {
            Ok(CanisterTypeProperties::Motoko)
        } else if t == String::from_str("rust") {
            let candid = match candid {
                Some(c) => c,
                None => {
                    return Err(missing_field("candid"));
                },
            };
            let package = match package {
                Some(p) => p,
                None => {
                    return Err(missing_field("package"));
                },
            };
            Ok(CanisterTypeProperties::Rust { package, candid })
        } else if t == String::from_str("assets") {
            match source {
                Some(source) => Ok(CanisterTypeProperties::Assets { source }),
                None => Err(missing_field("source")),
            }
        } else if t == String::from_str("custom") {
            let build = match build {
                Some(b) => b,
                None => {
                    return Err(missing_field("build"));
                },
            };
            let candid = match candid {
                Some(c) => c,
                None => {
                    return Err(missing_field("candid"));
                },
            };
            let wasm = match wasm {
                Some(w) => w,
                None => {
                    return Err(missing_field("wasm"));
                },
            };
            Ok(CanisterTypeProperties::Custom { wasm, candid, build })
        } else {
            Err(PropertiesError::UnknownVariant(t))
        }
    }
}

/// Where a canister that is not built by this project lives.
#[derive(Debug)]
pub struct ConfigCanistersCanisterRemote {
    pub candid: Option<String>,
    /// Network name paired with the canister's identifier on that network.
    pub id: Vec<(String, CanisterId)>,
}

/// Values applied when a canister is first installed.
#[derive(Clone, Debug, Default)]
pub struct InitializationValues {
    pub compute_allocation: Option<u64>,
    /// In bytes.
    pub memory_allocation: Option<u128>,
    /// In seconds.
    pub freezing_threshold: Option<u64>,
}

/// Where and in which languages the type declarations of a canister go.
#[derive(Clone, Debug, Default)]
pub struct CanisterDeclarationsConfig {
    pub output: Option<String>,
    pub bindings: Option<Vec<String>>,
    pub env_override: Option<String>,
}

/// One canister as declared in the project configuration.
#[derive(Debug)]
pub struct ConfigCanistersCanister {
    pub declarations: CanisterDeclarationsConfig,
    pub remote: Option<ConfigCanistersCanisterRemote>,
    pub args: Option<String>,
    pub initialization_values: InitializationValues,
    /// Names of the canisters this one depends on, in declaration order.
    pub dependencies: Vec<String>,
    pub frontend: Option<Vec<(String, String)>>,
    pub type_specific: CanisterTypeProperties,
    pub post_install: Vec<String>,
    pub main: Option<String>,
}

#[derive(Clone, Debug, Default, PartialEq, Eq, Structural)]
pub struct ConfigDefaultsCanisterHttp {
    pub enabled: bool,
}

/// Spelled-out default for boolean flags that are off unless set.
pub fn default_as_false() -> (r: bool)
    ensures
        r == false,
{
    false
}

#[derive(Clone, Debug, Default)]
pub struct ConfigDefaultsBuild {
    pub packtool: Option<String>,
    pub args: Option<String>,
}

#[derive(Copy, Clone, Debug, PartialEq, Eq, Structural)]
pub enum NetworkType {
    /// Identifiers are kept per network under the temporary directory.
    Ephemeral,
    /// Identifiers are kept beside the configuration file.
    Persistent,
}

impl NetworkType {
    pub fn ephemeral() -> (r: Self)
        ensures
            r == NetworkType::Ephemeral,
    {
        NetworkType::Ephemeral
    }

    pub fn persistent() -> (r: Self)
        ensures
            r == NetworkType::Persistent,
    {
        NetworkType::Persistent
    }
}

impl Default for NetworkType {
    fn default() -> (r: Self)
        ensures
            r == NetworkType::Ephemeral,
    {
        NetworkType::Ephemeral
    }
}

#[derive(Copy, Clone, Debug, PartialEq, Eq, Structural)]
pub enum ReplicaSubnetType {
    System,
    Application,
    VerifiedApplication,
}

impl Default for ReplicaSubnetType {
    fn default() -> (r: Self)
        ensures
            r == ReplicaSubnetType::Application,
    {
        ReplicaSubnetType::Application
    }
}

impl ReplicaSubnetType {
    pub open spec fn spec_ic_starter_string(&self) -> Seq<char> {
        match self {
            ReplicaSubnetType::System => "system"@,
            ReplicaSubnetType::Application => "application"@,
            ReplicaSubnetType::VerifiedApplication => "verified_application"@,
        }
    }

    /// The value that the local replica starter takes for its subnet type.
    pub fn as_ic_starter_string(&self) -> (r: String)
        ensures
            r@ == self.spec_ic_starter_string(),
    {
        match self {
            ReplicaSubnetType::System => String::from_str("system"),
            ReplicaSubnetType::Application => String::from_str("application"),
            ReplicaSubnetType::VerifiedApplication => String::from_str("verified_application"),
        }
    }
}

#[derive(Clone, Debug, Default, PartialEq, Eq, Structural)]
pub struct ConfigDefaultsReplica {
    pub port: Option<u16>,
    pub subnet_type: Option<ReplicaSubnetType>,
}

#[derive(Clone, Debug)]
pub struct ConfigNetworkProvider {
    pub providers: Vec<String>,
    pub network_type: NetworkType,
}

#[derive(Clone, Debug)]
pub struct ConfigDefaultsBootstrap {
    /// IPv4 or IPv6 address, as its octets.
    pub ip: Option<Vec<u8>>,
    pub port: Option<u16>,
    pub timeout: Option<u64>,
}

#[derive(Clone, Debug)]
pub struct ConfigDefaultsBitcoin {
    pub enabled: bool,
    /// Node addresses, as text.
    pub nodes: Option<Vec<String>>,
    /// Adapter log level, as text.
    pub log_level: String,
}

#[derive(Clone, Debug)]
pub struct ConfigLocalProvider {
    pub bind: String,
    pub network_type: NetworkType,
    pub bitcoin: Option<ConfigDefaultsBitcoin>,
    pub bootstrap: Option<ConfigDefaultsBootstrap>,
    pub canister_http: Option<ConfigDefaultsCanisterHttp>,
    pub replica: Option<ConfigDefaultsReplica>,
}

#[derive(Clone, Debug)]
pub enum ConfigNetwork {
    ConfigNetworkProvider(ConfigNetworkProvider),
    ConfigLocalProvider(ConfigLocalProvider),
}

#[derive(Copy, Clone, Debug, PartialEq, Eq, Structural)]
pub enum Profile {
    /// For development only.
    Debug,
    /// For production.
    Release,
}

#[derive(Clone, Debug, Default)]
pub struct ConfigDefaults {
    pub bitcoin: Option<ConfigDefaultsBitcoin>,
    pub bootstrap: Option<ConfigDefaultsBootstrap>,
    pub build: Option<ConfigDefaultsBuild>,
    pub canister_http: Option<ConfigDefaultsCanisterHttp>,
    pub replica: Option<ConfigDefaultsReplica>,
}

/// The project configuration as the build core reads it.
#[derive(Debug)]
pub struct ConfigInterface {
    pub profile: Option<Profile>,
    pub version: Option<u32>,
    pub dfx: Option<String>,
    /// Canister declarations by name, in declaration order.
    pub canisters: Option<Vec<(String, ConfigCanistersCanister)>>,
    pub defaults: Option<ConfigDefaults>,
    /// Network declarations by name, in declaration order.
    pub networks: Option<Vec<(String, ConfigNetwork)>>,
}

/// `network` is one of the networks on which `c` is a remote canister.
pub open spec fn has_remote_id_on(c: ConfigCanistersCanister, network: Seq<char>) -> bool {
    match c.remote {
        Some(r) => exists|k: int| 0 <= k < r.id@.len() && (#[trigger] r.id@[k]).0@ == network,
        None => false,
    }
}

/// `v` is the identifier that `c` is given on `network`: the first one
/// declared for that network, or none.
pub open spec fn remote_id_on(
    c: ConfigCanistersCanister,
    network: Seq<char>,
    v: Option<CanisterId>,
) -> bool {
    match c.remote {
        None => v is None,
        Some(r) => match v {
            None => !has_remote_id_on(c, network),
            Some(id) => exists|k: int|
                0 <= k < r.id@.len() && (#[trigger] r.id@[k]).0@ == network && id@
                    == r.id@[k].1@ && forall|q: int| 0 <= q < k ==> r.id@[q].0@ != network,
        },
    }
}

pub open spec fn str_focus(focus: Option<&str>) -> Option<Seq<char>> {
    match focus {
        Some(f) => Some(f@),
        None => None,
    }
}

impl ConfigInterface {
    /// What `get_canister_names_with_dependencies` returns for `focus`.
    pub open spec fn names_with_dependencies_outcome(
        &self,
        focus: Option<&str>,
        r: Result<Vec<String>, DfxConfigError>,
    ) -> bool {
        match r {
            Ok(order) => {
                &&& self.canisters is Some
                &&& is_build_order(
                    dependency_graph(self.canisters->Some_0@),
                    resolution_roots(dependency_graph(self.canisters->Some_0@), str_focus(focus)),
                    names_view(order@),
                )
            },
            Err(DfxConfigError::GetCanistersWithDependenciesFailed(f, inner)) => {
                &&& (f matches Some(s) ==> str_focus(focus) == Some(s@))
                &&& (f is None ==> focus is None)
                &&& match self.canisters {
                    None => *inner is CanistersFieldDoesNotExist,
                    Some(cs) => resolution_error(
                        dependency_graph(cs@),
                        resolution_roots(dependency_graph(cs@), str_focus(focus)),
                        *inner,
                    ),
                }
            },
            Err(_) => false,
        }
    }

    /// The names of `some_canister` and all of its transitive dependencies
    /// (of every canister when none is given), each after its dependencies.
    pub fn get_canister_names_with_dependencies(&self, some_canister: Option<&str>) -> (r: Result<
        Vec<String>,
        DfxConfigError,
    >)
        ensures
            self.names_with_dependencies_outcome(some_canister, r),
    {
        let focus: Option<String> = match some_canister {
            Some(s) => Some(String::from_str(s)),
            None => None,
        };
        let canister_map = match &self.canisters {
            Some(m) => m,
            None => {
                return Err(
                    DfxConfigError::GetCanistersWithDependenciesFailed(
                        focus,
                        Box::new(DfxConfigError::CanistersFieldDoesNotExist()),
                    ),
                );
            },
        };
        let resolved = match &focus {
            Some(f) => resolve_dependencies(canister_map, Some(f)),
            None => resolve_dependencies(canister_map, None),
        };
        match resolved {
            Ok(names) => Ok(names),
            Err(e) => Err(DfxConfigError::GetCanistersWithDependenciesFailed(focus, Box::new(e))),
        }
    }

    /// The declaration of the canister `canister_name`.
    pub fn get_canister_config(&self, canister_name: &str) -> (r: Result<
        &ConfigCanistersCanister,
        DfxConfigError,
    >)
        ensures
            self.canisters is None ==> (r matches Err(e) && e is CanistersFieldDoesNotExist),
            self.canisters matches Some(cs) ==> {
                &&& r matches Ok(c) ==> exists|i: int|
                    0 <= i < cs@.len() && #[trigger] cs@[i].0@ == canister_name@ && *c == cs@[i].1
                &&& r is Ok <==> is_canister(dependency_graph(cs@), canister_name@)
                &&& r matches Err(e) ==> (e matches DfxConfigError::CanisterNotFound(n) && n@
                    == canister_name@)
            },
    {
        let canister_map = match &self.canisters {
            Some(m) => m,
            None => {
                return Err(DfxConfigError::CanistersFieldDoesNotExist());
            },
        };
        let name = String::from_str(canister_name);
        match find_canister(canister_map, &name) {
            Some(i) => {
                assert(dependency_graph(canister_map@)[i as int].0 == canister_name@);
                Ok(&canister_map[i].1)
            },
            None => Err(DfxConfigError::CanisterNotFound(name)),
        }
    }

    /// The compute allocation declared for `canister_name`, if any.
    pub fn get_compute_allocation(&self, canister_name: &str) -> (r: Result<Option<u64>, DfxConfigError>)
        ensures
            self.canisters is None ==> (r matches Err(e) && e is CanistersFieldDoesNotExist),
            self.canisters matches Some(cs) ==> {
                &&& r matches Ok(v) ==> exists|i: int|
                    0 <= i < cs@.len() && #[trigger] cs@[i].0@ == canister_name@ && v
                        == cs@[i].1.initialization_values.compute_allocation
                &&& r is Ok <==> is_canister(dependency_graph(cs@), canister_name@)
                &&& r matches Err(e) ==> (e matches DfxConfigError::CanisterNotFound(n) && n@
                    == canister_name@)
            },
    {
        let c = self.get_canister_config(canister_name)?;
        Ok(c.initialization_values.compute_allocation)
    }

    /// The memory allocation, in bytes, declared for `canister_name`, if any.
    pub fn get_memory_allocation(&self, canister_name: &str) -> (r: Result<Option<u128>, DfxConfigError>)
        ensures
            self.canisters is None ==> (r matches Err(e) && e is CanistersFieldDoesNotExist),
            self.canisters matches Some(cs) ==> {
                &&& r matches Ok(v) ==> exists|i: int|
                    0 <= i < cs@.len() && #[trigger] cs@[i].0@ == canister_name@ && v
                        == cs@[i].1.initialization_values.memory_allocation
                &&& r is Ok <==> is_canister(dependency_graph(cs@), canister_name@)
                &&& r matches Err(e) ==> (e matches DfxConfigError::CanisterNotFound(n) && n@
                    == canister_name@)
            },
    {
        let c = self.get_canister_config(canister_name)?;
        Ok(c.initialization_values.memory_allocation)
    }

    /// The freezing threshold, in seconds, declared for `canister_name`, if
    /// any.
    pub fn get_freezing_threshold(&self, canister_name: &str) -> (r: Result<Option<u64>, DfxConfigError>)
        ensures
            self.canisters is None ==> (r matches Err(e) && e is CanistersFieldDoesNotExist),
            self.canisters matches Some(cs) ==> {
                &&& r matches Ok(v) ==> exists|i: int|
                    0 <= i < cs@.len() && #[trigger] cs@[i].0@ == canister_name@ && v
                        == cs@[i].1.initialization_values.freezing_threshold
                &&& r is Ok <==> is_canister(dependency_graph(cs@), canister_name@)
                &&& r matches Err(e) ==> (e matches DfxConfigError::CanisterNotFound(n) && n@
                    == canister_name@)
            },
    {
        let c = self.get_canister_config(canister_name)?;
        Ok(c.initialization_values.freezing_threshold)
    }

    /// The identifier that the declaration of `canister` gives it on
    /// `network`, when it is a remote canister there.
    pub fn get_remote_canister_id(&self, canister: &str, network: &str) -> (r: Result<
        Option<CanisterId>,
        DfxConfigError,
    >)
        ensures
            self.canisters is None ==> (r matches Err(e) && e is CanistersFieldDoesNotExist),
            self.canisters matches Some(cs) ==> {
                &&& r is Ok <==> is_canister(dependency_graph(cs@), canister@)
                &&& r matches Err(e) ==> (e matches DfxConfigError::CanisterNotFound(n) && n@
                    == canister@)
                &&& r matches Ok(v) ==> exists|i: int|
                    0 <= i < cs@.len() && #[trigger] cs@[i].0@ == canister@ && remote_id_on(
                        cs@[i].1,
                        network@,
                        v,
                    )
            },
    {
        let c = self.get_canister_config(canister)?;
        match &c.remote {
            None => Ok(None),
            Some(remote) => {
                let net = String::from_str(network);
                let mut k: usize = 0;
                while k < remote.id.len()
                    invariant
                        k <= remote.id@.len(),
                        net@ == network@,
                        c.remote == Some(*remote),
                        self.canisters matches Some(cs) && is_canister(dependency_graph(cs@), canister@) && exists|i: int|
                            0 <= i < cs@.len() && #[trigger] cs@[i].0@ == canister@ && *c == cs@[i].1,
                        forall|q: int| 0 <= q < k ==> (#[trigger] remote.id@[q]).0@ != network@,
                    decreases remote.id@.len() - k,
                {
                    if remote.id[k].0 == net {
                        let id = remote.id[k].1.duplicate();
                        assert(remote.id@[k as int].0@ == network@);
                        return Ok(Some(id));
                    }
                    k = k + 1;
                }
                Ok(None)
            },
        }
    }

    /// Whether the declaration of `canister` gives it an identifier on
    /// `network`.
    pub fn is_remote_canister(&self, canister: &str, network: &str) -> (r: Result<bool, DfxConfigError>)
        ensures
            self.canisters is None ==> (r matches Err(e) && e is CanistersFieldDoesNotExist),
            self.canisters matches Some(cs) ==> {
                &&& r is Ok <==> is_canister(dependency_graph(cs@), canister@)
                &&& r matches Err(e) ==> (e matches DfxConfigError::CanisterNotFound(n) && n@
                    == canister@)
                &&& r matches Ok(b) ==> exists|i: int|
                    0 <= i < cs@.len() && #[trigger] cs@[i].0@ == canister@ && b == has_remote_id_on(
                        cs@[i].1,
                        network@,
                    )
            },
    {
        let id = self.get_remote_canister_id(canister, network)?;
        Ok(id.is_some())
    }

    /// The configuration format version; 1 when none is declared.
    pub fn get_version(&self) -> (r: u32)
        ensures
            r == match self.version {
                Some(v) => v,
                None => 1,
            },
    {
        match self.version {
            Some(v) => v,
            None => 1,
        }
    }

    /// The tool version the project asks for, if any.
    pub fn get_dfx(&self) -> (r: Option<String>)
        ensures
            r == self.dfx,
    {
        match &self.dfx {
            Some(v) => Some(v.clone()),
            None => None,
        }
    }
}


fn copy_opt_string(o: &Option<String>) -> (r: Option<String>)
    ensures
        r == *o,
{
    match o {
        Some(s) => Some(s.clone()),
        None => None,
    }
}

fn copy_strings(v: &Vec<String>) -> (r: Vec<String>)
    ensures
        names_view(r@) == names_view(v@),
{
    let mut r: Vec<String> = Vec::new();
    let mut i: usize = 0;
    while i < v.len()
        invariant
            i <= v@.len(),
            names_view(r@) == names_view(v@.subrange(0, i as int)),
        decreases v@.len() - i,
    {
        let ghost before = r@;
        r.push(v[i].clone());
        proof {
            assert(names_view(r@) =~= names_view(before).push(v@[i as int]@));
            assert(names_view(v@.subrange(0, i + 1)) =~= names_view(v@.subrange(0, i as int)).push(
                v@[i as int]@,
            ));
        }
        i = i + 1;
    }
    assert(v@.subrange(0, v@.len() as int) =~= v@);
    r
}

pub open spec fn same_opt_strings(a: Option<Vec<String>>, b: Option<Vec<String>>) -> bool {
    match (a, b) {
        (Some(x), Some(y)) => names_view(x@) == names_view(y@),
        (None, None) => true,
        _ => false,
    }
}

pub open spec fn same_opt_bytes(a: Option<Vec<u8>>, b: Option<Vec<u8>>) -> bool {
    match (a, b) {
        (Some(x), Some(y)) => x@ == y@,
        (None, None) => true,
        _ => false,
    }
}

impl ConfigDefaultsBuild {
    pub fn duplicate(&self) -> (r: ConfigDefaultsBuild)
        ensures
            r == *self,
    {
        ConfigDefaultsBuild { packtool: copy_opt_string(&self.packtool), args: copy_opt_string(&self.args) }
    }

    /// The declared package tool, unless it is absent or empty.
    pub fn get_packtool(&self) -> (r: Option<String>)
        ensures
            r matches Some(v) ==> self.packtool == Some(v) && v@.len() > 0,
            r is None <==> (self.packtool matches Some(v) ==> v@.len() == 0),
    {
        match &self.packtool {
            Some(v) if v.as_str().unicode_len() > 0 => Some(v.clone()),
            _ => None,
        }
    }

    /// The declared package tool arguments, unless absent or empty.
    pub fn get_args(&self) -> (r: Option<String>)
        ensures
            r matches Some(v) ==> self.args == Some(v) && v@.len() > 0,
            r is None <==> (self.args matches Some(v) ==> v@.len() == 0),
    {
        match &self.args {
            Some(v) if v.as_str().unicode_len() > 0 => Some(v.clone()),
            _ => None,
        }
    }
}

impl ConfigDefaultsCanisterHttp {
    pub fn duplicate(&self) -> (r: ConfigDefaultsCanisterHttp)
        ensures
            r == *self,
    {
        ConfigDefaultsCanisterHttp { enabled: self.enabled }
    }
}

impl ConfigDefaultsReplica {
    pub fn duplicate(&self) -> (r: ConfigDefaultsReplica)
        ensures
            r == *self,
    {
        ConfigDefaultsReplica { port: self.port, subnet_type: self.subnet_type }
    }
}

impl ConfigDefaultsBootstrap {
    pub open spec fn same_as(&self, o: &ConfigDefaultsBootstrap) -> bool {
        &&& same_opt_bytes(self.ip, o.ip)
        &&& self.port == o.port
        &&& self.timeout == o.timeout
    }

    pub fn duplicate(&self) -> (r: ConfigDefaultsBootstrap)
        ensures
            r.same_as(self),
    {
        let ip = match &self.ip {
            Some(b) => Some(crate::principal::copy_bytes(b.as_slice())),
            None => None,
        };
        ConfigDefaultsBootstrap { ip, port: self.port, timeout: self.timeout }
    }
}

impl ConfigDefaultsBitcoin {
    pub open spec fn same_as(&self, o: &ConfigDefaultsBitcoin) -> bool {
        &&& self.enabled == o.enabled
        &&& same_opt_strings(self.nodes, o.nodes)
        &&& self.log_level@ == o.log_level@
    }

    pub fn duplicate(&self) -> (r: ConfigDefaultsBitcoin)
        ensures
            r.same_as(self),
    {
        let nodes = match &self.nodes {
            Some(v) => Some(copy_strings(v)),
            None => None,
        };
        ConfigDefaultsBitcoin { enabled: self.enabled, nodes, log_level: self.log_level.clone() }
    }
}

pub open spec fn same_opt_bitcoin(a: Option<ConfigDefaultsBitcoin>, b: Option<ConfigDefaultsBitcoin>) -> bool {
    match (a, b) {
        (Some(x), Some(y)) => x.same_as(&y),
        (None, None) => true,
        _ => false,
    }
}

pub open spec fn same_opt_bootstrap(
    a: Option<ConfigDefaultsBootstrap>,
    b: Option<ConfigDefaultsBootstrap>,
) -> bool {
    match (a, b) {
        (Some(x), Some(y)) => x.same_as(&y),
        (None, None) => true,
        _ => false,
    }
}

fn copy_opt_bitcoin(o: &Option<ConfigDefaultsBitcoin>) -> (r: Option<ConfigDefaultsBitcoin>)
    ensures
        same_opt_bitcoin(r, *o),
{
    match o {
        Some(b) => Some(b.duplicate()),
        None => None,
    }
}

fn copy_opt_bootstrap(o: &Option<ConfigDefaultsBootstrap>) -> (r: Option<ConfigDefaultsBootstrap>)
    ensures
        same_opt_bootstrap(r, *o),
{
    match o {
        Some(b) => Some(b.duplicate()),
        None => None,
    }
}

impl ConfigDefaults {
    pub open spec fn same_as(&self, o: &ConfigDefaults) -> bool {
        &&& same_opt_bitcoin(self.bitcoin, o.bitcoin)
        &&& same_opt_bootstrap(self.bootstrap, o.bootstrap)
        &&& self.build == o.build
        &&& self.canister_http == o.canister_http
        &&& self.replica == o.replica
    }

    pub fn duplicate(&self) -> (r: ConfigDefaults)
        ensures
            r.same_as(self),
    {
        ConfigDefaults {
            bitcoin: copy_opt_bitcoin(&self.bitcoin),
            bootstrap: copy_opt_bootstrap(&self.bootstrap),
            build: match &self.build {
                Some(b) => Some(b.duplicate()),
                None => None,
            },
            canister_http: match &self.canister_http {
                Some(h) => Some(h.duplicate()),
                None => None,
            },
            replica: match &self.replica {
                Some(x) => Some(x.duplicate()),
                None => None,
            },
        }
    }

    /// The build defaults; empty ones when none are declared.
    pub fn get_build(&self) -> (r: ConfigDefaultsBuild)
        ensures
            r == match self.build {
                Some(b) => b,
                None => ConfigDefaultsBuild { packtool: None, args: None },
            },
    {
        match &self.build {
            Some(b) => b.duplicate(),
            None => ConfigDefaultsBuild { packtool: None, args: None },
        }
    }
}

impl ConfigNetworkProvider {
    pub open spec fn same_as(&self, o: &ConfigNetworkProvider) -> bool {
        &&& names_view(self.providers@) == names_view(o.providers@)
        &&& self.network_type == o.network_type
    }
}

impl ConfigLocalProvider {
    pub open spec fn same_as(&self, o: &ConfigLocalProvider) -> bool {
        &&& self.bind@ == o.bind@
        &&& self.network_type == o.network_type
        &&& same_opt_bitcoin(self.bitcoin, o.bitcoin)
        &&& same_opt_bootstrap(self.bootstrap, o.bootstrap)
        &&& self.canister_http == o.canister_http
        &&& self.replica == o.replica
    }
}

impl ConfigNetwork {
    pub open spec fn same_as(&self, o: &ConfigNetwork) -> bool {
        match (self, o) {
            (ConfigNetwork::ConfigNetworkProvider(a), ConfigNetwork::ConfigNetworkProvider(b)) => a.same_as(b),
            (ConfigNetwork::ConfigLocalProvider(a), ConfigNetwork::ConfigLocalProvider(b)) => a.same_as(b),
            _ => false,
        }
    }

    pub fn duplicate(&self) -> (r: ConfigNetwork)
        ensures
            r.same_as(self),
    {
        match self {
            ConfigNetwork::ConfigNetworkProvider(p) => ConfigNetwork::ConfigNetworkProvider(
                ConfigNetworkProvider { providers: copy_strings(&p.providers), network_type: p.network_type },
            ),
            ConfigNetwork::ConfigLocalProvider(l) => ConfigNetwork::ConfigLocalProvider(
                ConfigLocalProvider {
                    bind: l.bind.clone(),
                    network_type: l.network_type,
                    bitcoin: copy_opt_bitcoin(&l.bitcoin),
                    bootstrap: copy_opt_bootstrap(&l.bootstrap),
                    canister_http: match &l.canister_http {
                        Some(h) => Some(h.duplicate()),
                        None => None,
                    },
                    replica: match &l.replica {
                        Some(x) => Some(x.duplicate()),
                        None => None,
                    },
                },
            ),
        }
    }
}

/// Where the local network listens when the project does not say.
pub open spec fn default_local_bind() -> Seq<char> {
    "127.0.0.1:8000"@
}

/// The gateway of the main network.
pub open spec fn default_ic_gateway() -> Seq<char> {
    "https://ic0.app"@
}

/// The network that `name` stands for: the main network for `ic` whatever
/// is declared; an ephemeral network on the default local address for an
/// undeclared `local`; otherwise the first declaration of that name.
pub open spec fn network_outcome(
    networks: Option<Vec<(String, ConfigNetwork)>>,
    name: Seq<char>,
    r: Option<ConfigNetwork>,
) -> bool {
    let declared = match networks {
        Some(ns) => exists|k: int| 0 <= k < ns@.len() && (#[trigger] ns@[k]).0@ == name,
        None => false,
    };
    if name == "ic"@ {
        match r {
            Some(ConfigNetwork::ConfigNetworkProvider(p)) => names_view(p.providers@) == seq![
                default_ic_gateway(),
            ] && p.network_type == NetworkType::Persistent,
            _ => false,
        }
    } else if !declared {
        if name == "local"@ {
            match r {
                Some(ConfigNetwork::ConfigLocalProvider(l)) => {
                    &&& l.bind@ == default_local_bind()
                    &&& l.network_type == NetworkType::Ephemeral
                    &&& l.bitcoin is None && l.bootstrap is None && l.canister_http is None
                        && l.replica is None
                },
                _ => false,
            }
        } else {
            r is None
        }
    } else {
        match (networks, r) {
            (Some(ns), Some(n)) => exists|k: int|
                0 <= k < ns@.len() && (#[trigger] ns@[k]).0@ == name && n.same_as(&ns@[k].1)
                    && forall|q: int| 0 <= q < k ==> ns@[q].0@ != name,
            _ => false,
        }
    }
}

fn find_network(ns: &Vec<(String, ConfigNetwork)>, n: &String) -> (r: Option<usize>)
    ensures
        r matches Some(k) ==> k < ns@.len() && ns@[k as int].0@ == n@ && forall|q: int|
            0 <= q < k ==> (#[trigger] ns@[q]).0@ != n@,
        r is None ==> forall|q: int| 0 <= q < ns@.len() ==> (#[trigger] ns@[q]).0@ != n@,
{
    let mut k: usize = 0;
    while k < ns.len()
        invariant
            k <= ns@.len(),
            forall|q: int| 0 <= q < k ==> (#[trigger] ns@[q]).0@ != n@,
        decreases ns@.len() - k,
    {
        if ns[k].0 == *n {
            return Some(k);
        }
        k = k + 1;
    }
    None
}

impl ConfigInterface {
    /// The declared defaults; empty ones when none are declared.
    pub fn get_defaults(&self) -> (r: ConfigDefaults)
        ensures
            match self.defaults {
                Some(d) => r.same_as(&d),
                None => r.bitcoin is None && r.bootstrap is None && r.build is None
                    && r.canister_http is None && r.replica is None,
            },
    {
        match &self.defaults {
            Some(d) => d.duplicate(),
            None => ConfigDefaults {
                bitcoin: None,
                bootstrap: None,
                build: None,
                canister_http: None,
                replica: None,
            },
        }
    }

    /// The network called `name`.
    pub fn get_network(&self, name: &str) -> (r: Option<ConfigNetwork>)
        ensures
            network_outcome(self.networks, name@, r),
    {
        proof {
            reveal_strlit("ic");
            reveal_strlit("local");
        }
        let n = String::from_str(name);
        let network: Option<ConfigNetwork> = match &self.networks {
            Some(ns) => match find_network(ns, &n) {
                Some(k) => Some(ns[k].1.duplicate()),
                None => None,
            },
            None => None,
        };
        if n == String::from_str("ic") {
            let mut providers: Vec<String> = Vec::new();
            providers.push(String::from_str("https://ic0.app"));
            assert(names_view(providers@) =~= seq![default_ic_gateway()]);
            return Some(
                ConfigNetwork::ConfigNetworkProvider(
                    ConfigNetworkProvider { providers, network_type: NetworkType::Persistent },
                ),
            );
        }
        if network.is_none() && n == String::from_str("local") {
            return Some(
                ConfigNetwork::ConfigLocalProvider(
                    ConfigLocalProvider {
                        bind: String::from_str("127.0.0.1:8000"),
                        network_type: NetworkType::Ephemeral,
                        bitcoin: None,
                        bootstrap: None,
                        canister_http: None,
                        replica: None,
                    },
                ),
            );
        }
        network
    }
}

} // verus!
