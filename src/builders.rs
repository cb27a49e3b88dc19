use vstd::prelude::*;

use crate::config::CanisterTypeProperties;
use crate::env::push_char;
use crate::graph::names_view;
use crate::principal::{copy_bytes, CanisterId};

verus! {

/// Where the compiled module of a canister is.
#[derive(Debug)]
pub enum WasmBuildOutput {
    /// Held in memory.
    Wasm(Vec<u8>),
    /// Written to this path.
    File(String),
}

/// Where the interface description of a canister is.
#[derive(Debug)]
pub enum IdlBuildOutput {
    /// Held in memory.
    Idl(Vec<u8>),
    /// Written to this path.
    File(String),
}

/// The result of a successful build of one canister.
#[derive(Debug)]
pub struct BuildOutput {
    pub canister_id: CanisterId,
    pub wasm: WasmBuildOutput,
    pub idl: IdlBuildOutput,
}

/// Why the build of a canister did not succeed.
#[derive(Debug)]
pub enum BuildError {
    /// No registered builder handles the canister's type.
    NoBuilder(String),
    /// A canister (first) names a dependency (second) that the pool lacks.
    DependencyNotFound(String, String),
    /// The external tool failed for this canister.
    ToolFailed(String),
    /// The tool left no compiled module for this canister.
    ModuleMissing(String),
    /// The compiled module of a canister (first) could not be processed.
    InvalidModule(String, String),
    /// No interface description at this path.
    IdlNotFound(String),
}

impl WasmBuildOutput {
    pub open spec fn same_as(&self, o: &WasmBuildOutput) -> bool {
        match (self, o) {
            (WasmBuildOutput::Wasm(a), WasmBuildOutput::Wasm(b)) => a@ == b@,
            (WasmBuildOutput::File(a), WasmBuildOutput::File(b)) => a@ == b@,
            _ => false,
        }
    }

    pub fn duplicate(&self) -> (r: WasmBuildOutput)
        ensures
            r.same_as(self),
    {
        match self {
            WasmBuildOutput::Wasm(b) => WasmBuildOutput::Wasm(copy_bytes(b.as_slice())),
            WasmBuildOutput::File(p) => WasmBuildOutput::File(p.clone()),
        }
    }
}

impl IdlBuildOutput {
    pub open spec fn same_as(&self, o: &IdlBuildOutput) -> bool {
        match (self, o) {
            (IdlBuildOutput::Idl(a), IdlBuildOutput::Idl(b)) => a@ == b@,
            (IdlBuildOutput::File(a), IdlBuildOutput::File(b)) => a@ == b@,
            _ => false,
        }
    }

    pub fn duplicate(&self) -> (r: IdlBuildOutput)
        ensures
            r.same_as(self),
    {
        match self {
            IdlBuildOutput::Idl(b) => IdlBuildOutput::Idl(copy_bytes(b.as_slice())),
            IdlBuildOutput::File(p) => IdlBuildOutput::File(p.clone()),
        }
    }
}

impl BuildOutput {
    pub open spec fn same_as(&self, o: &BuildOutput) -> bool {
        &&& self.canister_id@ == o.canister_id@
        &&& self.wasm.same_as(&o.wasm)
        &&& self.idl.same_as(&o.idl)
    }

    pub fn duplicate(&self) -> (r: BuildOutput)
        ensures
            r.same_as(self),
    {
        BuildOutput {
            canister_id: self.canister_id.duplicate(),
            wasm: self.wasm.duplicate(),
            idl: self.idl.duplicate(),
        }
    }
}

/// One run of an external program.
#[derive(Debug)]
pub struct ToolCommand {
    pub program: String,
    pub args: Vec<String>,
}

pub open spec fn command_view(c: ToolCommand) -> (Seq<char>, Seq<Seq<char>>) {
    (c.program@, names_view(c.args@))
}

pub open spec fn commands_view(cs: Seq<ToolCommand>) -> Seq<(Seq<char>, Seq<Seq<char>>)> {
    cs.map_values(|c: ToolCommand| command_view(c))
}

/// A build backend for one kind of canister.
pub trait CanisterBuilder {
    spec fn spec_supports(&self, props: CanisterTypeProperties) -> bool;

    spec fn spec_commands(&self, props: CanisterTypeProperties) -> Seq<(Seq<char>, Seq<Seq<char>>)>;

    spec fn spec_wasm_path(&self, props: CanisterTypeProperties) -> Seq<char>;

    spec fn spec_idl_path(&self, props: CanisterTypeProperties) -> Seq<char>;

    /// Whether this backend builds canisters of this type.
    fn supports(&self, props: &CanisterTypeProperties) -> (r: bool)
        ensures
            r == self.spec_supports(*props),
    ;

    /// The programs to run, in order, to compile the canister.
    fn build_commands(&self, props: &CanisterTypeProperties) -> (r: Vec<ToolCommand>)
        requires
            self.spec_supports(*props),
        ensures
            commands_view(r@) == self.spec_commands(*props),
    ;

    /// Where the compiled module is found once the commands have run.
    fn output_wasm_path(&self, props: &CanisterTypeProperties) -> (r: String)
        requires
            self.spec_supports(*props),
        ensures
            r@ == self.spec_wasm_path(*props),
    ;

    /// Where the interface description is found once the commands have run.
    fn output_idl_path(&self, props: &CanisterTypeProperties) -> (r: String)
        requires
            self.spec_supports(*props),
        ensures
            r@ == self.spec_idl_path(*props),
    ;
}

/// Builds Rust canisters with cargo.
#[derive(Debug)]
pub struct RustBuilder {}

/// Builds canisters by running the commands their declaration lists.
#[derive(Debug)]
pub struct CustomBuilder {}

/// The directory where cargo leaves release modules for the wasm target.
pub open spec fn rust_target_dir() -> Seq<char> {
    "target/wasm32-unknown-unknown/release/"@
}

/// A package name as cargo spells it in artifact file names.
pub open spec fn artifact_stem(package: Seq<char>) -> Seq<char> {
    package.map_values(|c: char| if c == '-' { '_' } else { c })
}

pub open spec fn rust_wasm_path(package: Seq<char>) -> Seq<char> {
    rust_target_dir() + artifact_stem(package) + ".wasm"@
}

/// The arguments cargo receives to compile `package`.
pub open spec fn cargo_args(package: Seq<char>) -> Seq<Seq<char>> {
    seq!["build"@, "--target"@, "wasm32-unknown-unknown"@, "--release"@, "-p"@, package]
}

fn artifact_file_name(package: &String) -> (r: String)
    ensures
        r@ == rust_wasm_path(package@),
{
    let mut r = String::from_str("target/wasm32-unknown-unknown/release/");
    proof {
        reveal_strlit("target/wasm32-unknown-unknown/release/");
    }
    let p = package.as_str();
    let len = p.unicode_len();
    let mut i: usize = 0;
    while i < len
        invariant
            len == package@.len(),
            p@ == package@,
            i <= len,
            r@ == rust_target_dir() + artifact_stem(package@.subrange(0, i as int)),
        decreases len - i,
    {
        let c = p.get_char(i);
        if c == '-' {
            push_char(&mut r, '_');
        } else {
            push_char(&mut r, c);
        }
        proof {
            assert(artifact_stem(package@.subrange(0, i + 1)) =~= artifact_stem(
                package@.subrange(0, i as int),
            ).push(if c == '-' { '_' } else { c }));
        }
        i = i + 1;
    }
    assert(package@.subrange(0, len as int) =~= package@);
    r.append(".wasm");
    r
}

fn push_arg(args: &mut Vec<String>, a: &str)
    ensures
        final(args)@.len() == old(args)@.len() + 1,
        names_view(final(args)@) == names_view(old(args)@).push(a@),
{
    args.push(String::from_str(a));
    assert(names_view(args@) =~= names_view(old(args)@).push(a@));
}

impl CanisterBuilder for RustBuilder {
    open spec fn spec_supports(&self, props: CanisterTypeProperties) -> bool {
        props is Rust
    }

    open spec fn spec_commands(&self, props: CanisterTypeProperties) -> Seq<
        (Seq<char>, Seq<Seq<char>>),
    > {
        seq![("cargo"@, cargo_args(props->Rust_package@))]
    }

    open spec fn spec_wasm_path(&self, props: CanisterTypeProperties) -> Seq<char> {
        rust_wasm_path(props->Rust_package@)
    }

    open spec fn spec_idl_path(&self, props: CanisterTypeProperties) -> Seq<char> {
        props->Rust_candid@
    }

    fn supports(&self, props: &CanisterTypeProperties) -> (r: bool) {
        matches!(props, CanisterTypeProperties::Rust { .. })
    }

    fn build_commands(&self, props: &CanisterTypeProperties) -> (r: Vec<ToolCommand>) {
        let package = match props {
            CanisterTypeProperties::Rust { package, .. } => package,
            _ => {
                assert(false);
                return Vec::new();
            },
        };
        let mut args: Vec<String> = Vec::new();
        push_arg(&mut args, "build");
        push_arg(&mut args, "--target");
        push_arg(&mut args, "wasm32-unknown-unknown");
        push_arg(&mut args, "--release");
        push_arg(&mut args, "-p");
        push_arg(&mut args, package.as_str());
        proof {
            assert(names_view(args@) =~= cargo_args(package@));
        }
        let mut r: Vec<ToolCommand> = Vec::new();
        r.push(ToolCommand { program: String::from_str("cargo"), args });
        assert(commands_view(r@) =~= self.spec_commands(*props));
        r
    }

    fn output_wasm_path(&self, props: &CanisterTypeProperties) -> (r: String) {
        match props {
            CanisterTypeProperties::Rust { package, .. } => artifact_file_name(package),
            _ => {
                assert(false);
                String::new()
            },
        }
    }

    fn output_idl_path(&self, props: &CanisterTypeProperties) -> (r: String) {
        match props {
            CanisterTypeProperties::Rust { candid, .. } => candid.clone(),
            _ => {
                assert(false);
                String::new()
            },
        }
    }
}

/// The shell invocation that runs one declared build command.
pub open spec fn shell_command(line: Seq<char>) -> (Seq<char>, Seq<Seq<char>>) {
    ("sh"@, seq!["-c"@, line])
}

impl CanisterBuilder for CustomBuilder {
    open spec fn spec_supports(&self, props: CanisterTypeProperties) -> bool {
        props is Custom
    }

    open spec fn spec_commands(&self, props: CanisterTypeProperties) -> Seq<
        (Seq<char>, Seq<Seq<char>>),
    > {
        names_view(props->Custom_build@).map_values(|line: Seq<char>| shell_command(line))
    }

    open spec fn spec_wasm_path(&self, props: CanisterTypeProperties) -> Seq<char> {
        props->Custom_wasm@
    }

    open spec fn spec_idl_path(&self, props: CanisterTypeProperties) -> Seq<char> {
        props->Custom_candid@
    }

    fn supports(&self, props: &CanisterTypeProperties) -> (r: bool) {
        matches!(props, CanisterTypeProperties::Custom { .. })
    }

    fn build_commands(&self, props: &CanisterTypeProperties) -> (r: Vec<ToolCommand>) {
        let build = match props {
            CanisterTypeProperties::Custom { build, .. } => build,
            _ => {
                assert(false);
                return Vec::new();
            },
        };
        let mut r: Vec<ToolCommand> = Vec::new();
        let mut i: usize = 0;
        while i < build.len()
            invariant
                i <= build@.len(),
                commands_view(r@) == names_view(build@.subrange(0, i as int)).map_values(
                    |line: Seq<char>| shell_command(line),
                ),
            decreases build@.len() - i,
        {
            let mut args: Vec<String> = Vec::new();
            push_arg(&mut args, "-c");
            push_arg(&mut args, build[i].as_str());
            let ghost before = r@;
            r.push(ToolCommand { program: String::from_str("sh"), args });
            proof {
                assert(names_view(args@) =~= seq!["-c"@, build@[i as int]@]);
                assert(commands_view(r@) =~= commands_view(before).push(shell_command(build@[i as int]@)));
                assert(names_view(build@.subrange(0, i + 1)).map_values(
                    |line: Seq<char>| shell_command(line),
                ) =~= names_view(build@.subrange(0, i as int)).map_values(
                    |line: Seq<char>| shell_command(line),
                ).push(shell_command(build@[i as int]@)));
            }
            i = i + 1;
        }
        assert(build@.subrange(0, build@.len() as int) =~= build@);
        r
    }

    fn output_wasm_path(&self, props: &CanisterTypeProperties) -> (r: String) {
        match props {
            CanisterTypeProperties::Custom { wasm, .. } => wasm.clone(),
            _ => {
                assert(false);
                String::new()
            },
        }
    }

    fn output_idl_path(&self, props: &CanisterTypeProperties) -> (r: String) {
        match props {
            CanisterTypeProperties::Custom { candid, .. } => candid.clone(),
            _ => {
                assert(false);
                String::new()
            },
        }
    }
}

impl RustBuilder {
    pub fn new() -> (r: RustBuilder) {
        RustBuilder {  }
    }
}

impl CustomBuilder {
    pub fn new() -> (r: CustomBuilder) {
        CustomBuilder {  }
    }
}

/// The interface description left at `idl_path` by a build, given whether
/// the caller found a file there.
pub fn generate_idl(idl_path: &String, exists: bool) -> (r: Result<String, BuildError>)
    ensures
        exists ==> (r matches Ok(p) && p@ == idl_path@),
        !exists ==> (r matches Err(BuildError::IdlNotFound(p)) && p@ == idl_path@),
{
    if exists {
        Ok(idl_path.clone())
    } else {
        Err(BuildError::IdlNotFound(idl_path.clone()))
    }
}

} // verus!
