use vstd::prelude::*;

use crate::builders::{
    commands_view, BuildError, BuildOutput, CanisterBuilder, CustomBuilder, IdlBuildOutput,
    RustBuilder, ToolCommand, WasmBuildOutput,
};
use crate::config::{same_opt_bytes, CanisterTypeProperties, ConfigCanistersCanister};
use crate::env::{canister_id_var, canister_id_var_name};
use crate::error::DfxConfigError;
use crate::graph::{
    dependency_graph, depends_on, find_canister, is_canister, names_unique,
    names_view, resolution_outcome, resolve_dependencies, DepGraph,
};
use crate::principal::{principal_text, CanisterId};
use crate::wasm::{postprocess_module, postprocessed};

verus! {

/// The backends that the pool dispatches to.
#[derive(Debug)]
pub enum Builder {
    Rust(RustBuilder),
    Custom(CustomBuilder),
}

impl CanisterBuilder for Builder {
    open spec fn spec_supports(&self, props: CanisterTypeProperties) -> bool {
        match self {
            Builder::Rust(b) => b.spec_supports(props),
            Builder::Custom(b) => b.spec_supports(props),
        }
    }

    open spec fn spec_commands(&self, props: CanisterTypeProperties) -> Seq<
        (Seq<char>, Seq<Seq<char>>),
    > {
        match self {
            Builder::Rust(b) => b.spec_commands(props),
            Builder::Custom(b) => b.spec_commands(props),
        }
    }

    open spec fn spec_wasm_path(&self, props: CanisterTypeProperties) -> Seq<char> {
        match self {
            Builder::Rust(b) => b.spec_wasm_path(props),
            Builder::Custom(b) => b.spec_wasm_path(props),
        }
    }

    open spec fn spec_idl_path(&self, props: CanisterTypeProperties) -> Seq<char> {
        match self {
            Builder::Rust(b) => b.spec_idl_path(props),
            Builder::Custom(b) => b.spec_idl_path(props),
        }
    }

    fn supports(&self, props: &CanisterTypeProperties) -> (r: bool) {
        match self {
            Builder::Rust(b) => b.supports(props),
            Builder::Custom(b) => b.supports(props),
        }
    }

    fn build_commands(&self, props: &CanisterTypeProperties) -> (r: Vec<ToolCommand>) {
        match self {
            Builder::Rust(b) => b.build_commands(props),
            Builder::Custom(b) => b.build_commands(props),
        }
    }

    fn output_wasm_path(&self, props: &CanisterTypeProperties) -> (r: String) {
        match self {
            Builder::Rust(b) => b.output_wasm_path(props),
            Builder::Custom(b) => b.output_wasm_path(props),
        }
    }

    fn output_idl_path(&self, props: &CanisterTypeProperties) -> (r: String) {
        match self {
            Builder::Rust(b) => b.output_idl_path(props),
            Builder::Custom(b) => b.output_idl_path(props),
        }
    }
}

/// The first backend of `bs` that supports `props`, if any.
pub open spec fn selected_builder(bs: Seq<Builder>, props: CanisterTypeProperties, i: int) -> bool {
    &&& 0 <= i < bs.len()
    &&& bs[i].spec_supports(props)
    &&& forall|j: int| 0 <= j < i ==> !(#[trigger] bs[j]).spec_supports(props)
}

pub open spec fn supported(bs: Seq<Builder>, props: CanisterTypeProperties) -> bool {
    exists|i: int| 0 <= i < bs.len() && (#[trigger] bs[i]).spec_supports(props)
}

/// What the tool run of one build step left behind, as read back by the
/// caller.
#[derive(Debug)]
pub struct ToolOutcome {
    /// Every command exited successfully.
    pub success: bool,
    /// The compiled module, if one is at its output path.
    pub wasm: Option<Vec<u8>>,
    /// The interface description, if one is at its output path.
    pub idl: Option<Vec<u8>>,
}

/// What the caller has to do next in a build.
#[derive(Debug)]
pub enum BuildStep {
    /// Run `commands` in order with `env` added to the environment, then
    /// report the outcome.
    Build {
        canister: String,
        commands: Vec<ToolCommand>,
        env: Vec<(String, String)>,
        wasm_path: String,
        idl_path: String,
    },
    /// The build is over: every canister is built, or one failed.
    Finished,
}

/// The progress of one build: the order, and a result for each canister of
/// its prefix that was attempted.
#[derive(Debug)]
pub struct BuildRun {
    pub order: Vec<String>,
    pub results: Vec<(String, Result<BuildOutput, BuildError>)>,
    pub stopped: bool,
}

impl BuildRun {
    /// Results follow the order, all succeed but the last, and the run is
    /// stopped exactly when the last one failed.
    pub open spec fn wf(&self) -> bool {
        &&& self.results@.len() <= self.order@.len()
        &&& forall|i: int| 0 <= i < self.results@.len() ==> (#[trigger] self.results@[i]).0@ == self.order@[i]@
        &&& forall|i: int| 0 <= i < self.results@.len() - 1 ==> (#[trigger] self.results@[i]).1 is Ok
        &&& self.stopped <==> (self.results@.len() > 0 && self.results@.last().1 is Err)
    }

    /// No canister is left to build.
    pub open spec fn is_over(&self) -> bool {
        self.stopped || self.results@.len() >= self.order@.len()
    }

    /// The name of the canister whose build comes next.
    pub open spec fn pending(&self) -> Seq<char> {
        self.order@[self.results@.len() as int]@
    }

    pub fn is_finished(&self) -> (r: bool)
        ensures
            r == self.is_over(),
    {
        self.stopped || self.results.len() >= self.order.len()
    }
}

/// Once a canister fails, it is the last one attempted: every earlier one
/// succeeded, and the run is stopped.
pub proof fn lemma_fail_fast(run: BuildRun, k: int)
    requires
        run.wf(),
        0 <= k < run.results@.len(),
        run.results@[k].1 is Err,
    ensures
        k == run.results@.len() - 1,
        run.stopped,
        run.is_over(),
        forall|i: int| 0 <= i < k ==> (#[trigger] run.results@[i]).1 is Ok,
{
}

/// All canisters of a project with their assigned identifiers, and the
/// outputs of those built so far.
#[derive(Debug)]
pub struct CanisterPool {
    pub canisters: Vec<(String, ConfigCanistersCanister)>,
    pub ids: Vec<CanisterId>,
    pub outputs: Vec<Option<BuildOutput>>,
    pub builders: Vec<Builder>,
}

impl CanisterPool {
    pub open spec fn graph(&self) -> DepGraph {
        dependency_graph(self.canisters@)
    }

    /// One identifier and one output slot per canister, names unique.
    pub open spec fn wf(&self) -> bool {
        &&& self.ids@.len() == self.canisters@.len()
        &&& self.outputs@.len() == self.canisters@.len()
        &&& names_unique(self.graph())
    }

    /// The position of the canister named `n`.
    pub open spec fn index_of(&self, n: Seq<char>) -> int {
        choose|j: int| 0 <= j < self.canisters@.len() && #[trigger] self.canisters@[j].0@ == n
    }

    /// The environment handed to the build of canister `i`: for each of its
    /// dependencies, in order, the variable named after it, set to its
    /// identifier as text.
    pub open spec fn dependency_env(&self, i: int) -> Seq<(Seq<char>, Seq<char>)> {
        names_view(self.canisters@[i].1.dependencies@).map_values(
            |d: Seq<char>| (canister_id_var(d), principal_text(self.ids@[self.index_of(d)]@)),
        )
    }

    /// `run` belongs to this pool: its order lists declared canisters, each
    /// after its dependencies, and every success it records is stored here.
    pub open spec fn tracks(&self, run: &BuildRun) -> bool {
        let o = names_view(run.order@);
        &&& o.no_duplicates()
        &&& forall|k: int| 0 <= k < o.len() ==> is_canister(self.graph(), #[trigger] o[k])
        &&& forall|i: int, b: Seq<char>|
            0 <= i < o.len() && #[trigger] depends_on(self.graph(), o[i], b) ==> exists|j: int|
                0 <= j < i && #[trigger] o[j] == b
        &&& forall|k: int|
            0 <= k < run.results@.len() && (#[trigger] run.results@[k]).1 is Ok ==> self.outputs@[self.index_of(
                o[k],
            )] is Some
    }

    /// A pool over `canisters`, with `ids[i]` assigned to `canisters[i]`,
    /// nothing built yet, and the Rust and custom backends registered.
    pub fn new(canisters: Vec<(String, ConfigCanistersCanister)>, ids: Vec<CanisterId>) -> (r:
        Result<CanisterPool, DfxConfigError>)
        requires
            ids@.len() == canisters@.len(),
        ensures
            r matches Ok(p) ==> p.wf() && p.canisters@ == canisters@ && p.ids@ == ids@ && forall|
                i: int,
            | 0 <= i < p.outputs@.len() ==> p.outputs@[i] is None,
            r matches Err(e) ==> !names_unique(dependency_graph(canisters@))
                && e is DuplicateCanisterName,
            names_unique(dependency_graph(canisters@)) ==> r is Ok,
    {
        let mut i: usize = 0;
        while i < canisters.len()
            invariant
                i <= canisters@.len(),
                forall|a: int, b: int|
                    0 <= a < b < i ==> #[trigger] dependency_graph(canisters@)[a].0
                        != #[trigger] dependency_graph(canisters@)[b].0,
            decreases canisters@.len() - i,
        {
            let mut j: usize = 0;
            while j < i
                invariant
                    j <= i < canisters@.len(),
                    forall|a: int| 0 <= a < j ==> #[trigger] dependency_graph(canisters@)[a].0 != dependency_graph(canisters@)[i as int].0,
                decreases i - j,
            {
                if canisters[j].0 == canisters[i].0 {
                    assert(dependency_graph(canisters@)[j as int].0 == dependency_graph(canisters@)[i as int].0);
                    return Err(DfxConfigError::DuplicateCanisterName(canisters[i].0.clone()));
                }
                j = j + 1;
            }
            i = i + 1;
        }
        let mut outputs: Vec<Option<BuildOutput>> = Vec::new();
        let mut k: usize = 0;
        while k < canisters.len()
            invariant
                k <= canisters@.len(),
                outputs@.len() == k,
                forall|m: int| 0 <= m < k ==> outputs@[m] is None,
            decreases canisters@.len() - k,
        {
            outputs.push(None);
            k = k + 1;
        }
        let mut builders: Vec<Builder> = Vec::new();
        builders.push(Builder::Rust(RustBuilder::new()));
        builders.push(Builder::Custom(CustomBuilder::new()));
        Ok(CanisterPool { canisters, ids, outputs, builders })
    }

    /// The position of the canister named `name`.
    pub fn get_first_canister_with_name(&self, name: &String) -> (r: Option<usize>)
        ensures
            r matches Some(i) ==> i < self.canisters@.len() && self.canisters@[i as int].0@ == name@,
            r is None ==> !is_canister(self.graph(), name@),
    {
        find_canister(&self.canisters, name)
    }

    /// The identifiers of the dependencies of canister `i`, in order.
    pub fn get_dependencies(&self, i: usize) -> (r: Result<Vec<CanisterId>, BuildError>)
        requires
            self.wf(),
            i < self.canisters@.len(),
        ensures
            r matches Ok(ids) ==> ids@.len() == self.canisters@[i as int].1.dependencies@.len()
                && forall|m: int|
                0 <= m < ids@.len() ==> (#[trigger] ids@[m])@ == self.ids@[self.index_of(
                    self.canisters@[i as int].1.dependencies@[m]@,
                )]@,
            r is Ok <==> forall|m: int|
                0 <= m < self.canisters@[i as int].1.dependencies@.len() ==> is_canister(
                    self.graph(),
                    (#[trigger] self.canisters@[i as int].1.dependencies@[m])@,
                ),
            r matches Err(e) ==> e matches BuildError::DependencyNotFound(a, b) && a@
                == self.canisters@[i as int].0@,
    {
        let deps = &self.canisters[i].1.dependencies;
        let mut r: Vec<CanisterId> = Vec::new();
        let mut m: usize = 0;
        while m < deps.len()
            invariant
                self.wf(),
                i < self.canisters@.len(),
                *deps == self.canisters@[i as int].1.dependencies,
                m <= deps@.len(),
                r@.len() == m,
                forall|q: int| 0 <= q < m ==> is_canister(self.graph(), (#[trigger] deps@[q])@),
                forall|q: int|
                    0 <= q < m ==> (#[trigger] r@[q])@ == self.ids@[self.index_of(deps@[q]@)]@,
            decreases deps@.len() - m,
        {
            match find_canister(&self.canisters, &deps[m]) {
                Some(j) => {
                    proof {
                        self.lemma_index_of(j as int);
                        assert(self.graph()[j as int].0 == deps@[m as int]@);
                    }
                    r.push(self.ids[j].duplicate());
                },
                None => {
                    return Err(
                        BuildError::DependencyNotFound(self.canisters[i].0.clone(), deps[m].clone()),
                    );
                },
            }
            m = m + 1;
        }
        Ok(r)
    }

    proof fn lemma_index_of(&self, j: int)
        requires
            self.wf(),
            0 <= j < self.canisters@.len(),
        ensures
            self.index_of(self.canisters@[j].0@) == j,
    {
        let n = self.canisters@[j].0@;
        let k = self.index_of(n);
        assert(self.graph()[j].0 == n);
        assert(self.graph()[k].0 == n);
    }

    /// The environment for building canister `i`: one variable per
    /// dependency, named after it and set to its identifier as text.
    pub fn environment_variables(&self, i: usize) -> (r: Result<Vec<(String, String)>, BuildError>)
        requires
            self.wf(),
            i < self.canisters@.len(),
        ensures
            r matches Ok(env) ==> env@.map_values(|p: (String, String)| (p.0@, p.1@))
                == self.dependency_env(i as int),
            r is Ok <==> forall|m: int|
                0 <= m < self.canisters@[i as int].1.dependencies@.len() ==> is_canister(
                    self.graph(),
                    (#[trigger] self.canisters@[i as int].1.dependencies@[m])@,
                ),
    {
        let ids = self.get_dependencies(i)?;
        let deps = &self.canisters[i].1.dependencies;
        let mut env: Vec<(String, String)> = Vec::new();
        let mut m: usize = 0;
        while m < ids.len()
            invariant
                self.wf(),
                i < self.canisters@.len(),
                *deps == self.canisters@[i as int].1.dependencies,
                ids@.len() == deps@.len(),
                forall|q: int|
                    0 <= q < ids@.len() ==> (#[trigger] ids@[q])@ == self.ids@[self.index_of(deps@[q]@)]@,
                m <= ids@.len(),
                env@.map_values(|p: (String, String)| (p.0@, p.1@)) == self.dependency_env(
                    i as int,
                ).subrange(0, m as int),
            decreases ids@.len() - m,
        {
            let name = canister_id_var_name(deps[m].as_str());
            let value = ids[m].to_text();
            let ghost before = env@;
            env.push((name, value));
            proof {
                let f = |p: (String, String)| (p.0@, p.1@);
                let de = self.dependency_env(i as int);
                assert(names_view(deps@)[m as int] == deps@[m as int]@);
                assert(de[m as int] == (canister_id_var(deps@[m as int]@), principal_text(self.ids@[self.index_of(deps@[m as int]@)]@)));
                assert(env@ == before.push((name, value)));
                assert(before.map_values(f).len() == m);
                assert(before.len() == m);
                assert forall|q: int| 0 <= q < m + 1 implies env@.map_values(f)[q] == de[q] by {
                    if q < m {
                        assert(env@[q] == before[q]);
                        assert(before.map_values(f)[q] == de.subrange(0, m as int)[q]);
                    }
                }
                assert(env@.map_values(f) =~= de.subrange(0, m + 1));
            }
            m = m + 1;
        }
        assert(self.dependency_env(i as int).subrange(0, m as int) =~= self.dependency_env(i as int));
        Ok(env)
    }

    /// The first registered backend that supports `props`.
    fn select_builder(&self, props: &CanisterTypeProperties) -> (r: Option<usize>)
        ensures
            r matches Some(b) ==> selected_builder(self.builders@, *props, b as int),
            r is None <==> !supported(self.builders@, *props),
    {
        let mut b: usize = 0;
        while b < self.builders.len()
            invariant
                b <= self.builders@.len(),
                forall|j: int| 0 <= j < b ==> !(#[trigger] self.builders@[j]).spec_supports(*props),
            decreases self.builders@.len() - b,
        {
            if self.builders[b].supports(props) {
                return Some(b);
            }
            b = b + 1;
        }
        None
    }

    /// Resolves `target` (or every canister) into a fresh build run, before
    /// anything is built.
    pub fn start_build(&self, target: Option<&String>) -> (r: Result<BuildRun, DfxConfigError>)
        requires
            self.wf(),
        ensures
            r matches Ok(run) ==> run.wf() && self.tracks(&run) && run.results@.len() == 0
                && !run.stopped,
            resolution_outcome(
                self.graph(),
                crate::graph::focus_view(target),
                match r {
                    Ok(run) => Ok(run.order),
                    Err(e) => Err(e),
                },
            ),
    {
        match resolve_dependencies(&self.canisters, target) {
            Ok(order) => {
                let run = BuildRun { order, results: Vec::new(), stopped: false };
                Ok(run)
            },
            Err(e) => Err(e),
        }
    }

    /// How the build of `name` ends, given what its tool run left behind:
    /// the first failing check decides the error; otherwise the module is
    /// post-processed and the output points at the backend's paths.
    pub open spec fn completes_as(
        &self,
        name: Seq<char>,
        outcome: ToolOutcome,
        res: Result<BuildOutput, BuildError>,
        written: Option<Vec<u8>>,
    ) -> bool {
        let i = self.index_of(name);
        let props = self.canisters@[i].1.type_specific;
        if !supported(self.builders@, props) {
            res matches Err(BuildError::NoBuilder(n)) && n@ == name && written is None
        } else {
            let bd = self.builders@[choose|b: int| selected_builder(self.builders@, props, b)];
            if !outcome.success {
                res matches Err(BuildError::ToolFailed(n)) && n@ == name && written is None
            } else {
                match (outcome.wasm, outcome.idl) {
                    (None, _) => res matches Err(BuildError::ModuleMissing(n)) && n@ == name
                        && written is None,
                    (Some(_), None) => res matches Err(BuildError::IdlNotFound(p)) && p@
                        == bd.spec_idl_path(props) && written is None,
                    (Some(w), Some(d)) => match postprocessed(w@, d@) {
                        None => res matches Err(BuildError::InvalidModule(n, _)) && n@ == name
                            && written is None,
                        Some(bytes) => {
                            &&& (written matches Some(v) && v@ == bytes)
                            &&& match res {
                                Ok(o) => {
                                    &&& o.canister_id@ == self.ids@[i]@
                                    &&& match o.wasm {
                                        WasmBuildOutput::File(p) => p@ == bd.spec_wasm_path(props),
                                        _ => false,
                                    }
                                    &&& match o.idl {
                                        IdlBuildOutput::File(q) => q@ == bd.spec_idl_path(props),
                                        _ => false,
                                    }
                                },
                                Err(_) => false,
                            }
                        },
                    },
                }
            }
        }
    }

    proof fn lemma_selected_unique(&self, props: CanisterTypeProperties, b: int)
        requires
            selected_builder(self.builders@, props, b),
        ensures
            b == choose|c: int| selected_builder(self.builders@, props, c),
    {
        let c = choose|c: int| selected_builder(self.builders@, props, c);
        if c < b {
            assert(!self.builders@[c].spec_supports(props));
        } else if b < c {
            assert(!self.builders@[b].spec_supports(props));
        }
    }

    /// Every dependency of the next canister of `run` is declared and
    /// already built.
    proof fn lemma_pending_dependencies_built(&self, run: &BuildRun, i: int)
        requires
            self.wf(),
            run.wf(),
            self.tracks(run),
            !run.is_over(),
            0 <= i < self.canisters@.len(),
            self.canisters@[i].0@ == run.pending(),
        ensures
            forall|m: int|
                0 <= m < self.canisters@[i].1.dependencies@.len() ==> is_canister(
                    self.graph(),
                    (#[trigger] self.canisters@[i].1.dependencies@[m])@,
                ) && self.outputs@[self.index_of(self.canisters@[i].1.dependencies@[m]@)] is Some,
    {
        let o = names_view(run.order@);
        let k = run.results@.len() as int;
        let deps = self.canisters@[i].1.dependencies@;
        assert(o[k] == run.pending());
        assert forall|m: int| 0 <= m < deps.len() implies is_canister(
            self.graph(),
            (#[trigger] deps[m])@,
        ) && self.outputs@[self.index_of(deps[m]@)] is Some by {
            let g = self.graph();
            assert(g[i].1 == names_view(deps));
            assert(g[i].1[m] == deps[m]@);
            assert(g[i].1.contains(deps[m]@));
            assert(depends_on(g, o[k], deps[m]@));
            let j = choose|j: int| 0 <= j < k && #[trigger] o[j] == deps[m]@;
            assert(is_canister(g, o[j]));
            assert(run.results@[j].1 is Ok);
        }
    }

    /// Decides the next step of `run`: the tool runs for its next canister,
    /// or the end of the build. A canister that no backend supports fails
    /// here and stops the run.
    pub fn next_step(&self, run: &mut BuildRun) -> (r: BuildStep)
        requires
            self.wf(),
            old(run).wf(),
            self.tracks(old(run)),
        ensures
            final(run).wf(),
            self.tracks(final(run)),
            final(run).order == old(run).order,
            old(run).is_over() ==> r is Finished && *final(run) == *old(run),
            !old(run).is_over() ==> {
                let name = old(run).pending();
                let i = self.index_of(name);
                let props = self.canisters@[i].1.type_specific;
                &&& 0 <= i < self.canisters@.len()
                &&& self.canisters@[i].0@ == name
                &&& supported(self.builders@, props) ==> {
                    &&& *final(run) == *old(run)
                    &&& r matches BuildStep::Build { canister, commands, env, wasm_path, idl_path }
                        && canister@ == name && exists|b: int|
                        selected_builder(self.builders@, props, b) && commands_view(commands@)
                            == self.builders@[b].spec_commands(props) && wasm_path@
                            == self.builders@[b].spec_wasm_path(props) && idl_path@
                            == self.builders@[b].spec_idl_path(props) && env@.map_values(
                            |p: (String, String)| (p.0@, p.1@),
                        ) == self.dependency_env(i)
                    &&& forall|m: int|
                        0 <= m < self.canisters@[i].1.dependencies@.len() ==> self.outputs@[self.index_of(
                            (#[trigger] self.canisters@[i].1.dependencies@[m])@,
                        )] is Some
                }
                &&& !supported(self.builders@, props) ==> {
                    &&& r is Finished
                    &&& final(run).stopped
                    &&& final(run).results@.len() == old(run).results@.len() + 1
                    &&& final(run).results@.subrange(0, old(run).results@.len() as int)
                        == old(run).results@
                    &&& final(run).results@.last().1 matches Err(BuildError::NoBuilder(n)) && n@
                        == name
                }
            },
    {
        if run.is_finished() {
            return BuildStep::Finished;
        }
        let k = run.results.len();
        let name = run.order[k].clone();
        proof {
            assert(names_view(run.order@)[k as int] == name@);
        }
        let i = match find_canister(&self.canisters, &name) {
            Some(i) => i,
            None => {
                assert(is_canister(self.graph(), names_view(run.order@)[k as int]));
                return BuildStep::Finished;
            },
        };
        proof {
            self.lemma_index_of(i as int);
            self.lemma_pending_dependencies_built(run, i as int);
        }
        let props = &self.canisters[i].1.type_specific;
        match self.select_builder(props) {
            None => {
                let ghost before = run.results@;
                let n2 = name.clone();
                run.results.push((name, Err(BuildError::NoBuilder(n2))));
                run.stopped = true;
                proof {
                    assert(run.results@.subrange(0, k as int) =~= before);
                    assert forall|q: int| 0 <= q < run.results@.len() && (#[trigger] run.results@[q]).1 is Ok implies self.outputs@[self.index_of(
                        names_view(run.order@)[q],
                    )] is Some by {
                        assert(run.results@[q] == before[q]);
                    }
                }
                BuildStep::Finished
            },
            Some(b) => {
                let env = match self.environment_variables(i) {
                    Ok(env) => env,
                    Err(_) => {
                        return BuildStep::Finished;
                    },
                };
                let builder = &self.builders[b];
                let commands = builder.build_commands(props);
                let wasm_path = builder.output_wasm_path(props);
                let idl_path = builder.output_idl_path(props);
                BuildStep::Build { canister: name, commands, env, wasm_path, idl_path }
            },
        }
    }

    /// Records how the build of the next canister of `run` ended, given what
    /// its tool run left behind. On success the output is stored in the
    /// pool and the post-processed module is returned, to be written at the
    /// output path; on failure the run stops.
    #[verifier::rlimit(40)]
    pub fn complete_step(&mut self, run: &mut BuildRun, outcome: ToolOutcome) -> (r: Option<
        Vec<u8>,
    >)
        requires
            old(self).wf(),
            old(run).wf(),
            old(self).tracks(old(run)),
        ensures
            final(self).wf(),
            final(run).wf(),
            final(self).tracks(final(run)),
            final(run).order == old(run).order,
            final(self).canisters == old(self).canisters,
            final(self).ids == old(self).ids,
            final(self).builders == old(self).builders,
            old(run).is_over() ==> r is None && *final(run) == *old(run) && *final(self)
                == *old(self),
            !old(run).is_over() ==> {
                let name = old(run).pending();
                let i = old(self).index_of(name);
                &&& final(run).results@.len() == old(run).results@.len() + 1
                &&& final(run).results@.subrange(0, old(run).results@.len() as int)
                    == old(run).results@
                &&& final(run).results@.last().0@ == name
                &&& old(self).completes_as(name, outcome, final(run).results@.last().1, r)
                &&& forall|j: int|
                    0 <= j < old(self).outputs@.len() && j != i ==> final(self).outputs@[j]
                        == old(self).outputs@[j]
                &&& final(run).results@.last().1 matches Ok(o) ==> final(self).outputs@[i] matches Some(
                    s,
                ) && s.same_as(&o)
                &&& final(run).results@.last().1 is Err ==> final(self).outputs@ == old(
                    self,
                ).outputs@
            },
    {
        if run.is_finished() {
            return None;
        }
        let k = run.results.len();
        let name = run.order[k].clone();
        proof {
            assert(names_view(run.order@)[k as int] == name@);
        }
        let i = match find_canister(&self.canisters, &name) {
            Some(i) => i,
            None => {
                assert(is_canister(self.graph(), names_view(run.order@)[k as int]));
                return None;
            },
        };
        proof {
            self.lemma_index_of(i as int);
        }
        let mut written: Option<Vec<u8>> = None;
        let res: Result<BuildOutput, BuildError> = match self.select_builder(
            &self.canisters[i].1.type_specific,
        ) {
            None => Err(BuildError::NoBuilder(name.clone())),
            Some(b) => {
                proof {
                    self.lemma_selected_unique(self.canisters@[i as int].1.type_specific, b as int);
                }
                let props = &self.canisters[i].1.type_specific;
                let builder = &self.builders[b];
                if !outcome.success {
                    Err(BuildError::ToolFailed(name.clone()))
                } else {
                    match (&outcome.wasm, &outcome.idl) {
                        (None, _) => Err(BuildError::ModuleMissing(name.clone())),
                        (Some(_), None) => Err(BuildError::IdlNotFound(builder.output_idl_path(props))),
                        (Some(w), Some(d)) => {
                            match postprocess_module(w.as_slice(), d.as_slice()) {
                                Err(msg) => Err(BuildError::InvalidModule(name.clone(), msg)),
                                Ok(bytes) => {
                                    written = Some(bytes);
                                    Ok(
                                        BuildOutput {
                                            canister_id: self.ids[i].duplicate(),
                                            wasm: WasmBuildOutput::File(
                                                builder.output_wasm_path(props),
                                            ),
                                            idl: IdlBuildOutput::File(builder.output_idl_path(props)),
                                        },
                                    )
                                },
                            }
                        },
                    }
                }
            },
        };
        let ghost before = run.results@;
        let ghost outputs0 = self.outputs@;
        match res {
            Ok(out) => {
                let stored = out.duplicate();
                self.outputs.set(i, Some(stored));
                run.results.push((name, Ok(out)));
            },
            Err(e) => {
                run.results.push((name, Err(e)));
                run.stopped = true;
            },
        }
        proof {
            assert(run.results@.subrange(0, k as int) =~= before);
            assert(forall|q: int| 0 <= q < k ==> run.results@[q] == before[q]);
            assert forall|q: int| 0 <= q < run.results@.len() && (#[trigger] run.results@[q]).1 is Ok implies self.outputs@[self.index_of(
                names_view(run.order@)[q],
            )] is Some by {
                if q < k {
                    assert(run.results@[q] == before[q]);
                    assert(outputs0[self.index_of(names_view(run.order@)[q])] is Some);
                }
            }
        }
        written
    }

    /// When canister `i` depends on canister `j`, the environment of its
    /// build holds the variable named after `j`'s name alone, set to exactly
    /// the text of `j`'s identifier.
    pub proof fn lemma_dependency_identifier_exposed(&self, i: int, j: int)
        requires
            self.wf(),
            0 <= i < self.canisters@.len(),
            0 <= j < self.canisters@.len(),
            depends_on(self.graph(), self.canisters@[i].0@, self.canisters@[j].0@),
        ensures
            self.dependency_env(i).contains(
                (canister_id_var(self.canisters@[j].0@), principal_text(self.ids@[j]@)),
            ),
    {
        let g = self.graph();
        let n = self.canisters@[j].0@;
        let i2 = choose|i2: int| 0 <= i2 < g.len() && g[i2].0 == self.canisters@[i].0@ && #[trigger] g[i2].1.contains(n);
        assert(g[i2].0 == g[i].0);
        assert(i2 == i);
        let m = choose|m: int| 0 <= m < g[i].1.len() && g[i].1[m] == n;
        self.lemma_index_of(j);
        assert(self.dependency_env(i)[m] == (canister_id_var(n), principal_text(self.ids@[j]@)));
    }

    /// Building the same canister again from the same tool results gives
    /// the same module bytes to write and the same output, or the same kind
    /// of failure.
    pub proof fn lemma_rebuild_is_identical(
        &self,
        name: Seq<char>,
        first: ToolOutcome,
        second: ToolOutcome,
        res1: Result<BuildOutput, BuildError>,
        written1: Option<Vec<u8>>,
        res2: Result<BuildOutput, BuildError>,
        written2: Option<Vec<u8>>,
    )
        requires
            first.success == second.success,
            same_opt_bytes(first.wasm, second.wasm),
            same_opt_bytes(first.idl, second.idl),
            self.completes_as(name, first, res1, written1),
            self.completes_as(name, second, res2, written2),
        ensures
            same_opt_bytes(written1, written2),
            res1 is Ok <==> res2 is Ok,
            res1 matches Ok(o1) ==> (res2 matches Ok(o2) && o1.same_as(&o2)),
    {
    }
}

} // verus!