//! What a simulated contract call consumed, and what it rests on.
use vstd::prelude::*;

verus! {

/// Resources that one contract call consumes.
#[derive(Clone, Copy, Debug, PartialEq, Eq, Structural)]
pub struct SorobanResources {
    pub cpu_instructions: u64,
    pub ram_bytes: u64,
    pub ledger_read_bytes: u64,
    pub ledger_write_bytes: u64,
    pub transaction_size_bytes: u64,
}

/// A ledger entry that a simulation read, and where it came from.
#[derive(Debug)]
pub struct StateDependency {
    pub key: String,
    /// The name of the kind of source, injected or live.
    pub source: String,
}

/// What a simulation found.
#[derive(Debug)]
pub struct SimulationResult {
    pub resources: SorobanResources,
    pub state_dependency: Option<Vec<StateDependency>>,
}

/// A contract call to simulate.
#[derive(Debug)]
pub struct SimulationCall {
    pub contract_id: String,
    pub function_name: String,
    pub args: Vec<String>,
}

/// What a [`StateDependency`] stands for.
pub struct DependencyView {
    pub key: Seq<char>,
    pub source: Seq<char>,
}

/// What a [`SimulationResult`] stands for.
pub struct ResultView {
    pub resources: SorobanResources,
    pub state_dependency: Option<Seq<DependencyView>>,
}

/// What a [`SimulationCall`] stands for.
pub struct CallView {
    pub contract_id: Seq<char>,
    pub function_name: Seq<char>,
    pub args: Seq<Seq<char>>,
}

impl View for StateDependency {
    type V = DependencyView;

    open spec fn view(&self) -> DependencyView {
        DependencyView { key: self.key@, source: self.source@ }
    }
}

/// Dependencies by their views.
pub open spec fn dependencies(items: Seq<StateDependency>) -> Seq<DependencyView> {
    items.map_values(|d: StateDependency| d@)
}

impl View for SimulationResult {
    type V = ResultView;

    open spec fn view(&self) -> ResultView {
        ResultView {
            resources: self.resources,
            state_dependency: match self.state_dependency {
                Some(items) => Some(dependencies(items@)),
                None => None,
            },
        }
    }
}

/// Texts by their views.
pub open spec fn texts(items: Seq<String>) -> Seq<Seq<char>> {
    items.map_values(|s: String| s@)
}

impl View for SimulationCall {
    type V = CallView;

    open spec fn view(&self) -> CallView {
        CallView {
            contract_id: self.contract_id@,
            function_name: self.function_name@,
            args: texts(self.args@),
        }
    }
}

/// Copies texts.
pub fn copy_texts(items: &Vec<String>) -> (r: Vec<String>)
    ensures
        texts(r@) == texts(items@),
{
    let mut r: Vec<String> = Vec::new();
    let mut i: usize = 0;
    while i < items.len()
        invariant
            i <= items@.len(),
            texts(r@) == texts(items@).take(i as int),
        decreases items@.len() - i,
    {
        let ghost before = r@;
        r.push(items[i].clone());
        proof {
            assert(texts(r@) =~= texts(before).push(items@[i as int]@));
            assert(texts(items@).take(i + 1) =~= texts(items@).take(i as int).push(
                texts(items@)[i as int],
            ));
        }
        i += 1;
    }
    assert(texts(items@).take(i as int) =~= texts(items@));
    r
}

impl Clone for StateDependency {
    /// Copies a dependency.
    fn clone(&self) -> (r: StateDependency)
        ensures
            r@ == self@,
    {
        StateDependency { key: self.key.clone(), source: self.source.clone() }
    }
}

impl Clone for SimulationResult {
    /// Copies a result.
    fn clone(&self) -> (r: SimulationResult)
        ensures
            r@ == self@,
    {
        let state_dependency = match &self.state_dependency {
            Some(items) => Some(copy_dependencies(items)),
            None => None,
        };
        SimulationResult { resources: self.resources, state_dependency }
    }
}

/// Copies dependencies.
fn copy_dependencies(items: &Vec<StateDependency>) -> (r: Vec<StateDependency>)
    ensures
        dependencies(r@) == dependencies(items@),
{
    let mut r: Vec<StateDependency> = Vec::new();
    let mut i: usize = 0;
    while i < items.len()
        invariant
            i <= items@.len(),
            dependencies(r@) == dependencies(items@).take(i as int),
        decreases items@.len() - i,
    {
        let ghost before = r@;
        r.push(items[i].clone());
        proof {
            assert(dependencies(r@) =~= dependencies(before).push(items@[i as int]@));
            assert(dependencies(items@).take(i + 1) =~= dependencies(items@).take(i as int).push(
                dependencies(items@)[i as int],
            ));
        }
        i += 1;
    }
    assert(dependencies(items@).take(i as int) =~= dependencies(items@));
    r
}

// ── Laws ───────────────────────────────────────────────────────────────────

/// Texts and dependencies stand for their own, each at its place.
pub proof fn law_lists_stand_for_their_items(items: Seq<String>, entries: Seq<StateDependency>)
    ensures
        texts(items).len() == items.len(),
        forall|i: int| 0 <= i < items.len() ==> #[trigger] texts(items)[i] == items[i]@,
        dependencies(entries).len() == entries.len(),
        forall|i: int|
            0 <= i < entries.len() ==> (#[trigger] dependencies(entries)[i]).key == entries[i].key@
                && dependencies(entries)[i].source == entries[i].source@,
{
}

/// A result stands for what its fields hold.
pub proof fn law_results_stand_for_their_fields(result: SimulationResult)
    ensures
        result@.resources == result.resources,
        result.state_dependency is None <==> result@.state_dependency is None,
        result.state_dependency matches Some(entries) ==> result@.state_dependency == Some(
            dependencies(entries@),
        ),
{
}

/// A call stands for what its fields hold.
pub proof fn law_calls_stand_for_their_fields(call: SimulationCall)
    ensures
        call@.contract_id == call.contract_id@,
        call@.function_name == call.function_name@,
        call@.args.len() == call.args@.len(),
        forall|i: int| 0 <= i < call.args@.len() ==> #[trigger] call@.args[i] == call.args@[i]@,
{
}

} // verus!
