//! The decisions of the saga that starts an instance.

use steno::{Dag, DagBuilder, DagBuilderError, Node, SagaType};
use vstd::prelude::*;

use crate::net::Ipv6Addr;
use crate::text::{is_random_uuid, random_uuid, Uuid};
use crate::time::{utc_now, Timestamp};

verus! {

/// Reasons an instance may be started.
///
/// Currently, this is primarily used to determine whether the instance's
/// auto-restart timestamp must be updated.
#[derive(Copy, Clone, Debug, PartialEq, Eq, Structural)]
pub enum Reason {
    /// The instance was automatically started upon being created.
    AutoStart,
    /// The instance was started by a user action.
    User,
    /// The instance has failed and is being automatically restarted by the
    /// control plane.
    AutoRestart,
}

/// The state of an instance as the control plane records it.
#[derive(Copy, Clone, Debug, PartialEq, Eq, Structural)]
pub enum InstanceState {
    /// The instance is being created.
    Creating,
    /// The instance has no VMM.
    NoVmm,
    /// The instance's state is that of its VMM.
    Vmm,
    /// Something has gone wrong with the instance.
    Failed,
    /// The instance has been deleted.
    Destroyed,
}

/// The state of a VMM.
#[derive(Copy, Clone, Debug, PartialEq, Eq, Structural)]
pub enum VmmState {
    Creating,
    Starting,
    Running,
    Stopping,
    Stopped,
    Rebooting,
    Migrating,
    Failed,
    Destroyed,
    /// The VMM was left behind by a saga that unwound.
    SagaUnwound,
}

/// The runtime state of an instance.
#[derive(Copy, Clone, Debug, PartialEq, Eq, Structural)]
pub struct InstanceRuntimeState {
    /// The time at which the runtime state was last updated.
    pub time_updated: Timestamp,
    /// The generation number of this state.
    pub generation: u64,
    /// The VMM that runs the instance.
    pub propolis_id: Option<Uuid>,
    /// The VMM that the instance is migrating to.
    pub dst_propolis_id: Option<Uuid>,
    /// The migration that is under way.
    pub migration_id: Option<Uuid>,
    /// The state as the control plane records it.
    pub nexus_state: InstanceState,
    /// When the instance was last restarted automatically.
    pub time_last_auto_restarted: Option<Timestamp>,
}

/// An instance.
#[derive(Copy, Clone, Debug, PartialEq, Eq, Structural)]
pub struct Instance {
    pub id: Uuid,
    pub project_id: Uuid,
    pub ncpus: u16,
    pub memory: u64,
    pub runtime_state: InstanceRuntimeState,
}

/// A VMM.
#[derive(Copy, Clone, Debug, PartialEq, Eq, Structural)]
pub struct Vmm {
    pub id: Uuid,
    pub instance_id: Uuid,
    pub sled_id: Uuid,
    pub propolis_ip: Ipv6Addr,
    pub state: VmmState,
}

/// An instance, with its active VMM if it has one.
#[derive(Copy, Clone, Debug, PartialEq, Eq, Structural)]
pub struct InstanceAndActiveVmm {
    pub instance: Instance,
    pub vmm: Option<Vmm>,
}

/// Parameters to the instance start saga.
#[derive(Copy, Clone, Debug, PartialEq, Eq, Structural)]
pub struct Params {
    pub db_instance: Instance,
    /// Why is this instance being started?
    pub reason: Reason,
}

/// The largest generation number.
pub const MAX_GENERATION: u64 = 0x7fff_ffff_ffff_ffff;

// ---
// The steps of the saga
// ---

/// A step of the saga.
#[derive(Copy, Clone, Debug, PartialEq, Eq, Structural)]
pub enum Step {
    GeneratePropolisId,
    AllocServer,
    AllocPropolisIp,
    CreateVmmRecord,
    MarkAsStarting,
    DpdEnsure,
    V2pEnsure,
    EnsureRegistered,
    AddVirtualResources,
    EnsureRunning,
}

impl Step {
    /// The place of the step in the saga.
    pub open spec fn place(self) -> int {
        match self {
            Step::GeneratePropolisId => 0,
            Step::AllocServer => 1,
            Step::AllocPropolisIp => 2,
            Step::CreateVmmRecord => 3,
            Step::MarkAsStarting => 4,
            Step::DpdEnsure => 5,
            Step::V2pEnsure => 6,
            Step::EnsureRegistered => 7,
            Step::AddVirtualResources => 8,
            Step::EnsureRunning => 9,
        }
    }

    /// The name under which later steps look up what the step returned.
    pub open spec fn output_text(self) -> Seq<char> {
        match self {
            Step::GeneratePropolisId => "propolis_id"@,
            Step::AllocServer => "sled_id"@,
            Step::AllocPropolisIp => "propolis_ip"@,
            Step::CreateVmmRecord => "vmm_record"@,
            Step::MarkAsStarting => "started_record"@,
            Step::DpdEnsure => "dpd_ensure"@,
            Step::V2pEnsure => "v2p_ensure"@,
            Step::EnsureRegistered => "ensure_registered"@,
            Step::AddVirtualResources => "virtual_resources"@,
            Step::EnsureRunning => "ensure_running"@,
        }
    }

    /// The name under which later steps look up what the step returned.
    pub fn output(self) -> (r: &'static str)
        ensures
            r@ == self.output_text(),
    {
        match self {
            Step::GeneratePropolisId => "propolis_id",
            Step::AllocServer => "sled_id",
            Step::AllocPropolisIp => "propolis_ip",
            Step::CreateVmmRecord => "vmm_record",
            Step::MarkAsStarting => "started_record",
            Step::DpdEnsure => "dpd_ensure",
            Step::V2pEnsure => "v2p_ensure",
            Step::EnsureRegistered => "ensure_registered",
            Step::AddVirtualResources => "virtual_resources",
            Step::EnsureRunning => "ensure_running",
        }
    }

    /// The label of the step.
    pub open spec fn label_text(self) -> Seq<char> {
        match self {
            Step::GeneratePropolisId => "generate_propolis_id"@,
            Step::AllocServer => "alloc_server"@,
            Step::AllocPropolisIp => "alloc_propolis_ip"@,
            Step::CreateVmmRecord => "create_vmm_record"@,
            Step::MarkAsStarting => "mark_as_starting"@,
            Step::DpdEnsure => "dpd_ensure"@,
            Step::V2pEnsure => "v2p_ensure"@,
            Step::EnsureRegistered => "ensure_registered"@,
            Step::AddVirtualResources => "add_virtual_resources"@,
            Step::EnsureRunning => "ensure_running"@,
        }
    }

    /// The label of the step.
    pub fn label(self) -> (r: &'static str)
        ensures
            r@ == self.label_text(),
    {
        match self {
            Step::GeneratePropolisId => "generate_propolis_id",
            Step::AllocServer => "alloc_server",
            Step::AllocPropolisIp => "alloc_propolis_ip",
            Step::CreateVmmRecord => "create_vmm_record",
            Step::MarkAsStarting => "mark_as_starting",
            Step::DpdEnsure => "dpd_ensure",
            Step::V2pEnsure => "v2p_ensure",
            Step::EnsureRegistered => "ensure_registered",
            Step::AddVirtualResources => "add_virtual_resources",
            Step::EnsureRunning => "ensure_running",
        }
    }

    /// The name of the action of the step: that of the saga, and the label.
    pub open spec fn action_text(self) -> Seq<char> {
        "instance_start."@ + self.label_text()
    }

    /// The name of the action of the step.
    pub fn action_name(self) -> (r: String)
        ensures
            r@ == self.action_text(),
    {
        "instance_start.".to_owned().concat(self.label())
    }

    /// The node of the step in the graph of the saga.
    pub open spec fn node(self) -> NodeView {
        NodeView {
            name: self.output_text(),
            action: Some((self.label_text(), self.action_text())),
        }
    }

    /// Whether the step is undone when the saga unwinds.
    pub open spec fn undone(self) -> bool {
        !(self is GeneratePropolisId || self is AllocPropolisIp || self is EnsureRunning)
    }

    /// Whether the step is undone when the saga unwinds.
    pub fn has_undo(self) -> (r: bool)
        ensures
            r == self.undone(),
    {
        match self {
            Step::GeneratePropolisId => false,
            Step::AllocServer => true,
            Step::AllocPropolisIp => false,
            Step::CreateVmmRecord => true,
            Step::MarkAsStarting => true,
            Step::DpdEnsure => true,
            Step::V2pEnsure => true,
            Step::EnsureRegistered => true,
            Step::AddVirtualResources => true,
            Step::EnsureRunning => false,
        }
    }

    /// The steps whose output the step looks up.
    pub open spec fn looked_up(self) -> Seq<Step> {
        match self {
            Step::GeneratePropolisId => seq![],
            Step::AllocServer => seq![Step::GeneratePropolisId],
            Step::AllocPropolisIp => seq![Step::AllocServer],
            Step::CreateVmmRecord => {
                seq![Step::GeneratePropolisId, Step::AllocServer, Step::AllocPropolisIp]
            },
            Step::MarkAsStarting => seq![Step::GeneratePropolisId],
            Step::DpdEnsure => seq![Step::MarkAsStarting, Step::AllocServer],
            Step::V2pEnsure => seq![],
            Step::EnsureRegistered => seq![
                Step::MarkAsStarting,
                Step::AllocServer,
                Step::CreateVmmRecord,
                Step::GeneratePropolisId,
            ],
            Step::AddVirtualResources => seq![],
            Step::EnsureRunning => {
                seq![Step::MarkAsStarting, Step::EnsureRegistered, Step::AllocServer]
            },
        }
    }

    /// The steps whose output the step looks up.
    pub fn lookups(self) -> (r: Vec<Step>)
        ensures
            r@ == self.looked_up(),
    {
        let r: Vec<Step> = match self {
            Step::GeneratePropolisId => Vec::new(),
            Step::AllocServer => vec![Step::GeneratePropolisId],
            Step::AllocPropolisIp => vec![Step::AllocServer],
            Step::CreateVmmRecord => {
                vec![Step::GeneratePropolisId, Step::AllocServer, Step::AllocPropolisIp]
            },
            Step::MarkAsStarting => vec![Step::GeneratePropolisId],
            Step::DpdEnsure => vec![Step::MarkAsStarting, Step::AllocServer],
            Step::V2pEnsure => Vec::new(),
            Step::EnsureRegistered => vec![
                Step::MarkAsStarting,
                Step::AllocServer,
                Step::CreateVmmRecord,
                Step::GeneratePropolisId,
            ],
            Step::AddVirtualResources => Vec::new(),
            Step::EnsureRunning => {
                vec![Step::MarkAsStarting, Step::EnsureRegistered, Step::AllocServer]
            },
        };
        assert(r@ =~= self.looked_up());
        r
    }

    /// The steps whose output is looked up to undo the step.
    ///
    /// To unregister, the VMM record is looked up as registering it returned
    /// it. This is necessary as registering the VMM transitions it from the
    /// `Creating` state to the `Starting` state, changing its generation.
    pub open spec fn looked_up_to_undo(self) -> Seq<Step> {
        match self {
            Step::AllocServer => seq![Step::GeneratePropolisId],
            Step::CreateVmmRecord => seq![Step::GeneratePropolisId],
            Step::MarkAsStarting => seq![Step::MarkAsStarting],
            Step::EnsureRegistered => {
                seq![Step::GeneratePropolisId, Step::AllocServer, Step::EnsureRegistered]
            },
            _ => seq![],
        }
    }

    /// The steps whose output is looked up to undo the step.
    pub fn undo_lookups(self) -> (r: Vec<Step>)
        ensures
            r@ == self.looked_up_to_undo(),
    {
        let r: Vec<Step> = match self {
            Step::AllocServer => vec![Step::GeneratePropolisId],
            Step::CreateVmmRecord => vec![Step::GeneratePropolisId],
            Step::MarkAsStarting => vec![Step::MarkAsStarting],
            Step::EnsureRegistered => {
                vec![Step::GeneratePropolisId, Step::AllocServer, Step::EnsureRegistered]
            },
            _ => Vec::new(),
        };
        assert(r@ =~= self.looked_up_to_undo());
        r
    }
}

/// The steps of the saga, in order.
pub open spec fn saga_steps() -> Seq<Step> {
    seq![
        Step::GeneratePropolisId,
        Step::AllocServer,
        Step::AllocPropolisIp,
        Step::CreateVmmRecord,
        Step::MarkAsStarting,
        Step::DpdEnsure,
        Step::V2pEnsure,
        Step::EnsureRegistered,
        Step::AddVirtualResources,
        Step::EnsureRunning,
    ]
}

/// The steps of the saga, in order.
///
/// Only account for the instance's resource consumption when the saga is on
/// the brink of actually starting it. This allows prior steps' undo actions
/// to change the instance's generation number if warranted (e.g. by moving
/// the instance to the Failed state) without disrupting this step's undo
/// action (which depends on the instance bearing the same generation number
/// at undo time that it had at resource accounting time).
pub fn list_steps() -> (r: Vec<Step>)
    ensures
        r@ == saga_steps(),
{
    let steps = vec![
        Step::GeneratePropolisId,
        Step::AllocServer,
        Step::AllocPropolisIp,
        Step::CreateVmmRecord,
        Step::MarkAsStarting,
        Step::DpdEnsure,
        Step::V2pEnsure,
        Step::EnsureRegistered,
        Step::AddVirtualResources,
        Step::EnsureRunning,
    ];
    assert(steps@ =~= saga_steps());
    steps
}

// ---
// The graph of the saga
// ---

#[verifier::external_type_specification]
#[verifier::external_body]
pub struct ExNode(Node);

#[verifier::external_type_specification]
#[verifier::external_body]
pub struct ExDagBuilder(DagBuilder);

#[verifier::external_type_specification]
#[verifier::external_body]
pub struct ExDag(Dag);

#[verifier::external_type_specification]
#[verifier::external_body]
pub struct ExDagBuilderError(DagBuilderError);

/// What a node of a graph stands for: its name and, where it runs an action, its
/// label and the name of the action.
#[verifier::ext_equal]
pub struct NodeView {
    pub name: Seq<char>,
    pub action: Option<(Seq<char>, Seq<char>)>,
}

/// The name of a `steno::Node`.
pub uninterp spec fn node_name(node: Node) -> Seq<char>;

/// The label of a `steno::Node` that runs an action, and the name of the action.
pub uninterp spec fn node_action(node: Node) -> Option<(Seq<char>, Seq<char>)>;

/// The name of the node that a `steno::Node` takes its parameters from, where it
/// is a subsaga.
pub uninterp spec fn node_needs(node: Node) -> Option<Seq<char>>;

/// The nodes that were appended to a `steno::DagBuilder`, in order.
pub uninterp spec fn appended_nodes(builder: DagBuilder) -> Seq<NodeView>;

/// Whether a `steno::DagBuilder` has run into an error, which it tells of when
/// the graph is built.
pub uninterp spec fn has_failed(builder: DagBuilder) -> bool;

/// How many nodes were appended last, to run in parallel, to a
/// `steno::DagBuilder`.
pub uninterp spec fn last_stage(builder: DagBuilder) -> nat;

/// The nodes that were appended to what a `steno::Dag` was built by, in order.
pub uninterp spec fn dag_nodes(dag: Dag) -> Seq<NodeView>;

/// Whether one of the nodes has a name.
pub open spec fn has_node(nodes: Seq<NodeView>, name: Seq<char>) -> bool {
    exists|i: int| 0 <= i < nodes.len() && (#[trigger] nodes[i]).name == name
}

/// The type of saga to which the actions belong whose names make nodes.
#[derive(Debug)]
struct Named;

impl SagaType for Named {
    type ExecContextType = ();
}

/// What an action does of which a node keeps the name.
fn named_only() {
}

/// Makes a node that runs an action.
///
/// Calls `steno::Node::action`, which keeps the name of the node, the label, and
/// of the action its name alone: the action is looked up by it where the saga is
/// run. `steno::new_action_noop_undo` makes an action of that name.
#[verifier::external_body]
fn action_node(name: &str, label: &str, action: &str) -> (r: Node)
    ensures
        node_name(r) == name@,
        node_action(r) == Some((label@, action@)),
        node_needs(r) is None,
{
    let action = steno::new_action_noop_undo(action, |_: steno::ActionContext<Named>| {
        futures::future::ready(Ok(named_only()))
    });
    Node::action(name, label, action.as_ref())
}

/// Appends a node to a graph, to be run after those that were appended before.
///
/// Calls `steno::DagBuilder::append`, with a node that is not a subsaga. A name
/// that is there already makes the builder fail. Once it has failed it stays so.
#[verifier::external_body]
fn dag_append(builder: &mut DagBuilder, node: Node)
    requires
        node_needs(node) is None,
    ensures
        has_failed(*final(builder)) == (has_failed(*old(builder)) || has_node(
            appended_nodes(*old(builder)),
            node_name(node),
        )),
        !has_failed(*final(builder)) ==> appended_nodes(*final(builder)) == appended_nodes(
            *old(builder),
        ).push(NodeView { name: node_name(node), action: node_action(node) }) && last_stage(
            *final(builder),
        ) == 1,
{
    builder.append(node);
}

/// Builds a graph.
///
/// Calls `steno::DagBuilder::build`. It fails if the builder has, and if the
/// last nodes to be appended were none, or more than one in parallel.
#[verifier::external_body]
fn dag_build(builder: DagBuilder) -> (r: Result<Dag, DagBuilderError>)
    ensures
        r is Ok == (!has_failed(builder) && last_stage(builder) == 1),
        r is Ok ==> dag_nodes(r->Ok_0) == appended_nodes(builder),
{
    builder.build()
}

/// An error in setting up the saga.
pub enum SagaInitError {
    /// The graph could not be built.
    DagBuildError(DagBuilderError),
}

/// The nodes of the steps of the saga, in order.
pub open spec fn step_nodes() -> Seq<NodeView> {
    saga_steps().map_values(|s: Step| s.node())
}

/// Whether none of the first of the steps returns its output under the name of a
/// node that is there.
pub open spec fn steps_fit(there: Seq<NodeView>, n: int) -> bool {
    forall|i: int|
        0 <= i < n ==> !has_node(there, (#[trigger] saga_steps()[i]).output_text())
}

/// Builds the graph of the saga: its steps run one after another, after what was
/// appended to the builder before. This fails where a step returns its output
/// under the name of a node that is there, and where the builder has failed.
pub fn make_saga_dag(builder: DagBuilder) -> (r: Result<Dag, SagaInitError>)
    ensures
        r is Ok <==> !has_failed(builder) && steps_fit(
            appended_nodes(builder),
            saga_steps().len() as int,
        ),
        r is Ok ==> dag_nodes(r->Ok_0) == appended_nodes(builder) + step_nodes(),
{
    let ghost first = appended_nodes(builder);
    let ghost start = builder;
    let mut builder = builder;
    let steps = list_steps();
    let mut i: usize = 0;
    assert(first + step_nodes().take(0) =~= first);
    while i < steps.len()
        invariant
            i <= steps.len(),
            steps@ == saga_steps(),
            first == appended_nodes(start),
            has_failed(builder) <==> has_failed(start) || !steps_fit(first, i as int),
            !has_failed(builder) ==> appended_nodes(builder) == first + step_nodes().take(
                i as int,
            ),
            !has_failed(builder) && i > 0 ==> last_stage(builder) == 1,
        decreases steps.len() - i,
    {
        let step = steps[i];
        proof {
            lemma_one_more_step(first, i as int);
            assert(step_nodes()[i as int] == step.node());
            assert((first + step_nodes().take(i as int)).push(step.node()) =~= first
                + step_nodes().take(i + 1));
        }
        let node = action_node(step.output(), step.label(), step.action_name().as_str());
        dag_append(&mut builder, node);
        i = i + 1;
    }
    assert(step_nodes().take(step_nodes().len() as int) =~= step_nodes());
    match dag_build(builder) {
        Ok(dag) => Ok(dag),
        Err(e) => Err(SagaInitError::DagBuildError(e)),
    }
}

/// One more step fits just where those before it do, and no node that is there by
/// then has its name.
proof fn lemma_one_more_step(there: Seq<NodeView>, n: int)
    requires
        0 <= n < saga_steps().len(),
    ensures
        steps_fit(there, n + 1) <==> steps_fit(there, n) && !has_node(
            there + step_nodes().take(n),
            saga_steps()[n].output_text(),
        ),
{
    let name = saga_steps()[n].output_text();
    let all = there + step_nodes().take(n);
    if has_node(there, name) {
        let i = choose|i: int| 0 <= i < there.len() && (#[trigger] there[i]).name == name;
        assert(all[i].name == name);
    }
    if has_node(all, name) {
        let i = choose|i: int| 0 <= i < all.len() && (#[trigger] all[i]).name == name;
        if i < there.len() {
            assert(there[i].name == name);
        } else {
            let k = i - there.len();
            assert(all[i] == step_nodes()[k]);
            let (a, b) = (saga_steps()[k], saga_steps()[n]);
            assert(a.place() == k && b.place() == n);
            law_outputs_differ(a, b);
        }
    }
    if steps_fit(there, n + 1) {
        assert(!has_node(there, saga_steps()[n].output_text()));
        assert forall|i: int| 0 <= i < n implies !has_node(
            there,
            (#[trigger] saga_steps()[i]).output_text(),
        ) by {}
    }
}

// ---
// Errors
// ---

/// An error that the sled agent returned.
#[derive(Debug)]
pub struct SledAgentInstanceError {
    /// The text of the error.
    pub message: String,
    /// Whether the error tells that the VMM is gone, or that it or its sled
    /// might be unhealthy.
    pub vmm_gone: bool,
}

/// An error in changing the state of an instance.
#[derive(Debug)]
pub enum InstanceStateChangeError {
    /// Sled agent returned an error from one of its instance endpoints.
    SledAgent(SledAgentInstanceError),
    /// Some other error occurred.
    Other(String),
}

/// An error that makes a step fail.
#[derive(Debug)]
pub enum ActionError {
    /// Another actor changed what the step was about to change.
    Conflict(&'static str),
    /// The sled agent returned an error.
    SledAgent(String),
    /// Some other error occurred.
    Other(String),
}

/// What a failed step tells of an error in changing the state of an instance.
pub open spec fn is_action_error(e: ActionError, from: InstanceStateChangeError) -> bool {
    match from {
        InstanceStateChangeError::SledAgent(inner) => e == ActionError::SledAgent(inner.message),
        InstanceStateChangeError::Other(inner) => e == ActionError::Other(inner),
    }
}

fn action_failed(from: InstanceStateChangeError) -> (r: ActionError)
    ensures
        is_action_error(r, from),
{
    match from {
        InstanceStateChangeError::SledAgent(inner) => ActionError::SledAgent(inner.message),
        InstanceStateChangeError::Other(inner) => ActionError::Other(inner),
    }
}

// ---
// Ids and resources
// ---

/// Chooses the id of the VMM that is to run the instance.
pub fn sis_generate_propolis_id() -> (r: Uuid)
    ensures
        is_random_uuid(r),
{
    random_uuid()
}

/// What is reserved on a sled for a VMM.
#[derive(Copy, Clone, Debug, PartialEq, Eq, Structural)]
pub struct VmmReservation {
    pub instance_id: Uuid,
    pub propolis_id: Uuid,
    pub hardware_threads: u32,
    pub reservoir_ram: u64,
}

/// What to reserve on some sled for the VMM, without constraints on the sled.
pub fn sis_alloc_server(params: &Params, propolis_id: Uuid) -> (r: VmmReservation)
    ensures
        r == (VmmReservation {
            instance_id: params.db_instance.id,
            propolis_id,
            hardware_threads: params.db_instance.ncpus as u32,
            reservoir_ram: params.db_instance.memory,
        }),
{
    VmmReservation {
        instance_id: params.db_instance.id,
        propolis_id,
        hardware_threads: params.db_instance.ncpus as u32,
        reservoir_ram: params.db_instance.memory,
    }
}

/// What is accounted for an instance in its project.
#[derive(Copy, Clone, Debug, PartialEq, Eq, Structural)]
pub struct VirtualResources {
    pub instance_id: Uuid,
    pub project_id: Uuid,
    pub cpus: i64,
    pub memory: u64,
}

/// What an instance takes of its project's resources.
pub open spec fn resources_of(instance: Instance) -> VirtualResources {
    VirtualResources {
        instance_id: instance.id,
        project_id: instance.project_id,
        cpus: instance.ncpus as i64,
        memory: instance.memory,
    }
}

/// What to add to the accounts of the instance's project.
pub fn sis_account_virtual_resources(params: &Params) -> (r: VirtualResources)
    ensures
        r == resources_of(params.db_instance),
{
    VirtualResources {
        instance_id: params.db_instance.id,
        project_id: params.db_instance.project_id,
        cpus: params.db_instance.ncpus as i64,
        memory: params.db_instance.memory,
    }
}

/// What to take out of the accounts of the instance's project.
pub fn sis_account_virtual_resources_undo(params: &Params) -> (r: VirtualResources)
    ensures
        r == resources_of(params.db_instance),
{
    VirtualResources {
        instance_id: params.db_instance.id,
        project_id: params.db_instance.project_id,
        cpus: params.db_instance.ncpus as i64,
        memory: params.db_instance.memory,
    }
}

// ---
// The VMM record
// ---

/// What the record of a new VMM is made of.
#[derive(Copy, Clone, Debug, PartialEq, Eq, Structural)]
pub struct NewVmm {
    pub instance_id: Uuid,
    pub propolis_id: Uuid,
    pub sled_id: Uuid,
    pub propolis_ip: Ipv6Addr,
}

/// What to make the record of the VMM of, from what earlier steps put out.
pub fn sis_create_vmm_record(
    params: &Params,
    propolis_id: Uuid,
    sled_id: Uuid,
    propolis_ip: Ipv6Addr,
) -> (r: NewVmm)
    ensures
        r == (NewVmm { instance_id: params.db_instance.id, propolis_id, sled_id, propolis_ip }),
{
    NewVmm { instance_id: params.db_instance.id, propolis_id, sled_id, propolis_ip }
}

/// Whether an instance may be restarted automatically.
#[derive(Copy, Clone, Debug, PartialEq, Eq, Structural)]
pub enum Reincarnatability {
    /// The instance will be restarted.
    WillReincarnate,
    /// The instance will be restarted once some time has passed.
    CoolingDown,
    /// The instance's policy, or its state, does not let it be restarted.
    Never,
}

/// Whether to activate the instance reincarnation task, now that the VMM record
/// has been marked as `SagaUnwound`.
///
/// The instance may now be permitted to reincarnate. If it is, the background
/// task helps it along.
pub fn sis_destroy_vmm_record(karmic_status: Reincarnatability) -> (activate: bool)
    ensures
        activate <==> karmic_status is WillReincarnate,
{
    match karmic_status {
        Reincarnatability::WillReincarnate => true,
        Reincarnatability::CoolingDown => false,
        Reincarnatability::Never => false,
    }
}

/// What comes of the record of the VMM being marked as `SagaUnwound`: whether to
/// activate the instance reincarnation task, or the error if the record could not
/// be marked.
pub fn sis_destroy_vmm_record_marked(
    marked: Result<(), String>,
    karmic_status: Reincarnatability,
) -> (r: Result<bool, String>)
    ensures
        match marked {
            Ok(_) => r == Ok::<bool, String>(karmic_status is WillReincarnate),
            Err(e) => r == Err::<bool, String>(e),
        },
{
    match marked {
        Ok(_) => Ok(sis_destroy_vmm_record(karmic_status)),
        Err(e) => Err(e),
    }
}

// ---
// The switch configuration
// ---

/// An instance whose traffic the switches are to send to a sled.
#[derive(Copy, Clone, Debug, PartialEq, Eq, Structural)]
pub struct DpdConfig {
    pub instance_id: Uuid,
    pub sled_id: Uuid,
    /// The external address to configure, where it is not all of them.
    pub ip_filter: Option<Uuid>,
}

/// What to configure on the switches: all addresses of the instance that was
/// started, on the sled that was chosen.
pub fn sis_dpd_ensure(started_record: &Instance, sled_id: Uuid) -> (r: DpdConfig)
    ensures
        r == (DpdConfig { instance_id: started_record.id, sled_id, ip_filter: None }),
{
    DpdConfig { instance_id: started_record.id, sled_id, ip_filter: None }
}

/// The instance whose configuration to delete from the switches.
pub fn sis_dpd_ensure_undo(params: &Params) -> (r: Uuid)
    ensures
        r == params.db_instance.id,
{
    params.db_instance.id
}

// ---
// Moving the instance to Starting, and back
// ---

/// The message of a conflict between start sagas.
pub const CONFLICT: &'static str = "instance changed state before it could be started";

/// What to do about moving an instance to Starting.
#[derive(Debug)]
pub enum MoveToStarting {
    /// This saga's Propolis ID is already written to the record: the step
    /// completed already and is being retried.
    AlreadyDone(Instance),
    /// A competing start saga must have started the instance already.
    Conflict(ActionError),
    /// Write the runtime state to the record.
    Update {
        new_runtime: InstanceRuntimeState,
        /// A Propolis ID left behind by a previous unwinding start saga is
        /// unlinked, so the abandoned VMM reaper is to be activated once the
        /// record is written.
        abandoned_unwound_vmm: bool,
    },
}

/// The runtime state of an instance that is being started.
pub open spec fn starting_runtime(
    runtime: InstanceRuntimeState,
    reason: Reason,
    propolis_id: Uuid,
    now: Timestamp,
) -> InstanceRuntimeState {
    InstanceRuntimeState {
        nexus_state: InstanceState::Vmm,
        propolis_id: Some(propolis_id),
        generation: (runtime.generation + 1) as u64,
        time_last_auto_restarted: if reason is AutoRestart {
            Some(now)
        } else {
            runtime.time_last_auto_restarted
        },
        ..runtime
    }
}

/// What to do about moving an instance to Starting, given its record.
pub open spec fn move_to_starting(
    r: MoveToStarting,
    state: InstanceAndActiveVmm,
    reason: Reason,
    propolis_id: Uuid,
    now: Timestamp,
) -> bool {
    match state.vmm {
        Some(vmm) if vmm.id == propolis_id => r == MoveToStarting::AlreadyDone(state.instance),
        Some(vmm) if !(vmm.state is SagaUnwound) => {
            r == MoveToStarting::Conflict(ActionError::Conflict(CONFLICT))
        },
        _ => r == (MoveToStarting::Update {
            new_runtime: starting_runtime(
                state.instance.runtime_state,
                reason,
                propolis_id,
                now,
            ),
            abandoned_unwound_vmm: state.vmm is Some,
        }),
    }
}

/// Whether moving an instance to Starting means writing to its record: it has no
/// active VMM, or one that another saga left behind.
pub open spec fn needs_update(state: InstanceAndActiveVmm, propolis_id: Uuid) -> bool {
    match state.vmm {
        Some(vmm) => vmm.id != propolis_id && vmm.state is SagaUnwound,
        None => true,
    }
}

/// Whether moving an instance to Starting means writing to its record, which
/// takes a new generation.
pub fn sis_move_to_starting_writes(propolis_id: Uuid, state: &InstanceAndActiveVmm) -> (r: bool)
    ensures
        r == needs_update(*state, propolis_id),
{
    match state.vmm {
        Some(vmm) => vmm.id != propolis_id && vmm.state == VmmState::SagaUnwound,
        None => true,
    }
}

/// Decides what to do about moving an instance to Starting, given its record
/// as it was fetched again and the current time.
pub fn sis_move_to_starting_at(
    params: &Params,
    propolis_id: Uuid,
    state: &InstanceAndActiveVmm,
    now: Timestamp,
) -> (r: MoveToStarting)
    requires
        needs_update(*state, propolis_id) ==> state.instance.runtime_state.generation
            < MAX_GENERATION,
    ensures
        move_to_starting(r, *state, params.reason, propolis_id, now),
        r is AlreadyDone <==> state.vmm is Some && state.vmm->0.id == propolis_id,
        r is Conflict <==> state.vmm is Some && state.vmm->0.id != propolis_id
            && state.vmm->0.state != VmmState::SagaUnwound,
{
    let mut abandoned_unwound_vmm = false;
    match state.vmm {
        Some(vmm) => {
            if vmm.id == propolis_id {
                // If this saga's Propolis ID is already written to the record,
                // then this step must have completed already and is being
                // retried, so proceed.
                return MoveToStarting::AlreadyDone(state.instance);
            }
            if vmm.state == VmmState::SagaUnwound {
                // If the instance has a Propolis ID, but the Propolis was left
                // behind by a previous start saga unwinding, that's fine, we
                // can just clear it out and proceed as though there was no
                // Propolis ID here.
                abandoned_unwound_vmm = true;
            } else {
                // If the instance has a different Propolis ID, a competing
                // start saga must have started the instance already, so
                // unwind.
                return MoveToStarting::Conflict(ActionError::Conflict(CONFLICT));
            }
        },
        // If the instance has no Propolis ID, try to write this saga's chosen
        // ID into the instance and put it in the Running state. (While the
        // instance is still technically starting up, writing the Propolis ID at
        // this point causes the VMM's state, which is Starting, to supersede
        // the instance's state, so this won't cause the instance to appear to
        // be running before Propolis thinks it has started.)
        None => {},
    }
    let runtime = state.instance.runtime_state;
    // If we are performing an automated restart of a Failed instance, remember
    // to update the timestamp.
    let time_last_auto_restarted = if params.reason == Reason::AutoRestart {
        Some(now)
    } else {
        runtime.time_last_auto_restarted
    };
    let new_runtime = InstanceRuntimeState {
        nexus_state: InstanceState::Vmm,
        propolis_id: Some(propolis_id),
        generation: runtime.generation + 1,
        time_last_auto_restarted,
        ..runtime
    };
    MoveToStarting::Update { new_runtime, abandoned_unwound_vmm }
}

/// Decides what to do about moving an instance to Starting, given its record
/// as it was fetched again.
pub fn sis_move_to_starting(
    params: &Params,
    propolis_id: Uuid,
    state: &InstanceAndActiveVmm,
) -> (r: MoveToStarting)
    requires
        needs_update(*state, propolis_id) ==> state.instance.runtime_state.generation
            < MAX_GENERATION,
    ensures
        exists|now: Timestamp|
            now.in_range() && #[trigger] move_to_starting(
                r,
                *state,
                params.reason,
                propolis_id,
                now,
            ),
        r is AlreadyDone <==> state.vmm is Some && state.vmm->0.id == propolis_id,
        r is Conflict <==> state.vmm is Some && state.vmm->0.id != propolis_id
            && state.vmm->0.state != VmmState::SagaUnwound,
{
    let now = utc_now();
    sis_move_to_starting_at(params, propolis_id, state, now)
}

/// What comes of moving an instance to Starting, once the update was tried:
/// the new record and whether to activate the abandoned VMM reaper, or a
/// conflict if another actor managed to update the instance's state in the
/// meantime.
pub fn sis_move_to_starting_updated(
    db_instance: &Instance,
    new_runtime: InstanceRuntimeState,
    abandoned_unwound_vmm: bool,
    updated: bool,
) -> (r: Result<(Instance, bool), ActionError>)
    ensures
        match r {
            Ok((record, activate_reaper)) => {
                &&& updated
                &&& record == (Instance { runtime_state: new_runtime, ..*db_instance })
                &&& activate_reaper == abandoned_unwound_vmm
            },
            Err(e) => !updated && e == ActionError::Conflict(CONFLICT),
        },
{
    // Bail if another actor managed to update the instance's state in the
    // meantime.
    if !updated {
        return Err(ActionError::Conflict(CONFLICT));
    }
    let new_record = Instance { runtime_state: new_runtime, ..*db_instance };
    Ok((new_record, abandoned_unwound_vmm))
}

/// The runtime state of an instance that is returned to Stopped.
pub open spec fn stopped_runtime(runtime: InstanceRuntimeState) -> InstanceRuntimeState {
    InstanceRuntimeState {
        nexus_state: InstanceState::NoVmm,
        propolis_id: None,
        generation: (runtime.generation + 1) as u64,
        ..runtime
    }
}

/// The runtime state that returns an instance to Stopped, given the record
/// that moving it to Starting made.
pub fn sis_move_to_starting_undo(started_record: &Instance) -> (r: InstanceRuntimeState)
    requires
        started_record.runtime_state.generation < MAX_GENERATION,
    ensures
        r == stopped_runtime(started_record.runtime_state),
{
    let runtime = started_record.runtime_state;
    InstanceRuntimeState {
        nexus_state: InstanceState::NoVmm,
        propolis_id: None,
        generation: runtime.generation + 1,
        ..runtime
    }
}

// ---
// Registering the instance, and running it
// ---

/// Why an instance is registered on a sled.
#[derive(Copy, Clone, Debug, PartialEq, Eq, Structural)]
pub enum InstanceRegisterReason {
    /// The instance is being started, on a VMM of its own.
    Start { vmm_id: Uuid },
}

/// What is asked for to register an instance on a sled.
#[derive(Copy, Clone, Debug, PartialEq, Eq, Structural)]
pub struct RegisterRequest {
    pub db_instance: Instance,
    pub propolis_id: Uuid,
    pub vmm_record: Vmm,
    pub reason: InstanceRegisterReason,
}

/// What to ask for to register the instance that was started on its sled, from
/// what earlier steps put out.
pub fn sis_ensure_registered_request(
    started_record: &Instance,
    propolis_id: Uuid,
    vmm_record: &Vmm,
) -> (r: RegisterRequest)
    ensures
        r == (RegisterRequest {
            db_instance: *started_record,
            propolis_id,
            vmm_record: *vmm_record,
            reason: InstanceRegisterReason::Start { vmm_id: propolis_id },
        }),
{
    RegisterRequest {
        db_instance: *started_record,
        propolis_id,
        vmm_record: *vmm_record,
        reason: InstanceRegisterReason::Start { vmm_id: propolis_id },
    }
}

/// What comes of registering the instance on its sled.
///
/// The instance is not set to Failed on an error. Instead, the saga unwinds and
/// restores the instance to the Stopped state (matching what would happen if
/// there were a failure prior to this point).
pub fn sis_ensure_registered(result: Result<Vmm, InstanceStateChangeError>) -> (r: Result<
    Vmm,
    ActionError,
>)
    ensures
        match result {
            Ok(vmm) => r == Ok::<Vmm, ActionError>(vmm),
            Err(e) => r is Err && is_action_error(r->Err_0, e),
        },
{
    match result {
        Ok(vmm) => Ok(vmm),
        Err(e) => Err(action_failed(e)),
    }
}

/// What to do once the instance was to be unregistered from its sled.
#[derive(Debug)]
pub enum UnregisterOutcome {
    /// Let the rest of the saga unwind.
    Continue,
    /// Mark the VMM as Failed, and then bail on unwinding.
    MarkVmmFailed(SledAgentInstanceError),
    /// Intervention is needed, without trying to modify the instance further.
    Bail(String),
}

/// Decides what to do once the instance was to be unregistered from its sled.
///
/// If the failure came from talking to sled agent, and the error code indicates
/// the instance or sled might be unhealthy, manual intervention is likely to be
/// needed, so try to mark the instance as Failed and then bail on unwinding.
///
/// If sled agent is in good shape but just doesn't know about the instance, this
/// saga still owns the instance's state, so allow unwinding to continue.
///
/// If some other error occurred, this saga is in bad shape, so return an error
/// indicating that intervention is needed without trying to modify the instance
/// further.
pub fn sis_ensure_registered_undo(result: Result<(), InstanceStateChangeError>) -> (r:
    UnregisterOutcome)
    ensures
        match result {
            Ok(_) => r is Continue,
            Err(InstanceStateChangeError::SledAgent(inner)) => if inner.vmm_gone {
                r == UnregisterOutcome::MarkVmmFailed(inner)
            } else {
                r is Continue
            },
            Err(InstanceStateChangeError::Other(inner)) => r == UnregisterOutcome::Bail(inner),
        },
{
    match result {
        Ok(_) => UnregisterOutcome::Continue,
        Err(InstanceStateChangeError::SledAgent(inner)) => {
            if inner.vmm_gone {
                UnregisterOutcome::MarkVmmFailed(inner)
            } else {
                UnregisterOutcome::Continue
            }
        },
        Err(InstanceStateChangeError::Other(inner)) => UnregisterOutcome::Bail(inner),
    }
}

/// The error with which unwinding stops, once the VMM was to be marked as
/// Failed: the one that came of marking it, or else the one that made it so.
pub fn sis_ensure_registered_undo_marked(
    inner: SledAgentInstanceError,
    marked: Result<(), String>,
) -> (r: String)
    ensures
        match marked {
            Ok(_) => r == inner.message,
            Err(set_failed_error) => r == set_failed_error,
        },
{
    match marked {
        Ok(_) => inner.message,
        Err(set_failed_error) => set_failed_error,
    }
}

/// A change of state that can be asked for of an instance.
#[derive(Copy, Clone, Debug, PartialEq, Eq, Structural)]
pub enum InstanceStateChangeRequest {
    /// The instance is to run.
    Run,
}

/// What is asked for to change the state of an instance.
#[derive(Copy, Clone, Debug, PartialEq, Eq, Structural)]
pub struct StateRequest {
    pub db_instance: Instance,
    pub vmm: Option<Vmm>,
    pub requested: InstanceStateChangeRequest,
}

/// What to ask for to run the instance that was started, on the VMM as
/// registering it returned it.
pub fn sis_ensure_running_request(started_record: &Instance, registered: &Vmm) -> (r: StateRequest)
    ensures
        r == (StateRequest {
            db_instance: *started_record,
            vmm: Some(*registered),
            requested: InstanceStateChangeRequest::Run,
        }),
{
    StateRequest {
        db_instance: *started_record,
        vmm: Some(*registered),
        requested: InstanceStateChangeRequest::Run,
    }
}

/// What comes of asking for the instance to run.
///
/// The instance is not set to Failed on an error. Instead, the saga unwinds and
/// restores the instance to the Stopped state (matching what would happen if
/// there were a failure prior to this point).
pub fn sis_ensure_running(result: Result<(), InstanceStateChangeError>) -> (r: Result<
    (),
    ActionError,
>)
    ensures
        match result {
            Ok(_) => r is Ok,
            Err(e) => r is Err && is_action_error(r->Err_0, e),
        },
{
    match result {
        Ok(_) => Ok(()),
        Err(e) => Err(action_failed(e)),
    }
}

// ---
// Laws
// ---

/// Every step looks up only what earlier steps returned, and undoing a step
/// looks up only what that step and earlier ones returned.
pub proof fn law_lookups_come_earlier(step: Step, i: int)
    ensures
        saga_steps()[step.place()] == step,
        0 <= i < step.looked_up().len() ==> step.looked_up()[i].place() < step.place(),
        0 <= i < step.looked_up_to_undo().len() ==> step.looked_up_to_undo()[i].place()
            <= step.place(),
{
}

/// No two steps return their output under the same name.
pub proof fn law_outputs_differ(a: Step, b: Step)
    requires
        a.output_text() == b.output_text(),
    ensures
        a == b,
{
    reveal_strlit("propolis_id");
    reveal_strlit("sled_id");
    reveal_strlit("propolis_ip");
    reveal_strlit("vmm_record");
    reveal_strlit("started_record");
    reveal_strlit("dpd_ensure");
    reveal_strlit("v2p_ensure");
    reveal_strlit("ensure_registered");
    reveal_strlit("virtual_resources");
    reveal_strlit("ensure_running");
    let (s, t) = (a.output_text(), b.output_text());
    assert(s.len() == t.len() && s[0] == t[0] && s[1] == t[1] && s[10] == t[10]);
    assert("propolis_id"@[10] == 'd' && "propolis_ip"@[10] == 'p');
    assert("vmm_record"@[1] == 'm' && "v2p_ensure"@[1] == '2');
}

/// A builder to which nothing was appended takes a node for each step.
pub proof fn law_steps_make_a_graph(builder: DagBuilder)
    requires
        appended_nodes(builder).len() == 0,
    ensures
        steps_fit(appended_nodes(builder), saga_steps().len() as int),
{
}

/// Asking for the instance to run is the last step of the saga.
pub proof fn law_ensure_running_is_last()
    ensures
        saga_steps().last() == Step::EnsureRunning,
{
}

/// Moving to Starting can be repeated: once the record is written and has this
/// saga's VMM, the step gives that record back.
pub proof fn law_move_to_starting_idempotent(
    again: MoveToStarting,
    record: Instance,
    vmm: Vmm,
    reason: Reason,
    propolis_id: Uuid,
    now: Timestamp,
)
    requires
        vmm.id == propolis_id,
        move_to_starting(
            again,
            InstanceAndActiveVmm { instance: record, vmm: Some(vmm) },
            reason,
            propolis_id,
            now,
        ),
    ensures
        again == MoveToStarting::AlreadyDone(record),
{
}

/// Undoing the move to Starting leaves an instance without a VMM, two
/// generations later, and otherwise as it was, except for the time of its last
/// automatic restart where this start was one.
pub proof fn law_undo_returns_instance_to_stopped(
    before: InstanceRuntimeState,
    reason: Reason,
    propolis_id: Uuid,
    now: Timestamp,
)
    requires
        before.generation + 1 < MAX_GENERATION,
    ensures
        ({
            let after = stopped_runtime(starting_runtime(before, reason, propolis_id, now));
            &&& after.nexus_state is NoVmm
            &&& after.propolis_id is None
            &&& after.generation == before.generation + 2
            &&& after.time_updated == before.time_updated
            &&& after.dst_propolis_id == before.dst_propolis_id
            &&& after.migration_id == before.migration_id
            &&& !(reason is AutoRestart) ==> after.time_last_auto_restarted
                == before.time_last_auto_restarted
        }),
{
}

/// The step is already done just where the active VMM is the one of this saga. A VMM
/// with another id, in whatever state, never makes it so: it is a conflict, unless
/// a saga that unwound left it behind.
pub proof fn law_only_own_vmm_is_already_done(
    r: MoveToStarting,
    state: InstanceAndActiveVmm,
    reason: Reason,
    propolis_id: Uuid,
    now: Timestamp,
)
    requires
        move_to_starting(r, state, reason, propolis_id, now),
    ensures
        r is AlreadyDone <==> state.vmm is Some && state.vmm->0.id == propolis_id,
        r is AlreadyDone ==> r->AlreadyDone_0 == state.instance,
        r is Conflict <==> state.vmm is Some && state.vmm->0.id != propolis_id && !(
        state.vmm->0.state is SagaUnwound),
        r is Conflict ==> r->Conflict_0 is Conflict,
        r is Conflict ==> r->Conflict_0->Conflict_0@
            == "instance changed state before it could be started"@,
        r is Update <==> state.vmm is None || (state.vmm->0.id != propolis_id
            && state.vmm->0.state is SagaUnwound),
        r is Update <==> needs_update(state, propolis_id),
        MAX_GENERATION == 0x7fff_ffff_ffff_ffff,
{
}

/// Of two sagas that start an instance at once, at most one finds that its step is
/// already done, and where one does, the other runs into a conflict unless the VMM
/// was left behind.
pub proof fn law_two_sagas_do_not_share_a_vmm(
    first: MoveToStarting,
    second: MoveToStarting,
    state: InstanceAndActiveVmm,
    reason: Reason,
    first_id: Uuid,
    second_id: Uuid,
    now: Timestamp,
)
    requires
        first_id != second_id,
        move_to_starting(first, state, reason, first_id, now),
        move_to_starting(second, state, reason, second_id, now),
    ensures
        !(first is AlreadyDone && second is AlreadyDone),
        first is AlreadyDone && !(state.vmm->0.state is SagaUnwound) ==> second is Conflict,
{
}

/// What is written has the VMM of this saga, is one generation later, and tells of
/// a restart just where this start is one. All else stays as it was. The reaper
/// is to be activated just where there was a VMM before.
pub proof fn law_what_moving_to_starting_writes(
    r: MoveToStarting,
    state: InstanceAndActiveVmm,
    reason: Reason,
    propolis_id: Uuid,
    now: Timestamp,
)
    requires
        move_to_starting(r, state, reason, propolis_id, now),
        r is Update,
        state.instance.runtime_state.generation < MAX_GENERATION,
    ensures
        ({
            let (before, after) = (state.instance.runtime_state, r->new_runtime);
            &&& after.nexus_state is Vmm
            &&& after.propolis_id == Some(propolis_id)
            &&& after.generation == before.generation + 1
            &&& after.time_updated == before.time_updated
            &&& after.dst_propolis_id == before.dst_propolis_id
            &&& after.migration_id == before.migration_id
            &&& reason is AutoRestart ==> after.time_last_auto_restarted == Some(now)
            &&& reason is User || reason is AutoStart ==> after.time_last_auto_restarted
                == before.time_last_auto_restarted
            &&& r->abandoned_unwound_vmm <==> state.vmm is Some
        }),
{
}

/// What returns an instance to Stopped takes its VMM away, is one generation later,
/// and leaves all else as it was.
pub proof fn law_what_undoing_writes(before: InstanceRuntimeState)
    requires
        before.generation < MAX_GENERATION,
    ensures
        stopped_runtime(before).nexus_state is NoVmm,
        stopped_runtime(before).propolis_id is None,
        stopped_runtime(before).generation == before.generation + 1,
        stopped_runtime(before).time_updated == before.time_updated,
        stopped_runtime(before).dst_propolis_id == before.dst_propolis_id,
        stopped_runtime(before).migration_id == before.migration_id,
        stopped_runtime(before).time_last_auto_restarted == before.time_last_auto_restarted,
{
}

/// What is accounted for is the whole of what the instance takes, in the project
/// that the instance belongs to.
pub proof fn law_whole_instance_is_accounted_for(instance: Instance)
    ensures
        resources_of(instance).instance_id == instance.id,
        resources_of(instance).project_id == instance.project_id,
        resources_of(instance).cpus == instance.ncpus,
        resources_of(instance).memory == instance.memory,
{
}

/// A step that fails tells the text of the error that made it fail, and whether the
/// sled agent returned it.
pub proof fn law_failures_keep_their_text(e: ActionError, from: InstanceStateChangeError)
    requires
        is_action_error(e, from),
    ensures
        from is SledAgent ==> e is SledAgent && e->SledAgent_0 == from->SledAgent_0.message,
        from is Other ==> e is Other && e->Other_0 == from->Other_0,
{
}

/// The nodes of the saga are the ten steps, one after another: the name under which
/// each returns its output, its label, and its action, which is named by the saga
/// and the label.
pub proof fn law_nodes_of_the_saga(i: int)
    requires
        0 <= i < step_nodes().len(),
    ensures
        step_nodes().len() == 10,
        i == 0 ==> step_nodes()[i] == (NodeView {
            name: "propolis_id"@,
            action: Some(("generate_propolis_id"@, "instance_start."@ + "generate_propolis_id"@)),
        }),
        i == 1 ==> step_nodes()[i] == (NodeView {
            name: "sled_id"@,
            action: Some(("alloc_server"@, "instance_start."@ + "alloc_server"@)),
        }),
        i == 2 ==> step_nodes()[i] == (NodeView {
            name: "propolis_ip"@,
            action: Some(("alloc_propolis_ip"@, "instance_start."@ + "alloc_propolis_ip"@)),
        }),
        i == 3 ==> step_nodes()[i] == (NodeView {
            name: "vmm_record"@,
            action: Some(("create_vmm_record"@, "instance_start."@ + "create_vmm_record"@)),
        }),
        i == 4 ==> step_nodes()[i] == (NodeView {
            name: "started_record"@,
            action: Some(("mark_as_starting"@, "instance_start."@ + "mark_as_starting"@)),
        }),
        i == 5 ==> step_nodes()[i] == (NodeView {
            name: "dpd_ensure"@,
            action: Some(("dpd_ensure"@, "instance_start."@ + "dpd_ensure"@)),
        }),
        i == 6 ==> step_nodes()[i] == (NodeView {
            name: "v2p_ensure"@,
            action: Some(("v2p_ensure"@, "instance_start."@ + "v2p_ensure"@)),
        }),
        i == 7 ==> step_nodes()[i] == (NodeView {
            name: "ensure_registered"@,
            action: Some(("ensure_registered"@, "instance_start."@ + "ensure_registered"@)),
        }),
        i == 8 ==> step_nodes()[i] == (NodeView {
            name: "virtual_resources"@,
            action: Some(("add_virtual_resources"@, "instance_start."@ + "add_virtual_resources"@)),
        }),
        i == 9 ==> step_nodes()[i] == (NodeView {
            name: "ensure_running"@,
            action: Some(("ensure_running"@, "instance_start."@ + "ensure_running"@)),
        }),
        saga_steps()[i].node() == step_nodes()[i],
        saga_steps()[i].place() == i,
{
}

/// The steps fit a graph just where none of the nodes that are there has the name
/// under which one of them returns its output.
pub proof fn law_steps_fit_unless_a_name_is_taken(there: Seq<NodeView>)
    ensures
        steps_fit(there, saga_steps().len() as int) <==> forall|i: int, k: int|
            0 <= i < there.len() && 0 <= k < 10 ==> (#[trigger] there[i]).name != (
            #[trigger] step_nodes()[k]).name,
{
    let n = saga_steps().len() as int;
    if steps_fit(there, n) {
        assert forall|i: int, k: int| 0 <= i < there.len() && 0 <= k < 10 implies (
        #[trigger] there[i]).name != (#[trigger] step_nodes()[k]).name by {
            assert(!has_node(there, saga_steps()[k].output_text()));
        }
    }
    if forall|i: int, k: int|
        0 <= i < there.len() && 0 <= k < 10 ==> (#[trigger] there[i]).name != (
        #[trigger] step_nodes()[k]).name {
        assert forall|k: int| 0 <= k < n implies !has_node(
            there,
            (#[trigger] saga_steps()[k]).output_text(),
        ) by {
            assert(step_nodes()[k].name == saga_steps()[k].output_text());
        }
    }
}

/// A step that takes or writes something is undone. Those that only choose an id or
/// an address are not, nor is the last one.
pub proof fn law_which_steps_are_undone(step: Step)
    ensures
        step is AllocServer || step is CreateVmmRecord || step is MarkAsStarting
            || step is DpdEnsure || step is V2pEnsure || step is EnsureRegistered
            || step is AddVirtualResources <==> step.undone(),
        step.looked_up_to_undo().len() > 0 ==> step.undone(),
{
}

/// What each step looks up, and what is looked up to undo it.
pub proof fn law_what_steps_look_up(step: Step, of: Step)
    ensures
        step.looked_up().contains(of) <==> match of {
            Step::GeneratePropolisId => step is AllocServer || step is CreateVmmRecord
                || step is MarkAsStarting || step is EnsureRegistered,
            Step::AllocServer => step is AllocPropolisIp || step is CreateVmmRecord
                || step is DpdEnsure || step is EnsureRegistered || step is EnsureRunning,
            Step::AllocPropolisIp => step is CreateVmmRecord,
            Step::CreateVmmRecord => step is EnsureRegistered,
            Step::MarkAsStarting => step is DpdEnsure || step is EnsureRegistered
                || step is EnsureRunning,
            Step::EnsureRegistered => step is EnsureRunning,
            _ => false,
        },
        step.looked_up_to_undo().contains(of) <==> match of {
            Step::GeneratePropolisId => step is AllocServer || step is CreateVmmRecord
                || step is EnsureRegistered,
            Step::AllocServer => step is EnsureRegistered,
            Step::MarkAsStarting => step is MarkAsStarting,
            Step::EnsureRegistered => step is EnsureRegistered,
            _ => false,
        },
{
    let (a, b) = (step.looked_up(), step.looked_up_to_undo());
    assert(a.len() > 0 ==> a.contains(a[0]));
    assert(a.len() > 1 ==> a.contains(a[1]));
    assert(a.len() > 2 ==> a.contains(a[2]));
    assert(a.len() > 3 ==> a.contains(a[3]));
    assert(b.len() > 0 ==> b.contains(b[0]));
    assert(b.len() > 1 ==> b.contains(b[1]));
    assert(b.len() > 2 ==> b.contains(b[2]));
}

} // verus!
