//! Request handling logic of the control-plane API.
//!
//! Request and response records, their validation, the conversions between
//! the wire shapes and the control plane's own types, and the cluster status
//! summary. The HTTP layer itself stays outside the library; it decodes a
//! request, calls these functions, and encodes what they return.

use vstd::prelude::*;
use vstd::string::StringExecFns;

use crate::types::ContainerConfig;
use crate::types::PortMapping;
use crate::types::ResourceRequests;

verus! {

// ---------------------------------------------------------------------------
// Control-plane types
// ---------------------------------------------------------------------------

/// A node's health as the control plane tracks it.
#[derive(Debug, Clone, PartialEq, Eq)]
pub enum NodeStatus {
    Ready,
    NotReady,
}

/// The text a node's status renders as.
pub open spec fn spec_node_status_label(s: NodeStatus) -> Seq<char> {
    match s {
        NodeStatus::Ready => "Ready"@,
        NodeStatus::NotReady => "NotReady"@,
    }
}

impl NodeStatus {
    /// Renders the status for a response record.
    pub fn label(&self) -> (r: String)
        ensures
            r@ == spec_node_status_label(*self),
    {
        match self {
            NodeStatus::Ready => "Ready".to_owned(),
            NodeStatus::NotReady => "NotReady".to_owned(),
        }
    }
}

/// A workload instance's lifecycle state.
#[derive(Debug, Clone, PartialEq, Eq)]
pub enum WorkloadInstanceStatus {
    Pending,
    Running,
    Failed,
}

/// The text an instance's status renders as.
pub open spec fn spec_instance_status_label(s: WorkloadInstanceStatus) -> Seq<char> {
    match s {
        WorkloadInstanceStatus::Pending => "Pending"@,
        WorkloadInstanceStatus::Running => "Running"@,
        WorkloadInstanceStatus::Failed => "Failed"@,
    }
}

impl WorkloadInstanceStatus {
    /// Renders the status for a response record.
    pub fn label(&self) -> (r: String)
        ensures
            r@ == spec_instance_status_label(*self),
    {
        match self {
            WorkloadInstanceStatus::Pending => "Pending".to_owned(),
            WorkloadInstanceStatus::Running => "Running".to_owned(),
            WorkloadInstanceStatus::Failed => "Failed".to_owned(),
        }
    }
}

/// A stored workload definition.
#[derive(Debug, Clone)]
pub struct WorkloadDefinition {
    pub id: String,
    pub name: String,
    pub containers: Vec<ContainerConfig>,
    pub replicas: u32,
    pub labels: Vec<(String, String)>,
}

/// A cluster node as the control plane tracks it.
#[derive(Debug, Clone)]
pub struct Node {
    pub id: String,
    pub address: String,
    pub status: NodeStatus,
    pub labels: Vec<(String, String)>,
    pub resources_capacity: ResourceRequests,
    pub resources_allocatable: ResourceRequests,
}

/// A scheduled instance of a workload.
#[derive(Debug, Clone)]
pub struct WorkloadInstance {
    pub id: String,
    pub workload_id: String,
    pub node_id: String,
    pub container_ids: Vec<String>,
    pub status: WorkloadInstanceStatus,
}

// ---------------------------------------------------------------------------
// Request and response records
// ---------------------------------------------------------------------------

/// Resource requests of a container, on the wire.
#[derive(Debug, Clone, PartialEq, Eq)]
pub struct ResourceRequestsRequest {
    pub cpu_millicores: u64,
    pub memory_mb: u64,
    pub disk_mb: u64,
}

/// A port mapping, on the wire.
#[derive(Debug, Clone)]
pub struct PortMappingRequest {
    pub container_port: u16,
    pub host_port: Option<u16>,
    pub protocol: String,
}

/// A container configuration, on the wire.
#[derive(Debug, Clone)]
pub struct ContainerConfigRequest {
    pub name: String,
    pub image: String,
    pub command: Option<Vec<String>>,
    pub args: Option<Vec<String>>,
    pub env_vars: Vec<(String, String)>,
    pub ports: Vec<PortMappingRequest>,
    pub resource_requests: ResourceRequestsRequest,
}

/// A request to create or update a workload.
#[derive(Debug, Clone)]
pub struct CreateWorkloadRequest {
    pub name: String,
    pub containers: Vec<ContainerConfigRequest>,
    pub replicas: u32,
    pub labels: Vec<(String, String)>,
}

/// Resource requests in a response.
#[derive(Debug, Clone, PartialEq, Eq)]
pub struct ResourceRequestsResponse {
    pub cpu_millicores: u64,
    pub memory_mb: u64,
    pub disk_mb: u64,
}

/// A port mapping in a response.
#[derive(Debug, Clone)]
pub struct PortMappingResponse {
    pub container_port: u16,
    pub host_port: Option<u16>,
    pub protocol: String,
}

/// A container configuration in a response.
#[derive(Debug, Clone)]
pub struct ContainerConfigResponse {
    pub name: String,
    pub image: String,
    pub command: Option<Vec<String>>,
    pub args: Option<Vec<String>>,
    pub env_vars: Vec<(String, String)>,
    pub ports: Vec<PortMappingResponse>,
    pub resource_requests: ResourceRequestsResponse,
}

/// A workload in a response.
#[derive(Debug, Clone)]
pub struct WorkloadResponse {
    pub id: String,
    pub name: String,
    pub replicas: u32,
    pub labels: Vec<(String, String)>,
    pub containers: Vec<ContainerConfigResponse>,
}

/// A list of items with its count.
#[derive(Debug, Clone)]
pub struct ListResponse<T> {
    pub items: Vec<T>,
    pub count: usize,
}

/// The protocol a port mapping gets when the request names none.
pub fn default_protocol() -> (r: String)
    ensures
        r@ == "tcp"@,
{
    "tcp".to_owned()
}

/// Wraps items into a list response whose count is the number of items.
pub fn make_list_response<T>(items: Vec<T>) -> (r: ListResponse<T>)
    ensures
        r.items == items,
        r.count == items@.len(),
{
    let count = items.len();
    ListResponse { items, count }
}

/// A node in a response.
#[derive(Debug, Clone)]
pub struct NodeResponse {
    pub id: String,
    pub address: String,
    pub status: String,
    pub labels: Vec<(String, String)>,
    pub resources_capacity: ResourceRequestsResponse,
    pub resources_allocatable: ResourceRequestsResponse,
}

/// A workload instance in a response.
#[derive(Debug, Clone)]
pub struct InstanceResponse {
    pub id: String,
    pub workload_id: String,
    pub node_id: String,
    pub container_ids: Vec<String>,
    pub status: String,
}

/// The cluster status summary.
#[derive(Debug, Clone, PartialEq, Eq)]
pub struct ClusterStatusResponse {
    pub total_nodes: usize,
    pub ready_nodes: usize,
    pub not_ready_nodes: usize,
    pub total_workloads: usize,
    pub total_instances: usize,
    pub running_instances: usize,
    pub pending_instances: usize,
    pub failed_instances: usize,
    pub total_cpu_capacity: u64,
    pub total_memory_mb: u64,
    pub total_cpu_allocatable: u64,
    pub total_memory_allocatable_mb: u64,
}

// ---------------------------------------------------------------------------
// Validation
// ---------------------------------------------------------------------------

/// Validates a workload request: the name must be nonempty and there must be
/// at least one container; on creation the replica count must also be at
/// least one. The first violated rule names the error.
pub fn validate_workload_request(req: &CreateWorkloadRequest, check_replicas: bool) -> (r: Result<
    (),
    String,
>)
    ensures
        r is Ok <==> (req.name@.len() > 0 && req.containers@.len() > 0 && (check_replicas
            ==> req.replicas > 0)),
        req.name@.len() == 0 ==> (r matches Err(m) && m@ == "Workload name cannot be empty"@),
        req.name@.len() > 0 && req.containers@.len() == 0 ==> (r matches Err(m) && m@
            == "Workload must have at least one container"@),
        req.name@.len() > 0 && req.containers@.len() > 0 && check_replicas && req.replicas == 0
            ==> (r matches Err(m) && m@ == "Replicas must be at least 1"@),
{
    if req.name.as_str().is_empty() {
        return Err("Workload name cannot be empty".to_owned());
    }
    if req.containers.len() == 0 {
        return Err("Workload must have at least one container".to_owned());
    }
    if check_replicas && req.replicas == 0 {
        return Err("Replicas must be at least 1".to_owned());
    }
    Ok(())
}

// ---------------------------------------------------------------------------
// Conversions between wire shapes and control-plane types
// ---------------------------------------------------------------------------

/// A port mapping carries its request's fields unchanged.
pub open spec fn port_converts(p: PortMappingRequest, q: PortMapping) -> bool {
    q.container_port == p.container_port && q.host_port == p.host_port && q.protocol == p.protocol
}

/// Resource requests carry their request's fields unchanged.
pub open spec fn resources_convert(p: ResourceRequestsRequest, q: ResourceRequests) -> bool {
    q.cpu_millicores == p.cpu_millicores && q.memory_mb == p.memory_mb && q.disk_mb == p.disk_mb
}

/// A container configuration carries its request's fields unchanged, its
/// ports and resources converted member for member.
pub open spec fn config_converts(p: ContainerConfigRequest, q: ContainerConfig) -> bool {
    &&& q.name == p.name
    &&& q.image == p.image
    &&& q.command == p.command
    &&& q.args == p.args
    &&& q.env_vars == p.env_vars
    &&& q.ports@.len() == p.ports@.len()
    &&& forall|k: int| 0 <= k < p.ports@.len() ==> port_converts(p.ports@[k], #[trigger] q.ports@[k])
    &&& resources_convert(p.resource_requests, q.resource_requests)
}

/// Turns a wire port mapping into the control plane's own.
pub fn port_mapping_from_request(req: PortMappingRequest) -> (r: PortMapping)
    ensures
        port_converts(req, r),
{
    PortMapping {
        container_port: req.container_port,
        host_port: req.host_port,
        protocol: req.protocol,
    }
}

/// Turns wire resource requests into the control plane's own.
pub fn resources_from_request(req: ResourceRequestsRequest) -> (r: ResourceRequests)
    ensures
        resources_convert(req, r),
{
    ResourceRequests {
        cpu_millicores: req.cpu_millicores,
        memory_mb: req.memory_mb,
        disk_mb: req.disk_mb,
    }
}

/// Turns a wire container configuration into the control plane's own.
pub fn container_config_from_request(req: ContainerConfigRequest) -> (r: ContainerConfig)
    ensures
        config_converts(req, r),
{
    let ContainerConfigRequest { name, image, command, args, env_vars, ports, resource_requests } =
        req;
    let ghost ports0 = ports@;
    let mut rest = ports;
    let mut out: Vec<PortMapping> = Vec::new();
    while rest.len() > 0
        invariant
            out@.len() + rest@.len() == ports0.len(),
            rest@ == ports0.skip(out@.len() as int),
            forall|k: int|
                0 <= k < out@.len() ==> port_converts(ports0[k], #[trigger] out@[k]),
        decreases rest@.len(),
    {
        let ghost n0 = out@.len() as int;
        let p = rest.remove(0);
        proof {
            assert(p == ports0[n0]);
        }
        out.push(port_mapping_from_request(p));
        proof {
            assert(rest@ =~= ports0.skip(n0 + 1));
        }
    }
    ContainerConfig {
        name,
        image,
        command,
        args,
        env_vars,
        ports: out,
        resource_requests: resources_from_request(resource_requests),
    }
}

/// Turns a creation request into a stored workload definition under a fresh
/// identifier, each container converted in order.
pub fn workload_from_request(id: String, req: CreateWorkloadRequest) -> (r: WorkloadDefinition)
    ensures
        r.id == id,
        r.name == req.name,
        r.replicas == req.replicas,
        r.labels == req.labels,
        r.containers@.len() == req.containers@.len(),
        forall|k: int|
            0 <= k < req.containers@.len() ==> config_converts(
                req.containers@[k],
                #[trigger] r.containers@[k],
            ),
{
    let CreateWorkloadRequest { name, containers, replicas, labels } = req;
    let ghost cs0 = containers@;
    let mut rest = containers;
    let mut out: Vec<ContainerConfig> = Vec::new();
    while rest.len() > 0
        invariant
            out@.len() + rest@.len() == cs0.len(),
            rest@ == cs0.skip(out@.len() as int),
            forall|k: int|
                0 <= k < out@.len() ==> config_converts(cs0[k], #[trigger] out@[k]),
        decreases rest@.len(),
    {
        let ghost n0 = out@.len() as int;
        let c = rest.remove(0);
        proof {
            assert(c == cs0[n0]);
        }
        out.push(container_config_from_request(c));
        proof {
            assert(rest@ =~= cs0.skip(n0 + 1));
        }
    }
    WorkloadDefinition { id, name, containers: out, replicas, labels }
}

/// A response port mapping carries the control plane's fields unchanged.
pub open spec fn port_to_response(p: PortMapping, q: PortMappingResponse) -> bool {
    q.container_port == p.container_port && q.host_port == p.host_port && q.protocol == p.protocol
}

/// Response resources carry the control plane's fields unchanged.
pub open spec fn resources_to_response(p: ResourceRequests, q: ResourceRequestsResponse) -> bool {
    q.cpu_millicores == p.cpu_millicores && q.memory_mb == p.memory_mb && q.disk_mb == p.disk_mb
}

/// A response container configuration carries the control plane's fields,
/// its ports and resources converted member for member.
pub open spec fn config_to_response(p: ContainerConfig, q: ContainerConfigResponse) -> bool {
    &&& q.name == p.name
    &&& q.image == p.image
    &&& q.command == p.command
    &&& q.args == p.args
    &&& q.env_vars == p.env_vars
    &&& q.ports@.len() == p.ports@.len()
    &&& forall|k: int| 0 <= k < p.ports@.len() ==> port_to_response(p.ports@[k], #[trigger] q.ports@[k])
    &&& resources_to_response(p.resource_requests, q.resource_requests)
}

/// Renders resource requests for a response.
pub fn resources_response_from(res: ResourceRequests) -> (r: ResourceRequestsResponse)
    ensures
        resources_to_response(res, r),
{
    ResourceRequestsResponse {
        cpu_millicores: res.cpu_millicores,
        memory_mb: res.memory_mb,
        disk_mb: res.disk_mb,
    }
}

/// Renders a container configuration for a response.
pub fn container_config_response_from(cfg: ContainerConfig) -> (r: ContainerConfigResponse)
    ensures
        config_to_response(cfg, r),
{
    let ContainerConfig { name, image, command, args, env_vars, ports, resource_requests } = cfg;
    let ghost ports0 = ports@;
    let mut rest = ports;
    let mut out: Vec<PortMappingResponse> = Vec::new();
    while rest.len() > 0
        invariant
            out@.len() + rest@.len() == ports0.len(),
            rest@ == ports0.skip(out@.len() as int),
            forall|k: int|
                0 <= k < out@.len() ==> port_to_response(ports0[k], #[trigger] out@[k]),
        decreases rest@.len(),
    {
        let ghost n0 = out@.len() as int;
        let p = rest.remove(0);
        proof {
            assert(p == ports0[n0]);
        }
        out.push(
            PortMappingResponse {
                container_port: p.container_port,
                host_port: p.host_port,
                protocol: p.protocol,
            },
        );
        proof {
            assert(rest@ =~= ports0.skip(n0 + 1));
        }
    }
    ContainerConfigResponse {
        name,
        image,
        command,
        args,
        env_vars,
        ports: out,
        resource_requests: resources_response_from(resource_requests),
    }
}

/// Renders a workload definition for a response.
pub fn workload_response_from(def: WorkloadDefinition) -> (r: WorkloadResponse)
    ensures
        r.id == def.id,
        r.name == def.name,
        r.replicas == def.replicas,
        r.labels == def.labels,
        r.containers@.len() == def.containers@.len(),
        forall|k: int|
            0 <= k < def.containers@.len() ==> config_to_response(
                def.containers@[k],
                #[trigger] r.containers@[k],
            ),
{
    let WorkloadDefinition { id, name, containers, replicas, labels } = def;
    let ghost cs0 = containers@;
    let mut rest = containers;
    let mut out: Vec<ContainerConfigResponse> = Vec::new();
    while rest.len() > 0
        invariant
            out@.len() + rest@.len() == cs0.len(),
            rest@ == cs0.skip(out@.len() as int),
            forall|k: int|
                0 <= k < out@.len() ==> config_to_response(cs0[k], #[trigger] out@[k]),
        decreases rest@.len(),
    {
        let ghost n0 = out@.len() as int;
        let c = rest.remove(0);
        proof {
            assert(c == cs0[n0]);
        }
        out.push(container_config_response_from(c));
        proof {
            assert(rest@ =~= cs0.skip(n0 + 1));
        }
    }
    WorkloadResponse { id, name, replicas, labels, containers: out }
}

/// Renders a node for a response, its status as text.
pub fn node_response_from(node: Node) -> (r: NodeResponse)
    ensures
        r.id == node.id,
        r.address == node.address,
        r.status@ == spec_node_status_label(node.status),
        r.labels == node.labels,
        resources_to_response(node.resources_capacity, r.resources_capacity),
        resources_to_response(node.resources_allocatable, r.resources_allocatable),
{
    let status = node.status.label();
    NodeResponse {
        id: node.id,
        address: node.address,
        status,
        labels: node.labels,
        resources_capacity: resources_response_from(node.resources_capacity),
        resources_allocatable: resources_response_from(node.resources_allocatable),
    }
}

/// Renders a workload instance for a response, its status as text.
pub fn instance_response_from(inst: WorkloadInstance) -> (r: InstanceResponse)
    ensures
        r.id == inst.id,
        r.workload_id == inst.workload_id,
        r.node_id == inst.node_id,
        r.container_ids == inst.container_ids,
        r.status@ == spec_instance_status_label(inst.status),
{
    let status = inst.status.label();
    InstanceResponse {
        id: inst.id,
        workload_id: inst.workload_id,
        node_id: inst.node_id,
        container_ids: inst.container_ids,
        status,
    }
}

// ---------------------------------------------------------------------------
// Cluster status summary
// ---------------------------------------------------------------------------

/// How many nodes report ready.
pub open spec fn count_ready(ns: Seq<Node>) -> int
    decreases ns.len(),
{
    if ns.len() == 0 {
        0
    } else {
        count_ready(ns.drop_last()) + if ns.last().status is Ready {
            1int
        } else {
            0int
        }
    }
}

/// How many instances are in the given state.
pub open spec fn count_instances(
    is: Seq<WorkloadInstance>,
    status: WorkloadInstanceStatus,
) -> int
    decreases is.len(),
{
    if is.len() == 0 {
        0
    } else {
        count_instances(is.drop_last(), status) + if is.last().status == status {
            1int
        } else {
            0int
        }
    }
}

/// The nodes' total CPU capacity, allocatable CPU, memory capacity and
/// allocatable memory, as unbounded sums.
pub open spec fn sum_cpu_capacity(ns: Seq<Node>) -> int
    decreases ns.len(),
{
    if ns.len() == 0 {
        0
    } else {
        sum_cpu_capacity(ns.drop_last()) + ns.last().resources_capacity.cpu_millicores
    }
}

pub open spec fn sum_memory_capacity(ns: Seq<Node>) -> int
    decreases ns.len(),
{
    if ns.len() == 0 {
        0
    } else {
        sum_memory_capacity(ns.drop_last()) + ns.last().resources_capacity.memory_mb
    }
}

pub open spec fn sum_cpu_allocatable(ns: Seq<Node>) -> int
    decreases ns.len(),
{
    if ns.len() == 0 {
        0
    } else {
        sum_cpu_allocatable(ns.drop_last()) + ns.last().resources_allocatable.cpu_millicores
    }
}

pub open spec fn sum_memory_allocatable(ns: Seq<Node>) -> int
    decreases ns.len(),
{
    if ns.len() == 0 {
        0
    } else {
        sum_memory_allocatable(ns.drop_last()) + ns.last().resources_allocatable.memory_mb
    }
}

/// A sum clamped into the 64-bit range.
pub open spec fn sat64(x: int) -> u64 {
    if x > u64::MAX {
        u64::MAX
    } else {
        x as u64
    }
}

fn sat_add(acc: u64, x: u64) -> (r: u64)
    ensures
        r == sat64(acc + x),
{
    if acc > u64::MAX - x {
        u64::MAX
    } else {
        acc + x
    }
}

/// Summarises the cluster: node counts by readiness, workload and instance
/// counts by state, and the nodes' resource totals (clamped into the 64-bit
/// range). Every count is exact.
pub fn summarize_cluster(
    nodes: &Vec<Node>,
    total_workloads: usize,
    instances: &Vec<WorkloadInstance>,
) -> (r: ClusterStatusResponse)
    ensures
        r.total_nodes == nodes@.len(),
        r.ready_nodes == count_ready(nodes@),
        r.not_ready_nodes == nodes@.len() - count_ready(nodes@),
        r.total_workloads == total_workloads,
        r.total_instances == instances@.len(),
        r.running_instances == count_instances(instances@, WorkloadInstanceStatus::Running),
        r.pending_instances == count_instances(instances@, WorkloadInstanceStatus::Pending),
        r.failed_instances == count_instances(instances@, WorkloadInstanceStatus::Failed),
        r.total_cpu_capacity == sat64(sum_cpu_capacity(nodes@)),
        r.total_memory_mb == sat64(sum_memory_capacity(nodes@)),
        r.total_cpu_allocatable == sat64(sum_cpu_allocatable(nodes@)),
        r.total_memory_allocatable_mb == sat64(sum_memory_allocatable(nodes@)),
{
    let mut ready: usize = 0;
    let mut cpu_cap: u64 = 0;
    let mut mem_cap: u64 = 0;
    let mut cpu_alloc: u64 = 0;
    let mut mem_alloc: u64 = 0;
    let mut i: usize = 0;
    proof {
        assert(nodes@.take(0) =~= Seq::<Node>::empty());
    }
    while i < nodes.len()
        invariant
            i <= nodes@.len(),
            ready <= i,
            ready == count_ready(nodes@.take(i as int)),
            cpu_cap == sat64(sum_cpu_capacity(nodes@.take(i as int))),
            mem_cap == sat64(sum_memory_capacity(nodes@.take(i as int))),
            cpu_alloc == sat64(sum_cpu_allocatable(nodes@.take(i as int))),
            mem_alloc == sat64(sum_memory_allocatable(nodes@.take(i as int))),
        decreases nodes@.len() - i,
    {
        proof {
            assert(nodes@.take(i + 1).drop_last() =~= nodes@.take(i as int));
            assert(nodes@.take(i + 1).last() == nodes@[i as int]);
            lemma_sums_nonneg(nodes@.take(i as int));
            lemma_sums_nonneg(nodes@.take(i + 1));
        }
        let n = &nodes[i];
        if matches!(n.status, NodeStatus::Ready) {
            ready += 1;
        }
        cpu_cap = sat_add(cpu_cap, n.resources_capacity.cpu_millicores);
        mem_cap = sat_add(mem_cap, n.resources_capacity.memory_mb);
        cpu_alloc = sat_add(cpu_alloc, n.resources_allocatable.cpu_millicores);
        mem_alloc = sat_add(mem_alloc, n.resources_allocatable.memory_mb);
        i += 1;
    }
    proof {
        assert(nodes@.take(nodes@.len() as int) =~= nodes@);
        lemma_count_ready_bound(nodes@);
    }
    let mut running: usize = 0;
    let mut pending: usize = 0;
    let mut failed: usize = 0;
    let mut j: usize = 0;
    proof {
        assert(instances@.take(0) =~= Seq::<WorkloadInstance>::empty());
    }
    while j < instances.len()
        invariant
            j <= instances@.len(),
            running <= j,
            pending <= j,
            failed <= j,
            running == count_instances(instances@.take(j as int), WorkloadInstanceStatus::Running),
            pending == count_instances(instances@.take(j as int), WorkloadInstanceStatus::Pending),
            failed == count_instances(instances@.take(j as int), WorkloadInstanceStatus::Failed),
        decreases instances@.len() - j,
    {
        proof {
            assert(instances@.take(j + 1).drop_last() =~= instances@.take(j as int));
            assert(instances@.take(j + 1).last() == instances@[j as int]);
        }
        match &instances[j].status {
            WorkloadInstanceStatus::Running => {
                running += 1;
            },
            WorkloadInstanceStatus::Pending => {
                pending += 1;
            },
            WorkloadInstanceStatus::Failed => {
                failed += 1;
            },
        }
        j += 1;
    }
    proof {
        assert(instances@.take(instances@.len() as int) =~= instances@);
    }
    ClusterStatusResponse {
        total_nodes: nodes.len(),
        ready_nodes: ready,
        not_ready_nodes: nodes.len() - ready,
        total_workloads,
        total_instances: instances.len(),
        running_instances: running,
        pending_instances: pending,
        failed_instances: failed,
        total_cpu_capacity: cpu_cap,
        total_memory_mb: mem_cap,
        total_cpu_allocatable: cpu_alloc,
        total_memory_allocatable_mb: mem_alloc,
    }
}

/// Sums of unsigned readings never fall below zero.
proof fn lemma_sums_nonneg(ns: Seq<Node>)
    ensures
        sum_cpu_capacity(ns) >= 0,
        sum_memory_capacity(ns) >= 0,
        sum_cpu_allocatable(ns) >= 0,
        sum_memory_allocatable(ns) >= 0,
    decreases ns.len(),
{
    if ns.len() > 0 {
        lemma_sums_nonneg(ns.drop_last());
    }
}

/// No more nodes are ready than there are nodes.
proof fn lemma_count_ready_bound(ns: Seq<Node>)
    ensures
        0 <= count_ready(ns) <= ns.len(),
    decreases ns.len(),
{
    if ns.len() > 0 {
        lemma_count_ready_bound(ns.drop_last());
    }
}

} // verus!
