//! Decision logic of the command-line front end.
//!
//! Argument records, the `KEY=VALUE` option parser, workload selection by
//! name or identifier prefix, listing filters, and the table-cell renderings.
//! The front end itself (argument parsing, HTTP calls, printing) lives
//! outside the library and calls these functions on plain values.

use vstd::prelude::*;
use vstd::string::StrSliceExecFns;
use vstd::string::StringExecFns;

use crate::text::contains_seq;
use crate::text::dec_str;
use crate::text::starts_with_seq;
use crate::text::str_contains;
use crate::text::str_eq;
use crate::text::str_starts_with;
use crate::text::u64_to_string;

verus! {

/// Arguments of the deploy command.
#[derive(Debug, Clone)]
pub struct DeployArgs {
    /// Workload name.
    pub name: String,
    /// Container image.
    pub image: String,
    /// Number of replicas.
    pub replicas: u32,
    /// Container port.
    pub port: Option<u16>,
    /// CPU request in millicores.
    pub cpu: u64,
    /// Memory request in MB.
    pub memory: u64,
    /// Environment variables as key/value pairs.
    pub env: Vec<(String, String)>,
    /// Labels as key/value pairs.
    pub label: Vec<(String, String)>,
}

/// Arguments of the logs command.
#[derive(Debug, Clone)]
pub struct LogsArgs {
    /// Workload identifier or name.
    pub workload: String,
    /// Stream new entries.
    pub follow: bool,
    /// Number of lines to show.
    pub lines: usize,
    /// Show timestamps.
    pub timestamps: bool,
    /// Filter by instance identifier prefix.
    pub instance: Option<String>,
    /// Filter by container name.
    pub container: Option<String>,
}

/// Arguments of the status command.
#[derive(Debug, Clone)]
pub struct StatusArgs {
    /// Show detailed status.
    pub detailed: bool,
    /// Filter by workload name.
    pub workload: Option<String>,
    /// Show only nodes.
    pub nodes_only: bool,
    /// Show only workloads.
    pub workloads_only: bool,
}

/// Parses a `KEY=VALUE` option: the key is everything before the first `=`,
/// the value everything after it; text without `=` is rejected with a
/// message naming it.
pub fn parse_env_var(s: &str) -> (r: Result<(String, String), String>)
    ensures
        r is Ok <==> (exists|e: int| 0 <= e < s@.len() && s@[e] == '='),
        r matches Ok(kv) ==> (exists|e: int|
            0 <= e < s@.len() && s@[e] == '=' && (forall|t: int| 0 <= t < e ==> s@[t] != '=')
                && kv.0@ == s@.subrange(0, e) && kv.1@ == s@.subrange(e + 1, s@.len() as int)),
        r matches Err(m) ==> m@ == "Invalid format '"@ + s@ + "', expected KEY=VALUE"@,
{
    let n = s.unicode_len();
    let mut i: usize = 0;
    while i < n
        invariant
            i <= n,
            n == s@.len(),
            forall|t: int| 0 <= t < i ==> s@[t] != '=',
        decreases n - i,
    {
        if s.get_char(i) == '=' {
            let key = s.substring_char(0, i).to_owned();
            let value = s.substring_char(i + 1, n).to_owned();
            return Ok((key, value));
        }
        i += 1;
    }
    let m = "Invalid format '".to_owned().concat(s).concat("', expected KEY=VALUE");
    proof {
        assert(m@ =~= "Invalid format '"@ + s@ + "', expected KEY=VALUE"@);
    }
    Err(m)
}

/// A workload as the selection logic sees it: identifier and name.
#[derive(Debug, Clone)]
pub struct WorkloadSummary {
    pub id: String,
    pub name: String,
}

/// The ghost image of a workload summary.
pub ghost struct WorkloadSummaryView {
    pub id: Seq<char>,
    pub name: Seq<char>,
}

impl View for WorkloadSummary {
    type V = WorkloadSummaryView;

    open spec fn view(&self) -> WorkloadSummaryView {
        WorkloadSummaryView { id: self.id@, name: self.name@ }
    }
}

impl DeepView for WorkloadSummary {
    type V = WorkloadSummaryView;

    open spec fn deep_view(&self) -> WorkloadSummaryView {
        self.view()
    }
}

/// A workload answers a query when its name equals it or its identifier
/// starts with it.
pub open spec fn is_query_match(w: WorkloadSummaryView, q: Seq<char>) -> bool {
    w.name == q || starts_with_seq(w.id, q)
}

/// The workloads answering a query, in their listed order.
pub open spec fn matching_workloads(
    ws: Seq<WorkloadSummaryView>,
    q: Seq<char>,
) -> Seq<WorkloadSummaryView> {
    ws.filter(|w: WorkloadSummaryView| is_query_match(w, q))
}

/// What a workload reference came to.
#[derive(Debug, Clone)]
pub enum WorkloadLookup {
    /// The reference names this workload identifier.
    Found(String),
    /// Nothing answers the reference.
    NotFound,
    /// This many workloads answer it: the reference is ambiguous.
    Ambiguous(usize),
}

/// Resolves a workload reference: a well-formed identifier is taken as it
/// stands; otherwise the workloads whose name equals the reference or whose
/// identifier starts with it are matched, and the reference resolves only
/// when exactly one answers.
pub fn select_workload(
    workloads: &Vec<WorkloadSummary>,
    query: &String,
    query_is_uuid: bool,
) -> (r: WorkloadLookup)
    ensures
        query_is_uuid ==> (r matches WorkloadLookup::Found(id) && id@ == query@),
        !query_is_uuid ==> {
            let ms = matching_workloads(workloads.deep_view(), query@);
            &&& ms.len() == 0 ==> r is NotFound
            &&& ms.len() == 1 ==> (r matches WorkloadLookup::Found(id) && id@ == ms[0].id)
            &&& ms.len() > 1 ==> (r matches WorkloadLookup::Ambiguous(n) && n == ms.len())
        },
{
    if query_is_uuid {
        return WorkloadLookup::Found(query.clone());
    }
    let ghost dv = workloads.deep_view();
    let mut count: usize = 0;
    let mut found: Option<String> = None;
    let mut i: usize = 0;
    proof {
        reveal(Seq::filter);
        assert(dv.take(0) =~= Seq::<WorkloadSummaryView>::empty());
        assert(matching_workloads(dv.take(0), query@) =~= Seq::<WorkloadSummaryView>::empty());
    }
    while i < workloads.len()
        invariant
            i <= workloads@.len(),
            dv == workloads.deep_view(),
            dv.len() == workloads@.len(),
            forall|k: int| 0 <= k < dv.len() ==> dv[k] == workloads@[k]@,
            count == matching_workloads(dv.take(i as int), query@).len(),
            count > 0 ==> (found matches Some(f) && f@ == matching_workloads(
                dv.take(i as int),
                query@,
            )[0].id),
            count == 0 ==> found is None,
        decreases workloads@.len() - i,
    {
        let ghost pre = matching_workloads(dv.take(i as int), query@);
        proof {
            reveal(Seq::filter);
            assert(dv.take(i + 1).drop_last() =~= dv.take(i as int));
            assert(dv.take(i + 1).last() == dv[i as int]);
        }
        let w = &workloads[i];
        if str_eq(w.name.as_str(), query.as_str()) || str_starts_with(
            w.id.as_str(),
            query.as_str(),
        ) {
            if count == 0 {
                found = Some(w.id.clone());
            }
            count = count + 1;
            proof {
                assert(matching_workloads(dv.take(i + 1), query@) =~= pre.push(dv[i as int]));
            }
        } else {
            proof {
                assert(matching_workloads(dv.take(i + 1), query@) =~= pre);
            }
        }
        i += 1;
    }
    proof {
        assert(dv.take(dv.len() as int) =~= dv);
    }
    if count == 0 {
        WorkloadLookup::NotFound
    } else if count == 1 {
        match found {
            Some(f) => WorkloadLookup::Found(f),
            None => WorkloadLookup::NotFound,
        }
    } else {
        WorkloadLookup::Ambiguous(count)
    }
}

/// Whether the outside identifier parser accepts this text as a UUID.
pub uninterp spec fn uuid_accepts(s: Seq<char>) -> bool;

/// Relies on `uuid::Uuid::parse_str`: whether the text is a well-formed
/// UUID in any of the forms that parser accepts, a function of the text
/// alone.
#[verifier::external_body]
fn uuid_parse_ok(s: &str) -> (r: bool)
    ensures
        r == uuid_accepts(s@),
{
    uuid::Uuid::parse_str(s).is_ok()
}

/// Resolves a workload reference as the front end does: a reference that is
/// itself a well-formed identifier stands for that identifier; any other is
/// matched against the workloads' names and identifier prefixes, and must
/// answer exactly one.
pub fn find_workload(workloads: &Vec<WorkloadSummary>, query: &String) -> (r: WorkloadLookup)
    ensures
        uuid_accepts(query@) ==> (r matches WorkloadLookup::Found(id) && id@ == query@),
        !uuid_accepts(query@) ==> {
            let ms = matching_workloads(workloads.deep_view(), query@);
            &&& ms.len() == 0 ==> r is NotFound
            &&& ms.len() == 1 ==> (r matches WorkloadLookup::Found(id) && id@ == ms[0].id)
            &&& ms.len() > 1 ==> (r matches WorkloadLookup::Ambiguous(n) && n == ms.len())
        },
{
    let is_uuid = uuid_parse_ok(query.as_str());
    select_workload(workloads, query, is_uuid)
}

/// The positions of the names that contain the needle, in order; the
/// status listing keeps exactly the workloads at these positions.
pub fn matching_name_indices(names: &Vec<String>, needle: &String) -> (r: Vec<usize>)
    ensures
        forall|t: int| 0 <= t < r@.len() ==> #[trigger] r@[t] < names@.len(),
        forall|t: int|
            0 <= t < r@.len() ==> contains_seq(names@[#[trigger] r@[t] as int]@, needle@),
        forall|t1: int, t2: int|
            0 <= t1 < t2 < r@.len() ==> #[trigger] r@[t1] < #[trigger] r@[t2],
        forall|k: int|
            0 <= k < names@.len() && contains_seq(#[trigger] names@[k]@, needle@) ==> r@.contains(
                k as usize,
            ),
{
    let mut r: Vec<usize> = Vec::new();
    let mut i: usize = 0;
    while i < names.len()
        invariant
            i <= names@.len(),
            forall|t: int| 0 <= t < r@.len() ==> #[trigger] r@[t] < i,
            forall|t: int|
                0 <= t < r@.len() ==> contains_seq(names@[#[trigger] r@[t] as int]@, needle@),
            forall|t1: int, t2: int|
                0 <= t1 < t2 < r@.len() ==> #[trigger] r@[t1] < #[trigger] r@[t2],
            forall|k: int|
                0 <= k < i && contains_seq(#[trigger] names@[k]@, needle@) ==> r@.contains(
                    k as usize,
                ),
        decreases names@.len() - i,
    {
        let ghost r0 = r@;
        if str_contains(names[i].as_str(), needle.as_str()) {
            r.push(i);
            proof {
                assert(r@ == r0.push(i as usize));
                assert(forall|t: int| 0 <= t < r0.len() ==> #[trigger] r@[t] == r0[t]);
                assert(r@[r@.len() - 1] == i as usize);
                assert forall|k: int|
                    0 <= k < i + 1 && contains_seq(#[trigger] names@[k]@, needle@) implies
                    r@.contains(k as usize) by {
                    if k < i {
                        let t = choose|t: int| 0 <= t < r0.len() && r0[t] == k as usize;
                        assert(r@[t] == k as usize);
                    } else {
                        assert(r@[r@.len() - 1] == k as usize);
                    }
                }
            }
        } else {
            proof {
                assert forall|k: int|
                    0 <= k < i + 1 && contains_seq(#[trigger] names@[k]@, needle@) implies
                    r@.contains(k as usize) by {
                    assert(k != i);
                    let t = choose|t: int| 0 <= t < r0.len() && r0[t] == k as usize;
                    assert(r@[t] == k as usize);
                }
            }
        }
        i += 1;
    }
    r
}

/// The positions of the identifiers that start with the prefix, in order;
/// the instance filter of the logs command keeps exactly these.
pub fn matching_prefix_indices(ids: &Vec<String>, prefix: &String) -> (r: Vec<usize>)
    ensures
        forall|t: int| 0 <= t < r@.len() ==> #[trigger] r@[t] < ids@.len(),
        forall|t: int|
            0 <= t < r@.len() ==> starts_with_seq(ids@[#[trigger] r@[t] as int]@, prefix@),
        forall|t1: int, t2: int|
            0 <= t1 < t2 < r@.len() ==> #[trigger] r@[t1] < #[trigger] r@[t2],
        forall|k: int|
            0 <= k < ids@.len() && starts_with_seq(#[trigger] ids@[k]@, prefix@) ==> r@.contains(
                k as usize,
            ),
{
    let mut r: Vec<usize> = Vec::new();
    let mut i: usize = 0;
    while i < ids.len()
        invariant
            i <= ids@.len(),
            forall|t: int| 0 <= t < r@.len() ==> #[trigger] r@[t] < i,
            forall|t: int|
                0 <= t < r@.len() ==> starts_with_seq(ids@[#[trigger] r@[t] as int]@, prefix@),
            forall|t1: int, t2: int|
                0 <= t1 < t2 < r@.len() ==> #[trigger] r@[t1] < #[trigger] r@[t2],
            forall|k: int|
                0 <= k < i && starts_with_seq(#[trigger] ids@[k]@, prefix@) ==> r@.contains(
                    k as usize,
                ),
        decreases ids@.len() - i,
    {
        let ghost r0 = r@;
        if str_starts_with(ids[i].as_str(), prefix.as_str()) {
            r.push(i);
            proof {
                assert(r@ == r0.push(i as usize));
                assert(forall|t: int| 0 <= t < r0.len() ==> #[trigger] r@[t] == r0[t]);
                assert(r@[r@.len() - 1] == i as usize);
                assert forall|k: int|
                    0 <= k < i + 1 && starts_with_seq(#[trigger] ids@[k]@, prefix@) implies
                    r@.contains(k as usize) by {
                    if k < i {
                        let t = choose|t: int| 0 <= t < r0.len() && r0[t] == k as usize;
                        assert(r@[t] == k as usize);
                    } else {
                        assert(r@[r@.len() - 1] == k as usize);
                    }
                }
            }
        } else {
            proof {
                assert forall|k: int|
                    0 <= k < i + 1 && starts_with_seq(#[trigger] ids@[k]@, prefix@) implies
                    r@.contains(k as usize) by {
                    assert(k != i);
                    let t = choose|t: int| 0 <= t < r0.len() && r0[t] == k as usize;
                    assert(r@[t] == k as usize);
                }
            }
        }
        i += 1;
    }
    r
}

/// A requested port, as the deploy command sends it.
#[derive(Debug, Clone)]
pub struct PortRequest {
    pub container_port: u16,
    pub protocol: String,
}

/// Requested resources, as the deploy command sends them.
#[derive(Debug, Clone, PartialEq, Eq)]
pub struct ResourceRequest {
    pub cpu_millicores: u64,
    pub memory_mb: u64,
}

/// A requested container, as the deploy command sends it.
#[derive(Debug, Clone)]
pub struct ContainerRequest {
    pub name: String,
    pub image: String,
    pub ports: Vec<PortRequest>,
    pub env: Vec<(String, String)>,
    pub resources: ResourceRequest,
}

/// The workload creation request the deploy command sends.
#[derive(Debug, Clone)]
pub struct CreateWorkloadRequest {
    pub name: String,
    pub replicas: u32,
    pub labels: Vec<(String, String)>,
    pub containers: Vec<ContainerRequest>,
}

/// Builds the deploy command's creation request: one container named after
/// the workload, carrying the image, the environment, the resource requests,
/// and — when a port was asked for — that one TCP port.
pub fn build_deploy_request(args: DeployArgs) -> (r: CreateWorkloadRequest)
    ensures
        r.name == args.name,
        r.replicas == args.replicas,
        r.labels == args.label,
        r.containers@.len() == 1,
        r.containers@[0].name == args.name,
        r.containers@[0].image == args.image,
        r.containers@[0].env == args.env,
        r.containers@[0].resources.cpu_millicores == args.cpu,
        r.containers@[0].resources.memory_mb == args.memory,
        args.port matches Some(p) ==> (r.containers@[0].ports@.len() == 1 && r.containers@[
            0
        ].ports@[0].container_port == p && r.containers@[0].ports@[0].protocol@ == "TCP"@),
        args.port is None ==> r.containers@[0].ports@.len() == 0,
{
    let DeployArgs { name, image, replicas, port, cpu, memory, env, label } = args;
    let mut ports: Vec<PortRequest> = Vec::new();
    match port {
        Some(p) => {
            ports.push(PortRequest { container_port: p, protocol: "TCP".to_owned() });
        },
        None => {},
    }
    let container = ContainerRequest {
        name: name.clone(),
        image,
        ports,
        env,
        resources: ResourceRequest { cpu_millicores: cpu, memory_mb: memory },
    };
    let mut containers: Vec<ContainerRequest> = Vec::new();
    containers.push(container);
    CreateWorkloadRequest { name, replicas, labels: label, containers }
}

/// A container's name and image, as a workload listing shows them.
#[derive(Debug, Clone)]
pub struct ContainerInfo {
    pub name: String,
    pub image: String,
}

/// The image cell of a workload row: the first container's image, or a dash
/// for a workload without containers.
pub fn display_first_image(containers: &Vec<ContainerInfo>) -> (r: String)
    ensures
        containers@.len() == 0 ==> r@ == "-"@,
        containers@.len() > 0 ==> r@ == containers@[0].image@,
{
    if containers.len() == 0 {
        "-".to_owned()
    } else {
        containers[0].image.clone()
    }
}

/// The container-count cell of an instance row: the number of container
/// identifiers, in decimal.
pub fn display_container_count(ids: &Vec<String>) -> (r: String)
    ensures
        r@ == dec_str(ids@.len() as nat),
{
    u64_to_string(ids.len() as u64)
}

} // verus!
