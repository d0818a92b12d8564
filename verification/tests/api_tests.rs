//! Tests of the control-plane API logic: validation, the wire conversions,
//! and the cluster status summary.

use container_runtime::api::default_protocol;
use container_runtime::api::instance_response_from;
use container_runtime::api::make_list_response;
use container_runtime::api::node_response_from;
use container_runtime::api::summarize_cluster;
use container_runtime::api::validate_workload_request;
use container_runtime::api::workload_from_request;
use container_runtime::api::workload_response_from;
use container_runtime::api::ContainerConfigRequest;
use container_runtime::api::CreateWorkloadRequest;
use container_runtime::api::Node;
use container_runtime::api::NodeStatus;
use container_runtime::api::PortMappingRequest;
use container_runtime::api::ResourceRequestsRequest;
use container_runtime::api::WorkloadDefinition;
use container_runtime::api::WorkloadInstance;
use container_runtime::api::WorkloadInstanceStatus;
use container_runtime::types::ResourceRequests;

fn sample_request() -> CreateWorkloadRequest {
    CreateWorkloadRequest {
        name: "test-workload".to_string(),
        containers: vec![ContainerConfigRequest {
            name: "nginx".to_string(),
            image: "nginx:latest".to_string(),
            command: None,
            args: None,
            env_vars: vec![],
            ports: vec![PortMappingRequest {
                container_port: 80,
                host_port: Some(8080),
                protocol: "tcp".to_string(),
            }],
            resource_requests: ResourceRequestsRequest {
                cpu_millicores: 500,
                memory_mb: 512,
                disk_mb: 1024,
            },
        }],
        replicas: 3,
        labels: vec![],
    }
}

#[test]
fn test_create_workload_request_conversion() {
    let request = sample_request();
    let workload: WorkloadDefinition = workload_from_request("w-1".to_string(), request);
    assert_eq!(workload.name, "test-workload".to_string());
    assert_eq!(workload.replicas, 3);
    assert_eq!(workload.containers.len(), 1);
    assert_eq!(workload.containers[0].image, "nginx:latest".to_string());
}

#[test]
fn test_node_response_conversion() {
    let node = Node {
        id: "node-1".to_string(),
        address: "10.0.0.1:8080".to_string(),
        status: NodeStatus::Ready,
        labels: vec![],
        resources_capacity: ResourceRequests {
            cpu_millicores: 4000,
            memory_mb: 8192,
            disk_mb: 102400,
        },
        resources_allocatable: ResourceRequests {
            cpu_millicores: 3600,
            memory_mb: 7372,
            disk_mb: 92160,
        },
    };
    let response = node_response_from(node.clone());
    assert_eq!(response.id, node.id);
    assert_eq!(response.status, "Ready".to_string());
    assert_eq!(response.resources_capacity.cpu_millicores, 4000);
}

#[test]
fn test_instance_response_conversion() {
    let instance = WorkloadInstance {
        id: "i-1".to_string(),
        workload_id: "w-1".to_string(),
        node_id: "n-1".to_string(),
        container_ids: vec!["container-1".to_string()],
        status: WorkloadInstanceStatus::Running,
    };
    let response = instance_response_from(instance.clone());
    assert_eq!(response.id, instance.id);
    assert_eq!(response.status, "Running".to_string());
}

#[test]
fn conversion_keeps_ports_and_resources() {
    let request = sample_request();
    let workload = workload_from_request("w-1".to_string(), request);
    assert_eq!(workload.id, "w-1".to_string());
    let c = &workload.containers[0];
    assert_eq!(c.ports.len(), 1);
    assert_eq!(c.ports[0].container_port, 80);
    assert_eq!(c.ports[0].host_port, Some(8080));
    assert_eq!(c.ports[0].protocol, "tcp".to_string());
    assert_eq!(c.resource_requests.cpu_millicores, 500);
    assert_eq!(c.resource_requests.memory_mb, 512);
    let response = workload_response_from(workload);
    assert_eq!(response.containers[0].ports[0].container_port, 80);
    assert_eq!(response.containers[0].resource_requests.disk_mb, 1024);
}

#[test]
fn validation_rejects_bad_requests_in_order() {
    let mut request = sample_request();
    request.name = String::new();
    assert_eq!(
        validate_workload_request(&request, true),
        Err("Workload name cannot be empty".to_string())
    );
    let mut request = sample_request();
    request.containers = vec![];
    assert_eq!(
        validate_workload_request(&request, true),
        Err("Workload must have at least one container".to_string())
    );
    let mut request = sample_request();
    request.replicas = 0;
    assert_eq!(
        validate_workload_request(&request, true),
        Err("Replicas must be at least 1".to_string())
    );
    // An update does not re-check the replica count.
    assert_eq!(validate_workload_request(&request, false), Ok(()));
    assert_eq!(validate_workload_request(&sample_request(), true), Ok(()));
}

#[test]
fn list_responses_carry_their_count() {
    let r = make_list_response(vec![1u32, 2, 3]);
    assert_eq!(r.count, 3);
    assert_eq!(r.items, vec![1u32, 2, 3]);
}

#[test]
fn default_protocol_is_tcp() {
    assert_eq!(default_protocol(), "tcp".to_string());
}

#[test]
fn cluster_summary_counts_and_sums() {
    let nodes = vec![
        Node {
            id: "n-1".to_string(),
            address: "10.0.0.1:8080".to_string(),
            status: NodeStatus::Ready,
            labels: vec![],
            resources_capacity: ResourceRequests {
                cpu_millicores: 4000,
                memory_mb: 8192,
                disk_mb: 0,
            },
            resources_allocatable: ResourceRequests {
                cpu_millicores: 3600,
                memory_mb: 7372,
                disk_mb: 0,
            },
        },
        Node {
            id: "n-2".to_string(),
            address: "10.0.0.2:8080".to_string(),
            status: NodeStatus::NotReady,
            labels: vec![],
            resources_capacity: ResourceRequests {
                cpu_millicores: 2000,
                memory_mb: 4096,
                disk_mb: 0,
            },
            resources_allocatable: ResourceRequests {
                cpu_millicores: 1000,
                memory_mb: 2048,
                disk_mb: 0,
            },
        },
    ];
    let instances = vec![
        WorkloadInstance {
            id: "i-1".to_string(),
            workload_id: "w-1".to_string(),
            node_id: "n-1".to_string(),
            container_ids: vec![],
            status: WorkloadInstanceStatus::Running,
        },
        WorkloadInstance {
            id: "i-2".to_string(),
            workload_id: "w-1".to_string(),
            node_id: "n-1".to_string(),
            container_ids: vec![],
            status: WorkloadInstanceStatus::Pending,
        },
        WorkloadInstance {
            id: "i-3".to_string(),
            workload_id: "w-2".to_string(),
            node_id: "n-2".to_string(),
            container_ids: vec![],
            status: WorkloadInstanceStatus::Running,
        },
    ];
    let summary = summarize_cluster(&nodes, 2, &instances);
    assert_eq!(summary.total_nodes, 2);
    assert_eq!(summary.ready_nodes, 1);
    assert_eq!(summary.not_ready_nodes, 1);
    assert_eq!(summary.total_workloads, 2);
    assert_eq!(summary.total_instances, 3);
    assert_eq!(summary.running_instances, 2);
    assert_eq!(summary.pending_instances, 1);
    assert_eq!(summary.failed_instances, 0);
    assert_eq!(summary.total_cpu_capacity, 6000);
    assert_eq!(summary.total_memory_mb, 12288);
    assert_eq!(summary.total_cpu_allocatable, 4600);
    assert_eq!(summary.total_memory_allocatable_mb, 9420);
}

#[test]
fn cluster_summary_saturates_huge_totals() {
    let big = Node {
        id: "n-1".to_string(),
        address: "a".to_string(),
        status: NodeStatus::Ready,
        labels: vec![],
        resources_capacity: ResourceRequests {
            cpu_millicores: u64::MAX,
            memory_mb: u64::MAX,
            disk_mb: 0,
        },
        resources_allocatable: ResourceRequests {
            cpu_millicores: 0,
            memory_mb: 0,
            disk_mb: 0,
        },
    };
    let mut other = big.clone();
    other.id = "n-2".to_string();
    let summary = summarize_cluster(&vec![big, other], 0, &vec![]);
    assert_eq!(summary.total_cpu_capacity, u64::MAX);
    assert_eq!(summary.total_memory_mb, u64::MAX);
    assert_eq!(summary.total_cpu_allocatable, 0);
}
