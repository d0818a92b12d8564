//! Tests of the command-line front end's decision logic: option parsing,
//! workload selection, listing filters, cell rendering, and the deploy
//! request builder, together with the text utilities they rest on.

use container_runtime::cli::build_deploy_request;
use container_runtime::cli::display_container_count;
use container_runtime::cli::display_first_image;
use container_runtime::cli::find_workload;
use container_runtime::cli::matching_name_indices;
use container_runtime::cli::matching_prefix_indices;
use container_runtime::cli::parse_env_var;
use container_runtime::cli::select_workload;
use container_runtime::cli::ContainerInfo;
use container_runtime::cli::DeployArgs;
use container_runtime::cli::WorkloadLookup;
use container_runtime::cli::WorkloadSummary;
use container_runtime::text::parse_u64;
use container_runtime::text::str_contains;
use container_runtime::text::str_eq;
use container_runtime::text::str_starts_with;
use container_runtime::text::str_trim;
use container_runtime::text::u64_to_string;

#[test]
fn env_var_splits_at_the_first_equals_sign() {
    assert_eq!(parse_env_var("KEY=VALUE"), Ok(("KEY".to_string(), "VALUE".to_string())));
    assert_eq!(parse_env_var("KEY=a=b"), Ok(("KEY".to_string(), "a=b".to_string())));
    assert_eq!(parse_env_var("=v"), Ok((String::new(), "v".to_string())));
    assert_eq!(
        parse_env_var("novalue"),
        Err("Invalid format 'novalue', expected KEY=VALUE".to_string())
    );
}

fn sample_workloads() -> Vec<WorkloadSummary> {
    vec![
        WorkloadSummary { id: "aa11".to_string(), name: "web".to_string() },
        WorkloadSummary { id: "bb22".to_string(), name: "db".to_string() },
        WorkloadSummary { id: "bb33".to_string(), name: "cache".to_string() },
    ]
}

#[test]
fn selection_by_exact_name() {
    let r = select_workload(&sample_workloads(), &"web".to_string(), false);
    assert!(matches!(r, WorkloadLookup::Found(id) if id == "aa11".to_string()));
}

#[test]
fn selection_by_identifier_prefix() {
    let r = select_workload(&sample_workloads(), &"aa".to_string(), false);
    assert!(matches!(r, WorkloadLookup::Found(id) if id == "aa11".to_string()));
}

#[test]
fn selection_is_ambiguous_with_two_matches() {
    let r = select_workload(&sample_workloads(), &"bb".to_string(), false);
    assert!(matches!(r, WorkloadLookup::Ambiguous(2)));
}

#[test]
fn selection_misses_cleanly() {
    let r = select_workload(&sample_workloads(), &"zz".to_string(), false);
    assert!(matches!(r, WorkloadLookup::NotFound));
}

#[test]
fn a_well_formed_identifier_reference_stands_for_itself() {
    // The reference is a UUID, so no list lookup happens; had the parser
    // check been dropped, this query would match nothing and miss.
    let q = "936da01f-9abd-4d9d-80c7-02af85c822a8".to_string();
    let r = find_workload(&sample_workloads(), &q);
    assert!(matches!(r, WorkloadLookup::Found(id) if id == q));
    // A reference that is no UUID goes through the list.
    let r = find_workload(&sample_workloads(), &"cache".to_string());
    assert!(matches!(r, WorkloadLookup::Found(id) if id == "bb33".to_string()));
    let r = find_workload(&sample_workloads(), &"nope".to_string());
    assert!(matches!(r, WorkloadLookup::NotFound));
}

#[test]
fn name_filter_keeps_matching_positions() {
    let names = vec![
        "frontend".to_string(),
        "backend".to_string(),
        "worker".to_string(),
    ];
    assert_eq!(matching_name_indices(&names, &"end".to_string()), vec![0, 1]);
    assert_eq!(matching_name_indices(&names, &"work".to_string()), vec![2]);
    assert_eq!(matching_name_indices(&names, &"zzz".to_string()), Vec::<usize>::new());
    assert_eq!(matching_name_indices(&names, &"".to_string()), vec![0, 1, 2]);
}

#[test]
fn prefix_filter_keeps_matching_positions() {
    let ids = vec!["abc-1".to_string(), "abd-2".to_string(), "abc-3".to_string()];
    assert_eq!(matching_prefix_indices(&ids, &"abc".to_string()), vec![0, 2]);
    assert_eq!(matching_prefix_indices(&ids, &"x".to_string()), Vec::<usize>::new());
}

#[test]
fn table_cells_render_images_and_counts() {
    let containers = vec![
        ContainerInfo { name: "main".to_string(), image: "nginx:latest".to_string() },
        ContainerInfo { name: "side".to_string(), image: "redis:7".to_string() },
    ];
    assert_eq!(display_first_image(&containers), "nginx:latest".to_string());
    assert_eq!(display_first_image(&Vec::<ContainerInfo>::new()), "-".to_string());
    assert_eq!(display_container_count(&Vec::<String>::new()), "0".to_string());
    assert_eq!(
        display_container_count(&vec!["a".to_string(), "b".to_string(), "c".to_string()]),
        "3".to_string()
    );
}

#[test]
fn deploy_request_wraps_one_container() {
    let args = DeployArgs {
        name: "api".to_string(),
        image: "api:1".to_string(),
        replicas: 2,
        port: Some(8080),
        cpu: 100,
        memory: 128,
        env: vec![("MODE".to_string(), "prod".to_string())],
        label: vec![("tier".to_string(), "web".to_string())],
    };
    let req = build_deploy_request(args);
    assert_eq!(req.name, "api".to_string());
    assert_eq!(req.replicas, 2);
    assert_eq!(req.labels, vec![("tier".to_string(), "web".to_string())]);
    assert_eq!(req.containers.len(), 1);
    assert_eq!(req.containers[0].name, "api".to_string());
    assert_eq!(req.containers[0].image, "api:1".to_string());
    assert_eq!(req.containers[0].ports.len(), 1);
    assert_eq!(req.containers[0].ports[0].container_port, 8080);
    assert_eq!(req.containers[0].ports[0].protocol, "TCP".to_string());
    assert_eq!(req.containers[0].resources.cpu_millicores, 100);
    assert_eq!(req.containers[0].resources.memory_mb, 128);
}

#[test]
fn deploy_request_without_port_has_none() {
    let args = DeployArgs {
        name: "api".to_string(),
        image: "api:1".to_string(),
        replicas: 1,
        port: None,
        cpu: 100,
        memory: 128,
        env: vec![],
        label: vec![],
    };
    let req = build_deploy_request(args);
    assert_eq!(req.containers[0].ports.len(), 0);
}

#[test]
fn text_utilities_behave_like_std() {
    assert!(str_contains("container abc is not running", "not running"));
    assert!(!str_contains("all good", "not running"));
    assert!(str_contains("abc", ""));
    assert!(str_starts_with("usage_usec 12", "usage_usec"));
    assert!(!str_starts_with("usage", "usage_usec"));
    assert!(str_eq("same", "same"));
    assert!(!str_eq("same", "sam"));
    assert_eq!(str_trim("  x y\t\n"), "x y".to_string());
    assert_eq!(str_trim(" \t "), String::new());
}

#[test]
fn decimal_parsing_matches_std() {
    assert_eq!(parse_u64("12345"), Some(12345));
    assert_eq!(parse_u64("+7"), Some(7));
    assert_eq!(parse_u64(""), None);
    assert_eq!(parse_u64("+"), None);
    assert_eq!(parse_u64("12a"), None);
    assert_eq!(parse_u64("18446744073709551615"), Some(u64::MAX));
    assert_eq!(parse_u64("18446744073709551616"), None);
    assert_eq!("12345".parse::<u64>().ok(), parse_u64("12345"));
    assert_eq!("+7".parse::<u64>().ok(), parse_u64("+7"));
    assert_eq!("9x".parse::<u64>().ok(), parse_u64("9x"));
}

#[test]
fn decimal_rendering_matches_std() {
    assert_eq!(u64_to_string(0), "0".to_string());
    assert_eq!(u64_to_string(7), "7".to_string());
    assert_eq!(u64_to_string(40961), "40961".to_string());
    assert_eq!(u64_to_string(u64::MAX), "18446744073709551615".to_string());
    assert_eq!(u64_to_string(10), format!("{}", 10u64));
}
