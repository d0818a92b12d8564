//! Tests of the lifecycle engine's core: configuration, statistics parsing,
//! output classification, the shutdown state machine, the registry, and the
//! log queries.

use container_runtime::classify::classify_delete;
use container_runtime::classify::classify_kill;
use container_runtime::classify::classify_state;
use container_runtime::classify::classify_strict;
use container_runtime::ids::generate_container_id;
use container_runtime::lifecycle::bundle_path_for;
use container_runtime::lifecycle::plan_bundle_limits;
use container_runtime::lifecycle::resolve_status;
use container_runtime::lifecycle::status_or_degraded;
use container_runtime::lifecycle::stop_event_from_status;
use container_runtime::lifecycle::stop_step;
use container_runtime::lifecycle::RuntimeStateQuery;
use container_runtime::lifecycle::StopAction;
use container_runtime::lifecycle::StopEvent;
use container_runtime::logs::fetch_logs;
use container_runtime::logs::log_file_path;
use container_runtime::logs::render_log_tail;
use container_runtime::registry::Registry;
use container_runtime::stats::cgroup_cpu_stat_path;
use container_runtime::stats::cgroup_memory_path;
use container_runtime::stats::parse_cpu_usage;
use container_runtime::stats::parse_memory_current;
use container_runtime::stats::stats_from_reads;
use container_runtime::types::ContainerState;
use container_runtime::types::ContainerStats;
use container_runtime::types::OrchestrationError;
use container_runtime::types::ResourceRequests;
use container_runtime::types::YoukiCliConfig;
use container_runtime::types::YoukiCliError;

#[test]
fn it_works() {
    // Basic sanity test
    assert!(true);
}

#[test]
fn test_config_default() {
    let config = YoukiCliConfig::default();
    assert_eq!(config.youki_binary, "youki".to_string());
    assert_eq!(config.command_timeout_secs, 30);
}

#[test]
fn test_parse_cpu_usage() {
    let content = "usage_usec 12345\nuser_usec 10000\n";
    assert_eq!(parse_cpu_usage(content), 12345000);
}

#[test]
fn test_container_stats() {
    let stats = ContainerStats {
        container_id: "test".to_string(),
        cpu_usage_ns: 1000000,
        memory_usage_bytes: 1048576,
    };
    assert_eq!(stats.memory_usage_bytes, 1024 * 1024);
}

#[test]
fn cpu_usage_missing_line_is_zero() {
    assert_eq!(parse_cpu_usage("user_usec 10000\nsystem_usec 5\n"), 0);
    assert_eq!(parse_cpu_usage(""), 0);
}

#[test]
fn cpu_usage_unparsable_value_is_zero() {
    assert_eq!(parse_cpu_usage("usage_usec abc\n"), 0);
}

#[test]
fn cpu_usage_line_without_value_is_skipped() {
    // A bare `usage_usec` line has no second field; the next one counts.
    assert_eq!(parse_cpu_usage("usage_usec\nusage_usec 7\n"), 7000);
}

#[test]
fn memory_current_parses_trimmed_integer() {
    assert_eq!(parse_memory_current(" 1024\n"), 1024);
    assert_eq!(parse_memory_current("garbage"), 0);
}

#[test]
fn stats_from_missing_files_are_zero() {
    let stats = stats_from_reads("c-1".to_string(), None, None);
    assert_eq!(stats.container_id, "c-1".to_string());
    assert_eq!(stats.cpu_usage_ns, 0);
    assert_eq!(stats.memory_usage_bytes, 0);
}

#[test]
fn stats_from_reads_parses_both_files() {
    let cpu = "usage_usec 1000\n".to_string();
    let mem = "1048576\n".to_string();
    let stats = stats_from_reads("test".to_string(), Some(&cpu), Some(&mem));
    assert_eq!(stats.cpu_usage_ns, 1000000);
    assert_eq!(stats.memory_usage_bytes, 1048576);
}

#[test]
fn kill_not_running_is_success() {
    // The external tool reports the container as not running: no error.
    let r = classify_kill(false, "SIGTERM", "container abc is not running");
    assert!(r.is_ok());
    let r = classify_kill(false, "SIGKILL", "kill failed: no such process");
    assert!(r.is_ok());
}

#[test]
fn kill_other_failure_is_error() {
    let r = classify_kill(false, "SIGTERM", "permission denied");
    match r {
        Err(YoukiCliError::CommandFailed { command, message }) => {
            assert_eq!(command, "kill SIGTERM".to_string());
            assert_eq!(message, "permission denied".to_string());
        },
        _ => panic!("expected a command failure"),
    }
}

#[test]
fn delete_already_gone_is_success() {
    assert!(classify_delete(false, "container does not exist").is_ok());
    assert!(classify_delete(false, "container not found").is_ok());
    assert!(classify_delete(true, "").is_ok());
    assert!(classify_delete(false, "device busy").is_err());
}

#[test]
fn state_query_classification() {
    assert!(classify_state(true, "c-1", "").is_ok());
    match classify_state(false, "c-1", "container does not exist") {
        Err(YoukiCliError::ContainerNotFound(id)) => assert_eq!(id, "c-1".to_string()),
        _ => panic!("expected not-found"),
    }
    match classify_state(false, "c-1", "boom") {
        Err(YoukiCliError::CommandFailed { command, message }) => {
            assert_eq!(command, "state".to_string());
            assert_eq!(message, "boom".to_string());
        },
        _ => panic!("expected a command failure"),
    }
}

#[test]
fn create_and_start_failures_surface() {
    assert!(classify_strict("create", true, "").is_ok());
    match classify_strict("start", false, "exec failed") {
        Err(YoukiCliError::CommandFailed { command, message }) => {
            assert_eq!(command, "start".to_string());
            assert_eq!(message, "exec failed".to_string());
        },
        _ => panic!("expected a command failure"),
    }
}

#[test]
fn stop_steps_cover_every_event() {
    assert!(matches!(stop_step(StopEvent::Stopped, false), StopAction::Finish));
    assert!(matches!(stop_step(StopEvent::NotFound, false), StopAction::Finish));
    assert!(matches!(stop_step(StopEvent::Running, false), StopAction::Wait));
    assert!(matches!(stop_step(StopEvent::Running, true), StopAction::ForceKill));
    let e = YoukiCliError::Io("broken pipe".to_string());
    assert!(matches!(stop_step(StopEvent::QueryFailed(e), false), StopAction::Abort(_)));
}

#[test]
fn stopping_a_gone_container_is_a_no_op() {
    // A second stop finds the container gone; the sequence still finishes
    // without an error.
    assert!(matches!(stop_step(StopEvent::NotFound, false), StopAction::Finish));
    assert!(matches!(stop_step(StopEvent::NotFound, true), StopAction::Finish));
    // And the graceful signal of that second stop is a tolerated no-op too.
    assert!(classify_kill(false, "SIGTERM", "container is not running").is_ok());
}

#[test]
fn stop_event_from_status_strings() {
    assert!(matches!(stop_event_from_status("stopped"), StopEvent::Stopped));
    assert!(matches!(stop_event_from_status("running"), StopEvent::Running));
    assert!(matches!(stop_event_from_status("created"), StopEvent::Running));
}

#[test]
fn status_resolution_prefers_live_state() {
    let id = "c-9".to_string();
    let r = resolve_status(&id, RuntimeStateQuery::Status("running".to_string()), None);
    let st = r.expect("live state resolves");
    assert_eq!(st.id, "c-9".to_string());
    assert_eq!(st.state, "running".to_string());
    assert!(st.error_message.is_none());
}

#[test]
fn status_resolution_falls_back_to_registry() {
    let id = "c-9".to_string();
    let cached = ContainerState {
        id: "c-9".to_string(),
        node_id: "n-1".to_string(),
        bundle_path: "/b".to_string(),
        status: "stopped".to_string(),
        pid: None,
    };
    let r = resolve_status(&id, RuntimeStateQuery::NotFound, Some(&cached));
    let st = r.expect("cached state resolves");
    assert_eq!(st.state, "stopped".to_string());
}

#[test]
fn status_resolution_unknown_everywhere_is_not_found() {
    let id = "ghost".to_string();
    match resolve_status(&id, RuntimeStateQuery::NotFound, None) {
        Err(OrchestrationError::RuntimeError(m)) => {
            assert_eq!(m, "Container not found: ghost".to_string());
        },
        _ => panic!("expected a not-found error"),
    }
}

#[test]
fn status_resolution_degrades_query_failures() {
    let id = "c-9".to_string();
    let r = resolve_status(&id, RuntimeStateQuery::Failed("Timeout: youki state".to_string()), None);
    let st = r.expect("a failed query degrades");
    assert_eq!(st.state, "unknown".to_string());
    assert_eq!(st.error_message, Some("Timeout: youki state".to_string()));
}

#[test]
fn listing_degrades_per_entry() {
    let err = OrchestrationError::RuntimeError("boom".to_string());
    let st = status_or_degraded("c-2".to_string(), Err(err));
    assert_eq!(st.id, "c-2".to_string());
    assert_eq!(st.state, "unknown".to_string());
    assert_eq!(st.error_message, Some("boom".to_string()));
}

#[test]
fn bundle_limits_apply_only_positive_requests() {
    let limits = plan_bundle_limits(&ResourceRequests {
        cpu_millicores: 500,
        memory_mb: 0,
        disk_mb: 0,
    });
    assert_eq!(limits.cpu_millicores, Some(500));
    assert_eq!(limits.memory_mb, None);
    let limits = plan_bundle_limits(&ResourceRequests {
        cpu_millicores: 0,
        memory_mb: 128,
        disk_mb: 0,
    });
    assert_eq!(limits.cpu_millicores, None);
    assert_eq!(limits.memory_mb, Some(128));
}

#[test]
fn generated_identifiers_differ_and_carry_the_name() {
    let a = generate_container_id("web");
    let b = generate_container_id("web");
    assert_ne!(a, b);
    assert!(a.starts_with("web-"));
    assert_eq!(a.len(), "web".len() + 37);
    assert_eq!(b.len(), "web".len() + 37);
}

#[test]
fn registry_insert_and_lookup() {
    let mut reg = Registry::new();
    reg.init_node("n-1".to_string());
    let st = ContainerState {
        id: "c-1".to_string(),
        node_id: "n-1".to_string(),
        bundle_path: "/bundles/n-1/c-1".to_string(),
        status: "running".to_string(),
        pid: None,
    };
    reg.insert_container(st);
    let got = reg.get_container(&"c-1".to_string()).expect("present");
    assert_eq!(got.status, "running".to_string());
    assert_eq!(got.node_id, "n-1".to_string());
    let ids = reg.node_container_ids(&"n-1".to_string());
    assert_eq!(ids, vec!["c-1".to_string()]);
}

#[test]
fn registry_init_node_is_idempotent() {
    let mut reg = Registry::new();
    reg.init_node("n-1".to_string());
    let st = ContainerState {
        id: "c-1".to_string(),
        node_id: "n-1".to_string(),
        bundle_path: "/b".to_string(),
        status: "running".to_string(),
        pid: None,
    };
    reg.insert_container(st);
    reg.init_node("n-1".to_string());
    assert_eq!(reg.node_container_ids(&"n-1".to_string()), vec!["c-1".to_string()]);
}

#[test]
fn registry_status_update() {
    let mut reg = Registry::new();
    let st = ContainerState {
        id: "c-1".to_string(),
        node_id: "n-1".to_string(),
        bundle_path: "/b".to_string(),
        status: "running".to_string(),
        pid: Some(42),
    };
    reg.insert_container(st);
    reg.set_container_status(&"c-1".to_string(), "stopped".to_string());
    let got = reg.get_container(&"c-1".to_string()).expect("present");
    assert_eq!(got.status, "stopped".to_string());
    assert_eq!(got.pid, Some(42));
}

#[test]
fn create_then_remove_clears_node_index() {
    // Creating a container and removing it right away leaves the node's
    // index exactly as it was, without the identifier.
    let mut reg = Registry::new();
    reg.init_node("n-1".to_string());
    let keeper = ContainerState {
        id: "c-keep".to_string(),
        node_id: "n-1".to_string(),
        bundle_path: "/b1".to_string(),
        status: "running".to_string(),
        pid: None,
    };
    reg.insert_container(keeper);
    let before = reg.node_container_ids(&"n-1".to_string());
    let st = ContainerState {
        id: "c-new".to_string(),
        node_id: "n-1".to_string(),
        bundle_path: "/b2".to_string(),
        status: "running".to_string(),
        pid: None,
    };
    reg.insert_container(st);
    let removed = reg.remove_container(&"c-new".to_string());
    assert!(removed.is_some());
    let after = reg.node_container_ids(&"n-1".to_string());
    assert_eq!(before, after);
    assert!(!after.contains(&"c-new".to_string()));
    assert!(reg.get_container(&"c-new".to_string()).is_none());
}

#[test]
fn removing_an_unknown_container_is_a_no_op() {
    let mut reg = Registry::new();
    assert!(reg.remove_container(&"ghost".to_string()).is_none());
}

#[test]
fn log_fetch_without_file_is_empty() {
    assert_eq!(fetch_logs(None, None), String::new());
    assert_eq!(fetch_logs(None, Some(5)), String::new());
}

#[test]
fn log_tail_returns_last_lines_in_order() {
    let content = "l1\nl2\nl3\nl4\nl5\nl6\nl7\nl8\nl9\nl10\n".to_string();
    assert_eq!(render_log_tail(&content, Some(3)), "l8\nl9\nl10".to_string());
    assert_eq!(fetch_logs(Some(&content), Some(3)), "l8\nl9\nl10".to_string());
}

#[test]
fn log_tail_without_limit_returns_everything() {
    let content = "a\nb\n".to_string();
    assert_eq!(render_log_tail(&content, None), "a\nb\n".to_string());
    assert_eq!(render_log_tail(&content, Some(10)), "a\nb".to_string());
}

#[test]
fn error_messages_render_like_their_display_form() {
    let e = YoukiCliError::CommandFailed {
        command: "create".to_string(),
        message: "boom".to_string(),
    };
    assert_eq!(e.message(), "Youki command failed: create - boom".to_string());
    let e = YoukiCliError::Timeout("youki state c-1".to_string());
    assert_eq!(e.message(), "Timeout: youki state c-1".to_string());
    match YoukiCliError::ContainerNotFound("c-1".to_string()).into_orchestration() {
        OrchestrationError::RuntimeError(m) => {
            assert_eq!(m, "Container not found: c-1".to_string());
        },
    }
}

#[test]
fn on_disk_paths_are_namespaced_by_identifier() {
    assert_eq!(
        bundle_path_for("/var/lib/orchestrator/bundles", "n-1", "c-1"),
        "/var/lib/orchestrator/bundles/n-1/c-1".to_string()
    );
    assert_eq!(log_file_path("/run/youki", "c-1"), "/run/youki/c-1/container.log".to_string());
    assert_eq!(cgroup_cpu_stat_path("c-1"), "/sys/fs/cgroup/youki/c-1/cpu.stat".to_string());
    assert_eq!(cgroup_memory_path("c-1"), "/sys/fs/cgroup/youki/c-1/memory.current".to_string());
}
