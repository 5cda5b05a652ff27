use kitsune_engine::broker::{CrashOutcome, ProcessStatus, ProcessTable, RouteDecision};
use kitsune_engine::config::{AgentConfig, PrivacyConfig};
use kitsune_engine::ipc::{validate_capability, PayloadKind, ProcessId, ProcessRole};
use kitsune_engine::navigation::NavigationHistory;
use kitsune_engine::render::RenderPipeline;
use kitsune_engine::sandbox::{
    apply_linux_sandbox, apply_sandbox, validate_profile, FileSystemPolicy, NetworkPolicy, SandboxProfile,
};
use kitsune_engine::tab::{close_tab, favicon_color_for, new_tab, Tab, TabState};

#[test]
fn empty_history_cannot_go_forward() {
    let history = NavigationHistory::new();
    assert!(!history.can_go_forward());
}

#[test]
fn empty_navigation_history_cannot_go_forward() {
    let history = NavigationHistory::new();
    assert!(!history.can_go_forward());
}

#[test]
fn navigation_history_pushes_large_sequences_quickly() {
    let mut history = NavigationHistory::new();
    let start = std::time::Instant::now();

    for i in 0..1_000 {
        history.push(format!("https://example.com/page/{i}"), format!("Page {i}"));
    }

    assert!(history.current().is_some());
    assert!(
        start.elapsed().as_millis() < 1_000,
        "history push path regressed past 1s in debug"
    );
}

#[test]
fn back_and_forward_walk_the_history() {
    let mut h = NavigationHistory::new();
    h.push_at("https://a".to_string(), "A".to_string(), 1);
    h.push_at("https://b".to_string(), "B".to_string(), 2);
    h.push_at("https://c".to_string(), "C".to_string(), 3);
    assert_eq!(h.back().unwrap().url, "https://b");
    assert_eq!(h.back().unwrap().url, "https://a");
    assert!(h.back().is_none());
    assert!(h.can_go_forward());
    assert_eq!(h.forward().unwrap().url, "https://b");
    // Pushing while back in history drops the forward entries.
    h.push_at("https://d".to_string(), "D".to_string(), 4);
    assert!(!h.can_go_forward());
    assert!(h.forward().is_none());
    assert_eq!(h.current().unwrap().title, "D");
    assert_eq!(h.back().unwrap().url, "https://b");
}

#[test]
fn push_state_replaces_or_pushes() {
    let mut h = NavigationHistory::new();
    h.push_state("https://a".to_string(), "A".to_string());
    assert_eq!(h.current().unwrap().url, "https://a");
}

#[test]
fn tab_strip_open_and_close() {
    let mut tabs: Vec<Tab> = Vec::new();
    let first = new_tab(&mut tabs);
    let second = new_tab(&mut tabs);
    assert_eq!(first, 0);
    assert_eq!(second, 1);
    close_tab(&mut tabs, first);
    assert_eq!(tabs.len(), 1);
    close_tab(&mut tabs, 5);
    assert_eq!(tabs.len(), 1);
    for _ in 0..200 {
        new_tab(&mut tabs);
    }
    assert_eq!(tabs.len(), 201);
}

#[test]
fn tab_navigation_states() {
    let mut tab = Tab::new(3, "New Tab".to_string());
    assert_eq!(tab.state, TabState::Blank);
    tab.navigate("https://example.com");
    assert_eq!(tab.url.as_deref(), Some("https://example.com"));
    assert_eq!(tab.state, TabState::Loading);
    assert!(tab.is_loading);
    assert_eq!(tab.favicon_color, Some(favicon_color_for("https://example.com")));
    tab.loaded("Example".to_string());
    assert_eq!(tab.state, TabState::Loaded);
    assert!(!tab.is_loading);
    tab.error();
    assert_eq!(tab.state, TabState::Error);
    // "ab" sums to 97 + 98 = 195.
    assert_eq!(favicon_color_for("ab"), [0, 0, 195]);
}

#[test]
fn test_renderer_profile() {
    let profile = SandboxProfile::renderer();
    assert_eq!(profile.memory_limit_bytes, 1024 * 1024 * 1024);

    let res = apply_sandbox(&profile);
    assert!(res.is_ok());
}

#[test]
fn builtin_profiles() {
    let m = SandboxProfile::maximum_restriction();
    assert!(matches!(m.allow_filesystem, FileSystemPolicy::NoAccess));
    assert!(matches!(m.allow_network, NetworkPolicy::NoAccess));
    assert!(!m.allow_process_spawn);
    assert!(validate_profile(&m).is_empty());
    assert!(!SandboxProfile::network_process().allow_process_spawn);
    assert!(!SandboxProfile::agent().allow_process_spawn);
    assert!(!SandboxProfile::js_engine().allow_process_spawn);
    assert!(apply_linux_sandbox(&m).is_ok());
    let mut loose = SandboxProfile::renderer();
    loose.allow_process_spawn = true;
    assert!(!validate_profile(&loose).is_empty());
}

#[test]
fn crash_policy_gives_up_after_three_quick_crashes() {
    let mut t = ProcessTable::new();
    assert_eq!(t.handle_crash(ProcessRole::Renderer, 0), CrashOutcome::NotRegistered);
    t.register_mock(ProcessRole::Renderer);
    assert!(t.is_running(ProcessRole::Renderer));
    assert_eq!(t.handle_crash(ProcessRole::Renderer, 1_000), CrashOutcome::Respawn { attempt: 1 });
    assert_eq!(t.status(ProcessRole::Renderer), Some(ProcessStatus::Crashed));
    t.mark_ready(ProcessRole::Renderer);
    assert!(t.is_running(ProcessRole::Renderer));
    assert_eq!(t.handle_crash(ProcessRole::Renderer, 2_000), CrashOutcome::Respawn { attempt: 2 });
    assert_eq!(t.handle_crash(ProcessRole::Renderer, 3_000), CrashOutcome::Unrecoverable { crashes: 3 });
    assert_eq!(t.status(ProcessRole::Renderer), Some(ProcessStatus::Unrecoverable));
}

#[test]
fn spaced_crashes_restart_the_count() {
    let mut t = ProcessTable::new();
    t.register_mock(ProcessRole::Network);
    assert_eq!(t.handle_crash(ProcessRole::Network, 0), CrashOutcome::Respawn { attempt: 1 });
    assert_eq!(t.handle_crash(ProcessRole::Network, 61_000), CrashOutcome::Respawn { attempt: 1 });
}

#[test]
fn routing_goes_to_registered_children() {
    let mut t = ProcessTable::new();
    assert!(matches!(t.route(PayloadKind::DomQuery), RouteDecision::NotRegistered(ProcessRole::Renderer)));
    t.register_mock(ProcessRole::Renderer);
    assert!(matches!(t.route(PayloadKind::DomQuery), RouteDecision::Deliver(ProcessRole::Renderer)));
}

#[test]
fn configs_and_render_pipeline_defaults() {
    let p = PrivacyConfig::default();
    assert!(p.block_trackers);
    let _a = AgentConfig::default();
    let r = RenderPipeline::new();
    assert!(r.is_initialized());
    assert!(r.render(3));
}

#[test]
fn unroutable_payloads_go_to_the_ui() {
    let t = ProcessTable::new();
    assert!(matches!(t.route(PayloadKind::VaultResponse), RouteDecision::ToUi));
}

use kitsune_engine::broker::{spawn_arg, unrecoverable_reason, BrokerAction, BrokerEvent};

#[test]
fn broker_loop_steps() {
    let mut t = ProcessTable::new();
    t.register(ProcessRole::Renderer, ProcessStatus::Starting);
    assert_eq!(
        t.on_event(BrokerEvent::FromChild { role: ProcessRole::Agent, kind: PayloadKind::DomClick }, 0),
        BrokerAction::Route(RouteDecision::NotRunning(ProcessRole::Renderer))
    );
    assert_eq!(t.on_event(BrokerEvent::ProcessReady(ProcessRole::Renderer), 0), BrokerAction::Idle);
    assert!(t.is_running(ProcessRole::Renderer));
    assert_eq!(
        t.on_event(BrokerEvent::ProcessExited(ProcessRole::Renderer), 5),
        BrokerAction::Crash(CrashOutcome::Respawn { attempt: 1 })
    );
    assert_eq!(spawn_arg(ProcessRole::Js).as_deref(), Some("--role=js"));
    assert_eq!(spawn_arg(ProcessRole::Broker), None);
    assert_eq!(
        unrecoverable_reason(ProcessRole::Network, 3),
        "Network process crashed 3 times and is unrecoverable"
    );
}

use kitsune_engine::engine::EngineState;

#[test]
fn engine_starts_in_stopped_state() {
    let engine = EngineState::new();
    assert!(!engine.is_running());
    assert!(engine.tabs.is_empty());
}

#[test]
fn close_tab_removes_requested_entry() {
    let mut engine = EngineState::new();
    let first = engine.new_tab();
    let second = engine.new_tab();
    assert_eq!(first, 0);
    assert_eq!(second, 1);
    engine.close_tab(first);
    assert_eq!(engine.tabs.len(), 1);
    assert_eq!(engine.tabs[0].id, 1);
    engine.close_tab(7);
    assert_eq!(engine.tabs.len(), 1);
}

#[test]
fn opening_many_tabs_remains_linear_and_stable() {
    let mut engine = EngineState::new();
    let start = std::time::Instant::now();
    for _ in 0..200 {
        engine.new_tab();
    }
    assert_eq!(engine.tabs.len(), 200);
    assert!(start.elapsed().as_millis() < 1_000, "tab allocation regressed past 1s in debug");
    assert_eq!(engine.tabs[199].id, 199);
}

#[test]
fn navigate_marks_existing_tab_as_loading() {
    let mut engine = EngineState::new();
    let tab_id = engine.new_tab();
    engine.navigate(tab_id, "https://example.com");
    let tab = &engine.tabs[tab_id];
    assert_eq!(tab.url.as_deref(), Some("https://example.com"));
    assert_eq!(tab.state, TabState::Loading);
    assert!(tab.is_loading);
}

#[test]
fn engine_state_start_navigate_shutdown() {
    let mut engine = EngineState::new();
    engine.start();
    assert!(engine.is_running());
    assert_eq!(engine.tabs.len(), 1);
    assert_eq!(engine.tabs[0].title, "New Tab");
    let id = engine.new_tab();
    engine.navigate(id, "https://example.com");
    assert_eq!(engine.tabs[id].url.as_deref(), Some("https://example.com"));
    assert_eq!(engine.tabs[id].state, TabState::Loading);
    assert!(engine.tabs[id].is_loading);
    assert_eq!(engine.tabs[0].state, TabState::Blank);
    engine.navigate(9, "https://x.test");
    engine.shutdown();
    assert!(!engine.is_running());
    assert!(engine.tabs.is_empty());
}

#[test]
fn test_mock_process_starts_as_running() {
    let mut pm = ProcessTable::new();
    pm.register_mock(ProcessRole::Renderer);
    assert_eq!(pm.status(ProcessRole::Renderer), Some(ProcessStatus::Running));
    assert!(pm.is_running(ProcessRole::Renderer));
}

#[test]
fn test_route_to_renderer_succeeds() {
    let mut pm = ProcessTable::new();
    pm.register_mock(ProcessRole::Renderer);
    assert!(matches!(pm.route(PayloadKind::SetDomHighlight), RouteDecision::Deliver(ProcessRole::Renderer)));
}

#[test]
fn test_capability_violation_rejected_by_channel() {
    let renderer = ProcessId("renderer".to_string());
    let no_capabilities = Vec::new();
    assert!(
        validate_capability(&renderer, &no_capabilities, PayloadKind::VaultRequest).is_err(),
        "VaultRequest from unprivileged channel must be rejected"
    );
}

#[test]
fn test_crash_increments_count() {
    let mut pm = ProcessTable::new();
    pm.register_mock(ProcessRole::Renderer);
    assert_eq!(pm.handle_crash(ProcessRole::Renderer, 0), CrashOutcome::Respawn { attempt: 1 });
    assert_eq!(pm.handle_crash(ProcessRole::Renderer, 10), CrashOutcome::Respawn { attempt: 2 });
}

#[test]
fn test_ui_channel_receives_unroutable_message() {
    let pm = ProcessTable::new();
    assert!(matches!(pm.route(PayloadKind::ProcessShutdown), RouteDecision::ToUi));
}
