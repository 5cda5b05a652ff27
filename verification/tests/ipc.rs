use kitsune_engine::ipc::{
    decode_frame, encode_frame, frame_len, has_capability, required_capability, role_from_name,
    role_from_sender_id, role_may_send, validate_capability, IpcError, PayloadKind, PrivilegeLevel, ProcessCapability,
    ProcessId, ProcessRole,
};

#[test]
fn frames_roundtrip() {
    let payload = vec![1u8, 2, 3, 250];
    let frame = encode_frame(&payload);
    assert_eq!(&frame[..4], &[4, 0, 0, 0]);
    assert_eq!(frame_len([4, 0, 0, 0]), 4);
    assert_eq!(decode_frame(&frame), Some(payload));
    assert_eq!(decode_frame(&vec![9, 0, 0, 0, 1]), None);
    assert_eq!(decode_frame(&vec![0, 0]), None);
}

#[test]
fn capabilities_gate_payloads() {
    let caps = vec![ProcessCapability::DomAccess];
    assert!(has_capability(&caps, ProcessCapability::DomAccess));
    assert!(!has_capability(&caps, ProcessCapability::VaultRead));
    assert_eq!(required_capability(PayloadKind::VaultRequest), Some(ProcessCapability::VaultRead));
    assert_eq!(required_capability(PayloadKind::VaultResponse), None);
    let owner = ProcessId("renderer-1".to_string());
    assert!(validate_capability(&owner, &caps, PayloadKind::DomClick).is_ok());
    assert!(matches!(
        validate_capability(&owner, &caps, PayloadKind::VaultRequest),
        Err(IpcError::PermissionDenied { role: ProcessRole::Renderer, .. })
    ));
}

#[test]
fn roles_from_names_and_sender_ids() {
    assert_eq!(role_from_name("renderer"), ProcessRole::Renderer);
    assert_eq!(role_from_sender_id("Network"), Some(ProcessRole::Network));
    assert!(!role_may_send(ProcessRole::Renderer, PayloadKind::VaultRequest));
}

#[test]
fn unknown_sender_has_no_role() {
    assert_eq!(role_from_sender_id("network-7"), None);
    assert_eq!(role_from_sender_id("Mallory"), None);
    assert_eq!(role_from_name("JavaScript"), ProcessRole::Js);
    assert!(role_may_send(ProcessRole::Agent, PayloadKind::VaultRequest));
    assert!(!role_may_send(ProcessRole::Broker, PayloadKind::ProcessRegister));
}

use kitsune_engine::ipc::{bus_admission, bus_delivery, client_step, AuditLog, BusAdmission, ClientAction, ClientEvent};

#[test]
fn client_steps_fail_closed() {
    assert!(matches!(client_step(Some(ProcessRole::Network), ClientEvent::Received(PayloadKind::NavigateResponse)), ClientAction::Forward));
    match client_step(Some(ProcessRole::Renderer), ClientEvent::Received(PayloadKind::VaultRequest)) {
        ClientAction::Deny { code, message } => {
            assert_eq!(code, "PERMISSION_DENIED");
            assert_eq!(message, "Renderer is not permitted to send this payload type");
        }
        _ => panic!("expected a denial"),
    }
    match client_step(Some(ProcessRole::Js), ClientEvent::Closed) {
        ClientAction::Disconnect { code, message } => {
            assert_eq!(code, "EOF");
            assert_eq!(message, "Disconnected");
        }
        _ => panic!("expected a disconnect"),
    }
    assert!(matches!(client_step(Some(ProcessRole::Agent), ClientEvent::Failed), ClientAction::Stop));
}

#[test]
fn unknown_client_is_denied_everything() {
    let role = role_from_sender_id("Mallory");
    match client_step(role, ClientEvent::Received(PayloadKind::DomQueryResult)) {
        ClientAction::Deny { code, message } => {
            assert_eq!(code, "PERMISSION_DENIED");
            assert_eq!(message, "Unknown is not permitted to send this payload type");
        }
        _ => panic!("expected a denial"),
    }
}

#[test]
fn bus_rejects_unknown_ends_and_logs() {
    let none: Vec<ProcessCapability> = Vec::new();
    match bus_admission("ghost", "renderer", "DomQuery", PayloadKind::DomQuery, false, PrivilegeLevel::Sandboxed, &none, true, 7) {
        BusAdmission::RejectSender { entry, error } => {
            assert!(!entry.delivered);
            assert_eq!(entry.error.as_deref(), Some("Sender not registered"));
            assert!(matches!(error, IpcError::ProcessUnreachable { process_id } if process_id == "ghost"));
        }
        _ => panic!("expected a rejection"),
    }
    assert!(matches!(
        bus_admission("agent", "nobody", "DomQuery", PayloadKind::DomQuery, true, PrivilegeLevel::SemiPrivileged, &vec![ProcessCapability::DomAccess], false, 7),
        BusAdmission::NoTarget(IpcError::ProcessUnreachable { .. })
    ));
    assert!(matches!(bus_admission("a", "b", "x", PayloadKind::DomQueryResult, true, PrivilegeLevel::Sandboxed, &none, true, 7), BusAdmission::Deliver));
    let (entry, res) = bus_delivery("a", "b", "x", false, 9);
    assert_eq!(entry.error.as_deref(), Some("Delivery failed"));
    assert!(matches!(res, Err(IpcError::ChannelClosed)));
    let mut log = AuditLog::new();
    log.record(entry);
    let (ok_entry, ok) = bus_delivery("a", "b", "x", true, 10);
    assert!(ok.is_ok());
    log.record(ok_entry);
    assert_eq!(log.entries().len(), 2);
    assert!(log.entries()[1].delivered);
    log.clear();
    assert!(log.entries().is_empty());
}

use kitsune_engine::ipc::{highlight_step, HighlightPhase, HighlightStep, HighlightStyle};

#[test]
fn highlight_fades_in_then_settles() {
    assert_eq!(
        highlight_step(HighlightStyle::Reading, HighlightPhase::FadingIn, 100),
        HighlightStep::Keep { phase: HighlightPhase::FadingIn, restart: false }
    );
    assert_eq!(
        highlight_step(HighlightStyle::Reading, HighlightPhase::FadingIn, 200),
        HighlightStep::Keep { phase: HighlightPhase::Pulsing, restart: true }
    );
    assert_eq!(
        highlight_step(HighlightStyle::Acting, HighlightPhase::FadingIn, 250),
        HighlightStep::Keep { phase: HighlightPhase::Active, restart: true }
    );
    assert_eq!(
        highlight_step(HighlightStyle::Done, HighlightPhase::Active, 99_999),
        HighlightStep::Keep { phase: HighlightPhase::Active, restart: false }
    );
}

#[test]
fn test_highlight_done_auto_removes() {
    assert_eq!(highlight_step(HighlightStyle::Done, HighlightPhase::FadingOut, 250), HighlightStep::Remove);
    assert_eq!(
        highlight_step(HighlightStyle::Done, HighlightPhase::FadingOut, 150),
        HighlightStep::Keep { phase: HighlightPhase::FadingOut, restart: false }
    );
}

#[test]
fn bus_denies_a_sender_without_the_capability() {
    let none: Vec<ProcessCapability> = Vec::new();
    match bus_admission("renderer", "network", "NetworkFetchRequest", PayloadKind::NetworkFetchRequest, true, PrivilegeLevel::Sandboxed, &none, true, 7) {
        BusAdmission::RejectCapability { entry, error } => {
            assert!(!entry.delivered);
            assert_eq!(entry.error.as_deref(), Some("Missing capability"));
            assert!(matches!(error, IpcError::PermissionDenied { role: ProcessRole::Renderer, .. }));
        }
        _ => panic!("expected a capability denial"),
    }
    let net = vec![ProcessCapability::NetworkAccess];
    assert!(matches!(
        bus_admission("agent", "network", "NetworkFetchRequest", PayloadKind::NetworkFetchRequest, true, PrivilegeLevel::SemiPrivileged, &net, true, 7),
        BusAdmission::Deliver
    ));
    assert!(matches!(
        bus_admission("broker", "network", "NetworkFetchRequest", PayloadKind::NetworkFetchRequest, true, PrivilegeLevel::Broker, &none, true, 7),
        BusAdmission::Deliver
    ));
}

#[test]
fn screening_logs_refusals_only() {
    let none: Vec<ProcessCapability> = Vec::new();
    let mut log = AuditLog::new();
    let r = log.screen("ghost", "renderer", "DomQuery", PayloadKind::DomQuery, false, PrivilegeLevel::Sandboxed, &none, true, 5);
    assert!(matches!(r, Err(IpcError::ProcessUnreachable { ref process_id }) if process_id == "ghost"));
    assert_eq!(log.entries().len(), 1);
    assert_eq!(log.entries()[0].error.as_deref(), Some("Sender not registered"));
    let r = log.screen("renderer", "network", "NetworkFetchRequest", PayloadKind::NetworkFetchRequest, true, PrivilegeLevel::Sandboxed, &none, true, 6);
    assert!(matches!(r, Err(IpcError::PermissionDenied { .. })));
    assert_eq!(log.entries().len(), 2);
    let r = log.screen("renderer", "broker", "DomQueryResult", PayloadKind::DomQueryResult, true, PrivilegeLevel::Sandboxed, &none, true, 7);
    assert!(r.is_ok());
    assert_eq!(log.entries().len(), 2);
}
