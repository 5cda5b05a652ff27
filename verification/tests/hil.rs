use kitsune_engine::hil::{
    audit_entry, settle_decision, test_mode_approval, ActionId, ApprovalDecision, ConfirmationSeverity,
    CredentialType, FieldSummary, HilApproval, HilAuditLog, HilError, HilPresentation, HilTriggerClass,
    Money, PricingInfo,
};

fn decision(approved: bool, note: Option<&str>) -> ApprovalDecision {
    ApprovalDecision { approved, user_note: note.map(|s| s.to_string()), decided_at_ms: 1_700_000_000_000 }
}

#[test]
fn test_approval_consume_success() {
    let action_id = ActionId::new();
    let approval = HilApproval::new(action_id.clone(), decision(true, None));

    assert!(approval.is_valid());
    let result = approval.consume(&action_id);
    assert!(result.is_ok());
    assert!(result.unwrap().approved);
}

#[test]
fn test_approval_wrong_action() {
    let action_id = ActionId::new();
    let wrong_action = ActionId::new();
    let approval = HilApproval::new(action_id, decision(true, None));

    let result = approval.consume(&wrong_action);
    assert!(matches!(result, Err(HilError::ApprovalMismatch { .. })));
}

#[test]
fn test_approval_not_cloneable() {
    // HilApproval has no Clone impl: consuming it moves it, so each
    // approval is used at most once.
}

#[test]
fn captcha_required_summary_contains_site() {
    let t = HilTriggerClass::CaptchaRequired {
        site: "daad.de".into(),
        captcha_type: "recaptcha-v2".into(),
    };
    let s = t.plain_language_summary();
    assert!(s.contains("daad.de"), "summary: {s}");
    assert!(s.contains("CAPTCHA"), "summary: {s}");
}

#[test]
fn approval_expires_after_thirty_seconds() {
    let id = ActionId(7);
    let t = 1_000_000;
    let a = HilApproval::new_at(id, decision(true, None), t);
    assert_eq!(a.expires_at(), t + 30_000);
    assert!(a.is_valid_at(t + 30_000));
    assert!(!a.is_valid_at(t + 30_001));
    assert_eq!(a.time_remaining_at(t + 10_000), 20_000);
    assert!(a.consume_at(&id, t + 30_000).is_ok());
    let b = HilApproval::new_at(id, decision(true, None), t);
    assert!(matches!(b.consume_at(&id, t + 30_001), Err(HilError::ApprovalExpired)));
}

#[test]
fn mismatch_names_both_actions() {
    let a = HilApproval::new_at(ActionId(1), decision(true, None), 0);
    match a.consume_at(&ActionId(2), 0) {
        Err(HilError::ApprovalMismatch { expected, actual }) => {
            assert_eq!(expected, "00000000-0000-0000-0000-000000000002");
            assert_eq!(actual, "00000000-0000-0000-0000-000000000001");
        }
        _ => panic!("expected a mismatch"),
    }
    assert_eq!(ActionId(255).to_string(), "00000000-0000-0000-0000-0000000000ff");
    let b = HilApproval::new_at(ActionId(5), decision(true, None), 0);
    assert_eq!(*b.action_id(), ActionId(5));
}

#[test]
fn money_display_formats() {
    assert_eq!(Money::new(1234, "USD").display(), "$12.34");
    assert_eq!(Money::new(5, "EUR").display(), "€0.05");
    assert_eq!(Money::new(-1234, "GBP").display(), "£-12.34");
    assert_eq!(Money::new(-5, "JPY").display(), "¥-0.05");
    assert_eq!(Money::new(-5, "USD").display(), "$-0.05");
    assert_eq!(Money::new(-150, "USD").display(), "$-1.50");
    assert_eq!(Money::new(1999, "CHF").display(), "CHF19.99");
    assert_eq!(Money::new(100, "CHF").display(), "CHF1.00");
}

#[test]
fn summaries_of_each_trigger() {
    let pay = HilTriggerClass::FinancialFormSubmission {
        institution: "Test Bank".to_string(),
        amount: Some(Money::new(1234, "USD")),
        fields_involved: vec![],
    };
    assert_eq!(pay.plain_language_summary(), "Send a payment of $12.34 to Test Bank");
    assert!(pay.involves_money());
    let side = HilTriggerClass::ExternalSideEffect { description: "Delete files".to_string(), reversible: false };
    assert_eq!(side.plain_language_summary(), "Delete files (cannot be undone)");
    assert!(!side.involves_money());
    let acct = HilTriggerClass::AccountCreation { service: "S".to_string(), implied_cost: None, terms_url: None };
    assert!(!acct.involves_money());
}

#[test]
fn presentation_for_financial_submission() {
    let trigger = HilTriggerClass::FinancialFormSubmission {
        institution: "Test Bank".to_string(),
        amount: Some(Money::new(1234, "USD")),
        fields_involved: vec![FieldSummary {
            label: "Card number".to_string(),
            data_type: "credit card".to_string(),
            is_sensitive: true,
        }],
    };
    let p = HilPresentation::from_trigger(&trigger, &["email".to_string()]);
    assert_eq!(p.what_will_happen, "Your assistant wants to send $12.34 to Test Bank");
    assert_eq!(p.domain_or_service, "Test Bank");
    assert_eq!(p.data_involved, vec!["email".to_string(), "Card number".to_string()]);
    assert_eq!(p.cost_display.as_deref(), Some("$12.34"));
    assert!(!p.is_reversible);
    assert_eq!(p.countdown_seconds, 5);
    assert_eq!(p.severity, ConfirmationSeverity::Critical);
}

#[test]
fn presentation_for_other_triggers() {
    let acct = HilTriggerClass::AccountCreation {
        service: "Svc".to_string(),
        implied_cost: Some(PricingInfo {
            description: "$5/month".to_string(),
            monthly_cost: None,
            one_time_cost: None,
            has_free_trial: false,
            trial_days: None,
        }),
        terms_url: Some("https://svc.example/terms".to_string()),
    };
    let p = HilPresentation::from_trigger(&acct, &[]);
    assert_eq!(p.severity, ConfirmationSeverity::High);
    assert_eq!(p.alternatives, vec![
        "Create the account yourself".to_string(),
        "Read the terms first: https://svc.example/terms".to_string(),
    ]);
    let auth = HilTriggerClass::NewAuthenticationSite {
        domain: "site.example".to_string(),
        credential_type: CredentialType::ApiKey,
    };
    let p = HilPresentation::from_trigger(&auth, &[]);
    assert_eq!(p.what_will_happen, "Your assistant wants to sign in to site.example using an API key");
    assert_eq!(p.severity, ConfirmationSeverity::Medium);
    let exec = HilTriggerClass::ExecutionRequest {
        source: "https://downloads.example.org/tool.exe".to_string(),
        description: "a tool".to_string(),
    };
    let p = HilPresentation::from_trigger(&exec, &[]);
    assert_eq!(p.domain_or_service, "downloads.example.org");
    assert_eq!(p.severity, ConfirmationSeverity::Critical);
    let msg = HilTriggerClass::CommunicationOnBehalf {
        channel: "email".to_string(),
        recipient_summary: "Bob".to_string(),
        content_preview: "Hi".to_string(),
    };
    let p = HilPresentation::from_trigger(&msg, &["contacts".to_string()]);
    assert_eq!(p.data_involved, vec!["contacts".to_string(), "Message preview: Hi".to_string()]);
    let side = HilTriggerClass::ExternalSideEffect { description: "x".to_string(), reversible: true };
    let p = HilPresentation::from_trigger(&side, &[]);
    assert_eq!(p.severity, ConfirmationSeverity::Medium);
    assert!(p.is_reversible);
}

#[test]
fn test_mode_gate_auto_approves() {
    let id = ActionId(42);
    let auto = test_mode_approval(id, 5);
    assert_eq!(auto.decision.user_note.as_deref(), Some("Auto-approved in test mode"));
    assert!(auto.is_valid_at(5));
}

#[test]
fn test_hil_gate_approval_flow() {
    let trigger = HilTriggerClass::FinancialFormSubmission {
        institution: "Test Bank".to_string(),
        amount: Some(Money::new(1234, "USD")),
        fields_involved: vec![],
    };
    let presentation = HilPresentation::from_trigger(&trigger, &["email".to_string()]);
    assert!(!presentation.what_will_happen.is_empty());
    let result = settle_decision(ActionId(42), decision(true, Some("Looks good")), 10);
    assert!(result.is_ok());
    let approval = result.unwrap();
    assert!(approval.is_valid_at(10));
}

#[test]
fn test_hil_gate_rejection_flow() {
    let id = ActionId(42);
    match settle_decision(id, decision(false, Some("Too risky")), 10) {
        Err(HilError::UserRejected { reason }) => assert_eq!(reason, "Too risky"),
        _ => panic!("expected a rejection"),
    }
    match settle_decision(id, decision(false, None), 10) {
        Err(HilError::UserRejected { reason }) => assert_eq!(reason, "No reason provided"),
        _ => panic!("expected a rejection"),
    }
}

#[test]
fn test_hil_audit_log() {
    let id = ActionId(42);
    let trigger = HilTriggerClass::ExternalSideEffect { description: "Test action".to_string(), reversible: true };
    let entry = audit_entry(id, &trigger, &decision(true, None), 1_000, 1_250);
    assert_eq!(entry.decision_time_ms, 250);
    assert_eq!(entry.action_summary, "Test action (can be undone)");
    let mut log = HilAuditLog::new();
    log.record(entry);
    assert_eq!(log.entries().len(), 1);
    assert!(log.entries()[0].approved);
    log.clear();
    assert!(log.entries().is_empty());
}

#[test]
fn fresh_identifiers_are_version_4_uuids() {
    for _ in 0..16 {
        let a = ActionId::new();
        assert_eq!(a.0 & 0xF000C000000000000000u128, 0x40008000000000000000u128);
        let c = kitsune_engine::ipc::CorrelationId::new();
        assert_eq!(c.0 & 0xF000C000000000000000u128, 0x40008000000000000000u128);
    }
}

#[test]
fn action_ids_print_as_hyphenated_lowercase_uuids() {
    let id = ActionId(0x0123456789ABCDEF0123456789ABCDEFu128);
    assert_eq!(id.to_string(), "01234567-89ab-cdef-0123-456789abcdef");
    assert_eq!(ActionId(0).to_string(), "00000000-0000-0000-0000-000000000000");
}

#[test]
fn deciding_logs_once_and_settles() {
    let mut log = HilAuditLog::new();
    let trigger = HilTriggerClass::ExternalSideEffect { description: "Test action".to_string(), reversible: true };
    let ok = log.decide(ActionId(7), &trigger, decision(true, None), 1_000, 1_200);
    assert!(ok.unwrap().is_valid_at(1_200));
    let no = log.decide(ActionId(8), &trigger, decision(false, Some("Too risky")), 1_000, 1_300);
    assert!(matches!(no, Err(HilError::UserRejected { reason }) if reason == "Too risky"));
    assert_eq!(log.entries().len(), 2);
    assert!(log.entries()[0].approved && !log.entries()[1].approved);
}
