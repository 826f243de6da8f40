use hamboard::ca::{ca_start, ca_step, CaAction, CaEvent, CaPhase};
use hamboard::toolkit::ToolkitCmd;

fn modulus(text: &str, success: bool) -> CaEvent {
    CaEvent::ModulusRead {
        success,
        modulus: text.as_bytes().to_vec(),
    }
}

#[test]
fn bootstrap_starts_by_checking_the_key() {
    let (phase, action) = ca_start();
    assert!(matches!(phase, CaPhase::CheckKey));
    assert!(matches!(action, CaAction::Run(ToolkitCmd::CaKeyModulus)));
}

#[test]
fn idempotent_bootstrap_regenerates_nothing() {
    let (phase, _) = ca_start();
    let (phase, action) = ca_step(phase, modulus("Modulus=ABCD", true));
    assert!(matches!(phase, CaPhase::CheckCert { .. }));
    assert!(matches!(action, CaAction::Run(ToolkitCmd::AnchorCertModulus)));
    let (phase, action) = ca_step(phase, modulus("Modulus=ABCD", true));
    assert!(matches!(phase, CaPhase::Ready { regenerated: false }));
    assert!(matches!(action, CaAction::Report));
}

fn expect_full_regeneration(phase: CaPhase, action: CaAction) {
    assert!(matches!(phase, CaPhase::GenKey));
    assert!(matches!(action, CaAction::Run(ToolkitCmd::GenCaKey)));
    let (phase, action) = ca_step(phase, CaEvent::CmdStatus { success: true });
    assert!(matches!(phase, CaPhase::GenCert));
    match action {
        CaAction::Run(ToolkitCmd::GenCaCert { subject }) => {
            assert_eq!(subject, "/CN=127.0.0.1");
        }
        _ => panic!("expected the self-signing command"),
    }
    let (phase, action) = ca_step(phase, CaEvent::CmdStatus { success: true });
    assert!(matches!(phase, CaPhase::ComposeAnchor));
    assert!(matches!(action, CaAction::ReadAnchorParts));
    let (phase, action) = ca_step(
        phase,
        CaEvent::AnchorParts {
            ok: true,
            local_cert: b"LOCAL CERT\n".to_vec(),
            upstream_root: b"UPSTREAM ROOT\n".to_vec(),
        },
    );
    assert!(matches!(phase, CaPhase::WriteAnchor));
    match action {
        CaAction::WriteAnchor { contents } => {
            // Order matters: the local certificate stands first.
            assert_eq!(contents, b"LOCAL CERT\nUPSTREAM ROOT\n".to_vec());
        }
        _ => panic!("expected the anchor write"),
    }
    let (phase, action) = ca_step(phase, CaEvent::AnchorWritten { ok: true });
    assert!(matches!(phase, CaPhase::Ready { regenerated: true }));
    assert!(matches!(action, CaAction::Report));
}

#[test]
fn missing_key_triggers_regeneration() {
    let (phase, _) = ca_start();
    let (phase, action) = ca_step(phase, modulus("", false));
    expect_full_regeneration(phase, action);
}

#[test]
fn unreadable_certificate_triggers_regeneration() {
    let (phase, _) = ca_start();
    let (phase, _) = ca_step(phase, modulus("Modulus=ABCD", true));
    let (phase, action) = ca_step(phase, modulus("", false));
    expect_full_regeneration(phase, action);
}

#[test]
fn modulus_mismatch_triggers_regeneration() {
    let (phase, _) = ca_start();
    let (phase, _) = ca_step(phase, modulus("Modulus=ABCD", true));
    let (phase, action) = ca_step(phase, modulus("Modulus=OTHER", true));
    expect_full_regeneration(phase, action);
}

#[test]
fn failed_key_generation_is_fatal() {
    let (phase, _) = ca_start();
    let (phase, _) = ca_step(phase, modulus("", false));
    let (phase, action) = ca_step(phase, CaEvent::CmdStatus { success: false });
    assert!(matches!(phase, CaPhase::Failed));
    assert!(matches!(action, CaAction::Report));
    // Nothing moves the machine out of the fatal state.
    let (phase, action) = ca_step(phase, CaEvent::CmdStatus { success: true });
    assert!(matches!(phase, CaPhase::Failed));
    assert!(matches!(action, CaAction::Report));
}

#[test]
fn missing_upstream_root_is_fatal() {
    let (phase, _) = ca_start();
    let (phase, _) = ca_step(phase, modulus("", false));
    let (phase, _) = ca_step(phase, CaEvent::CmdStatus { success: true });
    let (phase, _) = ca_step(phase, CaEvent::CmdStatus { success: true });
    let (phase, action) = ca_step(
        phase,
        CaEvent::AnchorParts {
            ok: false,
            local_cert: Vec::new(),
            upstream_root: Vec::new(),
        },
    );
    assert!(matches!(phase, CaPhase::Failed));
    assert!(matches!(action, CaAction::Report));
}

#[test]
fn failed_anchor_write_is_fatal() {
    let (phase, _) = ca_start();
    let (phase, _) = ca_step(phase, modulus("", false));
    let (phase, _) = ca_step(phase, CaEvent::CmdStatus { success: true });
    let (phase, _) = ca_step(phase, CaEvent::CmdStatus { success: true });
    let (phase, _) = ca_step(
        phase,
        CaEvent::AnchorParts {
            ok: true,
            local_cert: b"A".to_vec(),
            upstream_root: b"B".to_vec(),
        },
    );
    let (phase, action) = ca_step(phase, CaEvent::AnchorWritten { ok: false });
    assert!(matches!(phase, CaPhase::Failed));
    assert!(matches!(action, CaAction::Report));
}

#[test]
fn ready_state_absorbs_further_events() {
    let (phase, _) = ca_start();
    let (phase, _) = ca_step(phase, modulus("Modulus=X", true));
    let (phase, _) = ca_step(phase, modulus("Modulus=X", true));
    let (phase, action) = ca_step(phase, CaEvent::CmdStatus { success: false });
    assert!(matches!(phase, CaPhase::Ready { regenerated: false }));
    assert!(matches!(action, CaAction::Report));
}
