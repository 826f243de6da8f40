use hamboard::identity::User;
use hamboard::issuance::{
    make_scratch_paths, nickname_ok, visitor_subject, IssuanceRun, IssueAction, IssueEvent,
    IssuePhase,
};
use hamboard::toolkit::ToolkitCmd;

#[test]
fn subject_embeds_the_nickname() {
    assert_eq!(
        visitor_subject("Alice"),
        "/1.3.6.1.4.1.12348.1.1=FAKE/CN=Alice (Visitor)/emailAddress=fake@example.com"
    );
}

#[test]
fn subject_parses_back_as_synthetic_identity() {
    let subject = visitor_subject("Alice");
    let u = User::parse(&subject).expect("the issued subject is a well-formed DN");
    assert_eq!(u.callsign, "FAKE");
    assert_eq!(u.display_name, "Alice (Visitor)");
    assert_eq!(u.email, "fake@example.com");
}

#[test]
fn nickname_validation() {
    assert!(nickname_ok("Alice"));
    assert!(nickname_ok("k6 ~ visitor!"));
    assert!(nickname_ok(""));
    assert!(!nickname_ok("a/b"));
    assert!(!nickname_ok("a=b"));
    assert!(!nickname_ok("a\nb"));
    assert!(!nickname_ok("a\tb"));
    assert!(!nickname_ok("a\u{7f}b"));
}

#[test]
fn injection_attempt_is_rejected_before_any_command() {
    assert!(IssuanceRun::start("Eve/CN=Admin", "scratch").is_none());
    assert!(IssuanceRun::start("Eve=root", "scratch").is_none());
}

#[test]
fn scratch_paths_follow_the_prefix() {
    let p = make_scratch_paths("work/issue-7");
    assert_eq!(p.key_path, "work/issue-7.key");
    assert_eq!(p.csr_path, "work/issue-7.csr");
    assert_eq!(p.cert_path, "work/issue-7.pem");
    assert_eq!(p.bundle_path, "work/issue-7.p12");
}

#[test]
fn concurrent_scratch_spaces_are_isolated() {
    let a = make_scratch_paths("issue-1");
    let b = make_scratch_paths("issue-2");
    let of_a = [&a.key_path, &a.csr_path, &a.cert_path, &a.bundle_path];
    let of_b = [&b.key_path, &b.csr_path, &b.cert_path, &b.bundle_path];
    for x in of_a.iter() {
        for y in of_b.iter() {
            assert_ne!(x, y);
        }
    }
    // And within one issuance the four files are pairwise distinct.
    for (i, x) in of_a.iter().enumerate() {
        for (j, y) in of_a.iter().enumerate() {
            if i != j {
                assert_ne!(x, y);
            }
        }
    }
}

#[test]
fn successful_issuance_walks_all_steps() {
    let (mut run, action) =
        IssuanceRun::start("Alice", "scratch/issue-1").expect("a plain nickname is accepted");
    assert_eq!(run.phase, IssuePhase::GenKey);
    match action {
        IssueAction::Run(ToolkitCmd::GenClientKey { key_path }) => {
            assert_eq!(key_path, "scratch/issue-1.key");
        }
        _ => panic!("expected key generation first"),
    }

    let action = run.step(IssueEvent::CmdStatus { success: true });
    assert_eq!(run.phase, IssuePhase::Csr);
    match action {
        IssueAction::Run(ToolkitCmd::ClientCsr {
            key_path,
            csr_path,
            subject,
        }) => {
            assert_eq!(key_path, "scratch/issue-1.key");
            assert_eq!(csr_path, "scratch/issue-1.csr");
            assert_eq!(subject, visitor_subject("Alice"));
        }
        _ => panic!("expected the signing request next"),
    }

    let action = run.step(IssueEvent::CmdStatus { success: true });
    assert_eq!(run.phase, IssuePhase::Sign);
    match action {
        IssueAction::Run(ToolkitCmd::SignClientCert {
            csr_path,
            cert_path,
        }) => {
            assert_eq!(csr_path, "scratch/issue-1.csr");
            assert_eq!(cert_path, "scratch/issue-1.pem");
        }
        _ => panic!("expected the signing step next"),
    }

    let action = run.step(IssueEvent::CmdStatus { success: true });
    assert_eq!(run.phase, IssuePhase::Package);
    match action {
        IssueAction::Run(ToolkitCmd::Pkcs12 {
            key_path,
            cert_path,
            out_path,
        }) => {
            assert_eq!(key_path, "scratch/issue-1.key");
            assert_eq!(cert_path, "scratch/issue-1.pem");
            assert_eq!(out_path, "scratch/issue-1.p12");
        }
        _ => panic!("expected the packaging step next"),
    }

    let action = run.step(IssueEvent::CmdStatus { success: true });
    assert_eq!(run.phase, IssuePhase::ReadBack);
    match action {
        IssueAction::ReadBundle { path } => {
            assert_eq!(path, "scratch/issue-1.p12");
        }
        _ => panic!("expected the archive to be read back"),
    }

    let action = run.step(IssueEvent::BundleRead {
        ok: true,
        bytes: b"PKCS12 BYTES".to_vec(),
    });
    assert_eq!(run.phase, IssuePhase::Issued);
    match action {
        IssueAction::Deliver { bundle } => {
            assert_eq!(bundle, b"PKCS12 BYTES".to_vec());
        }
        _ => panic!("expected the bundle to be delivered"),
    }
}

#[test]
fn any_failed_step_aborts_without_a_bundle() {
    let (mut run, _) = IssuanceRun::start("Bob", "scratch/issue-2").expect("accepted");
    let _ = run.step(IssueEvent::CmdStatus { success: true });
    let _ = run.step(IssueEvent::CmdStatus { success: true });
    let action = run.step(IssueEvent::CmdStatus { success: false });
    assert_eq!(run.phase, IssuePhase::Failed);
    assert!(matches!(action, IssueAction::Report));
    // The pipeline stays failed; nothing is ever delivered from here.
    let action = run.step(IssueEvent::CmdStatus { success: true });
    assert_eq!(run.phase, IssuePhase::Failed);
    assert!(matches!(action, IssueAction::Report));
}

#[test]
fn empty_archive_is_never_delivered() {
    let (mut run, _) = IssuanceRun::start("Cleo", "scratch/issue-3").expect("accepted");
    for _ in 0..4 {
        let _ = run.step(IssueEvent::CmdStatus { success: true });
    }
    let action = run.step(IssueEvent::BundleRead {
        ok: true,
        bytes: Vec::new(),
    });
    assert_eq!(run.phase, IssuePhase::Failed);
    assert!(matches!(action, IssueAction::Report));
}

#[test]
fn failed_read_back_is_reported() {
    let (mut run, _) = IssuanceRun::start("Dan", "scratch/issue-4").expect("accepted");
    for _ in 0..4 {
        let _ = run.step(IssueEvent::CmdStatus { success: true });
    }
    let action = run.step(IssueEvent::BundleRead {
        ok: false,
        bytes: Vec::new(),
    });
    assert_eq!(run.phase, IssuePhase::Failed);
    assert!(matches!(action, IssueAction::Report));
}
