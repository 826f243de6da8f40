//! Bootstrapping the local certificate authority.
//!
//! At process start, before any request is served, the deployment's trust
//! store is checked: the local authority's private key and the leading
//! certificate of the combined trust anchor must have byte-identical
//! moduli. When they do, the existing authority is reused untouched. When
//! anything is missing or inconsistent, a fresh key and self-signed
//! certificate are generated and the combined trust anchor — local
//! certificate first, then the upstream root — is rewritten atomically.
//! A failure while *checking* merely triggers regeneration; a failure while
//! *generating* is fatal and the process must not begin serving.
//!
//! The decisions live here as a state machine: [`ca_start`] and [`ca_step`]
//! say which [`ToolkitCmd`] or file operation comes next, and the
//! surrounding binary performs it and reports the outcome as a [`CaEvent`].

use vstd::prelude::*;
use vstd::string::*;
use crate::toolkit::ToolkitCmd;

verus! {

/// Subject of the local authority's self-signed certificate.
pub open spec fn ca_subject() -> Seq<char> {
    "/CN=127.0.0.1"@
}

/// Where the bootstrap stands between two outcomes.
pub enum CaPhase {
    /// Waiting for the modulus of the existing private key.
    CheckKey,
    /// Waiting for the modulus of the existing certificate; the key's
    /// modulus is kept for comparison.
    CheckCert { key_modulus: Vec<u8> },
    /// Waiting for the outcome of generating a fresh private key.
    GenKey,
    /// Waiting for the outcome of self-signing the fresh certificate.
    GenCert,
    /// Waiting for the two certificate files that make up the trust anchor.
    ComposeAnchor,
    /// Waiting for the atomic write of the combined trust anchor.
    WriteAnchor,
    /// The authority is in place. `regenerated` tells whether it was built
    /// on this run or found valid and reused.
    Ready { regenerated: bool },
    /// A generation step failed: fatal, the process must not serve.
    Failed,
}

/// What the surrounding binary reports back after performing an action.
pub enum CaEvent {
    /// A modulus-printing command exited; `modulus` is its captured output,
    /// meaningful only when `success` holds.
    ModulusRead { success: bool, modulus: Vec<u8> },
    /// A generation command exited.
    CmdStatus { success: bool },
    /// The local certificate and the upstream root were read (or not).
    AnchorParts { ok: bool, local_cert: Vec<u8>, upstream_root: Vec<u8> },
    /// The combined trust anchor was written atomically (or not).
    AnchorWritten { ok: bool },
}

/// What the surrounding binary is asked to do next.
pub enum CaAction {
    /// Run one toolkit command.
    Run(ToolkitCmd),
    /// Read the local certificate and the upstream root certificate.
    ReadAnchorParts,
    /// Write these bytes as the combined trust anchor, atomically
    /// (write to a temporary name, then rename).
    WriteAnchor { contents: Vec<u8> },
    /// Nothing further: the phase is terminal.
    Report,
}

/// The bootstrap's transition function on phases.
pub open spec fn ca_next_phase(p: CaPhase, e: CaEvent) -> CaPhase {
    match (p, e) {
        (CaPhase::CheckKey, CaEvent::ModulusRead { success, modulus }) => if success {
            CaPhase::CheckCert { key_modulus: modulus }
        } else {
            CaPhase::GenKey
        },
        (CaPhase::CheckCert { key_modulus }, CaEvent::ModulusRead { success, modulus }) => if success
            && modulus@ == key_modulus@ {
            CaPhase::Ready { regenerated: false }
        } else {
            CaPhase::GenKey
        },
        (CaPhase::GenKey, CaEvent::CmdStatus { success }) => if success {
            CaPhase::GenCert
        } else {
            CaPhase::Failed
        },
        (CaPhase::GenCert, CaEvent::CmdStatus { success }) => if success {
            CaPhase::ComposeAnchor
        } else {
            CaPhase::Failed
        },
        (CaPhase::ComposeAnchor, CaEvent::AnchorParts { ok, .. }) => if ok {
            CaPhase::WriteAnchor
        } else {
            CaPhase::Failed
        },
        (CaPhase::WriteAnchor, CaEvent::AnchorWritten { ok }) => if ok {
            CaPhase::Ready { regenerated: true }
        } else {
            CaPhase::Failed
        },
        (CaPhase::Ready { regenerated }, _) => CaPhase::Ready { regenerated },
        _ => CaPhase::Failed,
    }
}

/// The action owed alongside a transition: which command follows each
/// freshly entered phase, and with what data.
pub open spec fn ca_action_ok(p: CaPhase, e: CaEvent, a: CaAction) -> bool {
    match ca_next_phase(p, e) {
        CaPhase::CheckKey => a == CaAction::Run(ToolkitCmd::CaKeyModulus),
        CaPhase::CheckCert { .. } => a == CaAction::Run(ToolkitCmd::AnchorCertModulus),
        CaPhase::GenKey => a == CaAction::Run(ToolkitCmd::GenCaKey),
        CaPhase::GenCert => a matches CaAction::Run(cmd) && cmd matches ToolkitCmd::GenCaCert {
            subject,
        } && subject@ == ca_subject(),
        CaPhase::ComposeAnchor => a == CaAction::ReadAnchorParts,
        CaPhase::WriteAnchor => e matches CaEvent::AnchorParts { ok, local_cert, upstream_root }
            && a matches CaAction::WriteAnchor { contents } && contents@ == local_cert@
            + upstream_root@,
        CaPhase::Ready { .. } => a == CaAction::Report,
        CaPhase::Failed => a == CaAction::Report,
    }
}

/// Open the bootstrap: the first thing to do is read the key's modulus.
pub fn ca_start() -> (r: (CaPhase, CaAction))
    ensures
        r.0 == CaPhase::CheckKey,
        r.1 == CaAction::Run(ToolkitCmd::CaKeyModulus),
{
    (CaPhase::CheckKey, CaAction::Run(ToolkitCmd::CaKeyModulus))
}

/// Advance the bootstrap by one reported outcome, returning the new phase
/// and the action the surrounding binary owes next.
pub fn ca_step(p: CaPhase, e: CaEvent) -> (r: (CaPhase, CaAction))
    ensures
        r.0 == ca_next_phase(p, e),
        ca_action_ok(p, e, r.1),
{
    match (p, e) {
        (CaPhase::CheckKey, CaEvent::ModulusRead { success, modulus }) => {
            if success {
                (
                    CaPhase::CheckCert { key_modulus: modulus },
                    CaAction::Run(ToolkitCmd::AnchorCertModulus),
                )
            } else {
                (CaPhase::GenKey, CaAction::Run(ToolkitCmd::GenCaKey))
            }
        },
        (CaPhase::CheckCert { key_modulus }, CaEvent::ModulusRead { success, modulus }) => {
            if success && crate::toolkit::bytes_eq(&modulus, &key_modulus) {
                (CaPhase::Ready { regenerated: false }, CaAction::Report)
            } else {
                (CaPhase::GenKey, CaAction::Run(ToolkitCmd::GenCaKey))
            }
        },
        (CaPhase::GenKey, CaEvent::CmdStatus { success }) => {
            if success {
                (
                    CaPhase::GenCert,
                    CaAction::Run(
                        ToolkitCmd::GenCaCert { subject: String::from_str("/CN=127.0.0.1") },
                    ),
                )
            } else {
                (CaPhase::Failed, CaAction::Report)
            }
        },
        (CaPhase::GenCert, CaEvent::CmdStatus { success }) => {
            if success {
                (CaPhase::ComposeAnchor, CaAction::ReadAnchorParts)
            } else {
                (CaPhase::Failed, CaAction::Report)
            }
        },
        (CaPhase::ComposeAnchor, CaEvent::AnchorParts { ok, local_cert, upstream_root }) => {
            if ok {
                let mut contents = local_cert;
                let mut upstream = upstream_root;
                contents.append(&mut upstream);
                (CaPhase::WriteAnchor, CaAction::WriteAnchor { contents })
            } else {
                (CaPhase::Failed, CaAction::Report)
            }
        },
        (CaPhase::WriteAnchor, CaEvent::AnchorWritten { ok }) => {
            if ok {
                (CaPhase::Ready { regenerated: true }, CaAction::Report)
            } else {
                (CaPhase::Failed, CaAction::Report)
            }
        },
        (CaPhase::Ready { regenerated }, _) => (
            CaPhase::Ready { regenerated },
            CaAction::Report,
        ),
        _ => (CaPhase::Failed, CaAction::Report),
    }
}

/// Idempotent bootstrap: when both modulus checks succeed and agree, the
/// machine declares the authority valid without regeneration, and the only
/// actions it admits along the way are the second check and the final
/// report — never a command that generates or writes anything.
pub proof fn lemma_bootstrap_idempotent(key_modulus: Vec<u8>, cert_modulus: Vec<u8>)
    requires
        key_modulus@ == cert_modulus@,
    ensures
        ({
            let e1 = CaEvent::ModulusRead { success: true, modulus: key_modulus };
            let p1 = ca_next_phase(CaPhase::CheckKey, e1);
            let e2 = CaEvent::ModulusRead { success: true, modulus: cert_modulus };
            &&& p1 matches CaPhase::CheckCert { key_modulus: km } && km == key_modulus
            &&& forall|a: CaAction|
                ca_action_ok(CaPhase::CheckKey, e1, a) ==> a == CaAction::Run(
                    ToolkitCmd::AnchorCertModulus,
                )
            &&& ca_next_phase(p1, e2) == (CaPhase::Ready { regenerated: false })
            &&& forall|a: CaAction| ca_action_ok(p1, e2, a) ==> a == CaAction::Report
        }),
{
}

/// Self-healing bootstrap: whenever either check fails or the two moduli
/// differ, the machine regenerates — first the key, then the certificate,
/// then the trust anchor, whose bytes are the local certificate followed by
/// the upstream root — and only then declares itself ready.
pub proof fn lemma_bootstrap_self_heals(
    key_ok: bool,
    key_modulus: Vec<u8>,
    cert_ok: bool,
    cert_modulus: Vec<u8>,
    local_cert: Vec<u8>,
    upstream_root: Vec<u8>,
)
    requires
        !key_ok || !cert_ok || key_modulus@ != cert_modulus@,
    ensures
        ({
            let e1 = CaEvent::ModulusRead { success: key_ok, modulus: key_modulus };
            let p1 = ca_next_phase(CaPhase::CheckKey, e1);
            let e2 = CaEvent::ModulusRead { success: cert_ok, modulus: cert_modulus };
            let p2 = if p1 is CheckCert {
                ca_next_phase(p1, e2)
            } else {
                p1
            };
            let read = CaEvent::AnchorParts {
                ok: true,
                local_cert: local_cert,
                upstream_root: upstream_root,
            };
            &&& p2 == CaPhase::GenKey
            &&& ca_next_phase(CaPhase::GenKey, CaEvent::CmdStatus { success: true })
                == CaPhase::GenCert
            &&& ca_next_phase(CaPhase::GenCert, CaEvent::CmdStatus { success: true })
                == CaPhase::ComposeAnchor
            &&& ca_next_phase(CaPhase::ComposeAnchor, read) == CaPhase::WriteAnchor
            &&& forall|a: CaAction|
                ca_action_ok(CaPhase::ComposeAnchor, read, a) ==> (a matches CaAction::WriteAnchor {
                    contents,
                } && contents@ == local_cert@ + upstream_root@)
            &&& ca_next_phase(CaPhase::WriteAnchor, CaEvent::AnchorWritten { ok: true }) == (
            CaPhase::Ready { regenerated: true })
        }),
{
}

/// A failed generation step is fatal: once the machine is `Failed`, no
/// event moves it anywhere else and no action but the final report is
/// admitted, so an incomplete authority is never served.
pub proof fn lemma_bootstrap_failure_is_fatal(e: CaEvent)
    ensures
        ca_next_phase(CaPhase::Failed, e) == CaPhase::Failed,
        forall|a: CaAction| ca_action_ok(CaPhase::Failed, e, a) ==> a == CaAction::Report,
{
}

} // verus!
