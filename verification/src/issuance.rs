//! Minting a visitor certificate bundle.
//!
//! Given a nickname, the pipeline generates a fresh private key, builds a
//! signing request carrying a synthetic identity (callsign `FAKE`, display
//! name `<nickname> (Visitor)`, a placeholder address), signs it with the
//! local authority, packages key and certificate into a password-less
//! PKCS#12 archive, and returns the archive's bytes. Every step is one
//! toolkit command with a checked exit status; any failure aborts the whole
//! pipeline and no partial bundle is ever handed out.
//!
//! Two deliberate hardenings over a naive pipeline: the nickname is
//! validated before it is embedded in a subject string (no `/`, `=` or
//! control characters, so a visitor cannot smuggle extra attributes in),
//! and every intermediate file of one call lives under a caller-chosen
//! scratch prefix, so concurrent calls with distinct prefixes can never
//! touch each other's files ([`lemma_scratch_isolation`]).

use vstd::prelude::*;
use vstd::string::*;
use crate::identity;
use crate::toolkit::ToolkitCmd;

verus! {

/// Whether one character may appear in a visitor's nickname: the subject
/// separators `/` and `=` and all control characters are refused.
pub open spec fn nickname_char_ok(c: char) -> bool {
    c != '/' && c != '=' && c as u32 >= 32 && c as u32 != 127
}

/// Whether a nickname may be embedded in a certificate subject.
pub open spec fn valid_nickname(s: Seq<char>) -> bool {
    forall|i: int| 0 <= i < s.len() ==> nickname_char_ok(#[trigger] s[i])
}

/// Check a nickname before it is embedded in a subject string.
pub fn nickname_ok(nickname: &str) -> (r: bool)
    ensures
        r == valid_nickname(nickname@),
{
    let n = nickname.unicode_len();
    let mut i: usize = 0;
    while i < n
        invariant
            i <= n,
            n == nickname@.len(),
            forall|p: int| 0 <= p < i ==> nickname_char_ok(#[trigger] nickname@[p]),
        decreases n - i,
    {
        let c = nickname.get_char(i);
        let code = c as u32;
        if c == '/' || c == '=' || code < 32 || code == 127 {
            return false;
        }
        i += 1;
    }
    true
}

/// The synthetic subject carrying a visitor's nickname.
pub open spec fn visitor_subject_spec(nickname: Seq<char>) -> Seq<char> {
    "/1.3.6.1.4.1.12348.1.1=FAKE/CN="@ + nickname + " (Visitor)/emailAddress=fake@example.com"@
}

/// Spell out the subject string for a visitor's signing request.
pub fn visitor_subject(nickname: &str) -> (s: String)
    ensures
        s@ == visitor_subject_spec(nickname@),
{
    let mut s = String::from_str("/1.3.6.1.4.1.12348.1.1=FAKE/CN=");
    s.append(nickname);
    s.append(" (Visitor)/emailAddress=fake@example.com");
    s
}

/// The display name a visitor's certificate carries.
pub open spec fn visitor_display_name(nickname: Seq<char>) -> Seq<char> {
    nickname + " (Visitor)"@
}

/// Structure of the issued subject: for a valid nickname, the subject
/// parses back as a distinguished name whose callsign is the sentinel
/// `FAKE`, whose display name is the nickname followed by ` (Visitor)`,
/// and whose address is the fixed placeholder.
pub proof fn lemma_visitor_subject_fields(nickname: Seq<char>)
    requires
        valid_nickname(nickname),
    ensures
        ({
            let o = identity::dn_pairs(visitor_subject_spec(nickname));
            &&& o matches Some(m)
            &&& m.dom().contains(identity::callsign_key())
            &&& m.dom().contains(identity::display_name_key())
            &&& m.dom().contains(identity::email_key())
            &&& m[identity::callsign_key()] == "FAKE"@
            &&& m[identity::display_name_key()] == visitor_display_name(nickname)
            &&& m[identity::email_key()] == "fake@example.com"@
        }),
{
    reveal_strlit("/1.3.6.1.4.1.12348.1.1=FAKE/CN=");
    reveal_strlit(" (Visitor)/emailAddress=fake@example.com");
    reveal_strlit("1.3.6.1.4.1.12348.1.1");
    reveal_strlit("CN");
    reveal_strlit("emailAddress");
    reveal_strlit("FAKE");
    reveal_strlit(" (Visitor)");
    reveal_strlit("fake@example.com");
    let pairs: Seq<(Seq<char>, Seq<char>)> = seq![
        (identity::callsign_key(), "FAKE"@),
        (identity::display_name_key(), visitor_display_name(nickname)),
        (identity::email_key(), "fake@example.com"@),
    ];
    assert(identity::plain_key(identity::callsign_key()));
    assert(identity::plain_key(identity::display_name_key()));
    assert(identity::plain_key(identity::email_key()));
    assert(identity::plain_value("FAKE"@));
    assert(identity::plain_value("fake@example.com"@));
    assert(identity::plain_value(visitor_display_name(nickname))) by {
        assert forall|i: int|
            0 <= i < visitor_display_name(nickname).len() implies visitor_display_name(nickname)[i]
            != '/' by {
            if i < nickname.len() {
                assert(visitor_display_name(nickname)[i] == nickname[i]);
            } else {
                assert(visitor_display_name(nickname)[i] == " (Visitor)"@[i - nickname.len()]);
            }
        }
    }
    identity::lemma_dn_round_trip(pairs);
    let a = identity::segment_of(identity::callsign_key(), "FAKE"@);
    let b = identity::segment_of(identity::display_name_key(), visitor_display_name(nickname));
    let c = identity::segment_of(identity::email_key(), "fake@example.com"@);
    let p2 = pairs.drop_last();
    let p1 = p2.drop_last();
    let p0 = p1.drop_last();
    assert(p0 =~= Seq::<(Seq<char>, Seq<char>)>::empty());
    assert(identity::dn_of(p0) == Seq::<char>::empty());
    assert(p1.last() == (identity::callsign_key(), "FAKE"@));
    assert(p2.last() == (identity::display_name_key(), visitor_display_name(nickname)));
    assert(identity::dn_of(p1) == identity::dn_of(p0) + a);
    assert(identity::dn_of(p2) == identity::dn_of(p1) + b);
    assert(identity::dn_of(pairs) == identity::dn_of(p2) + c);
    let bh = seq!['/'] + identity::display_name_key() + seq!['='];
    assert("/1.3.6.1.4.1.12348.1.1=FAKE/CN="@ =~= a + bh);
    assert(" (Visitor)/emailAddress=fake@example.com"@ =~= " (Visitor)"@ + c);
    assert(b =~= bh + nickname + " (Visitor)"@);
    assert(visitor_subject_spec(nickname) =~= identity::dn_of(pairs));
    identity::lemma_keys_distinct();
    assert(identity::pairs_map(p0) =~= Map::<Seq<char>, Seq<char>>::empty());
    assert(identity::pairs_map(p1) == identity::pairs_map(p0).insert(
        identity::callsign_key(),
        "FAKE"@,
    ));
    assert(identity::pairs_map(p2) == identity::pairs_map(p1).insert(
        identity::display_name_key(),
        visitor_display_name(nickname),
    ));
    assert(identity::pairs_map(pairs) == identity::pairs_map(p2).insert(
        identity::email_key(),
        "fake@example.com"@,
    ));
}

/// The per-call scratch files of one issuance: the visitor's key, signing
/// request, certificate, and finished bundle.
pub struct ScratchPaths {
    pub key_path: String,
    pub csr_path: String,
    pub cert_path: String,
    pub bundle_path: String,
}

/// Whether `p` is the scratch layout belonging to `prefix`.
pub open spec fn paths_of(prefix: Seq<char>, p: ScratchPaths) -> bool {
    &&& p.key_path@ == prefix + ".key"@
    &&& p.csr_path@ == prefix + ".csr"@
    &&& p.cert_path@ == prefix + ".pem"@
    &&& p.bundle_path@ == prefix + ".p12"@
}

/// Whether `s` names one of the scratch files of `p`.
pub open spec fn names_scratch_file(p: ScratchPaths, s: Seq<char>) -> bool {
    s == p.key_path@ || s == p.csr_path@ || s == p.cert_path@ || s == p.bundle_path@
}

/// Lay out the scratch files of one issuance under the given prefix.
pub fn make_scratch_paths(prefix: &str) -> (p: ScratchPaths)
    ensures
        paths_of(prefix@, p),
{
    ScratchPaths {
        key_path: String::from_str(prefix).concat(".key"),
        csr_path: String::from_str(prefix).concat(".csr"),
        cert_path: String::from_str(prefix).concat(".pem"),
        bundle_path: String::from_str(prefix).concat(".p12"),
    }
}

/// Appending equal-length tails: concatenations agree only when both parts
/// agree.
proof fn lemma_append_cancel(a: Seq<char>, b: Seq<char>, s: Seq<char>, t: Seq<char>)
    requires
        s.len() == t.len(),
        a + s == b + t,
    ensures
        a == b,
        s == t,
{
    assert((a + s).len() == (b + t).len());
    assert(a =~= (a + s).take(a.len() as int));
    assert(b =~= (b + t).take(b.len() as int));
    assert(s =~= (a + s).skip(a.len() as int));
    assert(t =~= (b + t).skip(b.len() as int));
}

/// The four suffixes have equal length and are pairwise distinct.
proof fn lemma_suffixes()
    ensures
        ".key"@.len() == 4 && ".csr"@.len() == 4 && ".pem"@.len() == 4 && ".p12"@.len() == 4,
        ".key"@ != ".csr"@ && ".key"@ != ".pem"@ && ".key"@ != ".p12"@,
        ".csr"@ != ".pem"@ && ".csr"@ != ".p12"@,
        ".pem"@ != ".p12"@,
{
    reveal_strlit(".key");
    reveal_strlit(".csr");
    reveal_strlit(".pem");
    reveal_strlit(".p12");
    assert(".key"@[1] == 'k' && ".csr"@[1] == 'c' && ".pem"@[1] == 'p' && ".p12"@[1] == 'p');
    assert(".pem"@[2] == 'e' && ".p12"@[2] == '1');
}

/// Within one issuance, the four scratch files are pairwise distinct.
pub proof fn lemma_scratch_paths_distinct(prefix: Seq<char>, p: ScratchPaths)
    requires
        paths_of(prefix, p),
    ensures
        p.key_path@ != p.csr_path@,
        p.key_path@ != p.cert_path@,
        p.key_path@ != p.bundle_path@,
        p.csr_path@ != p.cert_path@,
        p.csr_path@ != p.bundle_path@,
        p.cert_path@ != p.bundle_path@,
{
    lemma_suffixes();
    assert forall|s: Seq<char>, t: Seq<char>|
        s.len() == t.len() && s != t implies prefix + s != prefix + t by {
        if prefix + s == prefix + t {
            lemma_append_cancel(prefix, prefix, s, t);
        }
    }
}

/// Concurrent-issuance isolation: two issuances with distinct scratch
/// prefixes share no file at all, so neither can overwrite or read the
/// other's key, request, certificate or bundle.
pub proof fn lemma_scratch_isolation(
    prefix1: Seq<char>,
    p1: ScratchPaths,
    prefix2: Seq<char>,
    p2: ScratchPaths,
)
    requires
        prefix1 != prefix2,
        paths_of(prefix1, p1),
        paths_of(prefix2, p2),
    ensures
        forall|s: Seq<char>| names_scratch_file(p1, s) ==> !names_scratch_file(p2, s),
{
    lemma_suffixes();
    assert forall|s: Seq<char>, t: Seq<char>|
        s.len() == 4 && t.len() == 4 implies prefix1 + s != prefix2 + t by {
        if prefix1 + s == prefix2 + t {
            lemma_append_cancel(prefix1, prefix2, s, t);
        }
    }
}

/// Concurrent issuances in flight: two runs opened under distinct scratch
/// prefixes never name a common file, so every command either run emits
/// works on files the other can never touch.
pub proof fn lemma_runs_isolated(r1: IssuanceRun, r2: IssuanceRun)
    requires
        r1.wf(),
        r2.wf(),
        r1.prefix@ != r2.prefix@,
    ensures
        forall|s: Seq<char>| names_scratch_file(r1.paths, s) ==> !names_scratch_file(r2.paths, s),
{
    lemma_scratch_isolation(r1.prefix@, r1.paths, r2.prefix@, r2.paths);
}

/// Where one issuance stands between two outcomes.
#[derive(Clone, Copy, Debug, PartialEq, Eq, Structural)]
pub enum IssuePhase {
    /// Waiting for the outcome of generating the visitor's key.
    GenKey,
    /// Waiting for the outcome of building the signing request.
    Csr,
    /// Waiting for the outcome of signing the certificate.
    Sign,
    /// Waiting for the outcome of packaging the PKCS#12 archive.
    Package,
    /// Waiting for the archive's bytes to be read back.
    ReadBack,
    /// The bundle was delivered; the scratch files may be removed.
    Issued,
    /// A step failed; the caller gets a generic issuance error and the
    /// scratch files may be removed. No partial bundle is handed out.
    Failed,
}

/// What the surrounding binary reports back after performing an action.
pub enum IssueEvent {
    /// A toolkit command exited.
    CmdStatus { success: bool },
    /// The finished archive was read (or not); `bytes` is its content,
    /// meaningful only when `ok` holds.
    BundleRead { ok: bool, bytes: Vec<u8> },
}

/// What the surrounding binary is asked to do next.
pub enum IssueAction {
    /// Run one toolkit command.
    Run(ToolkitCmd),
    /// Read the finished archive at the given path.
    ReadBundle { path: String },
    /// Hand these bytes to the visitor as the PKCS#12 bundle.
    Deliver { bundle: Vec<u8> },
    /// Report a generic issuance failure; nothing is delivered.
    Report,
}

/// The pipeline's transition function on phases. An empty read-back is
/// treated as a failure: a bundle of zero bytes is never delivered.
pub open spec fn issue_next_phase(p: IssuePhase, e: IssueEvent) -> IssuePhase {
    match (p, e) {
        (IssuePhase::GenKey, IssueEvent::CmdStatus { success }) => if success {
            IssuePhase::Csr
        } else {
            IssuePhase::Failed
        },
        (IssuePhase::Csr, IssueEvent::CmdStatus { success }) => if success {
            IssuePhase::Sign
        } else {
            IssuePhase::Failed
        },
        (IssuePhase::Sign, IssueEvent::CmdStatus { success }) => if success {
            IssuePhase::Package
        } else {
            IssuePhase::Failed
        },
        (IssuePhase::Package, IssueEvent::CmdStatus { success }) => if success {
            IssuePhase::ReadBack
        } else {
            IssuePhase::Failed
        },
        (IssuePhase::ReadBack, IssueEvent::BundleRead { ok, bytes }) => if ok && bytes@.len() > 0 {
            IssuePhase::Issued
        } else {
            IssuePhase::Failed
        },
        _ => IssuePhase::Failed,
    }
}

/// One visitor-certificate issuance in flight: the scratch layout and
/// subject are fixed when it starts, the phase advances with each outcome.
pub struct IssuanceRun {
    pub paths: ScratchPaths,
    pub subject: String,
    pub phase: IssuePhase,
    pub prefix: Ghost<Seq<char>>,
}

impl IssuanceRun {
    /// The scratch layout stays tied to the prefix chosen at the start.
    pub open spec fn wf(self) -> bool {
        paths_of(self.prefix@, self.paths)
    }

    /// The action owed on entering the phase that `e` leads to from `p`:
    /// each command works on this run's own scratch files, the signing
    /// request carries this run's subject, and bytes are delivered exactly
    /// when the pipeline has fully succeeded.
    pub open spec fn action_ok(self, e: IssueEvent, a: IssueAction) -> bool {
        match issue_next_phase(self.phase, e) {
            IssuePhase::GenKey => a matches IssueAction::Run(c) && c matches ToolkitCmd::GenClientKey {
                key_path,
            } && key_path@ == self.paths.key_path@,
            IssuePhase::Csr => a matches IssueAction::Run(c) && c matches ToolkitCmd::ClientCsr {
                key_path,
                csr_path,
                subject,
            } && key_path@ == self.paths.key_path@ && csr_path@ == self.paths.csr_path@ && subject@
                == self.subject@,
            IssuePhase::Sign => a matches IssueAction::Run(c) && c matches ToolkitCmd::SignClientCert {
                csr_path,
                cert_path,
            } && csr_path@ == self.paths.csr_path@ && cert_path@ == self.paths.cert_path@,
            IssuePhase::Package => a matches IssueAction::Run(c) && c matches ToolkitCmd::Pkcs12 {
                key_path,
                cert_path,
                out_path,
            } && key_path@ == self.paths.key_path@ && cert_path@ == self.paths.cert_path@
                && out_path@ == self.paths.bundle_path@,
            IssuePhase::ReadBack => a matches IssueAction::ReadBundle { path } && path@
                == self.paths.bundle_path@,
            IssuePhase::Issued => e matches IssueEvent::BundleRead { ok, bytes } && a matches
                IssueAction::Deliver { bundle } && bundle@ == bytes@ && bundle@.len() > 0,
            IssuePhase::Failed => a == IssueAction::Report,
        }
    }

    /// Open an issuance for a nickname under a per-call scratch prefix.
    /// An invalid nickname is rejected before anything runs; otherwise the
    /// first action is generating the visitor's key.
    pub fn start(nickname: &str, scratch_prefix: &str) -> (r: Option<(IssuanceRun, IssueAction)>)
        ensures
            match r {
                Some(ra) => valid_nickname(nickname@) && ra.0.wf() && ra.0.prefix@
                    == scratch_prefix@ && ra.0.subject@ == visitor_subject_spec(nickname@)
                    && ra.0.phase == IssuePhase::GenKey && (ra.1 matches IssueAction::Run(c)
                    && c matches ToolkitCmd::GenClientKey { key_path } && key_path@
                    == scratch_prefix@ + ".key"@),
                None => !valid_nickname(nickname@),
            },
    {
        if !nickname_ok(nickname) {
            return None;
        }
        let paths = make_scratch_paths(scratch_prefix);
        let key_path = paths.key_path.clone();
        let run = IssuanceRun {
            paths,
            subject: visitor_subject(nickname),
            phase: IssuePhase::GenKey,
            prefix: Ghost(scratch_prefix@),
        };
        Some((run, IssueAction::Run(ToolkitCmd::GenClientKey { key_path })))
    }

    /// Advance the issuance by one reported outcome, returning the action
    /// the surrounding binary owes next. The scratch layout and subject
    /// never change; only the phase moves.
    pub fn step(&mut self, e: IssueEvent) -> (a: IssueAction)
        ensures
            final(self).paths == old(self).paths,
            final(self).subject == old(self).subject,
            final(self).prefix == old(self).prefix,
            final(self).phase == issue_next_phase(old(self).phase, e),
            old(self).action_ok(e, a),
    {
        match (self.phase, e) {
            (IssuePhase::GenKey, IssueEvent::CmdStatus { success }) => {
                if success {
                    self.phase = IssuePhase::Csr;
                    IssueAction::Run(
                        ToolkitCmd::ClientCsr {
                            key_path: self.paths.key_path.clone(),
                            csr_path: self.paths.csr_path.clone(),
                            subject: self.subject.clone(),
                        },
                    )
                } else {
                    self.phase = IssuePhase::Failed;
                    IssueAction::Report
                }
            },
            (IssuePhase::Csr, IssueEvent::CmdStatus { success }) => {
                if success {
                    self.phase = IssuePhase::Sign;
                    IssueAction::Run(
                        ToolkitCmd::SignClientCert {
                            csr_path: self.paths.csr_path.clone(),
                            cert_path: self.paths.cert_path.clone(),
                        },
                    )
                } else {
                    self.phase = IssuePhase::Failed;
                    IssueAction::Report
                }
            },
            (IssuePhase::Sign, IssueEvent::CmdStatus { success }) => {
                if success {
                    self.phase = IssuePhase::Package;
                    IssueAction::Run(
                        ToolkitCmd::Pkcs12 {
                            key_path: self.paths.key_path.clone(),
                            cert_path: self.paths.cert_path.clone(),
                            out_path: self.paths.bundle_path.clone(),
                        },
                    )
                } else {
                    self.phase = IssuePhase::Failed;
                    IssueAction::Report
                }
            },
            (IssuePhase::Package, IssueEvent::CmdStatus { success }) => {
                if success {
                    self.phase = IssuePhase::ReadBack;
                    IssueAction::ReadBundle { path: self.paths.bundle_path.clone() }
                } else {
                    self.phase = IssuePhase::Failed;
                    IssueAction::Report
                }
            },
            (IssuePhase::ReadBack, IssueEvent::BundleRead { ok, bytes }) => {
                if ok && bytes.len() > 0 {
                    self.phase = IssuePhase::Issued;
                    IssueAction::Deliver { bundle: bytes }
                } else {
                    self.phase = IssuePhase::Failed;
                    IssueAction::Report
                }
            },
            (_, _) => {
                self.phase = IssuePhase::Failed;
                IssueAction::Report
            },
        }
    }
}

/// Nothing but a full run of successes issues a bundle: from key
/// generation, four successful commands and a non-empty read-back reach
/// `Issued`, and the single failed outcome anywhere leaves the pipeline in
/// `Failed`, where only the generic failure report is admitted.
pub proof fn lemma_issuance_all_or_nothing(run: IssuanceRun, e: IssueEvent)
    ensures
        issue_next_phase(IssuePhase::GenKey, IssueEvent::CmdStatus { success: true })
            == IssuePhase::Csr,
        issue_next_phase(IssuePhase::Csr, IssueEvent::CmdStatus { success: true })
            == IssuePhase::Sign,
        issue_next_phase(IssuePhase::Sign, IssueEvent::CmdStatus { success: true })
            == IssuePhase::Package,
        issue_next_phase(IssuePhase::Package, IssueEvent::CmdStatus { success: true })
            == IssuePhase::ReadBack,
        e matches IssueEvent::BundleRead { ok, bytes } && ok && bytes@.len() > 0 ==> issue_next_phase(
            IssuePhase::ReadBack,
            e,
        ) == IssuePhase::Issued,
        e matches IssueEvent::CmdStatus { success: false } ==> issue_next_phase(run.phase, e)
            == IssuePhase::Failed,
        issue_next_phase(run.phase, e) == IssuePhase::Failed ==> forall|a: IssueAction|
            run.action_ok(e, a) ==> a == IssueAction::Report,
{
}

} // verus!
