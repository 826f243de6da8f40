//! Requests to the external cryptographic toolkit.
//!
//! Every key generation, signing, modulus extraction and PKCS#12 packaging
//! step is delegated to a command-line toolkit. The library only decides
//! *which* invocation comes next: it hands a [`ToolkitCmd`] to the
//! surrounding binary, which runs the process and reports the exit status
//! (and, where asked for, the captured standard output) back to the
//! library's state machines.

use vstd::prelude::*;

verus! {

/// One invocation of the external cryptographic toolkit. Paths and subject
/// strings that vary per call are carried explicitly; everything else about
/// the invocation is fixed by the variant.
pub enum ToolkitCmd {
    /// Generate the local certificate authority's private key at its
    /// well-known path.
    GenCaKey,
    /// Self-sign the local authority's certificate for the already
    /// generated key, with the given subject.
    GenCaCert { subject: String },
    /// Print the modulus of the local authority's private key.
    CaKeyModulus,
    /// Print the modulus of the leading certificate of the combined trust
    /// anchor file (the local authority's certificate stands first in it).
    AnchorCertModulus,
    /// Generate a visitor's private key at the given path.
    GenClientKey { key_path: String },
    /// Build a certificate signing request for the visitor's key, carrying
    /// the given subject.
    ClientCsr { key_path: String, csr_path: String, subject: String },
    /// Sign the visitor's request with the local authority, producing the
    /// visitor's certificate.
    SignClientCert { csr_path: String, cert_path: String },
    /// Bundle the visitor's key and certificate into a password-less
    /// PKCS#12 archive at the given path.
    Pkcs12 { key_path: String, cert_path: String, out_path: String },
}

/// Byte-for-byte equality, used to compare two printed moduli.
pub fn bytes_eq(a: &Vec<u8>, b: &Vec<u8>) -> (r: bool)
    ensures
        r == (a@ == b@),
{
    if a.len() != b.len() {
        proof {
            if a@ == b@ {
                assert(a@.len() == b@.len());
            }
        }
        return false;
    }
    let mut i: usize = 0;
    while i < a.len()
        invariant
            i <= a@.len(),
            a@.len() == b@.len(),
            forall|p: int| 0 <= p < i ==> a@[p] == b@[p],
        decreases a@.len() - i,
    {
        if a[i] != b[i] {
            return false;
        }
        i += 1;
    }
    proof {
        assert(a@ =~= b@);
    }
    true
}

} // verus!
