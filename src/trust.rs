//! Which server certificates a TLS-protected WebSocket connection accepts.

use vstd::prelude::*;

verus! {

/// Certificate trust policy for a TLS connection.
#[derive(Debug, Clone, Copy, PartialEq, Eq, Structural)]
pub enum TrustPolicy {
    /// Standard chain and signature validation.
    Enforce,
    /// Accept every certificate and every signature: for development against
    /// self-signed endpoints, and only when asked for.
    BypassAll,
}

/// A TLS signature scheme that `BypassAll` offers to accept.
#[derive(Debug, Clone, Copy, PartialEq, Eq, Structural)]
pub enum SigScheme {
    RsaPkcs1Sha256,
    RsaPkcs1Sha384,
    RsaPkcs1Sha512,
    RsaPssSha256,
    RsaPssSha384,
    RsaPssSha512,
    EcdsaNistp256Sha256,
    EcdsaNistp384Sha384,
    EcdsaNistp521Sha512,
    Ed25519,
    Ed448,
}

/// The schemes `BypassAll` offers, in the order they are offered.
pub open spec fn bypass_scheme_list() -> Seq<SigScheme> {
    seq![
        SigScheme::RsaPkcs1Sha256,
        SigScheme::RsaPkcs1Sha384,
        SigScheme::RsaPkcs1Sha512,
        SigScheme::RsaPssSha256,
        SigScheme::RsaPssSha384,
        SigScheme::RsaPssSha512,
        SigScheme::EcdsaNistp256Sha256,
        SigScheme::EcdsaNistp384Sha384,
        SigScheme::EcdsaNistp521Sha512,
        SigScheme::Ed25519,
        SigScheme::Ed448,
    ]
}

/// Whether `policy` accepts a certificate (or a handshake signature) whose
/// standard validation gave `standard_ok`.
pub open spec fn accepts_spec(policy: TrustPolicy, standard_ok: bool) -> bool {
    match policy {
        TrustPolicy::Enforce => standard_ok,
        TrustPolicy::BypassAll => true,
    }
}

impl TrustPolicy {
    /// `BypassAll` exactly when bypassing was asked for.
    pub fn from_bypass_flag(bypass: bool) -> (r: TrustPolicy)
        ensures
            r == (if bypass {
                TrustPolicy::BypassAll
            } else {
                TrustPolicy::Enforce
            }),
    {
        if bypass {
            TrustPolicy::BypassAll
        } else {
            TrustPolicy::Enforce
        }
    }

    /// Whether the standard validation has to be run at all.
    pub fn needs_standard_check(&self) -> (r: bool)
        ensures
            r == (*self is Enforce),
    {
        match self {
            TrustPolicy::Enforce => true,
            TrustPolicy::BypassAll => false,
        }
    }

    /// The verdict on a certificate or signature whose standard validation
    /// gave `standard_ok`.
    pub fn accepts(&self, standard_ok: bool) -> (r: bool)
        ensures
            r == accepts_spec(*self, standard_ok),
    {
        match self {
            TrustPolicy::Enforce => standard_ok,
            TrustPolicy::BypassAll => true,
        }
    }
}

/// The signature schemes offered when certificate checks are bypassed.
pub fn bypass_schemes() -> (r: Vec<SigScheme>)
    ensures
        r@ == bypass_scheme_list(),
{
    let r = vec![
        SigScheme::RsaPkcs1Sha256,
        SigScheme::RsaPkcs1Sha384,
        SigScheme::RsaPkcs1Sha512,
        SigScheme::RsaPssSha256,
        SigScheme::RsaPssSha384,
        SigScheme::RsaPssSha512,
        SigScheme::EcdsaNistp256Sha256,
        SigScheme::EcdsaNistp384Sha384,
        SigScheme::EcdsaNistp521Sha512,
        SigScheme::Ed25519,
        SigScheme::Ed448,
    ];
    assert(r@ =~= bypass_scheme_list());
    r
}

/// `BypassAll` accepts everything `Enforce` accepts, and also a certificate
/// that fails standard validation (a self-signed one), which `Enforce` rejects.
pub proof fn lemma_bypass_accepts_what_enforce_rejects(standard_ok: bool)
    ensures
        accepts_spec(TrustPolicy::Enforce, standard_ok) ==> accepts_spec(
            TrustPolicy::BypassAll,
            standard_ok,
        ),
        !accepts_spec(TrustPolicy::Enforce, false),
        accepts_spec(TrustPolicy::BypassAll, false),
{
}

} // verus!
