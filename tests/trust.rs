use quad_net::trust::{bypass_schemes, SigScheme, TrustPolicy};

#[test]
fn bypass_accepts_self_signed_that_enforce_rejects() {
    let self_signed_passes_standard_checks = false;
    assert!(!TrustPolicy::Enforce.accepts(self_signed_passes_standard_checks));
    assert!(TrustPolicy::BypassAll.accepts(self_signed_passes_standard_checks));
    assert!(TrustPolicy::Enforce.accepts(true));
    assert!(TrustPolicy::BypassAll.accepts(true));
}

#[test]
fn policy_from_flag() {
    assert_eq!(TrustPolicy::from_bypass_flag(true), TrustPolicy::BypassAll);
    assert_eq!(TrustPolicy::from_bypass_flag(false), TrustPolicy::Enforce);
    assert!(TrustPolicy::Enforce.needs_standard_check());
    assert!(!TrustPolicy::BypassAll.needs_standard_check());
}

#[test]
fn bypass_scheme_list_is_complete() {
    let s = bypass_schemes();
    assert_eq!(s.len(), 11);
    assert_eq!(s[0], SigScheme::RsaPkcs1Sha256);
    assert_eq!(s[5], SigScheme::RsaPssSha512);
    assert_eq!(s[8], SigScheme::EcdsaNistp521Sha512);
    assert_eq!(s[10], SigScheme::Ed448);
}
