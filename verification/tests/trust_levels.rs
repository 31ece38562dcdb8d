use kizuna::security::trust::TrustLevel;

#[test]
fn trust_levels_are_stored_by_name() {
    assert_eq!(TrustLevel::Verified.as_db_str(), "Verified");
    assert_eq!(TrustLevel::Trusted.as_db_str(), "Trusted");
    assert_eq!(TrustLevel::Allowlisted.as_db_str(), "Allowlisted");
    for t in [TrustLevel::Verified, TrustLevel::Trusted, TrustLevel::Allowlisted] {
        assert_eq!(TrustLevel::from_db_str(t.as_db_str()), t);
    }
    assert_eq!(TrustLevel::from_db_str("something else"), TrustLevel::Allowlisted);
}
