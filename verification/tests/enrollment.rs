use hushnet_core::models::EnrollmentClaims;

#[test]
fn test_enrollment_claims_construction() {
    let claims = EnrollmentClaims {
        sub: String::from("user123"),
        exp: 1234567890,
    };
    assert_eq!(claims.sub, "user123");
    assert_eq!(claims.exp, 1234567890);
}
