use myla_program::errors::MylaError;

#[test]
fn error_messages() {
    assert_eq!(MylaError::DeadlineInPast.message(), "The deadline must be in the future");
    assert_eq!(
        MylaError::InvalidCommissionRate.message(),
        "The commission rate must be between 0 and 10000 basis points (100%)"
    );
    assert_eq!(MylaError::StakeTooSmall.message(), "The minimum stake is 0.01 SOL (10,000,000 lamports)");
    assert_eq!(MylaError::ArithmeticOverflow.message(), "Arithmetic overflow");
    assert_eq!(MylaError::AssetTooLong.message(), "Asset name is too long (max 16 characters)");
}
