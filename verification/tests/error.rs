use ledger_migration::error::MigrationError;

#[test]
fn setup_failures_and_transmission_failures() {
    assert!(MigrationError::KeyLoad.is_setup_failure());
    assert!(MigrationError::StoreRead.is_setup_failure());
    assert!(MigrationError::ClientSetup.is_setup_failure());
    assert!(MigrationError::InvalidConfig.is_setup_failure());
    assert!(!MigrationError::TransmissionTimeout.is_setup_failure());
    assert!(!MigrationError::TransmissionRejected.is_setup_failure());
}

#[test]
fn each_failure_names_itself() {
    assert!(MigrationError::KeyLoad.describe().starts_with("KeyLoadError"));
    assert!(MigrationError::StoreRead.describe().starts_with("StoreReadError"));
    assert!(MigrationError::ClientSetup.describe().starts_with("ClientSetupError"));
    assert!(MigrationError::InvalidConfig.describe().starts_with("InvalidConfigError"));
    assert!(MigrationError::TransmissionTimeout.describe().starts_with("TransmissionTimeoutError"));
    assert!(MigrationError::TransmissionRejected.describe().starts_with("TransmissionRejectedError"));
    assert_eq!(
        MigrationError::InvalidConfig.describe(),
        "InvalidConfigError: chunk size must be positive"
    );
}

#[test]
fn failures_are_distinct() {
    assert_ne!(MigrationError::TransmissionTimeout, MigrationError::TransmissionRejected);
    assert_ne!(
        MigrationError::TransmissionTimeout.describe(),
        MigrationError::TransmissionRejected.describe()
    );
}
