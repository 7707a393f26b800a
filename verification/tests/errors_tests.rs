use netpath::errors::{
    classification_from_enumeration, ClassificationError, EnumerationError, TestError,
};

#[test]
fn classification_wraps_enumeration() {
    let c = classification_from_enumeration(EnumerationError::OsQueryFailed);
    assert_eq!(c, ClassificationError::Enumeration(EnumerationError::OsQueryFailed));
    assert_eq!(c.cause(), EnumerationError::OsQueryFailed);
}

#[test]
fn error_messages_name_the_fault() {
    assert_eq!(
        EnumerationError::OsQueryFailed.message(),
        "Failed to retrieve network interfaces"
    );
    assert_eq!(
        ClassificationError::Enumeration(EnumerationError::OsQueryFailed).message(),
        "Failed to retrieve network interfaces"
    );
    assert_eq!(TestError::ClockUnavailable.message(), "Failed to read the system clock");
}
