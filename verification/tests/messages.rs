use contest_scaffold::errors::{ErrorMessages, ParseError};

#[test]
fn failure_messages_are_fixed() {
    assert_eq!(ErrorMessages::FailedCreateDir.value(), "Failed to Create Dir");
    assert_eq!(ErrorMessages::FailedCreateFile.value(), "Failed to Create File");
    assert_eq!(ErrorMessages::FailedRemoveDir.value(), "Failed to Remove Dir");
    assert_eq!(ErrorMessages::FailedRemoveFile.value(), "Failed to Remove File");
    assert_eq!(ErrorMessages::FailedWrite.value(), "Failed to Write");
    assert_eq!(ErrorMessages::FailedGet.value(), "Failed to Get File");
}

#[test]
fn parse_error_messages_are_fixed() {
    assert_eq!(ParseError::InvalidUrl.value(), "Invalid URL !");
    assert_eq!(ParseError::InvalidContestKind.value(), "invalid kind !");
    assert_eq!(ParseError::MissingContestKind.value(), "name and kind is required !");
    assert_eq!(ParseError::MissingArgs.value(), "invalid args");
}
