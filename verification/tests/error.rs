use cargo_lookup::Error;

#[test]
fn message_of_invalid_version() {
    let error = Error::InvalidVersion(String::from("unexpected end of input"));
    assert_eq!(error.message(), "failed parsing version: unexpected end of input");
}

#[test]
fn message_of_request() {
    let error = Error::Request(String::from("connection refused"));
    assert_eq!(error.message(), "request failed: connection refused");
}

#[test]
fn message_of_io() {
    let error = Error::Io(String::from("unexpected eof"));
    assert_eq!(error.message(), "IO error: unexpected eof");
}

#[test]
fn message_of_serialize() {
    let error = Error::Serialize(String::from("key must be a string"));
    assert_eq!(error.message(), "failed to serialize: key must be a string");
}

#[test]
fn message_of_deserialize() {
    let error = Error::Deserialize(String::from("missing field `vers`"));
    assert_eq!(error.message(), "failed to deserialize: missing field `vers`");
}

#[test]
fn message_of_empty_index() {
    assert_eq!(Error::EmptyIndex.message(), "failed to populate from index file: empty");
}

#[test]
fn message_of_not_found() {
    let error = Error::NotFound(String::from("cargo@^9"));
    assert_eq!(error.message(), "failed to find a matching release of `cargo@^9`");
}
