use parside::error::{Error, ParsideError};

fn explode() -> Result<(), Error> {
    Err(Error::Generic("error".to_string()))
}

#[test]
fn err() {
    assert!(explode().is_err());
}

#[test]
fn generic_error_is_shown_with_its_description() {
    let error = Error::Generic("no such thing".to_string());
    assert_eq!(error.message(), "error: no such thing");
    assert_eq!(Error::Generic(String::new()).message(), "error: ");
}

#[test]
fn parsing_errors_carry_their_description() {
    assert_eq!(ParsideError::Classification("a".to_string()).message(), "a");
    assert_eq!(ParsideError::Framing("b".to_string()).message(), "b");
    assert_eq!(ParsideError::PrimitiveDecode("c".to_string()).message(), "c");
    assert_eq!(ParsideError::UnsupportedOperation("d".to_string()).message(), "d");
}
