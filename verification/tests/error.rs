use netwatcher::error::Error;

#[test]
fn an_io_error_becomes_the_io_variant() {
    let e: Error = std::io::Error::new(std::io::ErrorKind::PermissionDenied, "read-only").into();
    match e {
        Error::Io(inner) => assert_eq!(inner.kind(), std::io::ErrorKind::PermissionDenied),
        other => panic!("unexpected error {:?}", other),
    }
}
