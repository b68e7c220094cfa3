use stun_client::STUNClientError;

#[test]
fn clone_keeps_what_the_error_says() {
    assert!(matches!(STUNClientError::ParseError().clone(), STUNClientError::ParseError()));
    assert!(matches!(STUNClientError::TimeoutError().clone(), STUNClientError::TimeoutError()));
    match STUNClientError::NotSupportedError(String::from("OTHER-ADDRESS")).clone() {
        STUNClientError::NotSupportedError(feature) => assert_eq!(feature, "OTHER-ADDRESS"),
        _ => panic!("the copy has to be of the same kind"),
    }
    match STUNClientError::Unknown(String::from("what")).clone() {
        STUNClientError::Unknown(message) => assert_eq!(message, "what"),
        _ => panic!("the copy has to be of the same kind"),
    }
}

#[test]
fn clone_of_an_io_error_keeps_kind_and_message() {
    let inner = std::io::Error::new(std::io::ErrorKind::TimedOut, "too slow");
    let error = STUNClientError::IOError(inner);
    match error.clone() {
        STUNClientError::IOError(copy) => {
            assert_eq!(copy.kind(), std::io::ErrorKind::TimedOut);
            assert_eq!(copy.to_string(), "too slow");
        },
        _ => panic!("the copy has to be of the same kind"),
    }
    let os = STUNClientError::IOError(std::io::Error::from_raw_os_error(11));
    match (&os, os.clone()) {
        (STUNClientError::IOError(original), STUNClientError::IOError(copy)) => {
            assert_eq!(copy.kind(), original.kind());
            assert_eq!(copy.to_string(), original.to_string());
            assert_eq!(copy.raw_os_error(), None);
        },
        _ => panic!("the copy has to be of the same kind"),
    }
}
