use jstring::errors::AbstractMethodError;
use jstring::errors::CoderMalfunctionError;
use jstring::errors::DirectoryIteratorException;
use jstring::errors::ErrorKind;
use jstring::errors::ErrorRecord;
use jstring::errors::IOError;
use jstring::errors::InvalidClassException;
use jstring::errors::InvalidPathException;
use jstring::errors::MalformedInputException;
use jstring::errors::StringIndexOutOfBoundsException;
use jstring::errors::UnmappableCharacterException;

#[test]
fn error_check() {
    assert_eq!(
        AbstractMethodError::new("e".to_string()),
        AbstractMethodError {
            message: "e".to_string()
        }
    )
}

#[test]
fn message_record_holds_kind_and_text() {
    let r = ErrorRecord::message(ErrorKind::NullPointerException, "oops".to_string());
    assert_eq!(r.kind(), ErrorKind::NullPointerException);
    match r {
        ErrorRecord::Message { kind, message } => {
            assert_eq!(kind, ErrorKind::NullPointerException);
            assert_eq!(message, "oops");
        }
        _ => panic!("wrong shape"),
    }
}

#[test]
fn indexed_record_holds_index() {
    let r = ErrorRecord::indexed(
        ErrorKind::ArrayIndexOutOfBoundsException,
        "bad index".to_string(),
        7,
    );
    assert_eq!(r.kind(), ErrorKind::ArrayIndexOutOfBoundsException);
    match r {
        ErrorRecord::Indexed { index, .. } => assert_eq!(index, 7),
        _ => panic!("wrong shape"),
    }
}

#[test]
fn caused_record_chains() {
    let inner = ErrorRecord::message(ErrorKind::IOException, "disk".to_string());
    let r = ErrorRecord::caused(
        ErrorKind::RuntimeException,
        Some("outer".to_string()),
        Some(Box::new(inner)),
    );
    assert_eq!(r.kind(), ErrorKind::RuntimeException);
    match r {
        ErrorRecord::Caused { cause, .. } => {
            assert_eq!(cause.unwrap().kind(), ErrorKind::IOException)
        }
        _ => panic!("wrong shape"),
    }
}

#[test]
fn path_and_marker_records() {
    let p = ErrorRecord::path_info(
        ErrorKind::NoSuchFileException,
        "a.txt".to_string(),
        None,
        Some("missing".to_string()),
    );
    assert_eq!(p.kind(), ErrorKind::NoSuchFileException);
    let m = ErrorRecord::marker(ErrorKind::ClosedFileSystemException);
    assert_eq!(m.kind(), ErrorKind::ClosedFileSystemException);
}

#[test]
fn named_structs_hold_their_fields() {
    let ic = InvalidClassException::new("K".to_string(), "bad".to_string(), None);
    assert_eq!(ic.cname, "K");
    assert_eq!(ic.message, "bad");
    assert!(ic.cause.is_none());

    let io = IOError::new(Some(Box::new(ErrorRecord::marker(
        ErrorKind::ClosedWatchServiceException,
    ))));
    assert_eq!(
        io.cause.unwrap().kind(),
        ErrorKind::ClosedWatchServiceException
    );

    let ip = InvalidPathException::new("p:q".to_string(), "colon".to_string(), 1);
    assert_eq!(ip.input, "p:q");
    assert_eq!(ip.reason, "colon");
    assert_eq!(ip.index, 1);

    let di = DirectoryIteratorException::new(None);
    assert!(di.cause.is_none());

    let cm = CoderMalfunctionError::new(None);
    assert!(cm.cause.is_none());
}

#[test]
fn input_length_exceptions_and_defaults() {
    let mi = MalformedInputException::new(3);
    assert_eq!(mi.input_length, 3);
    assert_eq!(MalformedInputException::default(), MalformedInputException::new(0));

    let um = UnmappableCharacterException::new(4);
    assert_eq!(um.input_length, 4);
    assert_eq!(
        UnmappableCharacterException::default(),
        UnmappableCharacterException::new(0)
    );
}

#[test]
fn boundary_exception_carries_index() {
    let e = StringIndexOutOfBoundsException::new("index out of range".to_string(), 9);
    assert_eq!(e.index, 9);
    assert_eq!(e.message, "index out of range");
}
