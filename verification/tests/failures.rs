use android_bluetooth_serial::java::{Command, JniError, ObjectId, Reply};
use android_bluetooth_serial::{jerr, BluetoothError, ErrorKind, Operation, Progress};

fn take<O: Operation>(progress: Progress<O, O::Outcome>, reply: Reply) -> Progress<O, O::Outcome> {
    match progress {
        Progress::Call(op, _) => {
            assert!(op.want().accepts(&reply));
            op.step(reply)
        }
        Progress::Finish(_) => panic!("the conversation has ended"),
    }
}

fn command<O, T>(progress: &Progress<O, T>) -> Command {
    match progress {
        Progress::Call(_, command) => command.clone(),
        Progress::Finish(_) => panic!("the conversation has ended"),
    }
}

fn outcome<O, T>(progress: Progress<O, T>) -> T {
    match progress {
        Progress::Call(_, command) => panic!("still at {:?}", command),
        Progress::Finish(outcome) => outcome,
    }
}

#[test]
fn an_exception_is_named() {
    let progress = jerr(JniError::JavaException);
    assert_eq!(command(&progress), Command::ClearException);
    let progress = take(progress, Reply::Done);
    assert_eq!(command(&progress), Command::TakeLastException);
    let progress = take(progress, Reply::Found(Some(ObjectId(8))));
    assert_eq!(command(&progress), Command::AttachVm);
    let progress = take(progress, Reply::Done);
    assert_eq!(command(&progress), Command::ClassName(ObjectId(8)));
    let progress = take(progress, Reply::Text("java/io/IOException".to_string()));
    assert_eq!(command(&progress), Command::ThrowableMessage(ObjectId(8)));
    let progress = take(progress, Reply::Text("read failed".to_string()));
    let error = outcome(progress);
    assert_eq!(error.kind(), ErrorKind::Other);
    assert_eq!(
        error.message(),
        Some("java/io/IOException: read failed".to_string())
    );
}

#[test]
fn an_exception_that_cannot_be_looked_into_is_the_error_itself() {
    let scripts: Vec<Vec<Reply>> = vec![
        vec![Reply::Done, Reply::Found(None)],
        vec![
            Reply::Done,
            Reply::Found(Some(ObjectId(8))),
            Reply::Failed(JniError::Other(jni::errors::Error::TryLock)),
        ],
        vec![
            Reply::Done,
            Reply::Found(Some(ObjectId(8))),
            Reply::Done,
            Reply::Failed(JniError::JavaException),
        ],
        vec![
            Reply::Done,
            Reply::Found(Some(ObjectId(8))),
            Reply::Done,
            Reply::Text("java/io/IOException".to_string()),
            Reply::Failed(JniError::JavaException),
        ],
    ];
    for script in scripts {
        let mut progress = jerr(JniError::JavaException);
        for reply in script {
            progress = take(progress, reply);
        }
        let error = outcome(progress);
        assert!(matches!(
            error,
            BluetoothError::Jni(JniError::JavaException)
        ));
        assert_eq!(error.kind(), ErrorKind::Other);
        assert_eq!(error.message(), None);
    }
}

#[test]
fn any_other_failure_is_the_error_itself_at_once() {
    let failure = jni::errors::Error::NullPtr("getAddress");
    let error = outcome(jerr(JniError::Other(failure)));
    match error {
        BluetoothError::Jni(JniError::Other(failure)) => {
            assert_eq!(failure.to_string(), "Null pointer in getAddress");
        }
        other => panic!("{:?}", other),
    }
}

#[test]
fn kinds_and_messages() {
    let service = BluetoothError::NoBluetoothService;
    assert_eq!(service.kind(), ErrorKind::Unsupported);
    assert_eq!(
        service.message(),
        Some("Cannot get BLUETOOTH_SERVICE".to_string())
    );
    let adapter = BluetoothError::NoAdapter;
    assert_eq!(adapter.kind(), ErrorKind::Unsupported);
    assert_eq!(
        adapter.message(),
        Some("`getAdapter` returned null".to_string())
    );
    assert_eq!(
        BluetoothError::PermissionDenied.kind(),
        ErrorKind::PermissionDenied
    );
    assert_eq!(BluetoothError::NotConnected.kind(), ErrorKind::NotConnected);
    assert_eq!(BluetoothError::TimedOut.kind(), ErrorKind::TimedOut);
    assert_eq!(BluetoothError::TimedOut.message(), None);
    let exception = BluetoothError::Exception {
        class: String::new(),
        message: String::new(),
    };
    assert_eq!(exception.message(), Some(": ".to_string()));
}
