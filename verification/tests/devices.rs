use android_bluetooth_serial::java::{
    Command, JavaMethod, JavaText, JniError, MethodId, ObjectId, Reply, Target,
};
use android_bluetooth_serial::socket::SocketParts;
use android_bluetooth_serial::{
    BluetoothDevice, BluetoothError, BluetoothSocket, Operation, Progress, SPP_UUID,
};

const DEVICE: BluetoothDevice = BluetoothDevice {
    internal: ObjectId(30),
};

fn take<O: Operation>(progress: Progress<O, O::Outcome>, reply: Reply) -> Progress<O, O::Outcome> {
    match progress {
        Progress::Call(op, _) => {
            assert!(op.want().accepts(&reply));
            op.step(reply)
        }
        Progress::Finish(_) => panic!("the conversation has ended"),
    }
}

fn take_all<O: Operation>(
    mut progress: Progress<O, O::Outcome>,
    replies: Vec<Reply>,
) -> Progress<O, O::Outcome> {
    for reply in replies {
        progress = take(progress, reply);
    }
    progress
}

fn command<O, T>(progress: &Progress<O, T>) -> Command {
    match progress {
        Progress::Call(_, command) => command.clone(),
        Progress::Finish(_) => panic!("the conversation has ended"),
    }
}

fn outcome<O, T>(progress: Progress<O, T>) -> T {
    match progress {
        Progress::Call(_, command) => panic!("still at {:?}", command),
        Progress::Finish(outcome) => outcome,
    }
}

fn object(id: u64) -> Reply {
    Reply::Object(ObjectId(id))
}

fn broken() -> Reply {
    Reply::Failed(JniError::Other(jni::errors::Error::TryLock))
}

#[test]
fn the_address_is_read() {
    let progress = take(DEVICE.get_address(), Reply::Done);
    assert_eq!(
        command(&progress),
        Command::CallObject {
            target: Target::Object(ObjectId(30)),
            method: JavaMethod::GetAddress,
            argument: None,
        }
    );
    let progress = take(progress, object(31));
    assert_eq!(command(&progress), Command::GetString(ObjectId(31)));
    let progress = take(progress, Reply::Text("00:11:22:AA:BB:CC".to_string()));
    assert_eq!(outcome(progress).unwrap(), "00:11:22:AA:BB:CC");
}

#[test]
fn a_null_address_is_read_all_the_same() {
    let progress = take_all(DEVICE.get_address(), vec![Reply::Done, object(0)]);
    assert_eq!(command(&progress), Command::GetString(ObjectId(0)));
    let progress = take(
        progress,
        Reply::Failed(JniError::Other(jni::errors::Error::NullPtr("class_check"))),
    );
    assert!(matches!(
        outcome(progress),
        Err(BluetoothError::Jni(JniError::Other(
            jni::errors::Error::NullPtr("class_check")
        )))
    ));
}

#[test]
fn the_name_is_read_unless_it_is_null() {
    let progress = take_all(DEVICE.get_name(), vec![Reply::Done, object(31)]);
    let progress = take(progress, Reply::Text("printer".to_string()));
    assert_eq!(outcome(progress).unwrap(), "printer");
    let progress = take_all(DEVICE.get_name(), vec![Reply::Done, object(0)]);
    assert!(matches!(
        outcome(progress),
        Err(BluetoothError::PermissionDenied)
    ));
    let progress = take_all(DEVICE.get_name(), vec![broken()]);
    assert!(matches!(outcome(progress), Err(BluetoothError::Jni(_))));
}

fn built() -> Vec<Reply> {
    vec![
        Reply::Done,
        object(50),
        object(51),
        object(52),
        object(53),
        Reply::Method(MethodId(1)),
        Reply::Method(MethodId(2)),
        object(54),
        object(55),
    ]
}

const PARTS: SocketParts = SocketParts {
    internal: ObjectId(40),
    input_stream: ObjectId(51),
    output_stream: ObjectId(53),
    jmethod_write: MethodId(1),
    jmethod_flush: MethodId(2),
    array_write: ObjectId(55),
};

#[test]
fn a_socket_is_prepared_for_use() {
    let expected = vec![
        Command::AttachVm,
        Command::CallObject {
            target: Target::Object(ObjectId(40)),
            method: JavaMethod::GetInputStream,
            argument: None,
        },
        Command::NewGlobalRef {
            object: ObjectId(50),
            checked: true,
        },
        Command::CallObject {
            target: Target::Object(ObjectId(40)),
            method: JavaMethod::GetOutputStream,
            argument: None,
        },
        Command::NewGlobalRef {
            object: ObjectId(52),
            checked: true,
        },
        Command::GetMethodId(JavaMethod::Write),
        Command::GetMethodId(JavaMethod::Flush),
        Command::NewByteArray(32 * 1024),
        Command::NewGlobalRef {
            object: ObjectId(54),
            checked: true,
        },
    ];
    let mut progress = BluetoothSocket::build(ObjectId(40));
    for (wanted, reply) in expected.into_iter().zip(built()) {
        assert_eq!(command(&progress), wanted);
        progress = take(progress, reply);
    }
    assert_eq!(outcome(progress).unwrap(), PARTS);
}

#[test]
fn preparing_a_socket_ends_at_the_first_failure() {
    for place in 0..9 {
        let mut script = built();
        script.truncate(place);
        script.push(broken());
        let progress = take_all(BluetoothSocket::build(ObjectId(40)), script);
        assert!(matches!(outcome(progress), Err(BluetoothError::Jni(_))));
    }
}

#[test]
fn a_fresh_socket_has_nothing_to_read_and_does_not_block() {
    let socket = BluetoothSocket::new(PARTS);
    assert_eq!(socket.internal, ObjectId(40));
    assert_eq!(socket.array_write, ObjectId(55));
    assert_eq!(socket.len_available(), 0);
    assert_eq!(socket.read_timeout, 0);
    assert_eq!(socket.thread_read, None);
    assert_eq!(socket.read_callback, None);
    assert!(!socket.closed);
}

#[test]
fn an_rfcomm_socket_is_created_securely_or_not() {
    for is_secure in [true, false] {
        let progress = DEVICE.build_rfcomm_socket(SPP_UUID, is_secure);
        assert_eq!(command(&progress), Command::AttachVm);
        let progress = take(progress, Reply::Done);
        assert_eq!(
            command(&progress),
            Command::NewString(JavaText::Given(SPP_UUID.to_string()))
        );
        let progress = take(progress, object(60));
        assert_eq!(
            command(&progress),
            Command::CallObject {
                target: Target::Class,
                method: JavaMethod::UuidFromString,
                argument: Some(ObjectId(60)),
            }
        );
        let progress = take(progress, object(61));
        assert_eq!(
            command(&progress),
            Command::CallObject {
                target: Target::Object(ObjectId(30)),
                method: if is_secure {
                    JavaMethod::CreateRfcommSocket
                } else {
                    JavaMethod::CreateInsecureRfcommSocket
                },
                argument: Some(ObjectId(61)),
            }
        );
        let progress = take(progress, object(62));
        assert_eq!(
            command(&progress),
            Command::NewGlobalRef {
                object: ObjectId(62),
                checked: true,
            }
        );
        let progress = take(progress, object(40));
        let progress = take_all(progress, built());
        assert_eq!(outcome(progress).unwrap(), PARTS);
    }
}

#[test]
fn a_bad_identifier_is_an_error() {
    let progress = take_all(
        DEVICE.build_rfcomm_socket("nonsense", true),
        vec![
            Reply::Done,
            object(60),
            Reply::Failed(JniError::JavaException),
            Reply::Done,
            Reply::Found(Some(ObjectId(9))),
            Reply::Done,
            Reply::Text("java/lang/IllegalArgumentException".to_string()),
            Reply::Text("Invalid UUID string: nonsense".to_string()),
        ],
    );
    assert_eq!(
        outcome(progress).unwrap_err().message(),
        Some("java/lang/IllegalArgumentException: Invalid UUID string: nonsense".to_string())
    );
}
