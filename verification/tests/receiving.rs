use android_bluetooth_serial::java::{
    CallbackId, Command, JavaMethod, JniError, MethodId, ObjectId, Reply, Target, Want,
};
use android_bluetooth_serial::reader::ReadLoop;
use android_bluetooth_serial::socket::SocketParts;
use android_bluetooth_serial::{BluetoothError, BluetoothSocket, Progress, SocketOperation};

type Loop = Progress<ReadLoop, Result<(), BluetoothError>>;

fn fresh() -> BluetoothSocket {
    let mut socket = BluetoothSocket::new(SocketParts {
        internal: ObjectId(40),
        input_stream: ObjectId(51),
        output_stream: ObjectId(53),
        jmethod_write: MethodId(1),
        jmethod_flush: MethodId(2),
        array_write: ObjectId(55),
    });
    socket.set_read_callback(CallbackId(1));
    socket
}

fn take(progress: Loop, socket: &mut BluetoothSocket, reply: Reply) -> Loop {
    match progress {
        Progress::Call(op, _) => {
            assert!(op.want().accepts(&reply));
            op.step(socket, reply)
        }
        Progress::Finish(_) => panic!("the loop has ended"),
    }
}

fn take_all(mut progress: Loop, socket: &mut BluetoothSocket, replies: Vec<Reply>) -> Loop {
    for reply in replies {
        progress = take(progress, socket, reply);
    }
    progress
}

fn command(progress: &Loop) -> Command {
    match progress {
        Progress::Call(_, command) => command.clone(),
        Progress::Finish(_) => panic!("the loop has ended"),
    }
}

fn want(progress: &Loop) -> Want {
    match progress {
        Progress::Call(op, _) => op.want(),
        Progress::Finish(_) => panic!("the loop has ended"),
    }
}

fn outcome(progress: Loop) -> Result<(), BluetoothError> {
    match progress {
        Progress::Call(_, command) => panic!("still at {:?}", command),
        Progress::Finish(outcome) => outcome,
    }
}

fn broken() -> Reply {
    Reply::Failed(JniError::Other(jni::errors::Error::TryLock))
}

fn call_read(len: i32) -> Command {
    Command::CallRead {
        stream: ObjectId(51),
        method: MethodId(9),
        array: ObjectId(70),
        len,
    }
}

fn notify(arrived: Option<usize>) -> Command {
    Command::Notify { arrived }
}

fn is_connected() -> Command {
    Command::CallBoolean {
        target: Target::Object(ObjectId(40)),
        method: JavaMethod::IsConnected,
        remember: true,
    }
}

fn started(socket: &mut BluetoothSocket, size: i32) -> Loop {
    let progress = socket.read_loop();
    take_all(
        progress,
        socket,
        vec![
            Reply::Done,
            Reply::Method(MethodId(9)),
            Reply::Int(size),
            Reply::Object(ObjectId(70)),
        ],
    )
}

#[test]
fn the_loop_prepares_an_array_for_a_packet() {
    let mut socket = fresh();
    let progress = socket.read_loop();
    assert_eq!(command(&progress), Command::AttachVm);
    let progress = take(progress, &mut socket, Reply::Done);
    assert_eq!(command(&progress), Command::GetMethodId(JavaMethod::Read));
    let progress = take(progress, &mut socket, Reply::Method(MethodId(9)));
    assert_eq!(
        command(&progress),
        Command::CallInt {
            target: Target::Object(ObjectId(40)),
            method: JavaMethod::GetMaxReceivePacketSize,
        }
    );
    assert!(!want(&progress).accepts(&Reply::Int(-1)));
    let progress = take(progress, &mut socket, Reply::Int(990));
    assert_eq!(command(&progress), Command::NewByteArray(990));
    let progress = take(progress, &mut socket, Reply::Object(ObjectId(70)));
    assert_eq!(command(&progress), call_read(990));
    assert!(!want(&progress).accepts(&Reply::Int(991)));
}

#[test]
fn without_a_packet_size_the_array_has_the_usual_size() {
    let mut socket = fresh();
    let progress = socket.read_loop();
    let progress = take_all(
        progress,
        &mut socket,
        vec![
            Reply::Done,
            Reply::Method(MethodId(9)),
            Reply::Failed(JniError::JavaException),
        ],
    );
    assert_eq!(command(&progress), Command::NewByteArray(32768));
}

#[test]
fn received_bytes_are_buffered_and_announced() {
    let mut socket = fresh();
    let mut progress = started(&mut socket, 990);
    for chunk in [vec![1u8, 2, 3], vec![4u8], vec![5u8, 6]] {
        let before = socket.len_available();
        progress = take(progress, &mut socket, Reply::Int(chunk.len() as i32));
        assert_eq!(
            command(&progress),
            Command::GetRegion {
                array: ObjectId(70),
                count: chunk.len(),
            }
        );
        assert_eq!(socket.len_available(), before);
        progress = take(progress, &mut socket, Reply::Bytes(chunk.clone()));
        assert_eq!(command(&progress), notify(Some(chunk.len())));
        assert_eq!(socket.len_available(), before + chunk.len());
        progress = take(progress, &mut socket, Reply::Done);
        assert_eq!(command(&progress), call_read(990));
    }
    let mut out = [0u8; 6];
    assert_eq!(socket.buf_read.read(&mut out, 0), 6);
    assert_eq!(out, [1, 2, 3, 4, 5, 6]);
}

#[test]
fn the_loop_does_not_choose_the_callback() {
    let mut socket = fresh();
    let progress = started(&mut socket, 990);
    let progress = take(progress, &mut socket, Reply::Int(1));
    let progress = take(progress, &mut socket, Reply::Bytes(vec![1]));
    assert_eq!(command(&progress), notify(Some(1)));
    socket.set_read_callback(CallbackId(2));
    let progress = take(progress, &mut socket, Reply::Done);
    assert_eq!(command(&progress), call_read(990));
    assert_eq!(socket.read_callback, Some(CallbackId(2)));
}

#[test]
fn nothing_received_is_nothing_announced() {
    let mut socket = fresh();
    let progress = started(&mut socket, 990);
    let progress = take(progress, &mut socket, Reply::Int(0));
    assert_eq!(command(&progress), call_read(990));
    assert_eq!(socket.len_available(), 0);
}

#[test]
fn at_the_end_of_the_stream_the_connection_status_decides() {
    let ask = Command::CallBoolean {
        target: Target::Object(ObjectId(40)),
        method: JavaMethod::IsConnected,
        remember: false,
    };
    let mut socket = fresh();
    let mut progress = started(&mut socket, 990);
    for answer in [
        Reply::Bool(true),
        broken(),
        Reply::Failed(JniError::JavaException),
    ] {
        progress = take(progress, &mut socket, Reply::Int(-1));
        assert_eq!(command(&progress), ask);
        progress = take(progress, &mut socket, answer);
        assert_eq!(command(&progress), call_read(990));
    }
    progress = take(progress, &mut socket, Reply::Int(-1));
    progress = take(progress, &mut socket, Reply::Bool(false));
    assert_eq!(command(&progress), notify(None));
    progress = take(progress, &mut socket, Reply::Done);
    assert!(outcome(progress).is_ok());
    assert!(!socket.closed);
}

#[test]
fn a_closed_socket_ends_the_loop() {
    for closed in [Reply::Done, Reply::Failed(JniError::JavaException)] {
        let mut socket = fresh();
        let progress = started(&mut socket, 990);
        let progress = take(progress, &mut socket, Reply::Failed(JniError::JavaException));
        assert_eq!(command(&progress), Command::TakeLastException);
        let progress = take(progress, &mut socket, Reply::Found(Some(ObjectId(80))));
        assert_eq!(command(&progress), Command::ThrowableMessage(ObjectId(80)));
        assert!(!want(&progress).accepts(&broken()));
        let progress = take(
            progress,
            &mut socket,
            Reply::Text("bt socket Closed, read return: -1".to_string()),
        );
        assert_eq!(
            command(&progress),
            Command::CallVoid {
                target: Target::Object(ObjectId(40)),
                method: JavaMethod::Close,
                remember: false,
            }
        );
        let succeeded = matches!(closed, Reply::Done);
        let progress = take(progress, &mut socket, closed);
        assert_eq!(socket.closed, succeeded);
        assert_eq!(command(&progress), notify(None));
        let progress = take(progress, &mut socket, Reply::Done);
        assert!(outcome(progress).is_ok());
    }
}

#[test]
fn after_another_failure_the_connection_status_decides() {
    let by_exception = || {
        vec![
            Reply::Failed(JniError::JavaException),
            Reply::Found(Some(ObjectId(80))),
            Reply::Text("Broken pipe".to_string()),
        ]
    };
    let without_exception = || vec![broken(), Reply::Found(None)];
    for script in [by_exception(), without_exception()] {
        let mut socket = fresh();
        let progress = started(&mut socket, 990);
        let progress = take_all(progress, &mut socket, script);
        assert_eq!(command(&progress), is_connected());
        let progress = take(progress, &mut socket, Reply::Bool(true));
        assert_eq!(command(&progress), call_read(990));
    }
    for script in [by_exception(), without_exception()] {
        let mut socket = fresh();
        let progress = started(&mut socket, 990);
        let progress = take_all(progress, &mut socket, script);
        let progress = take(progress, &mut socket, Reply::Bool(false));
        assert_eq!(command(&progress), notify(None));
        let progress = take(progress, &mut socket, Reply::Done);
        assert!(outcome(progress).is_ok());
    }
}

#[test]
fn the_loop_is_broken_off_without_a_farewell() {
    let scripts = vec![
        vec![broken()],
        vec![Reply::Done, broken()],
        vec![
            Reply::Done,
            Reply::Method(MethodId(9)),
            Reply::Int(990),
            broken(),
        ],
        vec![
            Reply::Done,
            Reply::Method(MethodId(9)),
            Reply::Int(990),
            Reply::Object(ObjectId(70)),
            Reply::Int(3),
            broken(),
        ],
        vec![
            Reply::Done,
            Reply::Method(MethodId(9)),
            Reply::Int(990),
            Reply::Object(ObjectId(70)),
            broken(),
            Reply::Found(None),
            broken(),
        ],
    ];
    for script in scripts {
        let mut socket = fresh();
        let mut progress = socket.read_loop();
        for reply in script {
            progress = take(progress, &mut socket, reply);
            if let Progress::Call(_, command) = &progress {
                assert!(!matches!(command, Command::Notify { .. }));
            }
        }
        assert!(matches!(outcome(progress), Err(BluetoothError::Jni(_))));
        assert_eq!(socket.len_available(), 0);
    }
}
