use android_bluetooth_serial::java::{
    CallbackId, Command, JavaMethod, JniError, MethodId, ObjectId, Reply, Target, ThreadId,
};
use android_bluetooth_serial::socket::SocketParts;
use android_bluetooth_serial::{
    BluetoothError, BluetoothSocket, Operation, Progress, SocketOperation,
};

fn fresh() -> BluetoothSocket {
    BluetoothSocket::new(SocketParts {
        internal: ObjectId(40),
        input_stream: ObjectId(51),
        output_stream: ObjectId(53),
        jmethod_write: MethodId(1),
        jmethod_flush: MethodId(2),
        array_write: ObjectId(55),
    })
}

fn take<O: SocketOperation>(
    progress: Progress<O, O::Outcome>,
    socket: &mut BluetoothSocket,
    reply: Reply,
) -> Progress<O, O::Outcome> {
    match progress {
        Progress::Call(op, _) => {
            assert!(op.want().accepts(&reply));
            op.step(socket, reply)
        }
        Progress::Finish(_) => panic!("the conversation has ended"),
    }
}

fn take_all<O: SocketOperation>(
    mut progress: Progress<O, O::Outcome>,
    socket: &mut BluetoothSocket,
    replies: Vec<Reply>,
) -> Progress<O, O::Outcome> {
    for reply in replies {
        progress = take(progress, socket, reply);
    }
    progress
}

fn command<O, T>(progress: &Progress<O, T>) -> Command {
    match progress {
        Progress::Call(_, command) => command.clone(),
        Progress::Finish(_) => panic!("the conversation has ended"),
    }
}

fn outcome<O, T>(progress: Progress<O, T>) -> T {
    match progress {
        Progress::Call(_, command) => panic!("still at {:?}", command),
        Progress::Finish(outcome) => outcome,
    }
}

fn broken() -> Reply {
    Reply::Failed(JniError::Other(jni::errors::Error::TryLock))
}

fn status(connected: bool) -> Vec<Reply> {
    vec![Reply::Done, Reply::Bool(connected)]
}

#[test]
fn the_connection_status_is_what_the_java_socket_says() {
    for connected in [true, false] {
        let mut progress = fresh().is_connected();
        assert_eq!(command(&progress), Command::AttachVm);
        progress = match progress {
            Progress::Call(op, _) => op.step(Reply::Done),
            other => other,
        };
        assert_eq!(
            command(&progress),
            Command::CallBoolean {
                target: Target::Object(ObjectId(40)),
                method: JavaMethod::IsConnected,
                remember: true,
            }
        );
        progress = match progress {
            Progress::Call(op, _) => op.step(Reply::Bool(connected)),
            other => other,
        };
        assert_eq!(outcome(progress).unwrap(), connected);
    }
}

#[test]
fn connecting_a_connected_socket_does_nothing() {
    let mut socket = fresh();
    let progress = socket.connect();
    let progress = take_all(progress, &mut socket, status(true));
    assert!(outcome(progress).is_ok());
    assert_eq!(socket.thread_read, None);
}

fn up_to_connect(cancelled: Reply) -> Vec<Reply> {
    let mut script = status(false);
    script.push(Reply::Found(Some(ObjectId(5))));
    script.push(Reply::Done);
    script.push(cancelled);
    script
}

#[test]
fn a_connected_socket_gets_a_background_thread() {
    for cancelled in [Reply::Done, Reply::Failed(JniError::JavaException)] {
        let mut socket = fresh();
        let progress = socket.connect();
        let mut script = status(false);
        script.push(Reply::Found(Some(ObjectId(5))));
        let progress = take_all(progress, &mut socket, script);
        assert_eq!(command(&progress), Command::AttachVm);
        let progress = take(progress, &mut socket, Reply::Done);
        assert_eq!(
            command(&progress),
            Command::CallVoid {
                target: Target::Object(ObjectId(5)),
                method: JavaMethod::CancelDiscovery,
                remember: true,
            }
        );
        let progress = take(progress, &mut socket, cancelled);
        assert_eq!(
            command(&progress),
            Command::CallVoid {
                target: Target::Object(ObjectId(40)),
                method: JavaMethod::Connect,
                remember: true,
            }
        );
        let progress = take(progress, &mut socket, Reply::Done);
        let progress = take_all(progress, &mut socket, status(true));
        assert_eq!(command(&progress), Command::SpawnReader);
        assert_eq!(socket.thread_read, None);
        let progress = take(progress, &mut socket, Reply::Thread(ThreadId(7)));
        assert!(outcome(progress).is_ok());
        assert_eq!(socket.thread_read, Some(ThreadId(7)));
    }
}

#[test]
fn a_new_thread_replaces_an_old_one() {
    let mut socket = fresh();
    socket.thread_read = Some(ThreadId(1));
    let progress = socket.connect();
    let progress = take_all(progress, &mut socket, up_to_connect(Reply::Done));
    let progress = take(progress, &mut socket, Reply::Done);
    let progress = take_all(progress, &mut socket, status(true));
    let progress = take(progress, &mut socket, Reply::Thread(ThreadId(2)));
    assert!(outcome(progress).is_ok());
    assert_eq!(socket.thread_read, Some(ThreadId(2)));
}

#[test]
fn a_socket_that_does_not_stay_connected_is_not_connected() {
    let mut socket = fresh();
    let progress = socket.connect();
    let progress = take_all(progress, &mut socket, up_to_connect(Reply::Done));
    let progress = take(progress, &mut socket, Reply::Done);
    let progress = take_all(progress, &mut socket, status(false));
    assert!(matches!(
        outcome(progress),
        Err(BluetoothError::NotConnected)
    ));
    assert_eq!(socket.thread_read, None);
}

#[test]
fn a_refused_connection_is_explained() {
    let mut socket = fresh();
    let progress = socket.connect();
    let progress = take_all(progress, &mut socket, up_to_connect(Reply::Done));
    let progress = take_all(
        progress,
        &mut socket,
        vec![
            Reply::Failed(JniError::JavaException),
            Reply::Done,
            Reply::Found(Some(ObjectId(9))),
            Reply::Done,
            Reply::Text("java/io/IOException".to_string()),
            Reply::Text("read failed, socket might closed or timeout".to_string()),
        ],
    );
    assert_eq!(
        outcome(progress).unwrap_err().message(),
        Some("java/io/IOException: read failed, socket might closed or timeout".to_string())
    );
    assert_eq!(socket.thread_read, None);
}

#[test]
fn connecting_needs_the_status_and_the_adapter() {
    let mut socket = fresh();
    let progress = socket.connect();
    let progress = take_all(progress, &mut socket, vec![Reply::Done, broken()]);
    assert!(matches!(outcome(progress), Err(BluetoothError::Jni(_))));
    let progress = socket.connect();
    let mut script = status(false);
    script.extend(vec![
        Reply::Found(None),
        Reply::Done,
        Reply::Object(ObjectId(1)),
        Reply::Object(ObjectId(0)),
    ]);
    let progress = take_all(progress, &mut socket, script);
    assert!(matches!(
        outcome(progress),
        Err(BluetoothError::NoBluetoothService)
    ));
}

fn java_close() -> Command {
    Command::CallVoid {
        target: Target::Object(ObjectId(40)),
        method: JavaMethod::Close,
        remember: true,
    }
}

#[test]
fn closing_releases_a_socket_that_was_never_connected() {
    let mut socket = fresh();
    assert!(!socket.closed);
    let progress = socket.close();
    let progress = take_all(progress, &mut socket, status(false));
    assert_eq!(command(&progress), Command::AttachVm);
    let progress = take(progress, &mut socket, Reply::Done);
    assert_eq!(command(&progress), java_close());
    let progress = take(progress, &mut socket, Reply::Done);
    assert!(outcome(progress).is_ok());
    assert!(socket.closed);
}

#[test]
fn closing_a_disconnected_socket_waits_for_the_thread() {
    let mut socket = fresh();
    socket.thread_read = Some(ThreadId(3));
    let progress = socket.close();
    let progress = take_all(progress, &mut socket, status(false));
    let progress = take_all(progress, &mut socket, vec![Reply::Done, Reply::Done]);
    assert_eq!(command(&progress), Command::JoinReader(ThreadId(3)));
    let progress = take(progress, &mut socket, Reply::Done);
    assert!(outcome(progress).is_ok());
    assert!(socket.closed);
    assert_eq!(socket.thread_read, None);
}

#[test]
fn a_disconnected_socket_that_cannot_be_closed_can_be_closed_later() {
    let mut socket = fresh();
    for reply in [broken(), Reply::Done] {
        let progress = socket.close();
        let progress = take_all(progress, &mut socket, status(false));
        let progress = take_all(progress, &mut socket, vec![Reply::Done]);
        assert_eq!(command(&progress), java_close());
        let succeeds = matches!(reply, Reply::Done);
        let progress = take(progress, &mut socket, reply);
        assert_eq!(outcome(progress).is_ok(), succeeds);
        assert_eq!(socket.closed, succeeds);
    }
}

#[test]
fn closing_a_closed_socket_has_no_effect() {
    let mut socket = fresh();
    let progress = socket.close();
    let progress = take_all(progress, &mut socket, status(true));
    let progress = take_all(
        progress,
        &mut socket,
        vec![Reply::Done, Reply::Done, Reply::Done, Reply::Done],
    );
    assert!(outcome(progress).is_ok());
    assert!(socket.closed);
    let progress = socket.close();
    let progress = take_all(progress, &mut socket, status(false));
    assert!(outcome(progress).is_ok());
    assert!(socket.closed);
}

#[test]
fn closing_flushes_closes_and_waits_for_the_thread() {
    let mut socket = fresh();
    socket.thread_read = Some(ThreadId(3));
    let progress = socket.close();
    let progress = take_all(progress, &mut socket, status(true));
    assert_eq!(command(&progress), Command::AttachVm);
    let progress = take(progress, &mut socket, Reply::Done);
    assert_eq!(
        command(&progress),
        Command::CallFlush {
            stream: ObjectId(53),
            method: MethodId(2),
        }
    );
    let progress = take(progress, &mut socket, Reply::Done);
    assert_eq!(command(&progress), Command::AttachVm);
    let progress = take(progress, &mut socket, Reply::Done);
    assert_eq!(
        command(&progress),
        Command::CallVoid {
            target: Target::Object(ObjectId(40)),
            method: JavaMethod::Close,
            remember: true,
        }
    );
    let progress = take(progress, &mut socket, Reply::Done);
    assert_eq!(command(&progress), Command::JoinReader(ThreadId(3)));
    assert_eq!(socket.thread_read, None);
    let progress = take(progress, &mut socket, Reply::Done);
    assert!(outcome(progress).is_ok());
    assert_eq!(socket.thread_read, None);
}

#[test]
fn closing_goes_on_after_a_failed_flush() {
    let mut socket = fresh();
    let progress = socket.close();
    let progress = take_all(progress, &mut socket, status(true));
    let progress = take_all(progress, &mut socket, vec![Reply::Done, broken()]);
    assert_eq!(command(&progress), Command::AttachVm);
    let progress = take_all(progress, &mut socket, vec![Reply::Done, Reply::Done]);
    assert!(outcome(progress).is_ok());
}

#[test]
fn a_socket_that_cannot_be_closed_stays_as_it_is() {
    let mut socket = fresh();
    socket.thread_read = Some(ThreadId(3));
    let progress = socket.close();
    let progress = take_all(progress, &mut socket, status(true));
    let progress = take_all(
        progress,
        &mut socket,
        vec![Reply::Done, Reply::Done, Reply::Done, broken()],
    );
    assert!(matches!(outcome(progress), Err(BluetoothError::Jni(_))));
    assert_eq!(socket.thread_read, Some(ThreadId(3)));
    assert!(!socket.closed);
}

#[test]
fn settings_are_kept() {
    let mut socket = fresh();
    socket.set_read_timeout(1_500_000_000);
    assert_eq!(socket.read_timeout, 1_500_000_000);
    socket.set_read_callback(CallbackId(1));
    socket.set_read_callback(CallbackId(2));
    assert_eq!(socket.read_callback, Some(CallbackId(2)));
    socket.buf_read.write(&[1, 2, 3]);
    assert_eq!(socket.len_available(), 3);
    socket.clear_read_buf();
    assert_eq!(socket.len_available(), 0);
    assert_eq!(socket.read_timeout, 1_500_000_000);
}
