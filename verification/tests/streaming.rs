use android_bluetooth_serial::java::{
    Command, JavaMethod, JniError, MethodId, ObjectId, Reply, Target,
};
use android_bluetooth_serial::socket::SocketParts;
use android_bluetooth_serial::stream::{Read, NAP};
use android_bluetooth_serial::{
    BluetoothError, BluetoothSocket, Operation, Progress, SocketOperation,
};

type Reading = Progress<Read, Result<usize, BluetoothError>>;

fn fresh() -> BluetoothSocket {
    BluetoothSocket::new(SocketParts {
        internal: ObjectId(40),
        input_stream: ObjectId(51),
        output_stream: ObjectId(53),
        jmethod_write: MethodId(1),
        jmethod_flush: MethodId(2),
        array_write: ObjectId(55),
    })
}

fn take_read(
    progress: Reading,
    socket: &mut BluetoothSocket,
    out: &mut [u8],
    reply: Reply,
) -> Reading {
    match progress {
        Progress::Call(op, _) => {
            assert!(op.want().accepts(&reply));
            op.step(socket, out, reply)
        }
        Progress::Finish(_) => panic!("the read has ended"),
    }
}

fn take<O: SocketOperation>(
    progress: Progress<O, O::Outcome>,
    socket: &mut BluetoothSocket,
    reply: Reply,
) -> Progress<O, O::Outcome> {
    match progress {
        Progress::Call(op, _) => {
            assert!(op.want().accepts(&reply));
            op.step(socket, reply)
        }
        Progress::Finish(_) => panic!("the conversation has ended"),
    }
}

fn command<O, T>(progress: &Progress<O, T>) -> Command {
    match progress {
        Progress::Call(_, command) => command.clone(),
        Progress::Finish(_) => panic!("the conversation has ended"),
    }
}

fn outcome<O, T>(progress: Progress<O, T>) -> T {
    match progress {
        Progress::Call(_, command) => panic!("still at {:?}", command),
        Progress::Finish(outcome) => outcome,
    }
}

fn broken() -> Reply {
    Reply::Failed(JniError::Other(jni::errors::Error::TryLock))
}

#[test]
fn reading_no_bytes_succeeds_at_once() {
    let socket = fresh();
    assert_eq!(outcome(socket.read(&[])).unwrap(), 0);
}

#[test]
fn available_bytes_are_read_without_blocking() {
    let mut socket = fresh();
    socket.buf_read.write(&[1, 2, 3, 4]);
    let mut out = [0u8; 3];
    let progress = socket.read(&out);
    assert_eq!(command(&progress), Command::Clock);
    let progress = take_read(progress, &mut socket, &mut out, Reply::Time(1_000));
    assert_eq!(outcome(progress).unwrap(), 3);
    assert_eq!(out, [1, 2, 3]);
    assert_eq!(socket.len_available(), 1);
}

#[test]
fn without_a_timeout_a_read_takes_what_is_there() {
    let mut socket = fresh();
    socket.buf_read.write(&[1, 2]);
    let mut out = [9u8; 3];
    let progress = socket.read(&out);
    let progress = take_read(progress, &mut socket, &mut out, Reply::Time(1_000));
    assert_eq!(command(&progress), Command::AttachVm);
    let progress = take_read(progress, &mut socket, &mut out, Reply::Done);
    assert_eq!(
        command(&progress),
        Command::CallBoolean {
            target: Target::Object(ObjectId(40)),
            method: JavaMethod::IsConnected,
            remember: true,
        }
    );
    let progress = take_read(progress, &mut socket, &mut out, Reply::Bool(true));
    assert_eq!(command(&progress), Command::Clock);
    let progress = take_read(progress, &mut socket, &mut out, Reply::Time(1_001));
    assert_eq!(outcome(progress).unwrap(), 2);
    assert_eq!(out, [1, 2, 9]);
    assert_eq!(socket.len_available(), 0);
}

#[test]
fn if_the_clock_stands_still_the_nap_takes_no_time() {
    let mut socket = fresh();
    let mut out = [0u8; 1];
    let mut progress = socket.read(&out);
    for reply in [
        Reply::Time(1_000),
        Reply::Done,
        Reply::Bool(true),
        Reply::Time(1_000),
    ] {
        progress = take_read(progress, &mut socket, &mut out, reply);
    }
    assert_eq!(command(&progress), Command::Sleep(0));
}

#[test]
fn a_read_without_bytes_times_out() {
    let mut socket = fresh();
    let mut out = [0u8; 1];
    let mut progress = socket.read(&out);
    for reply in [
        Reply::Time(1_000),
        Reply::Done,
        Reply::Bool(true),
        Reply::Time(1_001),
    ] {
        progress = take_read(progress, &mut socket, &mut out, reply);
    }
    assert!(matches!(outcome(progress), Err(BluetoothError::TimedOut)));
}

#[test]
fn a_read_naps_until_bytes_come() {
    let mut socket = fresh();
    socket.set_read_timeout(250_000_000);
    let mut out = [0u8; 4];
    let mut progress = socket.read(&out);
    progress = take_read(progress, &mut socket, &mut out, Reply::Time(1_000_000_000));
    // The nap ends at the deadline at the latest.
    for (now, nap) in [
        (1_000_000_000u128, NAP),
        (1_100_000_000, NAP),
        (1_200_000_000, 50_000_000),
        (1_250_000_000, 0),
    ] {
        progress = take_read(progress, &mut socket, &mut out, Reply::Done);
        progress = take_read(progress, &mut socket, &mut out, Reply::Bool(true));
        progress = take_read(progress, &mut socket, &mut out, Reply::Time(now));
        assert_eq!(command(&progress), Command::Sleep(nap));
        if now == 1_100_000_000 {
            socket.buf_read.write(&[7, 8]);
        }
        progress = take_read(progress, &mut socket, &mut out, Reply::Done);
    }
    progress = take_read(progress, &mut socket, &mut out, Reply::Done);
    progress = take_read(progress, &mut socket, &mut out, Reply::Bool(true));
    progress = take_read(progress, &mut socket, &mut out, Reply::Time(1_250_000_001));
    assert_eq!(outcome(progress).unwrap(), 2);
    assert_eq!(out, [7, 8, 0, 0]);
}

#[test]
fn a_read_ends_as_soon_as_all_bytes_are_there() {
    let mut socket = fresh();
    socket.set_read_timeout(10_000_000_000);
    socket.buf_read.write(&[1]);
    let mut out = [0u8; 3];
    let mut progress = socket.read(&out);
    for reply in [
        Reply::Time(0),
        Reply::Done,
        Reply::Bool(true),
        Reply::Time(5),
    ] {
        progress = take_read(progress, &mut socket, &mut out, reply);
    }
    assert_eq!(command(&progress), Command::Sleep(NAP));
    socket.buf_read.write(&[2, 3, 4]);
    progress = take_read(progress, &mut socket, &mut out, Reply::Done);
    assert_eq!(outcome(progress).unwrap(), 3);
    assert_eq!(out, [1, 2, 3]);
    assert_eq!(socket.len_available(), 1);
}

#[test]
fn a_disconnected_socket_hands_over_what_is_left() {
    let mut socket = fresh();
    socket.set_read_timeout(10_000_000_000);
    socket.buf_read.write(&[5]);
    let mut out = [0u8; 2];
    let mut progress = socket.read(&out);
    for reply in [Reply::Time(0), Reply::Done, Reply::Bool(false)] {
        progress = take_read(progress, &mut socket, &mut out, reply);
    }
    assert_eq!(outcome(progress).unwrap(), 1);
    let mut progress = socket.read(&out);
    for reply in [Reply::Time(0), Reply::Done, Reply::Bool(false)] {
        progress = take_read(progress, &mut socket, &mut out, reply);
    }
    assert!(matches!(
        outcome(progress),
        Err(BluetoothError::NotConnected)
    ));
}

#[test]
fn a_status_that_cannot_be_had_ends_the_read() {
    let mut socket = fresh();
    socket.buf_read.write(&[5]);
    let mut out = [0u8; 2];
    let mut progress = socket.read(&out);
    for reply in [Reply::Time(0), Reply::Done, broken()] {
        progress = take_read(progress, &mut socket, &mut out, reply);
    }
    assert!(matches!(outcome(progress), Err(BluetoothError::Jni(_))));
}

#[test]
fn a_time_without_room_for_the_timeout_is_not_accepted() {
    let mut socket = fresh();
    socket.set_read_timeout(std::time::Duration::MAX.as_nanos());
    match socket.read(&[0u8; 1]) {
        Progress::Call(op, _) => {
            assert!(op.want().accepts(&Reply::Time(0)));
            assert!(!op.want().accepts(&Reply::Time(1)));
        }
        Progress::Finish(_) => unreachable!(),
    }
}

#[test]
fn writing_no_bytes_succeeds_at_once() {
    let socket = fresh();
    assert_eq!(outcome(socket.write(&[])).unwrap(), 0);
}

#[test]
fn bytes_that_fit_into_the_array_are_copied_there() {
    for len in [3, 32768, -1] {
        let mut socket = fresh();
        let progress = socket.write(&[1, 2, 3]);
        assert_eq!(command(&progress), Command::AttachVm);
        let progress = take(progress, &mut socket, Reply::Done);
        assert_eq!(command(&progress), Command::ArrayLength(ObjectId(55)));
        let progress = take(progress, &mut socket, Reply::Int(len));
        assert_eq!(
            command(&progress),
            Command::SetRegion {
                array: ObjectId(55),
                bytes: vec![1, 2, 3],
            }
        );
        let progress = take(progress, &mut socket, Reply::Done);
        assert_eq!(
            command(&progress),
            Command::CallWrite {
                stream: ObjectId(53),
                method: MethodId(1),
                array: ObjectId(55),
                count: 3,
            }
        );
        let progress = take(progress, &mut socket, Reply::Done);
        assert_eq!(outcome(progress).unwrap(), 3);
        assert_eq!(socket.array_write, ObjectId(55));
    }
}

#[test]
fn bytes_that_do_not_fit_get_a_new_array() {
    let mut socket = fresh();
    let progress = socket.write(&[1, 2, 3]);
    let progress = take(progress, &mut socket, Reply::Done);
    let progress = take(progress, &mut socket, Reply::Int(2));
    assert_eq!(command(&progress), Command::ByteArrayFrom(vec![1, 2, 3]));
    let progress = take(progress, &mut socket, Reply::Object(ObjectId(90)));
    assert_eq!(
        command(&progress),
        Command::NewGlobalRef {
            object: ObjectId(90),
            checked: true,
        }
    );
    assert_eq!(socket.array_write, ObjectId(55));
    let progress = take(progress, &mut socket, Reply::Object(ObjectId(91)));
    assert_eq!(
        command(&progress),
        Command::CallWrite {
            stream: ObjectId(53),
            method: MethodId(1),
            array: ObjectId(91),
            count: 3,
        }
    );
    assert_eq!(socket.array_write, ObjectId(91));
    let progress = take(progress, &mut socket, Reply::Done);
    assert_eq!(outcome(progress).unwrap(), 3);
}

#[test]
fn writes_send_their_bytes_one_after_the_other() {
    let mut socket = fresh();
    let mut arrays: Vec<(ObjectId, Vec<u8>)> = vec![(ObjectId(55), vec![0; 4])];
    let mut sent: Vec<u8> = vec![];
    let mut total = 0;
    socket.set_read_timeout(7);
    socket.buf_read.write(&[1, 2]);
    let writes: [&[u8]; 5] = [&[1, 2, 3], &[4], &[], &[5, 6, 7, 8, 9, 10], &[11, 12]];
    for bytes in writes {
        let mut progress = socket.write(bytes);
        while let Progress::Call(_, command) = &progress {
            let held = |id: &ObjectId| arrays.iter().rev().find(|(array, _)| array == id).unwrap();
            let reply = match command.clone() {
                Command::ArrayLength(id) => Reply::Int(held(&id).1.len() as i32),
                Command::SetRegion { array, bytes } => {
                    let mut contents = held(&array).1.clone();
                    contents[..bytes.len()].copy_from_slice(&bytes);
                    arrays.push((array, contents));
                    Reply::Done
                }
                Command::ByteArrayFrom(bytes) => {
                    let id = ObjectId(100 + arrays.len() as u64);
                    arrays.push((id, bytes));
                    Reply::Object(id)
                }
                Command::NewGlobalRef { object, .. } => {
                    let contents = held(&object).1.clone();
                    let id = ObjectId(100 + arrays.len() as u64);
                    arrays.push((id, contents));
                    Reply::Object(id)
                }
                Command::CallWrite { array, count, .. } => {
                    sent.extend_from_slice(&held(&array).1[..count]);
                    Reply::Done
                }
                _ => Reply::Done,
            };
            progress = take(progress, &mut socket, reply);
        }
        total += outcome(progress).unwrap();
    }
    assert_eq!(sent, [1, 2, 3, 4, 5, 6, 7, 8, 9, 10, 11, 12]);
    assert_eq!(total, 12);
    assert_eq!(socket.len_available(), 2);
    assert_eq!(socket.read_timeout, 7);
}

#[test]
fn bytes_that_arrive_while_a_read_lasts_are_read_in_their_order() {
    let mut socket = fresh();
    socket.set_read_timeout(NAP * 10);
    socket.buf_read.write(&[1]);
    let mut out = [9u8; 8];
    let mut progress = socket.read(&out);
    progress = take_read(progress, &mut socket, &mut out, Reply::Time(0));
    for chunk in [vec![2u8, 3], vec![], vec![4u8]] {
        progress = take_read(progress, &mut socket, &mut out, Reply::Done);
        socket.buf_read.write(&chunk);
        progress = take_read(progress, &mut socket, &mut out, Reply::Bool(true));
        progress = take_read(progress, &mut socket, &mut out, Reply::Time(1));
        progress = take_read(progress, &mut socket, &mut out, Reply::Done);
    }
    socket.buf_read.write(&[5]);
    progress = take_read(progress, &mut socket, &mut out, Reply::Done);
    progress = take_read(progress, &mut socket, &mut out, Reply::Bool(false));
    assert_eq!(outcome(progress).unwrap(), 4);
    assert_eq!(out, [1, 2, 3, 4, 9, 9, 9, 9]);
    assert_eq!(socket.len_available(), 1);
}

#[test]
fn reads_one_after_the_other_hand_over_the_stream() {
    let mut socket = fresh();
    socket.buf_read.write(&[1, 2, 3]);
    let mut handed_over: Vec<u8> = vec![];
    for (len, arrived) in [
        (2, vec![4u8, 5]),
        (0, vec![6]),
        (4, vec![]),
        (3, vec![7, 8]),
        (1, vec![]),
    ] {
        let mut out = vec![0u8; len];
        let mut progress = socket.read(&out);
        let mut time = 0;
        while let Progress::Call(_, command) = &progress {
            let reply = match command {
                Command::Clock => {
                    time += 1;
                    Reply::Time(time)
                }
                Command::CallBoolean { .. } => Reply::Bool(true),
                _ => Reply::Done,
            };
            progress = take_read(progress, &mut socket, &mut out, reply);
        }
        if let Ok(count) = outcome(progress) {
            handed_over.extend_from_slice(&out[..count]);
        }
        socket.buf_read.write(&arrived);
    }
    assert_eq!(handed_over, [1, 2, 3, 4, 5, 6, 7]);
    assert_eq!(socket.len_available(), 1);
}

fn failed_write(replies: Vec<Reply>) -> BluetoothError {
    let mut socket = fresh();
    let mut progress = socket.write(&[1]);
    for reply in [
        Reply::Done,
        Reply::Int(32768),
        Reply::Done,
        Reply::Failed(JniError::JavaException),
    ] {
        progress = take(progress, &mut socket, reply);
    }
    for reply in replies {
        progress = take(progress, &mut socket, reply);
    }
    outcome(progress).unwrap_err()
}

#[test]
fn a_failed_write_on_a_disconnected_socket_is_not_connected() {
    let error = failed_write(vec![Reply::Done, Reply::Bool(false)]);
    assert!(matches!(error, BluetoothError::NotConnected));
    let error = failed_write(vec![Reply::Done, broken()]);
    assert!(matches!(error, BluetoothError::NotConnected));
    let error = failed_write(vec![broken()]);
    assert!(matches!(error, BluetoothError::NotConnected));
}

#[test]
fn a_failed_write_on_a_connected_socket_is_explained() {
    let error = failed_write(vec![
        Reply::Done,
        Reply::Bool(true),
        Reply::Done,
        Reply::Found(Some(ObjectId(9))),
        Reply::Done,
        Reply::Text("java/io/IOException".to_string()),
        Reply::Text("Broken pipe".to_string()),
    ]);
    assert_eq!(
        error.message(),
        Some("java/io/IOException: Broken pipe".to_string())
    );
}

#[test]
fn a_write_is_broken_off_by_a_failure_before_it_is_sent() {
    let scripts = vec![
        vec![broken()],
        vec![Reply::Done, broken()],
        vec![Reply::Done, Reply::Int(0), broken()],
        vec![
            Reply::Done,
            Reply::Int(0),
            Reply::Object(ObjectId(90)),
            broken(),
        ],
        vec![Reply::Done, Reply::Int(9), broken()],
    ];
    for script in scripts {
        let mut socket = fresh();
        let mut progress = socket.write(&[1, 2]);
        for reply in script {
            progress = take(progress, &mut socket, reply);
        }
        assert!(matches!(outcome(progress), Err(BluetoothError::Jni(_))));
        assert_eq!(socket.array_write, ObjectId(55));
    }
}

#[test]
fn a_flush_succeeds_or_fails_with_its_commands() {
    let run = |replies: Vec<Reply>| {
        let mut progress = fresh().flush();
        for reply in replies {
            progress = match progress {
                Progress::Call(op, _) => {
                    assert!(op.want().accepts(&reply));
                    op.step(reply)
                }
                Progress::Finish(_) => panic!("the flush has ended"),
            };
        }
        outcome(progress)
    };
    assert!(run(vec![Reply::Done, Reply::Done]).is_ok());
    assert!(run(vec![broken()]).is_err());
    assert!(run(vec![Reply::Done, broken()]).is_err());
}
