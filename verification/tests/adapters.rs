use android_bluetooth_serial::adapter::GetBondedDevices;
use android_bluetooth_serial::java::{
    Command, JavaMethod, JavaText, JniError, ObjectId, Reply, Target,
};
use android_bluetooth_serial::{
    bluetooth_adapter, get_bluetooth_adapter, get_bonded_devices, is_enabled, BluetoothDevice,
    BluetoothError, Operation, Progress,
};

fn take<O: Operation>(progress: Progress<O, O::Outcome>, reply: Reply) -> Progress<O, O::Outcome> {
    match progress {
        Progress::Call(op, _) => {
            assert!(op.want().accepts(&reply));
            op.step(reply)
        }
        Progress::Finish(_) => panic!("the conversation has ended"),
    }
}

fn take_all<O: Operation>(
    mut progress: Progress<O, O::Outcome>,
    replies: Vec<Reply>,
) -> Progress<O, O::Outcome> {
    for reply in replies {
        progress = take(progress, reply);
    }
    progress
}

fn command<O, T>(progress: &Progress<O, T>) -> Command {
    match progress {
        Progress::Call(_, command) => command.clone(),
        Progress::Finish(_) => panic!("the conversation has ended"),
    }
}

fn outcome<O, T>(progress: Progress<O, T>) -> T {
    match progress {
        Progress::Call(_, command) => panic!("still at {:?}", command),
        Progress::Finish(outcome) => outcome,
    }
}

type Bonded = Progress<GetBondedDevices, Result<Vec<BluetoothDevice>, BluetoothError>>;

fn take_bonded(mut progress: Bonded, replies: Vec<Reply>) -> Bonded {
    for reply in replies {
        progress = match progress {
            Progress::Call(op, _) => {
                assert!(op.want().accepts(&reply));
                op.step(reply)
            }
            Progress::Finish(_) => panic!("the conversation has ended"),
        };
    }
    progress
}

fn object(id: u64) -> Reply {
    Reply::Object(ObjectId(id))
}

fn broken() -> Reply {
    Reply::Failed(JniError::Other(jni::errors::Error::TryLock))
}

#[test]
fn the_adapter_is_got_from_the_service() {
    let progress = get_bluetooth_adapter();
    assert_eq!(command(&progress), Command::AttachVm);
    let progress = take(progress, Reply::Done);
    assert_eq!(
        command(&progress),
        Command::NewString(JavaText::BluetoothService)
    );
    let progress = take(progress, object(1));
    assert_eq!(
        command(&progress),
        Command::CallObject {
            target: Target::Context,
            method: JavaMethod::GetSystemService,
            argument: Some(ObjectId(1)),
        }
    );
    let progress = take(progress, object(2));
    assert_eq!(
        command(&progress),
        Command::CallObject {
            target: Target::Object(ObjectId(2)),
            method: JavaMethod::GetAdapter,
            argument: None,
        }
    );
    let progress = take(progress, object(3));
    assert_eq!(
        command(&progress),
        Command::NewGlobalRef {
            object: ObjectId(3),
            checked: false,
        }
    );
    let progress = take(progress, object(4));
    assert_eq!(outcome(progress).unwrap(), ObjectId(4));
}

#[test]
fn no_service_and_no_adapter_are_told_apart() {
    let progress = take_all(
        get_bluetooth_adapter(),
        vec![Reply::Done, object(1), object(0)],
    );
    assert!(matches!(
        outcome(progress),
        Err(BluetoothError::NoBluetoothService)
    ));
    let progress = take_all(
        get_bluetooth_adapter(),
        vec![Reply::Done, object(1), object(2), object(0)],
    );
    assert!(matches!(outcome(progress), Err(BluetoothError::NoAdapter)));
}

#[test]
fn getting_the_adapter_ends_at_the_first_failure() {
    for place in 0..5 {
        let mut script = vec![Reply::Done, object(1), object(2), object(3), object(4)];
        script.truncate(place);
        script.push(broken());
        let progress = take_all(get_bluetooth_adapter(), script);
        assert!(matches!(
            outcome(progress),
            Err(BluetoothError::Jni(JniError::Other(
                jni::errors::Error::TryLock
            )))
        ));
    }
}

#[test]
fn an_exception_on_the_way_to_the_adapter_is_named() {
    let progress = take_all(
        get_bluetooth_adapter(),
        vec![
            Reply::Done,
            object(1),
            Reply::Failed(JniError::JavaException),
            Reply::Done,
            Reply::Found(Some(ObjectId(9))),
            Reply::Done,
            Reply::Text("java/lang/SecurityException".to_string()),
            Reply::Text("no".to_string()),
        ],
    );
    let error = outcome(progress).unwrap_err();
    assert_eq!(
        error.message(),
        Some("java/lang/SecurityException: no".to_string())
    );
}

#[test]
fn a_remembered_adapter_is_used() {
    let progress = bluetooth_adapter();
    assert_eq!(command(&progress), Command::CachedAdapter);
    let progress = take(progress, Reply::Found(Some(ObjectId(5))));
    assert_eq!(outcome(progress).unwrap(), ObjectId(5));
}

#[test]
fn a_new_adapter_is_remembered() {
    let progress = take_all(
        bluetooth_adapter(),
        vec![
            Reply::Found(None),
            Reply::Done,
            object(1),
            object(2),
            object(3),
            object(4),
        ],
    );
    assert_eq!(command(&progress), Command::CacheAdapter(ObjectId(4)));
    // Another thread was faster.
    let progress = take(progress, object(6));
    assert_eq!(outcome(progress).unwrap(), ObjectId(6));
}

#[test]
fn calls_that_race_find_the_same_adapter() {
    let mut remembered: Option<ObjectId> = None;
    let mut calls = vec![bluetooth_adapter(), bluetooth_adapter()];
    let mut next = 10;
    while calls.iter().any(|call| matches!(call, Progress::Call(..))) {
        for call in calls.iter_mut() {
            let reply = match call {
                Progress::Call(_, Command::CachedAdapter) => Reply::Found(remembered),
                Progress::Call(_, Command::CacheAdapter(adapter)) => {
                    Reply::Object(*remembered.get_or_insert(*adapter))
                }
                Progress::Call(_, Command::AttachVm) => Reply::Done,
                Progress::Call(..) => {
                    next += 1;
                    object(next)
                }
                Progress::Finish(_) => continue,
            };
            let taken = std::mem::replace(call, bluetooth_adapter());
            *call = take(taken, reply);
        }
    }
    for call in calls {
        assert_eq!(Some(outcome(call).unwrap()), remembered);
    }
    let later = take(bluetooth_adapter(), Reply::Found(remembered));
    assert_eq!(Some(outcome(later).unwrap()), remembered);
}

#[test]
fn an_error_is_not_remembered() {
    for _ in 0..2 {
        let progress = take_all(bluetooth_adapter(), vec![Reply::Found(None), broken()]);
        assert!(outcome(progress).is_err());
    }
    let progress = take(bluetooth_adapter(), Reply::Found(None));
    assert_eq!(command(&progress), Command::AttachVm);
}

#[test]
fn enabled_or_not_is_what_the_adapter_says() {
    for enabled in [true, false] {
        let progress = take_all(
            is_enabled(),
            vec![Reply::Found(Some(ObjectId(5))), Reply::Done],
        );
        assert_eq!(
            command(&progress),
            Command::CallBoolean {
                target: Target::Object(ObjectId(5)),
                method: JavaMethod::IsEnabled,
                remember: true,
            }
        );
        let progress = take(progress, Reply::Bool(enabled));
        assert_eq!(outcome(progress).unwrap(), enabled);
    }
    let progress = take_all(
        is_enabled(),
        vec![Reply::Found(None), Reply::Done, object(1), object(0)],
    );
    assert!(matches!(
        outcome(progress),
        Err(BluetoothError::NoBluetoothService)
    ));
}

fn enabled() -> Vec<Reply> {
    vec![
        Reply::Found(Some(ObjectId(5))),
        Reply::Done,
        Reply::Bool(true),
        Reply::Found(Some(ObjectId(5))),
        Reply::Done,
    ]
}

#[test]
fn no_devices_are_listed_if_bluetooth_is_not_enabled() {
    let progress = take_bonded(
        get_bonded_devices(),
        vec![
            Reply::Found(Some(ObjectId(5))),
            Reply::Done,
            Reply::Bool(false),
        ],
    );
    assert_eq!(outcome(progress).unwrap(), vec![]);
}

#[test]
fn bonded_devices_are_listed_in_their_order() {
    let progress = take_bonded(get_bonded_devices(), enabled());
    assert_eq!(
        command(&progress),
        Command::CallObject {
            target: Target::Object(ObjectId(5)),
            method: JavaMethod::GetBondedDevices,
            argument: None,
        }
    );
    let progress = take_bonded(progress, vec![object(20)]);
    assert_eq!(
        command(&progress),
        Command::CallObject {
            target: Target::Object(ObjectId(20)),
            method: JavaMethod::ToArray,
            argument: None,
        }
    );
    let progress = take_bonded(progress, vec![object(21)]);
    assert_eq!(command(&progress), Command::ArrayLength(ObjectId(21)));
    let mut progress = take_bonded(progress, vec![Reply::Int(3)]);
    for index in 0..3 {
        assert_eq!(
            command(&progress),
            Command::ArrayElement {
                array: ObjectId(21),
                index,
            }
        );
        progress = take_bonded(progress, vec![object(30 + index as u64)]);
    }
    let devices: Vec<ObjectId> = outcome(progress)
        .unwrap()
        .iter()
        .map(|device| device.internal)
        .collect();
    assert_eq!(devices, vec![ObjectId(30), ObjectId(31), ObjectId(32)]);
}

#[test]
fn there_may_be_no_bonded_devices() {
    let mut script = enabled();
    script.extend(vec![object(20), object(21), Reply::Int(0)]);
    let progress = take_bonded(get_bonded_devices(), script);
    assert_eq!(outcome(progress).unwrap(), vec![]);
}

#[test]
fn a_missing_set_of_devices_is_denied_permission() {
    let mut script = enabled();
    script.push(object(0));
    let progress = take_bonded(get_bonded_devices(), script);
    assert!(matches!(
        outcome(progress),
        Err(BluetoothError::PermissionDenied)
    ));
}

#[test]
fn a_device_that_cannot_be_got_spoils_the_list() {
    let mut script = enabled();
    script.extend(vec![
        object(20),
        object(21),
        Reply::Int(3),
        object(30),
        broken(),
    ]);
    let progress = take_bonded(get_bonded_devices(), script);
    assert!(matches!(outcome(progress), Err(BluetoothError::Jni(_))));
}
