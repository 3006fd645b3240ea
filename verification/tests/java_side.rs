use android_bluetooth_serial::java::{
    JavaMethod, JavaText, JniError, MethodId, ObjectId, Reply, ThreadId, Want, BLUETOOTH_SERVICE,
    LATEST_TIME, SPP_UUID,
};
use jni::signature::{JavaType, Primitive, ReturnType, TypeSignature};

const ALL: [JavaMethod; 20] = [
    JavaMethod::GetSystemService,
    JavaMethod::GetAdapter,
    JavaMethod::IsEnabled,
    JavaMethod::GetBondedDevices,
    JavaMethod::ToArray,
    JavaMethod::GetAddress,
    JavaMethod::GetName,
    JavaMethod::UuidFromString,
    JavaMethod::CreateRfcommSocket,
    JavaMethod::CreateInsecureRfcommSocket,
    JavaMethod::GetInputStream,
    JavaMethod::GetOutputStream,
    JavaMethod::Read,
    JavaMethod::Write,
    JavaMethod::Flush,
    JavaMethod::IsConnected,
    JavaMethod::CancelDiscovery,
    JavaMethod::Connect,
    JavaMethod::Close,
    JavaMethod::GetMaxReceivePacketSize,
];

fn parsed(method: JavaMethod) -> TypeSignature {
    TypeSignature::from_str(method.signature()).unwrap()
}

#[test]
fn every_signature_can_be_parsed() {
    for method in ALL {
        assert!(TypeSignature::from_str(method.signature()).is_ok());
    }
}

#[test]
fn signatures_take_the_arguments_that_are_passed() {
    for method in ALL {
        let expected = match method {
            JavaMethod::GetSystemService
            | JavaMethod::UuidFromString
            | JavaMethod::CreateRfcommSocket
            | JavaMethod::CreateInsecureRfcommSocket => 1,
            JavaMethod::Read | JavaMethod::Write => 3,
            _ => 0,
        };
        assert_eq!(parsed(method).args.len(), expected, "{:?}", method);
    }
    let write = parsed(JavaMethod::Write);
    assert_eq!(
        write.args,
        vec![
            JavaType::Array(Box::new(JavaType::Primitive(Primitive::Byte))),
            JavaType::Primitive(Primitive::Int),
            JavaType::Primitive(Primitive::Int),
        ]
    );
}

#[test]
fn signatures_return_what_is_asked_for() {
    for method in ALL {
        let expected = match method {
            JavaMethod::IsEnabled | JavaMethod::IsConnected | JavaMethod::CancelDiscovery => {
                ReturnType::Primitive(Primitive::Boolean)
            }
            JavaMethod::Read | JavaMethod::GetMaxReceivePacketSize => {
                ReturnType::Primitive(Primitive::Int)
            }
            JavaMethod::Write | JavaMethod::Flush | JavaMethod::Connect | JavaMethod::Close => {
                ReturnType::Primitive(Primitive::Void)
            }
            JavaMethod::ToArray => ReturnType::Array,
            _ => ReturnType::Object,
        };
        assert_eq!(parsed(method).ret, expected, "{:?}", method);
    }
}

#[test]
fn signatures_name_the_classes_of_android() {
    assert_eq!(
        JavaMethod::GetSystemService.signature(),
        "(Ljava/lang/String;)Ljava/lang/Object;"
    );
    assert_eq!(
        JavaMethod::GetAdapter.signature(),
        "()Landroid/bluetooth/BluetoothAdapter;"
    );
    assert_eq!(
        JavaMethod::CreateRfcommSocket.signature(),
        "(Ljava/util/UUID;)Landroid/bluetooth/BluetoothSocket;"
    );
    assert_eq!(
        JavaMethod::CreateInsecureRfcommSocket.signature(),
        "(Ljava/util/UUID;)Landroid/bluetooth/BluetoothSocket;"
    );
    assert_eq!(JavaMethod::Read.signature(), "([BII)I");
    assert_eq!(JavaMethod::Write.signature(), "([BII)V");
}

#[test]
fn names_and_classes() {
    assert_eq!(JavaMethod::GetSystemService.name(), "getSystemService");
    assert_eq!(JavaMethod::UuidFromString.name(), "fromString");
    assert_eq!(
        JavaMethod::CreateRfcommSocket.name(),
        "createRfcommSocketToServiceRecord"
    );
    assert_eq!(
        JavaMethod::CreateInsecureRfcommSocket.name(),
        "createInsecureRfcommSocketToServiceRecord"
    );
    assert_eq!(
        JavaMethod::GetMaxReceivePacketSize.name(),
        "getMaxReceivePacketSize"
    );
    assert_eq!(JavaMethod::UuidFromString.class(), Some("java/util/UUID"));
    assert_eq!(JavaMethod::Read.class(), Some("java/io/InputStream"));
    assert_eq!(JavaMethod::Write.class(), Some("java/io/OutputStream"));
    assert_eq!(JavaMethod::Flush.class(), Some("java/io/OutputStream"));
    assert_eq!(JavaMethod::Connect.class(), None);
}

#[test]
fn texts_for_java() {
    assert_eq!(SPP_UUID, "00001101-0000-1000-8000-00805F9B34FB");
    assert_eq!(BLUETOOTH_SERVICE, "bluetooth");
    assert_eq!(JavaText::BluetoothService.as_str(), "bluetooth");
    assert_eq!(JavaText::Given(SPP_UUID.to_string()).as_str(), SPP_UUID);
}

#[test]
fn null_is_zero() {
    assert!(ObjectId(0).is_null());
    assert!(!ObjectId(1).is_null());
}

#[test]
fn only_fitting_replies_are_accepted() {
    let failed = || Reply::Failed(JniError::JavaException);
    assert!(Want::Done.accepts(&Reply::Done));
    assert!(!Want::Done.accepts(&failed()));
    assert!(Want::Attempt.accepts(&Reply::Done));
    assert!(Want::Attempt.accepts(&failed()));
    assert!(!Want::Attempt.accepts(&Reply::Bool(true)));
    assert!(Want::Held.accepts(&Reply::Object(ObjectId(3))));
    assert!(!Want::Held.accepts(&failed()));
    assert!(Want::Object.accepts(&failed()));
    assert!(Want::Found.accepts(&Reply::Found(None)));
    assert!(!Want::Found.accepts(&failed()));
    assert!(Want::Bool.accepts(&Reply::Bool(false)));
    assert!(Want::Length.accepts(&Reply::Int(0)));
    assert!(!Want::Length.accepts(&Reply::Int(-1)));
    assert!(Want::Count(5).accepts(&Reply::Int(5)));
    assert!(Want::Count(5).accepts(&Reply::Int(-1)));
    assert!(!Want::Count(5).accepts(&Reply::Int(6)));
    assert!(Want::Text.accepts(&failed()));
    assert!(!Want::Message.accepts(&failed()));
    assert!(Want::Message.accepts(&Reply::Text(String::new())));
    assert!(Want::Bytes(2).accepts(&Reply::Bytes(vec![1, 2])));
    assert!(!Want::Bytes(2).accepts(&Reply::Bytes(vec![1])));
    assert!(Want::Bytes(2).accepts(&failed()));
    assert!(Want::Method.accepts(&Reply::Method(MethodId(1))));
    assert!(Want::Thread.accepts(&Reply::Thread(ThreadId(1))));
    assert!(!Want::Thread.accepts(&failed()));
    assert!(Want::Time(1).accepts(&Reply::Time(LATEST_TIME - 1)));
    assert!(!Want::Time(1).accepts(&Reply::Time(LATEST_TIME)));
    assert!(Want::Time(LATEST_TIME).accepts(&Reply::Time(0)));
    assert!(!Want::Time(u128::MAX).accepts(&Reply::Time(0)));
}
