//! What is asked of the Java side and what it may answer.
//!
//! Nothing in this crate touches a Java virtual machine. An operation hands out one
//! [`Command`] at a time; whoever drives the operation carries the command out and hands
//! back a [`Reply`]. [`Want`] says which replies answer a command.

use vstd::prelude::*;

verus! {

/// The error type of the `jni` crate. It is carried through to the caller unopened.
#[verifier::external_type_specification]
#[verifier::external_body]
pub struct ExJniError(jni::errors::Error);

/// The name under which Android registers its Bluetooth system service.
pub const BLUETOOTH_SERVICE: &'static str = "bluetooth";

/// The service identifier of the serial port profile (SPP).
pub const SPP_UUID: &'static str = "00001101-0000-1000-8000-00805F9B34FB";

/// A reference to a Java object, which the driver keeps under this number. Zero is the null
/// reference.
#[derive(Clone, Copy, PartialEq, Eq, Structural, Debug)]
pub struct ObjectId(pub u64);

impl ObjectId {
    pub open spec fn spec_is_null(self) -> bool {
        self.0 == 0
    }

    #[verifier::when_used_as_spec(spec_is_null)]
    pub fn is_null(self) -> (null: bool)
        ensures
            null == self.is_null(),
    {
        self.0 == 0
    }
}

/// A Java method that was looked up beforehand, kept by the driver under this number.
#[derive(Clone, Copy, PartialEq, Eq, Structural, Debug)]
pub struct MethodId(pub u64);

/// A background thread, kept by the driver under this number.
#[derive(Clone, Copy, PartialEq, Eq, Structural, Debug)]
pub struct ThreadId(pub u64);

/// A callback function, kept by the driver under this number.
#[derive(Clone, Copy, PartialEq, Eq, Structural, Debug)]
pub struct CallbackId(pub u64);

/// Why a command failed.
#[derive(Debug)]
pub enum JniError {
    /// A Java exception was thrown.
    JavaException,
    /// Any other error of the `jni` crate (never its `JavaException`).
    Other(jni::errors::Error),
}

/// The Java methods in use.
#[derive(Clone, Copy, PartialEq, Eq, Structural, Debug)]
pub enum JavaMethod {
    GetSystemService,
    GetAdapter,
    IsEnabled,
    GetBondedDevices,
    ToArray,
    GetAddress,
    GetName,
    UuidFromString,
    CreateRfcommSocket,
    CreateInsecureRfcommSocket,
    GetInputStream,
    GetOutputStream,
    Read,
    Write,
    Flush,
    IsConnected,
    CancelDiscovery,
    Connect,
    Close,
    GetMaxReceivePacketSize,
}

impl JavaMethod {
    /// The method's name.
    pub open spec fn name_text(self) -> Seq<char> {
        match self {
            JavaMethod::GetSystemService => "getSystemService"@,
            JavaMethod::GetAdapter => "getAdapter"@,
            JavaMethod::IsEnabled => "isEnabled"@,
            JavaMethod::GetBondedDevices => "getBondedDevices"@,
            JavaMethod::ToArray => "toArray"@,
            JavaMethod::GetAddress => "getAddress"@,
            JavaMethod::GetName => "getName"@,
            JavaMethod::UuidFromString => "fromString"@,
            JavaMethod::CreateRfcommSocket => "createRfcommSocketToServiceRecord"@,
            JavaMethod::CreateInsecureRfcommSocket => "createInsecureRfcommSocketToServiceRecord"@,
            JavaMethod::GetInputStream => "getInputStream"@,
            JavaMethod::GetOutputStream => "getOutputStream"@,
            JavaMethod::Read => "read"@,
            JavaMethod::Write => "write"@,
            JavaMethod::Flush => "flush"@,
            JavaMethod::IsConnected => "isConnected"@,
            JavaMethod::CancelDiscovery => "cancelDiscovery"@,
            JavaMethod::Connect => "connect"@,
            JavaMethod::Close => "close"@,
            JavaMethod::GetMaxReceivePacketSize => "getMaxReceivePacketSize"@,
        }
    }

    pub fn name(self) -> (text: &'static str)
        ensures
            text@ == self.name_text(),
    {
        match self {
            JavaMethod::GetSystemService => "getSystemService",
            JavaMethod::GetAdapter => "getAdapter",
            JavaMethod::IsEnabled => "isEnabled",
            JavaMethod::GetBondedDevices => "getBondedDevices",
            JavaMethod::ToArray => "toArray",
            JavaMethod::GetAddress => "getAddress",
            JavaMethod::GetName => "getName",
            JavaMethod::UuidFromString => "fromString",
            JavaMethod::CreateRfcommSocket => "createRfcommSocketToServiceRecord",
            JavaMethod::CreateInsecureRfcommSocket => "createInsecureRfcommSocketToServiceRecord",
            JavaMethod::GetInputStream => "getInputStream",
            JavaMethod::GetOutputStream => "getOutputStream",
            JavaMethod::Read => "read",
            JavaMethod::Write => "write",
            JavaMethod::Flush => "flush",
            JavaMethod::IsConnected => "isConnected",
            JavaMethod::CancelDiscovery => "cancelDiscovery",
            JavaMethod::Connect => "connect",
            JavaMethod::Close => "close",
            JavaMethod::GetMaxReceivePacketSize => "getMaxReceivePacketSize",
        }
    }

    /// The method's parameter and return types, in the notation of the Java Native Interface.
    pub open spec fn signature_text(self) -> Seq<char> {
        match self {
            JavaMethod::GetSystemService => "(Ljava/lang/String;)Ljava/lang/Object;"@,
            JavaMethod::GetAdapter => "()Landroid/bluetooth/BluetoothAdapter;"@,
            JavaMethod::IsEnabled => "()Z"@,
            JavaMethod::GetBondedDevices => "()Ljava/util/Set;"@,
            JavaMethod::ToArray => "()[Ljava/lang/Object;"@,
            JavaMethod::GetAddress => "()Ljava/lang/String;"@,
            JavaMethod::GetName => "()Ljava/lang/String;"@,
            JavaMethod::UuidFromString => "(Ljava/lang/String;)Ljava/util/UUID;"@,
            JavaMethod::CreateRfcommSocket =>
                "(Ljava/util/UUID;)Landroid/bluetooth/BluetoothSocket;"@,
            JavaMethod::CreateInsecureRfcommSocket =>
                "(Ljava/util/UUID;)Landroid/bluetooth/BluetoothSocket;"@,
            JavaMethod::GetInputStream => "()Ljava/io/InputStream;"@,
            JavaMethod::GetOutputStream => "()Ljava/io/OutputStream;"@,
            JavaMethod::Read => "([BII)I"@,
            JavaMethod::Write => "([BII)V"@,
            JavaMethod::Flush => "()V"@,
            JavaMethod::IsConnected => "()Z"@,
            JavaMethod::CancelDiscovery => "()Z"@,
            JavaMethod::Connect => "()V"@,
            JavaMethod::Close => "()V"@,
            JavaMethod::GetMaxReceivePacketSize => "()I"@,
        }
    }

    pub fn signature(self) -> (text: &'static str)
        ensures
            text@ == self.signature_text(),
    {
        match self {
            JavaMethod::GetSystemService => "(Ljava/lang/String;)Ljava/lang/Object;",
            JavaMethod::GetAdapter => "()Landroid/bluetooth/BluetoothAdapter;",
            JavaMethod::IsEnabled => "()Z",
            JavaMethod::GetBondedDevices => "()Ljava/util/Set;",
            JavaMethod::ToArray => "()[Ljava/lang/Object;",
            JavaMethod::GetAddress => "()Ljava/lang/String;",
            JavaMethod::GetName => "()Ljava/lang/String;",
            JavaMethod::UuidFromString => "(Ljava/lang/String;)Ljava/util/UUID;",
            JavaMethod::CreateRfcommSocket =>
                "(Ljava/util/UUID;)Landroid/bluetooth/BluetoothSocket;",
            JavaMethod::CreateInsecureRfcommSocket =>
                "(Ljava/util/UUID;)Landroid/bluetooth/BluetoothSocket;",
            JavaMethod::GetInputStream => "()Ljava/io/InputStream;",
            JavaMethod::GetOutputStream => "()Ljava/io/OutputStream;",
            JavaMethod::Read => "([BII)I",
            JavaMethod::Write => "([BII)V",
            JavaMethod::Flush => "()V",
            JavaMethod::IsConnected => "()Z",
            JavaMethod::CancelDiscovery => "()Z",
            JavaMethod::Connect => "()V",
            JavaMethod::Close => "()V",
            JavaMethod::GetMaxReceivePacketSize => "()I",
        }
    }

    /// The class of a method that is called on a class or looked up in one beforehand.
    pub open spec fn class_text(self) -> Option<Seq<char>> {
        match self {
            JavaMethod::UuidFromString => Some("java/util/UUID"@),
            JavaMethod::Read => Some("java/io/InputStream"@),
            JavaMethod::Write => Some("java/io/OutputStream"@),
            JavaMethod::Flush => Some("java/io/OutputStream"@),
            _ => None,
        }
    }

    pub fn class(self) -> (text: Option<&'static str>)
        ensures
            text is Some <==> self.class_text() is Some,
            text matches Some(name) ==> self.class_text() == Some(name@),
    {
        match self {
            JavaMethod::UuidFromString => Some("java/util/UUID"),
            JavaMethod::Read => Some("java/io/InputStream"),
            JavaMethod::Write => Some("java/io/OutputStream"),
            JavaMethod::Flush => Some("java/io/OutputStream"),
            _ => None,
        }
    }
}

/// What a method is called on.
#[derive(Clone, Copy, PartialEq, Eq, Structural, Debug)]
pub enum Target {
    /// The Android context of the running application.
    Context,
    /// The method's own class: see [`JavaMethod::class`].
    Class,
    /// An object.
    Object(ObjectId),
}

/// A text of which a Java string is to be made.
#[derive(Clone, PartialEq, Eq, Debug)]
pub enum JavaText {
    /// [`BLUETOOTH_SERVICE`].
    BluetoothService,
    /// A text given by the user.
    Given(String),
}

impl JavaText {
    pub open spec fn text(self) -> Seq<char> {
        match self {
            JavaText::BluetoothService => "bluetooth"@,
            JavaText::Given(text) => text@,
        }
    }

    pub fn as_str(&self) -> (text: &str)
        ensures
            text@ == self.text(),
    {
        match self {
            JavaText::BluetoothService => BLUETOOTH_SERVICE,
            JavaText::Given(text) => text.as_str(),
        }
    }
}

/// A single piece of work for the driver.
///
/// A call that fails with a Java exception leaves that exception cleared and remembered for
/// [`Command::TakeLastException`], unless the command says otherwise.
#[allow(inconsistent_fields)]
#[derive(Clone, PartialEq, Eq, Debug)]
pub enum Command {
    /// Attach the current thread to the Java virtual machine.
    AttachVm,
    /// Look up the adapter that this process remembers.
    CachedAdapter,
    /// Remember the adapter unless one is remembered already; answer the remembered one.
    CacheAdapter(ObjectId),
    /// Make a Java string.
    NewString(JavaText),
    /// Make a global reference. On demand it is a failure when the new reference is null though
    /// the object is not.
    NewGlobalRef { object: ObjectId, checked: bool },
    /// Call a method that returns an object, with at most one argument.
    CallObject { target: Target, method: JavaMethod, argument: Option<ObjectId> },
    /// Call a method that returns a boolean. An exception is remembered only on demand.
    CallBoolean { target: Target, method: JavaMethod, remember: bool },
    /// Call a method that returns an integer.
    CallInt { target: Target, method: JavaMethod },
    /// Call a method and discard what it returns. An exception is remembered only on demand.
    CallVoid { target: Target, method: JavaMethod, remember: bool },
    /// Read a Java string.
    GetString(ObjectId),
    /// Look up a method in its class.
    GetMethodId(JavaMethod),
    /// Ask for the length of an array.
    ArrayLength(ObjectId),
    /// Get a global reference to an element of an object array.
    ArrayElement { array: ObjectId, index: i32 },
    /// Make a byte array of this length.
    NewByteArray(i32),
    /// Make a byte array that holds these bytes.
    ByteArrayFrom(Vec<u8>),
    /// Copy these bytes to the beginning of a byte array.
    SetRegion { array: ObjectId, bytes: Vec<u8> },
    /// Copy this many bytes from the beginning of a byte array.
    GetRegion { array: ObjectId, count: usize },
    /// Call `read` of an input stream: into the array, from its beginning, at most `len` bytes.
    CallRead { stream: ObjectId, method: MethodId, array: ObjectId, len: i32 },
    /// Call `write` of an output stream: the first `count` bytes of the array.
    CallWrite { stream: ObjectId, method: MethodId, array: ObjectId, count: usize },
    /// Call `flush` of an output stream.
    CallFlush { stream: ObjectId, method: MethodId },
    /// Clear the pending Java exception, if there is one.
    ClearException,
    /// Take away the exception that was cleared last in this thread.
    TakeLastException,
    /// Ask for the name of an object's class.
    ClassName(ObjectId),
    /// Ask for the message of an exception.
    ThrowableMessage(ObjectId),
    /// Start the background thread that runs the read loop.
    SpawnReader,
    /// Wait until a background thread has ended.
    JoinReader(ThreadId),
    /// Call the callback that the socket has when this is carried out, if it has one. The callback
    /// may use the socket.
    Notify { arrived: Option<usize> },
    /// Read the clock.
    Clock,
    /// Sleep for this many nanoseconds.
    Sleep(u128),
}

/// The driver's answer to a command.
#[derive(Debug)]
pub enum Reply {
    Done,
    Failed(JniError),
    Object(ObjectId),
    Found(Option<ObjectId>),
    Bool(bool),
    Int(i32),
    Text(String),
    Bytes(Vec<u8>),
    Method(MethodId),
    Thread(ThreadId),
    /// Nanoseconds since the earliest time that the system clock can tell.
    Time(u128),
}

/// The latest time that the system clock can tell. The clock counts seconds in 64 bits, and the
/// nanoseconds of the last one.
pub const LATEST_TIME: u128 = 18_446_744_073_709_551_615_999_999_999;

/// The replies that an operation can take next.
#[derive(Clone, Copy, PartialEq, Eq, Structural, Debug)]
pub enum Want {
    /// `Done`.
    Done,
    /// `Done` or `Failed`.
    Attempt,
    /// `Object`.
    Held,
    /// `Object` or `Failed`.
    Object,
    /// `Found`.
    Found,
    /// `Bool` or `Failed`.
    Bool,
    /// `Int` of at least zero, or `Failed`.
    Length,
    /// `Int` of at most this, or `Failed`.
    Count(i32),
    /// `Text`.
    Message,
    /// `Text` or `Failed`.
    Text,
    /// `Bytes` of this length, or `Failed`.
    Bytes(usize),
    /// `Method` or `Failed`.
    Method,
    /// `Thread`.
    Thread,
    /// `Time` that leaves room for this many nanoseconds up to [`LATEST_TIME`].
    Time(u128),
}

impl Want {
    /// Whether the reply is one of those that the operation can take.
    pub open spec fn admits(self, reply: Reply) -> bool {
        match (self, reply) {
            (Want::Done, Reply::Done) => true,
            (Want::Attempt, Reply::Done) => true,
            (Want::Held, Reply::Object(_)) => true,
            (Want::Object, Reply::Object(_)) => true,
            (Want::Found, Reply::Found(_)) => true,
            (Want::Bool, Reply::Bool(_)) => true,
            (Want::Length, Reply::Int(n)) => 0 <= n,
            (Want::Count(max), Reply::Int(n)) => n <= max,
            (Want::Message, Reply::Text(_)) => true,
            (Want::Text, Reply::Text(_)) => true,
            (Want::Bytes(len), Reply::Bytes(bytes)) => bytes@.len() == len,
            (Want::Method, Reply::Method(_)) => true,
            (Want::Thread, Reply::Thread(_)) => true,
            (Want::Time(room), Reply::Time(now)) => now + room <= LATEST_TIME,
            (_, Reply::Failed(_)) => self.may_fail(),
            _ => false,
        }
    }

    /// Whether `Failed` is among the replies.
    pub open spec fn may_fail(self) -> bool {
        match self {
            Want::Attempt | Want::Object | Want::Bool | Want::Length | Want::Count(_) | Want::Text
            | Want::Bytes(_) | Want::Method => true,
            _ => false,
        }
    }

    /// Tests a reply before it is handed to an operation.
    pub fn accepts(self, reply: &Reply) -> (ok: bool)
        ensures
            ok == self.admits(*reply),
    {
        match (self, reply) {
            (Want::Done, Reply::Done) => true,
            (Want::Attempt, Reply::Done) => true,
            (Want::Held, Reply::Object(_)) => true,
            (Want::Object, Reply::Object(_)) => true,
            (Want::Found, Reply::Found(_)) => true,
            (Want::Bool, Reply::Bool(_)) => true,
            (Want::Length, Reply::Int(n)) => 0 <= *n,
            (Want::Count(max), Reply::Int(n)) => *n <= max,
            (Want::Message, Reply::Text(_)) => true,
            (Want::Text, Reply::Text(_)) => true,
            (Want::Bytes(len), Reply::Bytes(bytes)) => bytes.len() == len,
            (Want::Method, Reply::Method(_)) => true,
            (Want::Thread, Reply::Thread(_)) => true,
            (Want::Time(room), Reply::Time(now)) => room <= LATEST_TIME && *now <= LATEST_TIME
                - room,
            (_, Reply::Failed(_)) => match self {
                Want::Attempt | Want::Object | Want::Bool | Want::Length | Want::Count(_)
                | Want::Text | Want::Bytes(_) | Want::Method => true,
                _ => false,
            },
            _ => false,
        }
    }
}

impl JavaMethod {
    /// Whether the method has this name and these types, and is looked up in this class.
    pub open spec fn is_method(
        self,
        class: Option<Seq<char>>,
        name: Seq<char>,
        signature: Seq<char>,
    ) -> bool {
        &&& self.class_text() == class
        &&& self.name_text() == name
        &&& self.signature_text() == signature
    }
}

/// The methods of Android and of the Java library that stand behind the names in use.
pub proof fn law_java_methods()
    ensures
        JavaMethod::GetSystemService.is_method(
            None,
            "getSystemService"@,
            "(Ljava/lang/String;)Ljava/lang/Object;"@,
        ),
        JavaMethod::GetAdapter.is_method(
            None,
            "getAdapter"@,
            "()Landroid/bluetooth/BluetoothAdapter;"@,
        ),
        JavaMethod::IsEnabled.is_method(
            None,
            "isEnabled"@,
            "()Z"@,
        ),
        JavaMethod::GetBondedDevices.is_method(
            None,
            "getBondedDevices"@,
            "()Ljava/util/Set;"@,
        ),
        JavaMethod::ToArray.is_method(
            None,
            "toArray"@,
            "()[Ljava/lang/Object;"@,
        ),
        JavaMethod::GetAddress.is_method(
            None,
            "getAddress"@,
            "()Ljava/lang/String;"@,
        ),
        JavaMethod::GetName.is_method(
            None,
            "getName"@,
            "()Ljava/lang/String;"@,
        ),
        JavaMethod::UuidFromString.is_method(
            Some("java/util/UUID"@),
            "fromString"@,
            "(Ljava/lang/String;)Ljava/util/UUID;"@,
        ),
        JavaMethod::CreateRfcommSocket.is_method(
            None,
            "createRfcommSocketToServiceRecord"@,
            "(Ljava/util/UUID;)Landroid/bluetooth/BluetoothSocket;"@,
        ),
        JavaMethod::CreateInsecureRfcommSocket.is_method(
            None,
            "createInsecureRfcommSocketToServiceRecord"@,
            "(Ljava/util/UUID;)Landroid/bluetooth/BluetoothSocket;"@,
        ),
        JavaMethod::GetInputStream.is_method(
            None,
            "getInputStream"@,
            "()Ljava/io/InputStream;"@,
        ),
        JavaMethod::GetOutputStream.is_method(
            None,
            "getOutputStream"@,
            "()Ljava/io/OutputStream;"@,
        ),
        JavaMethod::Read.is_method(
            Some("java/io/InputStream"@),
            "read"@,
            "([BII)I"@,
        ),
        JavaMethod::Write.is_method(
            Some("java/io/OutputStream"@),
            "write"@,
            "([BII)V"@,
        ),
        JavaMethod::Flush.is_method(
            Some("java/io/OutputStream"@),
            "flush"@,
            "()V"@,
        ),
        JavaMethod::IsConnected.is_method(
            None,
            "isConnected"@,
            "()Z"@,
        ),
        JavaMethod::CancelDiscovery.is_method(
            None,
            "cancelDiscovery"@,
            "()Z"@,
        ),
        JavaMethod::Connect.is_method(
            None,
            "connect"@,
            "()V"@,
        ),
        JavaMethod::Close.is_method(
            None,
            "close"@,
            "()V"@,
        ),
        JavaMethod::GetMaxReceivePacketSize.is_method(
            None,
            "getMaxReceivePacketSize"@,
            "()I"@,
        ),
{
}

/// The texts that are handed to Java are the name of the Bluetooth service and what was given.
pub proof fn law_java_texts(given: String)
    ensures
        JavaText::BluetoothService.text() == "bluetooth"@,
        JavaText::Given(given).text() == given@,
        BLUETOOTH_SERVICE@ == "bluetooth"@,
        SPP_UUID@ == "00001101-0000-1000-8000-00805F9B34FB"@,
{
}

/// Null, and nothing else, has the number zero.
pub proof fn law_null(object: ObjectId)
    ensures
        object.is_null() <==> object == ObjectId(0),
{
}

/// Which replies can come: those of the kind that the command has, with the bounds that Java keeps
/// to, and failures where the command can fail.
pub proof fn law_wants(
    reply: Reply,
    failure: JniError,
    object: ObjectId,
    found: Option<ObjectId>,
    answer: bool,
    number: i32,
    max: i32,
    text: String,
    bytes: Vec<u8>,
    len: usize,
    method: MethodId,
    thread: ThreadId,
    now: u128,
    room: u128,
)
    ensures
        Want::Done.admits(Reply::Done),
        Want::Attempt.admits(Reply::Done) && Want::Attempt.admits(Reply::Failed(failure)),
        Want::Held.admits(Reply::Object(object)),
        Want::Object.admits(Reply::Object(object)) && Want::Object.admits(Reply::Failed(failure)),
        Want::Found.admits(Reply::Found(found)),
        Want::Bool.admits(Reply::Bool(answer)) && Want::Bool.admits(Reply::Failed(failure)),
        Want::Length.admits(Reply::Int(number)) <==> 0 <= number,
        Want::Length.admits(Reply::Failed(failure)),
        Want::Count(max).admits(Reply::Int(number)) <==> number <= max,
        Want::Count(max).admits(Reply::Failed(failure)),
        Want::Message.admits(Reply::Text(text)),
        Want::Text.admits(Reply::Text(text)) && Want::Text.admits(Reply::Failed(failure)),
        Want::Bytes(len).admits(Reply::Bytes(bytes)) <==> bytes@.len() == len,
        Want::Bytes(len).admits(Reply::Failed(failure)),
        Want::Method.admits(Reply::Method(method)) && Want::Method.admits(Reply::Failed(failure)),
        Want::Thread.admits(Reply::Thread(thread)),
        Want::Time(room).admits(Reply::Time(now)) <==> now + room
            <= 18_446_744_073_709_551_615_999_999_999,
{
}

} // verus!
