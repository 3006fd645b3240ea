//! Remote devices.

use crate::error::BluetoothError;
use crate::java::{Command, JavaMethod, JavaText, ObjectId, Reply, Target, Want};
use crate::operation;
use crate::operation::{Explained, Operation, Progress, Protocol, Stage, Trouble};
use crate::socket::{Build, SocketParts};
use crate::socket;
use vstd::prelude::*;

verus! {

/// Corresponds to `android.bluetooth.BluetoothDevice`.
#[derive(Clone, Copy, PartialEq, Eq, Structural, Debug)]
pub struct BluetoothDevice {
    pub internal: ObjectId,
}

/// Attach to the virtual machine, call a method that returns a string, and read the string.
#[derive(Clone, Copy, PartialEq, Eq, Structural, Debug)]
pub enum GetTextStage {
    /// If `nullable`, a null reference is an answer too: that the text may not be known.
    Attaching { object: ObjectId, method: JavaMethod, nullable: bool },
    Getting { nullable: bool },
    Reading,
}

pub type GetText = Explained<GetTextStage>;

impl Stage for GetTextStage {
    type Output = String;

    open spec fn stage_wanted(self) -> Want {
        match self {
            GetTextStage::Attaching { .. } => Want::Attempt,
            GetTextStage::Getting { .. } => Want::Object,
            GetTextStage::Reading => Want::Text,
        }
    }

    open spec fn stage_next(self, reply: Reply) -> Progress<Self, Result<String, Trouble>> {
        match (self, reply) {
            (GetTextStage::Attaching { object, method, nullable }, Reply::Done) => Progress::Call(
                GetTextStage::Getting { nullable },
                Command::CallObject { target: Target::Object(object), method, argument: None },
            ),
            (GetTextStage::Getting { nullable }, Reply::Object(string)) => if nullable
                && string.is_null() {
                Progress::Finish(Err(Trouble::Known(BluetoothError::PermissionDenied)))
            } else {
                Progress::Call(GetTextStage::Reading, Command::GetString(string))
            },
            (GetTextStage::Reading, Reply::Text(text)) => Progress::Finish(Ok(text)),
            (_, Reply::Failed(failure)) => Progress::Finish(Err(Trouble::Failed(failure))),
            _ => arbitrary(),
        }
    }

    fn stage_want(&self) -> (want: Want) {
        match self {
            GetTextStage::Attaching { .. } => Want::Attempt,
            GetTextStage::Getting { .. } => Want::Object,
            GetTextStage::Reading => Want::Text,
        }
    }

    fn stage_step(self, reply: Reply) -> (progress: Progress<Self, Result<String, Trouble>>) {
        match (self, reply) {
            (GetTextStage::Attaching { object, method, nullable }, Reply::Done) => Progress::Call(
                GetTextStage::Getting { nullable },
                Command::CallObject { target: Target::Object(object), method, argument: None },
            ),
            (GetTextStage::Getting { nullable }, Reply::Object(string)) => if nullable
                && string.is_null() {
                Progress::Finish(Err(Trouble::Known(BluetoothError::PermissionDenied)))
            } else {
                Progress::Call(GetTextStage::Reading, Command::GetString(string))
            },
            (GetTextStage::Reading, Reply::Text(text)) => Progress::Finish(Ok(text)),
            (_, Reply::Failed(failure)) => Progress::Finish(Err(Trouble::Failed(failure))),
            _ => vstd::pervasive::unreached(),
        }
    }
}

/// Creating an RFCOMM socket.
#[derive(Debug)]
pub enum BuildRfcommStage {
    Attaching { device: ObjectId, uuid: String, is_secure: bool },
    /// Making a Java string of the service identifier.
    Naming { device: ObjectId, is_secure: bool },
    /// Making a Java `UUID` of the string.
    Parsing { device: ObjectId, is_secure: bool },
    /// Creating the Java socket.
    Creating,
    /// Keeping the Java socket.
    Keeping,
    /// Preparing the Java socket for use.
    Building(Build),
}

pub type BuildRfcomm = Explained<BuildRfcommStage>;

impl BuildRfcommStage {
    /// The method that creates the Java socket.
    pub open spec fn creator(is_secure: bool) -> JavaMethod {
        if is_secure {
            JavaMethod::CreateRfcommSocket
        } else {
            JavaMethod::CreateInsecureRfcommSocket
        }
    }

    pub open spec fn of_build(
        progress: Progress<Build, Result<SocketParts, BluetoothError>>,
    ) -> Progress<Self, Result<SocketParts, Trouble>> {
        match progress {
            Progress::Call(build, command) => Progress::Call(
                BuildRfcommStage::Building(build),
                command,
            ),
            Progress::Finish(Ok(parts)) => Progress::Finish(Ok(parts)),
            Progress::Finish(Err(error)) => Progress::Finish(Err(Trouble::Known(error))),
        }
    }

    fn from_build(progress: Progress<Build, Result<SocketParts, BluetoothError>>) -> (built:
        Progress<Self, Result<SocketParts, Trouble>>)
        ensures
            built == Self::of_build(progress),
    {
        match progress {
            Progress::Call(build, command) => Progress::Call(
                BuildRfcommStage::Building(build),
                command,
            ),
            Progress::Finish(Ok(parts)) => Progress::Finish(Ok(parts)),
            Progress::Finish(Err(error)) => Progress::Finish(Err(Trouble::Known(error))),
        }
    }
}

impl Stage for BuildRfcommStage {
    type Output = SocketParts;

    open spec fn stage_wanted(self) -> Want {
        match self {
            BuildRfcommStage::Attaching { .. } => Want::Attempt,
            BuildRfcommStage::Naming { .. } => Want::Object,
            BuildRfcommStage::Parsing { .. } => Want::Object,
            BuildRfcommStage::Creating => Want::Object,
            BuildRfcommStage::Keeping => Want::Object,
            BuildRfcommStage::Building(build) => build.wanted(),
        }
    }

    open spec fn stage_next(self, reply: Reply) -> Progress<Self, Result<SocketParts, Trouble>> {
        match (self, reply) {
            (BuildRfcommStage::Attaching { device, uuid, is_secure }, Reply::Done) =>
                Progress::Call(
                    BuildRfcommStage::Naming { device, is_secure },
                    Command::NewString(JavaText::Given(uuid)),
                ),
            (BuildRfcommStage::Naming { device, is_secure }, Reply::Object(string)) =>
                Progress::Call(
                    BuildRfcommStage::Parsing { device, is_secure },
                    Command::CallObject {
                        target: Target::Class,
                        method: JavaMethod::UuidFromString,
                        argument: Some(string),
                    },
                ),
            (BuildRfcommStage::Parsing { device, is_secure }, Reply::Object(uuid)) =>
                Progress::Call(
                    BuildRfcommStage::Creating,
                    Command::CallObject {
                        target: Target::Object(device),
                        method: Self::creator(is_secure),
                        argument: Some(uuid),
                    },
                ),
            (BuildRfcommStage::Creating, Reply::Object(object)) => Progress::Call(
                BuildRfcommStage::Keeping,
                Command::NewGlobalRef { object, checked: true },
            ),
            (BuildRfcommStage::Keeping, Reply::Object(internal)) => Self::of_build(
                socket::building(internal),
            ),
            (BuildRfcommStage::Building(build), _) => Self::of_build(build.next(reply)),
            (_, Reply::Failed(failure)) => Progress::Finish(Err(Trouble::Failed(failure))),
            _ => arbitrary(),
        }
    }

    fn stage_want(&self) -> (want: Want) {
        match self {
            BuildRfcommStage::Attaching { .. } => Want::Attempt,
            BuildRfcommStage::Naming { .. } => Want::Object,
            BuildRfcommStage::Parsing { .. } => Want::Object,
            BuildRfcommStage::Creating => Want::Object,
            BuildRfcommStage::Keeping => Want::Object,
            BuildRfcommStage::Building(build) => build.want(),
        }
    }

    fn stage_step(self, reply: Reply) -> (progress: Progress<Self, Result<SocketParts, Trouble>>) {
        match (self, reply) {
            (BuildRfcommStage::Attaching { device, uuid, is_secure }, Reply::Done) =>
                Progress::Call(
                    BuildRfcommStage::Naming { device, is_secure },
                    Command::NewString(JavaText::Given(uuid)),
                ),
            (BuildRfcommStage::Naming { device, is_secure }, Reply::Object(string)) =>
                Progress::Call(
                    BuildRfcommStage::Parsing { device, is_secure },
                    Command::CallObject {
                        target: Target::Class,
                        method: JavaMethod::UuidFromString,
                        argument: Some(string),
                    },
                ),
            (BuildRfcommStage::Parsing { device, is_secure }, Reply::Object(uuid)) => {
                let method = if is_secure {
                    JavaMethod::CreateRfcommSocket
                } else {
                    JavaMethod::CreateInsecureRfcommSocket
                };
                Progress::Call(
                    BuildRfcommStage::Creating,
                    Command::CallObject {
                        target: Target::Object(device),
                        method,
                        argument: Some(uuid),
                    },
                )
            },
            (BuildRfcommStage::Creating, Reply::Object(object)) => Progress::Call(
                BuildRfcommStage::Keeping,
                Command::NewGlobalRef { object, checked: true },
            ),
            (BuildRfcommStage::Keeping, Reply::Object(internal)) => Self::from_build(
                socket::BluetoothSocket::build(internal),
            ),
            (BuildRfcommStage::Building(build), reply) => Self::from_build(build.step(reply)),
            (_, Reply::Failed(failure)) => Progress::Finish(Err(Trouble::Failed(failure))),
            _ => vstd::pervasive::unreached(),
        }
    }
}

impl BluetoothDevice {
    /// The conversation that asks the device for a text.
    pub open spec fn getting_text(self, method: JavaMethod, nullable: bool) -> Progress<
        GetText,
        Result<String, BluetoothError>,
    > {
        Progress::Call(
            Explained::Running(
                GetTextStage::Attaching { object: self.internal, method, nullable },
            ),
            Command::AttachVm,
        )
    }

    /// Gets the hardware address of this BluetoothDevice.
    pub fn get_address(&self) -> (progress: Progress<GetText, Result<String, BluetoothError>>)
        ensures
            progress == self.getting_text(JavaMethod::GetAddress, false),
    {
        Progress::Call(
            Explained::Running(
                GetTextStage::Attaching {
                    object: self.internal,
                    method: JavaMethod::GetAddress,
                    nullable: false,
                },
            ),
            Command::AttachVm,
        )
    }

    /// Gets the friendly Bluetooth name of the remote device.
    /// It may end with [`BluetoothError::PermissionDenied`], or some other error.
    pub fn get_name(&self) -> (progress: Progress<GetText, Result<String, BluetoothError>>)
        ensures
            progress == self.getting_text(JavaMethod::GetName, true),
    {
        Progress::Call(
            Explained::Running(
                GetTextStage::Attaching {
                    object: self.internal,
                    method: JavaMethod::GetName,
                    nullable: true,
                },
            ),
            Command::AttachVm,
        )
    }

    /// Creates the Android Bluetooth API socket object for RFCOMM communication.
    /// `connect` is not called automatically. [`SPP_UUID`](crate::java::SPP_UUID) can be used.
    pub fn build_rfcomm_socket(&self, uuid: &str, is_secure: bool) -> (progress: Progress<
        BuildRfcomm,
        Result<SocketParts, BluetoothError>,
    >)
        ensures
            match progress {
                Progress::Call(
                    Explained::Running(
                        BuildRfcommStage::Attaching { device, uuid: text, is_secure: secure },
                    ),
                    Command::AttachVm,
                ) => device == self.internal && text@ == uuid@ && secure == is_secure,
                _ => false,
            },
    {
        Progress::Call(
            Explained::Running(
                BuildRfcommStage::Attaching {
                    device: self.internal,
                    uuid: uuid.to_owned(),
                    is_secure,
                },
            ),
            Command::AttachVm,
        )
    }
}

/// The text is got exactly when every command succeeds, and, where a null reference is an answer,
/// the reference is not null. A null reference is denied permission, and nothing else is: any other
/// error is what is found out about the failure of a command.
pub proof fn law_get_text_outcome(
    device: BluetoothDevice,
    method: JavaMethod,
    nullable: bool,
    replies: Seq<Reply>,
)
    requires
        operation::admitted(device.getting_text(method, nullable), replies),
        operation::run(device.getting_text(method, nullable), replies) is Finish,
    ensures
        ({
            let outcome = operation::run(device.getting_text(method, nullable), replies)->Finish_0;
            let called = replies.len() >= 2 && replies[0] is Done && replies[1] is Object;
            let denied = called && nullable && replies[1]->Object_0.is_null();
            &&& outcome is Ok <==> called && !denied && replies.len() == 3 && replies[2] is Text
            &&& outcome is Ok ==> outcome->Ok_0 == replies[2]->Text_0
            &&& (outcome matches Err(error) && error is PermissionDenied) <==> denied
            &&& outcome matches Err(error) ==> error is PermissionDenied || error is Exception
                || error is Jni
        }),
{
    reveal_with_fuel(operation::run, 5);
    reveal_with_fuel(operation::admitted, 5);
    let after_0 = replies;
    let after_1 = after_0.drop_first();
    let after_2 = after_1.drop_first();
    operation::lemma_failed_command(
        GetTextStage::Attaching { object: device.internal, method, nullable },
        after_0,
    );
    operation::lemma_failed_command(GetTextStage::Getting { nullable }, after_1);
    operation::lemma_failed_command(GetTextStage::Reading, after_2);
}

/// The conversation of [`BluetoothDevice::build_rfcomm_socket`] at its start.
pub open spec fn building_rfcomm(device: ObjectId, uuid: String, is_secure: bool) -> Progress<
    BuildRfcomm,
    Result<SocketParts, BluetoothError>,
> {
    Progress::Call(
        Explained::Running(BuildRfcommStage::Attaching { device, uuid, is_secure }),
        Command::AttachVm,
    )
}

/// The identifier that is parsed is the given one, and the socket is created on the device by
/// the method that `is_secure` chooses.
pub proof fn law_rfcomm_commands(
    device: ObjectId,
    uuid: String,
    is_secure: bool,
    string: ObjectId,
    parsed: ObjectId,
)
    ensures
        operation::commands(
            building_rfcomm(device, uuid, is_secure),
            seq![Reply::Done, Reply::Object(string), Reply::Object(parsed)],
        ) == seq![
            Command::AttachVm,
            Command::NewString(JavaText::Given(uuid)),
            Command::CallObject {
                target: Target::Class,
                method: JavaMethod::UuidFromString,
                argument: Some(string),
            },
            Command::CallObject {
                target: Target::Object(device),
                method: if is_secure {
                    JavaMethod::CreateRfcommSocket
                } else {
                    JavaMethod::CreateInsecureRfcommSocket
                },
                argument: Some(parsed),
            },
        ],
{
    reveal_with_fuel(operation::commands, 5);
    let replies = seq![Reply::Done, Reply::Object(string), Reply::Object(parsed)];
    assert(replies.drop_first() =~= seq![Reply::Object(string), Reply::Object(parsed)]);
    assert(replies.drop_first().drop_first() =~= seq![Reply::Object(parsed)]);
    assert(replies.drop_first().drop_first().drop_first() =~= Seq::<Reply>::empty());
}

/// Once the Java socket is there, the outcome is that of preparing it for use.
pub proof fn law_rfcomm_outcome(
    device: ObjectId,
    uuid: String,
    is_secure: bool,
    string: ObjectId,
    parsed: ObjectId,
    created: ObjectId,
    internal: ObjectId,
    built: Seq<Reply>,
    outcome: Result<SocketParts, BluetoothError>,
)
    requires
        operation::ends_with(socket::building(internal), built, outcome),
    ensures
        operation::ends_with(
            building_rfcomm(device, uuid, is_secure),
            seq![
                Reply::Done,
                Reply::Object(string),
                Reply::Object(parsed),
                Reply::Object(created),
                Reply::Object(internal),
            ] + built,
            outcome,
        ),
{
    let first = seq![
        Reply::Done,
        Reply::Object(string),
        Reply::Object(parsed),
        Reply::Object(created),
        Reply::Object(internal),
    ];
    let start = building_rfcomm(device, uuid, is_secure);
    let hold = |progress: Progress<Build, Result<SocketParts, BluetoothError>>|
        Explained::of(BuildRfcommStage::of_build(progress));
    assert(operation::run(start, first) == hold(socket::building(internal))
        && operation::admitted(start, first)) by {
        reveal_with_fuel(operation::run, 6);
        reveal_with_fuel(operation::admitted, 6);
    }
    operation::lemma_run_in_two(start, first, built);
    operation::lemma_held_end(hold, socket::building(internal), built, outcome);
}

/// How a text of a device is got: the method is called on the device, and the string that it
/// returns is read. A failure of any of the commands is explained. Where a null reference is an
/// answer, it is denied permission, and no string is read.
pub proof fn law_get_text_conversation(
    device: BluetoothDevice,
    method: JavaMethod,
    nullable: bool,
    string: ObjectId,
    text: String,
)
    ensures
        ({
            let start = device.getting_text(method, nullable);
            let replies = seq![Reply::Done, Reply::Object(string), Reply::Text(text)];
            let asked = seq![
                Command::AttachVm,
                Command::CallObject {
                    target: Target::Object(device.internal),
                    method,
                    argument: None,
                },
                Command::GetString(string),
            ];
            let denied = nullable && string == ObjectId(0);
            &&& !denied ==> operation::leads_to(start, replies, asked, Progress::Finish(Ok(text)))
            &&& denied ==> operation::leads_to(
                start,
                replies.take(2),
                asked.take(2),
                Progress::Finish(Err(BluetoothError::PermissionDenied)),
            )
            &&& forall|k: int|
                0 <= k < 3 && !(denied && k == 2) ==> operation::explains_failure_at(
                    start,
                    #[trigger] replies.take(k),
                    operation::just_the_error::<String>(),
                )
        }),
{
    let start = device.getting_text(method, nullable);
    let replies = seq![Reply::Done, Reply::Object(string), Reply::Text(text)];
    let asked = seq![
        Command::AttachVm,
        Command::CallObject { target: Target::Object(device.internal), method, argument: None },
        Command::GetString(string),
    ];
    operation::lemma_stage_walk(
        start,
        replies,
        asked,
        0,
        GetTextStage::Attaching { object: device.internal, method, nullable },
    );
    operation::lemma_stage_walk(start, replies, asked, 1, GetTextStage::Getting { nullable });
    if !(nullable && string == ObjectId(0)) {
        operation::lemma_stage_walk(start, replies, asked, 2, GetTextStage::Reading);
    }
}

/// How an RFCOMM socket is created: a Java string is made of the identifier and parsed, and the
/// device is asked for a socket for what was parsed, a secure one or an insecure one as demanded.
/// The socket is kept, and then prepared for use with the commands of [`BluetoothSocket::build`]
/// and no others. The outcome is that of the preparation. A failure of a command before that is
/// explained.
pub proof fn law_rfcomm_conversation(
    device: ObjectId,
    uuid: String,
    is_secure: bool,
    string: ObjectId,
    parsed: ObjectId,
    created: ObjectId,
    internal: ObjectId,
    built: Seq<Reply>,
    outcome: Result<SocketParts, BluetoothError>,
)
    requires
        operation::ends_with(socket::building(internal), built, outcome),
    ensures
        ({
            let start = building_rfcomm(device, uuid, is_secure);
            let replies = seq![
                Reply::Done,
                Reply::Object(string),
                Reply::Object(parsed),
                Reply::Object(created),
                Reply::Object(internal),
            ];
            &&& operation::leads_to(
                start,
                replies + built,
                seq![
                    Command::AttachVm,
                    Command::NewString(JavaText::Given(uuid)),
                    Command::CallObject {
                        target: Target::Class,
                        method: JavaMethod::UuidFromString,
                        argument: Some(string),
                    },
                    Command::CallObject {
                        target: Target::Object(device),
                        method: if is_secure {
                            JavaMethod::CreateRfcommSocket
                        } else {
                            JavaMethod::CreateInsecureRfcommSocket
                        },
                        argument: Some(parsed),
                    },
                    Command::NewGlobalRef { object: created, checked: true },
                ] + operation::answered(socket::building(internal), built),
                Progress::Finish(outcome),
            )
            &&& forall|k: int|
                0 <= k < 5 ==> operation::explains_failure_at(
                    start,
                    #[trigger] replies.take(k),
                    operation::just_the_error::<SocketParts>(),
                )
        }),
{
    let start = building_rfcomm(device, uuid, is_secure);
    let method = if is_secure {
        JavaMethod::CreateRfcommSocket
    } else {
        JavaMethod::CreateInsecureRfcommSocket
    };
    let replies = seq![
        Reply::Done,
        Reply::Object(string),
        Reply::Object(parsed),
        Reply::Object(created),
        Reply::Object(internal),
    ];
    let asked = seq![
        Command::AttachVm,
        Command::NewString(JavaText::Given(uuid)),
        Command::CallObject {
            target: Target::Class,
            method: JavaMethod::UuidFromString,
            argument: Some(string),
        },
        Command::CallObject { target: Target::Object(device), method, argument: Some(parsed) },
        Command::NewGlobalRef { object: created, checked: true },
    ];
    let hold = |progress: Progress<Build, Result<SocketParts, BluetoothError>>|
        Explained::of(BuildRfcommStage::of_build(progress));
    operation::lemma_stage_walk(
        start,
        replies,
        asked,
        0,
        BuildRfcommStage::Attaching { device, uuid, is_secure },
    );
    operation::lemma_stage_walk(
        start,
        replies,
        asked,
        1,
        BuildRfcommStage::Naming { device, is_secure },
    );
    operation::lemma_stage_walk(
        start,
        replies,
        asked,
        2,
        BuildRfcommStage::Parsing { device, is_secure },
    );
    operation::lemma_stage_walk(start, replies, asked, 3, BuildRfcommStage::Creating);
    operation::lemma_stage_walk(start, replies, asked, 4, BuildRfcommStage::Keeping);
    operation::lemma_held_leads(hold, socket::building(internal), built, outcome);
    operation::lemma_leads_further(
        start,
        replies,
        asked,
        hold(socket::building(internal)),
        built,
        operation::answered(socket::building(internal), built),
        Progress::Finish(outcome),
    );
}

/// All the commands by which an RFCOMM socket is created when none of them fails, and the parts
/// that come of it: the input stream is the one that `getInputStream` of the new Java socket
/// returned, and the output stream the one that `getOutputStream` returned.
pub proof fn law_rfcomm_success(
    device: ObjectId,
    uuid: String,
    is_secure: bool,
    string: ObjectId,
    parsed: ObjectId,
    created: ObjectId,
    input: ObjectId,
    output: ObjectId,
    array: ObjectId,
    parts: SocketParts,
)
    ensures
        operation::leads_to(
            building_rfcomm(device, uuid, is_secure),
            seq![
                Reply::Done,
                Reply::Object(string),
                Reply::Object(parsed),
                Reply::Object(created),
                Reply::Object(parts.internal),
            ] + seq![
                Reply::Done,
                Reply::Object(input),
                Reply::Object(parts.input_stream),
                Reply::Object(output),
                Reply::Object(parts.output_stream),
                Reply::Method(parts.jmethod_write),
                Reply::Method(parts.jmethod_flush),
                Reply::Object(array),
                Reply::Object(parts.array_write),
            ],
            seq![
                Command::AttachVm,
                Command::NewString(JavaText::Given(uuid)),
                Command::CallObject {
                    target: Target::Class,
                    method: JavaMethod::UuidFromString,
                    argument: Some(string),
                },
                Command::CallObject {
                    target: Target::Object(device),
                    method: if is_secure {
                        JavaMethod::CreateRfcommSocket
                    } else {
                        JavaMethod::CreateInsecureRfcommSocket
                    },
                    argument: Some(parsed),
                },
                Command::NewGlobalRef { object: created, checked: true },
            ] + seq![
                Command::AttachVm,
                Command::CallObject {
                    target: Target::Object(parts.internal),
                    method: JavaMethod::GetInputStream,
                    argument: None,
                },
                Command::NewGlobalRef { object: input, checked: true },
                Command::CallObject {
                    target: Target::Object(parts.internal),
                    method: JavaMethod::GetOutputStream,
                    argument: None,
                },
                Command::NewGlobalRef { object: output, checked: true },
                Command::GetMethodId(JavaMethod::Write),
                Command::GetMethodId(JavaMethod::Flush),
                Command::NewByteArray(32768),
                Command::NewGlobalRef { object: array, checked: true },
            ],
            Progress::Finish(Ok(parts)),
        ),
{
    let built = seq![
        Reply::Done,
        Reply::Object(input),
        Reply::Object(parts.input_stream),
        Reply::Object(output),
        Reply::Object(parts.output_stream),
        Reply::Method(parts.jmethod_write),
        Reply::Method(parts.jmethod_flush),
        Reply::Object(array),
        Reply::Object(parts.array_write),
    ];
    socket::law_build_conversation(parts.internal, input, output, array, parts);
    law_rfcomm_conversation(
        device,
        uuid,
        is_secure,
        string,
        parsed,
        created,
        parts.internal,
        built,
        Ok(parts),
    );
}

} // verus!
