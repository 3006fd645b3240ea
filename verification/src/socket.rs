//! The socket.

use crate::buffer::ReadBuffer;
use crate::connection::{Close, Connect};
use crate::error::BluetoothError;
use crate::java::{
    CallbackId, Command, JavaMethod, MethodId, ObjectId, Reply, Target, ThreadId, Want,
};
use crate::operation;
use crate::operation::{Explained, Progress, Protocol, Stage, Trouble};
use crate::query;
use crate::query::{ask, Query, QueryStage};
use crate::reader::ReadLoop;
use crate::stream::{Flush, FlushStage, Write};
use vstd::prelude::*;

verus! {

/// The size of the Java byte arrays that are made beforehand.
pub const ARRAY_SIZE: i32 = 32 * 1024;

/// Manages the Bluetooth socket and IO streams. It uses a read buffer that a background thread
/// fills, because the timeout of the Java `InputStream` from the `BluetoothSocket` cannot be set.
/// The read timeout defaults to 0 (it does not block).
#[derive(Debug)]
pub struct BluetoothSocket {
    pub internal: ObjectId,
    pub input_stream: ObjectId,
    pub buf_read: ReadBuffer,
    pub thread_read: Option<ThreadId>,
    /// Nothing is called by default.
    pub read_callback: Option<CallbackId>,
    /// In nanoseconds.
    pub read_timeout: u128,
    pub output_stream: ObjectId,
    pub jmethod_write: MethodId,
    pub jmethod_flush: MethodId,
    pub array_write: ObjectId,
    /// Whether the Java socket was closed from here.
    pub closed: bool,
}

/// What a socket holds.
#[verifier::ext_equal]
pub struct SocketModel {
    pub internal: ObjectId,
    pub input_stream: ObjectId,
    pub buf_read: Seq<u8>,
    pub thread_read: Option<ThreadId>,
    pub read_callback: Option<CallbackId>,
    pub read_timeout: u128,
    pub output_stream: ObjectId,
    pub jmethod_write: MethodId,
    pub jmethod_flush: MethodId,
    pub array_write: ObjectId,
    pub closed: bool,
}

impl View for BluetoothSocket {
    type V = SocketModel;

    open spec fn view(&self) -> SocketModel {
        SocketModel {
            internal: self.internal,
            input_stream: self.input_stream,
            buf_read: self.buf_read@,
            thread_read: self.thread_read,
            read_callback: self.read_callback,
            read_timeout: self.read_timeout,
            output_stream: self.output_stream,
            jmethod_write: self.jmethod_write,
            jmethod_flush: self.jmethod_flush,
            array_write: self.array_write,
            closed: self.closed,
        }
    }
}

/// The course of a conversation on behalf of a socket.
pub trait SocketProtocol: Sized {
    type Outcome;

    /// The replies that can come next.
    spec fn socket_wanted(self) -> Want;

    /// How the conversation goes on after a reply, and what becomes of the socket.
    spec fn socket_next(self, socket: SocketModel, reply: Reply) -> (
        Progress<Self, Self::Outcome>,
        SocketModel,
    );
}

/// A conversation on behalf of a socket that waits for the reply to the command it has handed
/// out last.
pub trait SocketOperation: SocketProtocol {
    /// The replies that the operation can take.
    fn want(&self) -> (want: Want)
        ensures
            want == self.socket_wanted(),
    ;

    /// Takes the reply to the command that was handed out last.
    fn step(self, socket: &mut BluetoothSocket, reply: Reply) -> (progress: Progress<
        Self,
        Self::Outcome,
    >)
        requires
            self.socket_wanted().admits(reply),
        ensures
            (progress, final(socket)@) == self.socket_next(old(socket)@, reply),
    ;
}

/// A socket and a conversation on its behalf that has the socket to itself.
pub struct Together<O> {
    pub op: O,
    pub socket: SocketModel,
}

impl<O: SocketProtocol> Together<O> {
    pub open spec fn of(progress: (Progress<O, O::Outcome>, SocketModel)) -> Progress<
        Self,
        (O::Outcome, SocketModel),
    > {
        match progress {
            (Progress::Call(op, command), socket) => Progress::Call(
                Together { op, socket },
                command,
            ),
            (Progress::Finish(outcome), socket) => Progress::Finish((outcome, socket)),
        }
    }
}

impl<O: SocketProtocol> Protocol for Together<O> {
    type Outcome = (O::Outcome, SocketModel);

    open spec fn wanted(self) -> Want {
        self.op.socket_wanted()
    }

    open spec fn next(self, reply: Reply) -> Progress<Self, (O::Outcome, SocketModel)> {
        Self::of(self.op.socket_next(self.socket, reply))
    }
}

/// The parts of which a socket is made.
#[derive(Clone, Copy, PartialEq, Eq, Structural, Debug)]
pub struct SocketParts {
    pub internal: ObjectId,
    pub input_stream: ObjectId,
    pub output_stream: ObjectId,
    pub jmethod_write: MethodId,
    pub jmethod_flush: MethodId,
    pub array_write: ObjectId,
}

/// Preparing a Java socket for use. The streams may (or may NOT) be usable after reconnection.
#[derive(Clone, Copy, PartialEq, Eq, Structural, Debug)]
pub enum BuildStage {
    Attaching { internal: ObjectId },
    /// Getting the input stream.
    GettingInput { internal: ObjectId },
    KeepingInput { internal: ObjectId },
    /// Getting the output stream.
    GettingOutput { internal: ObjectId, input_stream: ObjectId },
    KeepingOutput { internal: ObjectId, input_stream: ObjectId },
    /// Looking up the `write` method.
    FindingWrite { internal: ObjectId, input_stream: ObjectId, output_stream: ObjectId },
    /// Looking up the `flush` method.
    FindingFlush {
        internal: ObjectId,
        input_stream: ObjectId,
        output_stream: ObjectId,
        jmethod_write: MethodId,
    },
    /// Making the byte array for writing. All other parts are there.
    MakingArray(SocketParts),
    KeepingArray(SocketParts),
}

pub type Build = Explained<BuildStage>;

impl Stage for BuildStage {
    type Output = SocketParts;

    open spec fn stage_wanted(self) -> Want {
        match self {
            BuildStage::Attaching { .. } => Want::Attempt,
            BuildStage::FindingWrite { .. } => Want::Method,
            BuildStage::FindingFlush { .. } => Want::Method,
            _ => Want::Object,
        }
    }

    open spec fn stage_next(self, reply: Reply) -> Progress<Self, Result<SocketParts, Trouble>> {
        match (self, reply) {
            (BuildStage::Attaching { internal }, Reply::Done) => Progress::Call(
                BuildStage::GettingInput { internal },
                Command::CallObject {
                    target: Target::Object(internal),
                    method: JavaMethod::GetInputStream,
                    argument: None,
                },
            ),
            (BuildStage::GettingInput { internal }, Reply::Object(object)) => Progress::Call(
                BuildStage::KeepingInput { internal },
                Command::NewGlobalRef { object, checked: true },
            ),
            (BuildStage::KeepingInput { internal }, Reply::Object(input_stream)) => Progress::Call(
                BuildStage::GettingOutput { internal, input_stream },
                Command::CallObject {
                    target: Target::Object(internal),
                    method: JavaMethod::GetOutputStream,
                    argument: None,
                },
            ),
            (BuildStage::GettingOutput { internal, input_stream }, Reply::Object(object)) =>
                Progress::Call(
                    BuildStage::KeepingOutput { internal, input_stream },
                    Command::NewGlobalRef { object, checked: true },
                ),
            (BuildStage::KeepingOutput { internal, input_stream }, Reply::Object(output_stream)) =>
                Progress::Call(
                    BuildStage::FindingWrite { internal, input_stream, output_stream },
                    Command::GetMethodId(JavaMethod::Write),
                ),
            (
                BuildStage::FindingWrite { internal, input_stream, output_stream },
                Reply::Method(jmethod_write),
            ) => Progress::Call(
                BuildStage::FindingFlush { internal, input_stream, output_stream, jmethod_write },
                Command::GetMethodId(JavaMethod::Flush),
            ),
            (
                BuildStage::FindingFlush { internal, input_stream, output_stream, jmethod_write },
                Reply::Method(jmethod_flush),
            ) => Progress::Call(
                BuildStage::MakingArray(
                    SocketParts {
                        internal,
                        input_stream,
                        output_stream,
                        jmethod_write,
                        jmethod_flush,
                        array_write: ObjectId(0),
                    },
                ),
                Command::NewByteArray(ARRAY_SIZE),
            ),
            (BuildStage::MakingArray(parts), Reply::Object(object)) => Progress::Call(
                BuildStage::KeepingArray(parts),
                Command::NewGlobalRef { object, checked: true },
            ),
            (BuildStage::KeepingArray(parts), Reply::Object(array_write)) => Progress::Finish(
                Ok(SocketParts { array_write, ..parts }),
            ),
            (_, Reply::Failed(failure)) => Progress::Finish(Err(Trouble::Failed(failure))),
            _ => arbitrary(),
        }
    }

    fn stage_want(&self) -> (want: Want) {
        match self {
            BuildStage::Attaching { .. } => Want::Attempt,
            BuildStage::FindingWrite { .. } => Want::Method,
            BuildStage::FindingFlush { .. } => Want::Method,
            _ => Want::Object,
        }
    }

    fn stage_step(self, reply: Reply) -> (progress: Progress<Self, Result<SocketParts, Trouble>>) {
        match (self, reply) {
            (BuildStage::Attaching { internal }, Reply::Done) => Progress::Call(
                BuildStage::GettingInput { internal },
                Command::CallObject {
                    target: Target::Object(internal),
                    method: JavaMethod::GetInputStream,
                    argument: None,
                },
            ),
            (BuildStage::GettingInput { internal }, Reply::Object(object)) => Progress::Call(
                BuildStage::KeepingInput { internal },
                Command::NewGlobalRef { object, checked: true },
            ),
            (BuildStage::KeepingInput { internal }, Reply::Object(input_stream)) => Progress::Call(
                BuildStage::GettingOutput { internal, input_stream },
                Command::CallObject {
                    target: Target::Object(internal),
                    method: JavaMethod::GetOutputStream,
                    argument: None,
                },
            ),
            (BuildStage::GettingOutput { internal, input_stream }, Reply::Object(object)) =>
                Progress::Call(
                    BuildStage::KeepingOutput { internal, input_stream },
                    Command::NewGlobalRef { object, checked: true },
                ),
            (BuildStage::KeepingOutput { internal, input_stream }, Reply::Object(output_stream)) =>
                Progress::Call(
                    BuildStage::FindingWrite { internal, input_stream, output_stream },
                    Command::GetMethodId(JavaMethod::Write),
                ),
            (
                BuildStage::FindingWrite { internal, input_stream, output_stream },
                Reply::Method(jmethod_write),
            ) => Progress::Call(
                BuildStage::FindingFlush { internal, input_stream, output_stream, jmethod_write },
                Command::GetMethodId(JavaMethod::Flush),
            ),
            (
                BuildStage::FindingFlush { internal, input_stream, output_stream, jmethod_write },
                Reply::Method(jmethod_flush),
            ) => Progress::Call(
                BuildStage::MakingArray(
                    SocketParts {
                        internal,
                        input_stream,
                        output_stream,
                        jmethod_write,
                        jmethod_flush,
                        array_write: ObjectId(0),
                    },
                ),
                Command::NewByteArray(ARRAY_SIZE),
            ),
            (BuildStage::MakingArray(parts), Reply::Object(object)) => Progress::Call(
                BuildStage::KeepingArray(parts),
                Command::NewGlobalRef { object, checked: true },
            ),
            (BuildStage::KeepingArray(parts), Reply::Object(array_write)) => Progress::Finish(
                Ok(SocketParts { array_write, ..parts }),
            ),
            (_, Reply::Failed(failure)) => Progress::Finish(Err(Trouble::Failed(failure))),
            _ => vstd::pervasive::unreached(),
        }
    }
}

/// The conversation of [`BluetoothSocket::build`] at its start.
pub open spec fn building(internal: ObjectId) -> Progress<
    Build,
    Result<SocketParts, BluetoothError>,
> {
    Progress::Call(
        Explained::Running(BuildStage::Attaching { internal }),
        Command::AttachVm,
    )
}

impl SocketModel {
    /// A socket that was never connected.
    pub open spec fn fresh(parts: SocketParts) -> SocketModel {
        SocketModel {
            internal: parts.internal,
            input_stream: parts.input_stream,
            buf_read: Seq::empty(),
            thread_read: None,
            read_callback: None,
            read_timeout: 0,
            output_stream: parts.output_stream,
            jmethod_write: parts.jmethod_write,
            jmethod_flush: parts.jmethod_flush,
            array_write: parts.array_write,
            closed: false,
        }
    }

    pub open spec fn asking_connected(self) -> Progress<Query, Result<bool, BluetoothError>> {
        QueryStage::asked(Target::Object(self.internal), JavaMethod::IsConnected)
    }

    pub open spec fn flushing(self) -> Progress<Flush, Result<(), BluetoothError>> {
        Progress::Call(
            Explained::Running(
                FlushStage::Attaching { stream: self.output_stream, method: self.jmethod_flush },
            ),
            Command::AttachVm,
        )
    }
}

impl BluetoothSocket {
    /// Starts to get the streams of a Java socket, and what else a socket is made of.
    pub fn build(internal: ObjectId) -> (progress: Progress<
        Build,
        Result<SocketParts, BluetoothError>,
    >)
        ensures
            progress == building(internal),
    {
        Progress::Call(
            Explained::Running(BuildStage::Attaching { internal }),
            Command::AttachVm,
        )
    }

    /// Makes a socket of its parts.
    pub fn new(parts: SocketParts) -> (socket: BluetoothSocket)
        ensures
            socket@ == SocketModel::fresh(parts),
    {
        BluetoothSocket {
            internal: parts.internal,
            input_stream: parts.input_stream,
            buf_read: ReadBuffer::new(),
            thread_read: None,
            read_callback: None,
            read_timeout: 0,
            output_stream: parts.output_stream,
            jmethod_write: parts.jmethod_write,
            jmethod_flush: parts.jmethod_flush,
            array_write: parts.array_write,
            closed: false,
        }
    }

    /// Gets the connection status of this socket.
    pub fn is_connected(&self) -> (progress: Progress<Query, Result<bool, BluetoothError>>)
        ensures
            progress == self@.asking_connected(),
    {
        ask(Target::Object(self.internal), JavaMethod::IsConnected)
    }

    /// Returns number of available bytes that can be read without blocking.
    pub fn len_available(&self) -> (len: usize)
        ensures
            len == self@.buf_read.len(),
    {
        self.buf_read.len()
    }

    /// Clears the managed read buffer used by the Rust side background thread.
    pub fn clear_read_buf(&mut self)
        ensures
            final(self)@ == (SocketModel { buf_read: Seq::empty(), ..old(self)@ }),
    {
        self.buf_read.clear();
    }

    /// Sets timeout, in nanoseconds, for reading.
    pub fn set_read_timeout(&mut self, timeout: u128)
        ensures
            final(self)@ == (SocketModel { read_timeout: timeout, ..old(self)@ }),
    {
        self.read_timeout = timeout;
    }

    /// Sets or replaces the callback to be invoked from the background thread when
    /// new data becomes available or the socket is disconnected. The length of newly
    /// arrived data instead of the length of available data in the read buffer will
    /// be passed to the callback (or `None` if it is disconnected).
    pub fn set_read_callback(&mut self, callback: CallbackId)
        ensures
            final(self)@ == (SocketModel { read_callback: Some(callback), ..old(self)@ }),
    {
        self.read_callback = Some(callback);
    }

    /// Attempts to connect to a remote device. When connected, it starts a
    /// background thread for reading data, which terminates itself on disconnection.
    /// Do not reuse the socket after disconnection, because the underlying OS
    /// implementation is probably incapable of reconnecting the device, just like
    /// `java.net.Socket`.
    pub fn connect(&self) -> (progress: Progress<Connect, Result<(), BluetoothError>>)
        ensures
            progress == Connect::of_check(self@.asking_connected()),
            Together::of((progress, self@)) == self@.connecting(),
    {
        Connect::from_check(self.is_connected())
    }

    /// Closes this socket and releases any system resources associated with it, whether or not it
    /// is connected. If it is already closed then invoking this method has no effect.
    pub fn close(&self) -> (progress: Progress<Close, Result<(), BluetoothError>>)
        ensures
            progress == Close::of_check(self@, self@.asking_connected()),
            Together::of((progress, self@)) == self@.closing(),
    {
        Close::from_check(self, self.is_connected())
    }

    /// Starts the loop of the background thread.
    pub fn read_loop(&self) -> (progress: Progress<ReadLoop, Result<(), BluetoothError>>)
        ensures
            progress == Progress::<ReadLoop, Result<(), BluetoothError>>::Call(
                ReadLoop::Attaching,
                Command::AttachVm,
            ),
    {
        Progress::Call(ReadLoop::Attaching, Command::AttachVm)
    }
}

/// A socket can be made exactly when every command succeeds. Its parts are those that the replies
/// bring.
pub proof fn law_build_outcome(internal: ObjectId, replies: Seq<Reply>)
    requires
        operation::admitted(building(internal), replies),
        operation::run(building(internal), replies) is Finish,
    ensures
        ({
            let outcome = operation::run(building(internal), replies)->Finish_0;
            &&& outcome is Ok <==> replies.len() == 9 && replies[0] is Done && replies[1] is Object
                && replies[2] is Object && replies[3] is Object && replies[4] is Object
                && replies[5] is Method && replies[6] is Method && replies[7] is Object
                && replies[8] is Object
            &&& outcome is Ok ==> outcome->Ok_0 == SocketParts {
                internal,
                input_stream: replies[2]->Object_0,
                output_stream: replies[4]->Object_0,
                jmethod_write: replies[5]->Method_0,
                jmethod_flush: replies[6]->Method_0,
                array_write: replies[8]->Object_0,
            }
            &&& outcome matches Err(error) ==> error is Exception || error is Jni
        }),
{
    reveal_with_fuel(operation::run, 11);
    reveal_with_fuel(operation::admitted, 11);
    let input_stream = replies[2]->Object_0;
    let output_stream = replies[4]->Object_0;
    let jmethod_write = replies[5]->Method_0;
    let jmethod_flush = replies[6]->Method_0;
    let array_write = ObjectId(0);
    let parts = SocketParts {
        internal,
        input_stream,
        output_stream,
        jmethod_write,
        jmethod_flush,
        array_write,
    };
    let after_0 = replies;
    let after_1 = after_0.drop_first();
    let after_2 = after_1.drop_first();
    let after_3 = after_2.drop_first();
    let after_4 = after_3.drop_first();
    let after_5 = after_4.drop_first();
    let after_6 = after_5.drop_first();
    let after_7 = after_6.drop_first();
    let after_8 = after_7.drop_first();
    operation::lemma_failed_command(BuildStage::Attaching { internal }, after_0);
    operation::lemma_failed_command(BuildStage::GettingInput { internal }, after_1);
    operation::lemma_failed_command(BuildStage::KeepingInput { internal }, after_2);
    operation::lemma_failed_command(BuildStage::GettingOutput { internal, input_stream }, after_3);
    operation::lemma_failed_command(BuildStage::KeepingOutput { internal, input_stream }, after_4);
    operation::lemma_failed_command(
        BuildStage::FindingWrite { internal, input_stream, output_stream },
        after_5,
    );
    operation::lemma_failed_command(
        BuildStage::FindingFlush { internal, input_stream, output_stream, jmethod_write },
        after_6,
    );
    operation::lemma_failed_command(BuildStage::MakingArray(parts), after_7);
    operation::lemma_failed_command(BuildStage::KeepingArray(parts), after_8);
}

/// What the operations leave alone. None of them changes the Java objects of the socket (but for
/// the array for writing), the callback or the timeout. Only the background thread puts bytes into
/// the read buffer, only connecting and closing change which thread is kept in mind, only writing
/// changes the array for writing, and only closing and the background thread note that the Java
/// socket was closed, which is not taken back.
pub proof fn law_operations_leave_alone(
    connect: Connect,
    close: Close,
    write: Write,
    reader: ReadLoop,
    socket: SocketModel,
    reply: Reply,
)
    ensures
        connect.socket_wanted().admits(reply) ==> {
            let after = connect.socket_next(socket, reply).1;
            after == SocketModel { thread_read: after.thread_read, ..socket }
        },
        close.socket_wanted().admits(reply) ==> {
            let after = close.socket_next(socket, reply).1;
            &&& after == SocketModel {
                thread_read: after.thread_read,
                closed: after.closed,
                ..socket
            }
            &&& socket.closed ==> after.closed
        },
        write.socket_wanted().admits(reply) ==> {
            let after = write.socket_next(socket, reply).1;
            after == SocketModel { array_write: after.array_write, ..socket }
        },
        reader.socket_wanted().admits(reply) ==> {
            let after = reader.socket_next(socket, reply).1;
            &&& after == SocketModel { buf_read: after.buf_read, closed: after.closed, ..socket }
            &&& socket.closed ==> after.closed
        },
{
}

/// How a Java socket is prepared for use: its input stream is asked for and kept, then its output
/// stream, then the methods of the output stream are looked up, and at last a byte array of 32 KiB
/// is made and kept. The parts are the references that were kept and the methods that were found. A
/// failure of any of the commands is explained.
pub proof fn law_build_conversation(
    internal: ObjectId,
    input: ObjectId,
    output: ObjectId,
    array: ObjectId,
    parts: SocketParts,
)
    requires
        parts.internal == internal,
    ensures
        ({
            let replies = seq![
                Reply::Done,
                Reply::Object(input),
                Reply::Object(parts.input_stream),
                Reply::Object(output),
                Reply::Object(parts.output_stream),
                Reply::Method(parts.jmethod_write),
                Reply::Method(parts.jmethod_flush),
                Reply::Object(array),
                Reply::Object(parts.array_write),
            ];
            &&& operation::leads_to(
                building(internal),
                replies,
                seq![
                    Command::AttachVm,
                    Command::CallObject {
                        target: Target::Object(internal),
                        method: JavaMethod::GetInputStream,
                        argument: None,
                    },
                    Command::NewGlobalRef { object: input, checked: true },
                    Command::CallObject {
                        target: Target::Object(internal),
                        method: JavaMethod::GetOutputStream,
                        argument: None,
                    },
                    Command::NewGlobalRef { object: output, checked: true },
                    Command::GetMethodId(JavaMethod::Write),
                    Command::GetMethodId(JavaMethod::Flush),
                    Command::NewByteArray(32768),
                    Command::NewGlobalRef { object: array, checked: true },
                ],
                Progress::Finish(Ok(parts)),
            )
            &&& forall|k: int|
                0 <= k < 9 ==> operation::explains_failure_at(
                    building(internal),
                    #[trigger] replies.take(k),
                    operation::just_the_error::<SocketParts>(),
                )
        }),
{
    let start = building(internal);
    let SocketParts {
        internal: _,
        input_stream,
        output_stream,
        jmethod_write,
        jmethod_flush,
        array_write,
    } = parts;
    let partial = SocketParts { array_write: ObjectId(0), ..parts };
    let replies = seq![
        Reply::Done,
        Reply::Object(input),
        Reply::Object(input_stream),
        Reply::Object(output),
        Reply::Object(output_stream),
        Reply::Method(jmethod_write),
        Reply::Method(jmethod_flush),
        Reply::Object(array),
        Reply::Object(array_write),
    ];
    let asked = seq![
        Command::AttachVm,
        Command::CallObject {
            target: Target::Object(internal),
            method: JavaMethod::GetInputStream,
            argument: None,
        },
        Command::NewGlobalRef { object: input, checked: true },
        Command::CallObject {
            target: Target::Object(internal),
            method: JavaMethod::GetOutputStream,
            argument: None,
        },
        Command::NewGlobalRef { object: output, checked: true },
        Command::GetMethodId(JavaMethod::Write),
        Command::GetMethodId(JavaMethod::Flush),
        Command::NewByteArray(32768),
        Command::NewGlobalRef { object: array, checked: true },
    ];
    let finding_write = BuildStage::FindingWrite { internal, input_stream, output_stream };
    let finding_flush = BuildStage::FindingFlush {
        internal,
        input_stream,
        output_stream,
        jmethod_write,
    };
    operation::lemma_stage_walk(start, replies, asked, 0, BuildStage::Attaching { internal });
    operation::lemma_stage_walk(start, replies, asked, 1, BuildStage::GettingInput { internal });
    operation::lemma_stage_walk(start, replies, asked, 2, BuildStage::KeepingInput { internal });
    operation::lemma_stage_walk(
        start,
        replies,
        asked,
        3,
        BuildStage::GettingOutput { internal, input_stream },
    );
    operation::lemma_stage_walk(
        start,
        replies,
        asked,
        4,
        BuildStage::KeepingOutput { internal, input_stream },
    );
    operation::lemma_stage_walk(start, replies, asked, 5, finding_write);
    operation::lemma_stage_walk(start, replies, asked, 6, finding_flush);
    operation::lemma_stage_walk(start, replies, asked, 7, BuildStage::MakingArray(partial));
    operation::lemma_stage_walk(start, replies, asked, 8, BuildStage::KeepingArray(partial));
}

/// A socket that was just made consists of its parts, has nothing to read, does not block, knows no
/// callback and no thread, and is not closed.
pub proof fn law_fresh_socket(parts: SocketParts)
    ensures
        ({
            let socket = SocketModel::fresh(parts);
            &&& socket.internal == parts.internal
            &&& socket.input_stream == parts.input_stream
            &&& socket.output_stream == parts.output_stream
            &&& socket.jmethod_write == parts.jmethod_write
            &&& socket.jmethod_flush == parts.jmethod_flush
            &&& socket.array_write == parts.array_write
            &&& socket.buf_read.len() == 0
            &&& socket.read_timeout == 0
            &&& socket.read_callback is None
            &&& socket.thread_read is None
            &&& !socket.closed
        }),
{
}

/// The connection status of a socket is what `isConnected` of its Java socket returns.
pub proof fn law_is_connected_conversation(socket: SocketModel, answer: bool)
    ensures
        ({
            let replies = seq![Reply::Done, Reply::Bool(answer)];
            &&& operation::leads_to(
                socket.asking_connected(),
                replies,
                seq![
                    Command::AttachVm,
                    Command::CallBoolean {
                        target: Target::Object(socket.internal),
                        method: JavaMethod::IsConnected,
                        remember: true,
                    },
                ],
                Progress::Finish(Ok(answer)),
            )
            &&& forall|k: int|
                0 <= k < 2 ==> operation::explains_failure_at(
                    socket.asking_connected(),
                    #[trigger] replies.take(k),
                    operation::just_the_error::<bool>(),
                )
        }),
{
    query::law_query_conversation(
        Target::Object(socket.internal),
        JavaMethod::IsConnected,
        answer,
    );
}

/// The outcome that is an error and leaves the socket as it is.
pub open spec fn error_leaving<T>(socket: SocketModel) -> spec_fn(BluetoothError) -> (
    Result<T, BluetoothError>,
    SocketModel,
) {
    |error: BluetoothError| (Err(error), socket)
}

} // verus!
