//! The background thread that receives bytes.

use crate::error;
use crate::error::{jerr, BluetoothError, Jerr};
use crate::java::{Command, JavaMethod, JniError, MethodId, ObjectId, Reply, Target, Want};
use crate::operation;
use crate::operation::{Operation, Progress, Protocol};
use crate::socket;
use crate::socket::{
    BluetoothSocket, SocketModel, SocketOperation, SocketProtocol, Together, ARRAY_SIZE,
};
use crate::text;
use vstd::prelude::*;

verus! {

/// What the loop has prepared: the `read` method, and a byte array with its size.
#[derive(Clone, Copy, PartialEq, Eq, Structural, Debug)]
pub struct Setup {
    pub method: MethodId,
    pub array: ObjectId,
    pub size: i32,
}

/// The loop of the background thread.
#[derive(Debug)]
pub enum ReadLoop {
    Attaching,
    /// Looking up the `read` method.
    Resolving,
    /// Asking for the maximum size of a packet.
    Sizing { method: MethodId },
    /// Making the byte array.
    Allocating { method: MethodId, size: i32 },
    /// Waiting in `read`.
    Receiving(Setup),
    /// Copying the received bytes out of the array.
    Fetching(Setup, usize),
    /// Telling the user that bytes have arrived.
    Announcing(Setup),
    /// `read` has failed; looking for the exception.
    Recalling(Setup),
    /// Reading the message of the exception.
    Inspecting(Setup),
    /// `read` has failed; asking whether the socket is still connected.
    Probing(Setup),
    /// The stream has come to its end; asking whether the socket is still connected.
    Ending(Setup),
    /// Closing a socket that was found closed.
    Closing,
    /// Telling the user that the socket is disconnected.
    Leaving,
    /// Looking into the failure that ends the loop.
    Explaining(Jerr),
}

/// Whether the message of an exception says that the socket is closed.
pub open spec fn says_closed(message: Seq<char>) -> bool {
    text::occurs_in(text::lowercase(message), "closed"@)
}

/// Tells whether the message of an exception says that the socket is closed.
pub fn mentions_closed(message: &str) -> (closed: bool)
    ensures
        closed == says_closed(message@),
        (forall|i: int| 0 <= i < message@.len() ==> (#[trigger] message@[i] as u32) < 128)
            ==> closed == text::occurs_in(
            Seq::new(message@.len(), |i: int| text::ascii_lowercase(message@[i])),
            "closed"@,
        ),
{
    let lower = message.to_lowercase();
    text::contains(lower.as_str(), "closed")
}

impl ReadLoop {
    pub open spec fn allocating(method: MethodId, size: i32) -> Progress<
        Self,
        Result<(), BluetoothError>,
    > {
        Progress::Call(ReadLoop::Allocating { method, size }, Command::NewByteArray(size))
    }

    pub open spec fn receiving(setup: Setup, socket: SocketModel) -> Progress<
        Self,
        Result<(), BluetoothError>,
    > {
        Progress::Call(
            ReadLoop::Receiving(setup),
            Command::CallRead {
                stream: socket.input_stream,
                method: setup.method,
                array: setup.array,
                len: setup.size,
            },
        )
    }

    pub open spec fn probing(setup: Setup, socket: SocketModel) -> Progress<
        Self,
        Result<(), BluetoothError>,
    > {
        Progress::Call(
            ReadLoop::Probing(setup),
            Command::CallBoolean {
                target: Target::Object(socket.internal),
                method: JavaMethod::IsConnected,
                remember: true,
            },
        )
    }

    pub open spec fn ending(setup: Setup, socket: SocketModel) -> Progress<
        Self,
        Result<(), BluetoothError>,
    > {
        Progress::Call(
            ReadLoop::Ending(setup),
            Command::CallBoolean {
                target: Target::Object(socket.internal),
                method: JavaMethod::IsConnected,
                remember: false,
            },
        )
    }

    pub open spec fn leaving() -> Progress<Self, Result<(), BluetoothError>> {
        Progress::Call(ReadLoop::Leaving, Command::Notify { arrived: None })
    }

    pub open spec fn of_jerr(progress: Progress<Jerr, BluetoothError>) -> Progress<
        Self,
        Result<(), BluetoothError>,
    > {
        match progress {
            Progress::Call(jerr, command) => Progress::Call(ReadLoop::Explaining(jerr), command),
            Progress::Finish(error) => Progress::Finish(Err(error)),
        }
    }

    fn from_jerr(progress: Progress<Jerr, BluetoothError>) -> (explained: Progress<
        Self,
        Result<(), BluetoothError>,
    >)
        ensures
            explained == Self::of_jerr(progress),
    {
        match progress {
            Progress::Call(jerr, command) => Progress::Call(ReadLoop::Explaining(jerr), command),
            Progress::Finish(error) => Progress::Finish(Err(error)),
        }
    }

    fn allocate(method: MethodId, size: i32) -> (progress: Progress<
        Self,
        Result<(), BluetoothError>,
    >)
        ensures
            progress == Self::allocating(method, size),
    {
        Progress::Call(ReadLoop::Allocating { method, size }, Command::NewByteArray(size))
    }

    fn receive(setup: Setup, socket: &BluetoothSocket) -> (progress: Progress<
        Self,
        Result<(), BluetoothError>,
    >)
        ensures
            progress == Self::receiving(setup, socket@),
    {
        Progress::Call(
            ReadLoop::Receiving(setup),
            Command::CallRead {
                stream: socket.input_stream,
                method: setup.method,
                array: setup.array,
                len: setup.size,
            },
        )
    }

    fn probe(setup: Setup, socket: &BluetoothSocket) -> (progress: Progress<
        Self,
        Result<(), BluetoothError>,
    >)
        ensures
            progress == Self::probing(setup, socket@),
    {
        Progress::Call(
            ReadLoop::Probing(setup),
            Command::CallBoolean {
                target: Target::Object(socket.internal),
                method: JavaMethod::IsConnected,
                remember: true,
            },
        )
    }

    fn end(setup: Setup, socket: &BluetoothSocket) -> (progress: Progress<
        Self,
        Result<(), BluetoothError>,
    >)
        ensures
            progress == Self::ending(setup, socket@),
    {
        Progress::Call(
            ReadLoop::Ending(setup),
            Command::CallBoolean {
                target: Target::Object(socket.internal),
                method: JavaMethod::IsConnected,
                remember: false,
            },
        )
    }

    fn leave() -> (progress: Progress<Self, Result<(), BluetoothError>>)
        ensures
            progress == Self::leaving(),
    {
        Progress::Call(ReadLoop::Leaving, Command::Notify { arrived: None })
    }
}

impl SocketProtocol for ReadLoop {
    type Outcome = Result<(), BluetoothError>;

    open spec fn socket_wanted(self) -> Want {
        match self {
            ReadLoop::Attaching => Want::Attempt,
            ReadLoop::Resolving => Want::Method,
            ReadLoop::Sizing { .. } => Want::Length,
            ReadLoop::Allocating { .. } => Want::Object,
            ReadLoop::Receiving(setup) => Want::Count(setup.size),
            ReadLoop::Fetching(_, count) => Want::Bytes(count),
            ReadLoop::Announcing(_) => Want::Done,
            ReadLoop::Recalling(_) => Want::Found,
            ReadLoop::Inspecting(_) => Want::Message,
            ReadLoop::Probing(_) => Want::Bool,
            ReadLoop::Ending(_) => Want::Bool,
            ReadLoop::Closing => Want::Attempt,
            ReadLoop::Leaving => Want::Done,
            ReadLoop::Explaining(jerr) => jerr.wanted(),
        }
    }

    open spec fn socket_next(self, socket: SocketModel, reply: Reply) -> (
        Progress<Self, Result<(), BluetoothError>>,
        SocketModel,
    ) {
        match (self, reply) {
            (ReadLoop::Attaching, Reply::Done) => (
                Progress::Call(ReadLoop::Resolving, Command::GetMethodId(JavaMethod::Read)),
                socket,
            ),
            (ReadLoop::Resolving, Reply::Method(method)) => (
                Progress::Call(
                    ReadLoop::Sizing { method },
                    Command::CallInt {
                        target: Target::Object(socket.internal),
                        method: JavaMethod::GetMaxReceivePacketSize,
                    },
                ),
                socket,
            ),
            (ReadLoop::Sizing { method }, Reply::Int(size)) => (
                Self::allocating(method, size),
                socket,
            ),
            (ReadLoop::Sizing { method }, _) => (Self::allocating(method, ARRAY_SIZE), socket),
            (ReadLoop::Allocating { method, size }, Reply::Object(array)) => (
                Self::receiving(Setup { method, array, size }, socket),
                socket,
            ),
            (ReadLoop::Receiving(setup), Reply::Int(count)) => if count > 0 {
                (
                    Progress::Call(
                        ReadLoop::Fetching(setup, count as usize),
                        Command::GetRegion { array: setup.array, count: count as usize },
                    ),
                    socket,
                )
            } else if count == 0 {
                (Self::receiving(setup, socket), socket)
            } else {
                (Self::ending(setup, socket), socket)
            },
            (ReadLoop::Receiving(setup), _) => (
                Progress::Call(ReadLoop::Recalling(setup), Command::TakeLastException),
                socket,
            ),
            (ReadLoop::Fetching(setup, count), Reply::Bytes(bytes)) => (
                Progress::Call(
                    ReadLoop::Announcing(setup),
                    Command::Notify { arrived: Some(count) },
                ),
                SocketModel { buf_read: socket.buf_read + bytes@, ..socket },
            ),
            (ReadLoop::Announcing(setup), _) => (Self::receiving(setup, socket), socket),
            (ReadLoop::Recalling(setup), Reply::Found(Some(exception))) => (
                Progress::Call(
                    ReadLoop::Inspecting(setup),
                    Command::ThrowableMessage(exception),
                ),
                socket,
            ),
            (ReadLoop::Recalling(setup), _) => (Self::probing(setup, socket), socket),
            (ReadLoop::Inspecting(setup), Reply::Text(message)) => if says_closed(message@) {
                (
                    Progress::Call(
                        ReadLoop::Closing,
                        Command::CallVoid {
                            target: Target::Object(socket.internal),
                            method: JavaMethod::Close,
                            remember: false,
                        },
                    ),
                    socket,
                )
            } else {
                (Self::probing(setup, socket), socket)
            },
            (ReadLoop::Probing(setup), Reply::Bool(connected)) => if connected {
                (Self::receiving(setup, socket), socket)
            } else {
                (Self::leaving(), socket)
            },
            (ReadLoop::Ending(_), Reply::Bool(false)) => (Self::leaving(), socket),
            (ReadLoop::Ending(setup), _) => (Self::receiving(setup, socket), socket),
            (ReadLoop::Closing, Reply::Done) => (
                Self::leaving(),
                SocketModel { closed: true, ..socket },
            ),
            (ReadLoop::Closing, _) => (Self::leaving(), socket),
            (ReadLoop::Leaving, _) => (Progress::Finish(Ok(())), socket),
            (ReadLoop::Explaining(jerr), _) => (Self::of_jerr(jerr.next(reply)), socket),
            (_, Reply::Failed(failure)) => (Self::of_jerr(error::explaining(failure)), socket),
            _ => arbitrary(),
        }
    }
}

impl SocketOperation for ReadLoop {
    fn want(&self) -> (want: Want) {
        match self {
            ReadLoop::Attaching => Want::Attempt,
            ReadLoop::Resolving => Want::Method,
            ReadLoop::Sizing { .. } => Want::Length,
            ReadLoop::Allocating { .. } => Want::Object,
            ReadLoop::Receiving(setup) => Want::Count(setup.size),
            ReadLoop::Fetching(_, count) => Want::Bytes(*count),
            ReadLoop::Announcing(_) => Want::Done,
            ReadLoop::Recalling(_) => Want::Found,
            ReadLoop::Inspecting(_) => Want::Message,
            ReadLoop::Probing(_) => Want::Bool,
            ReadLoop::Ending(_) => Want::Bool,
            ReadLoop::Closing => Want::Attempt,
            ReadLoop::Leaving => Want::Done,
            ReadLoop::Explaining(jerr) => jerr.want(),
        }
    }

    fn step(self, socket: &mut BluetoothSocket, reply: Reply) -> (progress: Progress<
        Self,
        Result<(), BluetoothError>,
    >) {
        match (self, reply) {
            (ReadLoop::Attaching, Reply::Done) => Progress::Call(
                ReadLoop::Resolving,
                Command::GetMethodId(JavaMethod::Read),
            ),
            (ReadLoop::Resolving, Reply::Method(method)) => Progress::Call(
                ReadLoop::Sizing { method },
                Command::CallInt {
                    target: Target::Object(socket.internal),
                    method: JavaMethod::GetMaxReceivePacketSize,
                },
            ),
            (ReadLoop::Sizing { method }, Reply::Int(size)) => Self::allocate(method, size),
            (ReadLoop::Sizing { method }, _) => Self::allocate(method, ARRAY_SIZE),
            (ReadLoop::Allocating { method, size }, Reply::Object(array)) => Self::receive(
                Setup { method, array, size },
                socket,
            ),
            (ReadLoop::Receiving(setup), Reply::Int(count)) => if count > 0 {
                Progress::Call(
                    ReadLoop::Fetching(setup, count as usize),
                    Command::GetRegion { array: setup.array, count: count as usize },
                )
            } else if count == 0 {
                Self::receive(setup, socket)
            } else {
                Self::end(setup, socket)
            },
            (ReadLoop::Receiving(setup), _) => Progress::Call(
                ReadLoop::Recalling(setup),
                Command::TakeLastException,
            ),
            (ReadLoop::Fetching(setup, count), Reply::Bytes(bytes)) => {
                socket.buf_read.write(bytes.as_slice());
                Progress::Call(
                    ReadLoop::Announcing(setup),
                    Command::Notify { arrived: Some(count) },
                )
            },
            (ReadLoop::Announcing(setup), _) => Self::receive(setup, socket),
            (ReadLoop::Recalling(setup), Reply::Found(Some(exception))) => Progress::Call(
                ReadLoop::Inspecting(setup),
                Command::ThrowableMessage(exception),
            ),
            (ReadLoop::Recalling(setup), _) => Self::probe(setup, socket),
            (ReadLoop::Inspecting(setup), Reply::Text(message)) => if mentions_closed(
                message.as_str(),
            ) {
                Progress::Call(
                    ReadLoop::Closing,
                    Command::CallVoid {
                        target: Target::Object(socket.internal),
                        method: JavaMethod::Close,
                        remember: false,
                    },
                )
            } else {
                Self::probe(setup, socket)
            },
            (ReadLoop::Probing(setup), Reply::Bool(connected)) => if connected {
                Self::receive(setup, socket)
            } else {
                Self::leave()
            },
            (ReadLoop::Ending(_), Reply::Bool(false)) => Self::leave(),
            (ReadLoop::Ending(setup), _) => Self::receive(setup, socket),
            (ReadLoop::Closing, Reply::Done) => {
                socket.closed = true;
                Self::leave()
            },
            (ReadLoop::Closing, _) => Self::leave(),
            (ReadLoop::Leaving, _) => Progress::Finish(Ok(())),
            (ReadLoop::Explaining(jerr), reply) => Self::from_jerr(jerr.step(reply)),
            (_, Reply::Failed(failure)) => Self::from_jerr(jerr(failure)),
            _ => vstd::pervasive::unreached(),
        }
    }
}

/// The loop of the background thread at its start, with the socket.
pub open spec fn reading_loop(socket: SocketModel) -> Progress<
    Together<ReadLoop>,
    (Result<(), BluetoothError>, SocketModel),
> {
    Together::of((Progress::Call(ReadLoop::Attaching, Command::AttachVm), socket))
}

/// Whatever else happens to the socket between the steps of the loop: a step appends the bytes of a
/// reply to the read buffer, and then the next command is to tell the callback how many they are,
/// so that they are at the end of the buffer when it is told. A step that has closed the Java
/// socket notes that. Nothing else of the socket changes.
pub proof fn law_reader_step(reader: ReadLoop, socket: SocketModel, reply: Reply)
    requires
        reader.socket_wanted().admits(reply),
    ensures
        ({
            let (progress, after) = reader.socket_next(socket, reply);
            match reply {
                Reply::Bytes(bytes) => {
                    &&& after == SocketModel { buf_read: socket.buf_read + bytes@, ..socket }
                    &&& progress matches Progress::Call(_, command) && command
                        == Command::Notify { arrived: Some(bytes@.len() as usize) }
                },
                _ => {
                    &&& after == SocketModel {
                        closed: socket.closed || (reader is Closing && reply is Done),
                        ..socket
                    }
                    &&& !(progress matches Progress::Call(
                        _,
                        Command::Notify { arrived: Some(_) },
                    ))
                },
            }
        }),
{
    broadcast use vstd::std_specs::vec::axiom_spec_len;

    if let ReadLoop::Explaining(jerr) = reader {
        assert(reply !is Bytes);
    }
}

/// The bytes that the replies bring, in their order.
pub open spec fn received(replies: Seq<Reply>) -> Seq<u8>
    decreases replies.len(),
{
    if replies.len() == 0 {
        Seq::empty()
    } else {
        match replies.first() {
            Reply::Bytes(bytes) => bytes@ + received(replies.drop_first()),
            _ => received(replies.drop_first()),
        }
    }
}

/// How many bytes the command announces to the callback.
pub open spec fn announced_by(command: Command) -> nat {
    match command {
        Command::Notify { arrived: Some(count) } => count as nat,
        _ => 0,
    }
}

/// How many bytes the commands announce to the callback.
pub open spec fn announced(commands: Seq<Command>) -> nat
    decreases commands.len(),
{
    if commands.len() == 0 {
        0
    } else {
        announced_by(commands.first()) + announced(commands.drop_first())
    }
}

/// Whether the command tells the callback that the socket is disconnected.
pub open spec fn is_farewell(command: Command) -> bool {
    command matches Command::Notify { arrived: None }
}

/// How often the commands tell the callback that the socket is disconnected.
pub open spec fn farewells(commands: Seq<Command>) -> nat
    decreases commands.len(),
{
    if commands.len() == 0 {
        0
    } else {
        (if is_farewell(commands.first()) {
            1nat
        } else {
            0
        }) + farewells(commands.drop_first())
    }
}

/// The socket, wherever the loop stands.
pub open spec fn socket_of(
    progress: Progress<Together<ReadLoop>, (Result<(), BluetoothError>, SocketModel)>,
) -> SocketModel {
    match progress {
        Progress::Call(together, _) => together.socket,
        Progress::Finish((_, socket)) => socket,
    }
}

proof fn lemma_reader_delivers(
    progress: Progress<Together<ReadLoop>, (Result<(), BluetoothError>, SocketModel)>,
    replies: Seq<Reply>,
)
    requires
        operation::admitted(progress, replies),
    ensures
        socket_of(operation::run(progress, replies)) == (SocketModel {
            buf_read: socket_of(progress).buf_read + received(replies),
            closed: socket_of(operation::run(progress, replies)).closed,
            ..socket_of(progress)
        }),
        progress matches Progress::Call(_, command) ==> announced(
            operation::commands(progress, replies),
        ) == announced_by(command) + received(replies).len(),
    decreases replies.len(),
{
    broadcast use vstd::std_specs::vec::axiom_spec_len;

    reveal_with_fuel(announced, 2);
    reveal_with_fuel(received, 2);
    reveal_with_fuel(operation::commands, 2);
    if let Progress::Call(together, command) = progress {
        let issued = operation::commands(progress, replies);
        assert(issued.first() == command);
        if replies.len() == 0 {
            assert(issued.drop_first() =~= Seq::empty());
            assert(socket_of(progress).buf_read + received(replies) =~= socket_of(
                progress,
            ).buf_read);
        } else {
            let reply = replies.first();
            let next = together.next(reply);
            law_reader_step(together.op, together.socket, reply);
            lemma_reader_delivers(next, replies.drop_first());
            assert(issued.drop_first() =~= operation::commands(next, replies.drop_first()));
            assert(socket_of(next).buf_read + received(replies.drop_first()) =~= socket_of(
                progress,
            ).buf_read + received(replies));
            if let Reply::Bytes(bytes) = reply {
                assert(announced_by(next->Call_1) == bytes.len());
            }
        }
    } else {
        assert(socket_of(progress).buf_read + received(replies) =~= socket_of(progress).buf_read);
    }
}

/// The loop delivers all that is received: the read buffer grows by the received bytes, in their
/// order, and the callback is told of every one of them once. Of the socket, only whether it was
/// closed can change besides.
pub proof fn law_reader_delivers(socket: SocketModel, replies: Seq<Reply>)
    requires
        operation::admitted(reading_loop(socket), replies),
    ensures
        socket_of(operation::run(reading_loop(socket), replies)) == (SocketModel {
            buf_read: socket.buf_read + received(replies),
            closed: socket_of(operation::run(reading_loop(socket), replies)).closed,
            ..socket
        }),
        announced(operation::commands(reading_loop(socket), replies)) == received(replies).len(),
{
    lemma_reader_delivers(reading_loop(socket), replies);
}

/// What the command announces to the callback.
pub open spec fn announcement(command: Command) -> Seq<nat> {
    match command {
        Command::Notify { arrived: Some(count) } => seq![count as nat],
        _ => Seq::empty(),
    }
}

/// What the commands announce to the callback, one number after the other.
pub open spec fn announcements(commands: Seq<Command>) -> Seq<nat>
    decreases commands.len(),
{
    if commands.len() == 0 {
        Seq::empty()
    } else {
        announcement(commands.first()) + announcements(commands.drop_first())
    }
}

/// The numbers of bytes that the replies bring, one after the other.
pub open spec fn chunk_lengths(replies: Seq<Reply>) -> Seq<nat>
    decreases replies.len(),
{
    if replies.len() == 0 {
        Seq::empty()
    } else {
        match replies.first() {
            Reply::Bytes(bytes) => seq![bytes@.len()] + chunk_lengths(replies.drop_first()),
            _ => chunk_lengths(replies.drop_first()),
        }
    }
}

/// The loop is to fetch or to announce at least one byte, if any.
spec fn announces_something(
    progress: Progress<Together<ReadLoop>, (Result<(), BluetoothError>, SocketModel)>,
) -> bool {
    progress matches Progress::Call(together, command) ==> {
        &&& together.op matches ReadLoop::Fetching(_, count) ==> count > 0
        &&& command matches Command::Notify { arrived: Some(count) } ==> count > 0
    }
}

proof fn lemma_reader_announces(
    progress: Progress<Together<ReadLoop>, (Result<(), BluetoothError>, SocketModel)>,
    replies: Seq<Reply>,
)
    requires
        operation::admitted(progress, replies),
        announces_something(progress),
    ensures
        progress matches Progress::Call(_, command) ==> announcements(
            operation::commands(progress, replies),
        ) == announcement(command) + chunk_lengths(replies),
        forall|i: int|
            0 <= i < chunk_lengths(replies).len() ==> #[trigger] chunk_lengths(replies)[i] > 0,
    decreases replies.len(),
{
    broadcast use vstd::std_specs::vec::axiom_spec_len;

    reveal_with_fuel(announcements, 2);
    reveal_with_fuel(chunk_lengths, 2);
    reveal_with_fuel(operation::commands, 2);
    reveal_with_fuel(operation::admitted, 2);
    if let Progress::Call(together, command) = progress {
        let issued = operation::commands(progress, replies);
        assert(issued.first() == command);
        if replies.len() == 0 {
            assert(issued.drop_first() =~= Seq::empty());
        } else {
            let reply = replies.first();
            let next = together.next(reply);
            law_reader_step(together.op, together.socket, reply);
            lemma_reader_announces(next, replies.drop_first());
            assert(issued.drop_first() =~= operation::commands(next, replies.drop_first()));
            if let Progress::Call(_, after) = next {
                if let Reply::Bytes(bytes) = reply {
                    assert(announcement(after) =~= seq![bytes@.len()]);
                } else {
                    assert(announcement(after) =~= Seq::empty());
                    assert(announcement(after) + chunk_lengths(replies.drop_first())
                        =~= chunk_lengths(replies));
                }
            } else {
                assert(replies.drop_first().len() == 0);
                assert(reply !is Bytes);
            }
            assert(announcements(issued.drop_first()) =~= chunk_lengths(replies));
        }
    }
}

/// The callback is told of what is received piece by piece: the numbers that it is told are the
/// numbers of bytes that were received at a time, all of them and in their order, and none is zero.
pub proof fn law_reader_announces(socket: SocketModel, replies: Seq<Reply>)
    requires
        operation::admitted(reading_loop(socket), replies),
    ensures
        ({
            let told = announcements(operation::commands(reading_loop(socket), replies));
            &&& told == chunk_lengths(replies)
            &&& forall|i: int| 0 <= i < told.len() ==> #[trigger] told[i] > 0
        }),
{
    lemma_reader_announces(reading_loop(socket), replies);
    assert(Seq::<nat>::empty() + chunk_lengths(replies) =~= chunk_lengths(replies));
}

/// When the callback is to be told that bytes have arrived, they are the last bytes of the read
/// buffer already, and they are those that were received last.
pub proof fn law_reader_stores_before_it_tells(
    socket: SocketModel,
    replies: Seq<Reply>,
    count: usize,
)
    requires
        operation::admitted(reading_loop(socket), replies),
        operation::run(reading_loop(socket), replies) matches Progress::Call(_, command) && command
            == (Command::Notify { arrived: Some(count) }),
    ensures
        replies.len() > 0,
        replies.last() matches Reply::Bytes(bytes) && bytes@.len() == count && socket_of(
            operation::run(reading_loop(socket), replies),
        ).buf_read == socket.buf_read + received(replies.drop_last()) + bytes@,
{
    broadcast use vstd::std_specs::vec::axiom_spec_len;

    let start = reading_loop(socket);
    let before = replies.drop_last();
    let last = seq![replies.last()];
    assert(before + last =~= replies);
    operation::lemma_run_in_two(start, before, last);
    reveal_with_fuel(operation::run, 2);
    reveal_with_fuel(operation::admitted, 2);
    law_reader_delivers(socket, before);
    let together = operation::run(start, before)->Call_0;
    law_reader_step(together.op, together.socket, replies.last());
}

proof fn lemma_reader_farewell(
    progress: Progress<Together<ReadLoop>, (Result<(), BluetoothError>, SocketModel)>,
    replies: Seq<Reply>,
)
    requires
        operation::admitted(progress, replies),
        progress matches Progress::Call(together, command) && (is_farewell(command)
            <==> together.op is Leaving),
    ensures
        match operation::run(progress, replies) {
            Progress::Call(together, _) => farewells(operation::commands(progress, replies)) == (
            if together.op is Leaving {
                1nat
            } else {
                0
            }),
            Progress::Finish((Ok(()), _)) => {
                &&& farewells(operation::commands(progress, replies)) == 1
                &&& is_farewell(operation::commands(progress, replies).last())
            },
            Progress::Finish((Err(_), _)) => farewells(operation::commands(progress, replies)) == 0,
        },
    decreases replies.len(),
{
    reveal_with_fuel(farewells, 2);
    let issued = operation::commands(progress, replies);
    let together = progress->Call_0;
    assert(issued.first() == progress->Call_1);
    if replies.len() == 0 {
        assert(issued.drop_first() =~= Seq::empty());
    } else {
        let next = together.next(replies.first());
        let rest = operation::commands(next, replies.drop_first());
        assert(issued.drop_first() =~= rest);
        if next is Call {
            lemma_reader_farewell(next, replies.drop_first());
            assert(rest.len() > 0);
            assert(issued.last() == rest.last());
        } else {
            reveal_with_fuel(operation::run, 2);
        }
    }
}

/// The callback is told that the socket is disconnected when the loop ends because it is, last of
/// all and only once. It is not told so before, nor when the loop ends with an error.
pub proof fn law_reader_farewell(socket: SocketModel, replies: Seq<Reply>)
    requires
        operation::admitted(reading_loop(socket), replies),
    ensures
        ({
            let issued = operation::commands(reading_loop(socket), replies);
            match operation::run(reading_loop(socket), replies) {
                Progress::Call(together, command) => farewells(issued) == (if is_farewell(
                    command,
                ) {
                    1nat
                } else {
                    0
                }),
                Progress::Finish((Ok(()), _)) => farewells(issued) == 1 && is_farewell(
                    issued.last(),
                ),
                Progress::Finish((Err(_), _)) => farewells(issued) == 0,
            }
        }),
{
    lemma_reader_farewell(reading_loop(socket), replies);
    lemma_reader_leaving(reading_loop(socket), replies);
}

proof fn lemma_reader_leaving(
    progress: Progress<Together<ReadLoop>, (Result<(), BluetoothError>, SocketModel)>,
    replies: Seq<Reply>,
)
    requires
        operation::admitted(progress, replies),
        progress matches Progress::Call(together, command) ==> (is_farewell(command)
            <==> together.op is Leaving),
    ensures
        operation::run(progress, replies) matches Progress::Call(together, command) ==> (
        is_farewell(command) <==> together.op is Leaving),
    decreases replies.len(),
{
    if replies.len() > 0 {
        if let Progress::Call(together, _) = progress {
            lemma_reader_leaving(together.next(replies.first()), replies.drop_first());
        }
    }
}

/// What becomes of the loop after `read` has failed. If the exception says that the socket is
/// closed, the Java socket is closed, whatever comes of that, and the loop ends; the socket notes
/// whether the Java socket could be closed. Otherwise the connection status decides: the loop ends
/// if the socket is disconnected, and reads on if it is connected.
pub proof fn law_reader_after_failure(
    setup: Setup,
    socket: SocketModel,
    failure: JniError,
    exception: ObjectId,
    message: String,
    closed: Reply,
)
    requires
        closed is Done || closed is Failed,
    ensures
        ({
            let receiving = Together::of((ReadLoop::receiving(setup, socket), socket));
            let inspected = seq![
                Reply::Failed(failure),
                Reply::Found(Some(exception)),
                Reply::Text(message),
            ];
            let unknown = seq![Reply::Failed(failure), Reply::Found(None)];
            let close = Command::CallVoid {
                target: Target::Object(socket.internal),
                method: JavaMethod::Close,
                remember: false,
            };
            &&& says_closed(message@) ==> {
                &&& operation::run(receiving, inspected) == Together::of(
                    (Progress::Call(ReadLoop::Closing, close), socket),
                )
                &&& operation::ends_with(
                    receiving,
                    inspected + seq![closed, Reply::Done],
                    (Ok(()), SocketModel { closed: socket.closed || closed is Done, ..socket }),
                )
            }
            &&& !says_closed(message@) ==> {
                &&& operation::run(receiving, inspected + seq![Reply::Bool(true)]) == receiving
                &&& operation::ends_with(
                    receiving,
                    inspected + seq![Reply::Bool(false), Reply::Done],
                    (Ok(()), socket),
                )
            }
            &&& operation::run(receiving, unknown + seq![Reply::Bool(true)]) == receiving
            &&& operation::ends_with(
                receiving,
                unknown + seq![Reply::Bool(false), Reply::Done],
                (Ok(()), socket),
            )
        }),
{
    let receiving = Together::of((ReadLoop::receiving(setup, socket), socket));
    let inspected = seq![
        Reply::Failed(failure),
        Reply::Found(Some(exception)),
        Reply::Text(message),
    ];
    let unknown = seq![Reply::Failed(failure), Reply::Found(None)];
    operation::lemma_run_in_two(receiving, inspected, seq![closed, Reply::Done]);
    operation::lemma_run_in_two(receiving, inspected, seq![Reply::Bool(true)]);
    operation::lemma_run_in_two(receiving, inspected, seq![Reply::Bool(false), Reply::Done]);
    operation::lemma_run_in_two(receiving, unknown, seq![Reply::Bool(true)]);
    operation::lemma_run_in_two(receiving, unknown, seq![Reply::Bool(false), Reply::Done]);
    reveal_with_fuel(operation::run, 5);
    reveal_with_fuel(operation::admitted, 5);
}

/// What becomes of the loop at the end of the stream, when `read` returns a negative count. If the
/// socket is disconnected, the callback is told so once and the loop ends. If it is connected, or
/// if that cannot be found out, the loop reads on. After a count of zero the loop just reads on.
pub proof fn law_reader_end_of_stream(
    setup: Setup,
    socket: SocketModel,
    count: i32,
    failure: JniError,
)
    requires
        count < 0 <= setup.size,
    ensures
        ({
            let receiving = Together::of((ReadLoop::receiving(setup, socket), socket));
            let ended = seq![Reply::Int(count), Reply::Bool(false), Reply::Done];
            let going_on = seq![Reply::Int(count), Reply::Bool(true)];
            let unknown = seq![Reply::Int(count), Reply::Failed(failure)];
            let nothing = seq![Reply::Int(0)];
            &&& operation::ends_with(receiving, ended, (Ok(()), socket))
            &&& farewells(operation::commands(receiving, ended)) == 1
            &&& operation::run(receiving, going_on) == receiving
            &&& operation::admitted(receiving, going_on)
            &&& operation::run(receiving, unknown) == receiving
            &&& operation::admitted(receiving, unknown)
            &&& operation::run(receiving, nothing) == receiving
            &&& operation::admitted(receiving, nothing)
        }),
{
    let receiving = Together::of((ReadLoop::receiving(setup, socket), socket));
    let ended = seq![Reply::Int(count), Reply::Bool(false), Reply::Done];
    reveal_with_fuel(operation::run, 4);
    reveal_with_fuel(operation::admitted, 4);
    lemma_reader_farewell(receiving, ended);
}

/// When a command fails that the loop cannot do without, the loop ends with what is found out
/// about the failure.
pub proof fn law_reader_broken_off(
    reader: ReadLoop,
    socket: SocketModel,
    failure: JniError,
    explained: Seq<Reply>,
    error: BluetoothError,
)
    requires
        reader is Attaching || reader is Resolving || reader is Allocating || reader is Fetching
            || reader is Probing,
        operation::ends_with(error::explaining(failure), explained, error),
    ensures
        operation::ends_with(
            Together { op: reader, socket }.next(Reply::Failed(failure)),
            explained,
            (Err(error), socket),
        ),
{
    let hold = |progress: Progress<Jerr, BluetoothError>|
        Together::of((ReadLoop::of_jerr(progress), socket));
    operation::lemma_held_end(hold, error::explaining(failure), explained, error);
}

/// The packets of the socket set the size of the array for reading. If their size cannot be had,
/// [`ARRAY_SIZE`] is the size.
pub proof fn law_reader_setup(
    socket: SocketModel,
    method: MethodId,
    sized: Reply,
    array: ObjectId,
)
    requires
        Want::Length.admits(sized),
    ensures
        ({
            let size = match sized {
                Reply::Int(size) => size,
                _ => ARRAY_SIZE,
            };
            let replies = seq![Reply::Done, Reply::Method(method), sized];
            &&& operation::run(reading_loop(socket), replies) == Together::of(
                (
                    Progress::Call(
                        ReadLoop::Allocating { method, size },
                        Command::NewByteArray(size),
                    ),
                    socket,
                ),
            )
            &&& operation::run(reading_loop(socket), replies + seq![Reply::Object(array)])
                == Together::of(
                (ReadLoop::receiving(Setup { method, array, size }, socket), socket),
            )
        }),
{
    let replies = seq![Reply::Done, Reply::Method(method), sized];
    operation::lemma_run_in_two(reading_loop(socket), replies, seq![Reply::Object(array)]);
    reveal_with_fuel(operation::run, 5);
}

/// How the loop begins: `read` of the input stream is looked up, the Java socket is asked for the
/// size of its packets, and an array of that size is made, or of 32 KiB if the size cannot be had.
/// Then the input stream is told to read into the array, from its beginning, as much as it holds. A
/// failure of any other command is explained.
pub proof fn law_reader_begins(
    socket: SocketModel,
    method: MethodId,
    sized: Reply,
    array: ObjectId,
)
    requires
        Want::Length.admits(sized),
    ensures
        ({
            let size = match sized {
                Reply::Int(size) => size,
                _ => 32768,
            };
            let replies = seq![
                Reply::Done,
                Reply::Method(method),
                sized,
                Reply::Object(array),
            ];
            &&& operation::leads_to(
                reading_loop(socket),
                replies,
                seq![
                    Command::AttachVm,
                    Command::GetMethodId(JavaMethod::Read),
                    Command::CallInt {
                        target: Target::Object(socket.internal),
                        method: JavaMethod::GetMaxReceivePacketSize,
                    },
                    Command::NewByteArray(size),
                ],
                Progress::Call(
                    Together {
                        op: ReadLoop::Receiving(Setup { method, array, size }),
                        socket,
                    },
                    Command::CallRead { stream: socket.input_stream, method, array, len: size },
                ),
            )
            &&& forall|k: int|
                0 <= k < 4 && k != 2 ==> operation::explains_failure_at(
                    reading_loop(socket),
                    #[trigger] replies.take(k),
                    socket::error_leaving::<()>(socket),
                )
        }),
{
    let start = reading_loop(socket);
    let size = match sized {
        Reply::Int(size) => size,
        _ => 32768,
    };
    let replies = seq![Reply::Done, Reply::Method(method), sized, Reply::Object(array)];
    let asked = seq![
        Command::AttachVm,
        Command::GetMethodId(JavaMethod::Read),
        Command::CallInt {
            target: Target::Object(socket.internal),
            method: JavaMethod::GetMaxReceivePacketSize,
        },
        Command::NewByteArray(size),
    ];
    let allocating = ReadLoop::Allocating { method, size };
    let sizing = Together { op: ReadLoop::Sizing { method }, socket };
    lemma_reader_walk(start, replies, asked, 0, ReadLoop::Attaching, socket);
    lemma_reader_walk(start, replies, asked, 1, ReadLoop::Resolving, socket);
    operation::lemma_walk(start, replies, asked, 2, sizing);
    lemma_reader_walk(start, replies, asked, 3, allocating, socket);
}

/// One step of the loop, and the failure that can come in its place.
proof fn lemma_reader_walk(
    start: Progress<Together<ReadLoop>, (Result<(), BluetoothError>, SocketModel)>,
    replies: Seq<Reply>,
    asked: Seq<Command>,
    k: int,
    op: ReadLoop,
    socket: SocketModel,
)
    requires
        0 <= k < replies.len(),
        k < asked.len(),
        k == 0 ==> start == Progress::<
            Together<ReadLoop>,
            (Result<(), BluetoothError>, SocketModel),
        >::Call(Together { op, socket }, asked[0]),
        k > 0 ==> operation::leads_to(
            start,
            replies.take(k),
            asked.take(k),
            Progress::Call(Together { op, socket }, asked[k]),
        ),
        op.socket_wanted().admits(replies[k]),
        op is Attaching || op is Resolving || op is Allocating || op is Fetching || op is Probing,
    ensures
        operation::explains_failure_at(
            start,
            replies.take(k),
            socket::error_leaving::<()>(socket),
        ),
        operation::leads_to(
            start,
            replies.take(k + 1),
            asked.take(k + 1),
            Together { op, socket }.next(replies[k]),
        ),
        k + 1 == replies.len() && k + 1 == asked.len() ==> operation::leads_to(
            start,
            replies,
            asked,
            Together { op, socket }.next(replies[k]),
        ),
{
    let together = Together { op, socket };
    let hold = |progress: Progress<Jerr, BluetoothError>|
        Together::of((ReadLoop::of_jerr(progress), socket));
    operation::lemma_walk(start, replies, asked, k, together);
    operation::lemma_explains_failure(
        start,
        replies.take(k),
        asked.take(k),
        together,
        asked[k],
        hold,
        socket::error_leaving::<()>(socket),
    );
}

/// When `read` returns a positive number, that many bytes are taken from the beginning of the
/// array, all of them and no more. They are appended to the read buffer, the callback is told how
/// many they are, and the input stream is told to read again in the same way. If the bytes cannot
/// be taken, the failure is explained.
pub proof fn law_reader_takes_what_is_read(
    setup: Setup,
    socket: SocketModel,
    count: i32,
    bytes: Vec<u8>,
)
    requires
        0 < count <= setup.size,
        bytes@.len() == count,
    ensures
        ({
            let call = Command::CallRead {
                stream: socket.input_stream,
                method: setup.method,
                array: setup.array,
                len: setup.size,
            };
            let start = Progress::<
                Together<ReadLoop>,
                (Result<(), BluetoothError>, SocketModel),
            >::Call(Together { op: ReadLoop::Receiving(setup), socket }, call);
            let after = SocketModel { buf_read: socket.buf_read + bytes@, ..socket };
            &&& operation::leads_to(
                start,
                seq![Reply::Int(count), Reply::Bytes(bytes), Reply::Done],
                seq![
                    call,
                    Command::GetRegion { array: setup.array, count: count as usize },
                    Command::Notify { arrived: Some(count as usize) },
                ],
                Progress::Call(Together { op: ReadLoop::Receiving(setup), socket: after }, call),
            )
            &&& after.buf_read.len() == socket.buf_read.len() + count
            &&& operation::explains_failure_at(
                start,
                seq![Reply::Int(count)],
                socket::error_leaving::<()>(socket),
            )
        }),
{
    let call = Command::CallRead {
        stream: socket.input_stream,
        method: setup.method,
        array: setup.array,
        len: setup.size,
    };
    let receiving = Together { op: ReadLoop::Receiving(setup), socket };
    let start = Progress::<
        Together<ReadLoop>,
        (Result<(), BluetoothError>, SocketModel),
    >::Call(receiving, call);
    let after = SocketModel { buf_read: socket.buf_read + bytes@, ..socket };
    let replies = seq![Reply::Int(count), Reply::Bytes(bytes), Reply::Done];
    let asked = seq![
        call,
        Command::GetRegion { array: setup.array, count: count as usize },
        Command::Notify { arrived: Some(count as usize) },
    ];
    let fetching = ReadLoop::Fetching(setup, count as usize);
    let announcing = Together { op: ReadLoop::Announcing(setup), socket: after };
    operation::lemma_walk(start, replies, asked, 0, receiving);
    lemma_reader_walk(start, replies, asked, 1, fetching, socket);
    operation::lemma_walk(start, replies, asked, 2, announcing);
    assert(replies.take(1) =~= seq![Reply::Int(count)]);
}

/// What is done when `read` returns no bytes or fails, command by command. After zero bytes, it is
/// called again. At the end of the stream, the status is asked for. After a failure, the exception
/// is taken, if there is one, and its message read; if the message holds the word `closed`, in
/// whatever case, the Java socket is closed; otherwise the status is asked for. The loop goes on
/// reading in the same way unless the socket was found closed or disconnected. Then the callback is
/// told that it is, and the loop ends.
pub proof fn law_reader_without_bytes(
    setup: Setup,
    socket: SocketModel,
    count: i32,
    failure: JniError,
    exception: ObjectId,
    message: String,
    closed: Reply,
    later: JniError,
)
    requires
        count < 0 <= setup.size,
        closed is Done || closed is Failed,
    ensures
        ({
            let call = Command::CallRead {
                stream: socket.input_stream,
                method: setup.method,
                array: setup.array,
                len: setup.size,
            };
            let start = Progress::<
                Together<ReadLoop>,
                (Result<(), BluetoothError>, SocketModel),
            >::Call(Together { op: ReadLoop::Receiving(setup), socket }, call);
            let end = Progress::<
                Together<ReadLoop>,
                (Result<(), BluetoothError>, SocketModel),
            >::Finish((Ok(()), socket));
            let ask = |remember: bool|
                Command::CallBoolean {
                    target: Target::Object(socket.internal),
                    method: JavaMethod::IsConnected,
                    remember,
                };
            let farewell = Command::Notify { arrived: None };
            let unknown = seq![Reply::Failed(failure), Reply::Found(None)];
            let known = seq![
                Reply::Failed(failure),
                Reply::Found(Some(exception)),
                Reply::Text(message),
            ];
            let recall = seq![call, Command::TakeLastException];
            let inspect = recall.push(Command::ThrowableMessage(exception));
            let says_closed = exists|before: Seq<char>, after: Seq<char>|
                text::lowercase(message@) == #[trigger] (before + "closed"@ + after);
            &&& operation::leads_to(start, seq![Reply::Int(0)], seq![call], start)
            &&& operation::leads_to(
                start,
                seq![Reply::Int(count), Reply::Bool(true)],
                seq![call, ask(false)],
                start,
            )
            &&& operation::leads_to(
                start,
                seq![Reply::Int(count), Reply::Failed(later)],
                seq![call, ask(false)],
                start,
            )
            &&& operation::leads_to(
                start,
                seq![Reply::Int(count), Reply::Bool(false), Reply::Done],
                seq![call, ask(false), farewell],
                end,
            )
            &&& asks_again(start, unknown, recall, ask(true), end)
            &&& !says_closed ==> asks_again(start, known, inspect, ask(true), end)
            &&& says_closed ==> operation::leads_to(
                start,
                known.push(closed).push(Reply::Done),
                inspect.push(
                    Command::CallVoid {
                        target: Target::Object(socket.internal),
                        method: JavaMethod::Close,
                        remember: false,
                    },
                ).push(farewell),
                Progress::Finish(
                    (Ok(()), SocketModel { closed: socket.closed || closed is Done, ..socket }),
                ),
            )
        }),
{
    let call = Command::CallRead {
        stream: socket.input_stream,
        method: setup.method,
        array: setup.array,
        len: setup.size,
    };
    let receiving = Together { op: ReadLoop::Receiving(setup), socket };
    let start = Progress::<
        Together<ReadLoop>,
        (Result<(), BluetoothError>, SocketModel),
    >::Call(receiving, call);
    let end = Progress::<
        Together<ReadLoop>,
        (Result<(), BluetoothError>, SocketModel),
    >::Finish((Ok(()), socket));
    let ask_quietly = Command::CallBoolean {
        target: Target::Object(socket.internal),
        method: JavaMethod::IsConnected,
        remember: false,
    };
    let farewell = Command::Notify { arrived: None };
    let ending = Together { op: ReadLoop::Ending(setup), socket };
    let leaving = Together { op: ReadLoop::Leaving, socket };
    let asked = seq![call, ask_quietly, farewell];
    let ended = seq![Reply::Int(count), Reply::Bool(false), Reply::Done];
    operation::lemma_walk(start, seq![Reply::Int(0)], seq![call], 0, receiving);
    operation::lemma_walk(start, ended, asked, 0, receiving);
    operation::lemma_walk(start, ended, asked, 1, ending);
    operation::lemma_walk(start, ended, asked, 2, leaving);
    let going_on = seq![Reply::Int(count), Reply::Bool(true)];
    let quiet = seq![call, ask_quietly];
    operation::lemma_walk(start, going_on, quiet, 0, receiving);
    operation::lemma_walk(start, going_on, quiet, 1, ending);
    let unanswered = seq![Reply::Int(count), Reply::Failed(later)];
    operation::lemma_walk(start, unanswered, quiet, 0, receiving);
    operation::lemma_walk(start, unanswered, quiet, 1, ending);

    let recalling = Together { op: ReadLoop::Recalling(setup), socket };
    let inspecting = Together { op: ReadLoop::Inspecting(setup), socket };
    let recall = seq![call, Command::TakeLastException];
    let unknown = seq![Reply::Failed(failure), Reply::Found(None)];
    operation::lemma_walk(start, unknown, recall, 0, receiving);
    operation::lemma_walk(start, unknown, recall, 1, recalling);
    lemma_asks_again(setup, socket, start, unknown, recall, end);

    let known = seq![
        Reply::Failed(failure),
        Reply::Found(Some(exception)),
        Reply::Text(message),
    ];
    let inspect = recall.push(Command::ThrowableMessage(exception));
    operation::lemma_walk(start, known, inspect, 0, receiving);
    operation::lemma_walk(start, known, inspect, 1, recalling);
    operation::lemma_walk(start, known, inspect, 2, inspecting);
    text::law_occurs_in(text::lowercase(message@), "closed"@);
    if says_closed(message@) {
        let close = Command::CallVoid {
            target: Target::Object(socket.internal),
            method: JavaMethod::Close,
            remember: false,
        };
        let after = SocketModel { closed: socket.closed || closed is Done, ..socket };
        let closing = Together { op: ReadLoop::Closing, socket };
        let gone = Together { op: ReadLoop::Leaving, socket: after };
        operation::lemma_leads_on(start, known, inspect, closing, close, closed);
        operation::lemma_leads_on(
            start,
            known.push(closed),
            inspect.push(close),
            gone,
            farewell,
            Reply::Done,
        );
    } else {
        lemma_asks_again(setup, socket, start, known, inspect, end);
    }
}

/// Whether, after these replies to these commands, the question decides: if the answer is yes, the
/// loop is where it was; if it is no, the callback is told, and the loop ends; and if there is
/// none, the failure is explained.
pub open spec fn asks_again(
    start: Progress<Together<ReadLoop>, (Result<(), BluetoothError>, SocketModel)>,
    before: Seq<Reply>,
    done: Seq<Command>,
    question: Command,
    end: Progress<Together<ReadLoop>, (Result<(), BluetoothError>, SocketModel)>,
) -> bool {
    &&& operation::leads_to(start, before.push(Reply::Bool(true)), done.push(question), start)
    &&& operation::leads_to(
        start,
        before.push(Reply::Bool(false)).push(Reply::Done),
        done.push(question).push(Command::Notify { arrived: None }),
        end,
    )
    &&& operation::explains_failure_at(
        start,
        before,
        socket::error_leaving::<()>(socket_of(start)),
    )
}

proof fn lemma_asks_again(
    setup: Setup,
    socket: SocketModel,
    start: Progress<Together<ReadLoop>, (Result<(), BluetoothError>, SocketModel)>,
    before: Seq<Reply>,
    done: Seq<Command>,
    end: Progress<Together<ReadLoop>, (Result<(), BluetoothError>, SocketModel)>,
)
    requires
        start == Together::of((ReadLoop::receiving(setup, socket), socket)),
        end == Progress::<
            Together<ReadLoop>,
            (Result<(), BluetoothError>, SocketModel),
        >::Finish((Ok(()), socket)),
        operation::leads_to(
            start,
            before,
            done,
            Together::of((ReadLoop::probing(setup, socket), socket)),
        ),
    ensures
        asks_again(start, before, done, ReadLoop::probing(setup, socket)->Call_1, end),
{
    let probing = Together { op: ReadLoop::Probing(setup), socket };
    let leaving = Together { op: ReadLoop::Leaving, socket };
    let question = ReadLoop::probing(setup, socket)->Call_1;
    let hold = |progress: Progress<Jerr, BluetoothError>|
        Together::of((ReadLoop::of_jerr(progress), socket));
    operation::lemma_leads_on(start, before, done, probing, question, Reply::Bool(true));
    operation::lemma_leads_on(start, before, done, probing, question, Reply::Bool(false));
    operation::lemma_leads_on(
        start,
        before.push(Reply::Bool(false)),
        done.push(question),
        leaving,
        Command::Notify { arrived: None },
        Reply::Done,
    );
    operation::lemma_explains_failure(
        start,
        before,
        done,
        probing,
        question,
        hold,
        socket::error_leaving::<()>(socket),
    );
}

/// The sum of the positive numbers that `read` of the input stream returns while the loop takes the
/// replies.
pub open spec fn counted(
    progress: Progress<Together<ReadLoop>, (Result<(), BluetoothError>, SocketModel)>,
    replies: Seq<Reply>,
) -> int
    decreases replies.len(),
{
    match progress {
        Progress::Call(together, command) => if replies.len() == 0 {
            0
        } else {
            (match (command, replies.first()) {
                (Command::CallRead { .. }, Reply::Int(count)) => if count > 0 {
                    count as int
                } else {
                    0
                },
                _ => 0,
            }) + counted(together.next(replies.first()), replies.drop_first())
        },
        Progress::Finish(_) => 0,
    }
}

/// The bytes that `read` has returned and that are still in the array.
spec fn fetching(
    progress: Progress<Together<ReadLoop>, (Result<(), BluetoothError>, SocketModel)>,
) -> int {
    match progress {
        Progress::Call(Together { op: ReadLoop::Fetching(_, count), .. }, _) => count as int,
        _ => 0,
    }
}

/// The loop has failed.
spec fn failing(
    progress: Progress<Together<ReadLoop>, (Result<(), BluetoothError>, SocketModel)>,
) -> bool {
    match progress {
        Progress::Call(together, _) => together.op is Explaining,
        Progress::Finish((outcome, _)) => outcome is Err,
    }
}

proof fn lemma_reader_counts(
    progress: Progress<Together<ReadLoop>, (Result<(), BluetoothError>, SocketModel)>,
    replies: Seq<Reply>,
)
    requires
        operation::admitted(progress, replies),
        progress matches Progress::Call(together, command) ==> (command is CallRead
            <==> together.op is Receiving),
    ensures
        failing(progress) ==> failing(operation::run(progress, replies)),
        failing(operation::run(progress, replies)) || counted(progress, replies) + fetching(
            progress,
        ) == received(replies).len() + fetching(operation::run(progress, replies)),
        operation::run(progress, replies) matches Progress::Call(together, command) ==> (command
            is CallRead <==> together.op is Receiving),
    decreases replies.len(),
{
    broadcast use vstd::std_specs::vec::axiom_spec_len;

    if replies.len() > 0 {
        if let Progress::Call(together, command) = progress {
            let reply = replies.first();
            let next = together.next(reply);
            law_reader_step(together.op, together.socket, reply);
            lemma_reader_counts(next, replies.drop_first());
        }
    }
}

/// No byte that `read` returns is left behind: whenever the loop calls `read`, and when it ends
/// without an error, it has received as many bytes as `read` has returned so far.
pub proof fn law_reader_leaves_nothing_behind(socket: SocketModel, replies: Seq<Reply>)
    requires
        operation::admitted(reading_loop(socket), replies),
        match operation::run(reading_loop(socket), replies) {
            Progress::Call(_, command) => command is CallRead,
            Progress::Finish((outcome, _)) => outcome is Ok,
        },
    ensures
        received(replies).len() == counted(reading_loop(socket), replies),
{
    lemma_reader_counts(reading_loop(socket), replies);
}

} // verus!
