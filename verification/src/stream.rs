//! Reading from a socket, writing to it and flushing it.

use crate::buffer;
use crate::error;
use crate::error::{jerr, BluetoothError, Jerr};
use crate::java::{Command, JavaMethod, JniError, MethodId, ObjectId, Reply, Target, Want};
use crate::operation;
use crate::operation::{Explained, Operation, Progress, Protocol, Stage, Trouble};
use crate::query::{ask, Query, QueryStage};
use crate::reader;
use crate::socket;
use crate::socket::{BluetoothSocket, SocketModel, SocketOperation, SocketProtocol, Together};
use vstd::prelude::*;
use vstd::slice::slice_to_vec;

verus! {

/// Attach to the virtual machine, then flush the output stream.
#[derive(Clone, Copy, PartialEq, Eq, Structural, Debug)]
pub enum FlushStage {
    Attaching { stream: ObjectId, method: MethodId },
    Flushing,
}

pub type Flush = Explained<FlushStage>;

impl Stage for FlushStage {
    type Output = ();

    open spec fn stage_wanted(self) -> Want {
        Want::Attempt
    }

    open spec fn stage_next(self, reply: Reply) -> Progress<Self, Result<(), Trouble>> {
        match (self, reply) {
            (_, Reply::Failed(failure)) => Progress::Finish(Err(Trouble::Failed(failure))),
            (FlushStage::Attaching { stream, method }, _) => Progress::Call(
                FlushStage::Flushing,
                Command::CallFlush { stream, method },
            ),
            (FlushStage::Flushing, _) => Progress::Finish(Ok(())),
        }
    }

    fn stage_want(&self) -> (want: Want) {
        Want::Attempt
    }

    fn stage_step(self, reply: Reply) -> (progress: Progress<Self, Result<(), Trouble>>) {
        match (self, reply) {
            (_, Reply::Failed(failure)) => Progress::Finish(Err(Trouble::Failed(failure))),
            (FlushStage::Attaching { stream, method }, _) => Progress::Call(
                FlushStage::Flushing,
                Command::CallFlush { stream, method },
            ),
            (FlushStage::Flushing, _) => Progress::Finish(Ok(())),
        }
    }
}

/// Bytes on their way to the output stream.
#[derive(Debug)]
pub enum Write {
    Attaching { bytes: Vec<u8> },
    /// Asking for the length of the array that is at hand.
    Measuring { bytes: Vec<u8> },
    /// The array is too short; making one that holds the bytes.
    Growing { count: usize },
    /// Keeping the new array for later.
    Keeping { count: usize },
    /// Copying the bytes to the array that is at hand.
    Filling { count: usize },
    /// Writing the array to the stream.
    Sending { count: usize },
    /// The stream has failed; asking whether the socket is connected.
    Checking { failure: JniError, query: Query },
    Explaining(Jerr),
}

impl Write {
    pub open spec fn sending(count: usize, socket: SocketModel) -> Progress<
        Self,
        Result<usize, BluetoothError>,
    > {
        Progress::Call(
            Write::Sending { count },
            Command::CallWrite {
                stream: socket.output_stream,
                method: socket.jmethod_write,
                array: socket.array_write,
                count,
            },
        )
    }

    pub open spec fn of_jerr(progress: Progress<Jerr, BluetoothError>) -> Progress<
        Self,
        Result<usize, BluetoothError>,
    > {
        match progress {
            Progress::Call(jerr, command) => Progress::Call(Write::Explaining(jerr), command),
            Progress::Finish(error) => Progress::Finish(Err(error)),
        }
    }

    /// The failure is looked into if the socket is known to be connected. Otherwise the socket is
    /// taken for disconnected.
    pub open spec fn of_query(
        failure: JniError,
        progress: Progress<Query, Result<bool, BluetoothError>>,
    ) -> Progress<Self, Result<usize, BluetoothError>> {
        match progress {
            Progress::Call(query, command) => Progress::Call(
                Write::Checking { failure, query },
                command,
            ),
            Progress::Finish(Ok(true)) => Self::of_jerr(error::explaining(failure)),
            Progress::Finish(_) => Progress::Finish(Err(BluetoothError::NotConnected)),
        }
    }

    fn send(count: usize, socket: &BluetoothSocket) -> (progress: Progress<
        Self,
        Result<usize, BluetoothError>,
    >)
        ensures
            progress == Self::sending(count, socket@),
    {
        Progress::Call(
            Write::Sending { count },
            Command::CallWrite {
                stream: socket.output_stream,
                method: socket.jmethod_write,
                array: socket.array_write,
                count,
            },
        )
    }

    fn from_jerr(progress: Progress<Jerr, BluetoothError>) -> (explained: Progress<
        Self,
        Result<usize, BluetoothError>,
    >)
        ensures
            explained == Self::of_jerr(progress),
    {
        match progress {
            Progress::Call(jerr, command) => Progress::Call(Write::Explaining(jerr), command),
            Progress::Finish(error) => Progress::Finish(Err(error)),
        }
    }

    fn from_query(
        failure: JniError,
        progress: Progress<Query, Result<bool, BluetoothError>>,
    ) -> (checked: Progress<Self, Result<usize, BluetoothError>>)
        ensures
            checked == Self::of_query(failure, progress),
    {
        match progress {
            Progress::Call(query, command) => Progress::Call(
                Write::Checking { failure, query },
                command,
            ),
            Progress::Finish(Ok(true)) => Self::from_jerr(jerr(failure)),
            Progress::Finish(_) => Progress::Finish(Err(BluetoothError::NotConnected)),
        }
    }
}

impl SocketProtocol for Write {
    type Outcome = Result<usize, BluetoothError>;

    open spec fn socket_wanted(self) -> Want {
        match self {
            Write::Attaching { .. } => Want::Attempt,
            Write::Measuring { .. } => Want::Count(i32::MAX),
            Write::Growing { .. } => Want::Object,
            Write::Keeping { .. } => Want::Object,
            Write::Filling { .. } => Want::Attempt,
            Write::Sending { .. } => Want::Attempt,
            Write::Checking { query, .. } => query.wanted(),
            Write::Explaining(jerr) => jerr.wanted(),
        }
    }

    open spec fn socket_next(self, socket: SocketModel, reply: Reply) -> (
        Progress<Self, Result<usize, BluetoothError>>,
        SocketModel,
    ) {
        match (self, reply) {
            (Write::Attaching { bytes }, Reply::Done) => (
                Progress::Call(
                    Write::Measuring { bytes },
                    Command::ArrayLength(socket.array_write),
                ),
                socket,
            ),
            (Write::Measuring { bytes }, Reply::Int(len)) => if 0 <= len < bytes@.len() {
                (
                    Progress::Call(
                        Write::Growing { count: bytes@.len() as usize },
                        Command::ByteArrayFrom(bytes),
                    ),
                    socket,
                )
            } else {
                (
                    Progress::Call(
                        Write::Filling { count: bytes@.len() as usize },
                        Command::SetRegion { array: socket.array_write, bytes },
                    ),
                    socket,
                )
            },
            (Write::Growing { count }, Reply::Object(object)) => (
                Progress::Call(
                    Write::Keeping { count },
                    Command::NewGlobalRef { object, checked: true },
                ),
                socket,
            ),
            (Write::Keeping { count }, Reply::Object(array_write)) => {
                let grown = SocketModel { array_write, ..socket };
                (Self::sending(count, grown), grown)
            },
            (Write::Filling { count }, Reply::Done) => (Self::sending(count, socket), socket),
            (Write::Sending { count }, Reply::Done) => (Progress::Finish(Ok(count)), socket),
            (Write::Sending { .. }, Reply::Failed(failure)) => (
                Self::of_query(
                    failure,
                    socket.asking_connected(),
                ),
                socket,
            ),
            (Write::Checking { failure, query }, _) => (
                Self::of_query(failure, query.next(reply)),
                socket,
            ),
            (Write::Explaining(jerr), _) => (Self::of_jerr(jerr.next(reply)), socket),
            (_, Reply::Failed(failure)) => (Self::of_jerr(error::explaining(failure)), socket),
            _ => arbitrary(),
        }
    }
}

impl SocketOperation for Write {
    fn want(&self) -> (want: Want) {
        match self {
            Write::Attaching { .. } => Want::Attempt,
            Write::Measuring { .. } => Want::Count(i32::MAX),
            Write::Growing { .. } => Want::Object,
            Write::Keeping { .. } => Want::Object,
            Write::Filling { .. } => Want::Attempt,
            Write::Sending { .. } => Want::Attempt,
            Write::Checking { query, .. } => query.want(),
            Write::Explaining(jerr) => jerr.want(),
        }
    }

    fn step(self, socket: &mut BluetoothSocket, reply: Reply) -> (progress: Progress<
        Self,
        Result<usize, BluetoothError>,
    >) {
        match (self, reply) {
            (Write::Attaching { bytes }, Reply::Done) => Progress::Call(
                Write::Measuring { bytes },
                Command::ArrayLength(socket.array_write),
            ),
            (Write::Measuring { bytes }, Reply::Int(len)) => {
                let count: usize = bytes.len();
                if 0 <= len && (len as usize) < count {
                    Progress::Call(Write::Growing { count }, Command::ByteArrayFrom(bytes))
                } else {
                    Progress::Call(
                        Write::Filling { count },
                        Command::SetRegion { array: socket.array_write, bytes },
                    )
                }
            },
            (Write::Growing { count }, Reply::Object(object)) => Progress::Call(
                Write::Keeping { count },
                Command::NewGlobalRef { object, checked: true },
            ),
            (Write::Keeping { count }, Reply::Object(array_write)) => {
                socket.array_write = array_write;
                Self::send(count, socket)
            },
            (Write::Filling { count }, Reply::Done) => Self::send(count, socket),
            (Write::Sending { count }, Reply::Done) => Progress::Finish(Ok(count)),
            (Write::Sending { .. }, Reply::Failed(failure)) => Self::from_query(
                failure,
                ask(Target::Object(socket.internal), JavaMethod::IsConnected),
            ),
            (Write::Checking { failure, query }, reply) => Self::from_query(
                failure,
                query.step(reply),
            ),
            (Write::Explaining(jerr), reply) => Self::from_jerr(jerr.step(reply)),
            (_, Reply::Failed(failure)) => Self::from_jerr(jerr(failure)),
            _ => vstd::pervasive::unreached(),
        }
    }
}

/// The longest time, in nanoseconds, for which a read sleeps before it looks again.
pub const NAP: u128 = 100_000_000;

/// What a read is waiting for.
#[derive(Debug)]
pub enum ReadStage {
    /// The time at which it starts.
    Starting { timeout: u128 },
    /// Whether the socket is connected.
    Checking { deadline: u128, query: Query },
    /// The time.
    Timing { deadline: u128 },
    /// The end of a nap.
    Sleeping { deadline: u128 },
}

/// A read in progress: `count` bytes of the `len` that are asked for have been read.
#[derive(Debug)]
pub struct Read {
    pub len: usize,
    pub count: usize,
    pub stage: ReadStage,
}

/// Where a read stands, with the socket and the bytes it reads to.
#[verifier::ext_equal]
pub struct ReadModel {
    pub progress: Progress<Read, Result<usize, BluetoothError>>,
    pub socket: SocketModel,
    pub out: Seq<u8>,
}

impl Read {
    /// Bytes are still missing.
    pub open spec fn unfinished(self) -> bool {
        self.count < self.len
    }

    pub open spec fn wanted(self) -> Want {
        match self.stage {
            ReadStage::Starting { timeout } => Want::Time(timeout),
            ReadStage::Checking { query, .. } => query.wanted(),
            ReadStage::Timing { .. } => Want::Time(0),
            ReadStage::Sleeping { .. } => Want::Done,
        }
    }

    /// The end of a read that cannot go on.
    pub open spec fn ended(count: usize, reason: BluetoothError) -> Progress<
        Read,
        Result<usize, BluetoothError>,
    > {
        if count > 0 {
            Progress::Finish(Ok(count))
        } else {
            Progress::Finish(Err(reason))
        }
    }

    pub open spec fn of_query(
        self,
        deadline: u128,
        progress: Progress<Query, Result<bool, BluetoothError>>,
    ) -> Progress<Read, Result<usize, BluetoothError>> {
        match progress {
            Progress::Call(query, command) => Progress::Call(
                Read { stage: ReadStage::Checking { deadline, query }, ..self },
                command,
            ),
            Progress::Finish(Ok(true)) => Progress::Call(
                Read { stage: ReadStage::Timing { deadline }, ..self },
                Command::Clock,
            ),
            Progress::Finish(Ok(false)) => Self::ended(self.count, BluetoothError::NotConnected),
            Progress::Finish(Err(error)) => Progress::Finish(Err(error)),
        }
    }

    /// Moves what has arrived to `out`. If bytes are still missing, asks whether more can come.
    pub open spec fn polled(self, deadline: u128, socket: SocketModel, out: Seq<u8>) -> ReadModel {
        let n = buffer::taken(socket.buf_read, self.len - self.count);
        let read = Read { count: (self.count + n) as usize, ..self };
        ReadModel {
            progress: if read.count == read.len {
                Progress::Finish(Ok(read.count))
            } else {
                read.of_query(deadline, socket.asking_connected())
            },
            socket: SocketModel { buf_read: socket.buf_read.skip(n), ..socket },
            out: out.take(self.count as int) + socket.buf_read.take(n) + out.skip(self.count + n),
        }
    }

    /// How a read goes on after a reply.
    pub open spec fn next(self, socket: SocketModel, out: Seq<u8>, reply: Reply) -> ReadModel {
        match (self.stage, reply) {
            (ReadStage::Starting { timeout }, Reply::Time(now)) => self.polled(
                (now + timeout) as u128,
                socket,
                out,
            ),
            (ReadStage::Checking { deadline, query }, _) => ReadModel {
                progress: self.of_query(deadline, query.next(reply)),
                socket,
                out,
            },
            (ReadStage::Timing { deadline }, Reply::Time(now)) => ReadModel {
                progress: if now <= deadline {
                    let left = deadline - now;
                    Progress::Call(
                        Read { stage: ReadStage::Sleeping { deadline }, ..self },
                        Command::Sleep(if left < NAP { left as u128 } else { NAP }),
                    )
                } else {
                    Self::ended(self.count, BluetoothError::TimedOut)
                },
                socket,
                out,
            },
            (ReadStage::Sleeping { deadline }, _) => self.polled(deadline, socket, out),
            _ => arbitrary(),
        }
    }

    /// The replies that the operation can take.
    pub fn want(&self) -> (want: Want)
        ensures
            want == self.wanted(),
    {
        match &self.stage {
            ReadStage::Starting { timeout } => Want::Time(*timeout),
            ReadStage::Checking { query, .. } => query.want(),
            ReadStage::Timing { .. } => Want::Time(0),
            ReadStage::Sleeping { .. } => Want::Done,
        }
    }

    fn end(count: usize, reason: BluetoothError) -> (progress: Progress<
        Read,
        Result<usize, BluetoothError>,
    >)
        ensures
            progress == Self::ended(count, reason),
    {
        if count > 0 {
            Progress::Finish(Ok(count))
        } else {
            Progress::Finish(Err(reason))
        }
    }

    fn from_query(
        len: usize,
        count: usize,
        deadline: u128,
        progress: Progress<Query, Result<bool, BluetoothError>>,
    ) -> (checked: Progress<Read, Result<usize, BluetoothError>>)
        ensures
            forall|read: Read|
                read.len == len && read.count == count ==> checked == #[trigger] read.of_query(
                    deadline,
                    progress,
                ),
    {
        match progress {
            Progress::Call(query, command) => Progress::Call(
                Read { len, count, stage: ReadStage::Checking { deadline, query } },
                command,
            ),
            Progress::Finish(Ok(true)) => Progress::Call(
                Read { len, count, stage: ReadStage::Timing { deadline } },
                Command::Clock,
            ),
            Progress::Finish(Ok(false)) => Self::end(count, BluetoothError::NotConnected),
            Progress::Finish(Err(error)) => Progress::Finish(Err(error)),
        }
    }

    fn poll(self, deadline: u128, socket: &mut BluetoothSocket, out: &mut [u8]) -> (progress:
        Progress<Read, Result<usize, BluetoothError>>)
        requires
            self.unfinished(),
            old(out)@.len() == self.len,
        ensures
            (ReadModel { progress, socket: final(socket)@, out: final(out)@ }) == self.polled(
                deadline,
                old(socket)@,
                old(out)@,
            ),
    {
        let count: usize = self.count + socket.buf_read.read(out, self.count);
        if count == self.len {
            Progress::Finish(Ok(count))
        } else {
            Self::from_query(
                self.len,
                count,
                deadline,
                ask(Target::Object(socket.internal), JavaMethod::IsConnected),
            )
        }
    }

    /// Takes the reply to the command that was handed out last. `out` is where the bytes go, the
    /// same for all steps of a read.
    pub fn step(self, socket: &mut BluetoothSocket, out: &mut [u8], reply: Reply) -> (progress:
        Progress<Read, Result<usize, BluetoothError>>)
        requires
            self.unfinished(),
            self.wanted().admits(reply),
            old(out)@.len() == self.len,
        ensures
            (ReadModel { progress, socket: final(socket)@, out: final(out)@ }) == self.next(
                old(socket)@,
                old(out)@,
                reply,
            ),
            final(out)@.len() == self.len,
            progress matches Progress::Call(read, _) ==> read.unfinished() && read.len == self.len,
    {
        let Read { len, count, stage } = self;
        match (stage, reply) {
            (ReadStage::Starting { timeout }, Reply::Time(now)) => {
                let read = Read { len, count, stage: ReadStage::Starting { timeout } };
                read.poll(now + timeout, socket, out)
            },
            (ReadStage::Checking { deadline, query }, reply) => Self::from_query(
                len,
                count,
                deadline,
                query.step(reply),
            ),
            (ReadStage::Timing { deadline }, Reply::Time(now)) => if now <= deadline {
                let left: u128 = deadline - now;
                let nap: u128 = if left < NAP {
                    left
                } else {
                    NAP
                };
                Progress::Call(
                    Read { len, count, stage: ReadStage::Sleeping { deadline } },
                    Command::Sleep(nap),
                )
            } else {
                Self::end(count, BluetoothError::TimedOut)
            },
            (ReadStage::Sleeping { deadline }, _) => {
                let read = Read { len, count, stage: ReadStage::Sleeping { deadline } };
                read.poll(deadline, socket, out)
            },
            _ => vstd::pervasive::unreached(),
        }
    }
}

impl BluetoothSocket {
    /// The conversation that a read of `len` bytes starts with.
    pub open spec fn reading(self, len: usize) -> Progress<Read, Result<usize, BluetoothError>> {
        if len == 0 {
            Progress::Finish(Ok(0))
        } else {
            Progress::Call(
                Read { len, count: 0, stage: ReadStage::Starting { timeout: self.read_timeout } },
                Command::Clock,
            )
        }
    }

    /// Starts to read as many bytes as `buf` has room for. The read ends when they are all there,
    /// when the socket is found disconnected, or when the timeout is over. If no byte has come
    /// by then, that is an error.
    pub fn read(&self, buf: &[u8]) -> (progress: Progress<Read, Result<usize, BluetoothError>>)
        ensures
            progress == self.reading(buf@.len() as usize),
            progress == ReadModel::start(self@, buf@).progress,
            progress matches Progress::Call(read, _) ==> read.unfinished() && read.len
                == buf@.len(),
    {
        let len: usize = buf.len();
        if len == 0 {
            Progress::Finish(Ok(0))
        } else {
            Progress::Call(
                Read { len, count: 0, stage: ReadStage::Starting { timeout: self.read_timeout } },
                Command::Clock,
            )
        }
    }

    /// Starts to write the bytes to the output stream.
    pub fn write(&self, buf: &[u8]) -> (progress: Progress<Write, Result<usize, BluetoothError>>)
        ensures
            buf@.len() == 0 ==> progress == Progress::<
                Write,
                Result<usize, BluetoothError>,
            >::Finish(Ok(0)),
            buf@.len() > 0 ==> match progress {
                Progress::Call(Write::Attaching { bytes }, Command::AttachVm) => {
                    &&& bytes@ == buf@
                    &&& Together::of((progress, self@)) == write_started(bytes, self@)
                },
                _ => false,
            },
    {
        if buf.len() == 0 {
            Progress::Finish(Ok(0))
        } else {
            Progress::Call(Write::Attaching { bytes: slice_to_vec(buf) }, Command::AttachVm)
        }
    }

    /// Starts to flush the output stream.
    pub fn flush(&self) -> (progress: Progress<Flush, Result<(), BluetoothError>>)
        ensures
            progress == self@.flushing(),
    {
        Progress::Call(
            Explained::Running(
                FlushStage::Attaching { stream: self.output_stream, method: self.jmethod_flush },
            ),
            Command::AttachVm,
        )
    }
}

/// A flush succeeds exactly when both of its commands succeed. Otherwise the error is what is found
/// out about the failure of a command.
pub proof fn law_flush_outcome(socket: SocketModel, replies: Seq<Reply>)
    requires
        operation::admitted(socket.flushing(), replies),
        operation::run(socket.flushing(), replies) is Finish,
    ensures
        operation::run(socket.flushing(), replies)->Finish_0 is Ok <==> replies.len() == 2
            && replies[0] is Done && replies[1] is Done,
        operation::run(socket.flushing(), replies)->Finish_0 matches Err(error) ==> error
            is Exception || error is Jni,
{
    reveal_with_fuel(operation::run, 4);
    reveal_with_fuel(operation::admitted, 4);
    let after_0 = replies;
    let after_1 = after_0.drop_first();
    operation::lemma_failed_command(
        FlushStage::Attaching { stream: socket.output_stream, method: socket.jmethod_flush },
        after_0,
    );
    operation::lemma_failed_command(FlushStage::Flushing, after_1);
}

/// A write of these bytes at its start, with the socket.
pub open spec fn writing(bytes: Vec<u8>, socket: SocketModel) -> Progress<
    Together<Write>,
    (Result<usize, BluetoothError>, SocketModel),
> {
    Together::of((Progress::Call(Write::Attaching { bytes }, Command::AttachVm), socket))
}

/// A write succeeds with the number of the bytes when the stream has taken them. The array that is
/// at hand is used if it is long enough. Otherwise an array of the bytes takes its place.
pub proof fn law_write_outcome(
    bytes: Vec<u8>,
    socket: SocketModel,
    len: i32,
    local: ObjectId,
    array_write: ObjectId,
)
    ensures
        0 <= len < bytes@.len() ==> operation::ends_with(
            writing(bytes, socket),
            seq![
                Reply::Done,
                Reply::Int(len),
                Reply::Object(local),
                Reply::Object(array_write),
                Reply::Done,
            ],
            (Ok(bytes@.len() as usize), SocketModel { array_write, ..socket }),
        ),
        !(0 <= len < bytes@.len()) ==> operation::ends_with(
            writing(bytes, socket),
            seq![Reply::Done, Reply::Int(len), Reply::Done, Reply::Done],
            (Ok(bytes@.len() as usize), socket),
        ),
{
    let grown = seq![
        Reply::Done,
        Reply::Int(len),
        Reply::Object(local),
        Reply::Object(array_write),
        Reply::Done,
    ];
    let filled = seq![Reply::Done, Reply::Int(len), Reply::Done, Reply::Done];
    reveal_with_fuel(operation::run, 7);
    reveal_with_fuel(operation::admitted, 7);
    assert(grown.drop_first().drop_first().drop_first().drop_first().drop_first().len() == 0);
    assert(filled.drop_first().drop_first().drop_first().drop_first().len() == 0);
}

/// When the stream fails, the error is that the socket is not connected, unless the socket is known
/// to be connected. Then it is what is found out about the failure.
pub proof fn law_write_failure(
    count: usize,
    socket: SocketModel,
    failure: JniError,
    checked: Seq<Reply>,
    connected: Result<bool, BluetoothError>,
    explained: Seq<Reply>,
    error: BluetoothError,
)
    requires
        operation::ends_with(socket.asking_connected(), checked, connected),
        operation::ends_with(error::explaining(failure), explained, error),
    ensures
        ({
            let sending = Together::of((Write::sending(count, socket), socket));
            let replies = seq![Reply::Failed(failure)] + checked;
            match connected {
                Ok(true) => operation::ends_with(
                    sending,
                    replies + explained,
                    (Err(error), socket),
                ),
                _ => operation::ends_with(
                    sending,
                    replies,
                    (Err(BluetoothError::NotConnected), socket),
                ),
            }
        }),
{
    let sending = Together::of((Write::sending(count, socket), socket));
    let first = seq![Reply::Failed(failure)];
    let hold_query = |progress: Progress<Query, Result<bool, BluetoothError>>|
        Together::of((Write::of_query(failure, progress), socket));
    let hold_jerr = |progress: Progress<Jerr, BluetoothError>|
        Together::of((Write::of_jerr(progress), socket));
    assert(operation::run(sending, first) == hold_query(socket.asking_connected())
        && operation::admitted(sending, first)) by {
        reveal_with_fuel(operation::run, 2);
        reveal_with_fuel(operation::admitted, 2);
    }
    operation::lemma_run_in_two(sending, first, checked);
    operation::lemma_held_end(hold_query, socket.asking_connected(), checked, connected);
    operation::lemma_run_in_two(sending, first + checked, explained);
    operation::lemma_held_end(hold_jerr, error::explaining(failure), explained, error);
}

/// When a command fails before the bytes are sent, the write ends with what is found out about the
/// failure.
pub proof fn law_write_broken_off(
    write: Write,
    socket: SocketModel,
    failure: JniError,
    explained: Seq<Reply>,
    error: BluetoothError,
)
    requires
        write is Attaching || write is Measuring || write is Growing || write is Keeping
            || write is Filling,
        operation::ends_with(error::explaining(failure), explained, error),
    ensures
        operation::ends_with(
            Together { op: write, socket }.next(Reply::Failed(failure)),
            explained,
            (Err(error), socket),
        ),
{
    let hold = |progress: Progress<Jerr, BluetoothError>|
        Together::of((Write::of_jerr(progress), socket));
    operation::lemma_held_end(hold, error::explaining(failure), explained, error);
}

/// What the Java byte arrays hold after a command was carried out.
pub open spec fn arrays_after(
    arrays: Map<ObjectId, Seq<u8>>,
    command: Command,
    reply: Reply,
) -> Map<ObjectId, Seq<u8>> {
    match (command, reply) {
        (Command::ByteArrayFrom(bytes), Reply::Object(array)) => arrays.insert(array, bytes@),
        (Command::NewGlobalRef { object, .. }, Reply::Object(array)) => arrays.insert(
            array,
            arrays[object],
        ),
        (Command::SetRegion { array, bytes }, Reply::Done) => arrays.insert(
            array,
            bytes@ + arrays[array].skip(bytes@.len() as int),
        ),
        _ => arrays,
    }
}

/// What the Java byte arrays hold after a write has taken the replies.
pub open spec fn arrays_after_all(
    progress: Progress<Together<Write>, (Result<usize, BluetoothError>, SocketModel)>,
    replies: Seq<Reply>,
    arrays: Map<ObjectId, Seq<u8>>,
) -> Map<ObjectId, Seq<u8>>
    decreases replies.len(),
{
    match progress {
        Progress::Call(together, command) => if replies.len() == 0 {
            arrays
        } else {
            arrays_after_all(
                together.next(replies.first()),
                replies.drop_first(),
                arrays_after(arrays, command, replies.first()),
            )
        },
        Progress::Finish(_) => arrays,
    }
}

/// The bytes are where the stage of the write needs them.
spec fn prepared(
    together: Together<Write>,
    command: Command,
    arrays: Map<ObjectId, Seq<u8>>,
    data: Seq<u8>,
) -> bool {
    let socket = together.socket;
    match together.op {
        Write::Attaching { bytes } => bytes@ == data && command is AttachVm,
        Write::Measuring { bytes } => bytes@ == data && command is ArrayLength,
        Write::Growing { count } => {
            &&& count == data.len()
            &&& command matches Command::ByteArrayFrom(bytes)
            &&& bytes@ == data
        },
        Write::Keeping { count } => {
            &&& count == data.len()
            &&& command matches Command::NewGlobalRef { object, .. }
            &&& arrays[object] == data
        },
        Write::Filling { count } => {
            &&& count == data.len()
            &&& command matches Command::SetRegion { array, bytes }
            &&& array == socket.array_write
            &&& bytes@ == data
        },
        Write::Sending { count } => {
            &&& count == data.len()
            &&& command == Command::CallWrite {
                stream: socket.output_stream,
                method: socket.jmethod_write,
                array: socket.array_write,
                count,
            }
            &&& data.len() <= arrays[socket.array_write].len()
            &&& arrays[socket.array_write].take(data.len() as int) == data
        },
        Write::Checking { .. } => command !is CallWrite,
        Write::Explaining(_) => command !is CallWrite,
    }
}

proof fn lemma_write_prepares(
    progress: Progress<Together<Write>, (Result<usize, BluetoothError>, SocketModel)>,
    replies: Seq<Reply>,
    arrays: Map<ObjectId, Seq<u8>>,
    data: Seq<u8>,
)
    requires
        operation::admitted(progress, replies),
        data.len() <= usize::MAX,
        progress matches Progress::Call(together, command) ==> prepared(
            together,
            command,
            arrays,
            data,
        ),
    ensures
        operation::run(progress, replies) matches Progress::Call(together, command) ==> prepared(
            together,
            command,
            arrays_after_all(progress, replies, arrays),
            data,
        ) && (progress matches Progress::Call(before, _) && together.socket.output_stream
            == before.socket.output_stream && together.socket.jmethod_write
            == before.socket.jmethod_write),
    decreases replies.len(),
{
    if replies.len() > 0 {
        if let Progress::Call(together, command) = progress {
            let reply = replies.first();
            let after = arrays_after(arrays, command, reply);
            let next = together.next(reply);
            if let Write::Filling { .. } = together.op {
                if let Command::SetRegion { array, bytes } = command {
                    assert((bytes@ + arrays[array].skip(bytes@.len() as int)).take(
                        bytes@.len() as int,
                    ) =~= bytes@);
                }
            }
            if let Write::Keeping { .. } = together.op {
                assert(data.take(data.len() as int) =~= data);
            }
            lemma_write_prepares(next, replies.drop_first(), after, data);
        }
    }
}

/// What the output stream is told to send is what was given: when it is told to write the beginning
/// of an array, that beginning holds the bytes, all of them and in their order.
pub proof fn law_write_sends_the_bytes(
    bytes: Vec<u8>,
    socket: SocketModel,
    replies: Seq<Reply>,
    arrays: Map<ObjectId, Seq<u8>>,
)
    requires
        operation::admitted(writing(bytes, socket), replies),
    ensures
        operation::run(writing(bytes, socket), replies) matches Progress::Call(
            _,
            Command::CallWrite { stream, method, array, count },
        ) ==> {
            &&& stream == socket.output_stream
            &&& method == socket.jmethod_write
            &&& count == bytes@.len()
            &&& arrays_after_all(writing(bytes, socket), replies, arrays)[array].take(
                count as int,
            ) == bytes@
        },
{
    broadcast use vstd::std_specs::vec::axiom_spec_len;

    assert(bytes.len() <= usize::MAX);
    lemma_write_prepares(writing(bytes, socket), replies, arrays, bytes@);
}

/// The bytes that the output stream takes when a command is carried out: the beginning of an array
/// that it is told to write, if it succeeds.
pub open spec fn sent_by(
    arrays: Map<ObjectId, Seq<u8>>,
    command: Command,
    reply: Reply,
) -> Seq<u8> {
    match (command, reply) {
        (Command::CallWrite { array, count, .. }, Reply::Done) => arrays[array].take(count as int),
        _ => Seq::empty(),
    }
}

/// The bytes that the output stream takes while a write takes the replies.
pub open spec fn sent(
    progress: Progress<Together<Write>, (Result<usize, BluetoothError>, SocketModel)>,
    replies: Seq<Reply>,
    arrays: Map<ObjectId, Seq<u8>>,
) -> Seq<u8>
    decreases replies.len(),
{
    match progress {
        Progress::Call(together, command) => if replies.len() == 0 {
            Seq::empty()
        } else {
            sent_by(arrays, command, replies.first()) + sent(
                together.next(replies.first()),
                replies.drop_first(),
                arrays_after(arrays, command, replies.first()),
            )
        },
        Progress::Finish(_) => Seq::empty(),
    }
}

/// What [`BluetoothSocket::write`] starts with, with the socket: nothing is done about no bytes.
pub open spec fn write_started(bytes: Vec<u8>, socket: SocketModel) -> Progress<
    Together<Write>,
    (Result<usize, BluetoothError>, SocketModel),
> {
    if bytes@.len() == 0 {
        Progress::Finish((Ok(0), socket))
    } else {
        writing(bytes, socket)
    }
}

proof fn lemma_write_sends(
    progress: Progress<Together<Write>, (Result<usize, BluetoothError>, SocketModel)>,
    replies: Seq<Reply>,
    arrays: Map<ObjectId, Seq<u8>>,
    data: Seq<u8>,
)
    requires
        operation::admitted(progress, replies),
        data.len() <= usize::MAX,
        progress matches Progress::Call(together, command) && prepared(
            together,
            command,
            arrays,
            data,
        ),
    ensures
        operation::run(progress, replies) matches Progress::Finish((Ok(count), after)) ==> {
            let before = progress->Call_0.socket;
            &&& count == data.len()
            &&& sent(progress, replies, arrays) == data
            &&& after == SocketModel { array_write: after.array_write, ..before }
        },
    decreases replies.len(),
{
    if replies.len() > 0 {
        if let Progress::Call(together, command) = progress {
            let reply = replies.first();
            let next = together.next(reply);
            let after = arrays_after(arrays, command, reply);
            let rest = replies.drop_first();
            reveal_with_fuel(operation::run, 2);
            reveal_with_fuel(operation::admitted, 2);
            reveal_with_fuel(arrays_after_all, 2);
            assert(seq![reply].drop_first() =~= Seq::empty());
            lemma_write_prepares(progress, seq![reply], arrays, data);
            if let Progress::Call(_, _) = next {
                lemma_write_sends(next, rest, after, data);
                assert(sent_by(arrays, command, reply) + sent(next, rest, after) =~= sent(
                    next,
                    rest,
                    after,
                ));
            } else {
                assert(sent(next, rest, after) =~= Seq::empty());
                assert(sent_by(arrays, command, reply) + Seq::<u8>::empty() =~= sent_by(
                    arrays,
                    command,
                    reply,
                ));
            }
        }
    }
}

/// A write that succeeds has sent the bytes that were given, all of them and in their order, and
/// nothing else, and says how many they are. Of the socket, only the array for writing can change.
pub proof fn law_write_sends_all(
    bytes: Vec<u8>,
    socket: SocketModel,
    replies: Seq<Reply>,
    arrays: Map<ObjectId, Seq<u8>>,
    count: usize,
    after: SocketModel,
)
    requires
        operation::ends_with(write_started(bytes, socket), replies, (Ok(count), after)),
    ensures
        count == bytes@.len(),
        sent(write_started(bytes, socket), replies, arrays) == bytes@,
        after == (SocketModel { array_write: after.array_write, ..socket }),
{
    broadcast use vstd::std_specs::vec::axiom_spec_len;

    if bytes@.len() > 0 {
        assert(bytes.len() <= usize::MAX);
        lemma_write_sends(writing(bytes, socket), replies, arrays, bytes@);
    }
}

/// A write that has succeeded: the bytes, the replies that it took, the number that it returned,
/// and the socket that it left.
pub struct Written {
    pub bytes: Vec<u8>,
    pub replies: Seq<Reply>,
    pub count: usize,
    pub after: SocketModel,
}

/// Whether the writes succeed one after the other.
pub open spec fn all_succeed(writes: Seq<Written>, socket: SocketModel) -> bool
    decreases writes.len(),
{
    writes.len() > 0 ==> {
        let first = writes.first();
        &&& operation::ends_with(
            write_started(first.bytes, socket),
            first.replies,
            (Ok(first.count), first.after),
        )
        &&& all_succeed(writes.drop_first(), first.after)
    }
}

/// The bytes of all the writes, one after the other.
pub open spec fn all_bytes(writes: Seq<Written>) -> Seq<u8>
    decreases writes.len(),
{
    if writes.len() == 0 {
        Seq::empty()
    } else {
        writes.first().bytes@ + all_bytes(writes.drop_first())
    }
}

/// The sum of the numbers that the writes return.
pub open spec fn all_counts(writes: Seq<Written>) -> int
    decreases writes.len(),
{
    if writes.len() == 0 {
        0
    } else {
        writes.first().count + all_counts(writes.drop_first())
    }
}

/// The bytes that the output stream takes over all the writes.
pub open spec fn all_sent(
    writes: Seq<Written>,
    socket: SocketModel,
    arrays: Map<ObjectId, Seq<u8>>,
) -> Seq<u8>
    decreases writes.len(),
{
    if writes.len() == 0 {
        Seq::empty()
    } else {
        let first = writes.first();
        let start = write_started(first.bytes, socket);
        sent(start, first.replies, arrays) + all_sent(
            writes.drop_first(),
            first.after,
            arrays_after_all(start, first.replies, arrays),
        )
    }
}

/// The socket after all the writes.
pub open spec fn after_writes(writes: Seq<Written>, socket: SocketModel) -> SocketModel {
    if writes.len() == 0 {
        socket
    } else {
        writes.last().after
    }
}

/// Writes that succeed one after the other, of any lengths in any order, send their bytes one after
/// the other, and the numbers that they return add up to the number of all these bytes. The array
/// for writing apart, the socket stays as it is, with its read buffer and its timeout.
pub proof fn law_writes_add_up(
    writes: Seq<Written>,
    socket: SocketModel,
    arrays: Map<ObjectId, Seq<u8>>,
)
    requires
        all_succeed(writes, socket),
    ensures
        all_sent(writes, socket, arrays) == all_bytes(writes),
        all_counts(writes) == all_bytes(writes).len(),
        after_writes(writes, socket) == (SocketModel {
            array_write: after_writes(writes, socket).array_write,
            ..socket
        }),
    decreases writes.len(),
{
    if writes.len() > 0 {
        let first = writes.first();
        let rest = writes.drop_first();
        let start = write_started(first.bytes, socket);
        law_write_sends_all(
            first.bytes,
            socket,
            first.replies,
            arrays,
            first.count,
            first.after,
        );
        law_writes_add_up(
            rest,
            first.after,
            arrays_after_all(start, first.replies, arrays),
        );
        if rest.len() > 0 {
            assert(rest.last() == writes.last());
        }
    }
}

/// The end of the time that a read has, once it has started.
pub open spec fn deadline_of(read: Read) -> Option<u128> {
    match read.stage {
        ReadStage::Starting { .. } => None,
        ReadStage::Checking { deadline, .. } => Some(deadline),
        ReadStage::Timing { deadline } => Some(deadline),
        ReadStage::Sleeping { deadline } => Some(deadline),
    }
}

/// The bytes that have been read, followed by those that can be read.
pub open spec fn stream_of(count: usize, socket: SocketModel, out: Seq<u8>) -> Seq<u8> {
    out.take(count as int) + socket.buf_read
}

/// Reading neither loses bytes nor repeats or reorders them: the bytes that have been read,
/// followed by those in the read buffer, stay the same. Nothing else of the socket changes, nor
/// does what follows the bytes that have been read.
pub proof fn law_read_keeps_the_stream(read: Read, socket: SocketModel, out: Seq<u8>, reply: Reply)
    requires
        read.unfinished(),
        read.wanted().admits(reply),
        out.len() == read.len,
    ensures
        ({
            let after = read.next(socket, out, reply);
            let count = match after.progress {
                Progress::Call(next, _) => next.count,
                Progress::Finish(Ok(count)) => count,
                Progress::Finish(Err(_)) => read.count,
            };
            &&& read.count <= count <= read.len
            &&& stream_of(count, after.socket, after.out) == stream_of(read.count, socket, out)
            &&& after.out.len() == out.len()
            &&& after.out.skip(count as int) == out.skip(count as int)
            &&& after.socket == SocketModel { buf_read: after.socket.buf_read, ..socket }
        }),
{
    let after = read.next(socket, out, reply);
    let polls = match read.stage {
        ReadStage::Starting { .. } => true,
        ReadStage::Sleeping { .. } => true,
        _ => false,
    };
    if polls {
        let n = buffer::taken(socket.buf_read, read.len - read.count);
        let count = (read.count + n) as usize;
        assert(stream_of(count, after.socket, after.out) =~= stream_of(read.count, socket, out));
        assert(after.out.skip(count as int) =~= out.skip(count as int));
    }
}

/// What is available can be read without blocking: if there are as many bytes as are asked for, a
/// read ends as soon as it knows the time, with the oldest of them.
pub proof fn law_read_available(socket: SocketModel, out: Seq<u8>, timeout: u128, now: u128)
    requires
        0 < out.len() <= usize::MAX,
        out.len() <= socket.buf_read.len(),
        Want::Time(timeout).admits(Reply::Time(now)),
    ensures
        ({
            let len = out.len() as usize;
            let read = Read { len, count: 0, stage: ReadStage::Starting { timeout } };
            read.next(socket, out, Reply::Time(now)) == ReadModel {
                progress: Progress::Finish(Ok(len)),
                socket: SocketModel { buf_read: socket.buf_read.skip(len as int), ..socket },
                out: socket.buf_read.take(len as int),
            }
        }),
{
    let len = out.len() as usize;
    let read = Read { len, count: 0, stage: ReadStage::Starting { timeout } };
    let after = read.next(socket, out, Reply::Time(now));
    assert(after.out =~= socket.buf_read.take(len as int));
}

/// What is received is what is read: of the bytes that were in the read buffer, followed by those
/// that the background thread has received, a read hands over the oldest ones, unchanged and in
/// their order, as many as there are and as there is room for. If these are all that are asked for,
/// it ends at once.
pub proof fn law_received_is_read(
    socket: SocketModel,
    replies: Seq<Reply>,
    out: Seq<u8>,
    timeout: u128,
    now: u128,
)
    requires
        operation::admitted(reader::reading_loop(socket), replies),
        0 < out.len() <= usize::MAX,
        Want::Time(timeout).admits(Reply::Time(now)),
    ensures
        ({
            let len = out.len() as usize;
            let read = Read { len, count: 0, stage: ReadStage::Starting { timeout } };
            let filled = reader::socket_of(operation::run(reader::reading_loop(socket), replies));
            let after = read.next(filled, out, Reply::Time(now));
            let stream = socket.buf_read + reader::received(replies);
            let n = buffer::taken(stream, len as int);
            &&& after.out == stream.take(n) + out.skip(n)
            &&& after.socket.buf_read == stream.skip(n)
            &&& match after.progress {
                Progress::Call(next, _) => next.count == n && n < len,
                Progress::Finish(outcome) => n == len && outcome == Ok::<usize, BluetoothError>(
                    len,
                ),
            }
        }),
{
    reader::law_reader_delivers(socket, replies);
    let len = out.len() as usize;
    let read = Read { len, count: 0, stage: ReadStage::Starting { timeout } };
    let filled = reader::socket_of(operation::run(reader::reading_loop(socket), replies));
    let after = read.next(filled, out, Reply::Time(now));
    let n = buffer::taken(filled.buf_read, len as int);
    assert(after.out =~= filled.buf_read.take(n) + out.skip(n));
}

/// A step of a read: the bytes that have arrived since the last step, whether the background thread
/// has closed the Java socket since then, and the reply that the read takes.
pub struct ReadEvent {
    pub arrived: Seq<u8>,
    pub closed: bool,
    pub reply: Reply,
}

impl ReadModel {
    /// A read at its start.
    pub open spec fn start(socket: SocketModel, out: Seq<u8>) -> ReadModel {
        ReadModel {
            progress: if out.len() == 0 {
                Progress::Finish(Ok(0))
            } else {
                Progress::Call(
                    Read {
                        len: out.len() as usize,
                        count: 0,
                        stage: ReadStage::Starting { timeout: socket.read_timeout },
                    },
                    Command::Clock,
                )
            },
            socket,
            out,
        }
    }

    /// Whether the step can come next.
    pub open spec fn possible(self, event: ReadEvent) -> bool {
        &&& self.progress matches Progress::Call(read, _)
        &&& read.wanted().admits(event.reply)
    }

    /// The read after a step.
    pub open spec fn after(self, event: ReadEvent) -> ReadModel {
        let socket = SocketModel {
            buf_read: self.socket.buf_read + event.arrived,
            closed: self.socket.closed || event.closed,
            ..self.socket
        };
        match self.progress {
            Progress::Call(read, _) => read.next(socket, self.out, event.reply),
            Progress::Finish(_) => self,
        }
    }

    /// Whether the steps can come in this order.
    pub open spec fn all_possible(self, events: Seq<ReadEvent>) -> bool
        decreases events.len(),
    {
        events.len() > 0 ==> {
            &&& self.all_possible(events.drop_last())
            &&& self.after_all(events.drop_last()).possible(events.last())
        }
    }

    /// The read after the steps.
    pub open spec fn after_all(self, events: Seq<ReadEvent>) -> ReadModel
        decreases events.len(),
    {
        if events.len() == 0 {
            self
        } else {
            self.after_all(events.drop_last()).after(events.last())
        }
    }
}

/// All the bytes that arrive, in their order.
pub open spec fn arrivals(events: Seq<ReadEvent>) -> Seq<u8>
    decreases events.len(),
{
    if events.len() == 0 {
        Seq::empty()
    } else {
        arrivals(events.drop_last()) + events.last().arrived
    }
}

impl ReadModel {
    /// Whether a read that started with this socket and this `out` has handed over the front of
    /// the stream, and nothing else has changed: the first bytes of the stream are in `out` and
    /// the others are in the read buffer.
    pub open spec fn has_front(self, socket: SocketModel, out: Seq<u8>, stream: Seq<u8>) -> bool {
        let moved = stream.len() - self.socket.buf_read.len();
        &&& 0 <= moved <= out.len()
        &&& self.out == stream.take(moved) + out.skip(moved)
        &&& self.socket == SocketModel {
            buf_read: stream.skip(moved),
            closed: self.socket.closed,
            ..socket
        }
        &&& match self.progress {
            Progress::Call(read, _) => read.count == moved && read.unfinished() && read.len
                == out.len(),
            Progress::Finish(Ok(count)) => count == moved && (out.len() > 0 ==> count > 0),
            Progress::Finish(Err(error)) => error is TimedOut || error is NotConnected ==> moved
                == 0,
        }
    }
}

proof fn lemma_front(
    known: Seq<u8>,
    arrived: Seq<u8>,
    out: Seq<u8>,
    before: Seq<u8>,
    count: int,
    after: Seq<u8>,
    left: Seq<u8>,
    moved: int,
)
    requires
        0 <= count <= known.len(),
        count <= moved <= out.len(),
        before == known.take(count) + out.skip(count),
        after.len() == out.len(),
        after.take(moved) + left == before.take(count) + (known.skip(count) + arrived),
        after.skip(moved) == before.skip(moved),
    ensures
        moved == (known + arrived).len() - left.len(),
        after == (known + arrived).take(moved) + out.skip(moved),
        left == (known + arrived).skip(moved),
{
    let stream = known + arrived;
    assert(before.take(count) + (known.skip(count) + arrived) =~= stream);
    assert(stream.take(moved) =~= after.take(moved));
    assert(stream.skip(moved) =~= left);
    assert(before.skip(moved) =~= out.skip(moved));
    assert(after =~= after.take(moved) + after.skip(moved));
}

proof fn lemma_read_step(
    before: ReadModel,
    event: ReadEvent,
    socket: SocketModel,
    out: Seq<u8>,
    stream: Seq<u8>,
)
    requires
        before.has_front(socket, out, stream),
        before.possible(event),
    ensures
        before.after(event).has_front(socket, out, stream + event.arrived),
{
    let read = before.progress->Call_0;
    let found = SocketModel {
        buf_read: before.socket.buf_read + event.arrived,
        closed: before.socket.closed || event.closed,
        ..before.socket
    };
    let after = read.next(found, before.out, event.reply);
    assert(before.after(event) == after);
    assert(before.out.len() == out.len());
    law_read_keeps_the_stream(read, found, before.out, event.reply);
    law_read_outcome(read, found, before.out, event.reply);
    lemma_read_goes_on(read, found, before.out, event.reply);
    let moved = match after.progress {
        Progress::Call(next, _) => next.count,
        Progress::Finish(Ok(count)) => count,
        Progress::Finish(Err(_)) => read.count,
    };
    lemma_front(
        stream,
        event.arrived,
        out,
        before.out,
        read.count as int,
        after.out,
        after.socket.buf_read,
        moved as int,
    );
}

proof fn lemma_read_goes_on(read: Read, socket: SocketModel, out: Seq<u8>, reply: Reply)
    requires
        read.unfinished(),
        read.wanted().admits(reply),
        out.len() == read.len,
    ensures
        read.next(socket, out, reply).progress matches Progress::Call(next, _)
            ==> next.unfinished() && next.len == read.len,
{
}

/// A whole read, with bytes that arrive at any time while it lasts, hands over the front of the
/// stream. The stream is what was in the read buffer followed by what arrives; the first bytes of
/// it are in `out`, in their order, and the others are in the read buffer. The rest of `out` is
/// unchanged. While it lasts and when it succeeds, the read says how many bytes it has handed over.
/// When it times out or finds the socket disconnected, it has handed over none.
pub proof fn law_whole_read(socket: SocketModel, out: Seq<u8>, events: Seq<ReadEvent>)
    requires
        out.len() <= usize::MAX,
        ReadModel::start(socket, out).all_possible(events),
    ensures
        ReadModel::start(socket, out).after_all(events).has_front(
            socket,
            out,
            socket.buf_read + arrivals(events),
        ),
    decreases events.len(),
{
    let start = ReadModel::start(socket, out);
    let stream = socket.buf_read + arrivals(events);
    if events.len() == 0 {
        assert(stream =~= socket.buf_read);
        assert(out =~= stream.take(0) + out.skip(0));
        assert(stream.skip(0) =~= stream);
    } else {
        let known = socket.buf_read + arrivals(events.drop_last());
        law_whole_read(socket, out, events.drop_last());
        lemma_read_step(start.after_all(events.drop_last()), events.last(), socket, out, known);
        assert(known + events.last().arrived =~= stream);
    }
}

/// One of several reads: the timeout that is set for it, where its bytes go, its steps, and the
/// bytes that arrive between its end and the next read.
pub struct WholeRead {
    pub timeout: u128,
    pub out: Seq<u8>,
    pub events: Seq<ReadEvent>,
    pub arrived: Seq<u8>,
}

impl WholeRead {
    pub open spec fn start(self, socket: SocketModel) -> ReadModel {
        ReadModel::start(SocketModel { read_timeout: self.timeout, ..socket }, self.out)
    }

    pub open spec fn end(self, socket: SocketModel) -> ReadModel {
        self.start(socket).after_all(self.events)
    }

    /// Whether the read comes to an end. A read that ends because the connection status cannot be
    /// found out is left out if it had moved bytes by then, since it does not say how many.
    pub open spec fn ends(self, socket: SocketModel) -> bool {
        &&& self.out.len() <= usize::MAX
        &&& self.start(socket).all_possible(self.events)
        &&& match self.end(socket).progress {
            Progress::Call(..) => false,
            Progress::Finish(Ok(_)) => true,
            Progress::Finish(Err(error)) => error is TimedOut || error is NotConnected || self.end(
                socket,
            ).socket.buf_read == socket.buf_read + arrivals(self.events),
        }
    }

    /// How many bytes the read returns.
    pub open spec fn count(self, socket: SocketModel) -> nat {
        match self.end(socket).progress {
            Progress::Finish(Ok(count)) => count as nat,
            _ => 0,
        }
    }

    /// The bytes that the read returns.
    pub open spec fn handed_over(self, socket: SocketModel) -> Seq<u8> {
        self.end(socket).out.take(self.count(socket) as int)
    }

    /// The socket that the next read finds.
    pub open spec fn after(self, socket: SocketModel) -> SocketModel {
        let end = self.end(socket).socket;
        SocketModel { buf_read: end.buf_read + self.arrived, ..end }
    }
}

/// The socket after all the reads.
pub open spec fn after_reads(reads: Seq<WholeRead>, socket: SocketModel) -> SocketModel
    decreases reads.len(),
{
    if reads.len() == 0 {
        socket
    } else {
        reads.last().after(after_reads(reads.drop_last(), socket))
    }
}

/// Whether the reads end, one after the other.
pub open spec fn all_reads_end(reads: Seq<WholeRead>, socket: SocketModel) -> bool
    decreases reads.len(),
{
    reads.len() > 0 ==> {
        &&& all_reads_end(reads.drop_last(), socket)
        &&& reads.last().ends(after_reads(reads.drop_last(), socket))
    }
}

/// The bytes that the reads return, one after the other.
pub open spec fn all_handed_over(reads: Seq<WholeRead>, socket: SocketModel) -> Seq<u8>
    decreases reads.len(),
{
    if reads.len() == 0 {
        Seq::empty()
    } else {
        all_handed_over(reads.drop_last(), socket) + reads.last().handed_over(
            after_reads(reads.drop_last(), socket),
        )
    }
}

/// The sum of the numbers that the reads return.
pub open spec fn total_read(reads: Seq<WholeRead>, socket: SocketModel) -> nat
    decreases reads.len(),
{
    if reads.len() == 0 {
        0
    } else {
        total_read(reads.drop_last(), socket) + reads.last().count(
            after_reads(reads.drop_last(), socket),
        )
    }
}

/// All the bytes that arrive while the reads last and after each of them, in their order.
pub open spec fn all_arrivals(reads: Seq<WholeRead>) -> Seq<u8>
    decreases reads.len(),
{
    if reads.len() == 0 {
        Seq::empty()
    } else {
        all_arrivals(reads.drop_last()) + arrivals(reads.last().events) + reads.last().arrived
    }
}

proof fn lemma_read_hands_over(read: WholeRead, socket: SocketModel)
    requires
        read.ends(socket),
    ensures
        read.handed_over(socket) + read.end(socket).socket.buf_read == socket.buf_read + arrivals(
            read.events,
        ),
        read.handed_over(socket).len() == read.count(socket),
{
    let timed = SocketModel { read_timeout: read.timeout, ..socket };
    let stream = socket.buf_read + arrivals(read.events);
    let end = read.end(socket);
    let moved = stream.len() - end.socket.buf_read.len();
    law_whole_read(timed, read.out, read.events);
    assert(read.count(socket) == moved);
    assert(read.handed_over(socket) =~= stream.take(moved));
    assert(stream.take(moved) + stream.skip(moved) =~= stream);
}

/// Over any sequence of reads, with bytes that arrive during them and between them, nothing is
/// lost, repeated or reordered: what the reads return, followed by what is left in the read buffer,
/// is what was in the read buffer, followed by what arrived. So the number of bytes that are
/// available is what it was, and what arrived, less what the reads returned.
pub proof fn law_reads_hand_over_the_stream(reads: Seq<WholeRead>, socket: SocketModel)
    requires
        all_reads_end(reads, socket),
    ensures
        all_handed_over(reads, socket) + after_reads(reads, socket).buf_read == socket.buf_read
            + all_arrivals(reads),
        after_reads(reads, socket).buf_read.len() == socket.buf_read.len() + all_arrivals(
            reads,
        ).len() - total_read(reads, socket),
    decreases reads.len(),
{
    if reads.len() == 0 {
        assert(all_handed_over(reads, socket) + socket.buf_read =~= socket.buf_read + all_arrivals(
            reads,
        ));
    } else {
        let before = after_reads(reads.drop_last(), socket);
        let read = reads.last();
        law_reads_hand_over_the_stream(reads.drop_last(), socket);
        lemma_read_hands_over(read, before);
        let earlier = all_handed_over(reads.drop_last(), socket);
        let left = read.end(before).socket.buf_read;
        assert(all_handed_over(reads, socket) + after_reads(reads, socket).buf_read =~= earlier + (
        read.handed_over(before) + left) + read.arrived);
        assert(earlier + (before.buf_read + arrivals(read.events)) + read.arrived =~= (earlier
            + before.buf_read) + (arrivals(read.events) + read.arrived));
        assert(socket.buf_read + all_arrivals(reads) =~= (socket.buf_read + all_arrivals(
            reads.drop_last(),
        )) + (arrivals(read.events) + read.arrived));
    }
}

/// How a read can end. It ends well only with at least one byte and at most as many as were asked
/// for. It times out only after its deadline, and finds the socket disconnected only when the
/// socket says so, both only without a byte. Any other error comes from asking whether the
/// socket is connected.
pub proof fn law_read_outcome(read: Read, socket: SocketModel, out: Seq<u8>, reply: Reply)
    requires
        read.unfinished(),
        read.wanted().admits(reply),
    ensures
        read.next(socket, out, reply).progress matches Progress::Finish(outcome) ==> match outcome {
            Ok(count) => 0 < count <= read.len,
            Err(BluetoothError::TimedOut) => {
                &&& read.count == 0
                &&& read.stage matches ReadStage::Timing { deadline }
                &&& reply matches Reply::Time(now)
                &&& deadline < now
            },
            Err(BluetoothError::NotConnected) => {
                &&& read.count == 0
                &&& read.stage matches ReadStage::Checking { query, .. }
                &&& query.next(reply) == Progress::<Query, Result<bool, BluetoothError>>::Finish(
                    Ok(false),
                )
            },
            Err(error) => read.stage matches ReadStage::Checking { query, .. } && query.next(reply)
                == Progress::<Query, Result<bool, BluetoothError>>::Finish(Err(error)),
        },
{
}

/// A read keeps to its time. The deadline is the time at which it started and the timeout after
/// that, and stays. It sleeps only until the deadline, and for a short time at once.
pub proof fn law_read_keeps_to_its_time(
    read: Read,
    socket: SocketModel,
    out: Seq<u8>,
    reply: Reply,
)
    requires
        read.unfinished(),
        read.wanted().admits(reply),
    ensures
        read.next(socket, out, reply).progress matches Progress::Call(next, command) ==> {
            &&& match read.stage {
                ReadStage::Starting { timeout } => reply matches Reply::Time(now) && deadline_of(
                    next,
                ) == Some((now + timeout) as u128),
                _ => deadline_of(next) == deadline_of(read),
            }
            &&& command matches Command::Sleep(nap) ==> {
                &&& nap <= NAP
                &&& reply matches Reply::Time(now)
                &&& deadline_of(read) matches Some(deadline)
                &&& now + nap <= deadline
            }
        },
{
}

/// With a timeout of zero, which is the default, a read does not block: when it has found that
/// bytes are missing and the clock has not gone back, it does not sleep, or only for no time at
/// all; and it ends as soon as the clock has gone on.
pub proof fn law_read_without_timeout(
    read: Read,
    socket: SocketModel,
    out: Seq<u8>,
    started: u128,
    now: u128,
)
    requires
        read.unfinished(),
        read.stage == (ReadStage::Timing { deadline: started }),
        started <= now,
    ensures
        ({
            let after = read.next(socket, out, Reply::Time(now));
            &&& started < now ==> after.progress is Finish
            &&& after.progress matches Progress::Call(_, command) ==> command == Command::Sleep(0)
        }),
{
}

/// How the output stream is flushed: the thread is attached, and `flush` of the stream is called. A
/// failure of either command is explained.
pub proof fn law_flush_conversation(socket: SocketModel)
    ensures
        ({
            let replies = seq![Reply::Done, Reply::Done];
            &&& operation::leads_to(
                socket.flushing(),
                replies,
                seq![
                    Command::AttachVm,
                    Command::CallFlush {
                        stream: socket.output_stream,
                        method: socket.jmethod_flush,
                    },
                ],
                Progress::Finish(Ok(())),
            )
            &&& forall|k: int|
                0 <= k < 2 ==> operation::explains_failure_at(
                    socket.flushing(),
                    #[trigger] replies.take(k),
                    operation::just_the_error::<()>(),
                )
        }),
{
    let stream = socket.output_stream;
    let method = socket.jmethod_flush;
    let start = socket.flushing();
    let replies = seq![Reply::Done, Reply::Done];
    let asked = seq![Command::AttachVm, Command::CallFlush { stream, method }];
    operation::lemma_stage_walk(start, replies, asked, 0, FlushStage::Attaching { stream, method });
    operation::lemma_stage_walk(start, replies, asked, 1, FlushStage::Flushing);
}

/// One step of a write before the bytes are sent, and the failure that can come in its place.
proof fn lemma_write_walk(
    start: Progress<Together<Write>, (Result<usize, BluetoothError>, SocketModel)>,
    replies: Seq<Reply>,
    asked: Seq<Command>,
    k: int,
    op: Write,
    socket: SocketModel,
)
    requires
        0 <= k < replies.len(),
        k < asked.len(),
        k == 0 ==> start == Progress::<
            Together<Write>,
            (Result<usize, BluetoothError>, SocketModel),
        >::Call(Together { op, socket }, asked[0]),
        k > 0 ==> operation::leads_to(
            start,
            replies.take(k),
            asked.take(k),
            Progress::Call(Together { op, socket }, asked[k]),
        ),
        op.socket_wanted().admits(replies[k]),
        op is Attaching || op is Measuring || op is Growing || op is Keeping || op is Filling,
    ensures
        operation::explains_failure_at(
            start,
            replies.take(k),
            socket::error_leaving::<usize>(socket),
        ),
        operation::leads_to(
            start,
            replies.take(k + 1),
            asked.take(k + 1),
            Together { op, socket }.next(replies[k]),
        ),
        k + 1 == replies.len() && k + 1 == asked.len() ==> operation::leads_to(
            start,
            replies,
            asked,
            Together { op, socket }.next(replies[k]),
        ),
{
    let together = Together { op, socket };
    let hold = |progress: Progress<Jerr, BluetoothError>|
        Together::of((Write::of_jerr(progress), socket));
    operation::lemma_walk(start, replies, asked, k, together);
    operation::lemma_explains_failure(
        start,
        replies.take(k),
        asked.take(k),
        together,
        asked[k],
        hold,
        socket::error_leaving::<usize>(socket),
    );
}

/// Whether a write that has come so far, by these replies to these commands, sends the bytes in the
/// array of the socket, and ends with their number if the stream takes them. If the stream fails,
/// the connection status is asked for, and the error is what was found out about the failure if the
/// socket is connected, and that it is not connected otherwise.
pub open spec fn sends(
    start: Progress<Together<Write>, (Result<usize, BluetoothError>, SocketModel)>,
    replies: Seq<Reply>,
    asked: Seq<Command>,
    count: usize,
    socket: SocketModel,
) -> bool {
    let call = Command::CallWrite {
        stream: socket.output_stream,
        method: socket.jmethod_write,
        array: socket.array_write,
        count,
    };
    &&& operation::leads_to(
        start,
        replies.push(Reply::Done),
        asked.push(call),
        Progress::Finish((Ok(count), socket)),
    )
    &&& forall|
        failure: JniError,
        checked: Seq<Reply>,
        connected: Result<bool, BluetoothError>,
        explained: Seq<Reply>,
        error: BluetoothError,
    |
        #[trigger] operation::ends_with(socket.asking_connected(), checked, connected)
            && #[trigger] operation::ends_with(error::explaining(failure), explained, error)
            ==> {
            let more = operation::answered(socket.asking_connected(), checked);
            match connected {
                Ok(true) => operation::leads_to(
                    start,
                    replies.push(Reply::Failed(failure)) + checked + explained,
                    asked.push(call) + more + operation::answered(
                        error::explaining(failure),
                        explained,
                    ),
                    Progress::Finish((Err(error), socket)),
                ),
                _ => operation::leads_to(
                    start,
                    replies.push(Reply::Failed(failure)) + checked,
                    asked.push(call) + more,
                    Progress::Finish((Err(BluetoothError::NotConnected), socket)),
                ),
            }
        }
}

proof fn lemma_sends(
    start: Progress<Together<Write>, (Result<usize, BluetoothError>, SocketModel)>,
    replies: Seq<Reply>,
    asked: Seq<Command>,
    count: usize,
    socket: SocketModel,
)
    requires
        operation::leads_to(
            start,
            replies,
            asked,
            Progress::Call(
                Together { op: Write::Sending { count }, socket },
                Command::CallWrite {
                    stream: socket.output_stream,
                    method: socket.jmethod_write,
                    array: socket.array_write,
                    count,
                },
            ),
        ),
    ensures
        sends(start, replies, asked, count, socket),
{
    let call = Command::CallWrite {
        stream: socket.output_stream,
        method: socket.jmethod_write,
        array: socket.array_write,
        count,
    };
    let op = Together { op: Write::Sending { count }, socket };
    operation::lemma_leads_on(start, replies, asked, op, call, Reply::Done);
    assert forall|
        failure: JniError,
        checked: Seq<Reply>,
        connected: Result<bool, BluetoothError>,
        explained: Seq<Reply>,
        error: BluetoothError,
    |
        #[trigger] operation::ends_with(socket.asking_connected(), checked, connected)
            && #[trigger] operation::ends_with(
            error::explaining(failure),
            explained,
            error,
        ) implies {
        let more = operation::answered(socket.asking_connected(), checked);
        match connected {
            Ok(true) => operation::leads_to(
                start,
                replies.push(Reply::Failed(failure)) + checked + explained,
                asked.push(call) + more + operation::answered(
                    error::explaining(failure),
                    explained,
                ),
                Progress::Finish((Err(error), socket)),
            ),
            _ => operation::leads_to(
                start,
                replies.push(Reply::Failed(failure)) + checked,
                asked.push(call) + more,
                Progress::Finish((Err(BluetoothError::NotConnected), socket)),
            ),
        }
    } by {
        let asking = socket.asking_connected();
        let hold_query = |progress: Progress<Query, Result<bool, BluetoothError>>|
            Together::of((Write::of_query(failure, progress), socket));
        let hold_jerr = |progress: Progress<Jerr, BluetoothError>|
            Together::of((Write::of_jerr(progress), socket));
        operation::lemma_leads_on(start, replies, asked, op, call, Reply::Failed(failure));
        operation::lemma_held_leads(hold_query, asking, checked, connected);
        operation::lemma_leads_further(
            start,
            replies.push(Reply::Failed(failure)),
            asked.push(call),
            hold_query(asking),
            checked,
            operation::answered(asking, checked),
            hold_query(Progress::Finish(connected)),
        );
        if connected == Ok::<bool, BluetoothError>(true) {
            operation::lemma_held_leads(hold_jerr, error::explaining(failure), explained, error);
            operation::lemma_leads_further(
                start,
                replies.push(Reply::Failed(failure)) + checked,
                asked.push(call) + operation::answered(asking, checked),
                hold_jerr(error::explaining(failure)),
                explained,
                operation::answered(error::explaining(failure), explained),
                Progress::Finish((Err(error), socket)),
            );
        }
    }
}

/// How bytes are written. The length of the array at hand is asked for. If it is long enough, the
/// bytes are copied to it; otherwise an array is made of them, which is kept in its place. Then the
/// stream is told to write as many bytes of the array as were given. A failure before that is
/// explained and leaves the socket as it is. Nothing is done about no bytes.
pub proof fn law_write_conversation(
    bytes: Vec<u8>,
    socket: SocketModel,
    len: i32,
    local: ObjectId,
    array_write: ObjectId,
)
    ensures
        bytes@.len() == 0 ==> write_started(bytes, socket) == Progress::<
            Together<Write>,
            (Result<usize, BluetoothError>, SocketModel),
        >::Finish((Ok(0), socket)),
        bytes@.len() > 0 ==> {
            let start = write_started(bytes, socket);
            let count = bytes@.len() as usize;
            if 0 <= len < bytes@.len() {
                let replies = seq![
                    Reply::Done,
                    Reply::Int(len),
                    Reply::Object(local),
                    Reply::Object(array_write),
                ];
                let asked = seq![
                    Command::AttachVm,
                    Command::ArrayLength(socket.array_write),
                    Command::ByteArrayFrom(bytes),
                    Command::NewGlobalRef { object: local, checked: true },
                ];
                &&& sends(start, replies, asked, count, SocketModel { array_write, ..socket })
                &&& forall|k: int|
                    0 <= k < 4 ==> operation::explains_failure_at(
                        start,
                        #[trigger] replies.take(k),
                        socket::error_leaving::<usize>(socket),
                    )
            } else {
                let replies = seq![Reply::Done, Reply::Int(len), Reply::Done];
                let asked = seq![
                    Command::AttachVm,
                    Command::ArrayLength(socket.array_write),
                    Command::SetRegion { array: socket.array_write, bytes },
                ];
                &&& sends(start, replies, asked, count, socket)
                &&& forall|k: int|
                    0 <= k < 3 ==> operation::explains_failure_at(
                        start,
                        #[trigger] replies.take(k),
                        socket::error_leaving::<usize>(socket),
                    )
            }
        },
{
    if bytes@.len() > 0 {
        let start = write_started(bytes, socket);
        let count = bytes@.len() as usize;
        let attaching = Write::Attaching { bytes };
        let measuring = Write::Measuring { bytes };
        if 0 <= len < bytes@.len() {
            let replies = seq![
                Reply::Done,
                Reply::Int(len),
                Reply::Object(local),
                Reply::Object(array_write),
            ];
            let asked = seq![
                Command::AttachVm,
                Command::ArrayLength(socket.array_write),
                Command::ByteArrayFrom(bytes),
                Command::NewGlobalRef { object: local, checked: true },
            ];
            lemma_write_walk(start, replies, asked, 0, attaching, socket);
            lemma_write_walk(start, replies, asked, 1, measuring, socket);
            lemma_write_walk(start, replies, asked, 2, Write::Growing { count }, socket);
            lemma_write_walk(start, replies, asked, 3, Write::Keeping { count }, socket);
            lemma_sends(start, replies, asked, count, SocketModel { array_write, ..socket });
        } else {
            let replies = seq![Reply::Done, Reply::Int(len), Reply::Done];
            let asked = seq![
                Command::AttachVm,
                Command::ArrayLength(socket.array_write),
                Command::SetRegion { array: socket.array_write, bytes },
            ];
            lemma_write_walk(start, replies, asked, 0, attaching, socket);
            lemma_write_walk(start, replies, asked, 1, measuring, socket);
            lemma_write_walk(start, replies, asked, 2, Write::Filling { count }, socket);
            lemma_sends(start, replies, asked, count, socket);
        }
    }
}

/// How a read starts: with nothing done about no bytes, and otherwise by asking for the time, with
/// the timeout that is set, for as many bytes as there is room for.
pub proof fn law_read_starts(socket: BluetoothSocket, len: usize)
    ensures
        len == 0 ==> socket.reading(len) == Progress::<Read, Result<usize, BluetoothError>>::Finish(
            Ok(0),
        ),
        len > 0 ==> socket.reading(len) == Progress::<Read, Result<usize, BluetoothError>>::Call(
            Read { len, count: 0, stage: ReadStage::Starting { timeout: socket.read_timeout } },
            Command::Clock,
        ),
{
}

/// A read looks for bytes when it has learned the time at which it starts, and after each nap. It
/// takes as many as it still needs, or all that are there if they are fewer: the oldest ones, to
/// where it had come. If it has got all that it needs, it ends with their number. Otherwise it asks
/// for the connection status of the Java socket.
pub proof fn law_read_takes_what_is_there(
    read: Read,
    socket: SocketModel,
    out: Seq<u8>,
    reply: Reply,
)
    requires
        read.unfinished(),
        read.wanted().admits(reply),
        out.len() == read.len,
        read.stage is Starting || read.stage is Sleeping,
    ensures
        ({
            let after = read.next(socket, out, reply);
            let missing = read.len - read.count;
            let n = if socket.buf_read.len() < missing {
                socket.buf_read.len() as int
            } else {
                missing
            };
            let deadline = match (read.stage, reply) {
                (ReadStage::Starting { timeout }, Reply::Time(now)) => now + timeout,
                (ReadStage::Sleeping { deadline }, _) => deadline as int,
                _ => 0,
            };
            &&& after.out == out.take(read.count as int) + socket.buf_read.take(n) + out.skip(
                read.count + n,
            )
            &&& after.socket == SocketModel { buf_read: socket.buf_read.skip(n), ..socket }
            &&& n == missing ==> after.progress == Progress::<
                Read,
                Result<usize, BluetoothError>,
            >::Finish(Ok(read.len))
            &&& n < missing ==> after.progress == Progress::<
                Read,
                Result<usize, BluetoothError>,
            >::Call(
                Read {
                    len: read.len,
                    count: (read.count + n) as usize,
                    stage: ReadStage::Checking {
                        deadline: deadline as u128,
                        query: Explained::Running(
                            QueryStage::Attaching {
                                target: Target::Object(socket.internal),
                                method: JavaMethod::IsConnected,
                            },
                        ),
                    },
                },
                Command::AttachVm,
            )
        }),
{
}

/// The connection status decides whether a read goes on, however long it is. If the socket is
/// disconnected, the read ends at once: with the bytes that it has got, or, if it has none, because
/// the socket is not connected. If it is connected, the read asks for the time. If the status
/// cannot be found out, that is the error. Meanwhile the socket and the bytes stay as they are.
pub proof fn law_read_follows_the_status(
    read: Read,
    deadline: u128,
    query: Query,
    socket: SocketModel,
    out: Seq<u8>,
    reply: Reply,
)
    requires
        read.unfinished(),
        read.stage == (ReadStage::Checking { deadline, query }),
        query.wanted().admits(reply),
    ensures
        ({
            let after = read.next(socket, out, reply);
            &&& after.socket == socket
            &&& after.out == out
            &&& match query.next(reply) {
                Progress::Call(next, command) => after.progress == Progress::<
                    Read,
                    Result<usize, BluetoothError>,
                >::Call(
                    Read { stage: ReadStage::Checking { deadline, query: next }, ..read },
                    command,
                ),
                Progress::Finish(Ok(true)) => after.progress == Progress::<
                    Read,
                    Result<usize, BluetoothError>,
                >::Call(Read { stage: ReadStage::Timing { deadline }, ..read }, Command::Clock),
                Progress::Finish(Ok(false)) => after.progress == Progress::<
                    Read,
                    Result<usize, BluetoothError>,
                >::Finish(
                    if read.count > 0 {
                        Ok(read.count)
                    } else {
                        Err(BluetoothError::NotConnected)
                    },
                ),
                Progress::Finish(Err(error)) => after.progress == Progress::<
                    Read,
                    Result<usize, BluetoothError>,
                >::Finish(Err(error)),
            }
        }),
{
}

/// The clock decides how long a read goes on. Until the deadline it sleeps, for a tenth of a second
/// or until the deadline, whichever is sooner. After the deadline it ends: with the bytes that it
/// has got, or, if it has none, because its time is over.
pub proof fn law_read_follows_the_clock(
    read: Read,
    deadline: u128,
    socket: SocketModel,
    out: Seq<u8>,
    now: u128,
)
    requires
        read.unfinished(),
        read.stage == (ReadStage::Timing { deadline }),
    ensures
        ({
            let after = read.next(socket, out, Reply::Time(now));
            &&& after.socket == socket
            &&& after.out == out
            &&& now > deadline ==> after.progress == Progress::<
                Read,
                Result<usize, BluetoothError>,
            >::Finish(
                if read.count > 0 {
                    Ok(read.count)
                } else {
                    Err(BluetoothError::TimedOut)
                },
            )
            &&& now <= deadline ==> {
                &&& after.progress matches Progress::Call(next, Command::Sleep(nap))
                &&& next == Read { stage: ReadStage::Sleeping { deadline }, ..read }
                &&& nap == 100_000_000 || nap == deadline - now
                &&& nap <= 100_000_000
                &&& now + nap <= deadline
            }
        }),
{
}

/// Which replies a read can take: at its start any time that leaves room for the timeout, later any
/// time that the clock can tell, and the end of a nap.
pub proof fn law_read_wants(read: Read, now: u128)
    ensures
        match read.stage {
            ReadStage::Starting { timeout } => read.wanted().admits(Reply::Time(now)) <==> now
                + timeout <= 18_446_744_073_709_551_615_999_999_999,
            ReadStage::Checking { query, .. } => read.wanted() == query.wanted(),
            ReadStage::Timing { .. } => read.wanted().admits(Reply::Time(now)) <==> now
                <= 18_446_744_073_709_551_615_999_999_999,
            ReadStage::Sleeping { .. } => read.wanted().admits(Reply::Done),
        },
{
}

} // verus!
