//! Connecting a socket and closing it.

use crate::adapter;
use crate::adapter::{bluetooth_adapter, FindAdapter};
use crate::error;
use crate::error::{jerr, BluetoothError, Jerr};
use crate::java::{Command, JavaMethod, JniError, ObjectId, Reply, Target, ThreadId, Want};
use crate::operation;
use crate::operation::{Operation, Progress, Protocol};
use crate::query::Query;
use crate::socket;
use crate::socket::{BluetoothSocket, SocketModel, SocketOperation, SocketProtocol, Together};
use crate::stream::Flush;
use vstd::prelude::*;

verus! {

/// Connecting a socket.
#[derive(Debug)]
pub enum Connect {
    /// Asking whether the socket is connected already.
    Checking(Query),
    Finding(FindAdapter),
    Attaching { adapter: ObjectId },
    /// Cancelling the discovery of devices, which would slow down the connection.
    Cancelling,
    Connecting,
    /// Asking whether the socket is connected now.
    Rechecking(Query),
    /// Starting the background thread.
    Spawning,
    Explaining(Jerr),
}

impl Connect {
    pub open spec fn of_check(progress: Progress<Query, Result<bool, BluetoothError>>) -> Progress<
        Self,
        Result<(), BluetoothError>,
    > {
        match progress {
            Progress::Call(query, command) => Progress::Call(Connect::Checking(query), command),
            Progress::Finish(Ok(true)) => Progress::Finish(Ok(())),
            Progress::Finish(Ok(false)) => Self::of_find(adapter::finding_adapter()),
            Progress::Finish(Err(error)) => Progress::Finish(Err(error)),
        }
    }

    pub open spec fn of_find(
        progress: Progress<FindAdapter, Result<ObjectId, BluetoothError>>,
    ) -> Progress<Self, Result<(), BluetoothError>> {
        match progress {
            Progress::Call(find, command) => Progress::Call(Connect::Finding(find), command),
            Progress::Finish(Ok(adapter)) => Progress::Call(
                Connect::Attaching { adapter },
                Command::AttachVm,
            ),
            Progress::Finish(Err(error)) => Progress::Finish(Err(error)),
        }
    }

    pub open spec fn of_recheck(
        progress: Progress<Query, Result<bool, BluetoothError>>,
    ) -> Progress<Self, Result<(), BluetoothError>> {
        match progress {
            Progress::Call(query, command) => Progress::Call(Connect::Rechecking(query), command),
            Progress::Finish(Ok(true)) => Progress::Call(Connect::Spawning, Command::SpawnReader),
            Progress::Finish(Ok(false)) => Progress::Finish(Err(BluetoothError::NotConnected)),
            Progress::Finish(Err(error)) => Progress::Finish(Err(error)),
        }
    }

    pub open spec fn of_jerr(progress: Progress<Jerr, BluetoothError>) -> Progress<
        Self,
        Result<(), BluetoothError>,
    > {
        match progress {
            Progress::Call(jerr, command) => Progress::Call(Connect::Explaining(jerr), command),
            Progress::Finish(error) => Progress::Finish(Err(error)),
        }
    }

    pub(crate) fn from_check(progress: Progress<Query, Result<bool, BluetoothError>>) -> (checked:
        Progress<Self, Result<(), BluetoothError>>)
        ensures
            checked == Self::of_check(progress),
    {
        match progress {
            Progress::Call(query, command) => Progress::Call(Connect::Checking(query), command),
            Progress::Finish(Ok(true)) => Progress::Finish(Ok(())),
            Progress::Finish(Ok(false)) => Self::from_find(bluetooth_adapter()),
            Progress::Finish(Err(error)) => Progress::Finish(Err(error)),
        }
    }

    fn from_find(progress: Progress<FindAdapter, Result<ObjectId, BluetoothError>>) -> (found:
        Progress<Self, Result<(), BluetoothError>>)
        ensures
            found == Self::of_find(progress),
    {
        match progress {
            Progress::Call(find, command) => Progress::Call(Connect::Finding(find), command),
            Progress::Finish(Ok(adapter)) => Progress::Call(
                Connect::Attaching { adapter },
                Command::AttachVm,
            ),
            Progress::Finish(Err(error)) => Progress::Finish(Err(error)),
        }
    }

    fn from_recheck(progress: Progress<Query, Result<bool, BluetoothError>>) -> (checked: Progress<
        Self,
        Result<(), BluetoothError>,
    >)
        ensures
            checked == Self::of_recheck(progress),
    {
        match progress {
            Progress::Call(query, command) => Progress::Call(Connect::Rechecking(query), command),
            Progress::Finish(Ok(true)) => Progress::Call(Connect::Spawning, Command::SpawnReader),
            Progress::Finish(Ok(false)) => Progress::Finish(Err(BluetoothError::NotConnected)),
            Progress::Finish(Err(error)) => Progress::Finish(Err(error)),
        }
    }

    fn from_jerr(progress: Progress<Jerr, BluetoothError>) -> (explained: Progress<
        Self,
        Result<(), BluetoothError>,
    >)
        ensures
            explained == Self::of_jerr(progress),
    {
        match progress {
            Progress::Call(jerr, command) => Progress::Call(Connect::Explaining(jerr), command),
            Progress::Finish(error) => Progress::Finish(Err(error)),
        }
    }
}

impl SocketProtocol for Connect {
    type Outcome = Result<(), BluetoothError>;

    open spec fn socket_wanted(self) -> Want {
        match self {
            Connect::Checking(query) => query.wanted(),
            Connect::Finding(find) => find.wanted(),
            Connect::Attaching { .. } => Want::Attempt,
            Connect::Cancelling => Want::Attempt,
            Connect::Connecting => Want::Attempt,
            Connect::Rechecking(query) => query.wanted(),
            Connect::Spawning => Want::Thread,
            Connect::Explaining(jerr) => jerr.wanted(),
        }
    }

    open spec fn socket_next(self, socket: SocketModel, reply: Reply) -> (
        Progress<Self, Result<(), BluetoothError>>,
        SocketModel,
    ) {
        match (self, reply) {
            (Connect::Checking(query), _) => (Self::of_check(query.next(reply)), socket),
            (Connect::Finding(find), _) => (Self::of_find(find.next(reply)), socket),
            (Connect::Attaching { adapter }, Reply::Done) => (
                Progress::Call(
                    Connect::Cancelling,
                    Command::CallVoid {
                        target: Target::Object(adapter),
                        method: JavaMethod::CancelDiscovery,
                        remember: true,
                    },
                ),
                socket,
            ),
            (Connect::Cancelling, _) => (
                Progress::Call(
                    Connect::Connecting,
                    Command::CallVoid {
                        target: Target::Object(socket.internal),
                        method: JavaMethod::Connect,
                        remember: true,
                    },
                ),
                socket,
            ),
            (Connect::Connecting, Reply::Done) => (
                Self::of_recheck(socket.asking_connected()),
                socket,
            ),
            (Connect::Rechecking(query), _) => (Self::of_recheck(query.next(reply)), socket),
            (Connect::Spawning, Reply::Thread(thread)) => (
                Progress::Finish(Ok(())),
                SocketModel { thread_read: Some(thread), ..socket },
            ),
            (Connect::Explaining(jerr), _) => (Self::of_jerr(jerr.next(reply)), socket),
            (_, Reply::Failed(failure)) => (Self::of_jerr(error::explaining(failure)), socket),
            _ => arbitrary(),
        }
    }
}

impl SocketOperation for Connect {
    fn want(&self) -> (want: Want) {
        match self {
            Connect::Checking(query) => query.want(),
            Connect::Finding(find) => find.want(),
            Connect::Attaching { .. } => Want::Attempt,
            Connect::Cancelling => Want::Attempt,
            Connect::Connecting => Want::Attempt,
            Connect::Rechecking(query) => query.want(),
            Connect::Spawning => Want::Thread,
            Connect::Explaining(jerr) => jerr.want(),
        }
    }

    fn step(self, socket: &mut BluetoothSocket, reply: Reply) -> (progress: Progress<
        Self,
        Result<(), BluetoothError>,
    >) {
        match (self, reply) {
            (Connect::Checking(query), reply) => Self::from_check(query.step(reply)),
            (Connect::Finding(find), reply) => Self::from_find(find.step(reply)),
            (Connect::Attaching { adapter }, Reply::Done) => Progress::Call(
                Connect::Cancelling,
                Command::CallVoid {
                    target: Target::Object(adapter),
                    method: JavaMethod::CancelDiscovery,
                    remember: true,
                },
            ),
            (Connect::Cancelling, _) => Progress::Call(
                Connect::Connecting,
                Command::CallVoid {
                    target: Target::Object(socket.internal),
                    method: JavaMethod::Connect,
                    remember: true,
                },
            ),
            (Connect::Connecting, Reply::Done) => Self::from_recheck(socket.is_connected()),
            (Connect::Rechecking(query), reply) => Self::from_recheck(query.step(reply)),
            (Connect::Spawning, Reply::Thread(thread)) => {
                socket.thread_read = Some(thread);
                Progress::Finish(Ok(()))
            },
            (Connect::Explaining(jerr), reply) => Self::from_jerr(jerr.step(reply)),
            (_, Reply::Failed(failure)) => Self::from_jerr(jerr(failure)),
            _ => vstd::pervasive::unreached(),
        }
    }
}

/// Closing a socket.
#[derive(Debug)]
pub enum Close {
    /// Asking whether the socket is connected.
    Checking(Query),
    /// Flushing the output stream. Whether that succeeds makes no difference.
    Flushing(Flush),
    Attaching,
    Closing,
    /// Waiting for the background thread.
    Joining,
    Explaining(Jerr),
}

impl Close {
    pub open spec fn of_check(
        socket: SocketModel,
        progress: Progress<Query, Result<bool, BluetoothError>>,
    ) -> Progress<Self, Result<(), BluetoothError>> {
        match progress {
            Progress::Call(query, command) => Progress::Call(Close::Checking(query), command),
            Progress::Finish(Ok(true)) => Self::of_flush(socket.flushing()),
            Progress::Finish(Ok(false)) => if socket.closed {
                Progress::Finish(Ok(()))
            } else {
                Progress::Call(Close::Attaching, Command::AttachVm)
            },
            Progress::Finish(Err(error)) => Progress::Finish(Err(error)),
        }
    }

    pub open spec fn of_flush(progress: Progress<Flush, Result<(), BluetoothError>>) -> Progress<
        Self,
        Result<(), BluetoothError>,
    > {
        match progress {
            Progress::Call(flush, command) => Progress::Call(Close::Flushing(flush), command),
            Progress::Finish(_) => Progress::Call(Close::Attaching, Command::AttachVm),
        }
    }

    pub open spec fn of_jerr(progress: Progress<Jerr, BluetoothError>) -> Progress<
        Self,
        Result<(), BluetoothError>,
    > {
        match progress {
            Progress::Call(jerr, command) => Progress::Call(Close::Explaining(jerr), command),
            Progress::Finish(error) => Progress::Finish(Err(error)),
        }
    }

    pub(crate) fn from_check(
        socket: &BluetoothSocket,
        progress: Progress<Query, Result<bool, BluetoothError>>,
    ) -> (checked: Progress<Self, Result<(), BluetoothError>>)
        ensures
            checked == Self::of_check(socket@, progress),
    {
        match progress {
            Progress::Call(query, command) => Progress::Call(Close::Checking(query), command),
            Progress::Finish(Ok(true)) => Self::from_flush(socket.flush()),
            Progress::Finish(Ok(false)) => if socket.closed {
                Progress::Finish(Ok(()))
            } else {
                Progress::Call(Close::Attaching, Command::AttachVm)
            },
            Progress::Finish(Err(error)) => Progress::Finish(Err(error)),
        }
    }

    fn from_flush(progress: Progress<Flush, Result<(), BluetoothError>>) -> (flushed: Progress<
        Self,
        Result<(), BluetoothError>,
    >)
        ensures
            flushed == Self::of_flush(progress),
    {
        match progress {
            Progress::Call(flush, command) => Progress::Call(Close::Flushing(flush), command),
            Progress::Finish(_) => Progress::Call(Close::Attaching, Command::AttachVm),
        }
    }

    fn from_jerr(progress: Progress<Jerr, BluetoothError>) -> (explained: Progress<
        Self,
        Result<(), BluetoothError>,
    >)
        ensures
            explained == Self::of_jerr(progress),
    {
        match progress {
            Progress::Call(jerr, command) => Progress::Call(Close::Explaining(jerr), command),
            Progress::Finish(error) => Progress::Finish(Err(error)),
        }
    }
}

impl SocketProtocol for Close {
    type Outcome = Result<(), BluetoothError>;

    open spec fn socket_wanted(self) -> Want {
        match self {
            Close::Checking(query) => query.wanted(),
            Close::Flushing(flush) => flush.wanted(),
            Close::Attaching => Want::Attempt,
            Close::Closing => Want::Attempt,
            Close::Joining => Want::Done,
            Close::Explaining(jerr) => jerr.wanted(),
        }
    }

    open spec fn socket_next(self, socket: SocketModel, reply: Reply) -> (
        Progress<Self, Result<(), BluetoothError>>,
        SocketModel,
    ) {
        match (self, reply) {
            (Close::Checking(query), _) => (Self::of_check(socket, query.next(reply)), socket),
            (Close::Flushing(flush), _) => (Self::of_flush(flush.next(reply)), socket),
            (Close::Attaching, Reply::Done) => (
                Progress::Call(
                    Close::Closing,
                    Command::CallVoid {
                        target: Target::Object(socket.internal),
                        method: JavaMethod::Close,
                        remember: true,
                    },
                ),
                socket,
            ),
            (Close::Closing, Reply::Done) => (
                match socket.thread_read {
                    Some(thread) => Progress::Call(Close::Joining, Command::JoinReader(thread)),
                    None => Progress::Finish(Ok(())),
                },
                SocketModel { thread_read: None, closed: true, ..socket },
            ),
            (Close::Joining, _) => (Progress::Finish(Ok(())), socket),
            (Close::Explaining(jerr), _) => (Self::of_jerr(jerr.next(reply)), socket),
            (_, Reply::Failed(failure)) => (Self::of_jerr(error::explaining(failure)), socket),
            _ => arbitrary(),
        }
    }
}

impl SocketOperation for Close {
    fn want(&self) -> (want: Want) {
        match self {
            Close::Checking(query) => query.want(),
            Close::Flushing(flush) => flush.want(),
            Close::Attaching => Want::Attempt,
            Close::Closing => Want::Attempt,
            Close::Joining => Want::Done,
            Close::Explaining(jerr) => jerr.want(),
        }
    }

    fn step(self, socket: &mut BluetoothSocket, reply: Reply) -> (progress: Progress<
        Self,
        Result<(), BluetoothError>,
    >) {
        match (self, reply) {
            (Close::Checking(query), reply) => Self::from_check(socket, query.step(reply)),
            (Close::Flushing(flush), reply) => Self::from_flush(flush.step(reply)),
            (Close::Attaching, Reply::Done) => Progress::Call(
                Close::Closing,
                Command::CallVoid {
                    target: Target::Object(socket.internal),
                    method: JavaMethod::Close,
                    remember: true,
                },
            ),
            (Close::Closing, Reply::Done) => {
                socket.closed = true;
                match socket.thread_read.take() {
                    Some(thread) => Progress::Call(Close::Joining, Command::JoinReader(thread)),
                    None => Progress::Finish(Ok(())),
                }
            },
            (Close::Joining, _) => Progress::Finish(Ok(())),
            (Close::Explaining(jerr), reply) => Self::from_jerr(jerr.step(reply)),
            (_, Reply::Failed(failure)) => Self::from_jerr(jerr(failure)),
            _ => vstd::pervasive::unreached(),
        }
    }
}

impl SocketModel {
    /// The conversation of [`BluetoothSocket::connect`] at its start, with the socket.
    pub open spec fn connecting(self) -> Progress<
        Together<Connect>,
        (Result<(), BluetoothError>, SocketModel),
    > {
        Together::of((Connect::of_check(self.asking_connected()), self))
    }

    /// The conversation of [`BluetoothSocket::close`] at its start, with the socket.
    pub open spec fn closing(self) -> Progress<
        Together<Close>,
        (Result<(), BluetoothError>, SocketModel),
    > {
        Together::of((Close::of_check(self, self.asking_connected()), self))
    }
}

/// Connecting a socket that is connected already succeeds without doing anything, and if it
/// cannot be found out whether it is, that is the error. The socket stays as it is.
pub proof fn law_connect_checks_first(
    socket: SocketModel,
    checked: Seq<Reply>,
    connected: Result<bool, BluetoothError>,
)
    requires
        operation::ends_with(socket.asking_connected(), checked, connected),
    ensures
        match connected {
            Ok(true) => operation::ends_with(socket.connecting(), checked, (Ok(()), socket)),
            Ok(false) => {
                &&& operation::run(socket.connecting(), checked) == Together::of(
                    (Connect::of_find(adapter::finding_adapter()), socket),
                )
                &&& operation::admitted(socket.connecting(), checked)
            },
            Err(error) => operation::ends_with(
                socket.connecting(),
                checked,
                (Err(error), socket),
            ),
        },
{
    let hold = |progress: Progress<Query, Result<bool, BluetoothError>>|
        Together::of((Connect::of_check(progress), socket));
    operation::lemma_held_end(hold, socket.asking_connected(), checked, connected);
}

/// Connecting a socket that is not connected needs the adapter. Where there is none, the error
/// says why.
pub proof fn law_connect_needs_adapter(
    socket: SocketModel,
    checked: Seq<Reply>,
    found: Seq<Reply>,
    outcome: Result<ObjectId, BluetoothError>,
)
    requires
        operation::ends_with(socket.asking_connected(), checked, Ok(false)),
        operation::ends_with(adapter::finding_adapter(), found, outcome),
    ensures
        match outcome {
            Ok(adapter) => {
                &&& operation::run(socket.connecting(), checked + found) == Together::of(
                    (Progress::Call(Connect::Attaching { adapter }, Command::AttachVm), socket),
                )
                &&& operation::admitted(socket.connecting(), checked + found)
            },
            Err(error) => operation::ends_with(
                socket.connecting(),
                checked + found,
                (Err(error), socket),
            ),
        },
{
    let hold = |progress: Progress<FindAdapter, Result<ObjectId, BluetoothError>>|
        Together::of((Connect::of_find(progress), socket));
    law_connect_checks_first(socket, checked, Ok(false));
    operation::lemma_run_in_two(socket.connecting(), checked, found);
    operation::lemma_held_end(hold, adapter::finding_adapter(), found, outcome);
}

/// Whether the discovery of devices can be cancelled makes no difference. If the Java socket
/// connects and says afterwards that it is connected, the background thread is started, and
/// kept in mind by the socket. If it says that it is not connected, that is the error, and no
/// thread is started.
pub proof fn law_connect_outcome(
    socket: SocketModel,
    checked: Seq<Reply>,
    found: Seq<Reply>,
    adapter: ObjectId,
    cancelled: Reply,
    rechecked: Seq<Reply>,
    connected: Result<bool, BluetoothError>,
    thread: ThreadId,
)
    requires
        operation::ends_with(socket.asking_connected(), checked, Ok(false)),
        operation::ends_with(adapter::finding_adapter(), found, Ok(adapter)),
        cancelled is Done || cancelled is Failed,
        operation::ends_with(socket.asking_connected(), rechecked, connected),
    ensures
        ({
            let replies = checked + found + seq![Reply::Done, cancelled, Reply::Done] + rechecked;
            match connected {
                Ok(true) => {
                    &&& operation::run(socket.connecting(), replies) == Together::of(
                        (Progress::Call(Connect::Spawning, Command::SpawnReader), socket),
                    )
                    &&& operation::ends_with(
                        socket.connecting(),
                        replies + seq![Reply::Thread(thread)],
                        (Ok(()), SocketModel { thread_read: Some(thread), ..socket }),
                    )
                },
                Ok(false) => operation::ends_with(
                    socket.connecting(),
                    replies,
                    (Err(BluetoothError::NotConnected), socket),
                ),
                Err(error) => operation::ends_with(
                    socket.connecting(),
                    replies,
                    (Err(error), socket),
                ),
            }
        }),
{
    let start = socket.connecting();
    let hold = |progress: Progress<Query, Result<bool, BluetoothError>>|
        Together::of((Connect::of_recheck(progress), socket));
    let middle = seq![Reply::Done, cancelled, Reply::Done];
    let replies = checked + found + middle + rechecked;
    law_connect_needs_adapter(socket, checked, found, Ok(adapter));
    operation::lemma_run_in_two(start, checked + found, middle);
    assert(operation::run(start, checked + found + middle) == hold(socket.asking_connected())
        && operation::admitted(start, checked + found + middle)) by {
        reveal_with_fuel(operation::run, 4);
        reveal_with_fuel(operation::admitted, 4);
    }
    operation::lemma_run_in_two(start, checked + found + middle, rechecked);
    operation::lemma_held_end(hold, socket.asking_connected(), rechecked, connected);
    operation::lemma_run_in_two(start, replies, seq![Reply::Thread(thread)]);
    reveal_with_fuel(operation::run, 3);
    reveal_with_fuel(operation::admitted, 3);
}

/// If the Java socket cannot connect, the error is what is found out about the failure. The
/// socket stays as it is, and no thread is started.
pub proof fn law_connect_refused(
    socket: SocketModel,
    checked: Seq<Reply>,
    found: Seq<Reply>,
    adapter: ObjectId,
    cancelled: Reply,
    failure: JniError,
    explained: Seq<Reply>,
    error: BluetoothError,
)
    requires
        operation::ends_with(socket.asking_connected(), checked, Ok(false)),
        operation::ends_with(adapter::finding_adapter(), found, Ok(adapter)),
        cancelled is Done || cancelled is Failed,
        operation::ends_with(error::explaining(failure), explained, error),
    ensures
        operation::ends_with(
            socket.connecting(),
            checked + found + seq![Reply::Done, cancelled, Reply::Failed(failure)] + explained,
            (Err(error), socket),
        ),
{
    let start = socket.connecting();
    let hold = |progress: Progress<Jerr, BluetoothError>|
        Together::of((Connect::of_jerr(progress), socket));
    let middle = seq![Reply::Done, cancelled, Reply::Failed(failure)];
    law_connect_needs_adapter(socket, checked, found, Ok(adapter));
    operation::lemma_run_in_two(start, checked + found, middle);
    assert(operation::run(start, checked + found + middle) == hold(error::explaining(failure))
        && operation::admitted(start, checked + found + middle)) by {
        reveal_with_fuel(operation::run, 4);
        reveal_with_fuel(operation::admitted, 4);
    }
    operation::lemma_run_in_two(start, checked + found + middle, explained);
    operation::lemma_held_end(hold, error::explaining(failure), explained, error);
}

/// When the thread cannot be attached, or the Java socket cannot connect, connecting ends with what
/// is found out about the failure.
pub proof fn law_connect_broken_off(
    connect: Connect,
    socket: SocketModel,
    failure: JniError,
    explained: Seq<Reply>,
    error: BluetoothError,
)
    requires
        connect is Attaching || connect is Connecting,
        operation::ends_with(error::explaining(failure), explained, error),
    ensures
        operation::ends_with(
            Together { op: connect, socket }.next(Reply::Failed(failure)),
            explained,
            (Err(error), socket),
        ),
{
    let hold = |progress: Progress<Jerr, BluetoothError>|
        Together::of((Connect::of_jerr(progress), socket));
    operation::lemma_held_end(hold, error::explaining(failure), explained, error);
}

proof fn lemma_connect_failure(
    progress: Progress<Together<Connect>, (Result<(), BluetoothError>, SocketModel)>,
    replies: Seq<Reply>,
)
    requires
        operation::admitted(progress, replies),
        progress matches Progress::Call(together, command) ==> (command is SpawnReader
            ==> together.op is Spawning),
    ensures
        operation::run(progress, replies) matches Progress::Finish((Err(_), after)) ==> {
            &&& !operation::commands(progress, replies).contains(Command::SpawnReader)
            &&& progress matches Progress::Call(together, _) ==> after == together.socket
        },
    decreases replies.len(),
{
    if replies.len() > 0 {
        if let Progress::Call(together, command) = progress {
            let next = together.next(replies.first());
            let rest = operation::commands(next, replies.drop_first());
            lemma_connect_failure(next, replies.drop_first());
            assert forall|i: int|
                0 <= i < operation::commands(progress, replies).len() && operation::commands(
                    progress,
                    replies,
                )[i] is SpawnReader implies command is SpawnReader || rest.contains(
                Command::SpawnReader,
            ) by {
                if i > 0 {
                    assert(operation::commands(progress, replies)[i] == rest[i - 1]);
                }
            }
        }
    }
}

/// Connecting that fails, for whatever reason, leaves the socket as it is and starts no thread.
pub proof fn law_connect_failure(
    socket: SocketModel,
    replies: Seq<Reply>,
    error: BluetoothError,
    after: SocketModel,
)
    requires
        operation::ends_with(socket.connecting(), replies, (Err(error), after)),
    ensures
        after == socket,
        !operation::commands(socket.connecting(), replies).contains(Command::SpawnReader),
{
    lemma_connect_failure(socket.connecting(), replies);
}

/// What closing does first. A connected socket is flushed. A socket that is neither connected nor
/// closed yet is closed at once. For one that is not connected and was closed already, closing
/// succeeds and has no effect: only the connection status is asked for. If that cannot be found
/// out, that is the error.
pub proof fn law_close_checks_first(
    socket: SocketModel,
    checked: Seq<Reply>,
    connected: Result<bool, BluetoothError>,
)
    requires
        operation::ends_with(socket.asking_connected(), checked, connected),
    ensures
        match connected {
            Ok(true) => {
                &&& operation::run(socket.closing(), checked) == Together::of(
                    (Close::of_flush(socket.flushing()), socket),
                )
                &&& operation::admitted(socket.closing(), checked)
            },
            Ok(false) => if socket.closed {
                operation::ends_with(socket.closing(), checked, (Ok(()), socket))
            } else {
                about_to_close(socket, checked)
            },
            Err(error) => operation::ends_with(socket.closing(), checked, (Err(error), socket)),
        },
{
    let hold = |progress: Progress<Query, Result<bool, BluetoothError>>|
        Together::of((Close::of_check(socket, progress), socket));
    operation::lemma_held_end(hold, socket.asking_connected(), checked, connected);
}

/// Whether closing has come, by these replies, to where only the Java socket is left to be closed.
pub open spec fn about_to_close(socket: SocketModel, replies: Seq<Reply>) -> bool {
    &&& operation::run(socket.closing(), replies) == Together::of(
        (Progress::Call(Close::Attaching, Command::AttachVm), socket),
    )
    &&& operation::admitted(socket.closing(), replies)
}

/// Whether closing, once it has come so far, closes the Java socket if that is possible, waits for
/// the background thread if there is one, and succeeds. Afterwards the socket is closed and keeps
/// no thread in mind.
pub open spec fn closes(socket: SocketModel, before: Seq<Reply>) -> bool {
    let attached = before + seq![Reply::Done];
    let replies = before + seq![Reply::Done, Reply::Done];
    let after = SocketModel { thread_read: None, closed: true, ..socket };
    &&& operation::run(socket.closing(), attached) == Together::of(
        (
            Progress::Call(
                Close::Closing,
                Command::CallVoid {
                    target: Target::Object(socket.internal),
                    method: JavaMethod::Close,
                    remember: true,
                },
            ),
            socket,
        ),
    )
    &&& match socket.thread_read {
        Some(thread) => {
            &&& operation::run(socket.closing(), replies) == Together::of(
                (Progress::Call(Close::Joining, Command::JoinReader(thread)), after),
            )
            &&& operation::ends_with(
                socket.closing(),
                replies + seq![Reply::Done],
                (Ok(()), after),
            )
        },
        None => operation::ends_with(socket.closing(), replies, (Ok(()), after)),
    }
}

proof fn lemma_closes(socket: SocketModel, before: Seq<Reply>)
    requires
        about_to_close(socket, before),
    ensures
        closes(socket, before),
{
    let start = socket.closing();
    let rest = seq![Reply::Done, Reply::Done];
    operation::lemma_run_in_two(start, before, seq![Reply::Done]);
    operation::lemma_run_in_two(start, before, rest);
    operation::lemma_run_in_two(start, before + rest, seq![Reply::Done]);
    reveal_with_fuel(operation::run, 4);
    reveal_with_fuel(operation::admitted, 4);
}

proof fn lemma_close_fails(
    socket: SocketModel,
    before: Seq<Reply>,
    failure: JniError,
    explained: Seq<Reply>,
    error: BluetoothError,
)
    requires
        about_to_close(socket, before),
        operation::ends_with(error::explaining(failure), explained, error),
    ensures
        operation::ends_with(
            socket.closing(),
            before + seq![Reply::Done, Reply::Failed(failure)] + explained,
            (Err(error), socket),
        ),
{
    let start = socket.closing();
    let hold = |progress: Progress<Jerr, BluetoothError>|
        Together::of((Close::of_jerr(progress), socket));
    let rest = seq![Reply::Done, Reply::Failed(failure)];
    operation::lemma_run_in_two(start, before, rest);
    assert(operation::run(start, before + rest) == hold(error::explaining(failure))
        && operation::admitted(start, before + rest)) by {
        reveal_with_fuel(operation::run, 4);
        reveal_with_fuel(operation::admitted, 4);
    }
    operation::lemma_run_in_two(start, before + rest, explained);
    operation::lemma_held_end(hold, error::explaining(failure), explained, error);
}

proof fn lemma_close_flushes(
    socket: SocketModel,
    checked: Seq<Reply>,
    flushed: Seq<Reply>,
    outcome: Result<(), BluetoothError>,
)
    requires
        operation::ends_with(socket.asking_connected(), checked, Ok(true)),
        operation::ends_with(socket.flushing(), flushed, outcome),
    ensures
        about_to_close(socket, checked + flushed),
{
    let hold = |progress: Progress<Flush, Result<(), BluetoothError>>|
        Together::of((Close::of_flush(progress), socket));
    law_close_checks_first(socket, checked, Ok(true));
    operation::lemma_run_in_two(socket.closing(), checked, flushed);
    operation::lemma_held_end(hold, socket.flushing(), flushed, outcome);
}

/// Closing a connected socket flushes it, whatever comes of that, and closes the Java socket. If
/// there is a background thread, it is waited for. Afterwards the socket keeps no thread in mind,
/// so that a thread which [`BluetoothSocket::connect`] has started is waited for once.
pub proof fn law_close_outcome(
    socket: SocketModel,
    checked: Seq<Reply>,
    flushed: Seq<Reply>,
    outcome: Result<(), BluetoothError>,
)
    requires
        operation::ends_with(socket.asking_connected(), checked, Ok(true)),
        operation::ends_with(socket.flushing(), flushed, outcome),
    ensures
        closes(socket, checked + flushed),
{
    lemma_close_flushes(socket, checked, flushed, outcome);
    lemma_closes(socket, checked + flushed);
}

/// If the Java socket cannot be closed, the error is what is found out about the failure. The
/// socket stays as it is, and is not taken for closed.
pub proof fn law_close_refused(
    socket: SocketModel,
    checked: Seq<Reply>,
    flushed: Seq<Reply>,
    outcome: Result<(), BluetoothError>,
    failure: JniError,
    explained: Seq<Reply>,
    error: BluetoothError,
)
    requires
        operation::ends_with(socket.asking_connected(), checked, Ok(true)),
        operation::ends_with(socket.flushing(), flushed, outcome),
        operation::ends_with(error::explaining(failure), explained, error),
    ensures
        operation::ends_with(
            socket.closing(),
            checked + flushed + seq![Reply::Done, Reply::Failed(failure)] + explained,
            (Err(error), socket),
        ),
{
    lemma_close_flushes(socket, checked, flushed, outcome);
    lemma_close_fails(socket, checked + flushed, failure, explained, error);
}

/// Closing releases a socket that is not connected as well, if it was not closed before: the Java
/// socket is closed, without a flush. If that fails, the error is what is found out about the
/// failure, and the socket stays as it is.
pub proof fn law_close_unconnected(
    socket: SocketModel,
    checked: Seq<Reply>,
    failure: JniError,
    explained: Seq<Reply>,
    error: BluetoothError,
)
    requires
        !socket.closed,
        operation::ends_with(socket.asking_connected(), checked, Ok(false)),
        operation::ends_with(error::explaining(failure), explained, error),
    ensures
        closes(socket, checked),
        operation::ends_with(
            socket.closing(),
            checked + seq![Reply::Done, Reply::Failed(failure)] + explained,
            (Err(error), socket),
        ),
{
    law_close_checks_first(socket, checked, Ok(false));
    lemma_closes(socket, checked);
    lemma_close_fails(socket, checked, failure, explained, error);
}

/// When the thread cannot be attached, or the Java socket cannot be closed, closing ends with what
/// is found out about the failure.
pub proof fn law_close_broken_off(
    close: Close,
    socket: SocketModel,
    failure: JniError,
    explained: Seq<Reply>,
    error: BluetoothError,
)
    requires
        close is Attaching || close is Closing,
        operation::ends_with(error::explaining(failure), explained, error),
    ensures
        operation::ends_with(
            Together { op: close, socket }.next(Reply::Failed(failure)),
            explained,
            (Err(error), socket),
        ),
{
    let hold = |progress: Progress<Jerr, BluetoothError>|
        Together::of((Close::of_jerr(progress), socket));
    operation::lemma_held_end(hold, error::explaining(failure), explained, error);
}

proof fn lemma_close_succeeds(
    progress: Progress<Together<Close>, (Result<(), BluetoothError>, SocketModel)>,
    replies: Seq<Reply>,
)
    requires
        operation::admitted(progress, replies),
        match progress {
            Progress::Call(together, _) => together.op is Joining ==> together.socket.closed,
            Progress::Finish((outcome, after)) => outcome is Ok ==> after.closed,
        },
    ensures
        operation::run(progress, replies) matches Progress::Finish((Ok(()), after))
            ==> after.closed,
    decreases replies.len(),
{
    if replies.len() > 0 {
        if let Progress::Call(together, _) = progress {
            lemma_close_succeeds(together.next(replies.first()), replies.drop_first());
        }
    }
}

/// Closing that succeeds, in whatever way, leaves the socket closed. Closing it again when it is
/// not connected succeeds and has no effect.
pub proof fn law_closed_stays_closed(
    socket: SocketModel,
    replies: Seq<Reply>,
    after: SocketModel,
    checked: Seq<Reply>,
)
    requires
        operation::ends_with(socket.closing(), replies, (Ok(()), after)),
    ensures
        after.closed,
        operation::ends_with(after.asking_connected(), checked, Ok(false))
            ==> operation::ends_with(after.closing(), checked, (Ok(()), after)),
{
    lemma_close_succeeds(socket.closing(), replies);
    if operation::ends_with(after.asking_connected(), checked, Ok(false)) {
        law_close_checks_first(after, checked, Ok(false));
    }
}

/// How a socket is connected. Its status is asked for, and nothing is done if it is connected. The
/// adapter is found. Then discovery is cancelled on the adapter, with whatever result, the Java
/// socket is told to connect, and its status is asked for again. If it is connected now, a
/// background thread is started, and the socket keeps it in mind.
pub proof fn law_connect_conversation(
    socket: SocketModel,
    checked: Seq<Reply>,
    connected: Result<bool, BluetoothError>,
    found: Seq<Reply>,
    outcome: Result<ObjectId, BluetoothError>,
    cancelled: Reply,
    rechecked: Seq<Reply>,
    reconnected: Result<bool, BluetoothError>,
    thread: ThreadId,
)
    requires
        operation::ends_with(socket.asking_connected(), checked, connected),
        operation::ends_with(adapter::finding_adapter(), found, outcome),
        cancelled is Done || cancelled is Failed,
        operation::ends_with(socket.asking_connected(), rechecked, reconnected),
    ensures
        ({
            let start = socket.connecting();
            let first = operation::answered(socket.asking_connected(), checked);
            let second = operation::answered(adapter::finding_adapter(), found);
            let third = operation::answered(socket.asking_connected(), rechecked);
            match (connected, outcome) {
                (Err(error), _) => operation::leads_to(
                    start,
                    checked,
                    first,
                    Progress::Finish((Err(error), socket)),
                ),
                (Ok(true), _) => operation::leads_to(
                    start,
                    checked,
                    first,
                    Progress::Finish((Ok(()), socket)),
                ),
                (Ok(false), Err(error)) => operation::leads_to(
                    start,
                    checked + found,
                    first + second,
                    Progress::Finish((Err(error), socket)),
                ),
                (Ok(false), Ok(adapter)) => {
                    let replies = (checked + found) + seq![Reply::Done, cancelled, Reply::Done];
                    let commands = (first + second) + seq![
                        Command::AttachVm,
                        Command::CallVoid {
                            target: Target::Object(adapter),
                            method: JavaMethod::CancelDiscovery,
                            remember: true,
                        },
                        Command::CallVoid {
                            target: Target::Object(socket.internal),
                            method: JavaMethod::Connect,
                            remember: true,
                        },
                    ];
                    &&& operation::explains_failure_at(
                        start,
                        checked + found,
                        socket::error_leaving::<()>(socket),
                    )
                    &&& operation::explains_failure_at(
                        start,
                        (checked + found) + seq![Reply::Done, cancelled],
                        socket::error_leaving::<()>(socket),
                    )
                    &&& match reconnected {
                        Ok(true) => operation::leads_to(
                            start,
                            replies + rechecked + seq![Reply::Thread(thread)],
                            commands + third + seq![Command::SpawnReader],
                            Progress::Finish(
                                (Ok(()), SocketModel { thread_read: Some(thread), ..socket }),
                            ),
                        ),
                        Ok(false) => operation::leads_to(
                            start,
                            replies + rechecked,
                            commands + third,
                            Progress::Finish((Err(BluetoothError::NotConnected), socket)),
                        ),
                        Err(error) => operation::leads_to(
                            start,
                            replies + rechecked,
                            commands + third,
                            Progress::Finish((Err(error), socket)),
                        ),
                    }
                },
            }
        }),
{
    let start = socket.connecting();
    let asking = socket.asking_connected();
    let first = operation::answered(asking, checked);
    let second = operation::answered(adapter::finding_adapter(), found);
    let third = operation::answered(asking, rechecked);
    let hold_check = |progress: Progress<Query, Result<bool, BluetoothError>>|
        Together::of((Connect::of_check(progress), socket));
    let hold_find = |progress: Progress<FindAdapter, Result<ObjectId, BluetoothError>>|
        Together::of((Connect::of_find(progress), socket));
    let hold_recheck = |progress: Progress<Query, Result<bool, BluetoothError>>|
        Together::of((Connect::of_recheck(progress), socket));
    let hold_jerr = |progress: Progress<Jerr, BluetoothError>|
        Together::of((Connect::of_jerr(progress), socket));
    operation::lemma_held_leads(hold_check, asking, checked, connected);
    if connected == Ok::<bool, BluetoothError>(false) {
        let attaching = hold_find(Progress::Finish(outcome));
        operation::lemma_held_leads(hold_find, adapter::finding_adapter(), found, outcome);
        operation::lemma_leads_further(
            start,
            checked,
            first,
            hold_find(adapter::finding_adapter()),
            found,
            second,
            attaching,
        );
        if let Ok(adapter) = outcome {
            let replies = seq![Reply::Done, cancelled, Reply::Done];
            let commands = seq![
                Command::AttachVm,
                Command::CallVoid {
                    target: Target::Object(adapter),
                    method: JavaMethod::CancelDiscovery,
                    remember: true,
                },
                Command::CallVoid {
                    target: Target::Object(socket.internal),
                    method: JavaMethod::Connect,
                    remember: true,
                },
            ];
            let attach = Together { op: Connect::Attaching { adapter }, socket };
            let cancel = Together { op: Connect::Cancelling, socket };
            let connect = Together { op: Connect::Connecting, socket };
            operation::lemma_walk(attaching, replies, commands, 0, attach);
            operation::lemma_walk(attaching, replies, commands, 1, cancel);
            operation::lemma_walk(attaching, replies, commands, 2, connect);
            operation::lemma_explains_failure(
                start,
                checked + found,
                first + second,
                attach,
                commands[0],
                hold_jerr,
                socket::error_leaving::<()>(socket),
            );
            operation::lemma_leads_further(
                start,
                checked + found,
                first + second,
                attaching,
                replies.take(2),
                commands.take(2),
                Progress::Call(connect, commands[2]),
            );
            operation::lemma_explains_failure(
                start,
                (checked + found) + replies.take(2),
                (first + second) + commands.take(2),
                connect,
                commands[2],
                hold_jerr,
                socket::error_leaving::<()>(socket),
            );
            assert(replies.take(2) =~= seq![Reply::Done, cancelled]);
            operation::lemma_leads_further(
                start,
                checked + found,
                first + second,
                attaching,
                replies,
                commands,
                hold_recheck(asking),
            );
            operation::lemma_held_leads(hold_recheck, asking, rechecked, reconnected);
            operation::lemma_leads_further(
                start,
                (checked + found) + replies,
                (first + second) + commands,
                hold_recheck(asking),
                rechecked,
                third,
                hold_recheck(Progress::Finish(reconnected)),
            );
            if reconnected == Ok::<bool, BluetoothError>(true) {
                let spawning = hold_recheck(Progress::Finish(reconnected));
                let last = seq![Reply::Thread(thread)];
                let spawn = seq![Command::SpawnReader];
                operation::lemma_walk(
                    spawning,
                    last,
                    spawn,
                    0,
                    Together { op: Connect::Spawning, socket },
                );
                operation::lemma_leads_further(
                    start,
                    (checked + found) + replies + rechecked,
                    (first + second) + commands + third,
                    spawning,
                    last,
                    spawn,
                    Progress::Finish(
                        (Ok(()), SocketModel { thread_read: Some(thread), ..socket }),
                    ),
                );
            }
        }
    }
}

/// How a socket is closed. Its status is asked for. If it is connected, it is flushed, with
/// whatever result. If it is connected or was not closed before, the Java socket is closed then,
/// and if there is a background thread, it is waited for.
pub proof fn law_close_conversation(
    socket: SocketModel,
    checked: Seq<Reply>,
    connected: Result<bool, BluetoothError>,
    flushed: Seq<Reply>,
    outcome: Result<(), BluetoothError>,
)
    requires
        operation::ends_with(socket.asking_connected(), checked, connected),
        operation::ends_with(socket.flushing(), flushed, outcome),
    ensures
        ({
            let start = socket.closing();
            let first = operation::answered(socket.asking_connected(), checked);
            let second = operation::answered(socket.flushing(), flushed);
            match connected {
                Err(error) => operation::leads_to(
                    start,
                    checked,
                    first,
                    Progress::Finish((Err(error), socket)),
                ),
                Ok(true) => closes_by(socket, checked + flushed, first + second),
                Ok(false) => if socket.closed {
                    operation::leads_to(start, checked, first, Progress::Finish((Ok(()), socket)))
                } else {
                    closes_by(socket, checked, first)
                },
            }
        }),
{
    let start = socket.closing();
    let asking = socket.asking_connected();
    let first = operation::answered(asking, checked);
    let second = operation::answered(socket.flushing(), flushed);
    let attaching = Progress::<Together<Close>, (Result<(), BluetoothError>, SocketModel)>::Call(
        Together { op: Close::Attaching, socket },
        Command::AttachVm,
    );
    let hold_check = |progress: Progress<Query, Result<bool, BluetoothError>>|
        Together::of((Close::of_check(socket, progress), socket));
    let hold_flush = |progress: Progress<Flush, Result<(), BluetoothError>>|
        Together::of((Close::of_flush(progress), socket));
    operation::lemma_held_leads(hold_check, asking, checked, connected);
    if connected == Ok::<bool, BluetoothError>(true) {
        operation::lemma_held_leads(hold_flush, socket.flushing(), flushed, outcome);
        operation::lemma_leads_further(
            start,
            checked,
            first,
            hold_flush(socket.flushing()),
            flushed,
            second,
            attaching,
        );
        lemma_closes_by(socket, checked + flushed, first + second);
    } else if connected == Ok::<bool, BluetoothError>(false) && !socket.closed {
        lemma_closes_by(socket, checked, first);
    }
}

/// Whether, after these replies to these commands, the Java socket is closed and the background
/// thread is waited for, if there is one, so that the socket is closed and keeps no thread in mind;
/// and whether a failure is explained.
pub open spec fn closes_by(socket: SocketModel, before: Seq<Reply>, done: Seq<Command>) -> bool {
    let start = socket.closing();
    let after = SocketModel { thread_read: None, closed: true, ..socket };
    let close = Command::CallVoid {
        target: Target::Object(socket.internal),
        method: JavaMethod::Close,
        remember: true,
    };
    &&& operation::explains_failure_at(start, before, socket::error_leaving::<()>(socket))
    &&& operation::explains_failure_at(
        start,
        before.push(Reply::Done),
        socket::error_leaving::<()>(socket),
    )
    &&& match socket.thread_read {
        Some(thread) => operation::leads_to(
            start,
            before + seq![Reply::Done, Reply::Done, Reply::Done],
            done + seq![Command::AttachVm, close, Command::JoinReader(thread)],
            Progress::Finish((Ok(()), after)),
        ),
        None => operation::leads_to(
            start,
            before + seq![Reply::Done, Reply::Done],
            done + seq![Command::AttachVm, close],
            Progress::Finish((Ok(()), after)),
        ),
    }
}

proof fn lemma_closes_by(socket: SocketModel, before: Seq<Reply>, done: Seq<Command>)
    requires
        operation::leads_to(
            socket.closing(),
            before,
            done,
            Progress::Call(Together { op: Close::Attaching, socket }, Command::AttachVm),
        ),
    ensures
        closes_by(socket, before, done),
{
    let start = socket.closing();
    let after = SocketModel { thread_read: None, closed: true, ..socket };
    let attach = Command::AttachVm;
    let close = Command::CallVoid {
        target: Target::Object(socket.internal),
        method: JavaMethod::Close,
        remember: true,
    };
    let attaching = Together { op: Close::Attaching, socket };
    let closing = Together { op: Close::Closing, socket };
    let hold = |progress: Progress<Jerr, BluetoothError>|
        Together::of((Close::of_jerr(progress), socket));
    let leaving = socket::error_leaving::<()>(socket);
    let done_1 = done.push(attach);
    let done_2 = done_1.push(close);
    let before_1 = before.push(Reply::Done);
    let before_2 = before_1.push(Reply::Done);
    operation::lemma_explains_failure(start, before, done, attaching, attach, hold, leaving);
    operation::lemma_leads_on(start, before, done, attaching, attach, Reply::Done);
    operation::lemma_explains_failure(start, before_1, done_1, closing, close, hold, leaving);
    operation::lemma_leads_on(start, before_1, done_1, closing, close, Reply::Done);
    assert(before_2 =~= before + seq![Reply::Done, Reply::Done]);
    assert(done_2 =~= done + seq![attach, close]);
    if let Some(thread) = socket.thread_read {
        let join = Command::JoinReader(thread);
        let joining = Together { op: Close::Joining, socket: after };
        operation::lemma_leads_on(start, before_2, done_2, joining, join, Reply::Done);
        assert(before_2.push(Reply::Done) =~= before + seq![Reply::Done, Reply::Done, Reply::Done]);
        assert(done_2.push(join) =~= done + seq![attach, close, join]);
    }
}

} // verus!
