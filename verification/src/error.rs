//! The errors of this crate, and how a failed command becomes one of them.

use crate::java::{Command, JniError, ObjectId, Reply, Want};
use crate::operation;
use crate::operation::{Operation, Progress, Protocol};
use vstd::prelude::*;
use vstd::string::*;

verus! {

/// What went wrong, in general terms.
#[derive(Clone, Copy, PartialEq, Eq, Structural, Debug)]
pub enum ErrorKind {
    Unsupported,
    PermissionDenied,
    NotConnected,
    TimedOut,
    Other,
}

/// What went wrong.
#[derive(Debug)]
pub enum BluetoothError {
    /// Android has no Bluetooth service for this application.
    NoBluetoothService,
    /// The Bluetooth service has no adapter.
    NoAdapter,
    PermissionDenied,
    NotConnected,
    TimedOut,
    /// A Java exception of this class was thrown, with this message.
    Exception { class: String, message: String },
    /// A failure of which no more is known.
    Jni(JniError),
}

impl BluetoothError {
    pub open spec fn spec_kind(&self) -> ErrorKind {
        match self {
            BluetoothError::NoBluetoothService => ErrorKind::Unsupported,
            BluetoothError::NoAdapter => ErrorKind::Unsupported,
            BluetoothError::PermissionDenied => ErrorKind::PermissionDenied,
            BluetoothError::NotConnected => ErrorKind::NotConnected,
            BluetoothError::TimedOut => ErrorKind::TimedOut,
            BluetoothError::Exception { .. } => ErrorKind::Other,
            BluetoothError::Jni(_) => ErrorKind::Other,
        }
    }

    #[verifier::when_used_as_spec(spec_kind)]
    pub fn kind(&self) -> (kind: ErrorKind)
        ensures
            kind == self.kind(),
    {
        match self {
            BluetoothError::NoBluetoothService => ErrorKind::Unsupported,
            BluetoothError::NoAdapter => ErrorKind::Unsupported,
            BluetoothError::PermissionDenied => ErrorKind::PermissionDenied,
            BluetoothError::NotConnected => ErrorKind::NotConnected,
            BluetoothError::TimedOut => ErrorKind::TimedOut,
            BluetoothError::Exception { .. } => ErrorKind::Other,
            BluetoothError::Jni(_) => ErrorKind::Other,
        }
    }

    /// The text that goes with the kind, where there is one.
    pub open spec fn text(self) -> Option<Seq<char>> {
        match self {
            BluetoothError::NoBluetoothService => Some("Cannot get BLUETOOTH_SERVICE"@),
            BluetoothError::NoAdapter => Some("`getAdapter` returned null"@),
            BluetoothError::Exception { class, message } => Some(class@ + ": "@ + message@),
            _ => None,
        }
    }

    pub fn message(&self) -> (message: Option<String>)
        ensures
            message is Some <==> self.text() is Some,
            message matches Some(text) ==> self.text() == Some(text@),
    {
        match self {
            BluetoothError::NoBluetoothService => Some("Cannot get BLUETOOTH_SERVICE".to_owned()),
            BluetoothError::NoAdapter => Some("`getAdapter` returned null".to_owned()),
            BluetoothError::Exception { class, message } => {
                let mut text = class.clone();
                text.append(": ");
                text.append(message.as_str());
                Some(text)
            },
            _ => None,
        }
    }
}

/// The conversation that finds out which Java exception was thrown.
#[derive(Debug)]
pub enum Jerr {
    Clearing { failure: JniError },
    Recalling { failure: JniError },
    Attaching { failure: JniError, exception: ObjectId },
    Naming { failure: JniError, exception: ObjectId },
    Reading { failure: JniError, exception: ObjectId, class: String },
}

/// What comes first when a command has failed: an exception is cleared, and looked into;
/// any other failure is final.
pub open spec fn explaining(failure: JniError) -> Progress<Jerr, BluetoothError> {
    match failure {
        JniError::JavaException => Progress::Call(
            Jerr::Clearing { failure },
            Command::ClearException,
        ),
        JniError::Other(_) => Progress::Finish(BluetoothError::Jni(failure)),
    }
}

/// Turns the failure of a command into an error. A Java exception is cleared and taken away,
/// and the error names its class and its message if they can be had. Otherwise the error is
/// the failure itself.
pub fn jerr(failure: JniError) -> (progress: Progress<Jerr, BluetoothError>)
    ensures
        progress == explaining(failure),
{
    match failure {
        JniError::JavaException => Progress::Call(
            Jerr::Clearing { failure },
            Command::ClearException,
        ),
        JniError::Other(_) => Progress::Finish(BluetoothError::Jni(failure)),
    }
}

impl Protocol for Jerr {
    type Outcome = BluetoothError;

    open spec fn wanted(self) -> Want {
        match self {
            Jerr::Clearing { .. } => Want::Done,
            Jerr::Recalling { .. } => Want::Found,
            Jerr::Attaching { .. } => Want::Attempt,
            Jerr::Naming { .. } => Want::Text,
            Jerr::Reading { .. } => Want::Text,
        }
    }

    open spec fn next(self, reply: Reply) -> Progress<Self, BluetoothError> {
        match (self, reply) {
            (Jerr::Clearing { failure }, _) => Progress::Call(
                Jerr::Recalling { failure },
                Command::TakeLastException,
            ),
            (Jerr::Recalling { failure }, Reply::Found(Some(exception))) => Progress::Call(
                Jerr::Attaching { failure, exception },
                Command::AttachVm,
            ),
            (Jerr::Attaching { failure, exception }, Reply::Done) => Progress::Call(
                Jerr::Naming { failure, exception },
                Command::ClassName(exception),
            ),
            (Jerr::Naming { failure, exception }, Reply::Text(class)) => Progress::Call(
                Jerr::Reading { failure, exception, class },
                Command::ThrowableMessage(exception),
            ),
            (Jerr::Reading { failure, exception, class }, Reply::Text(message)) =>
                Progress::Finish(BluetoothError::Exception { class, message }),
            (Jerr::Recalling { failure }, _) => Progress::Finish(BluetoothError::Jni(failure)),
            (Jerr::Attaching { failure, .. }, _) => Progress::Finish(BluetoothError::Jni(failure)),
            (Jerr::Naming { failure, .. }, _) => Progress::Finish(BluetoothError::Jni(failure)),
            (Jerr::Reading { failure, .. }, _) => Progress::Finish(BluetoothError::Jni(failure)),
        }
    }
}

impl Operation for Jerr {
    fn want(&self) -> (want: Want) {
        match self {
            Jerr::Clearing { .. } => Want::Done,
            Jerr::Recalling { .. } => Want::Found,
            Jerr::Attaching { .. } => Want::Attempt,
            Jerr::Naming { .. } => Want::Text,
            Jerr::Reading { .. } => Want::Text,
        }
    }

    fn step(self, reply: Reply) -> (progress: Progress<Self, BluetoothError>) {
        match self {
            Jerr::Clearing { failure } => Progress::Call(
                Jerr::Recalling { failure },
                Command::TakeLastException,
            ),
            Jerr::Recalling { failure } => match reply {
                Reply::Found(Some(exception)) => Progress::Call(
                    Jerr::Attaching { failure, exception },
                    Command::AttachVm,
                ),
                _ => Progress::Finish(BluetoothError::Jni(failure)),
            },
            Jerr::Attaching { failure, exception } => match reply {
                Reply::Done => Progress::Call(
                    Jerr::Naming { failure, exception },
                    Command::ClassName(exception),
                ),
                _ => Progress::Finish(BluetoothError::Jni(failure)),
            },
            Jerr::Naming { failure, exception } => match reply {
                Reply::Text(class) => Progress::Call(
                    Jerr::Reading { failure, exception, class },
                    Command::ThrowableMessage(exception),
                ),
                _ => Progress::Finish(BluetoothError::Jni(failure)),
            },
            Jerr::Reading { failure, exception: _, class } => match reply {
                Reply::Text(message) => Progress::Finish(
                    BluetoothError::Exception { class, message },
                ),
                _ => Progress::Finish(BluetoothError::Jni(failure)),
            },
        }
    }
}

/// The error that [`jerr`] ends with after these replies.
pub open spec fn explained(failure: JniError, replies: Seq<Reply>) -> BluetoothError {
    if failure is JavaException && replies.len() == 5 && replies[3] is Text && replies[4] is Text {
        BluetoothError::Exception { class: replies[3]->Text_0, message: replies[4]->Text_0 }
    } else {
        BluetoothError::Jni(failure)
    }
}

/// A failure becomes an error that names the class and the message of the Java exception if
/// there is one and both can be had. Otherwise the error is the failure.
pub proof fn law_jerr_outcome(failure: JniError, replies: Seq<Reply>)
    requires
        operation::admitted(explaining(failure), replies),
        operation::run(explaining(failure), replies) is Finish,
    ensures
        operation::run(explaining(failure), replies) == Progress::<Jerr, BluetoothError>::Finish(
            explained(failure, replies),
        ),
        failure is Other ==> replies.len() == 0,
{
    reveal_with_fuel(operation::run, 7);
    reveal_with_fuel(operation::admitted, 7);
}

/// How a failure is looked into, step by step: the exception is cleared and taken away, and its
/// class and its message are asked for, in this order. Where one of these cannot be had, the error
/// is the failure at the beginning, and nothing more is asked. A failure that is no exception is
/// the error at once.
pub proof fn law_jerr_conversation(
    exception: ObjectId,
    class: String,
    message: String,
    other: jni::errors::Error,
    later: JniError,
)
    ensures
        ({
            let start = explaining(JniError::JavaException);
            let asked = seq![
                Command::ClearException,
                Command::TakeLastException,
                Command::AttachVm,
                Command::ClassName(exception),
                Command::ThrowableMessage(exception),
            ];
            let replies = seq![
                Reply::Done,
                Reply::Found(Some(exception)),
                Reply::Done,
                Reply::Text(class),
                Reply::Text(message),
            ];
            let unknown = BluetoothError::Jni(JniError::JavaException);
            &&& operation::leads_to(
                start,
                replies,
                asked,
                Progress::Finish(BluetoothError::Exception { class, message }),
            )
            &&& operation::leads_to(
                start,
                replies.take(1).push(Reply::Found(None)),
                asked.take(2),
                Progress::Finish(unknown),
            )
            &&& forall|k: int|
                2 <= k < 5 ==> operation::leads_to(
                    start,
                    #[trigger] replies.take(k).push(Reply::Failed(later)),
                    asked.take(k + 1),
                    Progress::Finish(unknown),
                )
            &&& explaining(JniError::Other(other)) == Progress::<Jerr, BluetoothError>::Finish(
                BluetoothError::Jni(JniError::Other(other)),
            )
        }),
{
    let failure = JniError::JavaException;
    let start = explaining(failure);
    let asked = seq![
        Command::ClearException,
        Command::TakeLastException,
        Command::AttachVm,
        Command::ClassName(exception),
        Command::ThrowableMessage(exception),
    ];
    let replies = seq![
        Reply::Done,
        Reply::Found(Some(exception)),
        Reply::Done,
        Reply::Text(class),
        Reply::Text(message),
    ];
    let recalling = Jerr::Recalling { failure };
    let attaching = Jerr::Attaching { failure, exception };
    let naming = Jerr::Naming { failure, exception };
    let reading = Jerr::Reading { failure, exception, class };
    operation::lemma_walk(start, replies, asked, 0, Jerr::Clearing { failure });
    operation::lemma_walk(start, replies, asked, 1, recalling);
    operation::lemma_walk(start, replies, asked, 2, attaching);
    operation::lemma_walk(start, replies, asked, 3, naming);
    operation::lemma_walk(start, replies, asked, 4, reading);
    let none = Reply::Found(None);
    let failed = Reply::Failed(later);
    operation::lemma_leads_on(start, replies.take(1), asked.take(1), recalling, asked[1], none);
    operation::lemma_leads_on(start, replies.take(2), asked.take(2), attaching, asked[2], failed);
    operation::lemma_leads_on(start, replies.take(3), asked.take(3), naming, asked[3], failed);
    operation::lemma_leads_on(start, replies.take(4), asked.take(4), reading, asked[4], failed);
    assert(asked.take(1).push(asked[1]) =~= asked.take(2));
    assert(asked.take(2).push(asked[2]) =~= asked.take(3));
    assert(asked.take(3).push(asked[3]) =~= asked.take(4));
    assert(asked.take(4).push(asked[4]) =~= asked.take(5));
}

/// What the errors say, and of which kind they are.
pub proof fn law_error_says(class: String, message: String, failure: JniError)
    ensures
        BluetoothError::NoBluetoothService.kind() == ErrorKind::Unsupported,
        BluetoothError::NoBluetoothService.text() == Some("Cannot get BLUETOOTH_SERVICE"@),
        BluetoothError::NoAdapter.kind() == ErrorKind::Unsupported,
        BluetoothError::NoAdapter.text() == Some("`getAdapter` returned null"@),
        BluetoothError::PermissionDenied.kind() == ErrorKind::PermissionDenied,
        BluetoothError::PermissionDenied.text() is None,
        BluetoothError::NotConnected.kind() == ErrorKind::NotConnected,
        BluetoothError::NotConnected.text() is None,
        BluetoothError::TimedOut.kind() == ErrorKind::TimedOut,
        BluetoothError::TimedOut.text() is None,
        (BluetoothError::Exception { class, message }).kind() == ErrorKind::Other,
        (BluetoothError::Exception { class, message }).text() == Some(class@ + ": "@ + message@),
        BluetoothError::Jni(failure).kind() == ErrorKind::Other,
        BluetoothError::Jni(failure).text() is None,
{
}

} // verus!
