//! Yes-or-no questions.

use crate::error::BluetoothError;
use crate::java::{Command, JavaMethod, Reply, Target, Want};
use crate::operation;
use crate::operation::{Explained, Progress, Protocol, Stage, Trouble};
use vstd::prelude::*;

verus! {

/// Attach to the virtual machine, then call a method that returns a boolean.
#[derive(Clone, Copy, PartialEq, Eq, Structural, Debug)]
pub enum QueryStage {
    Attaching { target: Target, method: JavaMethod },
    Asking,
}

pub type Query = Explained<QueryStage>;

impl QueryStage {
    /// The conversation at its start.
    pub open spec fn asked(target: Target, method: JavaMethod) -> Progress<
        Query,
        Result<bool, BluetoothError>,
    > {
        Progress::Call(
            Explained::Running(QueryStage::Attaching { target, method }),
            Command::AttachVm,
        )
    }
}

/// Asks the object.
pub(crate) fn ask(target: Target, method: JavaMethod) -> (progress: Progress<
    Query,
    Result<bool, BluetoothError>,
>)
    ensures
        progress == QueryStage::asked(target, method),
{
    Progress::Call(
        Explained::Running(QueryStage::Attaching { target, method }),
        Command::AttachVm,
    )
}

impl Stage for QueryStage {
    type Output = bool;

    open spec fn stage_wanted(self) -> Want {
        match self {
            QueryStage::Attaching { .. } => Want::Attempt,
            QueryStage::Asking => Want::Bool,
        }
    }

    open spec fn stage_next(self, reply: Reply) -> Progress<Self, Result<bool, Trouble>> {
        match (self, reply) {
            (QueryStage::Attaching { target, method }, Reply::Done) => Progress::Call(
                QueryStage::Asking,
                Command::CallBoolean { target, method, remember: true },
            ),
            (QueryStage::Asking, Reply::Bool(answer)) => Progress::Finish(Ok(answer)),
            (_, Reply::Failed(failure)) => Progress::Finish(Err(Trouble::Failed(failure))),
            _ => arbitrary(),
        }
    }

    fn stage_want(&self) -> (want: Want) {
        match self {
            QueryStage::Attaching { .. } => Want::Attempt,
            QueryStage::Asking => Want::Bool,
        }
    }

    fn stage_step(self, reply: Reply) -> (progress: Progress<Self, Result<bool, Trouble>>) {
        match (self, reply) {
            (QueryStage::Attaching { target, method }, Reply::Done) => Progress::Call(
                QueryStage::Asking,
                Command::CallBoolean { target, method, remember: true },
            ),
            (QueryStage::Asking, Reply::Bool(answer)) => Progress::Finish(Ok(answer)),
            (_, Reply::Failed(failure)) => Progress::Finish(Err(Trouble::Failed(failure))),
            _ => vstd::pervasive::unreached(),
        }
    }
}

/// A question is answered exactly when the thread could be attached and the call returned a
/// boolean; then the answer is what the call returned. Otherwise the error is what is found out
/// about the failure of a command.
pub proof fn law_query_answer(target: Target, method: JavaMethod, replies: Seq<Reply>, answer: bool)
    requires
        operation::admitted(QueryStage::asked(target, method), replies),
    ensures
        operation::ends_with(QueryStage::asked(target, method), replies, Ok(answer))
            <==> replies.len() == 2 && replies[0] is Done && replies[1] == Reply::Bool(answer),
        operation::run(QueryStage::asked(target, method), replies) matches Progress::Finish(
            Err(error),
        ) ==> error is Exception || error is Jni,
{
    reveal_with_fuel(operation::run, 4);
    reveal_with_fuel(operation::admitted, 4);
    let after_0 = replies;
    let after_1 = after_0.drop_first();
    operation::lemma_failed_command(QueryStage::Attaching { target, method }, after_0);
    operation::lemma_failed_command(QueryStage::Asking, after_1);
}

/// How a question is put: the thread is attached, and then the method is called on the target, with
/// nothing in between. The answer is what the call returns, and a failure of either command is
/// explained.
pub proof fn law_query_conversation(target: Target, method: JavaMethod, answer: bool)
    ensures
        ({
            let start = QueryStage::asked(target, method);
            let replies = seq![Reply::Done, Reply::Bool(answer)];
            &&& operation::leads_to(
                start,
                replies,
                seq![Command::AttachVm, Command::CallBoolean { target, method, remember: true }],
                Progress::Finish(Ok(answer)),
            )
            &&& forall|k: int|
                0 <= k < 2 ==> operation::explains_failure_at(
                    start,
                    #[trigger] replies.take(k),
                    operation::just_the_error::<bool>(),
                )
        }),
{
    let start = QueryStage::asked(target, method);
    let attaching = QueryStage::Attaching { target, method };
    let asking = QueryStage::Asking;
    let replies = seq![Reply::Done, Reply::Bool(answer)];
    let asked = seq![Command::AttachVm, Command::CallBoolean { target, method, remember: true }];
    operation::lemma_stage_walk(start, replies, asked, 0, attaching);
    operation::lemma_stage_walk(start, replies, asked, 1, asking);
}

} // verus!
