//! Operations: conversations with the Java side that are in progress.

use crate::error;
use crate::error::{jerr, BluetoothError, Jerr};
use crate::java::{Command, JniError, Reply, Want};
use vstd::prelude::*;

verus! {

/// How far an operation has come.
#[derive(Debug)]
pub enum Progress<Op, T> {
    /// The command is to be carried out and its reply handed to the operation.
    Call(Op, Command),
    /// The operation has ended.
    Finish(T),
}

/// The course of a conversation.
pub trait Protocol: Sized {
    /// What the conversation ends with.
    type Outcome;

    /// The replies that can come next.
    spec fn wanted(self) -> Want;

    /// How the conversation goes on after a reply.
    spec fn next(self, reply: Reply) -> Progress<Self, Self::Outcome>;
}

/// A conversation that waits for the reply to the command it has handed out last.
pub trait Operation: Protocol {
    /// The replies that the operation can take.
    fn want(&self) -> (want: Want)
        ensures
            want == self.wanted(),
    ;

    /// Takes the reply to the command that was handed out last.
    fn step(self, reply: Reply) -> (progress: Progress<Self, Self::Outcome>)
        requires
            self.wanted().admits(reply),
        ensures
            progress == self.next(reply),
    ;
}

/// Where a conversation stands after a sequence of replies. Replies after its end count for
/// nothing.
pub open spec fn run<O: Protocol>(
    progress: Progress<O, O::Outcome>,
    replies: Seq<Reply>,
) -> Progress<O, O::Outcome>
    decreases replies.len(),
{
    match progress {
        Progress::Call(op, _) => if replies.len() == 0 {
            progress
        } else {
            run(op.next(replies.first()), replies.drop_first())
        },
        Progress::Finish(_) => progress,
    }
}

/// Whether each reply is one that can come, and none comes after the end.
pub open spec fn admitted<O: Protocol>(
    progress: Progress<O, O::Outcome>,
    replies: Seq<Reply>,
) -> bool
    decreases replies.len(),
{
    match progress {
        Progress::Call(op, _) => if replies.len() == 0 {
            true
        } else {
            &&& op.wanted().admits(replies.first())
            &&& admitted(op.next(replies.first()), replies.drop_first())
        },
        Progress::Finish(_) => replies.len() == 0,
    }
}

/// Whether a conversation takes the replies, all of them, and then ends with the outcome.
pub open spec fn ends_with<O: Protocol>(
    progress: Progress<O, O::Outcome>,
    replies: Seq<Reply>,
    outcome: O::Outcome,
) -> bool {
    &&& admitted(progress, replies)
    &&& run(progress, replies) == Progress::<O, O::Outcome>::Finish(outcome)
}

/// The commands that a conversation hands out while it takes a sequence of replies.
pub open spec fn commands<O: Protocol>(
    progress: Progress<O, O::Outcome>,
    replies: Seq<Reply>,
) -> Seq<Command>
    decreases replies.len(),
{
    match progress {
        Progress::Call(op, command) => if replies.len() == 0 {
            seq![command]
        } else {
            seq![command] + commands(op.next(replies.first()), replies.drop_first())
        },
        Progress::Finish(_) => Seq::empty(),
    }
}

/// Why a conversation is broken off.
#[derive(Debug)]
pub enum Trouble {
    /// A command failed, and it is still to be found out why.
    Failed(JniError),
    /// The error is known.
    Known(BluetoothError),
}

/// A conversation that does not look into failures by itself.
pub trait Stage: Sized {
    type Output;

    spec fn stage_wanted(self) -> Want;

    spec fn stage_next(self, reply: Reply) -> Progress<Self, Result<Self::Output, Trouble>>;

    fn stage_want(&self) -> (want: Want)
        ensures
            want == self.stage_wanted(),
    ;

    fn stage_step(self, reply: Reply) -> (progress: Progress<
        Self,
        Result<Self::Output, Trouble>,
    >)
        requires
            self.stage_wanted().admits(reply),
        ensures
            progress == self.stage_next(reply),
    ;
}

/// A conversation, followed by the one that looks into its failure if a command fails.
#[derive(Debug)]
pub enum Explained<S> {
    Running(S),
    Explaining(Jerr),
}

impl<S: Stage> Explained<S> {
    /// The conversation goes on, ends, or turns to the failure of its last command.
    pub open spec fn of(progress: Progress<S, Result<S::Output, Trouble>>) -> Progress<
        Self,
        Result<S::Output, BluetoothError>,
    > {
        match progress {
            Progress::Call(stage, command) => Progress::Call(Explained::Running(stage), command),
            Progress::Finish(Ok(output)) => Progress::Finish(Ok(output)),
            Progress::Finish(Err(Trouble::Known(error))) => Progress::Finish(Err(error)),
            Progress::Finish(Err(Trouble::Failed(failure))) => Self::of_jerr(
                error::explaining(failure),
            ),
        }
    }

    pub open spec fn of_jerr(progress: Progress<Jerr, BluetoothError>) -> Progress<
        Self,
        Result<S::Output, BluetoothError>,
    > {
        match progress {
            Progress::Call(jerr, command) => Progress::Call(Explained::Explaining(jerr), command),
            Progress::Finish(error) => Progress::Finish(Err(error)),
        }
    }

    pub(crate) fn from_stage(progress: Progress<S, Result<S::Output, Trouble>>) -> (explained:
        Progress<Self, Result<S::Output, BluetoothError>>)
        ensures
            explained == Self::of(progress),
    {
        match progress {
            Progress::Call(stage, command) => Progress::Call(Explained::Running(stage), command),
            Progress::Finish(Ok(output)) => Progress::Finish(Ok(output)),
            Progress::Finish(Err(Trouble::Known(error))) => Progress::Finish(Err(error)),
            Progress::Finish(Err(Trouble::Failed(failure))) => Self::from_jerr(jerr(failure)),
        }
    }

    fn from_jerr(progress: Progress<Jerr, BluetoothError>) -> (explained: Progress<
        Self,
        Result<S::Output, BluetoothError>,
    >)
        ensures
            explained == Self::of_jerr(progress),
    {
        match progress {
            Progress::Call(jerr, command) => Progress::Call(Explained::Explaining(jerr), command),
            Progress::Finish(error) => Progress::Finish(Err(error)),
        }
    }
}

impl<S: Stage> Protocol for Explained<S> {
    type Outcome = Result<S::Output, BluetoothError>;

    open spec fn wanted(self) -> Want {
        match self {
            Explained::Running(stage) => stage.stage_wanted(),
            Explained::Explaining(jerr) => jerr.wanted(),
        }
    }

    open spec fn next(self, reply: Reply) -> Progress<Self, Self::Outcome> {
        match self {
            Explained::Running(stage) => Self::of(stage.stage_next(reply)),
            Explained::Explaining(jerr) => Self::of_jerr(jerr.next(reply)),
        }
    }
}

impl<S: Stage> Operation for Explained<S> {
    fn want(&self) -> (want: Want) {
        match self {
            Explained::Running(stage) => stage.stage_want(),
            Explained::Explaining(jerr) => jerr.want(),
        }
    }

    fn step(self, reply: Reply) -> (progress: Progress<Self, Self::Outcome>) {
        match self {
            Explained::Running(stage) => Self::from_stage(stage.stage_step(reply)),
            Explained::Explaining(jerr) => Self::from_jerr(jerr.step(reply)),
        }
    }
}

/// Whether a larger conversation, while it holds a smaller one, passes on the commands and the
/// replies of the smaller one unchanged. `hold` says where the larger one stands when the smaller
/// one stands somewhere.
pub open spec fn passes_on<A: Protocol, B: Protocol>(
    hold: spec_fn(Progress<A, A::Outcome>) -> Progress<B, B::Outcome>,
) -> bool {
    forall|op: A, command: Command|
        match #[trigger] hold(Progress::Call(op, command)) {
            Progress::Call(holder, passed) => {
                &&& passed == command
                &&& holder.wanted() == op.wanted()
                &&& forall|reply: Reply| #[trigger] holder.next(reply) == hold(op.next(reply))
            },
            Progress::Finish(_) => false,
        }
}

/// A conversation that holds a smaller one comes to where the smaller one leads it.
pub proof fn lemma_held_run<A: Protocol, B: Protocol>(
    hold: spec_fn(Progress<A, A::Outcome>) -> Progress<B, B::Outcome>,
    progress: Progress<A, A::Outcome>,
    replies: Seq<Reply>,
    rest: Seq<Reply>,
)
    requires
        passes_on(hold),
        admitted(progress, replies),
    ensures
        run(hold(progress), replies + rest) == run(hold(run(progress, replies)), rest),
        admitted(hold(progress), replies + rest) == admitted(hold(run(progress, replies)), rest),
    decreases replies.len(),
{
    if replies.len() == 0 {
        assert(replies + rest =~= rest);
    } else {
        let all = replies + rest;
        let op = progress->Call_0;
        let command = progress->Call_1;
        assert(progress == Progress::<A, A::Outcome>::Call(op, command));
        assert(hold(Progress::Call(op, command)) is Call);
        let holder = hold(progress)->Call_0;
        assert(all.first() == replies.first());
        assert(all.drop_first() =~= replies.drop_first() + rest);
        assert(holder.next(replies.first()) == hold(op.next(replies.first())));
        lemma_held_run(hold, op.next(replies.first()), replies.drop_first(), rest);
    }
}

/// Taking some replies and then some more is the same as taking them all.
pub proof fn lemma_run_in_two<O: Protocol>(
    progress: Progress<O, O::Outcome>,
    first: Seq<Reply>,
    second: Seq<Reply>,
)
    ensures
        run(progress, first + second) == run(run(progress, first), second),
        admitted(progress, first + second) == (admitted(progress, first) && admitted(
            run(progress, first),
            second,
        )),
    decreases first.len(),
{
    if first.len() == 0 {
        assert(first + second =~= second);
    } else if let Progress::Call(op, _) = progress {
        assert((first + second).drop_first() =~= first.drop_first() + second);
        lemma_run_in_two(op.next(first.first()), first.drop_first(), second);
    }
}

/// A conversation that holds a smaller one, and ends when the smaller one ends with this outcome,
/// ends with what it makes of the outcome.
pub proof fn lemma_held_end<A: Protocol, B: Protocol>(
    hold: spec_fn(Progress<A, A::Outcome>) -> Progress<B, B::Outcome>,
    progress: Progress<A, A::Outcome>,
    replies: Seq<Reply>,
    outcome: A::Outcome,
)
    requires
        passes_on(hold),
        ends_with(progress, replies, outcome),
    ensures
        run(hold(progress), replies) == hold(Progress::Finish(outcome)),
        admitted(hold(progress), replies),
{
    lemma_held_run(hold, progress, replies, Seq::empty());
    assert(replies + Seq::empty() =~= replies);
}

/// A failure that a conversation looks into ends it with the error that [`jerr`] finds.
pub proof fn law_failure_is_explained<S: Stage>(
    stage: S,
    failure: JniError,
    explained: Seq<Reply>,
    found: BluetoothError,
)
    requires
        stage.stage_next(Reply::Failed(failure)) == Progress::<
            S,
            Result<S::Output, Trouble>,
        >::Finish(Err(Trouble::Failed(failure))),
        ends_with(error::explaining(failure), explained, found),
    ensures
        ends_with(
            Explained::Running(stage).next(Reply::Failed(failure)),
            explained,
            Err(found),
        ),
{
    let hold = |progress: Progress<Jerr, BluetoothError>| Explained::<S>::of_jerr(progress);
    lemma_held_end(hold, error::explaining(failure), explained, found);
}

/// Whether a conversation has turned to the failure of a command, or ended with what was found
/// out about it.
pub open spec fn turned_to_failure<S: Stage>(
    progress: Progress<Explained<S>, Result<S::Output, BluetoothError>>,
) -> bool {
    match progress {
        Progress::Call(op, _) => op is Explaining,
        Progress::Finish(outcome) => outcome matches Err(error) && (error is Exception
            || error is Jni),
    }
}

/// A conversation that has turned to the failure of a command does not turn back.
pub proof fn lemma_turned_to_failure<S: Stage>(
    progress: Progress<Explained<S>, Result<S::Output, BluetoothError>>,
    replies: Seq<Reply>,
)
    requires
        turned_to_failure(progress),
    ensures
        turned_to_failure(run(progress, replies)),
    decreases replies.len(),
{
    if replies.len() > 0 {
        if let Progress::Call(op, _) = progress {
            lemma_turned_to_failure(op.next(replies.first()), replies.drop_first());
        }
    }
}

/// A conversation that turns to the failure of the command at hand stays with it.
pub proof fn lemma_failed_command<S: Stage>(stage: S, replies: Seq<Reply>)
    ensures
        ({
            let next = Explained::Running(stage).next(replies.first());
            turned_to_failure(next) ==> turned_to_failure(run(next, replies.drop_first()))
        }),
{
    let next = Explained::Running(stage).next(replies.first());
    if turned_to_failure(next) {
        lemma_turned_to_failure(next, replies.drop_first());
    }
}

/// The commands that the replies answer.
pub open spec fn answered<O: Protocol>(
    progress: Progress<O, O::Outcome>,
    replies: Seq<Reply>,
) -> Seq<Command>
    decreases replies.len(),
{
    match progress {
        Progress::Call(op, command) => if replies.len() == 0 {
            Seq::empty()
        } else {
            seq![command] + answered(op.next(replies.first()), replies.drop_first())
        },
        Progress::Finish(_) => Seq::empty(),
    }
}

/// Whether the replies can come, are the answers to exactly these commands, and lead the
/// conversation there.
pub open spec fn leads_to<O: Protocol>(
    progress: Progress<O, O::Outcome>,
    replies: Seq<Reply>,
    asked: Seq<Command>,
    then: Progress<O, O::Outcome>,
) -> bool {
    &&& admitted(progress, replies)
    &&& answered(progress, replies) == asked
    &&& run(progress, replies) == then
}

/// What leads somewhere and from there further leads further as a whole.
pub proof fn lemma_leads_further<O: Protocol>(
    progress: Progress<O, O::Outcome>,
    first: Seq<Reply>,
    first_asked: Seq<Command>,
    middle: Progress<O, O::Outcome>,
    second: Seq<Reply>,
    second_asked: Seq<Command>,
    end: Progress<O, O::Outcome>,
)
    requires
        leads_to(progress, first, first_asked, middle),
        leads_to(middle, second, second_asked, end),
    ensures
        leads_to(progress, first + second, first_asked + second_asked, end),
    decreases first.len(),
{
    if first.len() == 0 {
        assert(first + second =~= second);
        assert(first_asked + second_asked =~= second_asked);
    } else if let Progress::Call(op, command) = progress {
        let next = op.next(first.first());
        let rest = answered(next, first.drop_first());
        assert((first + second).drop_first() =~= first.drop_first() + second);
        lemma_leads_further(
            next,
            first.drop_first(),
            rest,
            middle,
            second,
            second_asked,
            end,
        );
        assert(seq![command] + (rest + second_asked) =~= (seq![command] + rest) + second_asked);
    }
}

/// One more reply leads one step further.
pub proof fn lemma_leads_on<O: Protocol>(
    progress: Progress<O, O::Outcome>,
    replies: Seq<Reply>,
    asked: Seq<Command>,
    op: O,
    command: Command,
    reply: Reply,
)
    requires
        leads_to(progress, replies, asked, Progress::Call(op, command)),
        op.wanted().admits(reply),
    ensures
        leads_to(progress, replies.push(reply), asked.push(command), op.next(reply)),
{
    let middle = Progress::<O, O::Outcome>::Call(op, command);
    let one = seq![reply];
    reveal_with_fuel(run, 2);
    reveal_with_fuel(admitted, 2);
    reveal_with_fuel(answered, 2);
    assert(one.drop_first() =~= Seq::empty());
    assert(answered(middle, one) =~= seq![command]);
    lemma_leads_further(progress, replies, asked, middle, one, seq![command], op.next(reply));
    assert(replies + one =~= replies.push(reply));
    assert(asked + seq![command] =~= asked.push(command));
}

/// No reply leads nowhere.
pub proof fn lemma_leads_nowhere<O: Protocol>(progress: Progress<O, O::Outcome>)
    ensures
        leads_to(progress, Seq::empty(), Seq::empty(), progress),
{
}

/// The next of these replies, which answers the next of these commands, leads one step further.
pub proof fn lemma_walk<O: Protocol>(
    progress: Progress<O, O::Outcome>,
    replies: Seq<Reply>,
    asked: Seq<Command>,
    k: int,
    op: O,
)
    requires
        0 <= k < replies.len(),
        k < asked.len(),
        k == 0 ==> progress == Progress::<O, O::Outcome>::Call(op, asked[0]),
        k > 0 ==> leads_to(
            progress,
            replies.take(k),
            asked.take(k),
            Progress::Call(op, asked[k]),
        ),
        op.wanted().admits(replies[k]),
    ensures
        leads_to(progress, replies.take(k), asked.take(k), Progress::Call(op, asked[k])),
        leads_to(progress, replies.take(k + 1), asked.take(k + 1), op.next(replies[k])),
        k + 1 == replies.len() && k + 1 == asked.len() ==> leads_to(
            progress,
            replies,
            asked,
            op.next(replies[k]),
        ),
{
    assert(replies.take(0) =~= Seq::empty());
    assert(asked.take(0) =~= Seq::empty());
    lemma_leads_nowhere(progress);
    lemma_leads_on(progress, replies.take(k), asked.take(k), op, asked[k], replies[k]);
    assert(replies.take(k).push(replies[k]) =~= replies.take(k + 1));
    assert(asked.take(k).push(asked[k]) =~= asked.take(k + 1));
    assert(replies.take(replies.len() as int) =~= replies);
    assert(asked.take(asked.len() as int) =~= asked);
}

/// A conversation that holds a smaller one hands out the same commands until the smaller one ends.
pub proof fn lemma_held_leads<A: Protocol, B: Protocol>(
    hold: spec_fn(Progress<A, A::Outcome>) -> Progress<B, B::Outcome>,
    progress: Progress<A, A::Outcome>,
    replies: Seq<Reply>,
    outcome: A::Outcome,
)
    requires
        passes_on(hold),
        ends_with(progress, replies, outcome),
    ensures
        leads_to(
            hold(progress),
            replies,
            answered(progress, replies),
            hold(Progress::Finish(outcome)),
        ),
    decreases replies.len(),
{
    if replies.len() > 0 {
        let op = progress->Call_0;
        let command = progress->Call_1;
        assert(progress == Progress::<A, A::Outcome>::Call(op, command));
        assert(hold(Progress::Call(op, command)) is Call);
        let holder = hold(progress)->Call_0;
        assert(holder.next(replies.first()) == hold(op.next(replies.first())));
        lemma_held_leads(hold, op.next(replies.first()), replies.drop_first(), outcome);
    }
}

/// Whether a failure at this place of a conversation is looked into, by the conversation of
/// [`jerr`], and ends it with the error that this finds.
pub open spec fn explains_failure_at<O: Protocol>(
    start: Progress<O, O::Outcome>,
    before: Seq<Reply>,
    broken_off: spec_fn(BluetoothError) -> O::Outcome,
) -> bool {
    &&& admitted(start, before)
    &&& run(start, before) is Call
    &&& forall|failure: JniError, explained: Seq<Reply>, error: BluetoothError|
        #[trigger] ends_with(error::explaining(failure), explained, error) ==> leads_to(
            start,
            before.push(Reply::Failed(failure)) + explained,
            answered(start, before).push(run(start, before)->Call_1) + answered(
                error::explaining(failure),
                explained,
            ),
            Progress::Finish(broken_off(error)),
        )
}

/// The outcome that is just an error.
pub open spec fn just_the_error<T>() -> spec_fn(BluetoothError) -> Result<T, BluetoothError> {
    |error: BluetoothError| Err(error)
}

/// A conversation that turns to the failure of its command explains the failure.
pub proof fn lemma_explains_failure<O: Protocol>(
    start: Progress<O, O::Outcome>,
    before: Seq<Reply>,
    asked: Seq<Command>,
    op: O,
    command: Command,
    hold: spec_fn(Progress<Jerr, BluetoothError>) -> Progress<O, O::Outcome>,
    broken_off: spec_fn(BluetoothError) -> O::Outcome,
)
    requires
        leads_to(start, before, asked, Progress::Call(op, command)),
        passes_on(hold),
        forall|failure: JniError|
            {
                &&& op.wanted().admits(Reply::Failed(failure))
                &&& #[trigger] op.next(Reply::Failed(failure)) == hold(error::explaining(failure))
            },
        forall|error: BluetoothError|
            #[trigger] hold(Progress::Finish(error)) == Progress::<O, O::Outcome>::Finish(
                broken_off(error),
            ),
    ensures
        explains_failure_at(start, before, broken_off),
{
    assert forall|failure: JniError, explained: Seq<Reply>, error: BluetoothError|
        #[trigger] ends_with(error::explaining(failure), explained, error) implies leads_to(
        start,
        before.push(Reply::Failed(failure)) + explained,
        asked.push(command) + answered(error::explaining(failure), explained),
        Progress::Finish(broken_off(error)),
    ) by {
        let turned = op.next(Reply::Failed(failure));
        assert(turned == hold(error::explaining(failure)));
        lemma_leads_on(start, before, asked, op, command, Reply::Failed(failure));
        lemma_held_leads(hold, error::explaining(failure), explained, error);
        assert(hold(Progress::Finish(error)) == Progress::<O, O::Outcome>::Finish(
            broken_off(error),
        ));
        lemma_leads_further(
            start,
            before.push(Reply::Failed(failure)),
            asked.push(command),
            turned,
            explained,
            answered(error::explaining(failure), explained),
            Progress::Finish(broken_off(error)),
        );
    }
}

/// The same for a conversation in stages.
pub proof fn lemma_stage_explains_failure<S: Stage>(
    start: Progress<Explained<S>, Result<S::Output, BluetoothError>>,
    before: Seq<Reply>,
    asked: Seq<Command>,
    stage: S,
    command: Command,
)
    requires
        leads_to(start, before, asked, Progress::Call(Explained::Running(stage), command)),
        forall|failure: JniError|
            {
                &&& stage.stage_wanted().admits(Reply::Failed(failure))
                &&& #[trigger] stage.stage_next(Reply::Failed(failure)) == Progress::<
                    S,
                    Result<S::Output, Trouble>,
                >::Finish(Err(Trouble::Failed(failure)))
            },
    ensures
        explains_failure_at(start, before, just_the_error::<S::Output>()),
{
    let hold = |progress: Progress<Jerr, BluetoothError>| Explained::<S>::of_jerr(progress);
    let op = Explained::Running(stage);
    assert forall|failure: JniError|
        {
            &&& op.wanted().admits(Reply::Failed(failure))
            &&& #[trigger] op.next(Reply::Failed(failure)) == hold(error::explaining(failure))
        } by {
        assert(stage.stage_next(Reply::Failed(failure)) is Finish);
    }
    lemma_explains_failure(
        start,
        before,
        asked,
        op,
        command,
        hold,
        just_the_error::<S::Output>(),
    );
}

/// One step of a conversation in stages that is as yet without failure, and the failure that can
/// come in its place.
pub proof fn lemma_stage_walk<S: Stage>(
    start: Progress<Explained<S>, Result<S::Output, BluetoothError>>,
    replies: Seq<Reply>,
    asked: Seq<Command>,
    k: int,
    stage: S,
)
    requires
        0 <= k < replies.len(),
        k < asked.len(),
        k == 0 ==> start == Progress::<Explained<S>, Result<S::Output, BluetoothError>>::Call(
            Explained::Running(stage),
            asked[0],
        ),
        k > 0 ==> leads_to(
            start,
            replies.take(k),
            asked.take(k),
            Progress::Call(Explained::Running(stage), asked[k]),
        ),
        stage.stage_wanted().admits(replies[k]),
        forall|failure: JniError|
            {
                &&& stage.stage_wanted().admits(Reply::Failed(failure))
                &&& #[trigger] stage.stage_next(Reply::Failed(failure)) == Progress::<
                    S,
                    Result<S::Output, Trouble>,
                >::Finish(Err(Trouble::Failed(failure)))
            },
    ensures
        explains_failure_at(start, replies.take(k), just_the_error::<S::Output>()),
        leads_to(
            start,
            replies.take(k + 1),
            asked.take(k + 1),
            Explained::of(stage.stage_next(replies[k])),
        ),
        k + 1 == replies.len() && k + 1 == asked.len() ==> leads_to(
            start,
            replies,
            asked,
            Explained::of(stage.stage_next(replies[k])),
        ),
{
    lemma_walk(start, replies, asked, k, Explained::Running(stage));
    lemma_stage_explains_failure(start, replies.take(k), asked.take(k), stage, asked[k]);
}

} // verus!
