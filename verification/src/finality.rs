//! Waiting for a block to be finalized.

use crate::api::F1r3flyApi;
use crate::error::{outcome, ApiError, ErrorView};
use vstd::prelude::*;

verus! {

/// A request whether a block is finalized.
#[derive(Debug)]
pub struct IsFinalizedQuery {
    pub hash: String,
}

/// What came of asking once whether a block is finalized.
#[derive(Debug)]
pub enum FinalityReply {
    /// There was no connection to the node, and what was said of it.
    NotConnected(String),
    /// The call failed.
    Failed,
    /// The node replied without a message.
    Empty,
    /// The node reported an error.
    Error,
    /// The node said whether the block is finalized.
    IsFinalized(bool),
}

/// How far the waiting has come.
#[derive(Debug, Clone, Copy, PartialEq, Eq, Structural)]
pub struct FinalityCheck {
    /// How often the node was asked.
    pub attempts: u32,
    pub max_attempts: u32,
    /// How long to wait between one question and the next.
    pub retry_delay_sec: u64,
}

/// What to do after a reply.
#[derive(Debug)]
pub enum FinalityStep {
    /// Wait for the delay, then ask again.
    Retry(FinalityCheck),
    /// Stop.
    Finished(Result<bool, ApiError>),
}

/// The mathematical value of a [`FinalityStep`].
pub enum FinalityView {
    Retry(FinalityCheck),
    Finished(Result<bool, ErrorView>),
}

impl View for FinalityStep {
    type V = FinalityView;

    open spec fn view(&self) -> FinalityView {
        match *self {
            FinalityStep::Retry(check) => FinalityView::Retry(check),
            FinalityStep::Finished(res) => FinalityView::Finished(outcome(res)),
        }
    }
}

impl FinalityCheck {
    /// Whether the node is still to be asked: for the first time, or because attempts are left.
    pub open spec fn wf(self) -> bool {
        self.attempts == 0 || self.attempts < self.max_attempts
    }

    /// The state after one more attempt.
    pub open spec fn counted(self) -> FinalityCheck {
        FinalityCheck { attempts: (self.attempts + 1) as u32, ..self }
    }
}

/// What follows from a reply. A failed call is an error only if it was the last attempt.
pub open spec fn after_finality(check: FinalityCheck, reply: FinalityReply) -> FinalityView {
    let last = check.attempts + 1 >= check.max_attempts;
    match reply {
        FinalityReply::NotConnected(said) => FinalityView::Finished(
            Err(ErrorView::Transport(said@)),
        ),
        FinalityReply::Error => FinalityView::Finished(Err(ErrorView::FinalizationUnknown)),
        FinalityReply::IsFinalized(true) => FinalityView::Finished(Ok(true)),
        FinalityReply::Failed => if last {
            FinalityView::Finished(Err(ErrorView::NodeUnreachable))
        } else {
            FinalityView::Retry(check.counted())
        },
        _ => if last {
            FinalityView::Finished(Ok(false))
        } else {
            FinalityView::Retry(check.counted())
        },
    }
}

/// Whether a reply settles nothing.
pub open spec fn is_inconclusive(reply: FinalityReply) -> bool {
    reply is Failed || reply is Empty || reply == FinalityReply::IsFinalized(false)
}

/// What comes of waiting, given what the node would reply to one question after the other; none
/// where it does not come to an end with the replies given.
pub open spec fn finality_run(
    check: FinalityCheck,
    replies: Seq<FinalityReply>,
) -> Option<Result<bool, ErrorView>>
    decreases replies.len(),
{
    if replies.len() == 0 {
        None
    } else {
        match after_finality(check, replies.first()) {
            FinalityView::Retry(next) => finality_run(next, replies.drop_first()),
            FinalityView::Finished(res) => Some(res),
        }
    }
}

/// How often the node is asked from a state on at most: at least once.
pub open spec fn questions_left(check: FinalityCheck) -> int {
    if check.max_attempts > check.attempts {
        check.max_attempts - check.attempts
    } else {
        1
    }
}

impl<'a> F1r3flyApi<'a> {
    /// Begins to wait for a block to be finalized.
    pub fn is_finalized(&self, max_attempts: u32, retry_delay_sec: u64) -> (res: FinalityCheck)
        ensures
            res == (FinalityCheck { attempts: 0, max_attempts, retry_delay_sec }),
            res.wf(),
    {
        FinalityCheck { attempts: 0, max_attempts, retry_delay_sec }
    }

    /// Asks whether a block is finalized.
    pub fn is_finalized_query(&self, block_hash: &str) -> (res: IsFinalizedQuery)
        ensures
            res.hash@ == block_hash@,
    {
        IsFinalizedQuery { hash: block_hash.to_string() }
    }
}

/// Takes in a reply to the question whether the block is finalized.
pub fn take_reply(check: FinalityCheck, reply: FinalityReply) -> (res: FinalityStep)
    requires
        check.wf(),
    ensures
        res@ == after_finality(check, reply),
        res matches FinalityStep::Retry(next) ==> next.wf() && next.attempts > check.attempts,
        res matches FinalityStep::Retry(next) ==> {
            &&& next.attempts == check.attempts + 1
            &&& next.max_attempts == check.max_attempts
            &&& next.retry_delay_sec == check.retry_delay_sec
        },
        reply matches FinalityReply::NotConnected(said) ==> (res matches FinalityStep::Finished(
            Err(ApiError::Transport(t)),
        ) && t@ == said@),
        reply is Error ==> res matches FinalityStep::Finished(Err(ApiError::FinalizationUnknown)),
        reply == FinalityReply::IsFinalized(true) ==> res matches FinalityStep::Finished(Ok(true)),
        res matches FinalityStep::Finished(Ok(true)) ==> reply == FinalityReply::IsFinalized(true),
        reply is Failed || reply is Empty || reply == FinalityReply::IsFinalized(false) ==> {
            &&& res is Retry <==> check.attempts + 1 < check.max_attempts
            &&& !(res is Retry) && reply is Failed ==> (res matches FinalityStep::Finished(
                Err(ApiError::NodeUnreachable),
            ))
            &&& !(res is Retry) && !(reply is Failed) ==> (res matches FinalityStep::Finished(
                Ok(false),
            ))
        },
{
    let attempts: u32 = check.attempts + 1;
    let last = attempts >= check.max_attempts;
    let next = FinalityCheck { attempts, ..check };
    match reply {
        FinalityReply::NotConnected(said) => FinalityStep::Finished(Err(ApiError::Transport(said))),
        FinalityReply::Error => FinalityStep::Finished(Err(ApiError::FinalizationUnknown)),
        FinalityReply::Failed => if last {
            FinalityStep::Finished(Err(ApiError::NodeUnreachable))
        } else {
            FinalityStep::Retry(next)
        },
        FinalityReply::IsFinalized(finalized) => if finalized {
            FinalityStep::Finished(Ok(true))
        } else if last {
            FinalityStep::Finished(Ok(false))
        } else {
            FinalityStep::Retry(next)
        },
        FinalityReply::Empty => if last {
            FinalityStep::Finished(Ok(false))
        } else {
            FinalityStep::Retry(next)
        },
    }
}

/// The waiting comes to an end: the node is asked no more often than the attempts allow, and once
/// where they allow none.
pub proof fn lemma_waiting_ends(check: FinalityCheck, replies: Seq<FinalityReply>)
    requires
        check.wf(),
        replies.len() >= questions_left(check),
    ensures
        finality_run(check, replies) is Some,
        finality_run(check, replies) == finality_run(check, replies.take(questions_left(check))),
    decreases replies.len(),
{
    let n = questions_left(check);
    let first = replies.take(n);
    assert(first.first() == replies.first());
    match after_finality(check, replies.first()) {
        FinalityView::Retry(next) => {
            lemma_waiting_ends(next, replies.drop_first());
            assert(questions_left(next) == n - 1);
            assert(first.drop_first() =~= replies.drop_first().take(n - 1));
        },
        FinalityView::Finished(_) => {},
    }
}

/// A block is held to be finalized exactly where the node says so in time, before anything else
/// settles the question.
pub proof fn lemma_finalized_means_said_in_time(check: FinalityCheck, replies: Seq<FinalityReply>)
    requires
        check.wf(),
    ensures
        finality_run(check, replies) == Some(Ok::<bool, ErrorView>(true)) <==> exists|k: int|
            #![trigger replies[k]]
            {
                &&& 0 <= k < replies.len()
                &&& k < questions_left(check)
                &&& replies[k] == FinalityReply::IsFinalized(true)
                &&& forall|j: int| 0 <= j < k ==> is_inconclusive(#[trigger] replies[j])
            },
    decreases replies.len(),
{
    if replies.len() > 0 {
        let rest = replies.drop_first();
        match after_finality(check, replies.first()) {
            FinalityView::Retry(next) => {
                lemma_finalized_means_said_in_time(next, rest);
                assert(is_inconclusive(replies[0]));
                if finality_run(next, rest) == Some(Ok::<bool, ErrorView>(true)) {
                    let k = choose|k: int|
                        #![trigger rest[k]]
                        {
                            &&& 0 <= k < rest.len()
                            &&& k < questions_left(next)
                            &&& rest[k] == FinalityReply::IsFinalized(true)
                            &&& forall|j: int| 0 <= j < k ==> is_inconclusive(#[trigger] rest[j])
                        };
                    assert(replies[k + 1] == rest[k]);
                    assert forall|j: int| 0 <= j < k + 1 implies is_inconclusive(
                        #[trigger] replies[j],
                    ) by {
                        if j > 0 {
                            assert(replies[j] == rest[j - 1]);
                        }
                    }
                }
                if exists|k: int|
                    #![trigger replies[k]]
                    {
                        &&& 0 <= k < replies.len()
                        &&& k < questions_left(check)
                        &&& replies[k] == FinalityReply::IsFinalized(true)
                        &&& forall|j: int| 0 <= j < k ==> is_inconclusive(#[trigger] replies[j])
                    } {
                    let k = choose|k: int|
                        #![trigger replies[k]]
                        {
                            &&& 0 <= k < replies.len()
                            &&& k < questions_left(check)
                            &&& replies[k] == FinalityReply::IsFinalized(true)
                            &&& forall|j: int| 0 <= j < k ==> is_inconclusive(#[trigger] replies[j])
                        };
                    assert(k > 0);
                    assert(rest[k - 1] == replies[k]);
                    assert forall|j: int| 0 <= j < k - 1 implies is_inconclusive(
                        #[trigger] rest[j],
                    ) by {
                        assert(rest[j] == replies[j + 1]);
                    }
                }
            },
            FinalityView::Finished(res) => {
                if replies[0] == FinalityReply::IsFinalized(true) {
                    assert(finality_run(check, replies) == Some(Ok::<bool, ErrorView>(true)));
                } else {
                    assert(questions_left(check) == 1 || !is_inconclusive(replies[0]));
                }
            },
        }
    }
}

/// A block is held not to be finalized only where every attempt was made and none settled the
/// question, the last one being no failed call.
pub proof fn lemma_not_finalized_means_all_attempts_made(
    check: FinalityCheck,
    replies: Seq<FinalityReply>,
)
    requires
        check.wf(),
    ensures
        finality_run(check, replies) == Some(Ok::<bool, ErrorView>(false)) <==> {
            &&& questions_left(check) <= replies.len()
            &&& forall|j: int|
                0 <= j < questions_left(check) ==> is_inconclusive(#[trigger] replies[j])
            &&& !(replies[questions_left(check) - 1] is Failed)
        },
    decreases replies.len(),
{
    if replies.len() > 0 {
        let rest = replies.drop_first();
        let n = questions_left(check);
        match after_finality(check, replies.first()) {
            FinalityView::Retry(next) => {
                lemma_not_finalized_means_all_attempts_made(next, rest);
                assert(questions_left(next) == n - 1);
                assert(is_inconclusive(replies[0]));
                if n <= replies.len() {
                    assert(rest[n - 2] == replies[n - 1]);
                }
                if finality_run(next, rest) == Some(Ok::<bool, ErrorView>(false)) {
                    assert forall|j: int| 0 <= j < n implies is_inconclusive(
                        #[trigger] replies[j],
                    ) by {
                        if j > 0 {
                            assert(replies[j] == rest[j - 1]);
                        }
                    }
                }
                if n <= replies.len() && forall|j: int|
                    0 <= j < n ==> is_inconclusive(#[trigger] replies[j]) {
                    assert forall|j: int| 0 <= j < n - 1 implies is_inconclusive(
                        #[trigger] rest[j],
                    ) by {
                        assert(rest[j] == replies[j + 1]);
                    }
                }
            },
            FinalityView::Finished(res) => {
                if is_inconclusive(replies[0]) {
                    assert(n == 1);
                }
            },
        }
    }
}

} // verus!
