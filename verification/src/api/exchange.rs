//! The wait for a message, as a machine: an event comes in, the next action
//! goes out.
//!
//! A wait looks at the queue until it is given the message it waits for, or
//! fails. Keepalives that arrive meanwhile are answered. At most one message is
//! held at a time, and whoever performs an action that ends the hold releases
//! the message.

use crate::api::client;
use crate::api::client::{
    Arrival, Client, ClientView, Error, ErrorView, Pending, Poll, CONNECT_TIMEOUT_SECONDS,
    DISCONNECT_TIMEOUT_SECONDS,
};
use crate::api::codec::CodecError;
use crate::api::memclnt::{MemclntKeepalive, MemclntKeepaliveReply, MEMCLNT_CREATE_V2_REPLY_ID};
use crate::api::message::Identity;
use crate::shmem::queue::SvmQueueError;
use vstd::prelude::*;

verus! {

/// What is waited for.
pub enum Goal {
    /// The answer to a registration, sent to the segment at `path`.
    Registration { path: Vec<u8> },
    /// The reply to a request.
    Reply(Pending),
    /// The answer to a delete request.
    Deletion { reply_id: u16, client_index: u32 },
}

/// The view of a [`Goal`].
pub enum GoalView {
    Registration { path: Seq<u8> },
    Reply(Pending),
    Deletion { reply_id: u16, client_index: u32 },
}

impl View for Goal {
    type V = GoalView;

    open spec fn view(&self) -> GoalView {
        match *self {
            Goal::Registration { path } => GoalView::Registration { path: path@ },
            Goal::Reply(pending) => GoalView::Reply(pending),
            Goal::Deletion { reply_id, client_index } => GoalView::Deletion {
                reply_id,
                client_index,
            },
        }
    }
}

impl GoalView {
    /// The number of the message that ends the wait.
    pub open spec fn awaited_id(self) -> u16 {
        match self {
            GoalView::Registration { .. } => MEMCLNT_CREATE_V2_REPLY_ID,
            GoalView::Reply(pending) => pending.reply_id,
            GoalView::Deletion { reply_id, .. } => reply_id,
        }
    }

    /// The failure of a wait that took too long.
    pub open spec fn expiry(self) -> ErrorView {
        match self {
            GoalView::Registration { path } => ErrorView::ConnectTimeout { path },
            GoalView::Reply(pending) => ErrorView::ResponseTimeout { context: pending.context },
            GoalView::Deletion { client_index, .. } => ErrorView::DisconnectTimeout {
                client_index,
            },
        }
    }

    /// The failure of a wait that another message ends: while a reply is waited
    /// for, no other message may come.
    pub open spec fn intrusion(self, id: u16) -> Option<ErrorView> {
        match self {
            GoalView::Reply(pending) => Some(
                ErrorView::UnexpectedMessage { id, expected: pending.reply_id },
            ),
            _ => None,
        }
    }
}

impl Goal {
    /// Seconds the wait may take. That of a registration counts from the
    /// beginning of the connection attempt, and the others from the request.
    pub fn limit_seconds(&self) -> (seconds: u64)
        ensures
            seconds == (match self@ {
                GoalView::Registration { .. } => CONNECT_TIMEOUT_SECONDS,
                GoalView::Reply(_) => CONNECT_TIMEOUT_SECONDS,
                GoalView::Deletion { .. } => DISCONNECT_TIMEOUT_SECONDS,
            }),
    {
        match self {
            Goal::Registration { .. } | Goal::Reply(_) => CONNECT_TIMEOUT_SECONDS,
            Goal::Deletion { .. } => DISCONNECT_TIMEOUT_SECONDS,
        }
    }
}

/// Where a wait stands.
#[derive(Clone, Copy, Debug, Eq, PartialEq, Structural)]
pub enum Stage {
    /// Looking at the queue; no message is held.
    Looking,
    /// A message was taken; it is held.
    Opening,
    /// A held keepalive is being decoded; its release comes with it.
    Decoding,
    /// An answer to a keepalive is being sent; no message is held.
    Answering,
    /// The wait is over.
    Over,
}

/// What happened.
pub enum Event {
    /// One look at the queue, and whether the deadline has passed.
    Looked { taken: Result<usize, SvmQueueError>, expired: bool },
    /// The held message was opened: its number, or the failure to read it.
    Opened(Result<u16, Error>),
    /// The held keepalive was decoded and released.
    Decoded(Result<MemclntKeepalive, CodecError>),
    /// The answer to a keepalive was sent, or could not be.
    Sent(Result<(), Error>),
}

/// What to do next.
pub enum Action {
    /// Look at the queue.
    Look,
    /// Wait a while, and look at the queue.
    Rest,
    /// Open the message at the address.
    Open(usize),
    /// Decode the held message as a keepalive, and release it.
    DecodeKeepalive,
    /// Send the answer to a keepalive.
    Answer(MemclntKeepaliveReply),
    /// Release the held message, and look at the queue.
    Discard,
    /// Decode the held message as the awaited one, and release it.
    Deliver,
    /// Release the held message, and fail.
    Refuse(Error),
    /// Fail. A message that could not be read is not released.
    Fail(Error),
}

/// The view of an [`Action`].
pub enum ActionView {
    Look,
    Rest,
    Open(usize),
    DecodeKeepalive,
    Answer(MemclntKeepaliveReply),
    Discard,
    Deliver,
    Refuse(ErrorView),
    Fail(ErrorView),
}

impl View for Action {
    type V = ActionView;

    open spec fn view(&self) -> ActionView {
        match *self {
            Action::Look => ActionView::Look,
            Action::Rest => ActionView::Rest,
            Action::Open(address) => ActionView::Open(address),
            Action::DecodeKeepalive => ActionView::DecodeKeepalive,
            Action::Answer(reply) => ActionView::Answer(reply),
            Action::Discard => ActionView::Discard,
            Action::Deliver => ActionView::Deliver,
            Action::Refuse(error) => ActionView::Refuse(error@),
            Action::Fail(error) => ActionView::Fail(error@),
        }
    }
}

/// The names with checksums of a keepalive and of its answer.
#[derive(Debug)]
pub struct KeepaliveNames {
    pub request: Identity<MemclntKeepalive>,
    pub reply: Identity<MemclntKeepaliveReply>,
}

/// Whether an event can happen at a stage.
pub open spec fn happens(stage: Stage, event: Event) -> bool {
    match event {
        Event::Looked { .. } => stage is Looking,
        Event::Opened(_) => stage is Opening,
        Event::Decoded(_) => stage is Decoding,
        Event::Sent(_) => stage is Answering,
    }
}

/// The stage and the action behind one look at the queue.
pub open spec fn after_look(
    goal: GoalView,
    taken: Result<usize, SvmQueueError>,
    expired: bool,
) -> (Stage, ActionView) {
    match taken {
        Ok(address) => (Stage::Opening, ActionView::Open(address)),
        Err(SvmQueueError::Empty) => if expired {
            (Stage::Over, ActionView::Fail(goal.expiry()))
        } else {
            (Stage::Looking, ActionView::Rest)
        },
        Err(source) => (Stage::Over, ActionView::Fail(ErrorView::Queue { source })),
    }
}

/// The stage and the action behind the number of a held message: a keepalive
/// comes first, the awaited message next, and any other last.
pub open spec fn after_number(
    client: ClientView,
    goal: GoalView,
    id: u16,
    keepalive: Seq<char>,
) -> (Stage, ActionView) {
    if client.handle_keepalives && client::id_of(client.message_ids, keepalive) == Some(id) {
        (Stage::Decoding, ActionView::DecodeKeepalive)
    } else if id == goal.awaited_id() {
        (Stage::Over, ActionView::Deliver)
    } else {
        match goal.intrusion(id) {
            Some(error) => (Stage::Over, ActionView::Refuse(error)),
            None => (Stage::Looking, ActionView::Discard),
        }
    }
}

/// The stage and the action behind an event.
pub open spec fn after(
    client: ClientView,
    goal: GoalView,
    names: KeepaliveNames,
    event: Event,
) -> (Stage, ActionView) {
    match event {
        Event::Looked { taken, expired } => after_look(goal, taken, expired),
        Event::Opened(Ok(id)) => after_number(client, goal, id, names.request@),
        Event::Opened(Err(error)) => (Stage::Over, ActionView::Fail(error@)),
        Event::Decoded(Ok(request)) => match client::required_id(
            client.message_ids,
            names.reply@,
        ) {
            Ok(id) => (
                Stage::Answering,
                ActionView::Answer(
                    MemclntKeepaliveReply { id, context: request.client_index, retval: 0 },
                ),
            ),
            Err(error) => (Stage::Over, ActionView::Fail(error)),
        },
        Event::Decoded(Err(source)) => (
            Stage::Over,
            ActionView::Fail(ErrorView::Codec { source }),
        ),
        Event::Sent(Ok(_)) => (Stage::Looking, ActionView::Look),
        Event::Sent(Err(error)) => (Stage::Over, ActionView::Fail(error@)),
    }
}

/// Decides about an arrived number, or the want of a message.
fn arrival(goal: &Goal, id: Option<u16>) -> (arrival: Arrival)
    ensures
        match (arrival, id) {
            (Arrival::Decode, Some(found)) => found == goal@.awaited_id(),
            (Arrival::Discard, Some(found)) => found != goal@.awaited_id() && goal@.intrusion(
                found,
            ) is None,
            (Arrival::Failed(error), Some(found)) => found != goal@.awaited_id()
                && goal@.intrusion(found) == Some(error@),
            (Arrival::Failed(error), None) => error@ == goal@.expiry(),
            _ => false,
        },
{
    match goal {
        Goal::Registration { path } => client::registration_arrival(id, path.as_slice()),
        Goal::Reply(pending) => client::reply_arrival(pending, id),
        Goal::Deletion { reply_id, client_index } => client::deletion_arrival(
            id,
            *reply_id,
            *client_index,
        ),
    }
}

/// Takes an event of a wait and gives the next action.
pub fn advance(
    client: &Client,
    goal: &Goal,
    names: &KeepaliveNames,
    stage: &mut Stage,
    event: Event,
) -> (action: Action)
    requires
        happens(*old(stage), event),
    ensures
        (*final(stage), action@) == after(client@, goal@, *names, event),
{
    match event {
        Event::Looked { taken, expired } => match client::poll(taken, expired) {
            Poll::Taken(address) => {
                *stage = Stage::Opening;
                Action::Open(address)
            },
            Poll::Again => {
                *stage = Stage::Looking;
                Action::Rest
            },
            Poll::Expired => {
                *stage = Stage::Over;
                match arrival(goal, None) {
                    Arrival::Failed(error) => Action::Fail(error),
                    _ => {
                        assert(false);
                        Action::Look
                    },
                }
            },
            Poll::Failed(error) => {
                *stage = Stage::Over;
                Action::Fail(error)
            },
        },
        Event::Opened(Ok(id)) => {
            if client.is_keepalive(id, &names.request) {
                *stage = Stage::Decoding;
                return Action::DecodeKeepalive;
            }
            match arrival(goal, Some(id)) {
                Arrival::Decode => {
                    *stage = Stage::Over;
                    Action::Deliver
                },
                Arrival::Discard => {
                    *stage = Stage::Looking;
                    Action::Discard
                },
                Arrival::Failed(error) => {
                    *stage = Stage::Over;
                    Action::Refuse(error)
                },
            }
        },
        Event::Opened(Err(error)) => {
            *stage = Stage::Over;
            Action::Fail(error)
        },
        Event::Decoded(Ok(request)) => match client.keepalive_reply(&request, &names.reply) {
            Ok(reply) => {
                *stage = Stage::Answering;
                Action::Answer(reply)
            },
            Err(error) => {
                *stage = Stage::Over;
                Action::Fail(error)
            },
        },
        Event::Decoded(Err(source)) => {
            *stage = Stage::Over;
            Action::Fail(Error::Codec { source })
        },
        Event::Sent(Ok(_)) => {
            *stage = Stage::Looking;
            Action::Look
        },
        Event::Sent(Err(error)) => {
            *stage = Stage::Over;
            Action::Fail(error)
        },
    }
}

/// Whether performing an action releases the held message.
pub open spec fn releases(action: ActionView) -> bool {
    action is DecodeKeepalive || action is Discard || action is Deliver || action is Refuse
}

/// A held message is released exactly once: an action releases a message only
/// while one is held that was not released, and a message that could be read is
/// released by the very next action.
pub proof fn law_messages_are_released(
    client: ClientView,
    goal: GoalView,
    names: KeepaliveNames,
    stage: Stage,
    event: Event,
)
    requires
        happens(stage, event),
    ensures
        releases(after(client, goal, names, event).1) <==> stage is Opening
            && event matches Event::Opened(Ok(_)),
        after(client, goal, names, event).0 is Opening <==> after(
            client,
            goal,
            names,
            event,
        ).1 is Open,
{
}

/// A wait is over exactly when it delivers, refuses or fails, and only the
/// awaited message is delivered.
pub proof fn law_wait_ends(
    client: ClientView,
    goal: GoalView,
    names: KeepaliveNames,
    event: Event,
)
    ensures
        ({
            let (stage, action) = after(client, goal, names, event);
            &&& stage is Over <==> action is Deliver || action is Refuse || action is Fail
            &&& action is Deliver ==> event == Event::Opened(Ok(goal.awaited_id()))
        }),
{
}

/// The answer to a keepalive carries the index of the request as its context.
pub proof fn law_keepalives_are_answered(
    client: ClientView,
    goal: GoalView,
    names: KeepaliveNames,
    request: MemclntKeepalive,
)
    requires
        client.message_ids.dom().contains(names.reply@),
    ensures
        after(client, goal, names, Event::Decoded(Ok(request))) == (
            Stage::Answering,
            ActionView::Answer(
                MemclntKeepaliveReply {
                    id: client.message_ids[names.reply@],
                    context: request.client_index,
                    retval: 0,
                },
            ),
        ),
{
}

/// A look that takes a message opens it, an empty queue is looked at again until
/// the deadline, and any other failure of the queue ends the wait.
pub proof fn law_looks(
    client: ClientView,
    goal: GoalView,
    names: KeepaliveNames,
    taken: Result<usize, SvmQueueError>,
    expired: bool,
)
    ensures
        ({
            let (stage, action) = after(client, goal, names, Event::Looked { taken, expired });
            &&& taken matches Ok(address) ==> action == ActionView::Open(address)
            &&& taken matches Err(source) ==> source is Empty && !expired ==> action
                == ActionView::Rest
            &&& taken matches Err(source) ==> !(source is Empty) ==> action == ActionView::Fail(
                (ErrorView::Queue { source }),
            )
            &&& taken matches Err(source) ==> source is Empty && expired ==> action
                == ActionView::Fail(
                (match goal {
                    GoalView::Registration { path } => ErrorView::ConnectTimeout { path },
                    GoalView::Reply(pending) => ErrorView::ResponseTimeout {
                        context: pending.context,
                    },
                    GoalView::Deletion { client_index, .. } => ErrorView::DisconnectTimeout {
                        client_index,
                    },
                }),
            )
        }),
{
}

/// A keepalive is answered where the client does so, whatever is waited for. Of
/// all other messages a registration waits for number 26 and a deletion for its
/// own reply, past any other; a reply waits for its own, and another one ends it.
pub proof fn law_opened_messages(
    client: ClientView,
    goal: GoalView,
    names: KeepaliveNames,
    id: u16,
)
    ensures
        ({
            let (stage, action) = after(client, goal, names, Event::Opened(Ok(id)));
            let keepalive = client.handle_keepalives && client.message_ids.dom().contains(
                names.request@,
            ) && client.message_ids[names.request@] == id;
            &&& keepalive <==> action is DecodeKeepalive
            &&& !keepalive && goal is Registration ==> action == (if id == 26 {
                ActionView::Deliver
            } else {
                ActionView::Discard
            })
            &&& goal matches GoalView::Deletion { reply_id, .. } ==> !keepalive ==> action == (
            if id == reply_id {
                ActionView::Deliver
            } else {
                ActionView::Discard
            })
            &&& goal matches GoalView::Reply(pending) ==> !keepalive ==> action == (if id
                == pending.reply_id {
                ActionView::Deliver
            } else {
                ActionView::Refuse(
                    (ErrorView::UnexpectedMessage { id, expected: pending.reply_id }),
                )
            })
        }),
{
}

/// A failure to open, to decode or to send ends the wait with that failure, and
/// an answer that was sent lets it go on.
pub proof fn law_failed_exchanges(
    client: ClientView,
    goal: GoalView,
    names: KeepaliveNames,
    error: Error,
    source: CodecError,
    request: MemclntKeepalive,
)
    ensures
        after(client, goal, names, Event::Opened(Err(error))).1 == ActionView::Fail(error@),
        after(client, goal, names, Event::Sent(Err(error))).1 == ActionView::Fail(error@),
        after(client, goal, names, Event::Sent(Ok(()))).1 == ActionView::Look,
        after(client, goal, names, Event::Decoded(Err(source))).1 == ActionView::Fail(
            (ErrorView::Codec { source }),
        ),
        !client.message_ids.dom().contains(names.reply@) ==> after(
            client,
            goal,
            names,
            Event::Decoded(Ok(request)),
        ).1 == ActionView::Fail((ErrorView::MessageUnavailable { name_crc: names.reply@ })),
{
}

/// A registration and a reply may take ten seconds, and a deletion two.
pub proof fn law_limits(goal: &Goal, seconds: u64)
    requires
        call_ensures(Goal::limit_seconds, (goal,), seconds),
    ensures
        seconds == (if goal@ is Deletion {
            2u64
        } else {
            10u64
        }),
{
}

} // verus!
