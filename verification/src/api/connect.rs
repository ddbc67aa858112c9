//! The way to a connection, as a machine: an event comes in, the next action
//! goes out.
//!
//! A region is attached once it is ready, the server's header is awaited and
//! checked, a queue is allocated for the replies, and the client registers
//! itself. The answer to the registration is awaited as any other message, and
//! concludes the way.

use crate::api::client;
use crate::api::client::{Client, ClientView, Error, ErrorView, Wait};
use crate::api::codec::CodecError;
use crate::api::exchange::{Goal, GoalView};
use crate::api::memclnt::{MemclntCreateV2, MemclntCreateV2Reply, MemclntDeleteReply};
use crate::api::memory::MemoryError;
use crate::api::value;
use crate::shmem::region;
use crate::shmem::region::{RegionExtent, SvmRegion, SvmRegionError};
use vstd::prelude::*;
use vstd::slice::*;
use vstd::utf8::*;

verus! {

/// Where a connection attempt stands.
#[derive(Clone, Copy, Debug, Eq, PartialEq, Structural)]
pub enum ConnectStage {
    /// The region is being attached.
    Attaching,
    /// The address of the server's header is awaited.
    AwaitingHeader,
    /// The header is being checked.
    Checking,
    /// The queue for replies is being allocated.
    Allocating,
    /// The registration is being sent.
    Registering,
    /// The registration was sent.
    Registered,
    /// The attempt has failed.
    Over,
}

/// What happened.
pub enum ConnectEvent {
    /// An attach, and whether the deadline has passed.
    Attached { result: Result<(), SvmRegionError>, expired: bool },
    /// A look for the header's address, and whether the deadline has passed.
    Found { address: Option<usize>, expired: bool },
    /// The header was checked.
    Checked(Result<(), MemoryError>),
    /// A queue was allocated at an address.
    Allocated(Result<u64, Error>),
    /// The registration was sent, or could not be.
    Sent(Result<(), Error>),
}

/// What to do next.
pub enum ConnectAction {
    /// Wait a while, and attach the region again.
    AttachAgain,
    /// Look for the address of the header.
    FindHeader,
    /// Wait a while, and look for the address of the header again.
    FindHeaderAgain,
    /// Check the header at the address.
    Check(usize),
    /// Allocate a queue for replies.
    Allocate,
    /// Send the registration.
    Register(MemclntCreateV2),
    /// Await the answer to the registration.
    Await(Goal),
    /// Fail.
    Fail(Error),
}

/// Whether an event can happen at a stage.
pub open spec fn happens(stage: ConnectStage, event: ConnectEvent) -> bool {
    match event {
        ConnectEvent::Attached { .. } => stage is Attaching,
        ConnectEvent::Found { .. } => stage is AwaitingHeader,
        ConnectEvent::Checked(_) => stage is Checking,
        ConnectEvent::Allocated(_) => stage is Allocating,
        ConnectEvent::Sent(_) => stage is Registering,
    }
}

/// Whether an action is to fail with an error.
pub open spec fn fails_with(action: ConnectAction, error: ErrorView) -> bool {
    action matches ConnectAction::Fail(found) && found@ == error
}

/// Whether an action is to register a client.
pub open spec fn sends_registration(
    action: ConnectAction,
    client: ClientView,
    name: Seq<char>,
    input_queue: u64,
) -> bool {
    action matches ConnectAction::Register(request) && client::is_registration(
        request,
        client,
        name,
        input_queue,
    )
}

/// Whether an action is to await the answer to a registration.
pub open spec fn awaits_registration(action: ConnectAction, path: Seq<u8>) -> bool {
    action matches ConnectAction::Await(goal) && goal@ == (GoalView::Registration { path })
}

/// Whether `stage` and `action` are what follows an event.
pub open spec fn follows(
    client: ClientView,
    name: Seq<char>,
    path: Seq<u8>,
    event: ConnectEvent,
    stage: ConnectStage,
    action: ConnectAction,
) -> bool {
    match event {
        ConnectEvent::Attached { result: Ok(_), .. } => stage is AwaitingHeader && action
            is FindHeader,
        ConnectEvent::Attached { result: Err(source), expired } => if region::may_come(source)
            && !expired {
            stage is Attaching && action is AttachAgain
        } else {
            stage is Over && fails_with(action, ErrorView::Region { source })
        },
        ConnectEvent::Found { address: Some(found), .. } => stage is Checking && action
            == ConnectAction::Check(found),
        ConnectEvent::Found { address: None, expired } => if expired {
            stage is Over && fails_with(action, ErrorView::ConnectTimeout { path })
        } else {
            stage is AwaitingHeader && action is FindHeaderAgain
        },
        ConnectEvent::Checked(Ok(_)) => stage is Allocating && action is Allocate,
        ConnectEvent::Checked(Err(source)) => stage is Over && fails_with(
            action,
            ErrorView::Memory { source },
        ),
        ConnectEvent::Allocated(Ok(input_queue)) => stage is Registering && sends_registration(
            action,
            client,
            name,
            input_queue,
        ),
        ConnectEvent::Allocated(Err(cause)) => stage is Over && fails_with(action, cause@),
        ConnectEvent::Sent(Ok(_)) => stage is Registered && awaits_registration(action, path),
        ConnectEvent::Sent(Err(cause)) => stage is Over && fails_with(action, cause@),
    }
}

/// Takes an event of a connection attempt and gives the next action.
pub fn advance(
    client: &Client,
    name: &str,
    path: &[u8],
    stage: &mut ConnectStage,
    event: ConnectEvent,
) -> (action: ConnectAction)
    requires
        happens(*old(stage), event),
    ensures
        follows(client@, name@, path@, event, *final(stage), action),
{
    match event {
        ConnectEvent::Attached { result: Ok(_), .. } => {
            *stage = ConnectStage::AwaitingHeader;
            ConnectAction::FindHeader
        },
        ConnectEvent::Attached { result: Err(source), expired } => {
            match client::attach_failure(source, expired) {
                None => ConnectAction::AttachAgain,
                Some(error) => {
                    *stage = ConnectStage::Over;
                    ConnectAction::Fail(error)
                },
            }
        },
        ConnectEvent::Found { address, expired } => {
            match client::await_context(address, expired, path) {
                Wait::Ready(found) => {
                    *stage = ConnectStage::Checking;
                    ConnectAction::Check(found)
                },
                Wait::Again => ConnectAction::FindHeaderAgain,
                Wait::Failed(error) => {
                    *stage = ConnectStage::Over;
                    ConnectAction::Fail(error)
                },
            }
        },
        ConnectEvent::Checked(Ok(_)) => {
            *stage = ConnectStage::Allocating;
            ConnectAction::Allocate
        },
        ConnectEvent::Checked(Err(source)) => {
            *stage = ConnectStage::Over;
            ConnectAction::Fail(Error::Memory { source })
        },
        ConnectEvent::Allocated(Ok(input_queue)) => {
            *stage = ConnectStage::Registering;
            ConnectAction::Register(client.create_request(name, input_queue))
        },
        ConnectEvent::Allocated(Err(error)) => {
            *stage = ConnectStage::Over;
            ConnectAction::Fail(error)
        },
        ConnectEvent::Sent(Ok(_)) => {
            *stage = ConnectStage::Registered;
            ConnectAction::Await(Goal::Registration { path: slice_to_vec(path) })
        },
        ConnectEvent::Sent(Err(error)) => {
            *stage = ConnectStage::Over;
            ConnectAction::Fail(error)
        },
    }
}

/// How a connection ends or begins: with or without the queue for replies.
pub struct Conclusion {
    /// Whether the queue is to be released.
    pub releases_queue: bool,
    pub result: Result<(), Error>,
}

/// What the decoded answer to a registration makes of a client.
pub open spec fn concluded(
    client: ClientView,
    decoded: Result<MemclntCreateV2Reply, CodecError>,
    region: RegionExtent,
    image: Seq<u8>,
) -> Result<ClientView, ErrorView> {
    match decoded {
        Err(source) => Err(ErrorView::Codec { source }),
        Ok(reply) => client::registered(client, reply, region, image),
    }
}

/// Concludes a registration. Only a rejected one gives the queue back; a client
/// that fails in another way leaves it to the server.
pub fn conclude_registration(
    client: &mut Client,
    decoded: Result<MemclntCreateV2Reply, CodecError>,
    region: &SvmRegion,
    image: &[u8],
) -> (conclusion: Conclusion)
    requires
        image@.len() == region@.size,
    ensures
        match concluded(old(client)@, decoded, region@, image@) {
            Ok(connected) => {
                &&& conclusion.result is Ok
                &&& final(client)@ == connected
                &&& !conclusion.releases_queue
            },
            Err(error) => {
                &&& conclusion.result is Err
                &&& conclusion.result->Err_0@ == error
                &&& final(client)@ == old(client)@
                &&& conclusion.releases_queue == (error is CreateRejected)
            },
        },
{
    let reply = match decoded {
        Ok(reply) => reply,
        Err(source) => {
            return Conclusion { releases_queue: false, result: Err(Error::Codec { source }) };
        },
    };
    let result = client.register(&reply, region, image);
    let releases_queue = match &result {
        Err(Error::CreateRejected { .. }) => true,
        _ => false,
    };
    Conclusion { releases_queue, result }
}

/// What the decoded answer to a request to be deleted makes of a client.
pub open spec fn deletion_concluded(
    client: ClientView,
    decoded: Result<MemclntDeleteReply, CodecError>,
) -> Result<ClientView, ErrorView> {
    if client.client_index is None {
        Err(ErrorView::NotConnected)
    } else {
        match decoded {
            Err(source) => Err(ErrorView::Codec { source }),
            Ok(reply) => client::disconnection(client, reply),
        }
    }
}

/// Concludes a deletion: only a client that was connected and is deleted gives
/// its queue back.
pub fn conclude_deletion(
    client: &mut Client,
    decoded: Result<MemclntDeleteReply, CodecError>,
) -> (conclusion: Conclusion)
    ensures
        match deletion_concluded(old(client)@, decoded) {
            Ok(disconnected) => {
                &&& conclusion.result is Ok
                &&& final(client)@ == disconnected
                &&& conclusion.releases_queue
            },
            Err(error) => {
                &&& conclusion.result is Err
                &&& conclusion.result->Err_0@ == error
                &&& final(client)@ == old(client)@
                &&& !conclusion.releases_queue
            },
        },
{
    if client.client_index().is_none() {
        return Conclusion { releases_queue: false, result: Err(Error::NotConnected) };
    }
    let reply = match decoded {
        Ok(reply) => reply,
        Err(source) => {
            return Conclusion { releases_queue: false, result: Err(Error::Codec { source }) };
        },
    };
    let result = client.disconnect(&reply);
    let releases_queue = result.is_ok();
    Conclusion { releases_queue, result }
}

/// A connection attempt never goes back: every step leads to the same stage,
/// when it waits, to the next one, or to its end.
pub proof fn law_connection_goes_forward(
    client: ClientView,
    name: Seq<char>,
    path: Seq<u8>,
    before: ConnectStage,
    event: ConnectEvent,
    stage: ConnectStage,
    action: ConnectAction,
)
    requires
        happens(before, event),
        follows(client, name, path, event, stage, action),
    ensures
        stage is Over <==> action is Fail,
        stage is Registered <==> action is Await,
        stage == before <==> action is AttachAgain || action is FindHeaderAgain,
        stage is Over || stage == before || place(stage) == place(before) + 1,
{
}

/// The place of a stage on the way.
pub open spec fn place(stage: ConnectStage) -> int {
    match stage {
        ConnectStage::Attaching => 0,
        ConnectStage::AwaitingHeader => 1,
        ConnectStage::Checking => 2,
        ConnectStage::Allocating => 3,
        ConnectStage::Registering => 4,
        ConnectStage::Registered => 5,
        ConnectStage::Over => 6,
    }
}

/// A wait is given up only when the deadline has passed or the failure is one
/// that waiting does not mend.
pub proof fn law_attach_is_retried(
    client: ClientView,
    name: Seq<char>,
    path: Seq<u8>,
    source: SvmRegionError,
    expired: bool,
    stage: ConnectStage,
    action: ConnectAction,
)
    requires
        follows(
            client,
            name,
            path,
            ConnectEvent::Attached { result: Err(source), expired },
            stage,
            action,
        ),
    ensures
        action is AttachAgain <==> region::may_come(source) && !expired,
{
}

/// Every step of a connection attempt hands on what it was given: the address
/// that was found is checked, the queue that was allocated is registered under
/// the name, and the answer is awaited for the path.
pub proof fn law_steps_hand_on_what_they_got(
    client: ClientView,
    name: Seq<char>,
    path: Seq<u8>,
    event: ConnectEvent,
    stage: ConnectStage,
    action: ConnectAction,
)
    requires
        follows(client, name, path, event, stage, action),
    ensures
        event matches ConnectEvent::Attached { result, .. } ==> result is Ok ==> action
            is FindHeader,
        event matches ConnectEvent::Found { address, .. } ==> address is Some ==> action
            is Check && action->Check_0 == address->Some_0,
        event matches ConnectEvent::Checked(result) ==> result is Ok ==> action is Allocate,
        event matches ConnectEvent::Allocated(result) ==> result is Ok ==> action is Register && ({
            let request = action->Register_0;
            &&& request.id == 25
            &&& request.input_queue == result->Ok_0
            &&& request.keepalive == client.handle_keepalives
            &&& request.context == 0
            &&& value::content(request.name@) == encode_utf8(name) || encode_utf8(name).len() >= 64
                || encode_utf8(name).contains(0u8)
        }),
        event matches ConnectEvent::Sent(result) ==> result is Ok ==> action is Await && (
        action->Await_0 matches Goal::Registration { path: awaited } && awaited@ == path),
{
    if encode_utf8(name).len() < 64 && !encode_utf8(name).contains(0u8) {
        value::law_fixed_string_round_trip(name, 64);
    }
}

/// An attempt fails with the failure it was given, and with a timeout where the
/// header's address does not come in time.
pub proof fn law_failed_steps(
    client: ClientView,
    name: Seq<char>,
    path: Seq<u8>,
    event: ConnectEvent,
    stage: ConnectStage,
    action: ConnectAction,
)
    requires
        follows(client, name, path, event, stage, action),
    ensures
        event matches ConnectEvent::Found { address, expired } ==> address is None ==> (if expired {
            action is Fail && action->Fail_0@ == (ErrorView::ConnectTimeout { path })
        } else {
            action is FindHeaderAgain
        }),
        event matches ConnectEvent::Attached { result, expired } ==> result is Err && expired
            ==> action is Fail && action->Fail_0@ == (ErrorView::Region {
            source: result->Err_0,
        }),
        event matches ConnectEvent::Checked(result) ==> result is Err ==> action is Fail
            && action->Fail_0@ == (ErrorView::Memory { source: result->Err_0 }),
        event matches ConnectEvent::Allocated(result) ==> result is Err ==> action is Fail
            && action->Fail_0@ == result->Err_0@,
        event matches ConnectEvent::Sent(result) ==> result is Err ==> action is Fail
            && action->Fail_0@ == result->Err_0@,
{
}

/// An answer that cannot be decoded registers and deletes nothing, and a client
/// without an index is not connected whatever the answer is.
pub proof fn law_answers_that_conclude_nothing(
    client: ClientView,
    source: CodecError,
    region: RegionExtent,
    image: Seq<u8>,
    deleted: Result<MemclntDeleteReply, CodecError>,
)
    ensures
        concluded(client, Err(source), region, image) == Err::<ClientView, _>(
            (ErrorView::Codec { source }),
        ),
        client.client_index is None ==> deletion_concluded(client, deleted) == Err::<
            ClientView,
            _,
        >(ErrorView::NotConnected),
        client.client_index is Some && deleted is Err ==> deletion_concluded(client, deleted)
            == Err::<ClientView, _>((ErrorView::Codec { source: deleted->Err_0 })),
        client.client_index is Some && deleted is Ok && deleted->Ok_0.response >= 0
            ==> deletion_concluded(client, deleted) is Ok && deletion_concluded(
            client,
            deleted,
        )->Ok_0.client_index is None,
        client.client_index is Some && deleted is Ok && deleted->Ok_0.response < 0
            ==> deletion_concluded(client, deleted) == Err::<ClientView, _>(
            (ErrorView::CreateRejected { response: deleted->Ok_0.response }),
        ),
{
}

/// The queue goes back where the server refused the registration, and where it
/// deleted the client; in every other case it stays.
pub proof fn law_released_queues(
    created: Result<MemclntCreateV2Reply, CodecError>,
    region: &SvmRegion,
    image: &[u8],
    deleted: Result<MemclntDeleteReply, CodecError>,
    conclusion: Conclusion,
)
    requires
        image@.len() == region@.size,
    ensures
        forall|client: &mut Client| #[trigger]
            call_ensures(
                conclude_registration,
                (client, created, region, image),
                conclusion,
            ) ==> {
                &&& conclusion.releases_queue <==> created is Ok && created->Ok_0.response < 0
                &&& conclusion.result is Ok ==> final(client)@.client_index == Some(
                    created->Ok_0.index,
                )
                &&& conclusion.result is Err ==> final(client)@ == (*client)@
            },
        forall|client: &mut Client| #[trigger]
            call_ensures(conclude_deletion, (client, deleted), conclusion) ==> {
                &&& conclusion.releases_queue <==> (*client)@.client_index is Some && deleted is Ok
                    && deleted->Ok_0.response >= 0
                &&& conclusion.releases_queue <==> conclusion.result is Ok
                &&& conclusion.result is Ok ==> final(client)@.client_index is None
                &&& conclusion.result is Err ==> final(client)@ == (*client)@
            },
{
}

} // verus!
