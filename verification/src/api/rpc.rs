//! VPE-owned Binary API operations.

use crate::api::client;
use crate::api::client::{Client, ClientView, Error as ClientError, ErrorView, Invocation, Pending};
use crate::api::message::{Api, Identity};
use crate::api::vpe::{ShowVersion, ShowVersionReply};
use vstd::prelude::*;

verus! {

#[derive(Clone, Debug, Eq, PartialEq)]
pub enum VpeError {
    Client(ClientError),
    Rejected { retval: i32 },
}

impl From<ClientError> for VpeError {
    fn from(source: ClientError) -> (error: VpeError) {
        VpeError::Client(source)
    }
}

impl vstd::std_specs::convert::FromSpecImpl<ClientError> for VpeError {
    open spec fn obeys_from_spec() -> bool {
        true
    }

    open spec fn from_spec(source: ClientError) -> VpeError {
        VpeError::Client(source)
    }
}

/// What becomes of a request for the version.
pub open spec fn version_invocation(
    client: ClientView,
    request_crc: Seq<char>,
    reply_crc: Seq<char>,
) -> Result<Invocation, ErrorView> {
    client::invocation(
        client,
        ShowVersion::declared_service(),
        ShowVersionReply::declared_name(),
        request_crc,
        reply_crc,
    )
}

/// Prepares the request for the version.
pub fn request_version(
    client: &mut Client,
    request_identity: &Identity<ShowVersion>,
    reply_identity: &Identity<ShowVersionReply>,
) -> (prepared: Result<(ShowVersion, Pending), VpeError>)
    ensures
        match version_invocation(old(client)@, request_identity@, reply_identity@) {
            Ok(made) => {
                &&& prepared is Ok
                &&& prepared->Ok_0.0 == (ShowVersion {
                    id: made.request_id,
                    client_index: made.client_index,
                    context: made.pending.context,
                })
                &&& prepared->Ok_0.1 == made.pending
                &&& final(client)@ == (ClientView {
                    context_counter: client::next_count(old(client)@.context_counter),
                    ..old(client)@
                })
            },
            Err(error) => {
                &&& prepared matches Err(VpeError::Client(source)) && source@ == error
                &&& final(client)@ == old(client)@
            },
        },
{
    let mut request = ShowVersion { id: 0, client_index: 0, context: 0 };
    match client.invoke(&mut request, request_identity, reply_identity) {
        Ok(pending) => Ok((request, pending)),
        Err(source) => Err(VpeError::from(source)),
    }
}

/// Takes the reply to a request for the version, unless it is a rejection.
pub fn show_version(pending: &Pending, reply: ShowVersionReply) -> (version: Result<
    ShowVersionReply,
    VpeError,
>)
    ensures
        match client::correlated(*pending, Some(reply.context)) {
            Err(error) => version matches Err(VpeError::Client(source)) && source@ == error,
            Ok(_) => version == (if reply.retval == 0 {
                Ok(reply)
            } else {
                Err(VpeError::Rejected { retval: reply.retval })
            }),
        },
{
    match client::accept_reply(pending, reply) {
        Ok(reply) => if reply.retval != 0 {
            Err(VpeError::Rejected { retval: reply.retval })
        } else {
            Ok(reply)
        },
        Err(source) => Err(VpeError::from(source)),
    }
}

/// A connected client that knows both messages can always ask for the version.
pub proof fn law_version_can_be_requested(
    client: ClientView,
    request_crc: Seq<char>,
    reply_crc: Seq<char>,
)
    requires
        client.client_index is Some,
        client.message_ids.dom().contains(request_crc),
        client.message_ids.dom().contains(reply_crc),
    ensures
        version_invocation(client, request_crc, reply_crc) is Ok,
{
}

/// A version is told exactly by a reply with the context of the request and no
/// rejection, and then it is that reply; a rejection is told with its value.
pub proof fn law_told_versions(
    pending: &Pending,
    reply: ShowVersionReply,
    version: Result<ShowVersionReply, VpeError>,
)
    requires
        call_ensures(show_version, (pending, reply), version),
    ensures
        version is Ok <==> reply.context == pending.context && reply.retval == 0,
        version matches Ok(told) ==> told == reply,
        reply.context == pending.context && reply.retval != 0 ==> version == Err::<
            ShowVersionReply,
            _,
        >((VpeError::Rejected { retval: reply.retval })),
        reply.context != pending.context ==> version is Err && version->Err_0 is Client
            && version->Err_0->Client_0@ == (ErrorView::ContextMismatch {
            expected: pending.context,
            received: reply.context,
        }),
{
}

/// A request for the version is sent under the number that the client knows for
/// it, with the client's index and its next context, and its reply is waited for
/// under the number that the client knows for that.
pub proof fn law_requested_versions(
    asked: &Identity<ShowVersion>,
    answered: &Identity<ShowVersionReply>,
    prepared: Result<(ShowVersion, Pending), VpeError>,
)
    ensures
        forall|client: &mut Client| #[trigger]
            call_ensures(request_version, (client, asked, answered), prepared) ==> (if prepared
                is Ok {
                client::is_invoked(
                    (*client)@,
                    final(client)@,
                    asked@,
                    answered@,
                    prepared->Ok_0.0.id,
                    prepared->Ok_0.0.client_index,
                    prepared->Ok_0.0.context,
                    prepared->Ok_0.1,
                )
            } else {
                prepared->Err_0 is Client && final(client)@ == (*client)@
            }),
{
}

} // verus!
