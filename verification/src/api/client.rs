//! V2 shared-memory connection used by all Binary API RPC services: the state
//! of a connection, and every decision that is made about it.
//!
//! Taking messages from a queue, waiting, and encoding are done elsewhere; what
//! comes of them is handed in, and what to do next is answered.

use crate::api::codec::CodecError;
use crate::api::control::{ControlPing, ControlPingReply};
use crate::api::memclnt::{
    MemclntCreateV2, MemclntCreateV2Reply, MemclntDelete, MemclntDeleteReply, MemclntKeepalive,
    MemclntKeepaliveReply, MEMCLNT_CREATE_V2_ID, MEMCLNT_CREATE_V2_REPLY_ID,
};
use crate::api::memory::{MemoryError, ELEMENT_BYTES};
use crate::api::message::{Api, Identity, ServiceView};
use crate::api::table;
use crate::api::value;
use crate::api::value::FixedString;
use crate::api::vpe::{ShowVersion, ShowVersionReply};
use crate::shmem::heap;
use crate::shmem::heap::BlockLayout;
use crate::shmem::queue;
use crate::shmem::queue::{SvmQueueError, SvmQueueOperation};
use crate::shmem::region;
use crate::shmem::region::{RegionExtent, SvmRegion, SvmRegionError};
use crate::text;
use vstd::prelude::*;
use vstd::slice::*;
use vstd::utf8::*;

verus! {

/// Seconds a connection attempt, and a reply, may take.
pub const CONNECT_TIMEOUT_SECONDS: u64 = 10;

/// Seconds the answer to a disconnect may take.
pub const DISCONNECT_TIMEOUT_SECONDS: u64 = 2;

/// Microseconds between two looks at the queue.
pub const RECEIVE_INTERVAL_MICROS: u64 = 400;

/// Alignment of a queue in the Data Heap.
pub const QUEUE_ALIGN: usize = 64;

/// A path is held as its bytes, since a path need not be text.
#[derive(Clone, Debug, Eq, PartialEq)]
pub enum Error {
    AlreadyConnected,
    NotConnected,
    ConnectTimeout { path: Vec<u8> },
    Region { source: SvmRegionError },
    Memory { source: MemoryError },
    Queue { source: SvmQueueError },
    Codec { source: CodecError },
    CreateRejected { response: i32 },
    MessageUnavailable { name_crc: &'static str },
    RequestHasNoReply,
    ReplyTypeMismatch { expected: &'static str, actual: &'static str },
    ResponseTimeout { context: u32 },
    UnexpectedMessage { id: u16, expected: u16 },
    ContextMismatch { expected: u32, received: u32 },
    DisconnectTimeout { client_index: u32 },
}

/// The view of an [`Error`].
pub enum ErrorView {
    AlreadyConnected,
    NotConnected,
    ConnectTimeout { path: Seq<u8> },
    Region { source: SvmRegionError },
    Memory { source: MemoryError },
    Queue { source: SvmQueueError },
    Codec { source: CodecError },
    CreateRejected { response: i32 },
    MessageUnavailable { name_crc: Seq<char> },
    RequestHasNoReply,
    ReplyTypeMismatch { expected: Seq<char>, actual: Seq<char> },
    ResponseTimeout { context: u32 },
    UnexpectedMessage { id: u16, expected: u16 },
    ContextMismatch { expected: u32, received: u32 },
    DisconnectTimeout { client_index: u32 },
}

impl View for Error {
    type V = ErrorView;

    open spec fn view(&self) -> ErrorView {
        match *self {
            Error::AlreadyConnected => ErrorView::AlreadyConnected,
            Error::NotConnected => ErrorView::NotConnected,
            Error::ConnectTimeout { path } => ErrorView::ConnectTimeout { path: path@ },
            Error::Region { source } => ErrorView::Region { source },
            Error::Memory { source } => ErrorView::Memory { source },
            Error::Queue { source } => ErrorView::Queue { source },
            Error::Codec { source } => ErrorView::Codec { source },
            Error::CreateRejected { response } => ErrorView::CreateRejected { response },
            Error::MessageUnavailable { name_crc } => ErrorView::MessageUnavailable {
                name_crc: name_crc@,
            },
            Error::RequestHasNoReply => ErrorView::RequestHasNoReply,
            Error::ReplyTypeMismatch { expected, actual } => ErrorView::ReplyTypeMismatch {
                expected: expected@,
                actual: actual@,
            },
            Error::ResponseTimeout { context } => ErrorView::ResponseTimeout { context },
            Error::UnexpectedMessage { id, expected } => ErrorView::UnexpectedMessage {
                id,
                expected,
            },
            Error::ContextMismatch { expected, received } => ErrorView::ContextMismatch {
                expected,
                received,
            },
            Error::DisconnectTimeout { client_index } => ErrorView::DisconnectTimeout {
                client_index,
            },
        }
    }
}

/// The view of a fallible result.
pub open spec fn outcome<T>(result: Result<T, Error>) -> Result<T, ErrorView> {
    match result {
        Ok(value) => Ok(value),
        Err(error) => Err(error@),
    }
}

/// The message numbers of a table; of entries with one name the last counts.
pub open spec fn ids_of(entries: Seq<(Seq<char>, u16)>) -> Map<Seq<char>, u16>
    decreases entries.len(),
{
    if entries.len() == 0 {
        Map::empty()
    } else {
        ids_of(entries.drop_last()).insert(entries.last().0, entries.last().1)
    }
}

/// The number of a message, if the table has one.
pub open spec fn id_of(ids: Map<Seq<char>, u16>, name_crc: Seq<char>) -> Option<u16> {
    if ids.dom().contains(name_crc) {
        Some(ids[name_crc])
    } else {
        None
    }
}

/// The number of a message, or the failure to have one.
pub open spec fn required_id(ids: Map<Seq<char>, u16>, name_crc: Seq<char>) -> Result<
    u16,
    ErrorView,
> {
    match id_of(ids, name_crc) {
        Some(id) => Ok(id),
        None => Err(ErrorView::MessageUnavailable { name_crc }),
    }
}

/// One opaque Binary API connection.
pub struct Client {
    client_index: Option<u32>,
    message_ids: Vec<(String, u16)>,
    context_counter: u32,
    handle_keepalives: bool,
}

/// The view of a [`Client`].
#[verifier::ext_equal]
pub struct ClientView {
    /// The index the server gave, while connected.
    pub client_index: Option<u32>,
    /// The message numbers the server published.
    pub message_ids: Map<Seq<char>, u16>,
    /// The count of the last request.
    pub context_counter: u32,
    /// Whether keepalives are answered here.
    pub handle_keepalives: bool,
}

impl View for Client {
    type V = ClientView;

    closed spec fn view(&self) -> ClientView {
        ClientView {
            client_index: self.client_index,
            message_ids: ids_of(table::entries_view(self.message_ids@)),
            context_counter: self.context_counter,
            handle_keepalives: self.handle_keepalives,
        }
    }
}

/// The largest count of a request.
pub const LAST_COUNT: u32 = 0x7fff_ffff;

/// The bit that tells the contexts of this side.
pub const CONTEXT_BIT: u32 = 0x8000_0000;

/// The count behind `count`; zero is skipped.
pub open spec fn next_count(count: u32) -> u32 {
    if count >= LAST_COUNT {
        1
    } else {
        (count + 1) as u32
    }
}

/// The context of a count.
pub open spec fn context_of(count: u32) -> u32 {
    (CONTEXT_BIT + count) as u32
}

/// What a client waits for: the number and the context of a reply.
#[derive(Clone, Copy, Debug, Eq, PartialEq, Structural)]
pub struct Pending {
    pub reply_id: u16,
    pub context: u32,
}

/// Whether a request of one type may be answered by a reply of another.
pub open spec fn declared_exchange(service: Option<ServiceView>, reply: Seq<char>) -> Result<
    (),
    ErrorView,
> {
    match service {
        None => Err(ErrorView::RequestHasNoReply),
        Some(found) => match found.reply {
            None => Err(ErrorView::RequestHasNoReply),
            Some(expected) => if expected == reply {
                Ok(())
            } else {
                Err(ErrorView::ReplyTypeMismatch { expected, actual: reply })
            },
        },
    }
}

/// What a client sends and waits for: the numbers of a request and its reply,
/// its index, and the next context.
pub struct Invocation {
    pub request_id: u16,
    pub client_index: u32,
    pub pending: Pending,
}

/// What becomes of an invocation, given the declared service of the request and
/// the name of the reply.
pub open spec fn invocation(
    client: ClientView,
    service: Option<ServiceView>,
    reply: Seq<char>,
    request_crc: Seq<char>,
    reply_crc: Seq<char>,
) -> Result<Invocation, ErrorView> {
    match client.client_index {
        None => Err(ErrorView::NotConnected),
        Some(client_index) => match declared_exchange(service, reply) {
            Err(error) => Err(error),
            Ok(_) => match required_id(client.message_ids, request_crc) {
                Err(error) => Err(error),
                Ok(request_id) => match required_id(client.message_ids, reply_crc) {
                    Err(error) => Err(error),
                    Ok(reply_id) => Ok(
                        Invocation {
                            request_id,
                            client_index,
                            pending: Pending {
                                reply_id,
                                context: context_of(next_count(client.context_counter)),
                            },
                        },
                    ),
                },
            },
        },
    }
}

/// Whether a request registers a client under a name, with a queue at an
/// address.
pub open spec fn is_registration(
    request: MemclntCreateV2,
    client: ClientView,
    name: Seq<char>,
    input_queue: u64,
) -> bool {
    &&& request.id == MEMCLNT_CREATE_V2_ID
    &&& request.context == 0
    &&& request.ctx_quota == 0
    &&& request.input_queue == input_queue
    &&& request.name@ == value::field_of(encode_utf8(name), 64)
    &&& request.api_versions@ == Seq::new(8, |i: int| 0u32)
    &&& request.keepalive == client.handle_keepalives
}

/// What the answer to a registration makes of a client: the message numbers
/// come from the table the answer points at.
pub open spec fn registered(
    client: ClientView,
    reply: MemclntCreateV2Reply,
    region: RegionExtent,
    image: Seq<u8>,
) -> Result<ClientView, ErrorView> {
    let address = reply.message_table as usize;
    if reply.response < 0 {
        Err(ErrorView::CreateRejected { response: reply.response })
    } else if !region.holds(address as int, 0) {
        Err(ErrorView::Memory { source: MemoryError::InvalidHeader })
    } else {
        match table::table_of(image.skip(address - region.base)) {
            Err(source) => Err(ErrorView::Codec { source }),
            Ok(entries) => Ok(
                ClientView {
                    client_index: Some(reply.index),
                    message_ids: ids_of(entries),
                    ..client
                },
            ),
        }
    }
}

impl Client {
    #[verifier::type_invariant]
    spec fn counts(self) -> bool {
        self.context_counter <= LAST_COUNT
    }

    /// A client that is not connected.
    pub fn new(handle_keepalives: bool) -> (client: Client)
        ensures
            client@ == (ClientView {
                client_index: None,
                message_ids: Map::empty(),
                context_counter: 0,
                handle_keepalives,
            }),
    {
        let message_ids: Vec<(String, u16)> = Vec::new();
        assert(table::entries_view(message_ids@) =~= Seq::empty());
        Client { client_index: None, message_ids, context_counter: 0, handle_keepalives }
    }

    pub fn client_index(&self) -> (index: Option<u32>)
        ensures
            index == self@.client_index,
    {
        self.client_index
    }

    /// The number of the message with the name and checksum.
    pub fn message_id(&self, name_crc: &str) -> (id: Option<u16>)
        ensures
            id == id_of(self@.message_ids, name_crc@),
    {
        let ghost entries = table::entries_view(self.message_ids@);
        let mut i: usize = self.message_ids.len();
        assert(entries.take(i as int) =~= entries);
        while i > 0
            invariant
                i <= self.message_ids@.len(),
                entries == table::entries_view(self.message_ids@),
                id_of(ids_of(entries), name_crc@) == id_of(
                    ids_of(entries.take(i as int)),
                    name_crc@,
                ),
            decreases i,
        {
            i = i - 1;
            proof {
                assert(entries.take(i + 1).drop_last() =~= entries.take(i as int));
                assert(entries.take(i + 1).last() == entries[i as int]);
            }
            let entry = &self.message_ids[i];
            if text::same_text(entry.0.as_str(), name_crc) {
                return Some(entry.1);
            }
        }
        assert(entries.take(0) =~= Seq::empty());
        None
    }

    fn require_id(&self, name_crc: &'static str) -> (id: Result<u16, Error>)
        ensures
            outcome(id) == required_id(self@.message_ids, name_crc@),
    {
        match self.message_id(name_crc) {
            Some(id) => Ok(id),
            None => Err(Error::MessageUnavailable { name_crc }),
        }
    }

    /// Counts one more request and gives its context.
    pub fn next_context(&mut self) -> (context: u32)
        ensures
            final(self)@ == (ClientView {
                context_counter: next_count(old(self)@.context_counter),
                ..old(self)@
            }),
            context == context_of(final(self)@.context_counter),
    {
        let next: u32 = if self.context_counter >= LAST_COUNT {
            1
        } else {
            self.context_counter + 1
        };
        self.context_counter = next;
        CONTEXT_BIT + next
    }

    /// The registration of a client under `name`, whose queue lies at
    /// `input_queue`.
    pub fn create_request(&self, name: &str, input_queue: u64) -> (request: MemclntCreateV2)
        ensures
            is_registration(request, self@, name@, input_queue),
    {
        let api_versions: [u32; 8] = [0; 8];
        assert(api_versions@ =~= Seq::new(8, |i: int| 0u32));
        MemclntCreateV2 {
            id: MEMCLNT_CREATE_V2_ID,
            context: 0,
            ctx_quota: 0,
            input_queue,
            name: FixedString::from_str(name),
            api_versions,
            keepalive: self.handle_keepalives,
        }
    }

    /// Takes the answer to a registration, with an image of the region that
    /// holds the message table.
    pub fn register(
        &mut self,
        reply: &MemclntCreateV2Reply,
        region: &SvmRegion,
        image: &[u8],
    ) -> (registration: Result<(), Error>)
        requires
            image@.len() == region@.size,
        ensures
            match registered(old(self)@, *reply, region@, image@) {
                Ok(connected) => registration is Ok && final(self)@ == connected,
                Err(error) => registration is Err && registration->Err_0@ == error
                    && final(self)@ == old(self)@,
            },
    {
        if reply.response < 0 {
            return Err(Error::CreateRejected { response: reply.response });
        }
        let table = match region.remaining_from(image, reply.message_table as usize) {
            Some(table) => table,
            None => {
                return Err(Error::Memory { source: MemoryError::InvalidHeader });
            },
        };
        match table::deserialize_message_table(table) {
            Ok(entries) => {
                proof {
                    use_type_invariant(&*self);
                }
                self.message_ids = entries;
                self.client_index = Some(reply.index);
                Ok(())
            },
            Err(source) => Err(Error::Codec { source }),
        }
    }

    /// Prepares a request that is to be answered by a `Reply`: fills its header
    /// in, and says what to wait for.
    pub fn invoke<Request: Api, Reply: Api>(
        &mut self,
        request: &mut Request,
        request_identity: &Identity<Request>,
        reply_identity: &Identity<Reply>,
    ) -> (pending: Result<Pending, Error>)
        ensures
            match invocation(
                old(self)@,
                Request::declared_service(),
                Reply::declared_name(),
                request_identity@,
                reply_identity@,
            ) {
                Ok(made) => {
                    &&& pending is Ok
                    &&& pending->Ok_0 == made.pending
                    &&& *final(request) == old(request).addressed(
                        made.request_id,
                        made.client_index,
                        made.pending.context,
                    )
                    &&& final(self)@ == (ClientView {
                        context_counter: next_count(old(self)@.context_counter),
                        ..old(self)@
                    })
                },
                Err(error) => {
                    &&& pending is Err
                    &&& pending->Err_0@ == error
                    &&& *final(request) == *old(request)
                    &&& final(self)@ == old(self)@
                },
            },
    {
        let client_index: u32 = match self.client_index {
            Some(client_index) => client_index,
            None => {
                return Err(Error::NotConnected);
            },
        };
        match check_exchange::<Request, Reply>() {
            Ok(_) => {},
            Err(error) => {
                return Err(error);
            },
        }
        let request_id: u16 = match self.require_id(request_identity.name_crc()) {
            Ok(id) => id,
            Err(error) => {
                return Err(error);
            },
        };
        let reply_id: u16 = match self.require_id(reply_identity.name_crc()) {
            Ok(id) => id,
            Err(error) => {
                return Err(error);
            },
        };
        let context: u32 = self.next_context();
        request.set_request_header(request_id, client_index, context);
        Ok(Pending { reply_id, context })
    }

    /// Whether a message with the number is a keepalive that is answered here.
    pub fn is_keepalive(&self, id: u16, identity: &Identity<MemclntKeepalive>) -> (keepalive: bool)
        ensures
            keepalive == (self@.handle_keepalives && id_of(self@.message_ids, identity@) == Some(
                id,
            )),
    {
        if !self.handle_keepalives {
            return false;
        }
        match self.message_id(identity.name_crc()) {
            Some(known) => known == id,
            None => false,
        }
    }

    /// The answer to a keepalive: its context is the index the request names.
    pub fn keepalive_reply(
        &self,
        request: &MemclntKeepalive,
        identity: &Identity<MemclntKeepaliveReply>,
    ) -> (reply: Result<MemclntKeepaliveReply, Error>)
        ensures
            outcome(reply) == (match required_id(self@.message_ids, identity@) {
                Ok(id) => Ok(
                    MemclntKeepaliveReply { id, context: request.client_index, retval: 0 },
                ),
                Err(error) => Err(error),
            }),
    {
        match self.require_id(identity.name_crc()) {
            Ok(id) => Ok(MemclntKeepaliveReply { id, context: request.client_index, retval: 0 }),
            Err(error) => Err(error),
        }
    }

    /// The request to be deleted, and the number of its answer.
    pub fn delete_request(
        &self,
        delete_identity: &Identity<MemclntDelete>,
        reply_identity: &Identity<MemclntDeleteReply>,
    ) -> (request: Result<(MemclntDelete, u16), Error>)
        ensures
            outcome(request) == deletion(self@, delete_identity@, reply_identity@),
    {
        let index: u32 = match self.client_index {
            Some(index) => index,
            None => {
                return Err(Error::NotConnected);
            },
        };
        let id: u16 = match self.require_id(delete_identity.name_crc()) {
            Ok(id) => id,
            Err(error) => {
                return Err(error);
            },
        };
        let reply_id: u16 = match self.require_id(reply_identity.name_crc()) {
            Ok(id) => id,
            Err(error) => {
                return Err(error);
            },
        };
        Ok((MemclntDelete { id, index, handle: 0, do_cleanup: false }, reply_id))
    }

    /// Takes the answer to the request to be deleted. A client that is not
    /// connected has none to take.
    pub fn disconnect(&mut self, reply: &MemclntDeleteReply) -> (disconnected: Result<(), Error>)
        ensures
            match disconnection(old(self)@, *reply) {
                Ok(client) => disconnected is Ok && final(self)@ == client,
                Err(error) => {
                    &&& disconnected is Err
                    &&& disconnected->Err_0@ == error
                    &&& final(self)@ == old(self)@
                },
            },
    {
        if self.client_index.is_none() {
            return Err(Error::NotConnected);
        }
        if reply.response < 0 {
            return Err(Error::CreateRejected { response: reply.response });
        }
        let message_ids: Vec<(String, u16)> = Vec::new();
        proof {
            use_type_invariant(&*self);
            assert(table::entries_view(message_ids@) =~= Seq::empty());
        }
        self.client_index = None;
        self.message_ids = message_ids;
        Ok(())
    }
}

/// The request to be deleted, and the number of its answer.
pub open spec fn deletion(
    client: ClientView,
    delete_crc: Seq<char>,
    reply_crc: Seq<char>,
) -> Result<(MemclntDelete, u16), ErrorView> {
    match client.client_index {
        None => Err(ErrorView::NotConnected),
        Some(index) => match required_id(client.message_ids, delete_crc) {
            Err(error) => Err(error),
            Ok(id) => match required_id(client.message_ids, reply_crc) {
                Err(error) => Err(error),
                Ok(reply_id) => Ok(
                    (MemclntDelete { id, index, handle: 0, do_cleanup: false }, reply_id),
                ),
            },
        },
    }
}

/// A client that was deleted: it has no index and knows no message.
pub open spec fn deleted(client: ClientView) -> ClientView {
    ClientView { client_index: None, message_ids: Map::empty(), ..client }
}

/// What the answer to a request to be deleted makes of a client.
pub open spec fn disconnection(client: ClientView, reply: MemclntDeleteReply) -> Result<
    ClientView,
    ErrorView,
> {
    if client.client_index is None {
        Err(ErrorView::NotConnected)
    } else if reply.response < 0 {
        Err(ErrorView::CreateRejected { response: reply.response })
    } else {
        Ok(deleted(client))
    }
}

/// Checks that a request declares the reply it is invoked for.
fn check_exchange<Request: Api, Reply: Api>() -> (checked: Result<(), Error>)
    ensures
        outcome(checked) == declared_exchange(
            Request::declared_service(),
            Reply::declared_name(),
        ),
{
    let service = match Request::service() {
        Some(service) => service,
        None => {
            return Err(Error::RequestHasNoReply);
        },
    };
    let expected = match service.reply {
        Some(expected) => expected,
        None => {
            return Err(Error::RequestHasNoReply);
        },
    };
    let actual = Reply::name();
    if text::same_text(expected, actual) {
        Ok(())
    } else {
        Err(Error::ReplyTypeMismatch { expected, actual })
    }
}

/// What to do while something is waited for.
pub enum Wait<T> {
    /// It came.
    Ready(T),
    /// Look again, after a while.
    Again,
    /// It will not come.
    Failed(Error),
}

/// The failure of an attach that is not to be tried again; `expired` is whether
/// the deadline has passed.
pub fn attach_failure(source: SvmRegionError, expired: bool) -> (failure: Option<Error>)
    ensures
        failure is None <==> region::may_come(source) && !expired,
        failure matches Some(error) ==> error@ == (ErrorView::Region { source }),
{
    if region::retryable(&source) && !expired {
        None
    } else {
        Some(Error::Region { source })
    }
}

/// Waits for the address that the server leaves for clients.
pub fn await_context(context: Option<usize>, expired: bool, path: &[u8]) -> (wait: Wait<usize>)
    ensures
        match wait {
            Wait::Ready(address) => context == Some(address),
            Wait::Again => context is None && !expired,
            Wait::Failed(error) => context is None && expired && error@
                == (ErrorView::ConnectTimeout { path: path@ }),
        },
{
    match context {
        Some(address) => Wait::Ready(address),
        None => if expired {
            Wait::Failed(Error::ConnectTimeout { path: slice_to_vec(path) })
        } else {
            Wait::Again
        },
    }
}

/// What one look at the queue comes to.
pub enum Poll {
    /// The address of a message was taken.
    Taken(usize),
    /// The queue is empty: look again, after a while.
    Again,
    /// The queue is empty, and the deadline has passed.
    Expired,
    /// The queue failed.
    Failed(Error),
}

/// Decides about one look at the queue.
pub fn poll(taken: Result<usize, SvmQueueError>, expired: bool) -> (poll: Poll)
    ensures
        match poll {
            Poll::Taken(address) => taken == Ok::<_, SvmQueueError>(address),
            Poll::Again => taken == Err::<usize, _>(SvmQueueError::Empty) && !expired,
            Poll::Expired => taken == Err::<usize, _>(SvmQueueError::Empty) && expired,
            Poll::Failed(error) => taken is Err && taken->Err_0 != SvmQueueError::Empty && error@
                == (ErrorView::Queue { source: taken->Err_0 }),
        },
{
    match taken {
        Ok(address) => Poll::Taken(address),
        Err(SvmQueueError::Empty) => if expired {
            Poll::Expired
        } else {
            Poll::Again
        },
        Err(source) => Poll::Failed(Error::Queue { source }),
    }
}

/// The failure of a request that could not be queued; a request that took
/// effect despite the failure has not failed.
pub fn send_failure(source: SvmQueueError) -> (failure: Option<Error>)
    ensures
        failure is None <==> queue::took_effect(source, SvmQueueOperation::Add),
        failure matches Some(error) ==> error@ == (ErrorView::Queue { source }),
{
    if queue::committed(&source, SvmQueueOperation::Add) {
        None
    } else {
        Some(Error::Queue { source })
    }
}

/// What to do with a message that arrived while one message was waited for.
pub enum Arrival {
    /// It is the message that was waited for.
    Decode,
    /// It is another one, which is dropped.
    Discard,
    /// No message came in time, or one that must not come.
    Failed(Error),
}

/// Decides about a message, or the want of one, while the answer to a
/// registration is waited for.
pub fn registration_arrival(id: Option<u16>, path: &[u8]) -> (arrival: Arrival)
    ensures
        match arrival {
            Arrival::Decode => id == Some(MEMCLNT_CREATE_V2_REPLY_ID),
            Arrival::Discard => id is Some && id != Some(MEMCLNT_CREATE_V2_REPLY_ID),
            Arrival::Failed(error) => id is None && error@ == (ErrorView::ConnectTimeout {
                path: path@,
            }),
        },
{
    match id {
        None => Arrival::Failed(Error::ConnectTimeout { path: slice_to_vec(path) }),
        Some(id) => if id == MEMCLNT_CREATE_V2_REPLY_ID {
            Arrival::Decode
        } else {
            Arrival::Discard
        },
    }
}

/// Decides about a message, or the want of one, while a reply is waited for.
pub fn reply_arrival(pending: &Pending, id: Option<u16>) -> (arrival: Arrival)
    ensures
        match arrival {
            Arrival::Decode => id == Some(pending.reply_id),
            Arrival::Discard => false,
            Arrival::Failed(error) => match id {
                None => error@ == (ErrorView::ResponseTimeout { context: pending.context }),
                Some(found) => found != pending.reply_id && error@
                    == (ErrorView::UnexpectedMessage { id: found, expected: pending.reply_id }),
            },
        },
{
    match id {
        None => Arrival::Failed(Error::ResponseTimeout { context: pending.context }),
        Some(id) => if id == pending.reply_id {
            Arrival::Decode
        } else {
            Arrival::Failed(Error::UnexpectedMessage { id, expected: pending.reply_id })
        },
    }
}

/// Decides about a message, or the want of one, while the answer to a delete
/// request is waited for.
pub fn deletion_arrival(id: Option<u16>, reply_id: u16, client_index: u32) -> (arrival: Arrival)
    ensures
        match arrival {
            Arrival::Decode => id == Some(reply_id),
            Arrival::Discard => id is Some && id != Some(reply_id),
            Arrival::Failed(error) => id is None && error@ == (ErrorView::DisconnectTimeout {
                client_index,
            }),
        },
{
    match id {
        None => Arrival::Failed(Error::DisconnectTimeout { client_index }),
        Some(id) => if id == reply_id {
            Arrival::Decode
        } else {
            Arrival::Discard
        },
    }
}

/// Whether a decoded reply belongs to the request: it carries the context of
/// the request, or none.
pub open spec fn correlated(pending: Pending, context: Option<u32>) -> Result<(), ErrorView> {
    match context {
        None => Ok(()),
        Some(received) => if received == pending.context {
            Ok(())
        } else {
            Err(ErrorView::ContextMismatch { expected: pending.context, received })
        },
    }
}

/// Takes a decoded reply, if it belongs to the request.
pub fn accept_reply<Reply: Api>(pending: &Pending, reply: Reply) -> (accepted: Result<
    Reply,
    Error,
>)
    ensures
        match correlated(*pending, reply.carried_context()) {
            Ok(_) => accepted is Ok && accepted->Ok_0 == reply,
            Err(error) => accepted is Err && accepted->Err_0@ == error,
        },
{
    match reply.context() {
        Some(received) => if received == pending.context {
            Ok(reply)
        } else {
            Err(Error::ContextMismatch { expected: pending.context, received })
        },
        None => Ok(reply),
    }
}

/// The geometry of a response queue: how many elements, and of what size.
pub fn response_queue(response_queue_size: u32) -> (geometry: (u32, u32))
    ensures
        geometry == (response_queue_size, ELEMENT_BYTES as u32),
{
    (response_queue_size, ELEMENT_BYTES as u32)
}

/// The block of a queue of `bytes` bytes, if there can be one.
pub fn queue_layout(bytes: usize) -> (layout: Result<BlockLayout, Error>)
    ensures
        outcome(layout) == (if bytes + QUEUE_ALIGN - 1 <= isize::MAX {
            Ok(BlockLayout { size: bytes, align: QUEUE_ALIGN })
        } else {
            Err(ErrorView::Queue { source: SvmQueueError::LayoutOverflow })
        }),
        layout matches Ok(found) ==> heap::is_valid(found),
{
    let limit: usize = isize::MAX as usize;
    if bytes > limit - (QUEUE_ALIGN - 1) {
        return Err(Error::Queue { source: SvmQueueError::LayoutOverflow });
    }
    proof {
        vstd::arithmetic::power2::lemma2_to64();
        assert(QUEUE_ALIGN == vstd::arithmetic::power2::pow2(6));
    }
    Ok(BlockLayout { size: bytes, align: QUEUE_ALIGN })
}

/// The count after `steps` more requests.
pub open spec fn count_after(count: u32, steps: nat) -> u32
    decreases steps,
{
    if steps == 0 {
        count
    } else {
        next_count(count_after(count, (steps - 1) as nat))
    }
}

proof fn lemma_count_after(count: u32, steps: nat)
    requires
        1 <= count <= LAST_COUNT,
    ensures
        count_after(count, steps) == (count - 1 + steps) % LAST_COUNT as int + 1,
    decreases steps,
{
    if steps > 0 {
        lemma_count_after(count, (steps - 1) as nat);
        let before = count - 1 + (steps - 1);
        let rest = before % LAST_COUNT as int;
        vstd::arithmetic::div_mod::lemma_fundamental_div_mod(before, LAST_COUNT as int);
        vstd::arithmetic::div_mod::lemma_mod_bound(before, LAST_COUNT as int);
        if rest + 1 == LAST_COUNT {
            assert(before + 1 == LAST_COUNT as int * (before / LAST_COUNT as int + 1))
                by (nonlinear_arith)
                requires
                    before == LAST_COUNT as int * (before / LAST_COUNT as int) + rest,
                    rest + 1 == LAST_COUNT,
            ;
            vstd::arithmetic::div_mod::lemma_mod_multiples_basic(
                before / LAST_COUNT as int + 1,
                LAST_COUNT as int,
            );
            vstd::arithmetic::mul::lemma_mul_is_commutative(
                before / LAST_COUNT as int + 1,
                LAST_COUNT as int,
            );
        } else {
            vstd::arithmetic::div_mod::lemma_fundamental_div_mod_converse(
                before + 1,
                LAST_COUNT as int,
                before / LAST_COUNT as int,
                rest + 1,
            );
        }
    } else {
        vstd::arithmetic::div_mod::lemma_small_mod((count - 1) as nat, LAST_COUNT as nat);
    }
}

/// Every context has the bit of this side set and a count that is not zero.
pub proof fn law_context_shape(count: u32)
    requires
        count <= LAST_COUNT,
    ensures
        1 <= next_count(count) <= LAST_COUNT,
        context_of(next_count(count)) > CONTEXT_BIT,
        context_of(next_count(count)) == next_count(count) | CONTEXT_BIT,
{
    let next = next_count(count);
    assert(next <= 0x7fff_ffffu32 ==> next + 0x8000_0000u32 == (next | 0x8000_0000u32))
        by (bit_vector);
}

/// A context comes back only after all others were used: of as many successive
/// requests as there are counts, no two have the same context.
pub proof fn law_contexts_are_distinct(count: u32, earlier: nat, later: nat)
    requires
        count <= LAST_COUNT,
        earlier < later,
        later < earlier + LAST_COUNT,
    ensures
        context_of(count_after(next_count(count), earlier)) != context_of(
            count_after(next_count(count), later),
        ),
{
    let first = next_count(count);
    lemma_count_after(first, earlier);
    lemma_count_after(first, later);
    let low = first - 1 + earlier;
    let high = first - 1 + later;
    let size = LAST_COUNT as int;
    if low % size == high % size {
        vstd::arithmetic::div_mod::lemma_fundamental_div_mod(low, size);
        vstd::arithmetic::div_mod::lemma_fundamental_div_mod(high, size);
        assert(false) by (nonlinear_arith)
            requires
                low == size * (low / size) + low % size,
                high == size * (high / size) + high % size,
                low % size == high % size,
                0 < high - low < size,
                0 < size,
        ;
    }
}

/// A reply that is accepted has the number and the context that the request
/// waits for.
pub proof fn law_accepted_replies_belong(pending: Pending, context: Option<u32>)
    requires
        correlated(pending, context) is Ok,
    ensures
        context is None || context == Some(pending.context),
{
}

/// A client that was deleted can neither invoke anything nor be deleted again,
/// and no answer deletes it a second time.
pub proof fn law_deleted_client_is_disconnected(
    client: ClientView,
    answer: MemclntDeleteReply,
    service: Option<ServiceView>,
    reply: Seq<char>,
    first_crc: Seq<char>,
    second_crc: Seq<char>,
)
    ensures
        invocation(deleted(client), service, reply, first_crc, second_crc) == Err::<Invocation, _>(
            ErrorView::NotConnected,
        ),
        deletion(deleted(client), first_crc, second_crc) == Err::<(MemclntDelete, u16), _>(
            ErrorView::NotConnected,
        ),
        disconnection(deleted(client), answer) == Err::<ClientView, _>(ErrorView::NotConnected),
{
}

/// A client that was registered from a table knows every name of the table,
/// with the number of the name's last entry.
pub proof fn law_ids_of_table(entries: Seq<(Seq<char>, u16)>, at: int)
    requires
        0 <= at < entries.len(),
        forall|i: int| at < i < entries.len() ==> (#[trigger] entries[i]).0 != entries[at].0,
    ensures
        id_of(ids_of(entries), entries[at].0) == Some(entries[at].1),
    decreases entries.len(),
{
    if at < entries.len() - 1 {
        let lead = entries.drop_last();
        assert forall|i: int| at < i < lead.len() implies (#[trigger] lead[i]).0
            != lead[at].0 by {
            assert(lead[i] == entries[i]);
        }
        law_ids_of_table(lead, at);
        assert(entries[entries.len() - 1] == entries.last());
    }
}

/// A name that no entry has is not known.
pub proof fn law_ids_of_missing_name(entries: Seq<(Seq<char>, u16)>, name_crc: Seq<char>)
    requires
        forall|i: int| 0 <= i < entries.len() ==> (#[trigger] entries[i]).0 != name_crc,
    ensures
        id_of(ids_of(entries), name_crc) is None,
    decreases entries.len(),
{
    if entries.len() > 0 {
        let lead = entries.drop_last();
        assert forall|i: int| 0 <= i < lead.len() implies (#[trigger] lead[i]).0 != name_crc by {
            assert(lead[i] == entries[i]);
        }
        law_ids_of_missing_name(lead, name_crc);
        assert(entries[entries.len() - 1] == entries.last());
    }
}

/// A client that registers from a table that the server wrote knows the numbers
/// the server gave.
pub proof fn law_registration(
    client: ClientView,
    reply: MemclntCreateV2Reply,
    region: RegionExtent,
    image: Seq<u8>,
    entries: Seq<(Seq<char>, u16)>,
    rest: Seq<u8>,
)
    requires
        reply.response >= 0,
        region.holds((reply.message_table as usize) as int, 0),
        image.skip((reply.message_table as usize) - region.base) == table::encoded_table(entries)
            + rest,
        entries.len() <= u32::MAX,
        forall|i: int|
            0 <= i < entries.len() ==> encode_utf8((#[trigger] entries[i]).0).len() <= usize::MAX,
    ensures
        registered(client, reply, region, image) == Ok::<_, ErrorView>(
            ClientView {
                client_index: Some(reply.index),
                message_ids: ids_of(entries),
                ..client
            },
        ),
{
    table::law_table_round_trip(entries, rest);
}

/// Every request of the library declares the reply that the library has for it.
pub proof fn law_declared_exchanges()
    ensures
        declared_exchange(
            MemclntCreateV2::declared_service(),
            MemclntCreateV2Reply::declared_name(),
        ) is Ok,
        declared_exchange(
            MemclntDelete::declared_service(),
            MemclntDeleteReply::declared_name(),
        ) is Ok,
        declared_exchange(
            MemclntKeepalive::declared_service(),
            MemclntKeepaliveReply::declared_name(),
        ) is Ok,
        declared_exchange(
            ControlPing::declared_service(),
            ControlPingReply::declared_name(),
        ) is Ok,
        declared_exchange(
            ShowVersion::declared_service(),
            ShowVersionReply::declared_name(),
        ) is Ok,
{
}

/// A request whose header was filled in holds the number, the client index and
/// the context that it was given, each in its own field, and nothing else of it
/// changes. A registration has no field for an index, and a delete request has
/// none for a context and keeps the index it was made with.
pub proof fn law_addressed_requests(
    create: MemclntCreateV2,
    delete: MemclntDelete,
    keepalive: MemclntKeepalive,
    ping: ControlPing,
    version: ShowVersion,
    id: u16,
    client_index: u32,
    context: u32,
)
    ensures
        create.addressed(id, client_index, context).carried_context() == Some(context),
        delete.addressed(id, client_index, context).carried_context() is None,
        keepalive.addressed(id, client_index, context).carried_context() == Some(context),
        ping.addressed(id, client_index, context).carried_context() == Some(context),
        version.addressed(id, client_index, context).carried_context() == Some(context),
        ({
            let filled = ping.addressed(id, client_index, context);
            filled.id == id && filled.client_index == client_index && filled.context == context
        }),
        ({
            let filled = version.addressed(id, client_index, context);
            filled.id == id && filled.client_index == client_index && filled.context == context
        }),
        ({
            let filled = keepalive.addressed(id, client_index, context);
            filled.id == id && filled.client_index == client_index && filled.context == context
        }),
        ({
            let filled = create.addressed(id, client_index, context);
            &&& filled.id == id
            &&& filled.context == context
            &&& filled.ctx_quota == create.ctx_quota
            &&& filled.input_queue == create.input_queue
            &&& filled.name == create.name
            &&& filled.api_versions == create.api_versions
            &&& filled.keepalive == create.keepalive
        }),
        ({
            let filled = delete.addressed(id, client_index, context);
            &&& filled.id == id
            &&& filled.index == delete.index
            &&& filled.handle == delete.handle
            &&& filled.do_cleanup == delete.do_cleanup
        }),
{
}

/// A reply is not a request: filling a request header in leaves it as it is.
pub proof fn law_addressed_replies(
    create: MemclntCreateV2Reply,
    delete: MemclntDeleteReply,
    keepalive: MemclntKeepaliveReply,
    ping: ControlPingReply,
    version: ShowVersionReply,
    id: u16,
    client_index: u32,
    context: u32,
)
    ensures
        create.addressed(id, client_index, context) == create,
        delete.addressed(id, client_index, context) == delete,
        keepalive.addressed(id, client_index, context) == keepalive,
        ping.addressed(id, client_index, context) == ping,
        version.addressed(id, client_index, context) == version,
{
}

/// A message gives the context of its own field, and the two messages of a
/// deletion have none.
pub proof fn law_contexts_are_their_own(
    create: &MemclntCreateV2,
    created: &MemclntCreateV2Reply,
    delete: &MemclntDelete,
    gone: &MemclntDeleteReply,
    keepalive: &MemclntKeepalive,
    kept: &MemclntKeepaliveReply,
    ping: &ControlPing,
    pong: &ControlPingReply,
    version: &ShowVersion,
    shown: &ShowVersionReply,
    context: Option<u32>,
)
    ensures
        call_ensures(MemclntCreateV2::context, (create,), context) ==> context == Some(
            create.context,
        ),
        call_ensures(MemclntCreateV2Reply::context, (created,), context) ==> context == Some(
            created.context,
        ),
        call_ensures(MemclntDelete::context, (delete,), context) ==> context is None,
        call_ensures(MemclntDeleteReply::context, (gone,), context) ==> context is None,
        call_ensures(MemclntKeepalive::context, (keepalive,), context) ==> context == Some(
            keepalive.context,
        ),
        call_ensures(MemclntKeepaliveReply::context, (kept,), context) ==> context == Some(
            kept.context,
        ),
        call_ensures(ControlPing::context, (ping,), context) ==> context == Some(ping.context),
        call_ensures(ControlPingReply::context, (pong,), context) ==> context == Some(
            pong.context,
        ),
        call_ensures(ShowVersion::context, (version,), context) ==> context == Some(
            version.context,
        ),
        call_ensures(ShowVersionReply::context, (shown,), context) ==> context == Some(
            shown.context,
        ),
{
}

/// The name of a reply is the name of its request with `_reply` behind it, and a
/// service is called by the name of its request.
pub proof fn law_reply_names()
    ensures
        MemclntCreateV2Reply::declared_name() == MemclntCreateV2::declared_name() + "_reply"@,
        MemclntDeleteReply::declared_name() == MemclntDelete::declared_name() + "_reply"@,
        MemclntKeepaliveReply::declared_name() == MemclntKeepalive::declared_name() + "_reply"@,
        ControlPingReply::declared_name() == ControlPing::declared_name() + "_reply"@,
        ShowVersionReply::declared_name() == ShowVersion::declared_name() + "_reply"@,
        is_call::<MemclntCreateV2>(),
        is_call::<MemclntDelete>(),
        is_call::<MemclntKeepalive>(),
        is_call::<ControlPing>(),
        is_call::<ShowVersion>(),
        MemclntCreateV2Reply::declared_service() is None,
        MemclntDeleteReply::declared_service() is None,
        MemclntKeepaliveReply::declared_service() is None,
        ControlPingReply::declared_service() is None,
        ShowVersionReply::declared_service() is None,
{
    reveal_strlit("_reply");
    reveal_strlit("memclnt_create_v2");
    reveal_strlit("memclnt_create_v2_reply");
    reveal_strlit("memclnt_delete");
    reveal_strlit("memclnt_delete_reply");
    reveal_strlit("memclnt_keepalive");
    reveal_strlit("memclnt_keepalive_reply");
    reveal_strlit("control_ping");
    reveal_strlit("control_ping_reply");
    reveal_strlit("show_version");
    reveal_strlit("show_version_reply");
    assert(MemclntCreateV2Reply::declared_name() =~= MemclntCreateV2::declared_name()
        + "_reply"@);
    assert(MemclntDeleteReply::declared_name() =~= MemclntDelete::declared_name() + "_reply"@);
    assert(MemclntKeepaliveReply::declared_name() =~= MemclntKeepalive::declared_name()
        + "_reply"@);
    assert(ControlPingReply::declared_name() =~= ControlPing::declared_name() + "_reply"@);
    assert(ShowVersionReply::declared_name() =~= ShowVersion::declared_name() + "_reply"@);
}

/// Whether a request starts an exchange of itself and one reply, the one with
/// its own name and `_reply` behind it.
pub open spec fn is_call<Request: Api>() -> bool {
    Request::declared_service() matches Some(service) && service.caller == Request::declared_name()
        && service.reply == Some(Request::declared_name() + "_reply"@) && !service.stream
        && service.stream_message is None && service.events.len() == 0
}

/// A connected client sends a request under the number that the table of the
/// server has for the request, with its own index and the context behind its last
/// one, and waits for the number that the table has for the reply.
pub proof fn law_invocation_uses_the_table(
    client: ClientView,
    entries: Seq<(Seq<char>, u16)>,
    service: ServiceView,
    reply: Seq<char>,
    index: u32,
    asked: int,
    answered: int,
)
    requires
        client.message_ids == ids_of(entries),
        client.client_index == Some(index),
        client.context_counter <= 0x7fff_ffff,
        service.reply == Some(reply),
        0 <= asked < entries.len(),
        0 <= answered < entries.len(),
        forall|i: int| asked < i < entries.len() ==> (#[trigger] entries[i]).0 != entries[asked].0,
        forall|i: int|
            answered < i < entries.len() ==> (#[trigger] entries[i]).0 != entries[answered].0,
    ensures
        invocation(client, Some(service), reply, entries[asked].0, entries[answered].0) matches Ok(
            made,
        ) && made.request_id == entries[asked].1 && made.client_index == index
            && made.pending.reply_id == entries[answered].1 && made.pending.context == (
        if client.context_counter == 0x7fff_ffff {
            0x8000_0001
        } else {
            0x8000_0000 + client.context_counter + 1
        }),
{
    law_ids_of_table(entries, asked);
    law_ids_of_table(entries, answered);
}

/// An invocation is refused for the first thing that is missing: a connection, a
/// reply that the request declares, the expected reply, the number of the
/// request, and the number of the reply.
pub proof fn law_refused_invocations(
    client: ClientView,
    service: Option<ServiceView>,
    reply: Seq<char>,
    request_crc: Seq<char>,
    reply_crc: Seq<char>,
)
    ensures
        ({
            let made = invocation(client, service, reply, request_crc, reply_crc);
            let connected = client.client_index is Some;
            let answers = service is Some && service->Some_0.reply is Some;
            let expected = service->Some_0.reply->Some_0;
            let asks = client.message_ids.dom().contains(request_crc);
            let hears = client.message_ids.dom().contains(reply_crc);
            &&& made is Ok <==> connected && answers && expected == reply && asks && hears
            &&& !connected ==> made == Err::<Invocation, _>(ErrorView::NotConnected)
            &&& connected && !answers ==> made == Err::<Invocation, _>(
                ErrorView::RequestHasNoReply,
            )
            &&& connected && answers && expected != reply ==> made == Err::<Invocation, _>(
                (ErrorView::ReplyTypeMismatch { expected, actual: reply }),
            )
            &&& connected && answers && expected == reply && !asks ==> made == Err::<
                Invocation,
                _,
            >((ErrorView::MessageUnavailable { name_crc: request_crc }))
            &&& connected && answers && expected == reply && asks && !hears ==> made == Err::<
                Invocation,
                _,
            >((ErrorView::MessageUnavailable { name_crc: reply_crc }))
        }),
{
}

/// A registration asks under the number that needs no table, names its queue, and
/// carries a name that can be read back; all else is zero.
pub proof fn law_registration_request(
    client: &Client,
    name: &str,
    input_queue: u64,
    request: MemclntCreateV2,
)
    requires
        call_ensures(Client::create_request, (client, name, input_queue), request),
    ensures
        request.id == 25,
        request.context == 0,
        request.ctx_quota == 0,
        request.input_queue == input_queue,
        request.keepalive == client@.handle_keepalives,
        request.api_versions@.len() == 8,
        forall|i: int| 0 <= i < 8 ==> request.api_versions@[i] == 0,
        encode_utf8(name@).len() < 64 && !encode_utf8(name@).contains(0u8) ==> text::decoded_text(
            value::content(request.name@),
        ) == Some(name@),
{
    if encode_utf8(name@).len() < 64 && !encode_utf8(name@).contains(0u8) {
        value::law_fixed_string_round_trip(name@, 64);
    }
}

/// A registration that the server refused, and one whose table lies outside the
/// region, leaves no client behind.
pub proof fn law_refused_registrations(
    client: ClientView,
    reply: MemclntCreateV2Reply,
    region: RegionExtent,
    image: Seq<u8>,
)
    ensures
        reply.response < 0 ==> registered(client, reply, region, image) == Err::<ClientView, _>(
            (ErrorView::CreateRejected { response: reply.response }),
        ),
        reply.response >= 0 && !region.holds((reply.message_table as usize) as int, 0)
            ==> registered(client, reply, region, image) == Err::<ClientView, _>(
            (ErrorView::Memory { source: MemoryError::InvalidHeader }),
        ),
{
}

/// A connected client asks to be deleted by its own index, under the number that
/// the table has for the request, and without handle or cleanup.
pub proof fn law_deletion_uses_the_table(
    client: ClientView,
    entries: Seq<(Seq<char>, u16)>,
    index: u32,
    asked: int,
    answered: int,
)
    requires
        client.message_ids == ids_of(entries),
        client.client_index == Some(index),
        0 <= asked < entries.len(),
        0 <= answered < entries.len(),
        forall|i: int| asked < i < entries.len() ==> (#[trigger] entries[i]).0 != entries[asked].0,
        forall|i: int|
            answered < i < entries.len() ==> (#[trigger] entries[i]).0 != entries[answered].0,
    ensures
        deletion(client, entries[asked].0, entries[answered].0) matches Ok(made) && made.0.id
            == entries[asked].1 && made.0.index == index && made.0.handle == 0
            && !made.0.do_cleanup && made.1 == entries[answered].1,
{
    law_ids_of_table(entries, asked);
    law_ids_of_table(entries, answered);
}

/// A delete request that cannot be made says what is missing: the connection,
/// the number of the request, or the number of its answer.
pub proof fn law_refused_deletions(client: ClientView, delete_crc: Seq<char>, reply_crc: Seq<char>)
    ensures
        ({
            let made = deletion(client, delete_crc, reply_crc);
            let asks = client.message_ids.dom().contains(delete_crc);
            let hears = client.message_ids.dom().contains(reply_crc);
            &&& made is Ok <==> client.client_index is Some && asks && hears
            &&& client.client_index is None ==> made == Err::<(MemclntDelete, u16), _>(
                ErrorView::NotConnected,
            )
            &&& client.client_index is Some && !asks ==> made == Err::<(MemclntDelete, u16), _>(
                (ErrorView::MessageUnavailable { name_crc: delete_crc }),
            )
            &&& client.client_index is Some && asks && !hears ==> made == Err::<
                (MemclntDelete, u16),
                _,
            >((ErrorView::MessageUnavailable { name_crc: reply_crc }))
        }),
{
}

/// An answer deletes a connected client exactly where it does not refuse: the
/// client has no index and knows no message then, and keeps all else.
pub proof fn law_disconnection(client: ClientView, reply: MemclntDeleteReply)
    requires
        client.client_index is Some,
    ensures
        reply.response < 0 ==> disconnection(client, reply) == Err::<ClientView, _>(
            (ErrorView::CreateRejected { response: reply.response }),
        ),
        reply.response >= 0 ==> disconnection(client, reply) is Ok && ({
            let gone = disconnection(client, reply)->Ok_0;
            &&& gone.client_index is None
            &&& forall|name: Seq<char>| id_of(gone.message_ids, name) is None
            &&& gone.context_counter == client.context_counter
            &&& gone.handle_keepalives == client.handle_keepalives
        }),
{
}

/// A keepalive is answered to the index it names, with success, under the number
/// that the table has for the answer; without that number it is not answered.
pub proof fn law_keepalive_answer(
    client: &Client,
    request: &MemclntKeepalive,
    identity: &Identity<MemclntKeepaliveReply>,
    answer: Result<MemclntKeepaliveReply, Error>,
)
    requires
        call_ensures(Client::keepalive_reply, (client, request, identity), answer),
    ensures
        answer is Ok <==> client@.message_ids.dom().contains(identity@),
        answer matches Ok(reply) ==> reply.context == request.client_index && reply.retval == 0
            && reply.id == client@.message_ids[identity@],
        answer matches Err(error) ==> error@ == (ErrorView::MessageUnavailable {
            name_crc: identity@,
        }),
{
}

/// A message is a keepalive to be answered exactly where the client answers
/// keepalives and the table has its number for them.
pub proof fn law_keepalives_are_recognized(
    client: &Client,
    id: u16,
    identity: &Identity<MemclntKeepalive>,
    keepalive: bool,
)
    requires
        call_ensures(Client::is_keepalive, (client, id, identity), keepalive),
    ensures
        !client@.handle_keepalives ==> !keepalive,
        !client@.message_ids.dom().contains(identity@) ==> !keepalive,
        client@.handle_keepalives && client@.message_ids.dom().contains(identity@) ==> keepalive
            == (client@.message_ids[identity@] == id),
{
}

/// A reply with another context than the one that is waited for is refused, with
/// both contexts named; one with that context, or with none, is taken as it is.
pub proof fn law_replies_are_correlated<Reply: Api>(
    pending: &Pending,
    reply: Reply,
    accepted: Result<Reply, Error>,
)
    requires
        call_ensures(accept_reply::<Reply>, (pending, reply), accepted),
    ensures
        reply.carried_context() is None || reply.carried_context() == Some(pending.context)
            ==> accepted is Ok && accepted->Ok_0 == reply,
        reply.carried_context() matches Some(received) ==> received != pending.context ==> accepted
            is Err && accepted->Err_0@ == (ErrorView::ContextMismatch {
            expected: pending.context,
            received,
        }),
{
}

/// An attach is tried again exactly while it may succeed and there is time;
/// otherwise its failure is the failure of the connection.
pub proof fn law_attach_failure(source: SvmRegionError, expired: bool, failure: Option<Error>)
    requires
        call_ensures(attach_failure, (source, expired), failure),
    ensures
        expired ==> failure is Some,
        source == SvmRegionError::NotReady && !expired ==> failure is None,
        source matches SvmRegionError::Open { source: cause, .. } ==> (failure is None <==> !expired
            && (cause.kind is NotFound || cause.kind is WouldBlock)),
        !(source is NotReady) && !(source is Open) ==> failure is Some,
        failure matches Some(error) ==> error@ == (ErrorView::Region { source }),
{
}

/// The address that the server leaves is taken when it is there, and is waited
/// for while there is time.
pub proof fn law_await_context(
    context: Option<usize>,
    expired: bool,
    path: &[u8],
    wait: Wait<usize>,
)
    requires
        call_ensures(await_context, (context, expired, path), wait),
    ensures
        context matches Some(address) ==> wait == Wait::Ready(address),
        context is None && !expired ==> wait is Again,
        context is None && expired ==> wait is Failed && wait->Failed_0@ == (
        ErrorView::ConnectTimeout { path: path@ }),
{
}

/// A message in the queue is taken, an empty queue is looked at again while there
/// is time, and any other failure of the queue is a failure.
pub proof fn law_poll(taken: Result<usize, SvmQueueError>, expired: bool, seen: Poll)
    requires
        call_ensures(poll, (taken, expired), seen),
    ensures
        taken matches Ok(address) ==> seen == Poll::Taken(address),
        taken matches Err(source) ==> source is Empty ==> seen == (if expired {
            Poll::Expired
        } else {
            Poll::Again
        }),
        taken matches Err(source) ==> !(source is Empty) ==> seen is Failed && seen->Failed_0@ == (
        ErrorView::Queue { source }),
{
}

/// While the answer to a registration is waited for, it is decoded, any other
/// message is dropped, and the want of a message is a timeout.
pub proof fn law_registration_arrival(id: Option<u16>, path: &[u8], arrival: Arrival)
    requires
        call_ensures(registration_arrival, (id, path), arrival),
    ensures
        id == Some(26u16) ==> arrival is Decode,
        id is Some && id != Some(26u16) ==> arrival is Discard,
        id is None ==> arrival is Failed && arrival->Failed_0@ == (ErrorView::ConnectTimeout {
            path: path@,
        }),
{
}

/// While a reply is waited for, it is decoded, and any other message, or the want
/// of one, is a failure that names what was waited for.
pub proof fn law_reply_arrival(pending: &Pending, id: Option<u16>, arrival: Arrival)
    requires
        call_ensures(reply_arrival, (pending, id), arrival),
    ensures
        id == Some(pending.reply_id) ==> arrival is Decode,
        id matches Some(found) ==> found != pending.reply_id ==> arrival is Failed
            && arrival->Failed_0@ == (ErrorView::UnexpectedMessage {
            id: found,
            expected: pending.reply_id,
        }),
        id is None ==> arrival is Failed && arrival->Failed_0@ == (ErrorView::ResponseTimeout {
            context: pending.context,
        }),
{
}

/// While the answer to a delete request is waited for, it is decoded, any other
/// message is dropped, and the want of a message is a timeout.
pub proof fn law_deletion_arrival(
    id: Option<u16>,
    reply_id: u16,
    client_index: u32,
    arrival: Arrival,
)
    requires
        call_ensures(deletion_arrival, (id, reply_id, client_index), arrival),
    ensures
        id == Some(reply_id) ==> arrival is Decode,
        id is Some && id != Some(reply_id) ==> arrival is Discard,
        id is None ==> arrival is Failed && arrival->Failed_0@ == (ErrorView::DisconnectTimeout {
            client_index,
        }),
{
}

/// A response queue has as many elements as were asked for, of eight bytes each.
pub proof fn law_response_queue(size: u32, geometry: (u32, u32))
    requires
        call_ensures(response_queue, (size,), geometry),
    ensures
        geometry.0 == size,
        geometry.1 == 8,
{
}

/// A queue has a block of its own size on a border of 64 bytes, unless no block
/// can be that large.
pub proof fn law_queue_layout(bytes: usize, layout: Result<BlockLayout, Error>)
    requires
        call_ensures(queue_layout, (bytes,), layout),
    ensures
        bytes + 63 <= isize::MAX ==> layout is Ok && layout->Ok_0.size == bytes
            && layout->Ok_0.align == 64,
        bytes + 63 > isize::MAX ==> layout is Err && layout->Err_0@ == (ErrorView::Queue {
            source: SvmQueueError::LayoutOverflow,
        }),
{
}

/// A new client is not connected, knows no message and has sent no request.
pub proof fn law_new_client(
    handle_keepalives: bool,
    client: Client,
    index: Option<u32>,
    name_crc: &str,
    id: Option<u16>,
)
    requires
        call_ensures(Client::new, (handle_keepalives,), client),
        call_ensures(Client::client_index, (&client,), index),
        call_ensures(Client::message_id, (&client, name_crc), id),
    ensures
        index is None,
        id is None,
        client@.context_counter == 0,
        client@.handle_keepalives == handle_keepalives,
{
}

/// A registration whose table cannot be read fails as the table does, and one that
/// succeeds gives the client the index of the answer and leaves its count alone.
pub proof fn law_registered_clients(
    client: ClientView,
    reply: MemclntCreateV2Reply,
    region: RegionExtent,
    image: Seq<u8>,
)
    requires
        reply.response >= 0,
        region.holds((reply.message_table as usize) as int, 0),
    ensures
        ({
            let rest = image.skip((reply.message_table as usize) - region.base);
            let made = registered(client, reply, region, image);
            &&& table::table_of(rest) matches Err(source) ==> made == Err::<ClientView, _>(
                (ErrorView::Codec { source }),
            )
            &&& table::table_of(rest) is Ok ==> made is Ok
            &&& made matches Ok(connected) ==> connected.client_index == Some(reply.index)
                && connected.context_counter == client.context_counter
                && connected.handle_keepalives == client.handle_keepalives
        }),
{
}

/// Filling a header in writes the number, the index and the context into their own
/// fields.
pub proof fn law_filled_headers(id: u16, client_index: u32, context: u32)
    ensures
        forall|request: &mut ControlPing| #[trigger]
            call_ensures(
                ControlPing::set_request_header,
                (request, id, client_index, context),
                (),
            ) ==> final(request).id == id && final(request).client_index == client_index
                && final(request).context == context,
        forall|request: &mut ShowVersion| #[trigger]
            call_ensures(
                ShowVersion::set_request_header,
                (request, id, client_index, context),
                (),
            ) ==> final(request).id == id && final(request).client_index == client_index
                && final(request).context == context,
        forall|request: &mut MemclntKeepalive| #[trigger]
            call_ensures(
                MemclntKeepalive::set_request_header,
                (request, id, client_index, context),
                (),
            ) ==> final(request).id == id && final(request).client_index == client_index
                && final(request).context == context,
{
}

/// Every request gets the context behind the last one, and nothing else of the
/// client changes.
pub proof fn law_next_context(context: u32)
    ensures
        forall|client: &mut Client| #[trigger]
            call_ensures(Client::next_context, (client,), context) ==> {
                let before = (*client)@;
                let after = final(client)@;
                &&& context == 0x8000_0000 + after.context_counter
                &&& before.context_counter < 0x7fff_ffff ==> after.context_counter
                    == before.context_counter + 1
                &&& before.context_counter == 0x7fff_ffff ==> after.context_counter == 1
                &&& after.client_index == before.client_index
                &&& after.message_ids == before.message_ids
                &&& after.handle_keepalives == before.handle_keepalives
            },
{
}

/// Whether an invocation filled a request in and says what to wait for: the
/// numbers are those that the client knows, the index is its own, and the context
/// is the one of its next count.
pub open spec fn is_invoked(
    before: ClientView,
    after: ClientView,
    request_crc: Seq<char>,
    reply_crc: Seq<char>,
    id: u16,
    client_index: u32,
    context: u32,
    pending: Pending,
) -> bool {
    &&& before.message_ids.dom().contains(request_crc)
    &&& before.message_ids.dom().contains(reply_crc)
    &&& before.client_index == Some(client_index)
    &&& id == before.message_ids[request_crc]
    &&& pending.reply_id == before.message_ids[reply_crc]
    &&& pending.context == context
    &&& context == 0x8000_0000 + after.context_counter
    &&& before.context_counter < 0x7fff_ffff ==> after.context_counter == before.context_counter
        + 1
    &&& before.context_counter == 0x7fff_ffff ==> after.context_counter == 1
    &&& after.client_index == before.client_index
    &&& after.message_ids == before.message_ids
    &&& after.handle_keepalives == before.handle_keepalives
}

/// A ping and a request for the version that are invoked are filled in with the
/// number, the index and the context; one that is refused is left as it is, and
/// so is the client.
pub proof fn law_invoked_requests(
    ping: &Identity<ControlPing>,
    pong: &Identity<ControlPingReply>,
    version: &Identity<ShowVersion>,
    shown: &Identity<ShowVersionReply>,
    pending: Result<Pending, Error>,
)
    ensures
        forall|client: &mut Client, request: &mut ControlPing| #[trigger]
            call_ensures(
                Client::invoke::<ControlPing, ControlPingReply>,
                (client, request, ping, pong),
                pending,
            ) ==> (if pending is Ok {
                is_invoked(
                    (*client)@,
                    final(client)@,
                    ping@,
                    pong@,
                    final(request).id,
                    final(request).client_index,
                    final(request).context,
                    pending->Ok_0,
                )
            } else {
                *final(request) == *request && final(client)@ == (*client)@
            }),
        forall|client: &mut Client, request: &mut ShowVersion| #[trigger]
            call_ensures(
                Client::invoke::<ShowVersion, ShowVersionReply>,
                (client, request, version, shown),
                pending,
            ) ==> (if pending is Ok {
                is_invoked(
                    (*client)@,
                    final(client)@,
                    version@,
                    shown@,
                    final(request).id,
                    final(request).client_index,
                    final(request).context,
                    pending->Ok_0,
                )
            } else {
                *final(request) == *request && final(client)@ == (*client)@
            }),
{
}

/// A registration that succeeds leaves the client with the index of the answer, and
/// one that fails leaves it as it was; a deletion that succeeds leaves it without
/// index and messages, and one that fails as it was.
pub proof fn law_registration_and_deletion(
    reply: &MemclntCreateV2Reply,
    region: &SvmRegion,
    image: &[u8],
    registration: Result<(), Error>,
    gone: &MemclntDeleteReply,
    disconnected: Result<(), Error>,
)
    requires
        image@.len() == region@.size,
    ensures
        forall|client: &mut Client| #[trigger]
            call_ensures(Client::register, (client, reply, region, image), registration) ==> (
            if registration is Ok {
                &&& reply.response >= 0
                &&& final(client)@.client_index == Some(reply.index)
                &&& final(client)@.context_counter == (*client)@.context_counter
                &&& final(client)@.handle_keepalives == (*client)@.handle_keepalives
            } else {
                final(client)@ == (*client)@
            }),
        forall|client: &mut Client| #[trigger]
            call_ensures(Client::disconnect, (client, gone), disconnected) ==> (if disconnected
                is Ok {
                &&& gone.response >= 0
                &&& (*client)@.client_index is Some
                &&& final(client)@.client_index is None
                &&& forall|name: Seq<char>| id_of(final(client)@.message_ids, name) is None
                &&& final(client)@.context_counter == (*client)@.context_counter
            } else {
                final(client)@ == (*client)@
            }),
{
}

/// A request that took effect has not failed, whatever waking the server came to;
/// any other failure of the queue is the failure of the request.
pub proof fn law_send_failure(source: SvmQueueError, failure: Option<Error>)
    requires
        call_ensures(send_failure, (source,), failure),
    ensures
        source == (SvmQueueError::SignalAfterCommit { operation: SvmQueueOperation::Add })
            || source == (SvmQueueError::EventSignalAfterCommit {
            operation: SvmQueueOperation::Add,
        }) <==> failure is None,
        failure matches Some(error) ==> error@ == (ErrorView::Queue { source }),
{
}

} // verus!
