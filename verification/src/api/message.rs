//! What every API message declares: its name, its fields, the service it asks
//! for, and where it keeps its request header.

use core::marker::PhantomData;
use vstd::prelude::*;

verus! {

/// One declared field of a message.
#[derive(Clone, Copy, Debug, Eq, PartialEq)]
pub struct Field {
    pub name: &'static str,
    pub field_type: &'static str,
    /// How many elements a field of fixed length has.
    pub length: Option<usize>,
}

/// The view of a [`Field`].
pub struct FieldView {
    pub name: Seq<char>,
    pub field_type: Seq<char>,
    pub length: Option<usize>,
}

impl View for Field {
    type V = FieldView;

    open spec fn view(&self) -> FieldView {
        FieldView { name: self.name@, field_type: self.field_type@, length: self.length }
    }
}

/// A single value.
pub fn scalar(name: &'static str, field_type: &'static str) -> (field: Field)
    ensures
        field@ == scalar_view(name@, field_type@),
{
    Field { name, field_type, length: None }
}

/// A fixed number of values.
pub fn primitive(name: &'static str, field_type: &'static str, length: usize) -> (field: Field)
    ensures
        field@ == primitive_view(name@, field_type@, length),
{
    Field { name, field_type, length: Some(length) }
}

/// A string field of fixed length.
pub fn string(name: &'static str, length: usize) -> (field: Field)
    ensures
        field@ == primitive_view(name@, "string"@, length),
{
    Field { name, field_type: "string", length: Some(length) }
}

/// A single value.
pub open spec fn scalar_view(name: Seq<char>, field_type: Seq<char>) -> FieldView {
    FieldView { name, field_type, length: None }
}

/// A fixed number of values.
pub open spec fn primitive_view(
    name: Seq<char>,
    field_type: Seq<char>,
    length: usize,
) -> FieldView {
    FieldView { name, field_type, length: Some(length) }
}

/// The exchange a request starts.
#[derive(Clone, Debug, Eq, PartialEq)]
pub struct Service {
    pub caller: &'static str,
    pub reply: Option<&'static str>,
    pub stream: bool,
    pub stream_message: Option<&'static str>,
    pub events: Vec<&'static str>,
}

/// The view of a [`Service`].
pub struct ServiceView {
    pub caller: Seq<char>,
    pub reply: Option<Seq<char>>,
    pub stream: bool,
    pub stream_message: Option<Seq<char>>,
    pub events: Seq<Seq<char>>,
}

/// The view of an optional name.
pub open spec fn name_view(name: Option<&'static str>) -> Option<Seq<char>> {
    match name {
        Some(found) => Some(found@),
        None => None,
    }
}

impl View for Service {
    type V = ServiceView;

    open spec fn view(&self) -> ServiceView {
        ServiceView {
            caller: self.caller@,
            reply: name_view(self.reply),
            stream: self.stream,
            stream_message: name_view(self.stream_message),
            events: self.events@.map_values(|event: &'static str| event@),
        }
    }
}

/// The exchange of one request and one reply.
pub open spec fn exchange(caller: Seq<char>, reply: Seq<char>) -> ServiceView {
    ServiceView {
        caller,
        reply: Some(reply),
        stream: false,
        stream_message: None,
        events: Seq::empty(),
    }
}

impl Service {
    /// The exchange of one request and one reply.
    pub fn of_exchange(caller: &'static str, reply: &'static str) -> (service: Service)
        ensures
            service@ == exchange(caller@, reply@),
    {
        let events: Vec<&'static str> = Vec::new();
        assert(events@.map_values(|event: &'static str| event@) =~= Seq::empty());
        Service { caller, reply: Some(reply), stream: false, stream_message: None, events }
    }
}

/// The view of an optional service.
pub open spec fn service_view(service: Option<Service>) -> Option<ServiceView> {
    match service {
        Some(found) => Some(found@),
        None => None,
    }
}

/// The views of declared fields.
pub open spec fn fields_view(fields: Seq<Field>) -> Seq<FieldView> {
    fields.map_values(|field: Field| field@)
}

/// Whether a declared field has the name, the type and the number of elements.
pub open spec fn is_field(
    field: FieldView,
    name: Seq<char>,
    field_type: Seq<char>,
    length: Option<usize>,
) -> bool {
    field.name == name && field.field_type == field_type && field.length == length
}

/// The name with checksum under which a server lists the message `T`.
///
/// The checksum is computed from the message's declaration by whoever makes the
/// identity; from then on the name belongs to `T` and to no other message.
#[derive(Debug)]
#[verifier::reject_recursive_types(T)]
pub struct Identity<T> {
    name_crc: &'static str,
    message: PhantomData<T>,
}

impl<T> View for Identity<T> {
    type V = Seq<char>;

    closed spec fn view(&self) -> Seq<char> {
        self.name_crc@
    }
}

impl<T> Identity<T> {
    /// The identity with the name.
    pub fn of(name_crc: &'static str) -> (identity: Self)
        ensures
            identity@ == name_crc@,
    {
        Identity { name_crc, message: PhantomData }
    }

    /// The name with checksum.
    pub fn name_crc(&self) -> (name_crc: &'static str)
        ensures
            name_crc@ == self@,
    {
        self.name_crc
    }
}

/// A message of the API.
pub trait Api: Sized {
    /// The declared name.
    spec fn declared_name() -> Seq<char>;

    /// The declared fields.
    spec fn declared_fields() -> Seq<FieldView>;

    /// The declared service, for a request.
    spec fn declared_service() -> Option<ServiceView>;

    /// The message with its request header filled in.
    spec fn addressed(self, id: u16, client_index: u32, context: u32) -> Self;

    /// The context the message carries, if it carries one.
    spec fn carried_context(self) -> Option<u32>;

    fn name() -> (name: &'static str)
        ensures
            name@ == Self::declared_name(),
    ;

    fn fields() -> (fields: Vec<Field>)
        ensures
            fields_view(fields@) == Self::declared_fields(),
    ;

    fn service() -> (service: Option<Service>)
        ensures
            service_view(service) == Self::declared_service(),
    ;

    fn set_request_header(&mut self, id: u16, client_index: u32, context: u32)
        ensures
            *final(self) == old(self).addressed(id, client_index, context),
    ;

    fn context(&self) -> (context: Option<u32>)
        ensures
            context == self.carried_context(),
    ;
}

/// A declared field has the name and the type it was made with; a single value
/// has no length, and a string is of type `string`.
pub proof fn law_declared_fields(
    name: &'static str,
    field_type: &'static str,
    length: usize,
    single: Field,
    several: Field,
    text: Field,
)
    requires
        call_ensures(scalar, (name, field_type), single),
        call_ensures(primitive, (name, field_type, length), several),
        call_ensures(string, (name, length), text),
    ensures
        single.name@ == name@ && single.field_type@ == field_type@ && single.length is None,
        several.name@ == name@ && several.field_type@ == field_type@ && several.length == Some(
            length,
        ),
        text.name@ == name@ && text.field_type@ == "string"@ && text.length == Some(length),
{
}

/// An exchange names its caller and its reply, and is neither a stream nor a
/// source of events; an identity gives the name it was made with.
pub proof fn law_exchanges_and_identities<T>(
    caller: &'static str,
    reply: &'static str,
    service: Service,
    identity: Identity<T>,
    name_crc: &'static str,
)
    requires
        call_ensures(Service::of_exchange, (caller, reply), service),
        call_ensures(Identity::<T>::of, (caller,), identity),
        call_ensures(Identity::<T>::name_crc, (&identity,), name_crc),
    ensures
        service.caller@ == caller@,
        service.reply is Some && service.reply->Some_0@ == reply@,
        !service.stream && service.stream_message is None && service.events@.len() == 0,
        name_crc@ == caller@,
{
    assert(service@.events.len() == service.events@.len());
}

} // verus!
