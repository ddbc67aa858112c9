//! V2 client registration and lifecycle messages.

use crate::api::message;
use crate::api::message::{Api, Field, FieldView, Service, ServiceView};
use crate::api::value::FixedString;
use vstd::prelude::*;

verus! {

// These two numbers are the only ones a client needs before it can import the
// server's message table. Every other number is discovered by the name and
// checksum of a message after `memclnt_create_v2_reply`.
pub const MEMCLNT_CREATE_V2_ID: u16 = 25;

pub const MEMCLNT_CREATE_V2_REPLY_ID: u16 = 26;

#[derive(Clone, Copy, Debug, PartialEq, Eq)]
pub struct MemclntCreateV2 {
    pub id: u16,
    pub context: u32,
    pub ctx_quota: i32,
    pub input_queue: u64,
    pub name: FixedString<64>,
    pub api_versions: [u32; 8],
    pub keepalive: bool,
}

impl Api for MemclntCreateV2 {
    open spec fn declared_name() -> Seq<char> {
        "memclnt_create_v2"@
    }

    open spec fn declared_fields() -> Seq<FieldView> {
        seq![
            message::primitive_view("id"@, "u16"@, 1),
            message::primitive_view("context"@, "u32"@, 1),
            message::primitive_view("ctx_quota"@, "i32"@, 1),
            message::primitive_view("input_queue"@, "u64"@, 1),
            message::primitive_view("name"@, "string"@, 64),
            message::primitive_view("api_versions"@, "u32"@, 8),
            message::primitive_view("keepalive"@, "bool"@, 1),
        ]
    }

    open spec fn declared_service() -> Option<ServiceView> {
        Some(message::exchange("memclnt_create_v2"@, "memclnt_create_v2_reply"@))
    }

    open spec fn addressed(self, id: u16, client_index: u32, context: u32) -> Self {
        MemclntCreateV2 { id, context, ..self }
    }

    open spec fn carried_context(self) -> Option<u32> {
        Some(self.context)
    }

    fn name() -> (name: &'static str) {
        "memclnt_create_v2"
    }

    fn fields() -> (fields: Vec<Field>) {
        let mut fields: Vec<Field> = Vec::new();
        fields.push(message::primitive("id", "u16", 1));
        fields.push(message::primitive("context", "u32", 1));
        fields.push(message::primitive("ctx_quota", "i32", 1));
        fields.push(message::primitive("input_queue", "u64", 1));
        fields.push(message::primitive("name", "string", 64));
        fields.push(message::primitive("api_versions", "u32", 8));
        fields.push(message::primitive("keepalive", "bool", 1));
        assert(message::fields_view(fields@) =~= Self::declared_fields());
        fields
    }

    fn service() -> (service: Option<Service>) {
        Some(Service::of_exchange("memclnt_create_v2", "memclnt_create_v2_reply"))
    }

    fn set_request_header(&mut self, id: u16, client_index: u32, context: u32) {
        self.id = id;
        self.context = context;
    }

    fn context(&self) -> (context: Option<u32>) {
        Some(self.context)
    }
}

#[derive(Clone, Copy, Debug, PartialEq, Eq, Structural)]
pub struct MemclntCreateV2Reply {
    pub id: u16,
    pub context: u32,
    pub response: i32,
    pub handle: u64,
    pub index: u32,
    pub message_table: u64,
}

impl Api for MemclntCreateV2Reply {
    open spec fn declared_name() -> Seq<char> {
        "memclnt_create_v2_reply"@
    }

    open spec fn declared_fields() -> Seq<FieldView> {
        seq![
            message::primitive_view("id"@, "u16"@, 1),
            message::primitive_view("context"@, "u32"@, 1),
            message::primitive_view("response"@, "i32"@, 1),
            message::primitive_view("handle"@, "u64"@, 1),
            message::primitive_view("index"@, "u32"@, 1),
            message::primitive_view("message_table"@, "u64"@, 1),
        ]
    }

    open spec fn declared_service() -> Option<ServiceView> {
        None
    }

    open spec fn addressed(self, id: u16, client_index: u32, context: u32) -> Self {
        self
    }

    open spec fn carried_context(self) -> Option<u32> {
        Some(self.context)
    }

    fn name() -> (name: &'static str) {
        "memclnt_create_v2_reply"
    }

    fn fields() -> (fields: Vec<Field>) {
        let mut fields: Vec<Field> = Vec::new();
        fields.push(message::primitive("id", "u16", 1));
        fields.push(message::primitive("context", "u32", 1));
        fields.push(message::primitive("response", "i32", 1));
        fields.push(message::primitive("handle", "u64", 1));
        fields.push(message::primitive("index", "u32", 1));
        fields.push(message::primitive("message_table", "u64", 1));
        assert(message::fields_view(fields@) =~= Self::declared_fields());
        fields
    }

    fn service() -> (service: Option<Service>) {
        None
    }

    fn set_request_header(&mut self, id: u16, client_index: u32, context: u32) {
    }

    fn context(&self) -> (context: Option<u32>) {
        Some(self.context)
    }
}

#[derive(Clone, Copy, Debug, PartialEq, Eq, Structural)]
pub struct MemclntDelete {
    pub id: u16,
    pub index: u32,
    pub handle: u64,
    pub do_cleanup: bool,
}

impl Api for MemclntDelete {
    open spec fn declared_name() -> Seq<char> {
        "memclnt_delete"@
    }

    open spec fn declared_fields() -> Seq<FieldView> {
        seq![
            message::primitive_view("id"@, "u16"@, 1),
            message::primitive_view("index"@, "u32"@, 1),
            message::primitive_view("handle"@, "u64"@, 1),
            message::primitive_view("do_cleanup"@, "bool"@, 1),
        ]
    }

    open spec fn declared_service() -> Option<ServiceView> {
        Some(message::exchange("memclnt_delete"@, "memclnt_delete_reply"@))
    }

    open spec fn addressed(self, id: u16, client_index: u32, context: u32) -> Self {
        MemclntDelete { id, ..self }
    }

    open spec fn carried_context(self) -> Option<u32> {
        None
    }

    fn name() -> (name: &'static str) {
        "memclnt_delete"
    }

    fn fields() -> (fields: Vec<Field>) {
        let mut fields: Vec<Field> = Vec::new();
        fields.push(message::primitive("id", "u16", 1));
        fields.push(message::primitive("index", "u32", 1));
        fields.push(message::primitive("handle", "u64", 1));
        fields.push(message::primitive("do_cleanup", "bool", 1));
        assert(message::fields_view(fields@) =~= Self::declared_fields());
        fields
    }

    fn service() -> (service: Option<Service>) {
        Some(Service::of_exchange("memclnt_delete", "memclnt_delete_reply"))
    }

    fn set_request_header(&mut self, id: u16, client_index: u32, context: u32) {
        self.id = id;
    }

    fn context(&self) -> (context: Option<u32>) {
        None
    }
}

#[derive(Clone, Copy, Debug, PartialEq, Eq, Structural)]
pub struct MemclntDeleteReply {
    pub id: u16,
    pub response: i32,
    pub handle: u64,
}

impl Api for MemclntDeleteReply {
    open spec fn declared_name() -> Seq<char> {
        "memclnt_delete_reply"@
    }

    open spec fn declared_fields() -> Seq<FieldView> {
        seq![
            message::primitive_view("id"@, "u16"@, 1),
            message::primitive_view("response"@, "i32"@, 1),
            message::primitive_view("handle"@, "u64"@, 1),
        ]
    }

    open spec fn declared_service() -> Option<ServiceView> {
        None
    }

    open spec fn addressed(self, id: u16, client_index: u32, context: u32) -> Self {
        self
    }

    open spec fn carried_context(self) -> Option<u32> {
        None
    }

    fn name() -> (name: &'static str) {
        "memclnt_delete_reply"
    }

    fn fields() -> (fields: Vec<Field>) {
        let mut fields: Vec<Field> = Vec::new();
        fields.push(message::primitive("id", "u16", 1));
        fields.push(message::primitive("response", "i32", 1));
        fields.push(message::primitive("handle", "u64", 1));
        assert(message::fields_view(fields@) =~= Self::declared_fields());
        fields
    }

    fn service() -> (service: Option<Service>) {
        None
    }

    fn set_request_header(&mut self, id: u16, client_index: u32, context: u32) {
    }

    fn context(&self) -> (context: Option<u32>) {
        None
    }
}

#[derive(Clone, Copy, Debug, PartialEq, Eq, Structural)]
pub struct MemclntKeepalive {
    pub id: u16,
    pub client_index: u32,
    pub context: u32,
}

impl Api for MemclntKeepalive {
    open spec fn declared_name() -> Seq<char> {
        "memclnt_keepalive"@
    }

    open spec fn declared_fields() -> Seq<FieldView> {
        seq![
            message::primitive_view("id"@, "u16"@, 1),
            message::primitive_view("client_index"@, "u32"@, 1),
            message::primitive_view("context"@, "u32"@, 1),
        ]
    }

    open spec fn declared_service() -> Option<ServiceView> {
        Some(message::exchange("memclnt_keepalive"@, "memclnt_keepalive_reply"@))
    }

    open spec fn addressed(self, id: u16, client_index: u32, context: u32) -> Self {
        MemclntKeepalive { id, client_index, context, ..self }
    }

    open spec fn carried_context(self) -> Option<u32> {
        Some(self.context)
    }

    fn name() -> (name: &'static str) {
        "memclnt_keepalive"
    }

    fn fields() -> (fields: Vec<Field>) {
        let mut fields: Vec<Field> = Vec::new();
        fields.push(message::primitive("id", "u16", 1));
        fields.push(message::primitive("client_index", "u32", 1));
        fields.push(message::primitive("context", "u32", 1));
        assert(message::fields_view(fields@) =~= Self::declared_fields());
        fields
    }

    fn service() -> (service: Option<Service>) {
        Some(Service::of_exchange("memclnt_keepalive", "memclnt_keepalive_reply"))
    }

    fn set_request_header(&mut self, id: u16, client_index: u32, context: u32) {
        self.id = id;
        self.client_index = client_index;
        self.context = context;
    }

    fn context(&self) -> (context: Option<u32>) {
        Some(self.context)
    }
}

#[derive(Clone, Copy, Debug, PartialEq, Eq, Structural)]
pub struct MemclntKeepaliveReply {
    pub id: u16,
    pub context: u32,
    pub retval: i32,
}

impl Api for MemclntKeepaliveReply {
    open spec fn declared_name() -> Seq<char> {
        "memclnt_keepalive_reply"@
    }

    open spec fn declared_fields() -> Seq<FieldView> {
        seq![
            message::primitive_view("id"@, "u16"@, 1),
            message::primitive_view("context"@, "u32"@, 1),
            message::primitive_view("retval"@, "i32"@, 1),
        ]
    }

    open spec fn declared_service() -> Option<ServiceView> {
        None
    }

    open spec fn addressed(self, id: u16, client_index: u32, context: u32) -> Self {
        self
    }

    open spec fn carried_context(self) -> Option<u32> {
        Some(self.context)
    }

    fn name() -> (name: &'static str) {
        "memclnt_keepalive_reply"
    }

    fn fields() -> (fields: Vec<Field>) {
        let mut fields: Vec<Field> = Vec::new();
        fields.push(message::primitive("id", "u16", 1));
        fields.push(message::primitive("context", "u32", 1));
        fields.push(message::primitive("retval", "i32", 1));
        assert(message::fields_view(fields@) =~= Self::declared_fields());
        fields
    }

    fn service() -> (service: Option<Service>) {
        None
    }

    fn set_request_header(&mut self, id: u16, client_index: u32, context: u32) {
    }

    fn context(&self) -> (context: Option<u32>) {
        Some(self.context)
    }
}

/// The lifecycle messages declare their fields in the order in which they are sent,
/// each with its type and, where it has a fixed number of elements, that number.
pub proof fn law_lifecycle_fields()
    ensures
        MemclntCreateV2::declared_fields().len() == 7,
        message::is_field(MemclntCreateV2::declared_fields()[0], "id"@, "u16"@, Some(1)),
        message::is_field(MemclntCreateV2::declared_fields()[1], "context"@, "u32"@, Some(1)),
        message::is_field(MemclntCreateV2::declared_fields()[2], "ctx_quota"@, "i32"@, Some(1)),
        message::is_field(MemclntCreateV2::declared_fields()[3], "input_queue"@, "u64"@, Some(1)),
        message::is_field(MemclntCreateV2::declared_fields()[4], "name"@, "string"@, Some(64)),
        message::is_field(MemclntCreateV2::declared_fields()[5], "api_versions"@, "u32"@, Some(8)),
        message::is_field(MemclntCreateV2::declared_fields()[6], "keepalive"@, "bool"@, Some(1)),
        MemclntCreateV2Reply::declared_fields().len() == 6,
        message::is_field(MemclntCreateV2Reply::declared_fields()[0], "id"@, "u16"@, Some(1)),
        message::is_field(MemclntCreateV2Reply::declared_fields()[1], "context"@, "u32"@, Some(1)),
        message::is_field(MemclntCreateV2Reply::declared_fields()[2], "response"@, "i32"@, Some(1)),
        message::is_field(MemclntCreateV2Reply::declared_fields()[3], "handle"@, "u64"@, Some(1)),
        message::is_field(MemclntCreateV2Reply::declared_fields()[4], "index"@, "u32"@, Some(1)),
        message::is_field(
            MemclntCreateV2Reply::declared_fields()[5],
            "message_table"@,
            "u64"@,
            Some(1),
        ),
        MemclntDelete::declared_fields().len() == 4,
        message::is_field(MemclntDelete::declared_fields()[0], "id"@, "u16"@, Some(1)),
        message::is_field(MemclntDelete::declared_fields()[1], "index"@, "u32"@, Some(1)),
        message::is_field(MemclntDelete::declared_fields()[2], "handle"@, "u64"@, Some(1)),
        message::is_field(MemclntDelete::declared_fields()[3], "do_cleanup"@, "bool"@, Some(1)),
        MemclntDeleteReply::declared_fields().len() == 3,
        message::is_field(MemclntDeleteReply::declared_fields()[0], "id"@, "u16"@, Some(1)),
        message::is_field(MemclntDeleteReply::declared_fields()[1], "response"@, "i32"@, Some(1)),
        message::is_field(MemclntDeleteReply::declared_fields()[2], "handle"@, "u64"@, Some(1)),
        MemclntKeepalive::declared_fields().len() == 3,
        message::is_field(MemclntKeepalive::declared_fields()[0], "id"@, "u16"@, Some(1)),
        message::is_field(MemclntKeepalive::declared_fields()[1], "client_index"@, "u32"@, Some(1)),
        message::is_field(MemclntKeepalive::declared_fields()[2], "context"@, "u32"@, Some(1)),
        MemclntKeepaliveReply::declared_fields().len() == 3,
        message::is_field(MemclntKeepaliveReply::declared_fields()[0], "id"@, "u16"@, Some(1)),
        message::is_field(MemclntKeepaliveReply::declared_fields()[1], "context"@, "u32"@, Some(1)),
        message::is_field(MemclntKeepaliveReply::declared_fields()[2], "retval"@, "i32"@, Some(1)),
{
}

} // verus!
