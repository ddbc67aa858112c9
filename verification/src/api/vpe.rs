//! VPE protocol declarations shared by the server and external clients.

use crate::api::message;
use crate::api::message::{Api, Field, FieldView, Service, ServiceView};
use crate::api::value::FixedString;
use vstd::prelude::*;

verus! {

#[derive(Clone, Copy, Debug, PartialEq, Eq, Structural)]
pub struct ShowVersion {
    pub id: u16,
    pub client_index: u32,
    pub context: u32,
}

impl Api for ShowVersion {
    open spec fn declared_name() -> Seq<char> {
        "show_version"@
    }

    open spec fn declared_fields() -> Seq<FieldView> {
        seq![
            message::scalar_view("client_index"@, "u32"@),
            message::scalar_view("context"@, "u32"@),
        ]
    }

    open spec fn declared_service() -> Option<ServiceView> {
        Some(message::exchange("show_version"@, "show_version_reply"@))
    }

    open spec fn addressed(self, id: u16, client_index: u32, context: u32) -> Self {
        ShowVersion { id, client_index, context, ..self }
    }

    open spec fn carried_context(self) -> Option<u32> {
        Some(self.context)
    }

    fn name() -> (name: &'static str) {
        "show_version"
    }

    fn fields() -> (fields: Vec<Field>) {
        let mut fields: Vec<Field> = Vec::new();
        fields.push(message::scalar("client_index", "u32"));
        fields.push(message::scalar("context", "u32"));
        assert(message::fields_view(fields@) =~= Self::declared_fields());
        fields
    }

    fn service() -> (service: Option<Service>) {
        Some(Service::of_exchange("show_version", "show_version_reply"))
    }

    fn set_request_header(&mut self, id: u16, client_index: u32, context: u32) {
        self.id = id;
        self.client_index = client_index;
        self.context = context;
    }

    fn context(&self) -> (context: Option<u32>) {
        Some(self.context)
    }
}

#[derive(Clone, Copy, Debug, PartialEq, Eq)]
pub struct ShowVersionReply {
    pub id: u16,
    pub context: u32,
    pub retval: i32,
    pub program: FixedString<32>,
    pub version: FixedString<32>,
    pub build_date: FixedString<32>,
    pub build_directory: FixedString<256>,
}

impl Api for ShowVersionReply {
    open spec fn declared_name() -> Seq<char> {
        "show_version_reply"@
    }

    open spec fn declared_fields() -> Seq<FieldView> {
        seq![
            message::scalar_view("context"@, "u32"@),
            message::scalar_view("retval"@, "i32"@),
            message::primitive_view("program"@, "string"@, 32),
            message::primitive_view("version"@, "string"@, 32),
            message::primitive_view("build_date"@, "string"@, 32),
            message::primitive_view("build_directory"@, "string"@, 256),
        ]
    }

    open spec fn declared_service() -> Option<ServiceView> {
        None
    }

    open spec fn addressed(self, id: u16, client_index: u32, context: u32) -> Self {
        self
    }

    open spec fn carried_context(self) -> Option<u32> {
        Some(self.context)
    }

    fn name() -> (name: &'static str) {
        "show_version_reply"
    }

    fn fields() -> (fields: Vec<Field>) {
        let mut fields: Vec<Field> = Vec::new();
        fields.push(message::scalar("context", "u32"));
        fields.push(message::scalar("retval", "i32"));
        fields.push(message::string("program", 32));
        fields.push(message::string("version", 32));
        fields.push(message::string("build_date", 32));
        fields.push(message::string("build_directory", 256));
        assert(message::fields_view(fields@) =~= Self::declared_fields());
        fields
    }

    fn service() -> (service: Option<Service>) {
        None
    }

    fn set_request_header(&mut self, id: u16, client_index: u32, context: u32) {
    }

    fn context(&self) -> (context: Option<u32>) {
        Some(self.context)
    }
}

/// The version messages declare their fields in the order in which they are sent,
/// each with its type and, where it has a fixed number of elements, that number.
pub proof fn law_version_fields()
    ensures
        ShowVersion::declared_fields().len() == 2,
        message::is_field(ShowVersion::declared_fields()[0], "client_index"@, "u32"@, None),
        message::is_field(ShowVersion::declared_fields()[1], "context"@, "u32"@, None),
        ShowVersionReply::declared_fields().len() == 6,
        message::is_field(ShowVersionReply::declared_fields()[0], "context"@, "u32"@, None),
        message::is_field(ShowVersionReply::declared_fields()[1], "retval"@, "i32"@, None),
        message::is_field(ShowVersionReply::declared_fields()[2], "program"@, "string"@, Some(32)),
        message::is_field(ShowVersionReply::declared_fields()[3], "version"@, "string"@, Some(32)),
        message::is_field(
            ShowVersionReply::declared_fields()[4],
            "build_date"@,
            "string"@,
            Some(32),
        ),
        message::is_field(
            ShowVersionReply::declared_fields()[5],
            "build_directory"@,
            "string"@,
            Some(256),
        ),
{
}

} // verus!
