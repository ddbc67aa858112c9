//! Core control messages.

use crate::api::message;
use crate::api::message::{Api, Field, FieldView, Service, ServiceView};
use vstd::prelude::*;

verus! {

#[derive(Clone, Copy, Debug, PartialEq, Eq, Structural)]
pub struct ControlPing {
    pub id: u16,
    pub client_index: u32,
    pub context: u32,
}

impl Api for ControlPing {
    open spec fn declared_name() -> Seq<char> {
        "control_ping"@
    }

    open spec fn declared_fields() -> Seq<FieldView> {
        seq![
            message::scalar_view("client_index"@, "u32"@),
            message::scalar_view("context"@, "u32"@),
        ]
    }

    open spec fn declared_service() -> Option<ServiceView> {
        Some(message::exchange("control_ping"@, "control_ping_reply"@))
    }

    open spec fn addressed(self, id: u16, client_index: u32, context: u32) -> Self {
        ControlPing { id, client_index, context, ..self }
    }

    open spec fn carried_context(self) -> Option<u32> {
        Some(self.context)
    }

    fn name() -> (name: &'static str) {
        "control_ping"
    }

    fn fields() -> (fields: Vec<Field>) {
        let mut fields: Vec<Field> = Vec::new();
        fields.push(message::scalar("client_index", "u32"));
        fields.push(message::scalar("context", "u32"));
        assert(message::fields_view(fields@) =~= Self::declared_fields());
        fields
    }

    fn service() -> (service: Option<Service>) {
        Some(Service::of_exchange("control_ping", "control_ping_reply"))
    }

    fn set_request_header(&mut self, id: u16, client_index: u32, context: u32) {
        self.id = id;
        self.client_index = client_index;
        self.context = context;
    }

    fn context(&self) -> (context: Option<u32>) {
        Some(self.context)
    }
}

#[derive(Clone, Copy, Debug, PartialEq, Eq, Structural)]
pub struct ControlPingReply {
    pub id: u16,
    pub context: u32,
    pub retval: i32,
    pub client_index: u32,
    pub vpe_pid: u32,
}

impl Api for ControlPingReply {
    open spec fn declared_name() -> Seq<char> {
        "control_ping_reply"@
    }

    open spec fn declared_fields() -> Seq<FieldView> {
        seq![
            message::scalar_view("context"@, "u32"@),
            message::scalar_view("retval"@, "i32"@),
            message::scalar_view("client_index"@, "u32"@),
            message::scalar_view("vpe_pid"@, "u32"@),
        ]
    }

    open spec fn declared_service() -> Option<ServiceView> {
        None
    }

    open spec fn addressed(self, id: u16, client_index: u32, context: u32) -> Self {
        self
    }

    open spec fn carried_context(self) -> Option<u32> {
        Some(self.context)
    }

    fn name() -> (name: &'static str) {
        "control_ping_reply"
    }

    fn fields() -> (fields: Vec<Field>) {
        let mut fields: Vec<Field> = Vec::new();
        fields.push(message::scalar("context", "u32"));
        fields.push(message::scalar("retval", "i32"));
        fields.push(message::scalar("client_index", "u32"));
        fields.push(message::scalar("vpe_pid", "u32"));
        assert(message::fields_view(fields@) =~= Self::declared_fields());
        fields
    }

    fn service() -> (service: Option<Service>) {
        None
    }

    fn set_request_header(&mut self, id: u16, client_index: u32, context: u32) {
    }

    fn context(&self) -> (context: Option<u32>) {
        Some(self.context)
    }
}

/// The control messages declare their fields in the order in which they are sent,
/// each with its type and, where it has a fixed number of elements, that number.
pub proof fn law_control_fields()
    ensures
        ControlPing::declared_fields().len() == 2,
        message::is_field(ControlPing::declared_fields()[0], "client_index"@, "u32"@, None),
        message::is_field(ControlPing::declared_fields()[1], "context"@, "u32"@, None),
        ControlPingReply::declared_fields().len() == 4,
        message::is_field(ControlPingReply::declared_fields()[0], "context"@, "u32"@, None),
        message::is_field(ControlPingReply::declared_fields()[1], "retval"@, "i32"@, None),
        message::is_field(ControlPingReply::declared_fields()[2], "client_index"@, "u32"@, None),
        message::is_field(ControlPingReply::declared_fields()[3], "vpe_pid"@, "u32"@, None),
{
}

} // verus!
