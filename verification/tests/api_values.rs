//! Message declarations, fixed strings, and the message table.

use netsystem_client::api::codec::CodecError;
use netsystem_client::api::control::{ControlPing, ControlPingReply};
use netsystem_client::api::memclnt::{
    MemclntCreateV2, MemclntDelete, MemclntDeleteReply, MemclntKeepalive, MEMCLNT_CREATE_V2_ID,
    MEMCLNT_CREATE_V2_REPLY_ID,
};
use netsystem_client::api::message::{Api, Field};
use netsystem_client::api::table::deserialize_message_table;
use netsystem_client::api::value::FixedString;
use netsystem_client::api::vpe::{ShowVersion, ShowVersionReply};

#[test]
fn fixed_strings_hold_what_fits() {
    let value = FixedString::<8>::from_str("vpe");
    assert_eq!(value.as_bytes(), b"vpe\0\0\0\0\0");
    assert_eq!(value.as_str(), Ok("vpe"));
    assert_eq!(value.into_string(), "vpe");
    let cut = FixedString::<4>::from_str("abcdef");
    assert_eq!(cut.as_bytes(), b"abc\0");
    assert_eq!(cut.as_str(), Ok("abc"));
    let none = FixedString::<0>::from_str("a");
    assert_eq!(none.as_bytes(), b"");
    assert_eq!(FixedString::<3>::empty().as_bytes(), [0, 0, 0]);
    assert_eq!(FixedString::<3>::default(), FixedString::<3>::empty());
    assert_eq!(FixedString::<3>::empty().as_str(), Ok(""));
}

#[test]
fn fixed_strings_without_a_nul_are_taken_whole() {
    let value = FixedString::<3>::from_bytes(*b"abc");
    assert_eq!(value.as_str(), Ok("abc"));
    let inner = FixedString::<4>::from_bytes(*b"a\0bc");
    assert_eq!(inner.as_str(), Ok("a"));
}

#[test]
fn fixed_strings_cut_inside_a_character_have_stand_ins() {
    let cut = FixedString::<3>::from_str("aé");
    assert_eq!(cut.as_bytes(), [b'a', 0xc3, 0]);
    assert!(cut.as_str().is_err());
    assert_eq!(cut.into_string(), "a\u{fffd}");
}

#[test]
fn requests_declare_their_replies() {
    let service = ShowVersion::service().expect("a request has a service");
    assert_eq!(service.caller, "show_version");
    assert_eq!(service.reply, Some(ShowVersionReply::name()));
    assert!(!service.stream);
    assert_eq!(service.stream_message, None);
    assert!(service.events.is_empty());
    assert_eq!(ShowVersionReply::service(), None);
    let ping = ControlPing::service().expect("a request has a service");
    assert_eq!(ping.reply, Some(ControlPingReply::name()));
    let delete = MemclntDelete::service().expect("a request has a service");
    assert_eq!(delete.reply, Some(MemclntDeleteReply::name()));
    assert_eq!(MEMCLNT_CREATE_V2_ID, 25);
    assert_eq!(MEMCLNT_CREATE_V2_REPLY_ID, 26);
}

#[test]
fn fields_are_declared_in_order() {
    let fields = ShowVersionReply::fields();
    let names: Vec<&str> = fields.iter().map(|field| field.name).collect();
    assert_eq!(
        names,
        [
            "context",
            "retval",
            "program",
            "version",
            "build_date",
            "build_directory",
        ]
    );
    assert_eq!(
        fields[5],
        Field {
            name: "build_directory",
            field_type: "string",
            length: Some(256),
        }
    );
    assert_eq!(
        fields[1],
        Field {
            name: "retval",
            field_type: "i32",
            length: None,
        }
    );
    let create = MemclntCreateV2::fields();
    assert_eq!(create.len(), 7);
    assert_eq!(
        create[5],
        Field {
            name: "api_versions",
            field_type: "u32",
            length: Some(8),
        }
    );
}

#[test]
fn request_headers_are_filled_in() {
    let mut request = ShowVersion {
        id: 0,
        client_index: 0,
        context: 0,
    };
    request.set_request_header(1, 2, 3);
    assert_eq!(
        request,
        ShowVersion {
            id: 1,
            client_index: 2,
            context: 3,
        }
    );
    assert_eq!(request.context(), Some(3));
    let mut delete = MemclntDelete {
        id: 0,
        index: 7,
        handle: 8,
        do_cleanup: true,
    };
    delete.set_request_header(1, 2, 3);
    assert_eq!(
        delete,
        MemclntDelete {
            id: 1,
            index: 7,
            handle: 8,
            do_cleanup: true,
        }
    );
    assert_eq!(delete.context(), None);
    let mut keepalive = MemclntKeepalive {
        id: 0,
        client_index: 0,
        context: 0,
    };
    keepalive.set_request_header(4, 5, 6);
    assert_eq!(keepalive.context(), Some(6));
    let reply = ControlPingReply {
        id: 1,
        context: 9,
        retval: 0,
        client_index: 0,
        vpe_pid: 0,
    };
    assert_eq!(reply.context(), Some(9));
}

/// The compact form of an integer, as a server writes it.
fn compact(value: u64) -> Vec<u8> {
    if value < 128 {
        vec![(value * 2 + 1) as u8]
    } else if value < 128 + 16384 {
        (((value - 128) * 4 + 2) as u16).to_le_bytes().to_vec()
    } else if value < 128 + 16384 + (1 << 29) {
        (((value - 128 - 16384) * 8 + 4) as u32)
            .to_le_bytes()
            .to_vec()
    } else {
        let mut bytes = vec![0];
        bytes.extend_from_slice(&value.to_le_bytes());
        bytes
    }
}

fn table(entries: &[(&str, u64)]) -> Vec<u8> {
    let mut bytes = (entries.len() as u32).to_be_bytes().to_vec();
    for (name, id) in entries {
        bytes.extend_from_slice(&compact(*id));
        bytes.extend_from_slice(&compact(name.len() as u64));
        bytes.extend_from_slice(name.as_bytes());
    }
    bytes
}

#[test]
fn message_tables_read_back() {
    let long = "n".repeat(300);
    let longer = "m".repeat(128 + 16384);
    let mut bytes = table(&[
        ("show_version_51077d14", 5),
        (&long, 200),
        (&longer, 65535),
        ("", 0),
    ]);
    bytes.extend_from_slice(b"what follows is left alone");
    assert_eq!(
        deserialize_message_table(&bytes),
        Ok(vec![
            ("show_version_51077d14".to_owned(), 5),
            (long, 200),
            (longer, 65535),
            (String::new(), 0),
        ])
    );
    assert_eq!(deserialize_message_table(&[0; 4]), Ok(vec![]));
}

#[test]
fn every_integer_form_reads_back() {
    for id in [0, 127, 128, 129, 128 + 16383, 128 + 16384, 65535] {
        assert_eq!(
            deserialize_message_table(&table(&[("x", id)])),
            Ok(vec![("x".to_owned(), id as u16)])
        );
    }
    // The longest form of a small number.
    let mut bytes = vec![0, 0, 0, 1, 0];
    bytes.extend_from_slice(&9u64.to_le_bytes());
    bytes.extend_from_slice(&compact(1));
    bytes.push(b'y');
    assert_eq!(
        deserialize_message_table(&bytes),
        Ok(vec![("y".to_owned(), 9)])
    );
}

#[test]
fn malformed_tables_are_refused() {
    let whole = table(&[("abc", 200)]);
    for end in 0..whole.len() {
        assert_eq!(
            deserialize_message_table(&whole[..end]),
            Err(CodecError::TruncatedTable),
            "cut at {end}"
        );
    }
    for id in [65536, 128 + 16384 + (1 << 29), u64::MAX] {
        assert_eq!(
            deserialize_message_table(&table(&[("x", id)])),
            Err(CodecError::MessageIdOutOfRange)
        );
    }
    let mut bytes = vec![0, 0, 0, 1];
    bytes.extend_from_slice(&compact(1));
    bytes.extend_from_slice(&compact(2));
    bytes.extend_from_slice(&[0xff, 0xfe]);
    assert_eq!(
        deserialize_message_table(&bytes),
        Err(CodecError::InvalidText)
    );
    let mut bytes = vec![0, 0, 0, 1];
    bytes.extend_from_slice(&compact(1));
    bytes.extend_from_slice(&compact(u64::MAX));
    assert_eq!(
        deserialize_message_table(&bytes),
        Err(CodecError::TruncatedTable)
    );
    for first in [2u8, 4, 8] {
        assert_eq!(
            deserialize_message_table(&[0, 0, 0, 1, first]),
            Err(CodecError::TruncatedTable)
        );
    }
}
