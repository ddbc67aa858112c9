//! The state of a connection and the decisions about it.

use netsystem_client::api::client::{
    accept_reply, queue_layout, response_queue, send_failure, Client, Error, Pending,
};
use netsystem_client::api::codec::CodecError;
use netsystem_client::api::connect;
use netsystem_client::api::connect::{
    conclude_deletion, conclude_registration, ConnectAction, ConnectEvent, ConnectStage,
};
use netsystem_client::api::control::ControlPing;
use netsystem_client::api::exchange;
use netsystem_client::api::exchange::{Action, Event, Goal, KeepaliveNames, Stage};
use netsystem_client::api::memclnt::{
    MemclntCreateV2Reply, MemclntDelete, MemclntDeleteReply, MemclntKeepalive,
    MemclntKeepaliveReply,
};
use netsystem_client::api::memory::MemoryError;
use netsystem_client::api::message::Identity;
use netsystem_client::api::rpc::{request_version, show_version, VpeError};
use netsystem_client::api::value::FixedString;
use netsystem_client::api::vpe::{ShowVersion, ShowVersionReply};
use netsystem_client::shmem::heap::BlockLayout;
use netsystem_client::shmem::queue::{SvmQueueError, SvmQueueOperation};
use netsystem_client::shmem::region::{SvmRegion, SvmRegionError};

const BASE: usize = 0x4000;
const TABLE: usize = 16;

fn id<T>(name_crc: &'static str) -> Identity<T> {
    Identity::of(name_crc)
}

fn names() -> KeepaliveNames {
    KeepaliveNames {
        request: id("memclnt_keepalive_0"),
        reply: id("memclnt_keepalive_reply_0"),
    }
}

/// A region image whose message table lies at its sixteenth byte.
fn image(entries: &[(&str, u8)]) -> Vec<u8> {
    let mut bytes = vec![0; TABLE];
    bytes.extend_from_slice(&(entries.len() as u32).to_be_bytes());
    for (name, id) in entries {
        bytes.push(id * 2 + 1);
        bytes.push(name.len() as u8 * 2 + 1);
        bytes.extend_from_slice(name.as_bytes());
    }
    bytes
}

fn reply(response: i32, message_table: u64) -> MemclntCreateV2Reply {
    MemclntCreateV2Reply {
        id: 26,
        context: 0,
        response,
        handle: 0,
        index: 5,
        message_table,
    }
}

fn connected() -> Client {
    let image = image(&[
        ("show_version_0", 40),
        ("show_version_reply_0", 41),
        ("memclnt_keepalive_0", 30),
        ("memclnt_keepalive_reply_0", 31),
        ("memclnt_delete_0", 27),
        ("memclnt_delete_reply_0", 28),
    ]);
    let region = SvmRegion::mapped_at(BASE, image.len());
    let mut client = Client::new(true);
    client
        .register(&reply(0, (BASE + TABLE) as u64), &region, &image)
        .expect("the table is well formed");
    client
}

fn version_request() -> ShowVersion {
    ShowVersion {
        id: 0,
        client_index: 0,
        context: 0,
    }
}

#[test]
fn registration_takes_the_table_and_the_index() {
    let client = connected();
    assert_eq!(client.client_index(), Some(5));
    assert_eq!(client.message_id("show_version_0"), Some(40));
    assert_eq!(client.message_id("show_version_1"), None);
}

#[test]
fn the_last_entry_of_a_name_counts() {
    let image = image(&[("a", 1), ("b", 2), ("a", 3)]);
    let region = SvmRegion::mapped_at(BASE, image.len());
    let mut client = Client::new(false);
    client
        .register(&reply(0, (BASE + TABLE) as u64), &region, &image)
        .expect("the table is well formed");
    assert_eq!(client.message_id("a"), Some(3));
    assert_eq!(client.message_id("b"), Some(2));
}

#[test]
fn registrations_that_fail_leave_the_client_alone() {
    let image = image(&[("a", 1)]);
    let region = SvmRegion::mapped_at(BASE, image.len());
    let mut client = Client::new(false);
    assert_eq!(
        client.register(&reply(-4, 0), &region, &image),
        Err(Error::CreateRejected { response: -4 })
    );
    assert_eq!(
        client.register(&reply(0, BASE as u64 - 1), &region, &image),
        Err(Error::Memory {
            source: MemoryError::InvalidHeader,
        })
    );
    assert_eq!(
        client.register(&reply(0, (BASE + image.len()) as u64), &region, &image),
        Err(Error::Codec {
            source: CodecError::TruncatedTable,
        })
    );
    assert_eq!(client.client_index(), None);
    let conclusion = conclude_registration(&mut client, Ok(reply(-4, 0)), &region, &image);
    assert!(conclusion.releases_queue);
    assert!(conclusion.result.is_err());
    let conclusion =
        conclude_registration(&mut client, Err(CodecError::Message), &region, &image);
    assert!(!conclusion.releases_queue);
    assert_eq!(
        conclusion.result,
        Err(Error::Codec {
            source: CodecError::Message,
        })
    );
    let conclusion = conclude_registration(
        &mut client,
        Ok(reply(0, (BASE + TABLE) as u64)),
        &region,
        &image,
    );
    assert!(!conclusion.releases_queue);
    assert_eq!(conclusion.result, Ok(()));
    assert_eq!(client.message_id("a"), Some(1));
}

#[test]
fn contexts_count_up_with_their_bit_set() {
    let mut client = Client::new(false);
    let first = client.next_context();
    let second = client.next_context();
    assert_eq!(first, 0x8000_0001);
    assert_eq!(second, 0x8000_0002);
}

#[test]
fn invocations_fill_the_header_in() {
    let mut client = connected();
    let mut request = version_request();
    let pending = client
        .invoke::<ShowVersion, ShowVersionReply>(
            &mut request,
            &id("show_version_0"),
            &id("show_version_reply_0"),
        )
        .expect("both messages are known");
    assert_eq!(
        pending,
        Pending {
            reply_id: 41,
            context: 0x8000_0001,
        }
    );
    assert_eq!(
        request,
        ShowVersion {
            id: 40,
            client_index: 5,
            context: 0x8000_0001,
        }
    );
}

#[test]
fn invocations_that_cannot_be_made_change_nothing() {
    let mut client = Client::new(false);
    let mut request = version_request();
    assert_eq!(
        client.invoke::<ShowVersion, ShowVersionReply>(&mut request, &id("a"), &id("b")),
        Err(Error::NotConnected)
    );
    let mut client = connected();
    let mut none = ShowVersionReply {
        id: 0,
        context: 0,
        retval: 0,
        program: FixedString::empty(),
        version: FixedString::empty(),
        build_date: FixedString::empty(),
        build_directory: FixedString::empty(),
    };
    assert_eq!(
        client.invoke::<ShowVersionReply, ShowVersionReply>(&mut none, &id("a"), &id("b")),
        Err(Error::RequestHasNoReply)
    );
    assert_eq!(
        client.invoke::<ShowVersion, ControlPing>(&mut request, &id("a"), &id("b")),
        Err(Error::ReplyTypeMismatch {
            expected: "show_version_reply",
            actual: "control_ping",
        })
    );
    assert_eq!(
        client.invoke::<ShowVersion, ShowVersionReply>(&mut request, &id("a"), &id("b")),
        Err(Error::MessageUnavailable { name_crc: "a" })
    );
    assert_eq!(
        client.invoke::<ShowVersion, ShowVersionReply>(
            &mut request,
            &id("show_version_0"),
            &id("b"),
        ),
        Err(Error::MessageUnavailable { name_crc: "b" })
    );
    assert_eq!(request, version_request());
    assert_eq!(client.next_context(), 0x8000_0001, "no context was used up");
}

#[test]
fn replies_are_correlated() {
    let pending = Pending {
        reply_id: 1,
        context: 9,
    };
    let answer = |context| MemclntKeepaliveReply {
        id: 1,
        context,
        retval: 0,
    };
    assert_eq!(accept_reply(&pending, answer(9)), Ok(answer(9)));
    assert_eq!(
        accept_reply(&pending, answer(8)),
        Err(Error::ContextMismatch {
            expected: 9,
            received: 8,
        })
    );
    let bare = MemclntDeleteReply {
        id: 1,
        response: 0,
        handle: 0,
    };
    assert_eq!(accept_reply(&pending, bare), Ok(bare));
}

#[test]
fn versions_are_asked_for_and_taken() {
    let mut client = connected();
    let (request, pending) =
        request_version(&mut client, &id("show_version_0"), &id("show_version_reply_0"))
            .expect("both messages are known");
    assert_eq!(request.client_index, 5);
    let answer = |context, retval| ShowVersionReply {
        id: 41,
        context,
        retval,
        program: FixedString::from_str("vpe"),
        version: FixedString::from_str("1"),
        build_date: FixedString::empty(),
        build_directory: FixedString::empty(),
    };
    let version = show_version(&pending, answer(pending.context, 0)).expect("it is no rejection");
    assert_eq!(version.program.as_str(), Ok("vpe"));
    assert_eq!(
        show_version(&pending, answer(pending.context, -3)),
        Err(VpeError::Rejected { retval: -3 })
    );
    assert_eq!(
        show_version(&pending, answer(7, -3)),
        Err(VpeError::Client(Error::ContextMismatch {
            expected: pending.context,
            received: 7,
        }))
    );
    let mut other = Client::new(false);
    assert_eq!(
        request_version(&mut other, &id("a"), &id("b")),
        Err(VpeError::from(Error::NotConnected))
    );
}

#[test]
fn deletions_disconnect() {
    let mut client = connected();
    assert_eq!(
        client.delete_request(&id("memclnt_delete_0"), &id("memclnt_delete_reply_0")),
        Ok((
            MemclntDelete {
                id: 27,
                index: 5,
                handle: 0,
                do_cleanup: false,
            },
            28
        ))
    );
    assert_eq!(
        client.delete_request(&id("x"), &id("memclnt_delete_reply_0")),
        Err(Error::MessageUnavailable { name_crc: "x" })
    );
    let answer = |response| MemclntDeleteReply {
        id: 28,
        response,
        handle: 0,
    };
    let refused = conclude_deletion(&mut client, Ok(answer(-1)));
    assert_eq!(refused.result, Err(Error::CreateRejected { response: -1 }));
    assert!(!refused.releases_queue);
    assert_eq!(client.client_index(), Some(5));
    let unread = conclude_deletion(&mut client, Err(CodecError::Message));
    assert_eq!(
        unread.result,
        Err(Error::Codec {
            source: CodecError::Message,
        })
    );
    let done = conclude_deletion(&mut client, Ok(answer(0)));
    assert_eq!(done.result, Ok(()));
    assert!(done.releases_queue);
    assert_eq!(client.client_index(), None);
    assert_eq!(client.message_id("show_version_0"), None);
    assert_eq!(
        client.delete_request(&id("memclnt_delete_0"), &id("memclnt_delete_reply_0")),
        Err(Error::NotConnected)
    );
}

#[test]
fn a_client_that_is_not_connected_cannot_disconnect() {
    let mut client = Client::new(true);
    for response in [0, 1, -1] {
        let answer = MemclntDeleteReply {
            id: 28,
            response,
            handle: 0,
        };
        assert_eq!(client.disconnect(&answer), Err(Error::NotConnected));
        let conclusion = conclude_deletion(&mut client, Ok(answer));
        assert_eq!(conclusion.result, Err(Error::NotConnected));
        assert!(!conclusion.releases_queue);
    }
    let unread = conclude_deletion(&mut client, Err(CodecError::Message));
    assert_eq!(unread.result, Err(Error::NotConnected));
    assert!(!unread.releases_queue);
    let mut client = connected();
    let answer = MemclntDeleteReply {
        id: 28,
        response: 0,
        handle: 0,
    };
    assert_eq!(client.disconnect(&answer), Ok(()));
    assert_eq!(client.disconnect(&answer), Err(Error::NotConnected));
    assert_eq!(client.client_index(), None);
}

#[test]
fn every_wait_has_its_limit() {
    let registration = Goal::Registration { path: Vec::new() };
    assert_eq!(registration.limit_seconds(), 10);
    assert_eq!(pending().limit_seconds(), 10);
    let deletion = Goal::Deletion {
        reply_id: 28,
        client_index: 5,
    };
    assert_eq!(deletion.limit_seconds(), 2);
}

#[test]
fn an_identity_keeps_its_name() {
    let identity: Identity<ShowVersion> = id("show_version_0");
    assert_eq!(identity.name_crc(), "show_version_0");
}

fn looked(taken: Result<usize, SvmQueueError>, expired: bool) -> Event {
    Event::Looked { taken, expired }
}

fn pending() -> Goal {
    Goal::Reply(Pending {
        reply_id: 41,
        context: 3,
    })
}

#[test]
fn a_wait_looks_until_the_deadline() {
    let client = connected();
    let mut stage = Stage::Looking;
    let action = exchange::advance(
        &client,
        &pending(),
        &names(),
        &mut stage,
        looked(Err(SvmQueueError::Empty), false),
    );
    assert!(matches!(action, Action::Rest));
    assert_eq!(stage, Stage::Looking);
    let action = exchange::advance(
        &client,
        &pending(),
        &names(),
        &mut stage,
        looked(Err(SvmQueueError::Empty), true),
    );
    assert!(matches!(
        action,
        Action::Fail(Error::ResponseTimeout { context: 3 })
    ));
    assert_eq!(stage, Stage::Over);
    for (goal, expected) in [
        (
            Goal::Registration {
                path: b"/x".to_vec(),
            },
            Error::ConnectTimeout {
                path: b"/x".to_vec(),
            },
        ),
        (
            Goal::Deletion {
                reply_id: 28,
                client_index: 5,
            },
            Error::DisconnectTimeout { client_index: 5 },
        ),
    ] {
        let mut stage = Stage::Looking;
        let action = exchange::advance(
            &client,
            &goal,
            &names(),
            &mut stage,
            looked(Err(SvmQueueError::Empty), true),
        );
        match action {
            Action::Fail(error) => assert_eq!(error, expected),
            _ => panic!("a wait that expired fails"),
        }
    }
    let mut stage = Stage::Looking;
    let action = exchange::advance(
        &client,
        &pending(),
        &names(),
        &mut stage,
        looked(Err(SvmQueueError::Failed { code: 3 }), false),
    );
    assert!(matches!(
        action,
        Action::Fail(Error::Queue {
            source: SvmQueueError::Failed { code: 3 },
        })
    ));
}

#[test]
fn the_awaited_message_is_delivered() {
    let client = connected();
    let mut stage = Stage::Looking;
    let action = exchange::advance(&client, &pending(), &names(), &mut stage, looked(Ok(80), true));
    assert!(matches!(action, Action::Open(80)));
    assert_eq!(stage, Stage::Opening);
    let action = exchange::advance(&client, &pending(), &names(), &mut stage, Event::Opened(Ok(41)));
    assert!(matches!(action, Action::Deliver));
    assert_eq!(stage, Stage::Over);
}

#[test]
fn other_messages_are_refused_or_dropped() {
    let client = connected();
    let mut stage = Stage::Opening;
    let action = exchange::advance(&client, &pending(), &names(), &mut stage, Event::Opened(Ok(7)));
    assert!(matches!(
        action,
        Action::Refuse(Error::UnexpectedMessage { id: 7, expected: 41 })
    ));
    let goal = Goal::Deletion {
        reply_id: 28,
        client_index: 5,
    };
    let mut stage = Stage::Opening;
    let action = exchange::advance(&client, &goal, &names(), &mut stage, Event::Opened(Ok(7)));
    assert!(matches!(action, Action::Discard));
    assert_eq!(stage, Stage::Looking);
    let goal = Goal::Registration { path: vec![] };
    let mut stage = Stage::Opening;
    let action = exchange::advance(&client, &goal, &names(), &mut stage, Event::Opened(Ok(7)));
    assert!(matches!(action, Action::Discard));
    let mut stage = Stage::Opening;
    let action = exchange::advance(&client, &goal, &names(), &mut stage, Event::Opened(Ok(26)));
    assert!(matches!(action, Action::Deliver));
    let mut stage = Stage::Opening;
    let action = exchange::advance(
        &client,
        &goal,
        &names(),
        &mut stage,
        Event::Opened(Err(Error::Memory {
            source: MemoryError::InvalidHeader,
        })),
    );
    assert!(matches!(action, Action::Fail(Error::Memory { .. })));
}

#[test]
fn keepalives_are_answered_while_waiting() {
    let client = connected();
    let mut stage = Stage::Opening;
    let action = exchange::advance(
        &client,
        &pending(),
        &names(),
        &mut stage,
        Event::Opened(Ok(30)),
    );
    assert!(matches!(action, Action::DecodeKeepalive));
    assert_eq!(stage, Stage::Decoding);
    let keepalive = MemclntKeepalive {
        id: 30,
        client_index: 12,
        context: 99,
    };
    let action = exchange::advance(
        &client,
        &pending(),
        &names(),
        &mut stage,
        Event::Decoded(Ok(keepalive)),
    );
    match action {
        Action::Answer(answer) => assert_eq!(
            answer,
            MemclntKeepaliveReply {
                id: 31,
                context: 12,
                retval: 0,
            }
        ),
        _ => panic!("a keepalive is answered"),
    }
    assert_eq!(stage, Stage::Answering);
    let action = exchange::advance(
        &client,
        &pending(),
        &names(),
        &mut stage,
        Event::Sent(Ok(())),
    );
    assert!(matches!(action, Action::Look));
    assert_eq!(stage, Stage::Looking);
    let mut stage = Stage::Decoding;
    let action = exchange::advance(
        &client,
        &pending(),
        &names(),
        &mut stage,
        Event::Decoded(Err(CodecError::Message)),
    );
    assert!(matches!(action, Action::Fail(Error::Codec { .. })));
    let unknown = KeepaliveNames {
        request: names().request,
        reply: id("unknown"),
    };
    let mut stage = Stage::Decoding;
    let action = exchange::advance(
        &client,
        &pending(),
        &unknown,
        &mut stage,
        Event::Decoded(Ok(keepalive)),
    );
    assert!(matches!(
        action,
        Action::Fail(Error::MessageUnavailable { name_crc: "unknown" })
    ));
    let mut stage = Stage::Answering;
    let action = exchange::advance(
        &client,
        &pending(),
        &names(),
        &mut stage,
        Event::Sent(Err(Error::Queue {
            source: SvmQueueError::LayoutOverflow,
        })),
    );
    assert!(matches!(action, Action::Fail(Error::Queue { .. })));
}

#[test]
fn keepalives_are_messages_to_a_client_that_does_not_handle_them() {
    let image = image(&[("memclnt_keepalive_0", 30)]);
    let region = SvmRegion::mapped_at(BASE, image.len());
    let mut client = Client::new(false);
    client
        .register(&reply(0, (BASE + TABLE) as u64), &region, &image)
        .expect("the table is well formed");
    assert!(!client.is_keepalive(30, &names().request));
    let mut stage = Stage::Opening;
    let action = exchange::advance(
        &client,
        &pending(),
        &names(),
        &mut stage,
        Event::Opened(Ok(30)),
    );
    assert!(matches!(action, Action::Refuse(_)));
}

#[test]
fn a_connection_is_made_step_by_step() {
    let client = Client::new(true);
    let mut stage = ConnectStage::Attaching;
    let mut step = |event| connect::advance(&client, "me", b"/seg", &mut stage, event);
    let action = step(ConnectEvent::Attached {
        result: Err(SvmRegionError::NotReady),
        expired: false,
    });
    assert!(matches!(action, ConnectAction::AttachAgain));
    let action = step(ConnectEvent::Attached {
        result: Ok(()),
        expired: true,
    });
    assert!(matches!(action, ConnectAction::FindHeader));
    let action = step(ConnectEvent::Found {
        address: None,
        expired: false,
    });
    assert!(matches!(action, ConnectAction::FindHeaderAgain));
    let action = step(ConnectEvent::Found {
        address: Some(0x5000),
        expired: true,
    });
    assert!(matches!(action, ConnectAction::Check(0x5000)));
    let action = step(ConnectEvent::Checked(Ok(())));
    assert!(matches!(action, ConnectAction::Allocate));
    let action = step(ConnectEvent::Allocated(Ok(0x6000)));
    match action {
        ConnectAction::Register(request) => {
            assert_eq!(request.id, 25);
            assert_eq!(request.context, 0);
            assert_eq!(request.ctx_quota, 0);
            assert_eq!(request.input_queue, 0x6000);
            assert_eq!(request.name.as_str(), Ok("me"));
            assert_eq!(request.api_versions, [0; 8]);
            assert!(request.keepalive);
        }
        _ => panic!("a client with a queue registers"),
    }
    let action = step(ConnectEvent::Sent(Ok(())));
    match action {
        ConnectAction::Await(Goal::Registration { path }) => assert_eq!(path, b"/seg"),
        _ => panic!("the answer is awaited"),
    }
    assert_eq!(stage, ConnectStage::Registered);
}

#[test]
fn connection_attempts_fail_with_their_cause() {
    let client = Client::new(true);
    let fail = |mut stage: ConnectStage, event| {
        let action = connect::advance(&client, "me", b"/seg", &mut stage, event);
        assert_eq!(stage, ConnectStage::Over);
        match action {
            ConnectAction::Fail(error) => error,
            _ => panic!("the attempt fails"),
        }
    };
    assert_eq!(
        fail(
            ConnectStage::Attaching,
            ConnectEvent::Attached {
                result: Err(SvmRegionError::NotReady),
                expired: true,
            }
        ),
        Error::Region {
            source: SvmRegionError::NotReady,
        }
    );
    assert_eq!(
        fail(
            ConnectStage::Attaching,
            ConnectEvent::Attached {
                result: Err(SvmRegionError::MissingDataHeap),
                expired: false,
            }
        ),
        Error::Region {
            source: SvmRegionError::MissingDataHeap,
        }
    );
    assert_eq!(
        fail(
            ConnectStage::AwaitingHeader,
            ConnectEvent::Found {
                address: None,
                expired: true,
            }
        ),
        Error::ConnectTimeout {
            path: b"/seg".to_vec(),
        }
    );
    assert_eq!(
        fail(
            ConnectStage::Checking,
            ConnectEvent::Checked(Err(MemoryError::InvalidHeader))
        ),
        Error::Memory {
            source: MemoryError::InvalidHeader,
        }
    );
    let overflow = Error::Queue {
        source: SvmQueueError::LayoutOverflow,
    };
    assert_eq!(
        fail(
            ConnectStage::Allocating,
            ConnectEvent::Allocated(Err(overflow.clone()))
        ),
        overflow
    );
    assert_eq!(
        fail(
            ConnectStage::Registering,
            ConnectEvent::Sent(Err(overflow.clone()))
        ),
        overflow
    );
}

#[test]
fn sends_that_took_effect_have_not_failed() {
    assert_eq!(
        send_failure(SvmQueueError::SignalAfterCommit {
            operation: SvmQueueOperation::Add,
        }),
        None
    );
    assert_eq!(
        send_failure(SvmQueueError::Failed { code: 1 }),
        Some(Error::Queue {
            source: SvmQueueError::Failed { code: 1 },
        })
    );
}

#[test]
fn queues_are_laid_out() {
    assert_eq!(response_queue(64), (64, 8));
    assert_eq!(
        queue_layout(640),
        Ok(BlockLayout {
            size: 640,
            align: 64,
        })
    );
    let limit = isize::MAX as usize - 63;
    assert!(queue_layout(limit).is_ok());
    assert_eq!(
        queue_layout(limit + 1),
        Err(Error::Queue {
            source: SvmQueueError::LayoutOverflow,
        })
    );
}
