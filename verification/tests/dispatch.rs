use tempestarii::cli::Request;
use tempestarii::controller::{build_request, Commands, Dequeue, Queue, Quit, Tempestarii};
use tempestarii::microchip::{hex_string, MicrochipPluginMessage, MicrochipSystemMessage};
use tempestarii::plugins::{downcast_plugin_message, downcast_system_message, PluginMessage,
    SystemMessage};
use tempestarii::CoreError;

fn targets() -> Vec<String> {
    vec!["t1".to_string(), "t2".to_string()]
}

#[test]
fn dispatch_queue_builds_a_queue_request_and_stays() {
    let input = Tempestarii {
        command: Commands::Queue(Queue { command: "whoami".to_string() }),
        targets: targets(),
    };
    let (request, quit) = build_request(input);
    assert!(!quit);
    match request {
        Request::QUEUE(q) => {
            assert_eq!(q.command, "whoami");
            assert_eq!(q.targets, targets());
        },
        other => panic!("unexpected request {other:?}"),
    }
}

#[test]
fn dispatch_dequeue_builds_a_dequeue_request_and_stays() {
    let input = Tempestarii {
        command: Commands::Dequeue(Dequeue { command: "whoami".to_string() }),
        targets: targets(),
    };
    let (request, quit) = build_request(input);
    assert!(!quit);
    assert!(matches!(request, Request::DEQUEUE(_)));
}

#[test]
fn dispatch_lock_and_list_carry_the_targets() {
    let (request, quit) =
        build_request(Tempestarii { command: Commands::Lock, targets: targets() });
    assert!(!quit);
    match request {
        Request::LOCK(l) => assert_eq!(l.targets, targets()),
        other => panic!("unexpected request {other:?}"),
    }
    let (request, quit) =
        build_request(Tempestarii { command: Commands::List, targets: targets() });
    assert!(!quit);
    match request {
        Request::LIST(l) => assert_eq!(l.targets, targets()),
        other => panic!("unexpected request {other:?}"),
    }
}

#[test]
fn dispatch_quit_is_the_only_exit() {
    let (request, quit) = build_request(Tempestarii {
        command: Commands::Quit(Quit { destroy: true }),
        targets: Vec::new(),
    });
    assert!(quit);
    match request {
        Request::QUIT(q) => assert!(q.destroy),
        other => panic!("unexpected request {other:?}"),
    }
}

#[test]
fn recovery_accepts_the_matching_binding() {
    let m = MicrochipPluginMessage {
        shellcode: Vec::new(),
        source: String::new(),
        destination: String::new(),
        agency_key: Vec::new(),
    };
    let r = downcast_plugin_message(&m, MicrochipPluginMessage::binding_id()).unwrap();
    assert_eq!(*r, m);
}

#[test]
fn recovery_fails_loudly_on_the_wrong_binding() {
    let m = MicrochipSystemMessage { ip: String::new(), request: None, response: None };
    let r = downcast_system_message(&m, MicrochipSystemMessage::binding_id() + 1);
    assert_eq!(r.unwrap_err(), CoreError::TypeMismatchError);
}

#[test]
fn hex_renders_two_digits_per_byte() {
    assert_eq!(hex_string(&vec![]), "");
    assert_eq!(hex_string(&vec![0x00]), "00");
    assert_eq!(hex_string(&vec![0xde, 0xad, 0xbe, 0xef]), "deadbeef");
    assert_eq!(hex_string(&vec![0x0f, 0xf0, 0x7a]), "0ff07a");
}

#[test]
fn display_shows_labels_and_hex() {
    let m = MicrochipPluginMessage {
        shellcode: vec![0xde, 0xad],
        source: "Agent 1".to_string(),
        destination: "Server 1".to_string(),
        agency_key: vec![0x01, 0x02],
    };
    assert_eq!(
        m.display_string(),
        "MicrochipPluginMessage:\n\tSource: Agent 1\n\tDestination: Server 1\n\tShellcode (hex): dead\n\tAgency Key (hex): 0102",
    );
}

#[test]
fn error_messages_name_the_failure() {
    assert_eq!(
        CoreError::EncodingError.message(),
        "encoding error: state cannot be represented",
    );
    assert_eq!(
        CoreError::DecodingError.message(),
        "decoding error: truncated or malformed payload",
    );
    assert_eq!(
        CoreError::TypeMismatchError.message(),
        "type mismatch: wrong concrete plugin binding",
    );
    assert_eq!(
        CoreError::TransportError.message(),
        "transport error: an environment facility failed",
    );
    assert_eq!(
        CoreError::OversizedPayload.message(),
        "oversized payload: exceeds the datagram ceiling",
    );
}
