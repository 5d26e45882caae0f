use tempestarii::cli::{AirportCodes, Dequeue, List, Lock, Queue, Quit, Request, Response};
use tempestarii::microchip::{MicrochipPluginMessage, MicrochipSystemMessage};
use tempestarii::plugins::{PluginMessage, SystemMessage};
use tempestarii::CoreError;

fn sample_targets() -> Vec<AirportCodes> {
    vec![
        AirportCodes::ALL {
            location: "Nowhere Good".to_string(),
            target_number: 1,
            target_name: "Chase K's House".to_string(),
            locked: false,
        },
        AirportCodes::JFK {
            location: "New York".to_string(),
            target_number: 7,
            target_name: "John F. Kennedy International".to_string(),
            locked: true,
        },
        AirportCodes::BOM {
            location: "Mumbai".to_string(),
            target_number: 20,
            target_name: "Chhatrapati Shivaji Maharaj International".to_string(),
            locked: false,
        },
    ]
}

#[test]
fn codec_round_trip_plugin_message() {
    let m = MicrochipPluginMessage {
        shellcode: vec![0x90, 0x90, 0xcc],
        source: "Agent 1".to_string(),
        destination: "Tempestarii".to_string(),
        agency_key: vec![1, 2, 3],
    };
    let bytes = m.serialize().unwrap();
    let back = MicrochipPluginMessage::deserialize(bytes).unwrap();
    assert_eq!(back, m);
}

#[test]
fn codec_round_trip_plugin_message_empty_fields() {
    let m = MicrochipPluginMessage {
        shellcode: Vec::new(),
        source: String::new(),
        destination: String::new(),
        agency_key: Vec::new(),
    };
    let bytes = m.serialize().unwrap();
    let back = MicrochipPluginMessage::deserialize(bytes).unwrap();
    assert_eq!(back, m);
}

#[test]
fn codec_round_trip_plugin_message_unicode_labels() {
    let m = MicrochipPluginMessage {
        shellcode: vec![0xff, 0x00, 0x7f],
        source: "côté \u{1F30D} агент".to_string(),
        destination: "Tempestarii".to_string(),
        agency_key: vec![255, 254, 253],
    };
    let bytes = m.serialize().unwrap();
    let back = MicrochipPluginMessage::deserialize(bytes).unwrap();
    assert_eq!(back, m);
}

#[test]
fn codec_round_trip_system_message_queue() {
    let m = MicrochipSystemMessage {
        ip: "Tempestarii".to_string(),
        request: Some(Request::QUEUE(Queue {
            command: "whoami".to_string(),
            targets: vec!["t1".to_string(), "t2".to_string()],
        })),
        response: None,
    };
    let bytes = m.serialize().unwrap();
    let back = MicrochipSystemMessage::deserialize(bytes).unwrap();
    assert_eq!(back, m);
}

#[test]
fn codec_round_trip_system_message_dequeue() {
    let m = MicrochipSystemMessage {
        ip: "Tempestarii".to_string(),
        request: Some(Request::DEQUEUE(Dequeue {
            command: "ls -la".to_string(),
            targets: vec!["t1".to_string()],
        })),
        response: None,
    };
    let bytes = m.serialize().unwrap();
    let back = MicrochipSystemMessage::deserialize(bytes).unwrap();
    assert_eq!(back, m);
}

#[test]
fn codec_round_trip_system_message_lock_and_list() {
    for request in [
        Request::LOCK(Lock { targets: vec!["t1".to_string(), "t9".to_string()] }),
        Request::LIST(List { targets: Vec::new() }),
    ] {
        let m = MicrochipSystemMessage {
            ip: "Tempestarii".to_string(),
            request: Some(request),
            response: None,
        };
        let bytes = m.serialize().unwrap();
        let back = MicrochipSystemMessage::deserialize(bytes).unwrap();
        assert_eq!(back, m);
    }
}

#[test]
fn codec_round_trip_system_message_quit_both_flags() {
    for destroy in [false, true] {
        let m = MicrochipSystemMessage {
            ip: "Tempestarii".to_string(),
            request: Some(Request::QUIT(Quit { destroy })),
            response: None,
        };
        let bytes = m.serialize().unwrap();
        let back = MicrochipSystemMessage::deserialize(bytes).unwrap();
        assert_eq!(back, m);
    }
}

#[test]
fn codec_round_trip_system_message_with_response() {
    let m = MicrochipSystemMessage {
        ip: "Storm".to_string(),
        request: None,
        response: Some(Response {
            confirmation: "Request For Targeted Commands Successful".to_string(),
            commands: vec!["whoami".to_string(), "id".to_string()],
            targets: sample_targets(),
        }),
    };
    let bytes = m.serialize().unwrap();
    let back = MicrochipSystemMessage::deserialize(bytes).unwrap();
    assert_eq!(back, m);
}

#[test]
fn codec_round_trip_system_message_neither_side() {
    let m = MicrochipSystemMessage { ip: "Storm".to_string(), request: None, response: None };
    let bytes = m.serialize().unwrap();
    let back = MicrochipSystemMessage::deserialize(bytes).unwrap();
    assert_eq!(back, m);
}

#[test]
fn codec_round_trip_every_target_code() {
    let names = [
        "ALL", "JFK", "LHR", "CDG", "PEK", "SFO", "SYD", "HND", "DXB", "YYZ", "MUC", "AMS",
        "ICN", "DEL", "MIA", "SIN", "KUL", "IST", "MEX", "SYR", "BOM",
    ];
    let mut targets = Vec::new();
    for (i, name) in names.iter().enumerate() {
        let location = format!("city {i}");
        let target_name = name.to_string();
        let target_number = i as u32;
        let locked = i % 2 == 0;
        targets.push(match *name {
            "ALL" => AirportCodes::ALL { location, target_number, target_name, locked },
            "JFK" => AirportCodes::JFK { location, target_number, target_name, locked },
            "LHR" => AirportCodes::LHR { location, target_number, target_name, locked },
            "CDG" => AirportCodes::CDG { location, target_number, target_name, locked },
            "PEK" => AirportCodes::PEK { location, target_number, target_name, locked },
            "SFO" => AirportCodes::SFO { location, target_number, target_name, locked },
            "SYD" => AirportCodes::SYD { location, target_number, target_name, locked },
            "HND" => AirportCodes::HND { location, target_number, target_name, locked },
            "DXB" => AirportCodes::DXB { location, target_number, target_name, locked },
            "YYZ" => AirportCodes::YYZ { location, target_number, target_name, locked },
            "MUC" => AirportCodes::MUC { location, target_number, target_name, locked },
            "AMS" => AirportCodes::AMS { location, target_number, target_name, locked },
            "ICN" => AirportCodes::ICN { location, target_number, target_name, locked },
            "DEL" => AirportCodes::DEL { location, target_number, target_name, locked },
            "MIA" => AirportCodes::MIA { location, target_number, target_name, locked },
            "SIN" => AirportCodes::SIN { location, target_number, target_name, locked },
            "KUL" => AirportCodes::KUL { location, target_number, target_name, locked },
            "IST" => AirportCodes::IST { location, target_number, target_name, locked },
            "MEX" => AirportCodes::MEX { location, target_number, target_name, locked },
            "SYR" => AirportCodes::SYR { location, target_number, target_name, locked },
            "BOM" => AirportCodes::BOM { location, target_number, target_name, locked },
            _ => unreachable!(),
        });
    }
    let m = MicrochipSystemMessage {
        ip: "Storm".to_string(),
        request: None,
        response: Some(Response {
            confirmation: "ok".to_string(),
            commands: Vec::new(),
            targets,
        }),
    };
    let bytes = m.serialize().unwrap();
    let back = MicrochipSystemMessage::deserialize(bytes).unwrap();
    assert_eq!(back, m);
}

#[test]
fn codec_rejects_truncated_plugin_message() {
    let m = MicrochipPluginMessage {
        shellcode: vec![1, 2, 3, 4],
        source: "a".to_string(),
        destination: "b".to_string(),
        agency_key: vec![9],
    };
    let bytes = m.serialize().unwrap();
    for cut in 0..bytes.len() {
        let r = MicrochipPluginMessage::deserialize(bytes[..cut].to_vec());
        assert_eq!(r.unwrap_err(), CoreError::DecodingError);
    }
}

#[test]
fn codec_rejects_trailing_bytes() {
    let m = MicrochipPluginMessage {
        shellcode: Vec::new(),
        source: "a".to_string(),
        destination: "b".to_string(),
        agency_key: Vec::new(),
    };
    let mut bytes = m.serialize().unwrap();
    bytes.push(0);
    let r = MicrochipPluginMessage::deserialize(bytes);
    assert_eq!(r.unwrap_err(), CoreError::DecodingError);
}

#[test]
fn codec_rejects_invalid_utf8_label() {
    let m = MicrochipPluginMessage {
        shellcode: Vec::new(),
        source: "ab".to_string(),
        destination: String::new(),
        agency_key: Vec::new(),
    };
    let mut bytes = m.serialize().unwrap();
    // The source field's two bytes sit just after the first two length
    // prefixes; 0xff there is not valid UTF-8.
    bytes[8] = 0xff;
    let r = MicrochipPluginMessage::deserialize(bytes);
    assert_eq!(r.unwrap_err(), CoreError::DecodingError);
}

#[test]
fn codec_rejects_unknown_request_tag() {
    let m = MicrochipSystemMessage {
        ip: String::new(),
        request: Some(Request::QUIT(Quit { destroy: false })),
        response: None,
    };
    let mut bytes = m.serialize().unwrap();
    // After the empty origin (4 bytes) and the presence byte comes the
    // request's operation tag; no operation uses 9.
    bytes[5] = 9;
    let r = MicrochipSystemMessage::deserialize(bytes);
    assert_eq!(r.unwrap_err(), CoreError::DecodingError);
}

#[test]
fn codec_rejects_mangled_bool() {
    let m = MicrochipSystemMessage {
        ip: String::new(),
        request: Some(Request::QUIT(Quit { destroy: true })),
        response: None,
    };
    let mut bytes = m.serialize().unwrap();
    let last = bytes.len() - 2;
    // The quit flag is the byte before the absent-response marker; only 0
    // and 1 are booleans on the wire.
    bytes[last] = 2;
    let r = MicrochipSystemMessage::deserialize(bytes);
    assert_eq!(r.unwrap_err(), CoreError::DecodingError);
}

#[test]
fn codec_generate_wraps_request() {
    let request = Request::QUEUE(Queue {
        command: "whoami".to_string(),
        targets: vec!["t1".to_string()],
    });
    let m = MicrochipSystemMessage::generate(request.clone()).unwrap();
    assert_eq!(m.ip, "Tempestarii");
    assert_eq!(m.request, Some(request));
    assert_eq!(m.response, None);
}

#[test]
fn codec_plugin_message_exact_layout() {
    let m = MicrochipPluginMessage {
        shellcode: vec![0xaa],
        source: "A".to_string(),
        destination: String::new(),
        agency_key: Vec::new(),
    };
    let bytes = m.serialize().unwrap();
    assert_eq!(
        bytes,
        vec![
            1, 0, 0, 0, 0xaa, // payload: length prefix, one byte
            1, 0, 0, 0, 0x41, // source: length prefix, "A"
            0, 0, 0, 0, // destination: empty
            0, 0, 0, 0, // tag: empty
        ],
    );
}

#[test]
fn codec_system_message_exact_layout() {
    let m = MicrochipSystemMessage {
        ip: String::new(),
        request: Some(Request::QUIT(Quit { destroy: true })),
        response: None,
    };
    let bytes = m.serialize().unwrap();
    assert_eq!(
        bytes,
        vec![
            0, 0, 0, 0, // origin: empty
            1,  // a request is present
            4,  // the quit operation
            1,  // destroy
            0,  // no response
        ],
    );
}

#[test]
fn codec_wire_primitives_round_trip() {
    let mut out: Vec<u8> = Vec::new();
    tempestarii::wire::write_u32(&mut out, 0xdead_beef);
    tempestarii::wire::write_bool(&mut out, true);
    let list = vec!["one".to_string(), "two".to_string(), String::new()];
    tempestarii::wire::write_string_list(&mut out, &list).unwrap();
    let (x, p) = tempestarii::wire::read_u32(&out, 0).unwrap();
    assert_eq!(x, 0xdead_beef);
    let (b, p) = tempestarii::wire::read_bool(&out, p).unwrap();
    assert!(b);
    let (back, p) = tempestarii::wire::read_string_list(&out, p).unwrap();
    assert_eq!(back, list);
    assert_eq!(p, out.len());
}
