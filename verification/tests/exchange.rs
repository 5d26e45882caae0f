use tempestarii::cli::{List, Queue, Quit, Request};
use tempestarii::microchip::{MicrochipPlugin, MicrochipPluginMessage, MicrochipSystemMessage};
use tempestarii::plugins::{Plugin, PluginMessage, SystemMessage};
use tempestarii::server::{handle_client, server_handle_datagram, MAX_DATAGRAM_PAYLOAD};
use tempestarii::CoreError;

fn fresh_plugin() -> MicrochipPlugin {
    MicrochipPlugin {
        public_key: Vec::new(),
        private_key: Vec::new(),
        command_pool: Vec::new(),
        shutdown: false,
    }
}

fn exchange(plugin: &mut MicrochipPlugin, request: Request) -> (MicrochipSystemMessage, bool) {
    let envelope = MicrochipSystemMessage::generate(request).unwrap();
    let rx_bytes = envelope.serialize().unwrap();
    let (tx_bytes, quit) = handle_client(plugin, rx_bytes).unwrap();
    (MicrochipSystemMessage::deserialize(tx_bytes).unwrap(), quit)
}

#[test]
fn data_plane_answers_a_heartbeat_with_the_handshake() {
    let plugin = fresh_plugin();
    let heartbeat = plugin.generate_heartbeat().unwrap();
    let datagram = heartbeat.serialize().unwrap();
    assert!(datagram.len() <= MAX_DATAGRAM_PAYLOAD);
    let reply_bytes = server_handle_datagram(&plugin, datagram).unwrap();
    let reply = MicrochipPluginMessage::deserialize(reply_bytes).unwrap();
    assert_eq!(reply.source, "Server 1");
    assert_eq!(reply.destination, "Agent 1");
    assert_eq!(reply.agency_key, vec![1, 2, 3]);
}

#[test]
fn data_plane_answers_other_destinations_without_the_handshake() {
    let plugin = fresh_plugin();
    let stray = MicrochipPluginMessage {
        shellcode: Vec::new(),
        source: "Agent 1".to_string(),
        destination: "Somewhere Else".to_string(),
        agency_key: Vec::new(),
    };
    let reply_bytes = server_handle_datagram(&plugin, stray.serialize().unwrap()).unwrap();
    let reply = MicrochipPluginMessage::deserialize(reply_bytes).unwrap();
    assert_eq!(reply.agency_key, Vec::<u8>::new());
}

#[test]
fn data_plane_rejects_an_oversized_datagram() {
    let plugin = fresh_plugin();
    let datagram = vec![0u8; MAX_DATAGRAM_PAYLOAD + 1];
    let r = server_handle_datagram(&plugin, datagram);
    assert_eq!(r.unwrap_err(), CoreError::OversizedPayload);
}

#[test]
fn data_plane_accepts_a_datagram_at_the_ceiling() {
    let plugin = fresh_plugin();
    // A well-formed message padded to exactly the ceiling must not be
    // rejected for its size: it decodes and is answered.
    let padding = MAX_DATAGRAM_PAYLOAD - 16 - 11;
    let message = MicrochipPluginMessage {
        shellcode: vec![0x90; padding],
        source: String::new(),
        destination: "Tempestarii".to_string(),
        agency_key: Vec::new(),
    };
    let datagram = message.serialize().unwrap();
    assert_eq!(datagram.len(), MAX_DATAGRAM_PAYLOAD);
    let reply_bytes = server_handle_datagram(&plugin, datagram).unwrap();
    let reply = MicrochipPluginMessage::deserialize(reply_bytes).unwrap();
    assert_eq!(reply.agency_key, vec![1, 2, 3]);
}

#[test]
fn data_plane_rejects_garbage() {
    let plugin = fresh_plugin();
    let r = server_handle_datagram(&plugin, vec![0xff, 0x01, 0x02]);
    assert_eq!(r.unwrap_err(), CoreError::DecodingError);
}

#[test]
fn data_plane_never_mutates_the_pool() {
    let mut plugin = fresh_plugin();
    plugin.command_pool.push(tempestarii::microchip::MicrochipCommand {
        targets: vec!["t1".to_string()],
        command: "whoami".to_string(),
    });
    let before = plugin.clone();
    let heartbeat = plugin.generate_heartbeat().unwrap();
    server_handle_datagram(&plugin, heartbeat.serialize().unwrap()).unwrap();
    assert_eq!(plugin, before);
}

#[test]
fn control_plane_queue_then_list_over_the_wire() {
    let mut plugin = fresh_plugin();
    let (reply, quit) = exchange(
        &mut plugin,
        Request::QUEUE(Queue {
            command: "whoami".to_string(),
            targets: vec!["t1".to_string()],
        }),
    );
    assert!(!quit);
    assert_eq!(reply.response.unwrap().confirmation, "Command Registered Successfully");
    let (reply, quit) = exchange(
        &mut plugin,
        Request::LIST(List { targets: vec!["t1".to_string()] }),
    );
    assert!(!quit);
    assert_eq!(reply.response.unwrap().commands, vec!["whoami".to_string()]);
}

#[test]
fn control_plane_quit_reports_shutdown_to_the_loop() {
    let mut plugin = fresh_plugin();
    let (reply, quit) = exchange(&mut plugin, Request::QUIT(Quit { destroy: false }));
    assert!(quit);
    assert!(plugin.shutdown);
    assert_eq!(reply.response.unwrap().confirmation, "Triggering Quiet Closure");
}

#[test]
fn control_plane_rejects_garbage_and_keeps_the_pool() {
    let mut plugin = fresh_plugin();
    let before = plugin.clone();
    let r = handle_client(&mut plugin, vec![1, 2, 3]);
    assert_eq!(r.unwrap_err(), CoreError::DecodingError);
    assert_eq!(plugin, before);
}
