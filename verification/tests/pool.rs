use tempestarii::cli::{Dequeue, List, Lock, Queue, Quit, Request};
use tempestarii::microchip::{MicrochipCommand, MicrochipPlugin, MicrochipSystemMessage};
use tempestarii::microchip::filter_commands_by_target;
use tempestarii::plugins::{Plugin, SystemMessage};

fn fresh_plugin() -> MicrochipPlugin {
    MicrochipPlugin {
        public_key: Vec::new(),
        private_key: Vec::new(),
        command_pool: Vec::new(),
        shutdown: false,
    }
}

fn send(plugin: &mut MicrochipPlugin, request: Request) -> MicrochipSystemMessage {
    let envelope = MicrochipSystemMessage::generate(request).unwrap();
    plugin.pool_handler(envelope).unwrap()
}

fn queue(plugin: &mut MicrochipPlugin, command: &str, targets: &[&str]) -> MicrochipSystemMessage {
    send(
        plugin,
        Request::QUEUE(Queue {
            command: command.to_string(),
            targets: targets.iter().map(|t| t.to_string()).collect(),
        }),
    )
}

fn list(plugin: &mut MicrochipPlugin, targets: &[&str]) -> Vec<String> {
    let reply = send(
        plugin,
        Request::LIST(List { targets: targets.iter().map(|t| t.to_string()).collect() }),
    );
    reply.response.unwrap().commands
}

#[test]
fn pool_queue_then_list_returns_the_command() {
    let mut plugin = fresh_plugin();
    let reply = queue(&mut plugin, "whoami", &["t1"]);
    let response = reply.response.unwrap();
    assert_eq!(response.confirmation, "Command Registered Successfully");
    assert_eq!(response.commands, vec!["whoami".to_string()]);
    assert_eq!(list(&mut plugin, &["t1"]), vec!["whoami".to_string()]);
}

#[test]
fn pool_queue_dequeue_then_list_is_empty() {
    let mut plugin = fresh_plugin();
    queue(&mut plugin, "whoami", &["t1"]);
    let reply = send(
        &mut plugin,
        Request::DEQUEUE(Dequeue {
            command: "whoami".to_string(),
            targets: vec!["t1".to_string()],
        }),
    );
    let response = reply.response.unwrap();
    assert_eq!(response.confirmation, "Command Unregistered Successfully");
    assert_eq!(response.commands, vec!["whoami".to_string()]);
    assert_eq!(list(&mut plugin, &["t1"]), Vec::<String>::new());
}

#[test]
fn pool_dequeue_needs_both_text_and_target_overlap() {
    let mut plugin = fresh_plugin();
    queue(&mut plugin, "whoami", &["t1"]);
    queue(&mut plugin, "whoami", &["t2"]);
    queue(&mut plugin, "id", &["t1"]);
    // Same text, disjoint targets: nothing leaves.
    send(
        &mut plugin,
        Request::DEQUEUE(Dequeue {
            command: "whoami".to_string(),
            targets: vec!["t9".to_string()],
        }),
    );
    assert_eq!(plugin.command_pool.len(), 3);
    // Overlapping target, different text: nothing leaves.
    send(
        &mut plugin,
        Request::DEQUEUE(Dequeue {
            command: "hostname".to_string(),
            targets: vec!["t1".to_string()],
        }),
    );
    assert_eq!(plugin.command_pool.len(), 3);
    // Text and target both match: only that command leaves.
    send(
        &mut plugin,
        Request::DEQUEUE(Dequeue {
            command: "whoami".to_string(),
            targets: vec!["t1".to_string()],
        }),
    );
    assert_eq!(list(&mut plugin, &["t1"]), vec!["id".to_string()]);
    assert_eq!(list(&mut plugin, &["t2"]), vec!["whoami".to_string()]);
}

#[test]
fn pool_list_concatenates_in_input_order_without_dedup() {
    let mut plugin = fresh_plugin();
    queue(&mut plugin, "first", &["t1", "t2"]);
    queue(&mut plugin, "second", &["t2"]);
    queue(&mut plugin, "third", &["t1"]);
    assert_eq!(
        list(&mut plugin, &["t2", "t1", "t2"]),
        vec![
            "first".to_string(),
            "second".to_string(),
            "first".to_string(),
            "third".to_string(),
            "first".to_string(),
            "second".to_string(),
        ],
    );
}

#[test]
fn pool_many_sequential_queues_lose_nothing() {
    let mut plugin = fresh_plugin();
    let n = 100;
    for i in 0..n {
        queue(&mut plugin, &format!("command {i}"), &["t1"]);
    }
    assert_eq!(plugin.command_pool.len(), n);
    for i in 0..n {
        let expected = format!("command {i}");
        let occurrences = plugin
            .command_pool
            .iter()
            .filter(|c| c.command == expected)
            .count();
        assert_eq!(occurrences, 1);
    }
}

#[test]
fn pool_lock_confirms_but_changes_nothing() {
    let mut plugin = fresh_plugin();
    queue(&mut plugin, "whoami", &["t1"]);
    let before = plugin.command_pool.clone();
    let reply = send(&mut plugin, Request::LOCK(Lock { targets: vec!["t1".to_string()] }));
    let response = reply.response.unwrap();
    assert_eq!(response.confirmation, "Target Status Locked");
    assert_eq!(response.commands, Vec::<String>::new());
    assert_eq!(plugin.command_pool, before);
    assert!(!plugin.shutdown);
}

#[test]
fn pool_quit_quiet_sets_shutdown() {
    let mut plugin = fresh_plugin();
    let reply = send(&mut plugin, Request::QUIT(Quit { destroy: false }));
    assert_eq!(reply.response.unwrap().confirmation, "Triggering Quiet Closure");
    assert!(plugin.shutdown);
    assert!(plugin.shutdown_check().unwrap());
}

#[test]
fn pool_quit_destructive_sets_shutdown() {
    let mut plugin = fresh_plugin();
    let reply = send(&mut plugin, Request::QUIT(Quit { destroy: true }));
    assert_eq!(
        reply.response.unwrap().confirmation,
        "Triggering Massive Destruction of Infrastructure",
    );
    assert!(plugin.shutdown);
    assert!(plugin.shutdown_check().unwrap());
}

#[test]
fn pool_shutdown_is_never_reset() {
    let mut plugin = fresh_plugin();
    send(&mut plugin, Request::QUIT(Quit { destroy: false }));
    assert!(plugin.shutdown);
    queue(&mut plugin, "whoami", &["t1"]);
    list(&mut plugin, &["t1"]);
    send(&mut plugin, Request::QUIT(Quit { destroy: true }));
    assert!(plugin.shutdown);
}

#[test]
fn pool_envelope_without_request_answers_empty() {
    let mut plugin = fresh_plugin();
    let envelope = MicrochipSystemMessage {
        ip: "Tempestarii".to_string(),
        request: None,
        response: None,
    };
    let reply = plugin.pool_handler(envelope).unwrap();
    assert_eq!(reply.ip, "Storm");
    assert!(reply.request.is_none());
    assert!(reply.response.is_none());
    assert!(plugin.command_pool.is_empty());
}

#[test]
fn pool_filter_matches_on_contained_target() {
    let pool = vec![
        MicrochipCommand {
            targets: vec!["t1".to_string(), "t2".to_string()],
            command: "alpha".to_string(),
        },
        MicrochipCommand { targets: vec!["t3".to_string()], command: "beta".to_string() },
        MicrochipCommand { targets: vec!["t2".to_string()], command: "gamma".to_string() },
    ];
    let hits = filter_commands_by_target(&pool, "t2".to_string()).unwrap();
    assert_eq!(hits, vec!["alpha".to_string(), "gamma".to_string()]);
    let misses = filter_commands_by_target(&pool, "t9".to_string()).unwrap();
    assert_eq!(misses, Vec::<String>::new());
}

#[test]
fn pool_reply_carries_placeholder_target() {
    let mut plugin = fresh_plugin();
    let reply = queue(&mut plugin, "whoami", &["t1"]);
    let targets = reply.response.unwrap().targets;
    assert_eq!(targets.len(), 1);
    match &targets[0] {
        tempestarii::cli::AirportCodes::ALL { location, target_number, target_name, locked } => {
            assert_eq!(location, "Nowhere Good");
            assert_eq!(*target_number, 1);
            assert_eq!(target_name, "Chase K's House");
            assert!(!*locked);
        },
        other => panic!("unexpected target {other:?}"),
    }
}
