use lupus::inject::{create_rcon_connections, inject, is_printable, send_command, Game, Injection, Rcon, Session};
use lupus::registry::{chat_out_text, send_to_discord, Registry};
use lupus::relay::{backup_due, backups_due, gen_pipe, pipe_path, relay_message};
use tokio::sync::mpsc::unbounded_channel;

fn session(name: &str, rcon: Option<Rcon>, game: Option<Game>) -> Session {
    Session { name: name.to_string(), rcon, game }
}

fn endpoint(ip: Option<&str>) -> Rcon {
    Rcon { ip: ip.map(|s| s.to_string()), port: 25575, password: "pw".to_string() }
}

#[test]
fn broadcast_skips_and_drops_closed_subscriber() {
    let mut reg = Registry::new();
    let (tx1, mut rx1) = unbounded_channel();
    let (tx2, rx2) = unbounded_channel();
    let (tx3, mut rx3) = unbounded_channel();
    reg.add("a".to_string(), tx1);
    reg.add("b".to_string(), tx2);
    reg.add("c".to_string(), tx3);
    drop(rx2);
    let delivered = send_to_discord(&mut reg, "MSG hi");
    assert_eq!(delivered, vec![true, false, true]);
    assert_eq!(reg.len(), 2);
    assert!(reg.contains("a") && !reg.contains("b") && reg.contains("c"));
    for rx in [&mut rx1, &mut rx3] {
        let m = rx.try_recv().unwrap().unwrap();
        assert_eq!(m.to_str(), Ok("CHAT_OUT MSG hi"));
    }
    let again = send_to_discord(&mut reg, "MSG 2");
    assert_eq!(again, vec![true, true]);
}

#[test]
fn registry_add_replaces_and_remove() {
    let mut reg = Registry::new();
    let (tx1, _rx1) = unbounded_channel();
    let (tx2, mut rx2) = unbounded_channel();
    reg.add("a".to_string(), tx1);
    reg.add("a".to_string(), tx2);
    assert_eq!(reg.len(), 1);
    reg.broadcast("x");
    assert_eq!(rx2.try_recv().unwrap().unwrap().to_str(), Ok("x"));
    reg.remove("a");
    assert_eq!(reg.len(), 0);
    reg.remove("zzz");
    assert_eq!(reg.len(), 0);
}

#[test]
fn chat_out_tag() {
    assert_eq!(chat_out_text("hey"), "CHAT_OUT hey");
}

#[test]
fn inject_without_endpoint_types_keys() {
    match inject(&session("surv", None, None), "say hi") {
        Injection::Keys(a) => assert_eq!(a, vec!["send-keys", "-t", "surv", "say hi", "Enter"]),
        _ => panic!("expected keystrokes"),
    }
}

#[test]
fn inject_with_endpoint_sends_command() {
    match inject(&session("surv", Some(endpoint(None)), None), "say hi") {
        Injection::Rcon(c) => {
            assert_eq!(c.command, "say hi");
            assert_eq!(c.address, "127.0.0.1");
            assert_eq!(c.port, 25575);
            assert_eq!(c.password, "pw");
        }
        _ => panic!("expected an rcon command"),
    }
    match inject(&session("surv", Some(endpoint(Some("10.0.0.2"))), None), "list") {
        Injection::Rcon(c) => assert_eq!(c.address, "10.0.0.2"),
        _ => panic!("expected an rcon command"),
    }
}

#[test]
fn inject_drops_unprintable() {
    assert!(matches!(inject(&session("surv", None, None), "say\nhi"), Injection::Dropped));
    assert!(matches!(inject(&session("surv", None, None), "say é"), Injection::Dropped));
    assert_eq!(send_command("surv", "tab\there"), None);
    assert!(is_printable("say hi ~"));
    assert!(!is_printable("\u{7f}"));
}

#[test]
fn rcon_commands_for_each_endpoint() {
    let s = vec![
        session("a", Some(endpoint(None)), None),
        session("b", None, None),
        session("c", Some(endpoint(Some("1.2.3.4"))), None),
    ];
    let c = create_rcon_connections(&s, "save-all");
    assert_eq!(c.len(), 2);
    assert_eq!(c[0].address, "127.0.0.1");
    assert_eq!(c[1].address, "1.2.3.4");
    assert!(c.iter().all(|x| x.command == "save-all"));
}

#[test]
fn pipe_plan() {
    assert_eq!(pipe_path("surv"), "/tmp/surv-lupus");
    let p = gen_pipe("surv", true, true);
    assert_eq!(p.remove, Some("/tmp/surv-lupus".to_string()));
    assert_eq!(p.pipe_args, vec!["pipe-pane", "-t", "surv", "cat > /tmp/surv-lupus"]);
    assert_eq!(gen_pipe("surv", true, false).remove, None);
    assert_eq!(gen_pipe("surv", false, true).remove, None);
}

#[test]
fn backup_schedule() {
    assert!(backup_due(20, 10));
    assert!(!backup_due(10, 10));
    assert!(!backup_due(25, 10));
    assert!(!backup_due(5, 0));
    let game = |iv: Option<usize>, path: Option<&str>| Game {
        file_path: path.map(|s| s.to_string()),
        backup_interval: iv,
        backup_keep: None,
    };
    let s = vec![
        session("a", None, Some(game(Some(5), Some("/srv/a")))),
        session("b", None, None),
        session("c", None, Some(game(Some(5), None))),
        session("d", None, Some(game(Some(3), Some("/srv/d")))),
        session("e", None, Some(game(Some(4), Some("/srv/e")))),
    ];
    assert_eq!(backups_due(&s, 15), vec![0, 3]);
    assert_eq!(backups_due(&s, 5), Vec::<usize>::new());
}

#[test]
fn relay_message_joins_batches() {
    assert_eq!(relay_message(&vec![]), "MSG ");
    assert_eq!(relay_message(&vec!["a\n".to_string(), "".to_string(), "b\n".to_string()]), "MSG a\n\n\nb\n");
}
