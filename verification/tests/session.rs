use glide_core::handle_command;
use glide_core::parse;
use glide_core::Command;
use glide_core::Registry;
use glide_core::Reply;
use glide_core::SessionState;
use glide_core::session_step;
use glide_core::ShareRequest;
use glide_core::Transmission;

fn peer() -> String {
    "127.0.0.1:6000".to_string()
}

fn registered(reg: &mut Registry, name: &str) -> SessionState {
    let (state, reply) = session_step(
        SessionState::Unauthenticated,
        reg,
        Transmission::Username(name.to_string()),
        &peer(),
        None,
    );
    assert_eq!(reply, Reply::Control(Transmission::UsernameOk));
    assert_eq!(state, SessionState::Registered(name.to_string()));
    state
}

#[test]
fn invalid_name_is_rejected_and_state_unchanged() {
    let mut reg = Registry::new();
    let (state, reply) = session_step(
        SessionState::Unauthenticated,
        &mut reg,
        Transmission::Username(".bad".to_string()),
        &peer(),
        None,
    );
    assert_eq!(state, SessionState::Unauthenticated);
    assert_eq!(reply, Reply::Control(Transmission::UsernameInvalid));
    assert!(!reg.is_registered(&".bad".to_string()));
}

#[test]
fn taken_name_is_reported_and_state_unchanged() {
    let mut reg = Registry::new();
    registered(&mut reg, "alice");
    let (state, reply) = session_step(
        SessionState::Unauthenticated,
        &mut reg,
        Transmission::Username("alice".to_string()),
        &peer(),
        None,
    );
    assert_eq!(state, SessionState::Unauthenticated);
    assert_eq!(reply, Reply::Control(Transmission::UsernameTaken));
}

#[test]
fn free_valid_name_registers_and_moves_on() {
    let mut reg = Registry::new();
    registered(&mut reg, "alice");
    assert!(reg.is_registered(&"alice".to_string()));
}

#[test]
fn non_username_messages_are_ignored_before_registration() {
    let mut reg = Registry::new();
    let (state, reply) = session_step(
        SessionState::Unauthenticated,
        &mut reg,
        Transmission::Command("list".to_string()),
        &peer(),
        None,
    );
    assert_eq!(state, SessionState::Unauthenticated);
    assert_eq!(reply, Reply::Silent);
}

#[test]
fn disconnect_unregisters_and_closes() {
    let mut reg = Registry::new();
    let state = registered(&mut reg, "alice");
    let (state, reply) =
        session_step(state, &mut reg, Transmission::ClientDisconnected, &peer(), None);
    assert_eq!(state, SessionState::Closed);
    assert_eq!(reply, Reply::Silent);
    assert!(!reg.is_registered(&"alice".to_string()));
}

#[test]
fn unexpected_message_while_registered_is_ignored() {
    let mut reg = Registry::new();
    let state = registered(&mut reg, "alice");
    let (state, reply) =
        session_step(state, &mut reg, Transmission::UsernameOk, &peer(), None);
    assert_eq!(state, SessionState::Registered("alice".to_string()));
    assert_eq!(reply, Reply::Silent);
}

#[test]
fn list_reply_when_alone() {
    let mut reg = Registry::new();
    let state = registered(&mut reg, "alice");
    let (_, reply) = session_step(
        state,
        &mut reg,
        Transmission::Command("list".to_string()),
        &peer(),
        None,
    );
    assert_eq!(reply, Reply::Text("No other users are connected.".to_string()));
}

#[test]
fn list_reply_names_the_others() {
    let mut reg = Registry::new();
    registered(&mut reg, "alice");
    let state = registered(&mut reg, "bob");
    let (_, reply) = session_step(
        state,
        &mut reg,
        Transmission::Command("list".to_string()),
        &peer(),
        None,
    );
    assert_eq!(reply, Reply::Text("Connected users:\n@alice".to_string()));
}

#[test]
fn glide_to_registered_user_queues_one_request() {
    let mut reg = Registry::new();
    registered(&mut reg, "alice");
    registered(&mut reg, "bob");
    let reply = handle_command(
        &mut reg,
        &"alice".to_string(),
        parse("glide notes.txt @bob"),
        Some(512),
    );
    assert!(reply.contains("@bob"));
    assert_eq!(reply, "Glide request for 'notes.txt' sent to @bob.");
    assert_eq!(
        reg.list_pending(&"bob".to_string()),
        vec![ShareRequest {
            sender: "alice".to_string(),
            filename: "notes.txt".to_string(),
            size: 512,
        }]
    );
}

#[test]
fn glide_to_ghost_reports_not_found_and_mutates_nothing() {
    let mut reg = Registry::new();
    registered(&mut reg, "alice");
    registered(&mut reg, "bob");
    let reply = handle_command(
        &mut reg,
        &"alice".to_string(),
        parse("glide notes.txt @ghost"),
        Some(512),
    );
    assert_eq!(reply, "User @ghost is not connected.");
    assert_eq!(reg.list_pending(&"bob".to_string()), Vec::<ShareRequest>::new());
    assert_eq!(reg.list_pending(&"alice".to_string()), Vec::<ShareRequest>::new());
}

#[test]
fn glide_with_missing_file_reports_it_and_mutates_nothing() {
    let mut reg = Registry::new();
    registered(&mut reg, "alice");
    registered(&mut reg, "bob");
    let reply = handle_command(
        &mut reg,
        &"alice".to_string(),
        parse("glide gone.txt @bob"),
        None,
    );
    assert_eq!(reply, "File not found: 'gone.txt'.");
    assert_eq!(reg.list_pending(&"bob".to_string()), Vec::<ShareRequest>::new());
}

#[test]
fn requests_reply_lists_sender_file_and_size() {
    let mut reg = Registry::new();
    registered(&mut reg, "alice");
    registered(&mut reg, "bob");
    handle_command(
        &mut reg,
        &"alice".to_string(),
        parse("glide notes.txt @bob"),
        Some(512),
    );
    let reply = handle_command(&mut reg, &"bob".to_string(), parse("reqs"), None);
    assert_eq!(
        reply,
        "Pending requests:\n@alice wants to send 'notes.txt' (512 bytes)"
    );
}

#[test]
fn requests_reply_when_queue_is_empty() {
    let mut reg = Registry::new();
    registered(&mut reg, "bob");
    let reply = handle_command(&mut reg, &"bob".to_string(), parse("reqs"), None);
    assert_eq!(reply, "No pending requests.");
}

#[test]
fn accept_removes_the_request_and_reports_it() {
    let mut reg = Registry::new();
    registered(&mut reg, "alice");
    registered(&mut reg, "bob");
    handle_command(
        &mut reg,
        &"alice".to_string(),
        parse("glide notes.txt @bob"),
        Some(512),
    );
    let reply = handle_command(&mut reg, &"bob".to_string(), parse("ok @alice"), None);
    assert_eq!(reply, "Accepted 'notes.txt' from @alice.");
    assert_eq!(reg.list_pending(&"bob".to_string()), Vec::<ShareRequest>::new());
}

#[test]
fn decline_removes_the_request_and_reports_it() {
    let mut reg = Registry::new();
    registered(&mut reg, "alice");
    registered(&mut reg, "bob");
    handle_command(
        &mut reg,
        &"alice".to_string(),
        parse("glide notes.txt @bob"),
        Some(512),
    );
    let reply = handle_command(&mut reg, &"bob".to_string(), parse("no @alice"), None);
    assert_eq!(reply, "Declined 'notes.txt' from @alice.");
    assert_eq!(reg.list_pending(&"bob".to_string()), Vec::<ShareRequest>::new());
}

#[test]
fn accept_without_pending_request_reports_none() {
    let mut reg = Registry::new();
    registered(&mut reg, "bob");
    let reply = handle_command(&mut reg, &"bob".to_string(), parse("ok @alice"), None);
    assert_eq!(reply, "No pending request from @alice.");
}

#[test]
fn self_targeted_glide_is_allowed() {
    let mut reg = Registry::new();
    registered(&mut reg, "alice");
    let reply = handle_command(
        &mut reg,
        &"alice".to_string(),
        parse("glide note.txt @alice"),
        Some(7),
    );
    assert_eq!(reply, "Glide request for 'note.txt' sent to @alice.");
    assert_eq!(
        reg.list_pending(&"alice".to_string()),
        vec![ShareRequest {
            sender: "alice".to_string(),
            filename: "note.txt".to_string(),
            size: 7,
        }]
    );
}

#[test]
fn help_is_the_same_for_any_topic() {
    let mut reg = Registry::new();
    registered(&mut reg, "bob");
    let bare = handle_command(&mut reg, &"bob".to_string(), parse("help"), None);
    let topical = handle_command(&mut reg, &"bob".to_string(), parse("help glide"), None);
    assert_eq!(bare, topical);
    assert!(bare.starts_with("Commands:"));
}

#[test]
fn invalid_command_is_echoed_with_guidance() {
    let mut reg = Registry::new();
    registered(&mut reg, "bob");
    let reply = handle_command(&mut reg, &"bob".to_string(), parse("banana"), None);
    assert_eq!(
        reply,
        "Unrecognized command: 'banana'. Type 'help' for a list of commands."
    );
}

#[test]
fn closed_state_is_terminal() {
    let mut reg = Registry::new();
    let (state, reply) = session_step(
        SessionState::Closed,
        &mut reg,
        Transmission::Command("list".to_string()),
        &peer(),
        None,
    );
    assert_eq!(state, SessionState::Closed);
    assert_eq!(reply, Reply::Silent);
}

#[test]
fn command_while_registered_keeps_the_state() {
    let mut reg = Registry::new();
    let state = registered(&mut reg, "alice");
    let (state, _) = session_step(
        state,
        &mut reg,
        Transmission::Command("help".to_string()),
        &peer(),
        None,
    );
    assert_eq!(state, SessionState::Registered("alice".to_string()));
}

#[test]
fn decimal_rendering_is_exact() {
    assert_eq!(glide_core::u64_to_dec(0), "0");
    assert_eq!(glide_core::u64_to_dec(7), "7");
    assert_eq!(glide_core::u64_to_dec(42), "42");
    assert_eq!(glide_core::u64_to_dec(512), "512");
    assert_eq!(glide_core::u64_to_dec(u64::MAX), "18446744073709551615");
}
