use chatsounds_plugin::chat::{handle_chat_message, on_chat_received, ChatSession, MessageKind};

fn expected_trigger(message: &str) -> Option<String> {
    let mut owned = message.to_string();
    owned.rfind("&f").map(|pos| owned.split_off(pos + 2))
}

#[test]
fn new_session_has_nothing_pending() {
    let session = ChatSession::new();
    assert_eq!(session.pending_message(), None);
}

#[test]
fn plain_line_is_returned_unchanged_and_becomes_pending() {
    let mut session = ChatSession::new();
    let message = session.reassemble("hello &fthere");
    assert_eq!(message, "hello &fthere");
    assert_eq!(session.pending_message(), Some("hello &fthere".to_string()));
}

#[test]
fn plain_line_overwrites_what_was_pending() {
    let mut session = ChatSession::new();
    session.reassemble("first");
    let message = session.reassemble("second");
    assert_eq!(message, "second");
    assert_eq!(session.pending_message(), Some("second".to_string()));
}

#[test]
fn continuation_is_joined_to_the_pending_message_with_one_space() {
    let mut session = ChatSession::new();
    session.reassemble("hello &fthere");
    let message = session.reassemble("> &ffriend");
    assert_eq!(message, "hello &fthere friend");
}

#[test]
fn continuation_does_not_change_what_is_pending() {
    let mut session = ChatSession::new();
    session.reassemble("hello &fthere");
    session.reassemble("> &ffriend");
    assert_eq!(session.pending_message(), Some("hello &fthere".to_string()));
    let again = session.reassemble("> &fof mine");
    assert_eq!(again, "hello &fthere of mine");
    assert_eq!(session.pending_message(), Some("hello &fthere".to_string()));
}

#[test]
fn continuation_without_pending_message_loses_its_marker_only() {
    let mut session = ChatSession::new();
    let message = session.reassemble("> &ffriend");
    assert_eq!(message, "friend");
    assert_eq!(session.pending_message(), None);
}

#[test]
fn bare_marker_is_a_continuation_of_nothing() {
    let mut session = ChatSession::new();
    session.reassemble("prior");
    assert_eq!(session.reassemble("> &f"), "prior ");
    let mut fresh = ChatSession::new();
    assert_eq!(fresh.reassemble("> &f"), "");
}

#[test]
fn lines_that_only_resemble_the_marker_are_plain() {
    for line in ["> &", ">&f x", " > &fx", "> &Fx", "", ">", "> &e", "&f"] {
        let mut session = ChatSession::new();
        session.reassemble("prior");
        assert_eq!(session.reassemble(line), line);
        assert_eq!(session.pending_message(), Some(line.to_string()));
    }
}

#[test]
fn continuation_counts_characters_not_bytes() {
    let mut session = ChatSession::new();
    session.reassemble("caf\u{e9} &fna\u{ef}ve");
    let message = session.reassemble("> &f\u{fc}ber \u{1f600}");
    assert_eq!(message, "caf\u{e9} &fna\u{ef}ve \u{fc}ber \u{1f600}");
}

#[test]
fn trigger_is_what_follows_the_last_marker() {
    assert_eq!(handle_chat_message("hello &fthere"), Some("there".to_string()));
    assert_eq!(handle_chat_message("&fa&fb&fc"), Some("c".to_string()));
    assert_eq!(handle_chat_message("&e[name]&f: &fhi all"), Some("hi all".to_string()));
}

#[test]
fn message_without_marker_has_no_trigger() {
    assert_eq!(handle_chat_message("hello there"), None);
    assert_eq!(handle_chat_message(""), None);
    assert_eq!(handle_chat_message("&"), None);
    assert_eq!(handle_chat_message("f&"), None);
    assert_eq!(handle_chat_message("& f"), None);
    assert_eq!(handle_chat_message("&F"), None);
}

#[test]
fn marker_at_the_end_gives_an_empty_trigger() {
    assert_eq!(handle_chat_message("&f"), Some(String::new()));
    assert_eq!(handle_chat_message("hello &f"), Some(String::new()));
}

#[test]
fn trigger_agrees_with_a_search_from_the_right() {
    let samples = [
        "",
        "&f",
        "&&f",
        "&f&",
        "&ff",
        "a&fb",
        "&fa&f",
        "x &f y &f z",
        "caf\u{e9} &f\u{fc}ber",
        "\u{1f600}&f\u{1f600}&f\u{1f600}",
        "no marker at all",
        "&e&a&f&b",
        "> &fcontinued",
    ];
    for sample in samples {
        assert_eq!(handle_chat_message(sample), expected_trigger(sample), "{:?}", sample);
    }
}

#[test]
fn events_of_another_kind_are_ignored() {
    let mut session = ChatSession::new();
    session.reassemble("prior &fline");
    let trigger = on_chat_received(&mut session, Some("status &ftext"), MessageKind::Other);
    assert_eq!(trigger, None);
    assert_eq!(session.pending_message(), Some("prior &fline".to_string()));
}

#[test]
fn events_without_payload_are_ignored() {
    let mut session = ChatSession::new();
    session.reassemble("prior &fline");
    assert_eq!(on_chat_received(&mut session, None, MessageKind::Normal), None);
    assert_eq!(on_chat_received(&mut session, None, MessageKind::Other), None);
    assert_eq!(session.pending_message(), Some("prior &fline".to_string()));
}

#[test]
fn ordinary_chat_yields_its_trigger() {
    let mut session = ChatSession::new();
    let trigger = on_chat_received(&mut session, Some("&7player: &fhello"), MessageKind::Normal);
    assert_eq!(trigger, Some("hello".to_string()));
    assert_eq!(session.pending_message(), Some("&7player: &fhello".to_string()));
}

#[test]
fn ordinary_chat_without_marker_yields_nothing_but_is_remembered() {
    let mut session = ChatSession::new();
    let trigger = on_chat_received(&mut session, Some("plain"), MessageKind::Normal);
    assert_eq!(trigger, None);
    assert_eq!(session.pending_message(), Some("plain".to_string()));
}

#[test]
fn split_message_yields_the_joined_trigger() {
    let mut session = ChatSession::new();
    let first = on_chat_received(&mut session, Some("hello &fthere"), MessageKind::Normal);
    assert_eq!(first, Some("there".to_string()));
    let second = on_chat_received(&mut session, Some("> &ffriend"), MessageKind::Normal);
    assert_eq!(second, Some("there friend".to_string()));
}

#[test]
fn continuation_without_prior_has_no_marker_left_to_trigger_on() {
    let mut session = ChatSession::new();
    assert_eq!(session.reassemble("> &ffriend"), "friend");
    let mut other = ChatSession::new();
    let trigger = on_chat_received(&mut other, Some("> &ffriend"), MessageKind::Normal);
    assert_eq!(trigger, None);
    let mut third = ChatSession::new();
    let inner = on_chat_received(&mut third, Some("> &fmy &ffriend"), MessageKind::Normal);
    assert_eq!(inner, Some("friend".to_string()));
}

#[test]
fn ignored_event_between_the_halves_does_not_break_the_join() {
    let mut session = ChatSession::new();
    on_chat_received(&mut session, Some("hello &fthere"), MessageKind::Normal);
    on_chat_received(&mut session, Some("server &fnotice"), MessageKind::Other);
    let joined = on_chat_received(&mut session, Some("> &ffriend"), MessageKind::Normal);
    assert_eq!(joined, Some("there friend".to_string()));
}
