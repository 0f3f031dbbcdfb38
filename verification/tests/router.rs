use kapollo::input::router::{route, route_mouse, MouseRoute, Routed};

#[test]
fn leader_prefixed_is_a_slash_command() {
    assert_eq!(route("/help", '/'), Routed::Slash("help".to_string()));
    assert_eq!(route("/clear", '/'), Routed::Slash("clear".to_string()));
}

#[test]
fn doubled_leader_escapes_to_literal_shell_input() {
    assert_eq!(route("//ls", '/'), Routed::Shell("/ls".to_string()));
    assert_eq!(route("//", '/'), Routed::Shell("/".to_string()));
}

#[test]
fn non_slash_input_passes_through() {
    assert_eq!(route("ls -la", '/'), Routed::Shell("ls -la".to_string()));
    assert_eq!(route("", '/'), Routed::Shell("".to_string()));
}

#[test]
fn honors_a_custom_leader_char() {
    assert_eq!(route(":quit", ':'), Routed::Slash("quit".to_string()));
    assert_eq!(route("/path", ':'), Routed::Shell("/path".to_string()));
    assert_eq!(route("::echo", ':'), Routed::Shell(":echo".to_string()));
}

#[test]
fn shift_always_bypasses_to_host() {
    assert_eq!(route_mouse(true, false, false), MouseRoute::Bypass);
    assert_eq!(route_mouse(true, true, false), MouseRoute::Bypass);
    assert_eq!(route_mouse(true, false, true), MouseRoute::Bypass);
}

#[test]
fn alt_screen_or_child_mouse_routes_to_child() {
    assert_eq!(route_mouse(false, true, false), MouseRoute::ToChild);
    assert_eq!(route_mouse(false, false, true), MouseRoute::ToChild);
    assert_eq!(route_mouse(false, true, true), MouseRoute::ToChild);
}

#[test]
fn otherwise_kapollo_consumes() {
    assert_eq!(route_mouse(false, false, false), MouseRoute::Consumed);
}

#[test]
fn a_lone_leader_is_an_empty_slash_command() {
    assert_eq!(route("/", '/'), Routed::Slash(String::new()));
}
