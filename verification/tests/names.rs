use tppocr::names::{client_socket_path, server_socket_path, shared_memory_name};

#[test]
fn shared_memory_name_embeds_the_id() {
    assert_eq!(shared_memory_name(8840), "/tppocr_8840");
    assert_eq!(shared_memory_name(0), "/tppocr_0");
}

#[test]
fn socket_paths_are_distinct_per_role() {
    assert_eq!(server_socket_path(123), "/tmp/tppocr_123.socket");
    assert_eq!(client_socket_path(123), "/tmp/tppocr_client-123.socket");
    assert_ne!(server_socket_path(123), client_socket_path(123));
}

#[test]
fn names_are_stable_across_calls() {
    // Restarting processes re-derive the same names from the same id.
    assert_eq!(shared_memory_name(8855), shared_memory_name(8855));
    assert_eq!(server_socket_path(8840), "/tmp/tppocr_8840.socket");
}
