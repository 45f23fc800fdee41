use tppocr::message_socket::{ChannelError, SyncChannel};

#[test]
fn test_server_client() {
    let mut channel = SyncChannel::new(123);
    channel.open_server();
    channel.open_client().unwrap();

    let mut client_buffer: Vec<u8> = vec![0; 10];
    let mut server_buffer: Vec<u8> = vec![0; 10];

    client_buffer[0] = 123;
    channel.client_send(&client_buffer).unwrap();

    let (message_size, client_name) = channel.server_receive(&mut server_buffer).unwrap();

    assert_eq!(message_size, 10);
    assert_eq!(server_buffer[0], 123);

    server_buffer[0] = 234;
    channel.server_send(&server_buffer, &client_name).unwrap();

    let message_size = channel.client_receive(&mut client_buffer).unwrap();
    assert_eq!(message_size, 10);
    assert_eq!(client_buffer[0], 234);
}

#[test]
fn client_cannot_connect_without_server() {
    let mut channel = SyncChannel::new(5);
    assert_eq!(channel.open_client().err(), Some(ChannelError::NotConnected));
    channel.open_server();
    assert!(channel.open_client().is_ok());
}

#[test]
fn receive_succeeds_exactly_when_server_replied() {
    let mut channel = SyncChannel::new(9);
    channel.open_server();
    channel.open_client().unwrap();
    let request: Vec<u8> = Vec::new();
    let mut scratch: Vec<u8> = Vec::new();

    // No reply pending: the receive times out; timing out is transient.
    channel.client_send(&request).unwrap();
    assert_eq!(channel.client_receive(&mut scratch).err(), Some(ChannelError::Timeout));

    // The client retries; the server polls the request and replies.
    channel.client_send(&request).unwrap();
    let (_, addr) = channel.server_receive(&mut scratch).unwrap();
    channel.server_send(&request, &addr).unwrap();

    // Now, and only now, the receive succeeds.
    assert!(channel.client_receive(&mut scratch).is_ok());

    // Exactly one reply was sent, so a second receive finds nothing.
    assert_eq!(channel.client_receive(&mut scratch).err(), Some(ChannelError::Timeout));
}

#[test]
fn server_poll_is_nonblocking_and_takes_one_request() {
    let mut channel = SyncChannel::new(2);
    channel.open_server();
    channel.open_client().unwrap();
    let mut scratch: Vec<u8> = Vec::new();
    // Nothing pending: the poll reports no data instead of waiting.
    assert_eq!(channel.server_receive(&mut scratch).err(), Some(ChannelError::WouldBlock));
    channel.client_send(&Vec::new()).unwrap();
    assert!(channel.server_receive(&mut scratch).is_ok());
    // The request was taken: no queue stands behind it.
    assert_eq!(channel.server_receive(&mut scratch).err(), Some(ChannelError::WouldBlock));
}

#[test]
fn datagram_is_truncated_to_the_receive_buffer() {
    let mut channel = SyncChannel::new(3);
    channel.open_server();
    channel.open_client().unwrap();
    channel.client_send(&vec![1, 2, 3, 4, 5]).unwrap();
    let mut small: Vec<u8> = vec![0; 3];
    let (n, _) = channel.server_receive(&mut small).unwrap();
    assert_eq!(n, 3);
    assert_eq!(small, vec![1, 2, 3]);
}

#[test]
fn send_without_peer_is_a_disconnect() {
    let mut channel = SyncChannel::new(4);
    channel.open_server();
    channel.open_client().unwrap();
    channel.client_send(&Vec::new()).unwrap();
    let mut scratch: Vec<u8> = Vec::new();
    let (_, addr) = channel.server_receive(&mut scratch).unwrap();
    // The client goes away before the reply: best-effort send reports it.
    channel.close_client();
    assert_eq!(channel.server_send(&Vec::new(), &addr).err(), Some(ChannelError::Disconnected));
    // The server goes away: the consumer path surfaces the disconnect.
    channel.open_client().unwrap();
    channel.close_server();
    assert_eq!(channel.client_send(&Vec::new()).err(), Some(ChannelError::Disconnected));
}

#[test]
fn rebinding_clears_a_stale_request() {
    let mut channel = SyncChannel::new(6);
    channel.open_server();
    channel.open_client().unwrap();
    channel.client_send(&vec![9]).unwrap();
    // The server restarts: binding again clears what was addressed to the
    // old socket.
    channel.open_server();
    let mut scratch: Vec<u8> = vec![0; 1];
    assert_eq!(channel.server_receive(&mut scratch).err(), Some(ChannelError::WouldBlock));
}
