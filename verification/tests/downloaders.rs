use ardl_socket::listener::{Delivery, Listening, ACCEPT_QUEUE_LEN_CAP, MTU};
use ardl_socket::utils::addr_map::AddrMap;
use ardl_socket::utils::buf::BufSlice;
use ardl_socket::utils::channel::SendOutcome;
use ardl_socket::utils::SocketAddr;

fn host(ip: u32) -> SocketAddr {
    SocketAddr::V4 { ip, port: 38947 }
}

fn packet(bytes: &[u8]) -> BufSlice {
    BufSlice::from_bytes(bytes.to_vec())
}

#[test]
fn listener_limits() {
    assert_eq!(MTU, 1300);
    assert_eq!(ACCEPT_QUEUE_LEN_CAP, 1024);
}

#[test]
fn first_datagram_of_an_address_opens_a_downloader() {
    let mut listening = Listening::new(4);
    assert!(listening.can_accept());
    assert!(listening.on_accept_request().is_none());
    let delivery = listening.on_datagram(packet(b"hello"), host(1));
    assert_eq!(delivery, Delivery::Opened);
    assert!(listening.can_accept());
    let mut path = listening.on_accept_request().unwrap();
    assert_eq!(path.remote_addr, host(1));
    assert_eq!(path.input_rx.try_recv().unwrap().data(), b"hello");
}

#[test]
fn accepted_downloader_gets_whole_datagrams() {
    let mut listening = Listening::new(4);
    listening.on_datagram(packet(b"one"), host(1));
    let mut path = listening.on_accept_request().unwrap();
    let delivery = listening.on_datagram(packet(b"two"), host(1));
    assert_eq!(delivery, Delivery::Overflowed);
    path.input_rx.try_recv().unwrap();
    let delivery = listening.on_datagram(packet(b"three"), host(1));
    assert_eq!(delivery, Delivery::Forwarded);
    assert_eq!(path.input_rx.try_recv().unwrap().data(), b"three");
}

#[test]
fn closed_downloader_is_opened_anew() {
    let mut listening = Listening::new(4);
    listening.on_datagram(packet(b"one"), host(1));
    drop(listening.on_accept_request());
    let delivery = listening.on_datagram(packet(b"two"), host(1));
    assert_eq!(delivery, Delivery::Opened);
    let mut path = listening.on_accept_request().unwrap();
    assert_eq!(path.input_rx.try_recv().unwrap().data(), b"two");
}

#[test]
fn full_queue_refuses_new_addresses() {
    let mut listening = Listening::new(1);
    listening.on_datagram(packet(b"one"), host(1));
    let delivery = listening.on_datagram(packet(b"two"), host(2));
    assert_eq!(delivery, Delivery::Refused);
}

#[test]
fn paths_are_accepted_in_order() {
    let mut listening = Listening::new(4);
    for ip in [3, 1, 2] {
        listening.on_datagram(packet(b""), host(ip));
    }
    for ip in [3, 1, 2] {
        assert_eq!(listening.on_accept_request().unwrap().remote_addr, host(ip));
    }
}

#[test]
fn second_path_of_an_address_is_not_pending() {
    let mut listening = Listening::new(4);
    listening.on_datagram(packet(b"one"), host(1));
    let delivery = listening.on_datagram(packet(b"two"), host(1));
    assert_eq!(delivery, Delivery::Opened);
    assert!(listening.can_accept());
    // The sending end of the first path is gone, but what it was sent is still there.
    let mut path = listening.on_accept_request().unwrap();
    assert_eq!(path.input_rx.try_recv().unwrap().data(), b"one");
    assert!(matches!(
        path.input_rx.try_recv(),
        Err(tokio::sync::mpsc::error::TryRecvError::Disconnected)
    ));
    assert!(!listening.can_accept());
}

#[test]
fn outcomes_of_an_offer_to_an_address() {
    let mut listening = Listening::new(4);
    listening.on_datagram(packet(b"one"), host(1));
    let _path = listening.on_accept_request().unwrap();
    assert_eq!(
        listening.on_send_outcome(host(1), SendOutcome::Sent),
        Delivery::Forwarded
    );
    assert_eq!(
        listening.on_send_outcome(host(1), SendOutcome::Full(packet(b"x"))),
        Delivery::Overflowed
    );
    assert_eq!(
        listening.on_send_outcome(host(1), SendOutcome::Closed(packet(b"y"))),
        Delivery::Opened
    );
    let mut path = listening.on_accept_request().unwrap();
    assert_eq!(path.input_rx.try_recv().unwrap().data(), b"y");
}

#[test]
fn address_map_holds_one_value_per_address() {
    let v6 = SocketAddr::V6 {
        ip: 1,
        port: 2,
        flowinfo: 3,
        scope_id: 4,
    };
    let mut map: AddrMap<u8> = AddrMap::new();
    assert_eq!(map.get(host(1)), None);
    map.insert(host(1), 10);
    map.insert(v6, 20);
    map.insert(host(2), 30);
    map.insert(host(1), 11);
    assert_eq!(map.get(host(1)), Some(&11));
    assert_eq!(map.remove(v6), Some(20));
    assert_eq!(map.remove(v6), None);
    assert_eq!(map.get(host(2)), Some(&30));
    assert_eq!(map.remove(host(1)), Some(11));
    assert_eq!(map.get(host(1)), None);
    assert_eq!(map.get(host(2)), Some(&30));
}

#[test]
fn addresses_get_their_own_datagrams_in_order() {
    let mut listening = Listening::new(4);
    listening.on_datagram(packet(&[10]), host(1));
    listening.on_datagram(packet(&[20]), host(2));
    let mut first = listening.on_accept_request().unwrap();
    let mut second = listening.on_accept_request().unwrap();
    let mut got = (Vec::new(), Vec::new());
    for body in 1..4 {
        got.0.push(first.input_rx.try_recv().unwrap().data().to_vec());
        got.1.push(second.input_rx.try_recv().unwrap().data().to_vec());
        let delivery = listening.on_datagram(packet(&[10 + body]), host(1));
        assert_eq!(delivery, Delivery::Forwarded);
        let delivery = listening.on_datagram(packet(&[99]), host(1));
        assert_eq!(delivery, Delivery::Overflowed);
        let delivery = listening.on_datagram(packet(&[20 + body]), host(2));
        assert_eq!(delivery, Delivery::Forwarded);
    }
    assert_eq!(got.0, [[10], [11], [12]]);
    assert_eq!(got.1, [[20], [21], [22]]);
    assert_eq!(first.input_rx.try_recv().unwrap().data(), &[13]);
    assert!(first.input_rx.try_recv().is_err());
}
