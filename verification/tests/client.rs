use fang::client::{daemon_addr, endpoint, reply_route, Book, Endpoint, ReplyRoute};

#[test]
fn addresses_and_endpoints() {
    assert_eq!(daemon_addr(None), "unix:/run/fangd.sock");
    assert_eq!(daemon_addr(Some("tcp:127.0.0.1:7331".into())), "tcp:127.0.0.1:7331");
    assert!(matches!(endpoint("unix:/run/fangd.sock"), Endpoint::Unix(p) if p == "/run/fangd.sock"));
    assert!(matches!(endpoint("tcp:127.0.0.1:7331"), Endpoint::Tcp(t) if t == "127.0.0.1:7331"));
    assert!(matches!(endpoint("127.0.0.1:7331"), Endpoint::Tcp(t) if t == "127.0.0.1:7331"));
}

#[test]
fn replies_reach_their_waiters_once() {
    let mut book = Book::new();
    let subscribe = book.issue();
    let status = book.issue();
    assert_eq!((subscribe, status), (1, 2));
    let req = book.issue();
    book.awaiting(req);
    assert!(matches!(reply_route(&mut book, req, true, true), ReplyRoute::Waiter));
    assert!(matches!(reply_route(&mut book, req, true, false), ReplyRoute::Ignore));
    assert!(matches!(reply_route(&mut book, status, true, true), ReplyRoute::Status));
    assert!(matches!(reply_route(&mut book, 99, false, true), ReplyRoute::Ignore));
}

#[test]
fn disconnect_drains_every_waiter() {
    let mut book = Book::new();
    let a = book.issue();
    book.awaiting(a);
    let b = book.issue();
    book.awaiting(b);
    assert!(book.settle(a));
    assert!(!book.settle(a));
    assert_eq!(book.drain(), vec![b]);
    assert!(book.drain().is_empty());
}
