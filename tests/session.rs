use blobfish::client;
use blobfish::error::ProtocolError;
use blobfish::protocol::{
    hash_file, MessageType, MyPkg, MyPkgAck, NegotiateMyPkg, NegotiateMyPkgAck, Piece,
    PieceExchange, PieceExchangeAck, ToMessageType,
};
use blobfish::server;
use blobfish::Server;

fn package() -> MyPkg {
    let f = hash_file("fixtures/abc.txt".to_string(), b"abc");
    MyPkg::assemble("t".to_string(), vec![f], 1)
}

fn two_file_package() -> MyPkg {
    let f1 = hash_file("x/one.bin".to_string(), &[1u8; 20000]);
    let f2 = hash_file("y/two.bin".to_string(), b"two");
    MyPkg::assemble("pair".to_string(), vec![f1, f2], 1)
}

#[test]
fn single_small_file_session() {
    let pkg = package();
    let mut srv = Server::new(vec![]);

    // offer
    let (acceptor, ack) = server::Offer::new()
        .wait_for_mypkg(pkg.clone().to_message_type(), &mut srv)
        .unwrap();
    assert_eq!(ack.md5sum, Some(pkg.md5sum.clone()));
    assert_eq!(ack.files, None);
    let offerer = client::Offer::new()
        .offer(pkg.clone(), ack.to_message_type())
        .unwrap()
        .add_peers(vec!["127.0.0.1:2040".to_string()]);

    // negotiate
    let request = offerer.negotiate_message();
    assert_eq!(request.md5sum, pkg.md5sum);
    let (acceptor, reply) = acceptor.negotiate(request.to_message_type()).unwrap();
    assert_eq!(reply.md5sum, pkg.md5sum);
    assert_eq!(reply.peers, Some(vec![]));
    let mut offerer = offerer.negotiate(reply.to_message_type()).unwrap();

    // exchange
    let files = offerer.files_to_send();
    assert_eq!(files.len(), 1);
    let f = files[0].clone();
    let count = f.clone().chunk_count() as u64;
    assert_eq!(count, 1);
    let pe = offerer.exchange([0, count], f.clone());
    assert_eq!(pe, PieceExchange { pieces: [0, 1], file: f.clone() });
    assert!(!acceptor.is_done());
    let (mut running, pe_ack) = acceptor.exchange(pe.to_message_type()).unwrap();
    assert_eq!(pe_ack, PieceExchangeAck { pieces: None });
    offerer.exchange_ack(pe_ack.to_message_type()).unwrap();
    assert_eq!(
        running.destination(),
        format!("data/{}/abc.txt", pkg.md5sum)
    );

    // pieces
    let piece = offerer.send(0, b"abc".to_vec()).unwrap();
    assert_eq!(piece, Piece { piece: 0, ack: None, data: b"abc".to_vec() });
    assert!(!running.is_complete());
    let w = running.receive(piece.to_message_type()).unwrap();
    assert_eq!(w.offset, 0);
    assert_eq!(w.data, b"abc".to_vec());
    assert_eq!(w.ack, None);
    assert!(running.is_complete());
    assert!(running.finish().is_done());
}

#[test]
fn multi_file_package_is_received_in_order() {
    let pkg = two_file_package();
    let mut srv = Server::new(vec![]);
    let (acceptor, _) = server::Offer::new()
        .wait_for_mypkg(pkg.clone().to_message_type(), &mut srv)
        .unwrap();
    let request = NegotiateMyPkg { md5sum: pkg.md5sum.clone() };
    let (mut ready, _) = acceptor.negotiate(request.to_message_type()).unwrap();
    let mut names = vec![];
    for f in &pkg.files {
        assert!(!ready.is_done());
        let n = f.clone().chunk_count() as u64;
        let pe = PieceExchange { pieces: [0, n], file: f.clone() };
        let (mut running, _) = ready.exchange(pe.to_message_type()).unwrap();
        names.push(running.destination());
        for i in 0..n {
            let p = Piece { piece: i, ack: None, data: vec![0u8; 4] };
            let w = running.receive(p.to_message_type()).unwrap();
            assert_eq!(w.offset, i * 16384);
        }
        assert!(running.is_complete());
        ready = running.finish();
    }
    assert!(ready.is_done());
    assert_eq!(
        names,
        vec![format!("data/{}/one.bin", pkg.md5sum), format!("data/{}/two.bin", pkg.md5sum)]
    );
}

#[test]
fn second_offer_of_a_package_is_deduplicated() {
    let pkg = package();
    let mut srv = Server::new(vec![]);
    let (_, first) = server::Offer::new()
        .wait_for_mypkg(pkg.clone().to_message_type(), &mut srv)
        .unwrap();
    assert_eq!(first.files, None);
    assert_eq!(srv.get(pkg.md5sum.clone()), Some(pkg.md5sum.clone()));
    let (acceptor, second) = server::Offer::new()
        .wait_for_mypkg(pkg.clone().to_message_type(), &mut srv)
        .unwrap();
    assert_eq!(second.md5sum, Some(pkg.md5sum.clone()));
    assert_eq!(second.files, Some(vec![]));

    let request = NegotiateMyPkg { md5sum: pkg.md5sum.clone() };
    let (ready, _) = acceptor.negotiate(request.to_message_type()).unwrap();
    assert!(ready.is_done());

    let offerer = client::Offer::new().offer(pkg.clone(), second.to_message_type()).unwrap();
    let reply = NegotiateMyPkgAck { md5sum: pkg.md5sum.clone(), peers: None };
    let offerer = offerer.negotiate(reply.to_message_type()).unwrap();
    assert!(offerer.files_to_send().is_empty());
}

#[test]
fn cache_get_and_set() {
    let mut srv = Server::new(vec!["peer-a".to_string(), "peer-b".to_string(), "peer-a".to_string()]);
    assert_eq!(srv.seed_peers(), vec!["peer-a".to_string(), "peer-b".to_string()]);
    assert_eq!(srv.get("d".to_string()), None);
    assert!(srv.set("d".to_string()));
    assert!(!srv.set("d".to_string()));
    assert_eq!(srv.get("d".to_string()), Some("d".to_string()));
}

#[test]
fn piece_outside_window_is_out_of_bounds() {
    let pkg = package();
    let mut srv = Server::new(vec![]);
    let (acceptor, _) = server::Offer::new()
        .wait_for_mypkg(pkg.clone().to_message_type(), &mut srv)
        .unwrap();
    let request = NegotiateMyPkg { md5sum: pkg.md5sum.clone() };
    let (ready, _) = acceptor.negotiate(request.to_message_type()).unwrap();
    let pe = PieceExchange { pieces: [0, 3], file: pkg.files[0].clone() };
    let (mut running, _) = ready.exchange(pe.to_message_type()).unwrap();
    let p = Piece { piece: 5, ack: None, data: vec![] };
    assert_eq!(
        running.receive(p.to_message_type()).err(),
        Some(ProtocolError::PieceOutOfBounds { piece: 5, start: 0, end: 3 })
    );
    let at_end = Piece { piece: 3, ack: None, data: vec![] };
    assert_eq!(
        running.receive(at_end.to_message_type()).err(),
        Some(ProtocolError::PieceOutOfBounds { piece: 3, start: 0, end: 3 })
    );
    let wrong = NegotiateMyPkg { md5sum: String::new() };
    assert_eq!(
        running.receive(wrong.to_message_type()).err(),
        Some(ProtocolError::UnexpectedMessage { expected: 80, found: 40 })
    );
}

#[test]
fn acknowledgements_report_contiguous_piece() {
    let pkg = package();
    let mut srv = Server::new(vec![]);
    let (acceptor, _) = server::Offer::new()
        .wait_for_mypkg(pkg.clone().to_message_type(), &mut srv)
        .unwrap();
    let request = NegotiateMyPkg { md5sum: pkg.md5sum.clone() };
    let (ready, _) = acceptor.negotiate(request.to_message_type()).unwrap();
    let pe = PieceExchange { pieces: [0, 5], file: pkg.files[0].clone() };
    let (mut running, _) = ready.exchange(pe.to_message_type()).unwrap();
    let mut acks = vec![];
    for i in [0u64, 1, 3, 2, 4] {
        let p = Piece { piece: i, ack: Some(i), data: vec![] };
        let w = running.receive(p.to_message_type()).unwrap();
        acks.push(w.ack.unwrap().piece);
    }
    assert_eq!(acks, vec![0, 1, 1, 2, 2]);
    assert_eq!(running.contiguous_piece(), 2);
    assert!(running.is_complete());
}

#[test]
fn declined_offer_is_not_interesting() {
    let pkg = package();
    let ack = MyPkgAck { md5sum: None, files: None };
    let r = client::Offer::new().offer(pkg.clone(), ack.to_message_type());
    assert_eq!(r.err(), Some(ProtocolError::PeerNotInterested { md5sum: pkg.md5sum.clone() }));
    let accepted_with_files = MyPkgAck { md5sum: None, files: Some(vec![]) };
    assert!(client::Offer::new().offer(pkg, accepted_with_files.to_message_type()).is_ok());
}

#[test]
fn unexpected_messages_are_refused() {
    let pkg = package();
    let mut srv = Server::new(vec![]);
    let wrong = PieceExchangeAck { pieces: None }.to_message_type();
    assert_eq!(
        server::Offer::new().wait_for_mypkg(wrong, &mut srv).err(),
        Some(ProtocolError::UnexpectedMessage { expected: 10, found: 70 })
    );
    assert_eq!(srv.get(pkg.md5sum.clone()), None);
    let r = client::Offer::new().offer(pkg.clone(), pkg.clone().to_message_type());
    assert_eq!(r.err(), Some(ProtocolError::UnexpectedMessage { expected: 30, found: 10 }));
    let (acceptor, _) = server::Offer::new()
        .wait_for_mypkg(pkg.clone().to_message_type(), &mut srv)
        .unwrap();
    let r = acceptor.negotiate(MessageType::Done(blobfish::protocol::Done { md5sum: String::new() }));
    assert_eq!(r.err(), Some(ProtocolError::UnexpectedMessage { expected: 40, found: 100 }));
}

#[test]
fn peers_are_merged_once_each() {
    let pkg = package();
    let ack = MyPkgAck { md5sum: Some(pkg.md5sum.clone()), files: None };
    let offerer = client::Offer::new()
        .offer(pkg.clone(), ack.to_message_type())
        .unwrap()
        .add_peers(vec!["a:1".to_string(), "b:2".to_string()])
        .add_peers(vec!["a:1".to_string()]);
    assert_eq!(offerer.peers(), vec!["a:1".to_string(), "b:2".to_string()]);
    let reply = NegotiateMyPkgAck {
        md5sum: pkg.md5sum.clone(),
        peers: Some(vec!["c:3".to_string(), "b:2".to_string()]),
    };
    let ready = offerer.negotiate(reply.to_message_type()).unwrap();
    assert_eq!(
        ready.state.peers.to_vec(),
        vec!["a:1".to_string(), "b:2".to_string(), "c:3".to_string()]
    );

    let mut srv = Server::new(vec!["seed:9".to_string()]);
    let (acceptor, _) = server::Offer::new()
        .wait_for_mypkg(pkg.clone().to_message_type(), &mut srv)
        .unwrap();
    let acceptor = acceptor.add_peers(srv.seed_peers());
    assert_eq!(acceptor.peers(), vec!["seed:9".to_string()]);
    let request = NegotiateMyPkg { md5sum: "echo".to_string() };
    let (_, reply) = acceptor.negotiate(request.to_message_type()).unwrap();
    assert_eq!(reply.md5sum, "echo");
    assert_eq!(reply.peers, Some(vec!["seed:9".to_string()]));
}

#[test]
fn pieces_go_in_order_inside_the_window() {
    let pkg = package();
    let ack = MyPkgAck { md5sum: Some(pkg.md5sum.clone()), files: None };
    let reply = NegotiateMyPkgAck { md5sum: pkg.md5sum.clone(), peers: None };
    let mut offerer = client::Offer::new()
        .offer(pkg.clone(), ack.to_message_type())
        .unwrap()
        .negotiate(reply.to_message_type())
        .unwrap();
    assert_eq!(
        offerer.send(0, vec![]).err(),
        Some(ProtocolError::UnexpectedMessage { expected: 60, found: 80 })
    );
    offerer.exchange([2, 4], pkg.files[0].clone());
    assert_eq!(
        offerer.send(4, vec![]).err(),
        Some(ProtocolError::PieceOutOfBounds { piece: 4, start: 2, end: 4 })
    );
    assert_eq!(
        offerer.send(3, vec![]).err(),
        Some(ProtocolError::PieceOutOfOrder { expected_piece: 2, piece: 3 })
    );
    assert_eq!(offerer.send(2, vec![7]).unwrap().piece, 2);
    assert_eq!(offerer.send(3, vec![8]).unwrap().data, vec![8]);
    assert_eq!(
        offerer.exchange_ack(MessageType::PieceAck(blobfish::protocol::PieceAck { piece: 0 })).err(),
        Some(ProtocolError::UnexpectedMessage { expected: 70, found: 90 })
    );
}

#[test]
fn pieces_written_at_their_offsets_rebuild_the_file() {
    let content: Vec<u8> = (0..40000u32).map(|i| (i * 7 % 256) as u8).collect();
    let f = hash_file("some/dir/big.bin".to_string(), &content);
    let pkg = MyPkg::assemble("big".to_string(), vec![f.clone()], 1);
    let mut srv = Server::new(vec![]);
    let (acceptor, ack) = server::Offer::new()
        .wait_for_mypkg(pkg.clone().to_message_type(), &mut srv)
        .unwrap();
    let offerer = client::Offer::new().offer(pkg.clone(), ack.to_message_type()).unwrap();
    let (ready, reply) = acceptor.negotiate(offerer.negotiate_message().to_message_type()).unwrap();
    let mut offerer = offerer.negotiate(reply.to_message_type()).unwrap();
    let count = f.clone().chunk_count() as u64;
    assert_eq!(count, 3);
    let pe = offerer.exchange([0, count], f.clone());
    let (mut running, _) = ready.exchange(pe.to_message_type()).unwrap();
    let mut disk: Vec<u8> = Vec::new();
    for i in 0..count {
        let lo = (i as usize * 16384).min(content.len());
        let hi = ((i as usize + 1) * 16384).min(content.len());
        let piece = offerer.send(i, content[lo..hi].to_vec()).unwrap();
        let w = running.receive(piece.to_message_type()).unwrap();
        let off = w.offset as usize;
        if disk.len() < off + w.data.len() {
            disk.resize(off + w.data.len(), 0);
        }
        disk[off..off + w.data.len()].copy_from_slice(&w.data);
    }
    assert!(running.is_complete());
    assert_eq!(disk, content);
    assert_eq!(hash_file(running.destination(), &disk).md5sum, f.md5sum);
}
