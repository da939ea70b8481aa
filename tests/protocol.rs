use blobfish::protocol::{
    block_offset, hash_file, File, MessageKind, MessageType, MyPkg, PieceAck, ToMessageType,
};
use md5::Digest;

fn file(path: &str, length: u64) -> File {
    File { path: path.to_string(), length, md5sum: String::new() }
}

fn hex_md5(data: &[u8]) -> String {
    format!("{:x}", md5::Md5::digest(data))
}

#[test]
fn chunk_count_is_ceiling_with_minimum_one() {
    assert_eq!(file("a", 0).chunk_count(), 1);
    assert_eq!(file("a", 3).chunk_count(), 1);
    assert_eq!(file("a", 16384).chunk_count(), 1);
    assert_eq!(file("a", 16385).chunk_count(), 2);
    assert_eq!(file("a", 32768).chunk_count(), 2);
    assert_eq!(file("a", 32769).chunk_count(), 3);
    assert_eq!(file("a", 49152).chunk_count(), 3);
    assert_eq!(file("a", u64::MAX).chunk_count(), 1usize << 50);
}

#[test]
fn filename_is_final_component() {
    assert_eq!(file("src/fixtures/crushingit.gif", 0).filename(), "crushingit.gif");
    assert_eq!(file("plain.txt", 0).filename(), "plain.txt");
    assert_eq!(file("/abs/dir/", 0).filename(), "dir");
    assert_eq!(file("a/b/.", 0).filename(), "b");
    assert_eq!(file("a//b", 0).filename(), "b");
    assert_eq!(file("./x", 0).filename(), "x");
    assert_eq!(file("/", 0).filename(), "/");
    assert_eq!(file(".", 0).filename(), ".");
    assert_eq!(file("", 0).filename(), "");
    assert_eq!(file("a/..", 0).filename(), "a/..");
    assert_eq!(file("dir/ünï.txt", 0).filename(), "ünï.txt");
}

#[test]
fn hash_file_digests_content() {
    let f = hash_file("dir/abc.txt".to_string(), b"abc");
    assert_eq!(f.path, "dir/abc.txt");
    assert_eq!(f.length, 3);
    assert_eq!(f.md5sum, "900150983cd24fb0d6963f7d28e17f72");
    let empty = hash_file("e".to_string(), b"");
    assert_eq!(empty.length, 0);
    assert_eq!(empty.md5sum, "d41d8cd98f00b204e9800998ecf8427e");
}

#[test]
fn package_digest_is_md5_of_file_digests() {
    let f1 = hash_file("a/one".to_string(), b"abc");
    let f2 = hash_file("b/two".to_string(), b"hello world");
    let pkg = MyPkg::assemble("t".to_string(), vec![f1.clone(), f2.clone()], 1234);
    let concat = format!("{}{}", f1.md5sum, f2.md5sum);
    assert_eq!(pkg.md5sum, hex_md5(concat.as_bytes()));
    assert_eq!(pkg.name, "t");
    assert_eq!(pkg.built_on, 1234);
    assert_eq!(pkg.expires, None);
    assert_eq!(pkg.author, "Joe");
    assert_eq!(pkg.os, "macos");
    assert_eq!(pkg.arch, "arm64");
    assert_eq!(pkg.commit, "dirty");
    assert!(pkg.tags.is_empty());
    assert_eq!(pkg.files, vec![f1, f2]);
}

#[test]
fn package_of_no_files_digests_nothing() {
    let pkg = MyPkg::new("empty".to_string(), vec![]);
    assert_eq!(pkg.md5sum, "d41d8cd98f00b204e9800998ecf8427e");
    assert!(pkg.built_on > 0);
}

#[test]
fn block_offsets() {
    assert_eq!(block_offset(0), Some(0));
    assert_eq!(block_offset(3), Some(49152));
    assert_eq!(block_offset((1u64 << 50) - 1), Some(u64::MAX - 16383));
    assert_eq!(block_offset(1u64 << 50), None);
}

#[test]
fn message_codes() {
    let all = [
        (MessageKind::MyPkg, 10),
        (MessageKind::File, 20),
        (MessageKind::MyPkgAck, 30),
        (MessageKind::NegotiateMyPkg, 40),
        (MessageKind::NegotiateMyPkgAck, 50),
        (MessageKind::PieceExchange, 60),
        (MessageKind::PieceExchangeAck, 70),
        (MessageKind::Piece, 80),
        (MessageKind::PieceAck, 90),
        (MessageKind::Done, 100),
    ];
    for (kind, code) in all {
        assert_eq!(kind.code(), code);
        assert_eq!(MessageKind::from_code(code), Some(kind));
        assert!(MessageType::is_valid_message_type(code));
    }
    for bad in [0u16, 1, 11, 15, 99, 101, 110, 0xffff] {
        assert_eq!(MessageKind::from_code(bad), None);
        assert!(!MessageType::is_valid_message_type(bad));
    }
    let m = PieceAck { piece: 4 }.to_message_type();
    assert_eq!(m.message_type(), 90);
    assert_eq!(m.kind(), MessageKind::PieceAck);
    assert_eq!(file("x", 1).to_message_type().message_type(), 20);
}

#[test]
fn load_and_write_are_reserved() {
    MyPkg::load();
    MyPkg::write();
}
