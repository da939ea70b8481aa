//! Protocol constants, messages and file descriptors.
use vstd::prelude::*;
use vstd::string::*;
use vstd::utf8::encode_utf8;

verus! {

/// Size of one block of file content, and of the largest frame on the wire.
pub const BLOCK_SIZE: usize = 16384;

/// Bytes of the length prefix of a frame (a big-endian `u16`).
pub const MSG_SIZE: usize = 2;

/// Bytes of the message type of a frame (a big-endian `u16`).
pub const MSG_TYPE: usize = 2;

/// Bytes of a frame header.
pub const HEADER_SIZE: usize = MSG_SIZE + MSG_TYPE;

/// Largest payload that one frame carries.
pub const BLOCK_SIZE_LESS_HEADER: usize = BLOCK_SIZE - HEADER_SIZE;

/// Number of blocks of `BLOCK_SIZE` bytes that hold `length` bytes; an
/// empty file still takes one block.
pub open spec fn chunk_count_of(length: nat) -> nat {
    if length == 0 {
        1
    } else {
        ((length + BLOCK_SIZE - 1) as int / (BLOCK_SIZE as int)) as nat
    }
}

/// The codes that frames may carry.
pub open spec fn valid_message_type(t: u16) -> bool {
    t == 10 || t == 20 || t == 30 || t == 40 || t == 50 || t == 60 || t == 70 || t == 80
        || t == 90 || t == 100
}

/// The last component of a path seen as `/`-separated names, after dropping
/// empty names and `.` names at its end; empty when there is none.
pub open spec fn final_component(s: Seq<char>) -> Seq<char>
    decreases s.len(),
{
    if s.len() == 0 {
        s
    } else if s.last() == '/' {
        final_component(s.drop_last())
    } else if trailing_name(s) == seq!['.'] {
        final_component(s.drop_last())
    } else {
        trailing_name(s)
    }
}

/// The longest suffix of `s` without a `/`.
pub open spec fn trailing_name(s: Seq<char>) -> Seq<char>
    decreases s.len(),
{
    if s.len() == 0 || s.last() == '/' {
        Seq::empty()
    } else {
        trailing_name(s.drop_last()).push(s.last())
    }
}

/// The name a received file is stored under: the final component of the
/// path, or the whole path where it has none (no component, or `..`).
pub open spec fn filename_of(path: Seq<char>) -> Seq<char> {
    let c = final_component(path);
    if c.len() == 0 || c == seq!['.', '.'] {
        path
    } else {
        c
    }
}

/// The bytes a package digest is taken over: the files' digests, in order.
pub open spec fn digest_input(files: Seq<File>) -> Seq<u8>
    decreases files.len(),
{
    if files.len() == 0 {
        Seq::empty()
    } else {
        digest_input(files.drop_last()) + encode_utf8(files.last().md5sum@)
    }
}

/// The lowercase hex MD5 digest of `data`, as md-5 computes it.
pub uninterp spec fn md5_hex_of(data: Seq<u8>) -> Seq<char>;

/// Relies on md-5's `Md5::digest` and the lowercase hex formatting of its
/// output: the result is the hex MD5 digest of `data`.
#[verifier::external_body]
fn md5_hex(data: &[u8]) -> (r: String)
    ensures
        r@ == md5_hex_of(data@),
{
    let digest = <md5::Md5 as md5::Digest>::digest(data);
    format!("{:x}", digest)
}

/// Relies on chrono's `Utc::now` and `DateTime::timestamp_millis`: the wall
/// clock in milliseconds since the Unix epoch; nothing is known of its value.
#[verifier::external_body]
fn now_millis() -> (r: i64) {
    chrono::Utc::now().timestamp_millis()
}

/// An offer: a named set of files, identified by the digest of their digests.
#[derive(Debug, PartialEq, Eq)]
pub struct MyPkg {
    pub name: String,
    /// MD5 of the concatenated digests of `files`, in order.
    pub md5sum: String,
    pub author: String,
    /// Milliseconds since the Unix epoch when the package was built.
    pub built_on: i64,
    pub expires: Option<i64>,
    pub os: String,
    pub arch: String,
    pub tags: Vec<String>,
    pub commit: String,
    pub files: Vec<File>,
}

impl Clone for MyPkg {
    fn clone(&self) -> (r: Self)
        ensures
            r.name == self.name,
            r.md5sum == self.md5sum,
            r.author == self.author,
            r.built_on == self.built_on,
            r.expires == self.expires,
            r.os == self.os,
            r.arch == self.arch,
            r.tags@ == self.tags@,
            r.commit == self.commit,
            r.files@ == self.files@,
    {
        MyPkg {
            name: self.name.clone(),
            md5sum: self.md5sum.clone(),
            author: self.author.clone(),
            built_on: self.built_on,
            expires: self.expires,
            os: self.os.clone(),
            arch: self.arch.clone(),
            tags: clone_strings(&self.tags),
            commit: self.commit.clone(),
            files: clone_files(&self.files),
        }
    }
}

/// A copy of a list of strings.
pub fn clone_strings(v: &Vec<String>) -> (r: Vec<String>)
    ensures
        r@ == v@,
{
    let mut r: Vec<String> = Vec::new();
    let mut i: usize = 0;
    while i < v.len()
        invariant
            i <= v.len(),
            r@ == v@.take(i as int),
        decreases v.len() - i,
    {
        r.push(v[i].clone());
        i = i + 1;
        assert(r@ =~= v@.take(i as int));
    }
    assert(r@ =~= v@);
    r
}

/// A copy of a list of files.
pub fn clone_files(v: &Vec<File>) -> (r: Vec<File>)
    ensures
        r@ == v@,
{
    let mut r: Vec<File> = Vec::new();
    let mut i: usize = 0;
    while i < v.len()
        invariant
            i <= v.len(),
            r@ == v@.take(i as int),
        decreases v.len() - i,
    {
        r.push(v[i].clone());
        i = i + 1;
        assert(r@ =~= v@.take(i as int));
    }
    assert(r@ =~= v@);
    r
}

impl MyPkg {
    /// The package of `files` under `name`, stamped with the current time.
    pub fn new(name: String, files: Vec<File>) -> (r: MyPkg)
        requires
            digest_input(files@).len() <= usize::MAX,
        ensures
            r.name == name,
            r.files@ == files@,
            r.md5sum@ == md5_hex_of(digest_input(files@)),
            r.expires.is_none(),
            r.author@ == seq!['J', 'o', 'e'],
            r.os@ == seq!['m', 'a', 'c', 'o', 's'],
            r.arch@ == seq!['a', 'r', 'm', '6', '4'],
            r.commit@ == seq!['d', 'i', 'r', 't', 'y'],
            r.tags@.len() == 0,
    {
        let built_on = now_millis();
        MyPkg::assemble(name, files, built_on)
    }

    /// The package of `files` under `name`, built at `built_on`; its digest is
    /// the MD5 of the files' digests, concatenated in order.
    pub fn assemble(name: String, files: Vec<File>, built_on: i64) -> (r: MyPkg)
        requires
            digest_input(files@).len() <= usize::MAX,
        ensures
            r.name == name,
            r.files@ == files@,
            r.md5sum@ == md5_hex_of(digest_input(files@)),
            r.built_on == built_on,
            r.expires.is_none(),
            r.author@ == seq!['J', 'o', 'e'],
            r.os@ == seq!['m', 'a', 'c', 'o', 's'],
            r.arch@ == seq!['a', 'r', 'm', '6', '4'],
            r.commit@ == seq!['d', 'i', 'r', 't', 'y'],
            r.tags@.len() == 0,
    {
        let input = package_digest_input(&files);
        let md5sum = md5_hex(input.as_slice());
        proof {
            reveal_strlit("Joe");
            reveal_strlit("macos");
            reveal_strlit("arm64");
            reveal_strlit("dirty");
        }
        let author = "Joe".to_owned();
        let os = "macos".to_owned();
        let arch = "arm64".to_owned();
        let commit = "dirty".to_owned();
        assert(author@ =~= seq!['J', 'o', 'e']);
        assert(os@ =~= seq!['m', 'a', 'c', 'o', 's']);
        assert(arch@ =~= seq!['a', 'r', 'm', '6', '4']);
        assert(commit@ =~= seq!['d', 'i', 'r', 't', 'y']);
        MyPkg {
            name,
            md5sum,
            author,
            built_on,
            expires: None,
            os,
            arch,
            tags: Vec::new(),
            commit,
            files,
        }
    }

    /// Reserved for loading a package description; does nothing yet.
    pub fn load() {
    }

    /// Reserved for storing a package description; does nothing yet.
    pub fn write() {
    }
}

/// The files' digests concatenated in order, as bytes.
pub fn package_digest_input(files: &Vec<File>) -> (r: Vec<u8>)
    requires
        digest_input(files@).len() <= usize::MAX,
    ensures
        r@ == digest_input(files@),
{
    let mut out: Vec<u8> = Vec::new();
    let mut i: usize = 0;
    while i < files.len()
        invariant
            i <= files.len(),
            digest_input(files@).len() <= usize::MAX,
            out@ == digest_input(files@.take(i as int)),
        decreases files.len() - i,
    {
        let bytes = files[i].md5sum.as_str().as_bytes();
        proof {
            assert(files@.take(i as int + 1).drop_last() =~= files@.take(i as int));
            lemma_digest_input_prefix(files@, i as int + 1);
        }
        let mut j: usize = 0;
        let ghost before = out@;
        while j < bytes.len()
            invariant
                j <= bytes@.len(),
                bytes@ == encode_utf8(files@[i as int].md5sum@),
                before.len() + bytes@.len() <= usize::MAX,
                out@ == before + bytes@.take(j as int),
            decreases bytes.len() - j,
        {
            out.push(bytes[j]);
            j = j + 1;
            assert(out@ =~= before + bytes@.take(j as int));
        }
        assert(bytes@.take(j as int) =~= bytes@);
        i = i + 1;
    }
    assert(files@.take(i as int) =~= files@);
    out
}

/// A prefix's digest input is no longer than the whole one's.
proof fn lemma_digest_input_prefix(files: Seq<File>, n: int)
    requires
        0 <= n <= files.len(),
    ensures
        digest_input(files.take(n)).len() <= digest_input(files).len(),
        n > 0 ==> digest_input(files.take(n)) == digest_input(files.take(n - 1)) + encode_utf8(
            files[n - 1].md5sum@,
        ),
    decreases files.len() - n,
{
    if n > 0 {
        assert(files.take(n).drop_last() =~= files.take(n - 1));
    }
    if n < files.len() {
        lemma_digest_input_prefix(files, n + 1);
        assert(files.take(n + 1).drop_last() =~= files.take(n));
    } else {
        assert(files.take(n) =~= files);
    }
}

/// A single file of a package.
#[derive(Debug, PartialEq, Eq)]
pub struct File {
    /// On the offering side a path on disk, on the accepting side a label.
    pub path: String,
    /// Length of the content in bytes.
    pub length: u64,
    /// Lowercase hex MD5 digest of the content.
    pub md5sum: String,
}

impl Clone for File {
    fn clone(&self) -> (r: Self)
        ensures
            r == *self,
    {
        File { path: self.path.clone(), length: self.length, md5sum: self.md5sum.clone() }
    }
}

/// The descriptor of the file at `path` whose content is `content`.
pub fn hash_file(path: String, content: &[u8]) -> (r: File)
    ensures
        r.path == path,
        r.length == content@.len(),
        r.md5sum@ == md5_hex_of(content@),
{
    let md5sum = md5_hex(content);
    File { path, length: content.len() as u64, md5sum }
}

impl File {
    /// The name the file is stored under: its path's final component.
    pub fn filename(&self) -> (r: String)
        ensures
            r@ == filename_of(self.path@),
    {
        let s: &str = self.path.as_str();
        let n = s.unicode_len();
        let mut end: usize = n;
        assert(s@.take(n as int) =~= s@);
        loop
            invariant
                s@ == self.path@,
                n == s@.len(),
                end <= n,
                final_component(s@) == final_component(s@.take(end as int)),
            decreases end,
        {
            if end == 0 {
                assert(final_component(s@.take(0)).len() == 0);
                return self.path.clone();
            }
            if s.get_char(end - 1) == '/' {
                assert(s@.take(end as int).drop_last() =~= s@.take(end - 1));
                end = end - 1;
            } else {
                let mut k: usize = end;
                while k > 0 && s.get_char(k - 1) != '/'
                    invariant
                        s@ == self.path@,
                        n == s@.len(),
                        k <= end <= n,
                        trailing_name(s@.take(end as int)) == trailing_name(s@.take(k as int))
                            + s@.subrange(k as int, end as int),
                    decreases k,
                {
                    assert(s@.take(k as int).drop_last() =~= s@.take(k - 1));
                    assert(s@.subrange(k - 1, end as int) =~= seq![s@[k - 1]] + s@.subrange(
                        k as int,
                        end as int,
                    ));
                    k = k - 1;
                }
                assert(trailing_name(s@.take(k as int)) =~= Seq::<char>::empty());
                let ghost name = s@.subrange(k as int, end as int);
                assert(trailing_name(s@.take(end as int)) =~= name);
                if end - k == 1 && s.get_char(k) == '.' {
                    assert(name =~= seq!['.']);
                    assert(s@.take(end as int).drop_last() =~= s@.take(k as int));
                    end = k;
                } else {
                    if end - k == 2 && s.get_char(k) == '.' && s.get_char(k + 1) == '.' {
                        assert(name =~= seq!['.', '.']);
                        return self.path.clone();
                    }
                    assert(name != seq!['.']) by {
                        if name =~= seq!['.'] {
                            assert(name[0] == s@[k as int]);
                        }
                    }
                    assert(name != seq!['.', '.']) by {
                        if name =~= seq!['.', '.'] {
                            assert(name[0] == s@[k as int]);
                            assert(name[1] == s@[k + 1]);
                        }
                    }
                    return s.substring_char(k, end).to_owned();
                }
            }
        }
    }

    /// Number of pieces that the file is sent in: `max(1, ⌈length / BLOCK_SIZE⌉)`.
    pub fn chunk_count(self) -> (r: usize)
        requires
            chunk_count_of(self.length as nat) <= usize::MAX,
        ensures
            r == chunk_count_of(self.length as nat),
    {
        let block_size: u64 = BLOCK_SIZE as u64;
        let mut s: u64 = self.length / block_size;
        if self.length % block_size != 0 {
            s = s + 1;
        }
        if s == 0 {
            return 1;
        }
        s as usize
    }
}

/// Byte offset of piece `piece` in its file, where it fits in a `u64`.
pub open spec fn block_offset_of(piece: u64) -> int {
    piece as int * BLOCK_SIZE as int
}

/// Byte offset of piece `piece` in its file; `None` where it exceeds `u64`.
pub fn block_offset(piece: u64) -> (r: Option<u64>)
    ensures
        block_offset_of(piece) <= u64::MAX ==> r == Some(block_offset_of(piece) as u64),
        block_offset_of(piece) > u64::MAX ==> r.is_none(),
{
    piece.checked_mul(BLOCK_SIZE as u64)
}

/// The acceptor's answer to an offer.
///
/// Both fields absent: not interested. A digest with an empty file list: the
/// package is already held. A digest without a file list: send the files.
#[derive(Debug, PartialEq, Eq)]
pub struct MyPkgAck {
    pub md5sum: Option<String>,
    pub files: Option<Vec<File>>,
}

/// Whether `ack` declines the offer: it holds neither a digest nor files.
pub open spec fn is_rejection(ack: MyPkgAck) -> bool {
    ack.md5sum.is_none() && ack.files.is_none()
}

/// Whether `ack` accepts the package as one already held: no file is needed.
pub open spec fn is_cached_ack(ack: MyPkgAck) -> bool {
    ack.files.is_some() && ack.files.unwrap()@.len() == 0
}

/// The content of an answer to an offer.
pub open spec fn ack_view(a: MyPkgAck) -> (Option<String>, Option<Seq<File>>) {
    (
        a.md5sum,
        match a.files {
            Some(v) => Some(v@),
            None => None,
        },
    )
}

impl Clone for MyPkgAck {
    fn clone(&self) -> (r: Self)
        ensures
            ack_view(r) == ack_view(*self),
    {
        let files = match &self.files {
            Some(v) => Some(clone_files(v)),
            None => None,
        };
        MyPkgAck { md5sum: self.md5sum.clone(), files }
    }
}

/// Opens negotiation about the package with digest `md5sum`.
#[derive(Debug, PartialEq, Eq)]
pub struct NegotiateMyPkg {
    pub md5sum: String,
}

/// Answer to a negotiation: the digest echoed, with the acceptor's peers.
#[derive(Debug, PartialEq, Eq)]
pub struct NegotiateMyPkgAck {
    pub md5sum: String,
    pub peers: Option<Vec<String>>,
}

/// Announces that pieces `[pieces[0], pieces[1])` of `file` follow.
#[derive(Debug, PartialEq, Eq)]
pub struct PieceExchange {
    pub pieces: [u64; 2],
    pub file: File,
}

/// Answer to a piece exchange; `pieces` is reserved for resuming and is `None`.
#[derive(Debug, PartialEq, Eq)]
pub struct PieceExchangeAck {
    pub pieces: Option<[u64; 2]>,
}

/// One block of file content.
#[derive(Debug, PartialEq, Eq)]
pub struct Piece {
    /// Index of the block in its file.
    pub piece: u64,
    /// Asks for an acknowledgement when present.
    pub ack: Option<u64>,
    pub data: Vec<u8>,
}

/// The last piece up to which all pieces arrived in order.
#[derive(Clone, Copy, Debug, PartialEq, Eq)]
pub struct PieceAck {
    pub piece: u64,
}

/// Ends the transfer of the package with digest `md5sum`.
#[derive(Debug, PartialEq, Eq)]
pub struct Done {
    pub md5sum: String,
}

/// The kind of a message, which fixes the type code of its frames.
#[derive(Clone, Copy, Debug, PartialEq, Eq, Structural)]
pub enum MessageKind {
    MyPkg,
    File,
    MyPkgAck,
    NegotiateMyPkg,
    NegotiateMyPkgAck,
    PieceExchange,
    PieceExchangeAck,
    Piece,
    PieceAck,
    Done,
}

/// The type code that frames of a message of kind `k` carry.
pub open spec fn code_of(k: MessageKind) -> u16 {
    match k {
        MessageKind::MyPkg => 10,
        MessageKind::File => 20,
        MessageKind::MyPkgAck => 30,
        MessageKind::NegotiateMyPkg => 40,
        MessageKind::NegotiateMyPkgAck => 50,
        MessageKind::PieceExchange => 60,
        MessageKind::PieceExchangeAck => 70,
        MessageKind::Piece => 80,
        MessageKind::PieceAck => 90,
        MessageKind::Done => 100,
    }
}

impl MessageKind {
    /// The type code of this kind.
    pub fn code(&self) -> (r: u16)
        ensures
            r == code_of(*self),
            valid_message_type(r),
    {
        match self {
            MessageKind::MyPkg => 10,
            MessageKind::File => 20,
            MessageKind::MyPkgAck => 30,
            MessageKind::NegotiateMyPkg => 40,
            MessageKind::NegotiateMyPkgAck => 50,
            MessageKind::PieceExchange => 60,
            MessageKind::PieceExchangeAck => 70,
            MessageKind::Piece => 80,
            MessageKind::PieceAck => 90,
            MessageKind::Done => 100,
        }
    }

    /// The kind whose type code is `v`, if any.
    pub fn from_code(v: u16) -> (r: Option<MessageKind>)
        ensures
            r.is_some() == valid_message_type(v),
            r.is_some() ==> code_of(r.unwrap()) == v,
    {
        match v {
            10 => Some(MessageKind::MyPkg),
            20 => Some(MessageKind::File),
            30 => Some(MessageKind::MyPkgAck),
            40 => Some(MessageKind::NegotiateMyPkg),
            50 => Some(MessageKind::NegotiateMyPkgAck),
            60 => Some(MessageKind::PieceExchange),
            70 => Some(MessageKind::PieceExchangeAck),
            80 => Some(MessageKind::Piece),
            90 => Some(MessageKind::PieceAck),
            100 => Some(MessageKind::Done),
            _ => None,
        }
    }
}

/// Any protocol message.
#[derive(Debug, PartialEq, Eq)]
pub enum MessageType {
    MyPkg(MyPkg),
    File(File),
    MyPkgAck(MyPkgAck),
    NegotiateMyPkg(NegotiateMyPkg),
    NegotiateMyPkgAck(NegotiateMyPkgAck),
    PieceExchange(PieceExchange),
    PieceExchangeAck(PieceExchangeAck),
    Piece(Piece),
    PieceAck(PieceAck),
    Done(Done),
}

/// The kind of message `m`.
pub open spec fn kind_of(m: MessageType) -> MessageKind {
    match m {
        MessageType::MyPkg(_) => MessageKind::MyPkg,
        MessageType::File(_) => MessageKind::File,
        MessageType::MyPkgAck(_) => MessageKind::MyPkgAck,
        MessageType::NegotiateMyPkg(_) => MessageKind::NegotiateMyPkg,
        MessageType::NegotiateMyPkgAck(_) => MessageKind::NegotiateMyPkgAck,
        MessageType::PieceExchange(_) => MessageKind::PieceExchange,
        MessageType::PieceExchangeAck(_) => MessageKind::PieceExchangeAck,
        MessageType::Piece(_) => MessageKind::Piece,
        MessageType::PieceAck(_) => MessageKind::PieceAck,
        MessageType::Done(_) => MessageKind::Done,
    }
}

impl MessageType {
    /// Whether `value` is the type code of some message.
    pub fn is_valid_message_type(value: u16) -> (r: bool)
        ensures
            r == valid_message_type(value),
    {
        value == 10 || value == 20 || value == 30 || value == 40 || value == 50 || value == 60
            || value == 70 || value == 80 || value == 90 || value == 100
    }

    /// The kind of this message.
    pub fn kind(&self) -> (r: MessageKind)
        ensures
            r == kind_of(*self),
    {
        match self {
            MessageType::MyPkg(_) => MessageKind::MyPkg,
            MessageType::File(_) => MessageKind::File,
            MessageType::MyPkgAck(_) => MessageKind::MyPkgAck,
            MessageType::NegotiateMyPkg(_) => MessageKind::NegotiateMyPkg,
            MessageType::NegotiateMyPkgAck(_) => MessageKind::NegotiateMyPkgAck,
            MessageType::PieceExchange(_) => MessageKind::PieceExchange,
            MessageType::PieceExchangeAck(_) => MessageKind::PieceExchangeAck,
            MessageType::Piece(_) => MessageKind::Piece,
            MessageType::PieceAck(_) => MessageKind::PieceAck,
            MessageType::Done(_) => MessageKind::Done,
        }
    }

    /// The type code that this message's frames carry.
    pub fn message_type(&self) -> (r: u16)
        ensures
            r == code_of(kind_of(*self)),
            valid_message_type(r),
    {
        self.kind().code()
    }
}

/// Wraps a message body into a `MessageType`.
pub trait ToMessageType: Sized {
    /// The message that wraps `self`.
    spec fn as_message(self) -> MessageType;

    fn to_message_type(self) -> (r: MessageType)
        ensures
            r == self.as_message(),
    ;
}

impl ToMessageType for MyPkg {
    open spec fn as_message(self) -> MessageType {
        MessageType::MyPkg(self)
    }

    fn to_message_type(self) -> (r: MessageType) {
        MessageType::MyPkg(self)
    }
}

impl ToMessageType for File {
    open spec fn as_message(self) -> MessageType {
        MessageType::File(self)
    }

    fn to_message_type(self) -> (r: MessageType) {
        MessageType::File(self)
    }
}

impl ToMessageType for MyPkgAck {
    open spec fn as_message(self) -> MessageType {
        MessageType::MyPkgAck(self)
    }

    fn to_message_type(self) -> (r: MessageType) {
        MessageType::MyPkgAck(self)
    }
}

impl ToMessageType for NegotiateMyPkg {
    open spec fn as_message(self) -> MessageType {
        MessageType::NegotiateMyPkg(self)
    }

    fn to_message_type(self) -> (r: MessageType) {
        MessageType::NegotiateMyPkg(self)
    }
}

impl ToMessageType for NegotiateMyPkgAck {
    open spec fn as_message(self) -> MessageType {
        MessageType::NegotiateMyPkgAck(self)
    }

    fn to_message_type(self) -> (r: MessageType) {
        MessageType::NegotiateMyPkgAck(self)
    }
}

impl ToMessageType for PieceExchange {
    open spec fn as_message(self) -> MessageType {
        MessageType::PieceExchange(self)
    }

    fn to_message_type(self) -> (r: MessageType) {
        MessageType::PieceExchange(self)
    }
}

impl ToMessageType for PieceExchangeAck {
    open spec fn as_message(self) -> MessageType {
        MessageType::PieceExchangeAck(self)
    }

    fn to_message_type(self) -> (r: MessageType) {
        MessageType::PieceExchangeAck(self)
    }
}

impl ToMessageType for Piece {
    open spec fn as_message(self) -> MessageType {
        MessageType::Piece(self)
    }

    fn to_message_type(self) -> (r: MessageType) {
        MessageType::Piece(self)
    }
}

impl ToMessageType for PieceAck {
    open spec fn as_message(self) -> MessageType {
        MessageType::PieceAck(self)
    }

    fn to_message_type(self) -> (r: MessageType) {
        MessageType::PieceAck(self)
    }
}

impl ToMessageType for Done {
    open spec fn as_message(self) -> MessageType {
        MessageType::Done(self)
    }

    fn to_message_type(self) -> (r: MessageType) {
        MessageType::Done(self)
    }
}

} // verus!
