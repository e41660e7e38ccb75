//! Decisions that the game server takes around its requests and its game
//! connections.

use vstd::prelude::*;
use crate::board::{in_board, piece_at, push_char, well_formed, Board, BoardView};
use crate::chess_move::ChessMove;
use crate::net::{ChessEvent, ClientMessage};
use crate::piece::Color;
use crate::rules::{keeps_form, legal, lookahead_safe, playable};

verus! {

/// The kinds of failure of a server request.
#[derive(Debug, Clone, Copy, PartialEq, Eq, Structural)]
pub enum ErrorKind {
    Sqlx,
    Io,
    Jwt,
    Serde,
    NotFound,
    Unauthorized,
    Rejected,
    Gone,
}

/// The HTTP status that answers a failure.
pub open spec fn status_of(e: ErrorKind) -> u16 {
    match e {
        ErrorKind::NotFound => 404,
        ErrorKind::Gone => 410,
        ErrorKind::Unauthorized => 401,
        _ => 500,
    }
}

impl ErrorKind {
    /// The HTTP status that answers the failure: not found, gone and
    /// unauthorized have their own; every other failure is an internal
    /// server error.
    pub fn status(&self) -> (r: u16)
        ensures
            r == status_of(*self),
    {
        match self {
            ErrorKind::NotFound => 404,
            ErrorKind::Gone => 410,
            ErrorKind::Unauthorized => 401,
            _ => 500,
        }
    }
}

/// The number of game connections the server keeps open at most.
pub const WEBSOCKET_CAP: usize = 10000;

/// Whether a new game connection is admitted, given the number of
/// connections counted before it.
pub fn admit_connection(previous: usize) -> (r: bool)
    ensures
        r == (previous < WEBSOCKET_CAP),
{
    previous < WEBSOCKET_CAP
}

/// The letters of room entry codes.
pub open spec fn code_charset() -> Seq<char> {
    seq![
        'b', 'c', 'd', 'f', 'g', 'h', 'j', 'k', 'l', 'm', 'n', 'p', 'q', 'r', 's', 't', 'v', 'w', 'x',
        'y', 'z', '2', '3', '4', '5', '6', '7', '8', '9',
    ]
}

/// The entry code that five random bytes give: each byte picks a letter of
/// the charset, modulo its length.
pub open spec fn code_of(bytes: Seq<u8>) -> Seq<char> {
    Seq::new(bytes.len(), |i: int| code_charset()[(bytes[i] % 29) as int])
}

/// The entry code of a room from random bytes.
pub fn room_code(bytes: &[u8]) -> (r: String)
    ensures
        r@ == code_of(bytes@),
{
    let charset: [char; 29] = [
        'b', 'c', 'd', 'f', 'g', 'h', 'j', 'k', 'l', 'm', 'n', 'p', 'q', 'r', 's', 't', 'v', 'w', 'x',
        'y', 'z', '2', '3', '4', '5', '6', '7', '8', '9',
    ];
    assert(charset@ =~= code_charset());
    let mut code = String::new();
    let mut i: usize = 0;
    while i < bytes.len()
        invariant
            0 <= i <= bytes@.len(),
            charset@ == code_charset(),
            code@ == Seq::new(i as nat, |j: int| code_charset()[(bytes@[j] % 29) as int]),
        decreases bytes@.len() - i,
    {
        let c = charset[(bytes[i] % 29) as usize];
        push_char(&mut code, c);
        assert(code@ =~= Seq::new((i + 1) as nat, |j: int| code_charset()[(bytes@[j] % 29) as int]));
        i = i + 1;
    }
    code
}

/// `rand::random_iter` (thread-local generator), cut to `n` items: `n`
/// random bytes. Which bytes come out is left unsaid; the iterator never
/// ends, so there are `n` of them.
#[verifier::external_body]
fn random_bytes(n: usize) -> (r: Vec<u8>)
    ensures
        r@.len() == n,
{
    rand::random_iter::<u8>().take(n).collect()
}

/// The address, as text, that `client_ip::x_real_ip` reads from the values
/// of a request's `X-Real-Ip` header (`None` where it finds none).
pub uninterp spec fn real_ip_of(values: Seq<Seq<u8>>) -> Option<Seq<u8>>;

/// `client_ip::x_real_ip`, on a header map that holds the given values of
/// the `X-Real-Ip` header: the address it parses, written as text. The
/// crate takes a header that occurs exactly once, trimmed, and fails on an
/// absent, repeated, non-ASCII or malformed one; a value that is no valid
/// header value gives `None` too.
#[verifier::external_body]
fn real_ip(values: &Vec<Vec<u8>>) -> (r: Option<Vec<u8>>)
    ensures
        r matches Some(ip) ==> real_ip_of(values.deep_view()) == Some(ip@),
        r is None ==> real_ip_of(values.deep_view()) is None,
{
    let mut map = axum::http::HeaderMap::new();
    for v in values.iter() {
        match axum::http::HeaderValue::from_bytes(v) {
            Ok(h) => map.append("x-real-ip", h),
            Err(_) => return None,
        };
    }
    client_ip::x_real_ip(&map).ok().map(|ip| ip.to_string().into_bytes())
}

/// The offset basis of the 64-bit FNV-1a hash.
pub const FNV_OFFSET: u64 = 0xcbf29ce484222325;

/// The prime of the 64-bit FNV-1a hash.
pub const FNV_PRIME: u64 = 0x100000001b3;

/// One step of FNV-1a: the byte is mixed in, then the state is multiplied
/// by the prime, modulo 2^64.
pub open spec fn fnv_step(h: u64, b: u8) -> u64 {
    (h ^ (b as u64)).wrapping_mul(FNV_PRIME)
}

/// The 64-bit FNV-1a hash of `bytes`, from the state `h`.
pub open spec fn fnv(h: u64, bytes: Seq<u8>) -> u64
    decreases bytes.len(),
{
    if bytes.len() == 0 {
        h
    } else {
        fnv_step(fnv(h, bytes.drop_last()), bytes.last())
    }
}

/// What is hashed to key a creator: its address (as text), a byte `0xff`
/// that no address text holds, then the secret.
pub open spec fn obscured_bytes(ip: Seq<u8>, secret: Seq<u8>) -> Seq<u8> {
    ip + seq![0xffu8] + secret
}

/// The key of a creator with address `ip`: the FNV-1a hash of the address
/// and the secret, read as an `i64`.
pub open spec fn obscured_hash_of(ip: Seq<u8>, secret: Seq<u8>) -> i64 {
    fnv(FNV_OFFSET, obscured_bytes(ip, secret)) as i64
}

/// The bytes that key a creator (see `obscured_bytes`).
fn obscured_input(ip: &[u8], secret: &[u8]) -> (r: Vec<u8>)
    ensures
        r@ == obscured_bytes(ip@, secret@),
{
    let mut r: Vec<u8> = Vec::new();
    let mut i: usize = 0;
    while i < ip.len()
        invariant
            0 <= i <= ip@.len(),
            r@ == ip@.subrange(0, i as int),
        decreases ip@.len() - i,
    {
        r.push(ip[i]);
        assert(r@ =~= ip@.subrange(0, i + 1));
        i = i + 1;
    }
    r.push(0xff);
    let mut j: usize = 0;
    while j < secret.len()
        invariant
            0 <= j <= secret@.len(),
            r@ == ip@ + seq![0xffu8] + secret@.subrange(0, j as int),
        decreases secret@.len() - j,
    {
        r.push(secret[j]);
        assert(r@ =~= ip@ + seq![0xffu8] + secret@.subrange(0, j + 1));
        j = j + 1;
    }
    assert(secret@.subrange(0, secret@.len() as int) =~= secret@);
    r
}

/// The 64-bit FNV-1a hash of `bytes`.
fn fnv_hash(bytes: &[u8]) -> (r: u64)
    ensures
        r == fnv(FNV_OFFSET, bytes@),
{
    let mut h: u64 = FNV_OFFSET;
    let mut i: usize = 0;
    while i < bytes.len()
        invariant
            0 <= i <= bytes@.len(),
            h == fnv(FNV_OFFSET, bytes@.subrange(0, i as int)),
        decreases bytes@.len() - i,
    {
        assert(bytes@.subrange(0, i + 1).drop_last() =~= bytes@.subrange(0, i as int));
        h = (h ^ (bytes[i] as u64)).wrapping_mul(FNV_PRIME);
        i = i + 1;
    }
    assert(bytes@.subrange(0, bytes@.len() as int) =~= bytes@);
    h
}

/// The key of a creator with the address `ip` (see `obscured_hash_of`).
pub fn obscured_hash(ip: &[u8], secret: &[u8]) -> (r: i64)
    ensures
        r == obscured_hash_of(ip@, secret@),
{
    let input = obscured_input(ip, secret);
    fnv_hash(input.as_slice()) as i64
}

/// The key under which the rooms that a client creates are counted: the
/// hash of its address with the secret, if the request names one.
pub open spec fn creator_key_of(values: Seq<Seq<u8>>, secret: Seq<u8>) -> Option<i64> {
    match real_ip_of(values) {
        Some(ip) => Some(obscured_hash_of(ip, secret)),
        None => None,
    }
}

/// The key under which the rooms that the client behind a request creates
/// are counted, from the values of the request's `X-Real-Ip` header.
pub fn creator_key(x_real_ip: &Vec<Vec<u8>>, secret: &[u8]) -> (r: Option<i64>)
    ensures
        r == creator_key_of(x_real_ip.deep_view(), secret@),
{
    match real_ip(x_real_ip) {
        Some(ip) => Some(obscured_hash(ip.as_slice(), secret)),
        None => None,
    }
}

/// The number of letters of a room's entry code.
pub const CODE_LEN: usize = 5;

/// A fresh entry code for a room: five letters of the charset, drawn at
/// random.
pub fn new_room_code() -> (r: String)
    ensures
        r@.len() == CODE_LEN,
        forall|i: int| 0 <= i < r@.len() ==> code_charset().contains(#[trigger] r@[i]),
        exists|bytes: Seq<u8>| bytes.len() == CODE_LEN && r@ == code_of(bytes),
{
    let bytes = random_bytes(CODE_LEN);
    let r = room_code(&bytes);
    proof {
        assert forall|i: int| 0 <= i < r@.len() implies code_charset().contains(#[trigger] r@[i]) by {
            let k = (bytes@[i] % 29) as int;
            assert(0 <= k < 29);
            assert(code_charset()[k] == r@[i]);
        }
    }
    r
}

/// The index of the first space in `s`, if any.
pub open spec fn first_space(s: Seq<u8>) -> Option<int> {
    if exists|i: int| 0 <= i < s.len() && s[i] == 32 {
        Some(choose|i: int| 0 <= i < s.len() && s[i] == 32 && forall|j: int| 0 <= j < i ==> s[j] != 32)
    } else {
        None
    }
}

/// The index of the first space of a header value.
fn find_space(s: &[u8]) -> (r: Option<usize>)
    ensures
        match r {
            Some(i) => i < s@.len() && s@[i as int] == 32 && forall|j: int| 0 <= j < i ==> s@[j] != 32,
            None => forall|j: int| 0 <= j < s@.len() ==> s@[j] != 32,
        },
{
    let mut i: usize = 0;
    while i < s.len()
        invariant
            0 <= i <= s@.len(),
            forall|j: int| 0 <= j < i ==> s@[j] != 32,
        decreases s@.len() - i,
    {
        if s[i] == 32 {
            return Some(i);
        }
        i = i + 1;
    }
    None
}

/// The bytes of `s` from `start` on.
fn tail_from(s: &[u8], start: usize) -> (r: Vec<u8>)
    requires
        start <= s@.len(),
    ensures
        r@ == s@.subrange(start as int, s@.len() as int),
{
    let mut r: Vec<u8> = Vec::new();
    let mut i = start;
    while i < s.len()
        invariant
            start <= i <= s@.len(),
            r@ == s@.subrange(start as int, i as int),
        decreases s@.len() - i,
    {
        r.push(s[i]);
        assert(r@ =~= s@.subrange(start as int, i + 1));
        i = i + 1;
    }
    r
}

/// Whether two byte strings are equal.
fn same_bytes(a: &[u8], b: &[u8]) -> (r: bool)
    ensures
        r == (a@ == b@),
{
    if a.len() != b.len() {
        return false;
    }
    let mut i: usize = 0;
    while i < a.len()
        invariant
            0 <= i <= a@.len(),
            a@.len() == b@.len(),
            forall|j: int| 0 <= j < i ==> a@[j] == b@[j],
        decreases a@.len() - i,
    {
        if a[i] != b[i] {
            return false;
        }
        i = i + 1;
    }
    assert(a@ =~= b@);
    true
}

/// The word `Bearer`.
pub open spec fn bearer_word() -> Seq<u8> {
    seq![66u8, 101u8, 97u8, 114u8, 101u8, 114u8]
}

/// The token of an `Authorization` header value of the form
/// `Bearer <token>`: the value is split at its first space, the part before
/// must be `Bearer`, and the token is the rest.
pub open spec fn bearer_token_of(value: Seq<u8>) -> Option<Seq<u8>> {
    match first_space(value) {
        Some(i) => if value.subrange(0, i) == bearer_word() {
            Some(value.subrange(i + 1, value.len() as int))
        } else {
            None
        },
        None => None,
    }
}

proof fn lemma_first_space(s: Seq<u8>, i: int)
    requires
        0 <= i < s.len(),
        s[i] == 32,
        forall|j: int| 0 <= j < i ==> s[j] != 32,
    ensures
        first_space(s) == Some(i),
{
    let k = choose|k: int| 0 <= k < s.len() && s[k] == 32 && forall|j: int| 0 <= j < k ==> s[j] != 32;
    if k < i {
        assert(s[k] != 32);
    }
    if i < k {
        assert(s[i] != 32);
    }
}

/// The token of an `Authorization` header value, if it reads
/// `Bearer <token>`.
pub fn bearer_token(value: &[u8]) -> (r: Option<Vec<u8>>)
    ensures
        match r {
            Some(t) => bearer_token_of(value@) == Some(t@),
            None => bearer_token_of(value@) is None,
        },
{
    match find_space(value) {
        Some(i) => {
            proof {
                lemma_first_space(value@, i as int);
            }
            let kind = tail_prefix(value, i);
            let bearer: [u8; 6] = [66, 101, 97, 114, 101, 114];
            assert(bearer@ =~= bearer_word());
            if same_bytes(kind.as_slice(), &bearer) {
                Some(tail_from(value, i + 1))
            } else {
                None
            }
        },
        None => None,
    }
}

/// The first `n` bytes of `s`.
fn tail_prefix(s: &[u8], n: usize) -> (r: Vec<u8>)
    requires
        n <= s@.len(),
    ensures
        r@ == s@.subrange(0, n as int),
{
    let mut r: Vec<u8> = Vec::new();
    let mut i: usize = 0;
    while i < n
        invariant
            0 <= i <= n,
            n <= s@.len(),
            r@ == s@.subrange(0, i as int),
        decreases n - i,
    {
        r.push(s[i]);
        assert(r@ =~= s@.subrange(0, i + 1));
        i = i + 1;
    }
    r
}

/// Whether an `Authorization` header value authorises pruning: whatever
/// stands before its first space, the rest is the password.
pub open spec fn prune_authorized_by(value: Seq<u8>, password: Seq<u8>) -> bool {
    match first_space(value) {
        Some(i) => value.subrange(i + 1, value.len() as int) == password,
        None => false,
    }
}

/// Whether an `Authorization` header value authorises pruning.
pub fn prune_authorized(value: &[u8], password: &[u8]) -> (r: bool)
    ensures
        r == prune_authorized_by(value@, password@),
{
    match find_space(value) {
        Some(i) => {
            proof {
                lemma_first_space(value@, i as int);
            }
            let n = value.len();
            let rest = tail_from(value, i + 1);
            same_bytes(rest.as_slice(), password)
        },
        None => {
            proof {
                if exists|i: int| 0 <= i < value@.len() && value@[i] == 32 {
                    let i = choose|i: int| 0 <= i < value@.len() && value@[i] == 32;
                    assert(value@[i] != 32);
                }
            }
            false
        },
    }
}

/// The answer to a request for a game connection token, once the token's
/// claims are read and the room's existence is known: the claims must be
/// for the requested room, and the room must still exist.
pub fn play_outcome(claims_room: i32, room: i32, exists: Option<bool>) -> (r: Result<(), ErrorKind>)
    ensures
        claims_room != room ==> r == Err::<(), ErrorKind>(ErrorKind::Unauthorized),
        claims_room == room && exists != Some(true) ==> r == Err::<(), ErrorKind>(ErrorKind::Gone),
        claims_room == room && exists == Some(true) ==> r is Ok,
{
    if claims_room != room {
        return Err(ErrorKind::Unauthorized);
    }
    match exists {
        Some(true) => Ok(()),
        _ => Err(ErrorKind::Gone),
    }
}

/// Whether the server takes a move that a player of colour `color` sends:
/// the moving piece must be the player's, the move legal, and the board
/// able to check and play it without a panic (a move on which checking or
/// playing would panic is refused), and the board must stay well formed
/// (see `keeps_form` for the one kind of legal move this refuses).
pub open spec fn takes_move(v: BoardView, color: Color, mv: ChessMove) -> bool {
    &&& in_board(mv.from)
    &&& piece_at(v, mv.from) matches Some(p)
    &&& p.color == color
    &&& lookahead_safe(v)
    &&& legal(v, mv)
    &&& playable(v, mv)
    &&& keeps_form(v, mv)
}

/// Decides whether the server takes a move sent by a player.
pub fn accepts_move(board: &Board, color: Color, mv: &ChessMove) -> (r: bool)
    requires
        well_formed(board@),
    ensures
        r == takes_move(board@, color, *mv),
{
    if !(0 <= mv.from.rank && mv.from.rank < 8 && 0 <= mv.from.file && mv.from.file < 8) {
        return false;
    }
    let own = match board.at(mv.from) {
        Some(p) => p.color == color,
        None => false,
    };
    if !own {
        return false;
    }
    if !board.can_look_ahead() {
        return false;
    }
    if mv.check(board).is_err() {
        return false;
    }
    if !board.is_playable(mv) {
        return false;
    }
    board.keeps_form_of(mv)
}

/// Seconds between two pings on a game connection.
pub const PING_SECS: u64 = 30;

/// Seconds of silence from the player after which a game connection is
/// closed.
pub const IDLE_SECS: u64 = 1800;

/// What wakes a game connection up.
#[derive(Debug, Clone, Copy, PartialEq, Eq, Structural)]
pub enum Wakeup {
    /// The ping interval has passed.
    PingDue,
    /// The player sent something: a message, or nothing readable (the
    /// connection ended or sent what is no message).
    Received(Option<ClientMessage>),
    /// The table played an event.
    Broadcast(ChessEvent),
    /// The player has been silent for `IDLE_SECS`.
    IdleTimeout,
}

/// What a game connection does next.
#[derive(Debug, Clone, Copy, PartialEq, Eq, Structural)]
pub enum Reaction {
    /// Send a ping (and stop if that fails).
    Ping,
    /// Handle the player's message, after restarting the idle clock.
    Handle(ClientMessage),
    /// Send the event to the player (and stop if that fails).
    Forward(ChessEvent),
    /// Close the connection and stop.
    Close,
    /// Stop, after restarting the idle clock.
    Stop,
}

/// The reaction of a game connection to what woke it up, and whether the
/// idle clock restarts first (it does whenever the player sent something).
pub fn react(w: Wakeup) -> (r: (Reaction, bool))
    ensures
        r.0 == match w {
            Wakeup::PingDue => Reaction::Ping,
            Wakeup::Received(Some(m)) => Reaction::Handle(m),
            Wakeup::Received(None) => Reaction::Stop,
            Wakeup::Broadcast(ev) => Reaction::Forward(ev),
            Wakeup::IdleTimeout => Reaction::Close,
        },
        r.1 == (w is Received),
{
    match w {
        Wakeup::PingDue => (Reaction::Ping, false),
        Wakeup::Received(Some(m)) => (Reaction::Handle(m), true),
        Wakeup::Received(None) => (Reaction::Stop, true),
        Wakeup::Broadcast(ev) => (Reaction::Forward(ev), false),
        Wakeup::IdleTimeout => (Reaction::Close, false),
    }
}

/// How an attempt to store a new room ended.
#[derive(Debug, Clone, Copy, PartialEq, Eq, Structural)]
pub enum InsertOutcome {
    /// The room was stored under this id.
    Stored(i32),
    /// The creator already has as many rooms as allowed; nothing was stored.
    CapReached,
    /// Another room already uses the entry code.
    CodeTaken,
    /// The database failed otherwise.
    Failed,
}

/// What creating a room does after an attempt to store it.
#[derive(Debug, Clone, Copy, PartialEq, Eq, Structural)]
pub enum CreateStep {
    /// Answer with the new room.
    Created(i32),
    /// Draw another entry code and try again.
    Retry,
    /// Refuse the request.
    Reject,
    /// Answer with the database's error.
    Fail,
}

/// The next step of creating a room: a taken entry code is drawn again,
/// a full quota refuses the request, and a database error is passed on.
pub fn create_step(o: InsertOutcome) -> (r: CreateStep)
    ensures
        r == match o {
            InsertOutcome::Stored(id) => CreateStep::Created(id),
            InsertOutcome::CapReached => CreateStep::Reject,
            InsertOutcome::CodeTaken => CreateStep::Retry,
            InsertOutcome::Failed => CreateStep::Fail,
        },
{
    match o {
        InsertOutcome::Stored(id) => CreateStep::Created(id),
        InsertOutcome::CapReached => CreateStep::Reject,
        InsertOutcome::CodeTaken => CreateStep::Retry,
        InsertOutcome::Failed => CreateStep::Fail,
    }
}

} // verus!
