//! The versioned save-file format: a snapshot of all boards as bytes.
//!
//! Layout, little-endian throughout: a 64-bit board count, then each board as
//! its UTF-8 title (64-bit byte length, then the bytes), a 64-bit card count,
//! and each card as its UTF-8 content in the same length-prefixed shape.
//! Decoding accepts exactly the byte strings that encoding produces; decoding
//! an encoded snapshot gives the boards back unchanged.

use vstd::prelude::*;
use crate::board::{Board, BoardModel, Card, CardModel};
use vstd::utf8::{valid_utf8, decode_utf8, encode_utf8, encode_utf8_valid_utf8,
    encode_utf8_decode_utf8};

verus! {

pub open spec fn spec_enc_u64(v: u64) -> Seq<u8> {
    seq![
        v as u8,
        (v >> 8) as u8,
        (v >> 16) as u8,
        (v >> 24) as u8,
        (v >> 32) as u8,
        (v >> 40) as u8,
        (v >> 48) as u8,
        (v >> 56) as u8,
    ]
}

pub open spec fn spec_dec_u64(b: Seq<u8>) -> u64
    recommends
        b.len() == 8,
{
    (b[0] as u64) | (b[1] as u64) << 8 | (b[2] as u64) << 16 | (b[3] as u64) << 24 | (
    b[4] as u64) << 32 | (b[5] as u64) << 40 | (b[6] as u64) << 48 | (b[7] as u64) << 56
}

proof fn lemma_u64_round_trip(v: u64)
    ensures
        spec_dec_u64(spec_enc_u64(v)) == v,
{
    assert((v as u8) as u64 | (((v >> 8) as u8) as u64) << 8 | (((v >> 16) as u8) as u64) << 16 | ((
    (v >> 24) as u8) as u64) << 24 | (((v >> 32) as u8) as u64) << 32 | (((v >> 40) as u8) as u64)
        << 40 | (((v >> 48) as u8) as u64) << 48 | (((v >> 56) as u8) as u64) << 56 == v)
        by (bit_vector);
}

/// A 64-bit length prefix, then that many bytes of UTF-8.
pub open spec fn spec_enc_string(s: Seq<char>) -> Seq<u8> {
    spec_enc_u64(encode_utf8(s).len() as u64) + encode_utf8(s)
}

pub open spec fn spec_enc_card(c: CardModel) -> Seq<u8> {
    spec_enc_string(c.name)
}

pub open spec fn spec_enc_cards(cs: Seq<CardModel>) -> Seq<u8>
    decreases cs.len(),
{
    if cs.len() == 0 {
        Seq::<u8>::empty()
    } else {
        spec_enc_card(cs[0]) + spec_enc_cards(cs.drop_first())
    }
}

pub open spec fn spec_enc_board(b: BoardModel) -> Seq<u8> {
    spec_enc_string(b.name) + spec_enc_u64(b.cards.len() as u64) + spec_enc_cards(b.cards)
}

pub open spec fn spec_enc_boards(bs: Seq<BoardModel>) -> Seq<u8>
    decreases bs.len(),
{
    if bs.len() == 0 {
        Seq::<u8>::empty()
    } else {
        spec_enc_board(bs[0]) + spec_enc_boards(bs.drop_first())
    }
}

/// The whole snapshot: a 64-bit board count, then the boards.
pub open spec fn spec_encode_snapshot(bs: Seq<BoardModel>) -> Seq<u8> {
    spec_enc_u64(bs.len() as u64) + spec_enc_boards(bs)
}

// ---------------------------------------------------------------------------
// The decoder, as a mathematical function on byte sequences. Each step
// consumes a prefix and yields the value with the remaining bytes, or
// nothing when the bytes are not in the format.
// ---------------------------------------------------------------------------

pub open spec fn spec_dec_u64_at(b: Seq<u8>) -> Option<(u64, Seq<u8>)> {
    if b.len() >= 8 {
        Some((spec_dec_u64(b.take(8)), b.skip(8)))
    } else {
        None
    }
}

pub open spec fn spec_dec_string(b: Seq<u8>) -> Option<(Seq<char>, Seq<u8>)> {
    match spec_dec_u64_at(b) {
        Some((n, rest)) => {
            if n <= rest.len() && valid_utf8(rest.take(n as int)) {
                Some((decode_utf8(rest.take(n as int)), rest.skip(n as int)))
            } else {
                None
            }
        },
        None => None,
    }
}

pub open spec fn spec_dec_card(b: Seq<u8>) -> Option<(CardModel, Seq<u8>)> {
    match spec_dec_string(b) {
        Some((name, rest)) => Some((CardModel { name }, rest)),
        None => None,
    }
}

pub open spec fn spec_dec_cards(b: Seq<u8>, n: nat) -> Option<(Seq<CardModel>, Seq<u8>)>
    decreases n,
{
    if n == 0 {
        Some((Seq::<CardModel>::empty(), b))
    } else {
        match spec_dec_card(b) {
            Some((c, rest)) => match spec_dec_cards(rest, (n - 1) as nat) {
                Some((cs, rest2)) => Some((seq![c] + cs, rest2)),
                None => None,
            },
            None => None,
        }
    }
}

pub open spec fn spec_dec_board(b: Seq<u8>) -> Option<(BoardModel, Seq<u8>)> {
    match spec_dec_string(b) {
        Some((name, rest)) => match spec_dec_u64_at(rest) {
            Some((n, rest2)) => match spec_dec_cards(rest2, n as nat) {
                Some((cards, rest3)) => Some((BoardModel { name, cards }, rest3)),
                None => None,
            },
            None => None,
        },
        None => None,
    }
}

pub open spec fn spec_dec_boards(b: Seq<u8>, n: nat) -> Option<(Seq<BoardModel>, Seq<u8>)>
    decreases n,
{
    if n == 0 {
        Some((Seq::<BoardModel>::empty(), b))
    } else {
        match spec_dec_board(b) {
            Some((bd, rest)) => match spec_dec_boards(rest, (n - 1) as nat) {
                Some((bds, rest2)) => Some((seq![bd] + bds, rest2)),
                None => None,
            },
            None => None,
        }
    }
}

/// What a byte string means as a snapshot: the board sequence it encodes,
/// or nothing when it is not exactly one encoded snapshot.
pub open spec fn spec_decode_snapshot(b: Seq<u8>) -> Option<Seq<BoardModel>> {
    match spec_dec_u64_at(b) {
        Some((n, rest)) => match spec_dec_boards(rest, n as nat) {
            Some((bds, rest2)) => {
                if rest2.len() == 0 {
                    Some(bds)
                } else {
                    None
                }
            },
            None => None,
        },
        None => None,
    }
}

// ---------------------------------------------------------------------------
// Bounds under which a model fits the 64-bit length fields. Any snapshot
// held in memory satisfies them.
// ---------------------------------------------------------------------------

pub open spec fn card_bounded(c: CardModel) -> bool {
    encode_utf8(c.name).len() <= u64::MAX
}

pub open spec fn board_bounded(b: BoardModel) -> bool {
    &&& encode_utf8(b.name).len() <= u64::MAX
    &&& b.cards.len() <= u64::MAX
    &&& forall|i: int| 0 <= i < b.cards.len() ==> card_bounded(#[trigger] b.cards[i])
}

pub open spec fn snapshot_bounded(bs: Seq<BoardModel>) -> bool {
    &&& bs.len() <= u64::MAX
    &&& forall|i: int| 0 <= i < bs.len() ==> board_bounded(#[trigger] bs[i])
}

// ---------------------------------------------------------------------------
// Round trip: decoding what was encoded yields the original, piece by piece.
// ---------------------------------------------------------------------------

proof fn lemma_dec_u64_at(v: u64, rest: Seq<u8>)
    ensures
        spec_dec_u64_at(spec_enc_u64(v) + rest) == Some((v, rest)),
{
    let b = spec_enc_u64(v) + rest;
    assert(b.take(8) =~= spec_enc_u64(v));
    assert(b.skip(8) =~= rest);
    lemma_u64_round_trip(v);
}

proof fn lemma_dec_string(s: Seq<char>, rest: Seq<u8>)
    requires
        encode_utf8(s).len() <= u64::MAX,
    ensures
        spec_dec_string(spec_enc_string(s) + rest) == Some((s, rest)),
{
    broadcast use encode_utf8_valid_utf8, encode_utf8_decode_utf8;

    let payload = encode_utf8(s);
    let n = payload.len() as u64;
    assert(spec_enc_string(s) + rest =~= spec_enc_u64(n) + (payload + rest));
    lemma_dec_u64_at(n, payload + rest);
    assert((payload + rest).take(n as int) =~= payload);
    assert((payload + rest).skip(n as int) =~= rest);
}

proof fn lemma_dec_card(c: CardModel, rest: Seq<u8>)
    requires
        card_bounded(c),
    ensures
        spec_dec_card(spec_enc_card(c) + rest) == Some((c, rest)),
{
    lemma_dec_string(c.name, rest);
}

proof fn lemma_dec_cards(cs: Seq<CardModel>, rest: Seq<u8>)
    requires
        cs.len() <= u64::MAX,
        forall|i: int| 0 <= i < cs.len() ==> card_bounded(#[trigger] cs[i]),
    ensures
        spec_dec_cards(spec_enc_cards(cs) + rest, cs.len() as nat) == Some((cs, rest)),
    decreases cs.len(),
{
    if cs.len() == 0 {
        assert(spec_enc_cards(cs) + rest =~= rest);
        assert(spec_dec_cards(rest, 0) == Some((Seq::<CardModel>::empty(), rest)));
        assert(cs =~= Seq::<CardModel>::empty());
    } else {
        let tail = cs.drop_first();
        assert(spec_enc_cards(cs) + rest =~= spec_enc_card(cs[0]) + (spec_enc_cards(tail) + rest));
        lemma_dec_card(cs[0], spec_enc_cards(tail) + rest);
        lemma_dec_cards(tail, rest);
        assert(seq![cs[0]] + tail =~= cs);
    }
}

proof fn lemma_dec_board(b: BoardModel, rest: Seq<u8>)
    requires
        board_bounded(b),
    ensures
        spec_dec_board(spec_enc_board(b) + rest) == Some((b, rest)),
{
    let mid = spec_enc_u64(b.cards.len() as u64) + spec_enc_cards(b.cards) + rest;
    assert(spec_enc_board(b) + rest =~= spec_enc_string(b.name) + mid);
    lemma_dec_string(b.name, mid);
    assert(mid =~= spec_enc_u64(b.cards.len() as u64) + (spec_enc_cards(b.cards) + rest));
    lemma_dec_u64_at(b.cards.len() as u64, spec_enc_cards(b.cards) + rest);
    lemma_dec_cards(b.cards, rest);
}

proof fn lemma_dec_boards(bs: Seq<BoardModel>, rest: Seq<u8>)
    requires
        snapshot_bounded(bs),
    ensures
        spec_dec_boards(spec_enc_boards(bs) + rest, bs.len() as nat) == Some((bs, rest)),
    decreases bs.len(),
{
    if bs.len() == 0 {
        assert(spec_enc_boards(bs) + rest =~= rest);
        assert(bs =~= Seq::<BoardModel>::empty());
    } else {
        let tail = bs.drop_first();
        assert(spec_enc_boards(bs) + rest =~= spec_enc_board(bs[0]) + (spec_enc_boards(tail)
            + rest));
        lemma_dec_board(bs[0], spec_enc_boards(tail) + rest);
        lemma_dec_boards(tail, rest);
        assert(seq![bs[0]] + tail =~= bs);
    }
}

/// Appending one card to a sequence appends its encoding.
proof fn lemma_enc_cards_push(cs: Seq<CardModel>, c: CardModel)
    ensures
        spec_enc_cards(cs.push(c)) == spec_enc_cards(cs) + spec_enc_card(c),
    decreases cs.len(),
{
    if cs.len() == 0 {
        assert(cs.push(c)[0] == c);
        assert(cs.push(c).drop_first() =~= Seq::<CardModel>::empty());
        assert(spec_enc_cards(cs.push(c)) == spec_enc_card(c) + spec_enc_cards(
            Seq::<CardModel>::empty(),
        ));
        assert(spec_enc_cards(cs.push(c)) =~= spec_enc_cards(cs) + spec_enc_card(c));
    } else {
        assert(cs.push(c)[0] == cs[0]);
        assert(cs.push(c).drop_first() =~= cs.drop_first().push(c));
        assert(spec_enc_cards(cs.push(c)) == spec_enc_card(cs[0]) + spec_enc_cards(
            cs.drop_first().push(c),
        ));
        lemma_enc_cards_push(cs.drop_first(), c);
        assert(spec_enc_cards(cs) == spec_enc_card(cs[0]) + spec_enc_cards(cs.drop_first()));
        assert(spec_enc_cards(cs.push(c)) =~= spec_enc_cards(cs) + spec_enc_card(c));
    }
}

/// Appending one board to a sequence appends its encoding.
proof fn lemma_enc_boards_push(bs: Seq<BoardModel>, b: BoardModel)
    ensures
        spec_enc_boards(bs.push(b)) == spec_enc_boards(bs) + spec_enc_board(b),
    decreases bs.len(),
{
    if bs.len() == 0 {
        assert(bs.push(b)[0] == b);
        assert(bs.push(b).drop_first() =~= Seq::<BoardModel>::empty());
        assert(spec_enc_boards(bs.push(b)) == spec_enc_board(b) + spec_enc_boards(
            Seq::<BoardModel>::empty(),
        ));
        assert(spec_enc_boards(bs.push(b)) =~= spec_enc_boards(bs) + spec_enc_board(b));
    } else {
        assert(bs.push(b)[0] == bs[0]);
        assert(bs.push(b).drop_first() =~= bs.drop_first().push(b));
        assert(spec_enc_boards(bs.push(b)) == spec_enc_board(bs[0]) + spec_enc_boards(
            bs.drop_first().push(b),
        ));
        lemma_enc_boards_push(bs.drop_first(), b);
        assert(spec_enc_boards(bs) == spec_enc_board(bs[0]) + spec_enc_boards(bs.drop_first()));
        assert(spec_enc_boards(bs.push(b)) =~= spec_enc_boards(bs) + spec_enc_board(b));
    }
}

/// Round trip: a snapshot written by the encoder reads back as exactly the
/// same boards, same order, same cards, same order.
pub proof fn lemma_snapshot_round_trip(bs: Seq<BoardModel>)
    requires
        snapshot_bounded(bs),
    ensures
        spec_decode_snapshot(spec_encode_snapshot(bs)) == Some(bs),
{
    assert(spec_encode_snapshot(bs) =~= spec_enc_u64(bs.len() as u64) + (spec_enc_boards(bs)
        + Seq::<u8>::empty()));
    lemma_dec_u64_at(bs.len() as u64, spec_enc_boards(bs) + Seq::<u8>::empty());
    assert(spec_enc_boards(bs) + Seq::<u8>::empty() =~= spec_enc_boards(bs) + Seq::<u8>::empty());
    lemma_dec_boards(bs, Seq::<u8>::empty());
}

// ---------------------------------------------------------------------------
// The encoder.
// ---------------------------------------------------------------------------

fn push_u64(out: &mut Vec<u8>, v: u64)
    ensures
        final(out)@ == old(out)@ + spec_enc_u64(v),
{
    out.push(#[verifier::truncate] (v as u8));
    out.push(#[verifier::truncate] ((v >> 8) as u8));
    out.push(#[verifier::truncate] ((v >> 16) as u8));
    out.push(#[verifier::truncate] ((v >> 24) as u8));
    out.push(#[verifier::truncate] ((v >> 32) as u8));
    out.push(#[verifier::truncate] ((v >> 40) as u8));
    out.push(#[verifier::truncate] ((v >> 48) as u8));
    out.push(#[verifier::truncate] ((v >> 56) as u8));
    proof {
        assert(out@ =~= old(out)@ + spec_enc_u64(v));
    }
}

fn push_string(out: &mut Vec<u8>, s: &String)
    ensures
        final(out)@ == old(out)@ + spec_enc_string(s@),
        encode_utf8(s@).len() <= u64::MAX,
{
    let bytes = s.as_str().as_bytes_vec();
    push_u64(out, bytes.len() as u64);
    let mut k: usize = 0;
    while k < bytes.len()
        invariant
            k <= bytes.len(),
            bytes@ == encode_utf8(s@),
            out@ == old(out)@ + spec_enc_u64(bytes@.len() as u64) + bytes@.take(k as int),
        decreases bytes.len() - k,
    {
        out.push(bytes[k]);
        proof {
            assert(bytes@.take(k + 1) =~= bytes@.take(k as int).push(bytes@[k as int]));
        }
        k = k + 1;
    }
    proof {
        assert(bytes@.take(bytes@.len() as int) =~= bytes@);
        assert(out@ =~= old(out)@ + spec_enc_string(s@));
    }
}

fn push_card(out: &mut Vec<u8>, c: &Card)
    ensures
        final(out)@ == old(out)@ + spec_enc_card(c@),
        card_bounded(c@),
{
    push_string(out, &c.name);
}

fn push_board(out: &mut Vec<u8>, b: &Board)
    ensures
        final(out)@ == old(out)@ + spec_enc_board(b@),
        board_bounded(b@),
{
    push_string(out, &b.name);
    push_u64(out, b.cards.len() as u64);
    let ghost head = old(out)@ + spec_enc_string(b.name@) + spec_enc_u64(
        b.cards@.len() as u64,
    );
    let mut k: usize = 0;
    while k < b.cards.len()
        invariant
            k <= b.cards.len(),
            out@ == head + spec_enc_cards(b.cards.deep_view().take(k as int)),
            forall|i: int| 0 <= i < k ==> card_bounded(#[trigger] b.cards.deep_view()[i]),
        decreases b.cards.len() - k,
    {
        push_card(out, &b.cards[k]);
        proof {
            assert(b.cards.deep_view().take(k + 1) =~= b.cards.deep_view().take(
                k as int,
            ).push(b.cards.deep_view()[k as int]));
            lemma_enc_cards_push(b.cards.deep_view().take(k as int), b.cards.deep_view()[k as int]);
        }
        k = k + 1;
    }
    proof {
        assert(b.cards.deep_view().take(b.cards@.len() as int) =~= b.cards.deep_view());
        assert(out@ =~= old(out)@ + spec_enc_board(b@));
    }
}

/// Write the given boards as one snapshot in the save-file format.
pub fn encode_snapshot(boards: &Vec<Board>) -> (r: Vec<u8>)
    ensures
        r@ == spec_encode_snapshot(boards.deep_view()),
        snapshot_bounded(boards.deep_view()),
{
    let mut out: Vec<u8> = Vec::new();
    push_u64(&mut out, boards.len() as u64);
    let ghost head = spec_enc_u64(boards@.len() as u64);
    proof {
        assert(out@ =~= head);
    }
    let mut k: usize = 0;
    while k < boards.len()
        invariant
            k <= boards.len(),
            out@ == head + spec_enc_boards(boards.deep_view().take(k as int)),
            forall|i: int| 0 <= i < k ==> board_bounded(#[trigger] boards.deep_view()[i]),
        decreases boards.len() - k,
    {
        push_board(&mut out, &boards[k]);
        proof {
            assert(boards.deep_view().take(k + 1) =~= boards.deep_view().take(k as int).push(
                boards.deep_view()[k as int],
            ));
            lemma_enc_boards_push(boards.deep_view().take(k as int), boards.deep_view()[k as int]);
        }
        k = k + 1;
    }
    proof {
        assert(boards.deep_view().take(boards@.len() as int) =~= boards.deep_view());
        assert(out@ =~= spec_encode_snapshot(boards.deep_view()));
    }
    out
}

// ---------------------------------------------------------------------------
// The decoder.
// ---------------------------------------------------------------------------

/// Relies on String::from_utf8: it succeeds exactly on the byte strings that
/// are valid UTF-8, and the string it returns has the given bytes as its
/// UTF-8 encoding.
#[verifier::external_body]
fn string_from_utf8(bytes: Vec<u8>) -> (r: Option<String>)
    ensures
        r is Some <==> valid_utf8(bytes@),
        r matches Some(s) ==> encode_utf8(s@) == bytes@,
{
    String::from_utf8(bytes).ok()
}

fn read_u64(bytes: &Vec<u8>, pos: usize) -> (r: Option<(u64, usize)>)
    requires
        pos <= bytes@.len(),
    ensures
        ({
            let d = spec_dec_u64_at(bytes@.skip(pos as int));
            match r {
                Some(vp) => {
                    &&& pos <= vp.1 <= bytes@.len()
                    &&& d == Some((vp.0, bytes@.skip(vp.1 as int)))
                },
                None => d is None,
            }
        }),
{
    if bytes.len() - pos < 8 {
        return None;
    }
    let v: u64 = (bytes[pos] as u64) | (bytes[pos + 1] as u64) << 8 | (bytes[pos + 2] as u64) << 16
        | (bytes[pos + 3] as u64) << 24 | (bytes[pos + 4] as u64) << 32 | (bytes[pos + 5] as u64)
        << 40 | (bytes[pos + 6] as u64) << 48 | (bytes[pos + 7] as u64) << 56;
    proof {
        let s = bytes@.skip(pos as int);
        assert(s.take(8) =~= seq![
            bytes@[pos as int],
            bytes@[pos + 1],
            bytes@[pos + 2],
            bytes@[pos + 3],
            bytes@[pos + 4],
            bytes@[pos + 5],
            bytes@[pos + 6],
            bytes@[pos + 7],
        ]);
        assert(spec_dec_u64(s.take(8)) == v);
        assert(s.skip(8) =~= bytes@.skip(pos + 8));
    }
    Some((v, pos + 8))
}

fn read_string(bytes: &Vec<u8>, pos: usize) -> (r: Option<(String, usize)>)
    requires
        pos <= bytes@.len(),
    ensures
        ({
            let d = spec_dec_string(bytes@.skip(pos as int));
            match r {
                Some(sp) => {
                    &&& pos <= sp.1 <= bytes@.len()
                    &&& d == Some((sp.0@, bytes@.skip(sp.1 as int)))
                },
                None => d is None,
            }
        }),
{
    broadcast use encode_utf8_decode_utf8;

    let (n, p2) = match read_u64(bytes, pos) {
        Some(vp) => vp,
        None => {
            return None;
        },
    };
    if n > (bytes.len() - p2) as u64 {
        return None;
    }
    let n_us = n as usize;
    let total = bytes.len();
    let mut payload: Vec<u8> = Vec::new();
    let mut k: usize = 0;
    while k < n_us
        invariant
            k <= n_us,
            total == bytes@.len(),
            p2 + n_us <= total,
            payload@ == bytes@.subrange(p2 as int, p2 + k),
        decreases n_us - k,
    {
        payload.push(bytes[p2 + k]);
        proof {
            assert(bytes@.subrange(p2 as int, p2 + k + 1) =~= bytes@.subrange(
                p2 as int,
                p2 + k,
            ).push(bytes@[p2 + k]));
        }
        k = k + 1;
    }
    proof {
        assert(payload@ =~= bytes@.skip(p2 as int).take(n as int));
    }
    let ghost rest = bytes@.skip(p2 as int);
    match string_from_utf8(payload) {
        Some(s) => {
            proof {
                assert(decode_utf8(rest.take(n as int)) == s@);
                assert(rest.skip(n as int) =~= bytes@.skip(p2 + n_us));
            }
            Some((s, p2 + n_us))
        },
        None => None,
    }
}

fn read_cards(bytes: &Vec<u8>, pos: usize, n: u64) -> (r: Option<(Vec<Card>, usize)>)
    requires
        pos <= bytes@.len(),
    ensures
        ({
            let d = spec_dec_cards(bytes@.skip(pos as int), n as nat);
            match r {
                Some(cp) => {
                    &&& pos <= cp.1 <= bytes@.len()
                    &&& d == Some((cp.0.deep_view(), bytes@.skip(cp.1 as int)))
                },
                None => d is None,
            }
        }),
{
    let mut cards: Vec<Card> = Vec::new();
    let mut cur: usize = pos;
    let mut k: u64 = 0;
    proof {
        assert(cards.deep_view() =~= Seq::<CardModel>::empty());
    }
    while k < n
        invariant
            pos <= cur <= bytes@.len(),
            k <= n,
            ({
                let d = spec_dec_cards(bytes@.skip(pos as int), n as nat);
                let d2 = spec_dec_cards(bytes@.skip(cur as int), (n - k) as nat);
                match d2 {
                    Some(dv) => d == Some((cards.deep_view() + dv.0, dv.1)),
                    None => d is None,
                }
            }),
        decreases n - k,
    {
        let ghost d2 = spec_dec_cards(bytes@.skip(cur as int), (n - k) as nat);
        match read_string(bytes, cur) {
            Some((s, p2)) => {
                let ghost prev = cards.deep_view();
                cards.push(Card { name: s });
                proof {
                    let cm = CardModel { name: s@ };
                    assert(cards.deep_view() =~= prev.push(cm));
                    let d3 = spec_dec_cards(bytes@.skip(p2 as int), (n - k - 1) as nat);
                    assert(spec_dec_card(bytes@.skip(cur as int)) == Some((
                        cm,
                        bytes@.skip(p2 as int),
                    )));
                    match d3 {
                        Some(dv3) => {
                            assert(d2 == Some((seq![cm] + dv3.0, dv3.1)));
                            assert(prev + (seq![cm] + dv3.0) =~= prev.push(cm) + dv3.0);
                        },
                        None => {
                            assert(d2 is None);
                        },
                    }
                }
                cur = p2;
                k = k + 1;
            },
            None => {
                proof {
                    assert(spec_dec_card(bytes@.skip(cur as int)) is None);
                    assert(d2 is None);
                }
                return None;
            },
        }
    }
    proof {
        assert(spec_dec_cards(bytes@.skip(cur as int), 0) == Some((
            Seq::<CardModel>::empty(),
            bytes@.skip(cur as int),
        )));
        assert(cards.deep_view() + Seq::<CardModel>::empty() =~= cards.deep_view());
    }
    Some((cards, cur))
}

fn read_board(bytes: &Vec<u8>, pos: usize) -> (r: Option<(Board, usize)>)
    requires
        pos <= bytes@.len(),
    ensures
        ({
            let d = spec_dec_board(bytes@.skip(pos as int));
            match r {
                Some(bp) => {
                    &&& pos <= bp.1 <= bytes@.len()
                    &&& d == Some((bp.0.deep_view(), bytes@.skip(bp.1 as int)))
                },
                None => d is None,
            }
        }),
{
    let (name, p2) = match read_string(bytes, pos) {
        Some(sp) => sp,
        None => {
            return None;
        },
    };
    let (n, p3) = match read_u64(bytes, p2) {
        Some(vp) => vp,
        None => {
            return None;
        },
    };
    let (cards, p4) = match read_cards(bytes, p3, n) {
        Some(cp) => cp,
        None => {
            return None;
        },
    };
    let b = Board { name, cards };
    Some((b, p4))
}

fn read_boards(bytes: &Vec<u8>, pos: usize, n: u64) -> (r: Option<(Vec<Board>, usize)>)
    requires
        pos <= bytes@.len(),
    ensures
        ({
            let d = spec_dec_boards(bytes@.skip(pos as int), n as nat);
            match r {
                Some(bp) => {
                    &&& pos <= bp.1 <= bytes@.len()
                    &&& d == Some((bp.0.deep_view(), bytes@.skip(bp.1 as int)))
                },
                None => d is None,
            }
        }),
{
    let mut boards: Vec<Board> = Vec::new();
    let mut cur: usize = pos;
    let mut k: u64 = 0;
    proof {
        assert(boards.deep_view() =~= Seq::<BoardModel>::empty());
    }
    while k < n
        invariant
            pos <= cur <= bytes@.len(),
            k <= n,
            ({
                let d = spec_dec_boards(bytes@.skip(pos as int), n as nat);
                let d2 = spec_dec_boards(bytes@.skip(cur as int), (n - k) as nat);
                match d2 {
                    Some(dv) => d == Some((boards.deep_view() + dv.0, dv.1)),
                    None => d is None,
                }
            }),
        decreases n - k,
    {
        let ghost d2 = spec_dec_boards(bytes@.skip(cur as int), (n - k) as nat);
        match read_board(bytes, cur) {
            Some((b, p2)) => {
                let ghost bm = b.deep_view();
                let ghost prev = boards.deep_view();
                boards.push(b);
                proof {
                    assert(boards.deep_view() =~= prev.push(bm));
                    let d3 = spec_dec_boards(bytes@.skip(p2 as int), (n - k - 1) as nat);
                    match d3 {
                        Some(dv3) => {
                            assert(d2 == Some((seq![bm] + dv3.0, dv3.1)));
                            assert(prev + (seq![bm] + dv3.0) =~= prev.push(bm) + dv3.0);
                        },
                        None => {
                            assert(d2 is None);
                        },
                    }
                }
                cur = p2;
                k = k + 1;
            },
            None => {
                proof {
                    assert(d2 is None);
                }
                return None;
            },
        }
    }
    proof {
        assert(boards.deep_view() + Seq::<BoardModel>::empty() =~= boards.deep_view());
    }
    Some((boards, cur))
}

/// Read one snapshot out of the save-file bytes: the boards it encodes, or
/// nothing when the bytes are not exactly one encoded snapshot.
pub fn decode_snapshot(bytes: &Vec<u8>) -> (r: Option<Vec<Board>>)
    ensures
        r is Some <==> spec_decode_snapshot(bytes@) is Some,
        r matches Some(bs) ==> spec_decode_snapshot(bytes@) == Some(bs.deep_view()),
{
    proof {
        assert(bytes@.skip(0) =~= bytes@);
    }
    let (n, p2) = match read_u64(bytes, 0) {
        Some(vp) => vp,
        None => {
            return None;
        },
    };
    let (boards, p3) = match read_boards(bytes, p2, n) {
        Some(bp) => bp,
        None => {
            return None;
        },
    };
    if p3 == bytes.len() {
        proof {
            assert(bytes@.skip(p3 as int).len() == 0);
        }
        Some(boards)
    } else {
        proof {
            assert(bytes@.skip(p3 as int).len() > 0);
        }
        None
    }
}

} // verus!
