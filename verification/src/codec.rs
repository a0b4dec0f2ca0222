//! The binary packet codec.
//!
//! A packet is encoded as a self-describing byte string: fixed-width
//! big-endian integers, length-prefixed UTF-8 text, one tag byte per enum
//! variant. Every encoder is specified by a spec-level encoding function,
//! every decoder by a spec-level parsing function that consumes a prefix and
//! returns the rest, and [`lemma_packet_round_trip`] proves that decoding an
//! encoding gives back exactly the value that was encoded.

use vstd::prelude::*;
use vstd::slice::{slice_subrange, slice_to_vec};
use crate::err::{TResult, TellErr};
use crate::header::{PacketHeader, PacketHeaderView};
use crate::id::{Id, IdView};
use crate::packet::{ClientPacket, ClientPacketView, DisconnectReason, Packet, PacketType,
    PacketTypeView, PacketView, ServerPacket, ServerPacketView, TargetMode, TargetModeView};
use vstd::string::StrSliceExecFns;
use vstd::utf8::{encode_utf8, valid_utf8, decode_utf8, encode_utf8_valid_utf8,
    encode_utf8_decode_utf8};

verus! {

/// 256 to the `n`-th power: the number of byte strings of length `n`.
pub open spec fn pow256(n: nat) -> nat
    decreases n,
{
    if n == 0 {
        1
    } else {
        256 * pow256((n - 1) as nat)
    }
}

/// Big-endian encoding of `x` in exactly `n` bytes.
pub open spec fn enc_uint(x: nat, n: nat) -> Seq<u8>
    decreases n,
{
    if n == 0 {
        Seq::empty()
    } else {
        enc_uint(x / 256, (n - 1) as nat).push((x % 256) as u8)
    }
}

/// The value of a big-endian byte string.
pub open spec fn dec_uint(b: Seq<u8>) -> nat
    decreases b.len(),
{
    if b.len() == 0 {
        0
    } else {
        dec_uint(b.drop_last()) * 256 + b.last() as nat
    }
}

/// Parse a fixed-width `n`-byte integer off the front of `b`.
pub open spec fn dec_fix(b: Seq<u8>, n: nat) -> Option<(nat, Seq<u8>)> {
    if b.len() < n {
        None
    } else {
        Some((dec_uint(b.take(n as int)), b.skip(n as int)))
    }
}

pub proof fn lemma_enc_uint_len(x: nat, n: nat)
    ensures
        enc_uint(x, n).len() == n,
    decreases n,
{
    if n > 0 {
        lemma_enc_uint_len(x / 256, (n - 1) as nat);
    }
}

pub proof fn lemma_pow256_pos(n: nat)
    ensures
        pow256(n) >= 1,
    decreases n,
{
    if n > 0 {
        lemma_pow256_pos((n - 1) as nat);
    }
}

pub proof fn lemma_pow256_monotonic(a: nat, b: nat)
    requires
        a <= b,
    ensures
        pow256(a) <= pow256(b),
    decreases b,
{
    lemma_pow256_pos(a);
    if a < b {
        lemma_pow256_monotonic(a, (b - 1) as nat);
    }
}

pub proof fn lemma_pow256_16_is_u128_range()
    ensures
        pow256(16) == 0x100000000000000000000000000000000,
{
    reveal_with_fuel(pow256, 17);
}

/// Decoding the `n`-byte encoding of `x` gives `x` back.
pub proof fn lemma_uint_round_trip(x: nat, n: nat)
    requires
        x < pow256(n),
    ensures
        dec_uint(enc_uint(x, n)) == x,
    decreases n,
{
    if n == 0 {
        assert(x == 0);
    } else {
        let q = x / 256;
        let r = x % 256;
        assert(x == 256 * q + r);
        assert(q < pow256((n - 1) as nat));
        lemma_uint_round_trip(q, (n - 1) as nat);
        lemma_enc_uint_len(q, (n - 1) as nat);
        assert(enc_uint(x, n).drop_last() =~= enc_uint(q, (n - 1) as nat));
        assert(enc_uint(x, n).last() == r as u8);
    }
}

/// Parsing a fixed-width encoding followed by anything gives the value back
/// and leaves exactly that suffix.
pub proof fn lemma_fix_round_trip(x: nat, n: nat, tail: Seq<u8>)
    requires
        x < pow256(n),
    ensures
        dec_fix(enc_uint(x, n) + tail, n) == Some((x, tail)),
{
    lemma_enc_uint_len(x, n);
    lemma_uint_round_trip(x, n);
    assert((enc_uint(x, n) + tail).take(n as int) =~= enc_uint(x, n));
    assert((enc_uint(x, n) + tail).skip(n as int) =~= tail);
}

/// Append the `n`-byte big-endian encoding of `x` to `out`.
pub fn write_uint(out: &mut Vec<u8>, x: u128, n: usize)
    requires
        (x as nat) < pow256(n as nat),
    ensures
        final(out)@ == old(out)@ + enc_uint(x as nat, n as nat),
    decreases n,
{
    if n == 0 {
        assert(out@ =~= out@ + enc_uint(x as nat, 0));
    } else {
        proof {
            assert(256 * (x as nat / 256) + x as nat % 256 == x as nat);
            assert((x as nat) / 256 < pow256((n - 1) as nat));
        }
        write_uint(out, x / 256, n - 1);
        out.push((x % 256) as u8);
        assert(out@ =~= old(out)@ + enc_uint(x as nat, n as nat));
    }
}

/// Read an `n`-byte big-endian integer starting at `pos`.
pub fn read_uint(buf: &Vec<u8>, pos: usize, n: usize) -> (r: Option<(u128, usize)>)
    requires
        pos <= buf@.len(),
        n <= 16,
    ensures
        match r {
            Some(v) => {
                &&& pos + n <= buf@.len()
                &&& v.1 == pos + n
                &&& (v.0 as nat) < pow256(n as nat)
                &&& dec_fix(buf@.skip(pos as int), n as nat) == Some(
                    (v.0 as nat, buf@.skip(v.1 as int)),
                )
            },
            None => dec_fix(buf@.skip(pos as int), n as nat) is None,
        },
{
    let blen = buf.len();
    if n > blen - pos {
        return None;
    }
    let mut acc: u128 = 0;
    let mut i: usize = 0;
    while i < n
        invariant
            pos + n <= buf@.len(),
            buf@.len() <= usize::MAX,
            i <= n,
            n <= 16,
            (acc as nat) == dec_uint(buf@.subrange(pos as int, (pos + i) as int)),
            (acc as nat) < pow256(i as nat),
        decreases n - i,
    {
        proof {
            lemma_pow256_monotonic((i + 1) as nat, 16);
            lemma_pow256_16_is_u128_range();
            assert(buf@.subrange(pos as int, (pos + i + 1) as int).drop_last() =~= buf@.subrange(
                pos as int,
                (pos + i) as int,
            ));
            assert(buf@.subrange(pos as int, (pos + i + 1) as int).last() == buf@[pos + i]);
        }
        acc = acc * 256 + (buf[pos + i] as u128);
        i = i + 1;
    }
    proof {
        assert(buf@.skip(pos as int).take(n as int) =~= buf@.subrange(pos as int, (pos + n) as int));
        assert(buf@.skip(pos as int).skip(n as int) =~= buf@.skip((pos + n) as int));
    }
    Some((acc, pos + n))
}

/// Rebuild a string from bytes.
///
/// Relies on `String::from_utf8`: it succeeds exactly on valid UTF-8, and the
/// returned string is the one whose UTF-8 encoding is the given bytes (the
/// same `encode_utf8` model that vstd gives to `str::as_bytes`).
#[verifier::external_body]
fn string_from_utf8(bytes: Vec<u8>) -> (r: Option<String>)
    ensures
        valid_utf8(bytes@) <==> r is Some,
        r matches Some(s) ==> encode_utf8(s@) == bytes@,
{
    String::from_utf8(bytes).ok()
}

/// Encoding of a string: 8-byte byte-count, then the UTF-8 bytes.
pub open spec fn enc_str(s: Seq<char>) -> Seq<u8> {
    enc_uint(encode_utf8(s).len(), 8) + encode_utf8(s)
}

/// Parse a length-prefixed string off the front of `b`.
pub open spec fn dec_str(b: Seq<u8>) -> Option<(Seq<char>, Seq<u8>)> {
    match dec_fix(b, 8) {
        None => None,
        Some((len, rest)) => if rest.len() < len {
            None
        } else {
            let sb = rest.take(len as int);
            if valid_utf8(sb) {
                Some((decode_utf8(sb), rest.skip(len as int)))
            } else {
                None
            }
        },
    }
}

/// Parsing an encoded string followed by anything gives the string back and
/// leaves exactly that suffix.
pub proof fn lemma_str_round_trip(s: Seq<char>, tail: Seq<u8>)
    requires
        encode_utf8(s).len() < pow256(8),
    ensures
        dec_str(enc_str(s) + tail) == Some((s, tail)),
{
    let eb = encode_utf8(s);
    lemma_fix_round_trip(eb.len(), 8, eb + tail);
    assert(enc_str(s) + tail =~= enc_uint(eb.len(), 8) + (eb + tail));
    assert((eb + tail).take(eb.len() as int) =~= eb);
    assert((eb + tail).skip(eb.len() as int) =~= tail);
    encode_utf8_valid_utf8(s);
    encode_utf8_decode_utf8(s);
}

/// Append the encoding of `s` to `out`.
pub fn write_str(out: &mut Vec<u8>, s: &String)
    ensures
        final(out)@ == old(out)@ + enc_str(s@),
        wf_text(s@),
{
    let mut bytes = s.as_str().as_bytes_vec();
    let len = bytes.len();
    proof {
        reveal_with_fuel(pow256, 9);
        assert((len as nat) < pow256(8));
    }
    write_uint(out, len as u128, 8);
    out.append(&mut bytes);
    assert(out@ =~= old(out)@ + enc_str(s@));
}

/// Read a length-prefixed string starting at `pos`.
pub fn read_str(buf: &Vec<u8>, pos: usize) -> (r: Option<(String, usize)>)
    requires
        pos <= buf@.len(),
    ensures
        match r {
            Some(v) => {
                &&& pos <= v.1 <= buf@.len()
                &&& dec_str(buf@.skip(pos as int)) == Some((v.0@, buf@.skip(v.1 as int)))
            },
            None => dec_str(buf@.skip(pos as int)) is None,
        },
{
    let (len128, p1) = match read_uint(buf, pos, 8) {
        None => {
            return None;
        },
        Some(x) => x,
    };
    let rem = buf.len() - p1;
    if len128 > rem as u128 {
        return None;
    }
    let len = len128 as usize;
    let sb = slice_subrange(buf.as_slice(), p1, p1 + len);
    let v = slice_to_vec(sb);
    proof {
        assert(buf@.skip(p1 as int).take(len as int) =~= buf@.subrange(
            p1 as int,
            (p1 + len) as int,
        ));
        assert(buf@.skip(p1 as int).skip(len as int) =~= buf@.skip((p1 + len) as int));
    }
    match string_from_utf8(v) {
        None => None,
        Some(s) => {
            proof {
                encode_utf8_decode_utf8(s@);
            }
            Some((s, p1 + len))
        },
    }
}

/// Is this text short enough for its byte-count to fit the length prefix?
/// Every text held in an executable `String` is.
pub open spec fn wf_text(s: Seq<char>) -> bool {
    encode_utf8(s).len() < pow256(8)
}

/// Is this identity encodable?
pub open spec fn wf_id(v: IdView) -> bool {
    wf_text(v.name)
}

/// Is this identity list encodable?
pub open spec fn wf_ids(ids: Seq<IdView>) -> bool {
    &&& ids.len() < pow256(8)
    &&& forall|i: int| 0 <= i < ids.len() ==> wf_id(#[trigger] ids[i])
}

/// Encoding of an identity: name, then the 16-byte token.
pub open spec fn enc_id(v: IdView) -> Seq<u8> {
    enc_str(v.name) + enc_uint(v.sign as nat, 16)
}

/// Parse an identity off the front of `b`.
pub open spec fn dec_id(b: Seq<u8>) -> Option<(IdView, Seq<u8>)> {
    match dec_str(b) {
        None => None,
        Some((name, r1)) => match dec_fix(r1, 16) {
            None => None,
            Some((sign, r2)) => Some((IdView { name, sign: sign as u128 }, r2)),
        },
    }
}

pub proof fn lemma_id_round_trip(v: IdView, tail: Seq<u8>)
    requires
        wf_id(v),
    ensures
        dec_id(enc_id(v) + tail) == Some((v, tail)),
{
    let sb = enc_uint(v.sign as nat, 16);
    assert(enc_id(v) + tail =~= enc_str(v.name) + (sb + tail));
    lemma_pow256_16_is_u128_range();
    lemma_str_round_trip(v.name, sb + tail);
    lemma_fix_round_trip(v.sign as nat, 16, tail);
}

/// Append the encoding of `id` to `out`.
pub fn write_id(out: &mut Vec<u8>, id: &Id)
    ensures
        final(out)@ == old(out)@ + enc_id(id@),
        wf_id(id@),
{
    write_str(out, id.name());
    proof {
        lemma_pow256_16_is_u128_range();
    }
    write_uint(out, id.sign(), 16);
    assert(out@ =~= old(out)@ + enc_id(id@));
}

/// Read an identity starting at `pos`.
pub fn read_id(buf: &Vec<u8>, pos: usize) -> (r: Option<(Id, usize)>)
    requires
        pos <= buf@.len(),
    ensures
        match r {
            Some(v) => {
                &&& pos <= v.1 <= buf@.len()
                &&& dec_id(buf@.skip(pos as int)) == Some((v.0@, buf@.skip(v.1 as int)))
            },
            None => dec_id(buf@.skip(pos as int)) is None,
        },
{
    let (name, p1) = match read_str(buf, pos) {
        None => {
            return None;
        },
        Some(x) => x,
    };
    let (sign, p2) = match read_uint(buf, p1, 16) {
        None => {
            return None;
        },
        Some(x) => x,
    };
    Some((Id::from_parts(name, sign), p2))
}

/// Encoding of an identity list: 8-byte count, then each identity in order.
pub open spec fn enc_id_seq(ids: Seq<IdView>) -> Seq<u8>
    decreases ids.len(),
{
    if ids.len() == 0 {
        Seq::empty()
    } else {
        enc_id(ids[0]) + enc_id_seq(ids.skip(1))
    }
}

pub open spec fn enc_ids(ids: Seq<IdView>) -> Seq<u8> {
    enc_uint(ids.len(), 8) + enc_id_seq(ids)
}

/// Parse exactly `n` identities off the front of `b`.
pub open spec fn dec_id_seq(b: Seq<u8>, n: nat) -> Option<(Seq<IdView>, Seq<u8>)>
    decreases n,
{
    if n == 0 {
        Some((Seq::empty(), b))
    } else {
        match dec_id(b) {
            None => None,
            Some((v, r1)) => match dec_id_seq(r1, (n - 1) as nat) {
                None => None,
                Some((vs, r2)) => Some((seq![v] + vs, r2)),
            },
        }
    }
}

/// Parse a counted identity list off the front of `b`.
pub open spec fn dec_ids(b: Seq<u8>) -> Option<(Seq<IdView>, Seq<u8>)> {
    match dec_fix(b, 8) {
        None => None,
        Some((n, rest)) => dec_id_seq(rest, n),
    }
}

pub proof fn lemma_id_seq_round_trip(ids: Seq<IdView>, tail: Seq<u8>)
    requires
        forall|i: int| 0 <= i < ids.len() ==> wf_id(#[trigger] ids[i]),
    ensures
        dec_id_seq(enc_id_seq(ids) + tail, ids.len()) == Some((ids, tail)),
    decreases ids.len(),
{
    if ids.len() == 0 {
        assert(enc_id_seq(ids) + tail =~= tail);
        assert(Seq::<IdView>::empty() =~= ids);
    } else {
        let rest = ids.skip(1);
        assert(enc_id_seq(ids) + tail =~= enc_id(ids[0]) + (enc_id_seq(rest) + tail));
        lemma_id_round_trip(ids[0], enc_id_seq(rest) + tail);
        lemma_id_seq_round_trip(rest, tail);
        assert(seq![ids[0]] + rest =~= ids);
    }
}

pub proof fn lemma_ids_round_trip(ids: Seq<IdView>, tail: Seq<u8>)
    requires
        wf_ids(ids),
    ensures
        dec_ids(enc_ids(ids) + tail) == Some((ids, tail)),
{
    assert(enc_ids(ids) + tail =~= enc_uint(ids.len(), 8) + (enc_id_seq(ids) + tail));
    lemma_fix_round_trip(ids.len(), 8, enc_id_seq(ids) + tail);
    lemma_id_seq_round_trip(ids, tail);
}

fn write_id_seq(out: &mut Vec<u8>, ids: &Vec<Id>, i: usize)
    requires
        i <= ids@.len(),
    ensures
        final(out)@ == old(out)@ + enc_id_seq(ids.deep_view().skip(i as int)),
        forall|j: int| i <= j < ids@.len() ==> wf_id(#[trigger] ids.deep_view()[j]),
    decreases ids@.len() - i,
{
    let ghost dv = ids.deep_view();
    if i == ids.len() {
        assert(out@ =~= out@ + enc_id_seq(dv.skip(i as int)));
    } else {
        write_id(out, &ids[i]);
        write_id_seq(out, ids, i + 1);
        proof {
            assert(dv.skip(i as int)[0] == dv[i as int]);
            assert(dv.skip(i as int).skip(1) =~= dv.skip(i + 1));
            assert(out@ =~= old(out)@ + enc_id_seq(dv.skip(i as int)));
        }
    }
}

/// Append the encoding of an identity list to `out`.
pub fn write_ids(out: &mut Vec<u8>, ids: &Vec<Id>)
    ensures
        final(out)@ == old(out)@ + enc_ids(ids.deep_view()),
        wf_ids(ids.deep_view()),
{
    let n = ids.len();
    proof {
        reveal_with_fuel(pow256, 9);
    }
    write_uint(out, n as u128, 8);
    write_id_seq(out, ids, 0);
    proof {
        assert(ids.deep_view().skip(0) =~= ids.deep_view());
        assert(out@ =~= old(out)@ + enc_ids(ids.deep_view()));
    }
}

fn read_id_seq(buf: &Vec<u8>, pos: usize, n: u64) -> (r: Option<(Vec<Id>, usize)>)
    requires
        pos <= buf@.len(),
    ensures
        match r {
            Some(v) => {
                &&& pos <= v.1 <= buf@.len()
                &&& dec_id_seq(buf@.skip(pos as int), n as nat) == Some(
                    (v.0.deep_view(), buf@.skip(v.1 as int)),
                )
            },
            None => dec_id_seq(buf@.skip(pos as int), n as nat) is None,
        },
    decreases n,
{
    if n == 0 {
        let empty: Vec<Id> = Vec::new();
        assert(empty.deep_view() =~= Seq::<IdView>::empty());
        return Some((empty, pos));
    }
    let (id, p1) = match read_id(buf, pos) {
        None => {
            return None;
        },
        Some(x) => x,
    };
    let (mut rest, p2) = match read_id_seq(buf, p1, n - 1) {
        None => {
            return None;
        },
        Some(x) => x,
    };
    let ghost old_rest_dv = rest.deep_view();
    rest.insert(0, id);
    proof {
        assert(rest.deep_view() =~= seq![id@] + old_rest_dv);
    }
    Some((rest, p2))
}

/// Read a counted identity list starting at `pos`.
pub fn read_ids(buf: &Vec<u8>, pos: usize) -> (r: Option<(Vec<Id>, usize)>)
    requires
        pos <= buf@.len(),
    ensures
        match r {
            Some(v) => {
                &&& pos <= v.1 <= buf@.len()
                &&& dec_ids(buf@.skip(pos as int)) == Some(
                    (v.0.deep_view(), buf@.skip(v.1 as int)),
                )
            },
            None => dec_ids(buf@.skip(pos as int)) is None,
        },
{
    let (n, p1) = match read_uint(buf, pos, 8) {
        None => {
            return None;
        },
        Some(x) => x,
    };
    proof {
        reveal_with_fuel(pow256, 9);
    }
    read_id_seq(buf, p1, n as u64)
}

/// Encoding of a disconnect reason: one tag byte.
pub open spec fn enc_reason(r: DisconnectReason) -> Seq<u8> {
    match r {
        DisconnectReason::Manual => seq![0u8],
        DisconnectReason::Timeout => seq![1u8],
    }
}

/// Parse a disconnect reason off the front of `b`.
pub open spec fn dec_reason(b: Seq<u8>) -> Option<(DisconnectReason, Seq<u8>)> {
    if b.len() == 0 {
        None
    } else if b[0] == 0 {
        Some((DisconnectReason::Manual, b.skip(1)))
    } else if b[0] == 1 {
        Some((DisconnectReason::Timeout, b.skip(1)))
    } else {
        None
    }
}

pub proof fn lemma_reason_round_trip(r: DisconnectReason, tail: Seq<u8>)
    ensures
        dec_reason(enc_reason(r) + tail) == Some((r, tail)),
{
    assert((enc_reason(r) + tail).skip(1) =~= tail);
}

fn write_reason(out: &mut Vec<u8>, r: &DisconnectReason)
    ensures
        final(out)@ == old(out)@ + enc_reason(*r),
{
    match r {
        DisconnectReason::Manual => out.push(0u8),
        DisconnectReason::Timeout => out.push(1u8),
    }
    assert(out@ =~= old(out)@ + enc_reason(*r));
}

fn read_reason(buf: &Vec<u8>, pos: usize) -> (r: Option<(DisconnectReason, usize)>)
    requires
        pos <= buf@.len(),
    ensures
        match r {
            Some(v) => {
                &&& pos <= v.1 <= buf@.len()
                &&& dec_reason(buf@.skip(pos as int)) == Some((v.0, buf@.skip(v.1 as int)))
            },
            None => dec_reason(buf@.skip(pos as int)) is None,
        },
{
    if pos == buf.len() {
        return None;
    }
    proof {
        assert(buf@.skip(pos as int)[0] == buf@[pos as int]);
        assert(buf@.skip(pos as int).skip(1) =~= buf@.skip(pos + 1));
    }
    let tag = buf[pos];
    if tag == 0 {
        Some((DisconnectReason::Manual, pos + 1))
    } else if tag == 1 {
        Some((DisconnectReason::Timeout, pos + 1))
    } else {
        None
    }
}

/// Is this target mode encodable?
pub open spec fn wf_target(t: TargetModeView) -> bool {
    match t {
        TargetModeView::Broadcast => true,
        TargetModeView::Multicast(ids) => wf_ids(ids),
        TargetModeView::Unicast(id) => wf_id(id),
    }
}

/// Encoding of a target mode: tag byte, then the named identities.
pub open spec fn enc_target(t: TargetModeView) -> Seq<u8> {
    match t {
        TargetModeView::Broadcast => seq![0u8],
        TargetModeView::Multicast(ids) => seq![1u8] + enc_ids(ids),
        TargetModeView::Unicast(id) => seq![2u8] + enc_id(id),
    }
}

/// Parse a target mode off the front of `b`.
pub open spec fn dec_target(b: Seq<u8>) -> Option<(TargetModeView, Seq<u8>)> {
    if b.len() == 0 {
        None
    } else {
        let rest = b.skip(1);
        if b[0] == 0 {
            Some((TargetModeView::Broadcast, rest))
        } else if b[0] == 1 {
            match dec_ids(rest) {
                None => None,
                Some((ids, r)) => Some((TargetModeView::Multicast(ids), r)),
            }
        } else if b[0] == 2 {
            match dec_id(rest) {
                None => None,
                Some((id, r)) => Some((TargetModeView::Unicast(id), r)),
            }
        } else {
            None
        }
    }
}

pub proof fn lemma_target_round_trip(t: TargetModeView, tail: Seq<u8>)
    requires
        wf_target(t),
    ensures
        dec_target(enc_target(t) + tail) == Some((t, tail)),
{
    match t {
        TargetModeView::Broadcast => {
            assert((enc_target(t) + tail).skip(1) =~= tail);
        },
        TargetModeView::Multicast(ids) => {
            assert((enc_target(t) + tail).skip(1) =~= enc_ids(ids) + tail);
            lemma_ids_round_trip(ids, tail);
        },
        TargetModeView::Unicast(id) => {
            assert((enc_target(t) + tail).skip(1) =~= enc_id(id) + tail);
            lemma_id_round_trip(id, tail);
        },
    }
}

fn write_target(out: &mut Vec<u8>, t: &TargetMode)
    ensures
        final(out)@ == old(out)@ + enc_target(t@),
        wf_target(t@),
{
    match t {
        TargetMode::Broadcast => {
            out.push(0u8);
        },
        TargetMode::Multicast(ids) => {
            out.push(1u8);
            write_ids(out, ids);
        },
        TargetMode::Unicast(id) => {
            out.push(2u8);
            write_id(out, id);
        },
    }
    assert(out@ =~= old(out)@ + enc_target(t@));
}

fn read_target(buf: &Vec<u8>, pos: usize) -> (r: Option<(TargetMode, usize)>)
    requires
        pos <= buf@.len(),
    ensures
        match r {
            Some(v) => {
                &&& pos <= v.1 <= buf@.len()
                &&& dec_target(buf@.skip(pos as int)) == Some((v.0@, buf@.skip(v.1 as int)))
            },
            None => dec_target(buf@.skip(pos as int)) is None,
        },
{
    if pos == buf.len() {
        return None;
    }
    proof {
        assert(buf@.skip(pos as int)[0] == buf@[pos as int]);
        assert(buf@.skip(pos as int).skip(1) =~= buf@.skip(pos + 1));
    }
    let tag = buf[pos];
    if tag == 0 {
        Some((TargetMode::Broadcast, pos + 1))
    } else if tag == 1 {
        match read_ids(buf, pos + 1) {
            None => None,
            Some((ids, end)) => Some((TargetMode::Multicast(ids), end)),
        }
    } else if tag == 2 {
        match read_id(buf, pos + 1) {
            None => None,
            Some((id, end)) => Some((TargetMode::Unicast(id), end)),
        }
    } else {
        None
    }
}

/// Is this client payload encodable?
pub open spec fn wf_client(c: ClientPacketView) -> bool {
    match c {
        ClientPacketView::Message(tm, text) => wf_target(tm) && wf_text(text),
        _ => true,
    }
}

/// Encoding of a client payload: tag byte, then the variant's fields.
pub open spec fn enc_client(c: ClientPacketView) -> Seq<u8> {
    match c {
        ClientPacketView::Connect => seq![0u8],
        ClientPacketView::Disconnect => seq![1u8],
        ClientPacketView::Message(tm, text) => seq![2u8] + enc_target(tm) + enc_str(text),
        ClientPacketView::RequestPeers => seq![3u8],
    }
}

/// Parse a client payload off the front of `b`.
pub open spec fn dec_client(b: Seq<u8>) -> Option<(ClientPacketView, Seq<u8>)> {
    if b.len() == 0 {
        None
    } else {
        let rest = b.skip(1);
        if b[0] == 0 {
            Some((ClientPacketView::Connect, rest))
        } else if b[0] == 1 {
            Some((ClientPacketView::Disconnect, rest))
        } else if b[0] == 2 {
            match dec_target(rest) {
                None => None,
                Some((tm, r1)) => match dec_str(r1) {
                    None => None,
                    Some((text, r2)) => Some((ClientPacketView::Message(tm, text), r2)),
                },
            }
        } else if b[0] == 3 {
            Some((ClientPacketView::RequestPeers, rest))
        } else {
            None
        }
    }
}

pub proof fn lemma_client_round_trip(c: ClientPacketView, tail: Seq<u8>)
    requires
        wf_client(c),
    ensures
        dec_client(enc_client(c) + tail) == Some((c, tail)),
{
    match c {
        ClientPacketView::Message(tm, text) => {
            assert((enc_client(c) + tail).skip(1) =~= enc_target(tm) + (enc_str(text) + tail));
            lemma_target_round_trip(tm, enc_str(text) + tail);
            lemma_str_round_trip(text, tail);
        },
        _ => {
            assert((enc_client(c) + tail).skip(1) =~= tail);
        },
    }
}

fn write_client(out: &mut Vec<u8>, c: &ClientPacket)
    ensures
        final(out)@ == old(out)@ + enc_client(c@),
        wf_client(c@),
{
    match c {
        ClientPacket::Connect => {
            out.push(0u8);
        },
        ClientPacket::Disconnect => {
            out.push(1u8);
        },
        ClientPacket::Message(tm, text) => {
            out.push(2u8);
            write_target(out, tm);
            write_str(out, text);
        },
        ClientPacket::RequestPeers => {
            out.push(3u8);
        },
    }
    assert(out@ =~= old(out)@ + enc_client(c@));
}

fn read_client(buf: &Vec<u8>, pos: usize) -> (r: Option<(ClientPacket, usize)>)
    requires
        pos <= buf@.len(),
    ensures
        match r {
            Some(v) => {
                &&& pos <= v.1 <= buf@.len()
                &&& dec_client(buf@.skip(pos as int)) == Some((v.0@, buf@.skip(v.1 as int)))
            },
            None => dec_client(buf@.skip(pos as int)) is None,
        },
{
    if pos == buf.len() {
        return None;
    }
    proof {
        assert(buf@.skip(pos as int)[0] == buf@[pos as int]);
        assert(buf@.skip(pos as int).skip(1) =~= buf@.skip(pos + 1));
    }
    let tag = buf[pos];
    if tag == 0 {
        Some((ClientPacket::Connect, pos + 1))
    } else if tag == 1 {
        Some((ClientPacket::Disconnect, pos + 1))
    } else if tag == 2 {
        let (tm, p1) = match read_target(buf, pos + 1) {
            None => {
                return None;
            },
            Some(x) => x,
        };
        let (text, p2) = match read_str(buf, p1) {
            None => {
                return None;
            },
            Some(x) => x,
        };
        Some((ClientPacket::Message(tm, text), p2))
    } else if tag == 3 {
        Some((ClientPacket::RequestPeers, pos + 1))
    } else {
        None
    }
}

/// Is this server payload encodable?
pub open spec fn wf_server(s: ServerPacketView) -> bool {
    match s {
        ServerPacketView::PeerConnected(id) => wf_id(id),
        ServerPacketView::PeerDisconnected(id, _) => wf_id(id),
        ServerPacketView::PeerTimedOut(id) => wf_id(id),
        ServerPacketView::Message { source, target_mode, text } => wf_id(source) && wf_target(
            target_mode,
        ) && wf_text(text),
        ServerPacketView::RequestReply(ids) => wf_ids(ids),
    }
}

/// Encoding of a server payload: tag byte, then the variant's fields.
pub open spec fn enc_server(s: ServerPacketView) -> Seq<u8> {
    match s {
        ServerPacketView::PeerConnected(id) => seq![0u8] + enc_id(id),
        ServerPacketView::PeerDisconnected(id, reason) => seq![1u8] + enc_id(id) + enc_reason(
            reason,
        ),
        ServerPacketView::PeerTimedOut(id) => seq![2u8] + enc_id(id),
        ServerPacketView::Message { source, target_mode, text } => seq![3u8] + enc_id(source)
            + enc_target(target_mode) + enc_str(text),
        ServerPacketView::RequestReply(ids) => seq![4u8] + enc_ids(ids),
    }
}

/// Parse a server payload off the front of `b`.
pub open spec fn dec_server(b: Seq<u8>) -> Option<(ServerPacketView, Seq<u8>)> {
    if b.len() == 0 {
        None
    } else {
        let rest = b.skip(1);
        if b[0] == 0 {
            match dec_id(rest) {
                None => None,
                Some((id, r)) => Some((ServerPacketView::PeerConnected(id), r)),
            }
        } else if b[0] == 1 {
            match dec_id(rest) {
                None => None,
                Some((id, r1)) => match dec_reason(r1) {
                    None => None,
                    Some((reason, r2)) => Some((ServerPacketView::PeerDisconnected(id, reason), r2)),
                },
            }
        } else if b[0] == 2 {
            match dec_id(rest) {
                None => None,
                Some((id, r)) => Some((ServerPacketView::PeerTimedOut(id), r)),
            }
        } else if b[0] == 3 {
            match dec_id(rest) {
                None => None,
                Some((source, r1)) => match dec_target(r1) {
                    None => None,
                    Some((target_mode, r2)) => match dec_str(r2) {
                        None => None,
                        Some((text, r3)) => Some(
                            (ServerPacketView::Message { source, target_mode, text }, r3),
                        ),
                    },
                },
            }
        } else if b[0] == 4 {
            match dec_ids(rest) {
                None => None,
                Some((ids, r)) => Some((ServerPacketView::RequestReply(ids), r)),
            }
        } else {
            None
        }
    }
}

#[verifier::rlimit(60)]
pub proof fn lemma_server_round_trip(s: ServerPacketView, tail: Seq<u8>)
    requires
        wf_server(s),
    ensures
        dec_server(enc_server(s) + tail) == Some((s, tail)),
{
    match s {
        ServerPacketView::PeerConnected(id) => {
            assert((enc_server(s) + tail).skip(1) =~= enc_id(id) + tail);
            lemma_id_round_trip(id, tail);
        },
        ServerPacketView::PeerDisconnected(id, reason) => {
            assert((enc_server(s) + tail).skip(1) =~= enc_id(id) + (enc_reason(reason) + tail));
            lemma_id_round_trip(id, enc_reason(reason) + tail);
            lemma_reason_round_trip(reason, tail);
        },
        ServerPacketView::PeerTimedOut(id) => {
            assert((enc_server(s) + tail).skip(1) =~= enc_id(id) + tail);
            lemma_id_round_trip(id, tail);
        },
        ServerPacketView::Message { source, target_mode, text } => {
            assert((enc_server(s) + tail).skip(1) =~= enc_id(source) + (enc_target(target_mode) + (
            enc_str(text) + tail)));
            lemma_id_round_trip(source, enc_target(target_mode) + (enc_str(text) + tail));
            lemma_target_round_trip(target_mode, enc_str(text) + tail);
            lemma_str_round_trip(text, tail);
        },
        ServerPacketView::RequestReply(ids) => {
            assert((enc_server(s) + tail).skip(1) =~= enc_ids(ids) + tail);
            lemma_ids_round_trip(ids, tail);
        },
    }
}

fn write_server(out: &mut Vec<u8>, s: &ServerPacket)
    ensures
        final(out)@ == old(out)@ + enc_server(s@),
        wf_server(s@),
{
    match s {
        ServerPacket::PeerConnected(id) => {
            out.push(0u8);
            write_id(out, id);
        },
        ServerPacket::PeerDisconnected(id, reason) => {
            out.push(1u8);
            write_id(out, id);
            write_reason(out, reason);
        },
        ServerPacket::PeerTimedOut(id) => {
            out.push(2u8);
            write_id(out, id);
        },
        ServerPacket::Message { source, target_mode, text } => {
            out.push(3u8);
            write_id(out, source);
            write_target(out, target_mode);
            write_str(out, text);
        },
        ServerPacket::RequestReply(ids) => {
            out.push(4u8);
            write_ids(out, ids);
        },
    }
    assert(out@ =~= old(out)@ + enc_server(s@));
}

fn read_server(buf: &Vec<u8>, pos: usize) -> (r: Option<(ServerPacket, usize)>)
    requires
        pos <= buf@.len(),
    ensures
        match r {
            Some(v) => {
                &&& pos <= v.1 <= buf@.len()
                &&& dec_server(buf@.skip(pos as int)) == Some((v.0@, buf@.skip(v.1 as int)))
            },
            None => dec_server(buf@.skip(pos as int)) is None,
        },
{
    if pos == buf.len() {
        return None;
    }
    proof {
        assert(buf@.skip(pos as int)[0] == buf@[pos as int]);
        assert(buf@.skip(pos as int).skip(1) =~= buf@.skip(pos + 1));
    }
    let tag = buf[pos];
    if tag == 0 {
        match read_id(buf, pos + 1) {
            None => None,
            Some((id, end)) => Some((ServerPacket::PeerConnected(id), end)),
        }
    } else if tag == 1 {
        let (id, p1) = match read_id(buf, pos + 1) {
            None => {
                return None;
            },
            Some(x) => x,
        };
        let (reason, p2) = match read_reason(buf, p1) {
            None => {
                return None;
            },
            Some(x) => x,
        };
        Some((ServerPacket::PeerDisconnected(id, reason), p2))
    } else if tag == 2 {
        match read_id(buf, pos + 1) {
            None => None,
            Some((id, end)) => Some((ServerPacket::PeerTimedOut(id), end)),
        }
    } else if tag == 3 {
        let (source, p1) = match read_id(buf, pos + 1) {
            None => {
                return None;
            },
            Some(x) => x,
        };
        let (target_mode, p2) = match read_target(buf, p1) {
            None => {
                return None;
            },
            Some(x) => x,
        };
        let (text, p3) = match read_str(buf, p2) {
            None => {
                return None;
            },
            Some(x) => x,
        };
        Some((ServerPacket::Message { source, target_mode, text }, p3))
    } else if tag == 4 {
        match read_ids(buf, pos + 1) {
            None => None,
            Some((ids, end)) => Some((ServerPacket::RequestReply(ids), end)),
        }
    } else {
        None
    }
}

/// Is this payload encodable?
pub open spec fn wf_ptype(p: PacketTypeView) -> bool {
    match p {
        PacketTypeView::Client(c) => wf_client(c),
        PacketTypeView::Server(s) => wf_server(s),
        PacketTypeView::Heartbeat => true,
    }
}

/// Encoding of a payload: tag byte, then the payload itself.
pub open spec fn enc_ptype(p: PacketTypeView) -> Seq<u8> {
    match p {
        PacketTypeView::Client(c) => seq![0u8] + enc_client(c),
        PacketTypeView::Server(s) => seq![1u8] + enc_server(s),
        PacketTypeView::Heartbeat => seq![2u8],
    }
}

/// Parse a payload off the front of `b`.
pub open spec fn dec_ptype(b: Seq<u8>) -> Option<(PacketTypeView, Seq<u8>)> {
    if b.len() == 0 {
        None
    } else {
        let rest = b.skip(1);
        if b[0] == 0 {
            match dec_client(rest) {
                None => None,
                Some((c, r)) => Some((PacketTypeView::Client(c), r)),
            }
        } else if b[0] == 1 {
            match dec_server(rest) {
                None => None,
                Some((s, r)) => Some((PacketTypeView::Server(s), r)),
            }
        } else if b[0] == 2 {
            Some((PacketTypeView::Heartbeat, rest))
        } else {
            None
        }
    }
}

pub proof fn lemma_ptype_round_trip(p: PacketTypeView, tail: Seq<u8>)
    requires
        wf_ptype(p),
    ensures
        dec_ptype(enc_ptype(p) + tail) == Some((p, tail)),
{
    match p {
        PacketTypeView::Client(c) => {
            assert((enc_ptype(p) + tail).skip(1) =~= enc_client(c) + tail);
            lemma_client_round_trip(c, tail);
        },
        PacketTypeView::Server(s) => {
            assert((enc_ptype(p) + tail).skip(1) =~= enc_server(s) + tail);
            lemma_server_round_trip(s, tail);
        },
        PacketTypeView::Heartbeat => {
            assert((enc_ptype(p) + tail).skip(1) =~= tail);
        },
    }
}

fn write_ptype(out: &mut Vec<u8>, p: &PacketType)
    ensures
        final(out)@ == old(out)@ + enc_ptype(p@),
        wf_ptype(p@),
{
    match p {
        PacketType::Client(c) => {
            out.push(0u8);
            write_client(out, c);
        },
        PacketType::Server(s) => {
            out.push(1u8);
            write_server(out, s);
        },
        PacketType::Heartbeat => {
            out.push(2u8);
        },
    }
    assert(out@ =~= old(out)@ + enc_ptype(p@));
}

fn read_ptype(buf: &Vec<u8>, pos: usize) -> (r: Option<(PacketType, usize)>)
    requires
        pos <= buf@.len(),
    ensures
        match r {
            Some(v) => {
                &&& pos <= v.1 <= buf@.len()
                &&& dec_ptype(buf@.skip(pos as int)) == Some((v.0@, buf@.skip(v.1 as int)))
            },
            None => dec_ptype(buf@.skip(pos as int)) is None,
        },
{
    if pos == buf.len() {
        return None;
    }
    proof {
        assert(buf@.skip(pos as int)[0] == buf@[pos as int]);
        assert(buf@.skip(pos as int).skip(1) =~= buf@.skip(pos + 1));
    }
    let tag = buf[pos];
    if tag == 0 {
        match read_client(buf, pos + 1) {
            None => None,
            Some((c, end)) => Some((PacketType::Client(c), end)),
        }
    } else if tag == 1 {
        match read_server(buf, pos + 1) {
            None => None,
            Some((s, end)) => Some((PacketType::Server(s), end)),
        }
    } else if tag == 2 {
        Some((PacketType::Heartbeat, pos + 1))
    } else {
        None
    }
}

/// Is this header encodable?
pub open spec fn wf_header(h: PacketHeaderView) -> bool {
    wf_id(h.source)
}

/// Encoding of a header: source identity, then the 16-byte timestamp.
pub open spec fn enc_header(h: PacketHeaderView) -> Seq<u8> {
    enc_id(h.source) + enc_uint(h.timestamp as nat, 16)
}

/// Parse a header off the front of `b`.
pub open spec fn dec_header(b: Seq<u8>) -> Option<(PacketHeaderView, Seq<u8>)> {
    match dec_id(b) {
        None => None,
        Some((source, r1)) => match dec_fix(r1, 16) {
            None => None,
            Some((ts, r2)) => Some((PacketHeaderView { source, timestamp: ts as u128 }, r2)),
        },
    }
}

pub proof fn lemma_header_round_trip(h: PacketHeaderView, tail: Seq<u8>)
    requires
        wf_header(h),
    ensures
        dec_header(enc_header(h) + tail) == Some((h, tail)),
{
    let tb = enc_uint(h.timestamp as nat, 16);
    assert(enc_header(h) + tail =~= enc_id(h.source) + (tb + tail));
    lemma_pow256_16_is_u128_range();
    lemma_id_round_trip(h.source, tb + tail);
    lemma_fix_round_trip(h.timestamp as nat, 16, tail);
}

fn write_header(out: &mut Vec<u8>, h: &PacketHeader)
    ensures
        final(out)@ == old(out)@ + enc_header(h@),
        wf_header(h@),
{
    write_id(out, h.source());
    proof {
        lemma_pow256_16_is_u128_range();
    }
    write_uint(out, h.timestamp(), 16);
    assert(out@ =~= old(out)@ + enc_header(h@));
}

fn read_header(buf: &Vec<u8>, pos: usize) -> (r: Option<(PacketHeader, usize)>)
    requires
        pos <= buf@.len(),
    ensures
        match r {
            Some(v) => {
                &&& pos <= v.1 <= buf@.len()
                &&& dec_header(buf@.skip(pos as int)) == Some((v.0@, buf@.skip(v.1 as int)))
            },
            None => dec_header(buf@.skip(pos as int)) is None,
        },
{
    let (source, p1) = match read_id(buf, pos) {
        None => {
            return None;
        },
        Some(x) => x,
    };
    let (ts, p2) = match read_uint(buf, p1, 16) {
        None => {
            return None;
        },
        Some(x) => x,
    };
    Some((PacketHeader::from_parts(source, ts), p2))
}

/// Is this packet encodable? Every packet held in executable types is; the
/// predicate only bounds the lengths inside by what the length prefixes hold.
pub open spec fn wf_packet(p: PacketView) -> bool {
    wf_header(p.header) && wf_ptype(p.payload)
}

/// Encoding of a whole packet: header, then payload.
pub open spec fn enc_packet(p: PacketView) -> Seq<u8> {
    enc_header(p.header) + enc_ptype(p.payload)
}

/// Parse a whole packet off the front of `b`.
pub open spec fn dec_packet(b: Seq<u8>) -> Option<(PacketView, Seq<u8>)> {
    match dec_header(b) {
        None => None,
        Some((header, r1)) => match dec_ptype(r1) {
            None => None,
            Some((payload, r2)) => Some((PacketView { header, payload }, r2)),
        },
    }
}

/// Round trip: parsing the encoding of any encodable packet value, whatever
/// follows it in the buffer, gives exactly that packet back and leaves
/// exactly that suffix.
pub proof fn lemma_packet_round_trip(p: PacketView, tail: Seq<u8>)
    requires
        wf_packet(p),
    ensures
        dec_packet(enc_packet(p) + tail) == Some((p, tail)),
{
    assert(enc_packet(p) + tail =~= enc_header(p.header) + (enc_ptype(p.payload) + tail));
    lemma_header_round_trip(p.header, enc_ptype(p.payload) + tail);
    lemma_ptype_round_trip(p.payload, tail);
}

/// Encode `p` into a fresh byte vector. The second clause records that every
/// packet an executable program can hold is encodable, which is what
/// [`lemma_packet_round_trip`] asks for.
pub fn encode_packet(p: &Packet) -> (r: Vec<u8>)
    ensures
        r@ == enc_packet(p@),
        wf_packet(p@),
{
    let mut out: Vec<u8> = Vec::new();
    write_header(&mut out, &p.header);
    write_ptype(&mut out, &p.payload);
    assert(out@ =~= enc_packet(p@));
    out
}

/// Decode the packet at the front of `buf`; bytes past it are ignored, as for
/// a reader that consumes a prefix of a stream. Fails exactly where no packet
/// parses.
pub fn decode_packet(buf: &Vec<u8>) -> (r: TResult<Packet>)
    ensures
        match dec_packet(buf@) {
            Some(v) => r matches Ok(p) && p@ == v.0,
            None => r matches Err(TellErr::Decode),
        },
{
    proof {
        assert(buf@.skip(0) =~= buf@);
    }
    let (header, p1) = match read_header(buf, 0) {
        None => {
            return Err(TellErr::Decode);
        },
        Some(x) => x,
    };
    let (payload, _p2) = match read_ptype(buf, p1) {
        None => {
            return Err(TellErr::Decode);
        },
        Some(x) => x,
    };
    Ok(Packet { header, payload })
}

} // verus!
