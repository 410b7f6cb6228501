use vstd::prelude::*;
use vstd::slice::{slice_subrange, slice_to_vec};
use crate::companion::CompanionRequest;

verus! {

/// A 32-bit length, little endian.
pub open spec fn le32(n: u32) -> Seq<u8> {
    seq![
        (n & 0xff) as u8,
        ((n >> 8) & 0xff) as u8,
        ((n >> 16) & 0xff) as u8,
        ((n >> 24) & 0xff) as u8,
    ]
}

/// The value four little-endian bytes carry.
pub open spec fn le32_val(b: Seq<u8>) -> u32 {
    (b[0] as u32) | ((b[1] as u32) << 8) | ((b[2] as u32) << 16) | ((b[3] as u32) << 24)
}

proof fn lemma_le32_roundtrip(n: u32)
    ensures
        le32_val(le32(n)) == n,
{
    assert(((((n & 0xff) as u8) as u32) | ((((n >> 8) & 0xff) as u8) as u32) << 8 | ((((n >> 16)
        & 0xff) as u8) as u32) << 16 | ((((n >> 24) & 0xff) as u8) as u32) << 24) == n)
        by (bit_vector);
}

/// A length-prefixed byte string.
pub open spec fn enc_chunk(b: Seq<u8>) -> Seq<u8> {
    le32(b.len() as u32) + b
}

/// An ordered list of key/value byte strings, each length-prefixed.
pub open spec fn enc_pairs(ps: Seq<(Seq<u8>, Seq<u8>)>) -> Seq<u8>
    decreases ps.len(),
{
    if ps.len() == 0 {
        Seq::empty()
    } else {
        enc_chunk(ps.first().0) + enc_chunk(ps.first().1) + enc_pairs(ps.drop_first())
    }
}

proof fn lemma_enc_pairs_push(ps: Seq<(Seq<u8>, Seq<u8>)>, e: (Seq<u8>, Seq<u8>))
    ensures
        enc_pairs(ps.push(e)) == enc_pairs(ps) + enc_chunk(e.0) + enc_chunk(e.1),
    decreases ps.len(),
{
    if ps.len() == 0 {
        assert(ps.push(e).first() == e);
        assert(ps.push(e).drop_first() =~= ps);
        assert(enc_pairs(ps.push(e)) == enc_chunk(e.0) + enc_chunk(e.1) + enc_pairs(ps));
        assert(enc_chunk(e.0) + enc_chunk(e.1) + enc_pairs(ps) =~= enc_pairs(ps) + enc_chunk(e.0)
            + enc_chunk(e.1));
    } else {
        assert(ps.push(e).first() == ps.first());
        assert(ps.push(e).drop_first() =~= ps.drop_first().push(e));
        assert(enc_pairs(ps.push(e)) == enc_chunk(ps.first().0) + enc_chunk(ps.first().1)
            + enc_pairs(ps.drop_first().push(e)));
        lemma_enc_pairs_push(ps.drop_first(), e);
        assert(enc_chunk(ps.first().0) + enc_chunk(ps.first().1) + (enc_pairs(ps.drop_first())
            + enc_chunk(e.0) + enc_chunk(e.1)) =~= enc_pairs(ps) + enc_chunk(e.0)
            + enc_chunk(e.1));
    }
}

/// Reads one length-prefixed byte string: its contents and the remainder.
pub open spec fn dec_chunk(s: Seq<u8>) -> Option<(Seq<u8>, Seq<u8>)> {
    if s.len() >= 4 {
        let n = le32_val(s.subrange(0, 4)) as int;
        if s.len() >= 4 + n {
            Some((s.subrange(4, 4 + n), s.skip(4 + n)))
        } else {
            None
        }
    } else {
        None
    }
}

/// Reads `count` key/value pairs: the pairs and the remainder.
pub open spec fn dec_pairs(s: Seq<u8>, count: nat) -> Option<
    (Seq<(Seq<u8>, Seq<u8>)>, Seq<u8>),
>
    decreases count,
{
    if count == 0 {
        Some((Seq::empty(), s))
    } else {
        match dec_chunk(s) {
            Some((k, r1)) => match dec_chunk(r1) {
                Some((v, r2)) => match dec_pairs(r2, (count - 1) as nat) {
                    Some((ps, r3)) => Some((seq![(k, v)] + ps, r3)),
                    None => None,
                },
                None => None,
            },
            None => None,
        }
    }
}

proof fn lemma_dec_chunk_of_enc(b: Seq<u8>, rest: Seq<u8>)
    requires
        b.len() < 0x100000000,
    ensures
        dec_chunk(enc_chunk(b) + rest) == Some((b, rest)),
{
    let s = enc_chunk(b) + rest;
    assert(s.subrange(0, 4) =~= le32(b.len() as u32));
    lemma_le32_roundtrip(b.len() as u32);
    assert(s.subrange(4, 4 + b.len() as int) =~= b);
    assert(s.skip(4 + b.len() as int) =~= rest);
}

/// Every chunk of the list fits a 32-bit length.
pub open spec fn pairs_sizes_ok(ps: Seq<(Seq<u8>, Seq<u8>)>) -> bool {
    forall|i: int| 0 <= i < ps.len() ==> (#[trigger] ps[i]).0.len() < 0x100000000
        && ps[i].1.len() < 0x100000000
}

proof fn lemma_dec_pairs_of_enc(ps: Seq<(Seq<u8>, Seq<u8>)>, rest: Seq<u8>)
    requires
        pairs_sizes_ok(ps),
    ensures
        dec_pairs(enc_pairs(ps) + rest, ps.len() as nat) == Some((ps, rest)),
    decreases ps.len(),
{
    if ps.len() == 0 {
        assert(enc_pairs(ps) + rest =~= rest);
    } else {
        let e = ps.first();
        let tail = ps.drop_first();
        let s = enc_pairs(ps) + rest;
        assert(s =~= enc_chunk(e.0) + (enc_chunk(e.1) + (enc_pairs(tail) + rest)));
        lemma_dec_chunk_of_enc(e.0, enc_chunk(e.1) + (enc_pairs(tail) + rest));
        lemma_dec_chunk_of_enc(e.1, enc_pairs(tail) + rest);
        assert(pairs_sizes_ok(tail)) by {
            assert forall|i: int| 0 <= i < tail.len() implies (#[trigger] tail[i]).0.len()
                < 0x100000000 && tail[i].1.len() < 0x100000000 by {
                assert(tail[i] == ps[i + 1]);
            }
        }
        lemma_dec_pairs_of_enc(tail, rest);
        assert(seq![(e.0, e.1)] + tail =~= ps);
    }
}

/// A companion request as it crosses the process boundary: the identity
/// key as UTF-8, the property map as an ordered list of key/value UTF-8
/// string pairs.
pub enum WireRequest {
    Restore(Vec<u8>),
    Spoof(Vec<u8>, Vec<(Vec<u8>, Vec<u8>)>),
}

/// Mathematical content of a `WireRequest`.
pub enum WireRequestView {
    Restore(Seq<u8>),
    Spoof(Seq<u8>, Seq<(Seq<u8>, Seq<u8>)>),
}

/// The byte-sequence view of a decoded pair list.
pub open spec fn pairs_bytes(v: Seq<(Vec<u8>, Vec<u8>)>) -> Seq<(Seq<u8>, Seq<u8>)> {
    v.map_values(|p: (Vec<u8>, Vec<u8>)| (p.0@, p.1@))
}

impl View for WireRequest {
    type V = WireRequestView;

    open spec fn view(&self) -> WireRequestView {
        match self {
            WireRequest::Restore(id) => WireRequestView::Restore(id@),
            WireRequest::Spoof(id, ps) => WireRequestView::Spoof(id@, pairs_bytes(ps@)),
        }
    }
}

/// The stable frame of a request: a tag byte, the identity chunk, and for
/// a spoof the pair count and the pairs.
pub open spec fn spec_encode_request(v: WireRequestView) -> Seq<u8> {
    match v {
        WireRequestView::Restore(id) => seq![1u8] + enc_chunk(id),
        WireRequestView::Spoof(id, ps) => seq![2u8] + enc_chunk(id) + le32(ps.len() as u32)
            + enc_pairs(ps),
    }
}

/// Whether every length of the request fits its 32-bit frame field.
pub open spec fn wire_sizes_ok(v: WireRequestView) -> bool {
    match v {
        WireRequestView::Restore(id) => id.len() < 0x100000000,
        WireRequestView::Spoof(id, ps) => id.len() < 0x100000000 && ps.len() < 0x100000000
            && pairs_sizes_ok(ps),
    }
}

/// What a byte sequence decodes to, if it is exactly one well-formed frame.
pub open spec fn spec_decode_request(s: Seq<u8>) -> Option<WireRequestView> {
    if s.len() == 0 {
        None
    } else if s[0] == 1u8 {
        match dec_chunk(s.drop_first()) {
            Some((id, rest)) => if rest.len() == 0 {
                Some(WireRequestView::Restore(id))
            } else {
                None
            },
            None => None,
        }
    } else if s[0] == 2u8 {
        match dec_chunk(s.drop_first()) {
            Some((id, r1)) => if r1.len() >= 4 {
                match dec_pairs(r1.skip(4), le32_val(r1.subrange(0, 4)) as nat) {
                    Some((ps, r2)) => if r2.len() == 0 {
                        Some(WireRequestView::Spoof(id, ps))
                    } else {
                        None
                    },
                    None => None,
                }
            } else {
                None
            },
            None => None,
        }
    } else {
        None
    }
}

/// The wire format is stable: a request whose lengths fit the frame
/// decodes, on the other side of the boundary, to exactly itself.
pub proof fn lemma_wire_roundtrip(v: WireRequestView)
    requires
        wire_sizes_ok(v),
    ensures
        spec_decode_request(spec_encode_request(v)) == Some(v),
{
    match v {
        WireRequestView::Restore(id) => {
            let s = spec_encode_request(v);
            assert(s[0] == 1u8);
            assert(s.drop_first() =~= enc_chunk(id) + Seq::<u8>::empty());
            lemma_dec_chunk_of_enc(id, Seq::empty());
        },
        WireRequestView::Spoof(id, ps) => {
            let s = spec_encode_request(v);
            assert(s[0] == 2u8);
            assert(s.drop_first() =~= enc_chunk(id) + (le32(ps.len() as u32) + enc_pairs(ps)));
            lemma_dec_chunk_of_enc(id, le32(ps.len() as u32) + enc_pairs(ps));
            let r1 = le32(ps.len() as u32) + enc_pairs(ps);
            assert(r1.subrange(0, 4) =~= le32(ps.len() as u32));
            lemma_le32_roundtrip(ps.len() as u32);
            assert(r1.skip(4) =~= enc_pairs(ps) + Seq::<u8>::empty());
            lemma_dec_pairs_of_enc(ps, Seq::empty());
        },
    }
}

/// Reads the little-endian length at the start of `buf`.
fn read_le32(buf: &[u8]) -> (r: u32)
    requires
        buf@.len() >= 4,
    ensures
        r == le32_val(buf@.subrange(0, 4)),
{
    let b0 = *vstd::slice::slice_index_get(buf, 0);
    let b1 = *vstd::slice::slice_index_get(buf, 1);
    let b2 = *vstd::slice::slice_index_get(buf, 2);
    let b3 = *vstd::slice::slice_index_get(buf, 3);
    proof {
        assert(buf@.subrange(0, 4)[0] == buf@[0]);
        assert(buf@.subrange(0, 4)[1] == buf@[1]);
        assert(buf@.subrange(0, 4)[2] == buf@[2]);
        assert(buf@.subrange(0, 4)[3] == buf@[3]);
    }
    (b0 as u32) | ((b1 as u32) << 8) | ((b2 as u32) << 16) | ((b3 as u32) << 24)
}

/// Appends the little-endian length field for `n`.
fn push_le32(out: &mut Vec<u8>, n: u32)
    ensures
        final(out)@ == old(out)@ + le32(n),
{
    out.push((n & 0xff) as u8);
    out.push(((n >> 8) & 0xff) as u8);
    out.push(((n >> 16) & 0xff) as u8);
    out.push(((n >> 24) & 0xff) as u8);
    proof {
        assert(out@ =~= old(out)@ + le32(n));
    }
}

/// Appends one length-prefixed byte string.
fn push_chunk(out: &mut Vec<u8>, b: &Vec<u8>)
    requires
        b@.len() < 0x100000000,
    ensures
        final(out)@ == old(out)@ + enc_chunk(b@),
{
    push_le32(out, b.len() as u32);
    out.extend_from_slice(b.as_slice());
    proof {
        assert(out@ =~= old(out)@ + enc_chunk(b@));
    }
}

/// Whether every chunk of the pair list fits a 32-bit length field.
fn pairs_fit(ps: &Vec<(Vec<u8>, Vec<u8>)>) -> (r: bool)
    ensures
        r == pairs_sizes_ok(pairs_bytes(ps@)),
{
    let n: usize = ps.len();
    let mut i: usize = 0;
    while i < n
        invariant
            n == ps@.len(),
            0 <= i <= n,
            forall|j: int| 0 <= j < i ==> (#[trigger] pairs_bytes(ps@)[j]).0.len() < 0x100000000
                && pairs_bytes(ps@)[j].1.len() < 0x100000000,
        decreases n - i,
    {
        let too_long = ps[i].0.len() > 0xffffffff || ps[i].1.len() > 0xffffffff;
        proof {
            assert(pairs_bytes(ps@)[i as int] == (ps@[i as int].0@, ps@[i as int].1@));
        }
        if too_long {
            return false;
        }
        i = i + 1;
    }
    true
}

/// Appends the framed pair list.
fn push_pairs(out: &mut Vec<u8>, ps: &Vec<(Vec<u8>, Vec<u8>)>)
    requires
        pairs_sizes_ok(pairs_bytes(ps@)),
    ensures
        final(out)@ == old(out)@ + enc_pairs(pairs_bytes(ps@)),
{
    let n: usize = ps.len();
    let mut i: usize = 0;
    proof {
        assert(pairs_bytes(ps@).take(0) =~= Seq::<(Seq<u8>, Seq<u8>)>::empty());
        assert(out@ =~= old(out)@ + enc_pairs(pairs_bytes(ps@).take(0)));
    }
    while i < n
        invariant
            n == ps@.len(),
            0 <= i <= n,
            pairs_sizes_ok(pairs_bytes(ps@)),
            out@ == old(out)@ + enc_pairs(pairs_bytes(ps@).take(i as int)),
        decreases n - i,
    {
        let e = &ps[i];
        proof {
            assert(pairs_bytes(ps@)[i as int] == (e.0@, e.1@));
        }
        push_chunk(out, &e.0);
        push_chunk(out, &e.1);
        proof {
            let pb = pairs_bytes(ps@);
            assert(pb.take(i as int + 1) =~= pb.take(i as int).push(pb[i as int]));
            lemma_enc_pairs_push(pb.take(i as int), pb[i as int]);
            assert(out@ =~= old(out)@ + enc_pairs(pb.take(i as int + 1)));
        }
        i = i + 1;
    }
    proof {
        assert(pairs_bytes(ps@).take(n as int) =~= pairs_bytes(ps@));
    }
}

/// Frames a request for the boundary; refused only where a length does
/// not fit the 32-bit frame field.
pub fn encode_request(req: &WireRequest) -> (r: Option<Vec<u8>>)
    ensures
        match r {
            Some(buf) => wire_sizes_ok(req@) && buf@ == spec_encode_request(req@),
            None => !wire_sizes_ok(req@),
        },
{
    let limit: usize = 0xffffffff;
    match req {
        WireRequest::Restore(id) => {
            if id.len() > limit {
                return None;
            }
            let mut out: Vec<u8> = Vec::new();
            out.push(1u8);
            let ghost tagged = out@;
            proof {
                assert(tagged =~= seq![1u8]);
            }
            push_chunk(&mut out, id);
            proof {
                assert(out@ =~= spec_encode_request(req@));
            }
            Some(out)
        },
        WireRequest::Spoof(id, ps) => {
            if id.len() > limit || ps.len() > limit {
                return None;
            }
            if !pairs_fit(ps) {
                return None;
            }
            let mut out: Vec<u8> = Vec::new();
            out.push(2u8);
            let ghost tagged = out@;
            proof {
                assert(tagged =~= seq![2u8]);
            }
            push_chunk(&mut out, id);
            push_le32(&mut out, ps.len() as u32);
            push_pairs(&mut out, ps);
            proof {
                assert(out@ =~= spec_encode_request(req@));
            }
            Some(out)
        },
    }
}

/// Reads one length-prefixed byte string off the front of `buf`.
fn decode_chunk<'a>(buf: &'a [u8]) -> (r: Option<(Vec<u8>, &'a [u8])>)
    ensures
        match r {
            Some((c, rest)) => dec_chunk(buf@) == Some((c@, rest@)),
            None => dec_chunk(buf@) is None,
        },
{
    if buf.len() < 4 {
        return None;
    }
    let n = read_le32(buf);
    let n_us = n as usize;
    if buf.len() - 4 < n_us {
        return None;
    }
    let chunk = slice_to_vec(slice_subrange(buf, 4, 4 + n_us));
    let rest = slice_subrange(buf, 4 + n_us, buf.len());
    proof {
        assert(rest@ =~= buf@.skip(4 + n_us as int));
    }
    Some((chunk, rest))
}

/// Reads `count` key/value pairs off the front of `buf`.
fn decode_pairs<'a>(buf: &'a [u8], count: u32) -> (r: Option<(Vec<(Vec<u8>, Vec<u8>)>, &'a [u8])>)
    ensures
        match r {
            Some((ps, rest)) => dec_pairs(buf@, count as nat) == Some((pairs_bytes(ps@), rest@)),
            None => dec_pairs(buf@, count as nat) is None,
        },
    decreases count,
{
    if count == 0 {
        let ps: Vec<(Vec<u8>, Vec<u8>)> = Vec::new();
        proof {
            assert(pairs_bytes(ps@) =~= Seq::<(Seq<u8>, Seq<u8>)>::empty());
        }
        return Some((ps, buf));
    }
    let (k, r1) = match decode_chunk(buf) {
        Some(x) => x,
        None => {
            return None;
        },
    };
    let (v, r2) = match decode_chunk(r1) {
        Some(x) => x,
        None => {
            return None;
        },
    };
    let (mut ps, r3) = match decode_pairs(r2, count - 1) {
        Some(x) => x,
        None => {
            return None;
        },
    };
    let ghost tail = pairs_bytes(ps@);
    ps.insert(0, (k, v));
    proof {
        assert(pairs_bytes(ps@) =~= seq![(k@, v@)] + tail);
    }
    Some((ps, r3))
}

/// Parses one frame; anything but exactly one well-formed frame is
/// refused, a malformed request never reaches the store.
pub fn decode_request(buf: &Vec<u8>) -> (r: Option<WireRequest>)
    ensures
        match r {
            Some(w) => spec_decode_request(buf@) == Some(w@),
            None => spec_decode_request(buf@) is None,
        },
{
    if buf.len() == 0 {
        return None;
    }
    let tag = buf[0];
    let body = slice_subrange(buf.as_slice(), 1, buf.len());
    proof {
        assert(body@ =~= buf@.drop_first());
    }
    if tag == 1u8 {
        match decode_chunk(body) {
            Some((id, rest)) => {
                if rest.len() == 0 {
                    Some(WireRequest::Restore(id))
                } else {
                    None
                }
            },
            None => None,
        }
    } else if tag == 2u8 {
        match decode_chunk(body) {
            Some((id, r1)) => {
                if r1.len() < 4 {
                    return None;
                }
                let count = read_le32(r1);
                let after = slice_subrange(r1, 4, r1.len());
                proof {
                    assert(after@ =~= r1@.skip(4));
                }
                match decode_pairs(after, count) {
                    Some((ps, r2)) => {
                        if r2.len() == 0 {
                            Some(WireRequest::Spoof(id, ps))
                        } else {
                            None
                        }
                    },
                    None => None,
                }
            },
            None => None,
        }
    } else {
        None
    }
}

/// The UTF-8 encoding of each key and value of a property map, in map
/// order.
pub open spec fn utf8_pairs_of(kv: Seq<(Seq<char>, Seq<char>)>) -> Seq<(Seq<u8>, Seq<u8>)> {
    kv.map_values(
        |p: (Seq<char>, Seq<char>)| (vstd::utf8::encode_utf8(p.0), vstd::utf8::encode_utf8(p.1)),
    )
}

/// Encodes every entry of a property map as UTF-8 bytes.
fn utf8_pairs(props: &crate::strmap::PropertyMap) -> (r: Vec<(Vec<u8>, Vec<u8>)>)
    ensures
        pairs_bytes(r@) == utf8_pairs_of(props.kv()),
{
    let n: usize = props.entries.len();
    let mut pairs: Vec<(Vec<u8>, Vec<u8>)> = Vec::new();
    proof {
        assert(pairs_bytes(pairs@) =~= utf8_pairs_of(props.kv().take(0)));
    }
    let mut i: usize = 0;
    while i < n
        invariant
            n == props.kv().len(),
            0 <= i <= n,
            pairs_bytes(pairs@) == utf8_pairs_of(props.kv().take(i as int)),
        decreases n - i,
    {
        let e = &props.entries[i];
        let k = slice_to_vec(e.0.as_str().as_bytes());
        let v = slice_to_vec(e.1.as_str().as_bytes());
        proof {
            assert(k@ == vstd::utf8::encode_utf8(e.0@));
            assert(v@ == vstd::utf8::encode_utf8(e.1@));
        }
        let ghost before = pairs@;
        let ghost gk = k@;
        let ghost gv = v@;
        pairs.push((k, v));
        proof {
            assert(props.kv()[i as int] == (e.0@, e.1@));
            assert(props.kv().take(i as int + 1) =~= props.kv().take(i as int).push(
                props.kv()[i as int],
            ));
            let goal = utf8_pairs_of(props.kv().take(i as int + 1));
            assert(pairs@ == before.push((k, v)));
            assert(pairs_bytes(before) == utf8_pairs_of(props.kv().take(i as int)));
            assert(pairs_bytes(before).len() == i as int);
            assert(before.len() == i as int);
            assert forall|j: int| 0 <= j < pairs_bytes(pairs@).len() implies pairs_bytes(
                pairs@,
            )[j] == goal[j] by {
                if j < i as int {
                    assert(0 <= j < before.len());
                    assert(pairs@[j] == before[j]);
                    assert(pairs_bytes(before)[j] == utf8_pairs_of(props.kv().take(i as int))[j]);
                    assert(props.kv().take(i as int)[j] == props.kv().take(i as int + 1)[j]);
                } else {
                    assert(j == i as int);
                    assert(pairs_bytes(pairs@)[j] == (gk, gv));
                    assert(props.kv().take(i as int + 1)[j] == (e.0@, e.1@));
                    assert(goal[j] == (vstd::utf8::encode_utf8(e.0@), vstd::utf8::encode_utf8(
                        e.1@,
                    )));
                }
            }
            assert(pairs_bytes(pairs@).len() == goal.len());
            assert(pairs_bytes(pairs@) =~= goal);
        }
        i = i + 1;
    }
    proof {
        assert(props.kv().take(n as int) =~= props.kv());
    }
    pairs
}

/// The bytes a companion request puts on the wire: the identity key as
/// UTF-8, each property key and value as UTF-8, in map order.
pub fn wire_request_of(req: &CompanionRequest) -> (r: WireRequest)
    ensures
        match *req {
            CompanionRequest::RestoreIfNeeded(ref id) => r@ == WireRequestView::Restore(
                vstd::utf8::encode_utf8(id@),
            ),
            CompanionRequest::SpoofProps(ref id, ref props) => r@ == WireRequestView::Spoof(
                vstd::utf8::encode_utf8(id@),
                utf8_pairs_of(props.kv()),
            ),
        },
{
    match req {
        CompanionRequest::RestoreIfNeeded(id) => {
            let id_bytes = slice_to_vec(id.as_str().as_bytes());
            WireRequest::Restore(id_bytes)
        },
        CompanionRequest::SpoofProps(id, props) => {
            let id_bytes = slice_to_vec(id.as_str().as_bytes());
            let pairs = utf8_pairs(props);
            WireRequest::Spoof(id_bytes, pairs)
        },
    }
}

} // verus!
