//! The packed encoding applied at the wire boundary: a byte-level
//! compression of the zero-heavy word-aligned message layout. Each 8-byte
//! word becomes a tag byte whose bit `j` says whether byte `j` of the word
//! is nonzero, followed by the word's nonzero bytes in order.

use vstd::prelude::*;

verus! {

use vstd::slice::slice_index_get;

/// The tag byte of one 8-byte word: bit `j` is set exactly when byte `j`
/// is nonzero.
pub open spec fn spec_tag(w: Seq<u8>) -> u8
    recommends
        w.len() == 8,
{
    ((if w[0] != 0 { 1int } else { 0int }) + (if w[1] != 0 { 2int } else { 0int }) + (if w[2] != 0 { 4int } else { 0int })
        + (if w[3] != 0 { 8int } else { 0int }) + (if w[4] != 0 { 16int } else { 0int }) + (if w[5] != 0 { 32int } else { 0int })
        + (if w[6] != 0 { 64int } else { 0int }) + (if w[7] != 0 { 128int } else { 0int })) as u8
}

/// The nonzero bytes of word `w` from position `j` on, in order.
pub open spec fn spec_nonzero_from(w: Seq<u8>, j: int) -> Seq<u8>
    recommends
        w.len() == 8,
        0 <= j <= 8,
    decreases 8 - j,
{
    if j < 0 || j >= 8 {
        Seq::empty()
    } else if w[j] != 0 {
        seq![w[j]] + spec_nonzero_from(w, j + 1)
    } else {
        spec_nonzero_from(w, j + 1)
    }
}

/// One packed word: its tag byte followed by its nonzero bytes.
pub open spec fn spec_pack_word(w: Seq<u8>) -> Seq<u8>
    recommends
        w.len() == 8,
{
    seq![spec_tag(w)] + spec_nonzero_from(w, 0)
}

/// The packed form of a whole word-aligned buffer.
pub open spec fn spec_pack(b: Seq<u8>) -> Seq<u8>
    recommends
        b.len() % 8 == 0,
    decreases b.len(),
{
    if b.len() < 8 {
        Seq::empty()
    } else {
        spec_pack_word(b.take(8)) + spec_pack(b.skip(8))
    }
}

/// Unpacks one word given its tag: reconstructs bytes `j..8`, taking one
/// payload byte for each set tag bit and zero elsewhere. Returns the word
/// bytes and how many payload bytes were consumed, or `None` when the
/// payload ends too early.
pub open spec fn spec_unpack_word(tag: u8, p: Seq<u8>, j: int) -> Option<(Seq<u8>, int)>
    decreases 8 - j,
{
    if j >= 8 {
        Some((Seq::empty(), 0))
    } else if (tag >> (j as u8)) & 1 == 1 {
        if p.len() == 0 {
            None
        } else {
            match spec_unpack_word(tag, p.drop_first(), j + 1) {
                Some((w, c)) => Some((seq![p[0]] + w, c + 1)),
                None => None,
            }
        }
    } else {
        match spec_unpack_word(tag, p, j + 1) {
            Some((w, c)) => Some((seq![0u8] + w, c)),
            None => None,
        }
    }
}

/// Unpacks `nwords` words from the front of `p`: the unpacked bytes and
/// how many packed bytes were consumed, or `None` when `p` ends too early.
pub open spec fn spec_unpack(p: Seq<u8>, nwords: nat) -> Option<(Seq<u8>, int)>
    decreases nwords,
{
    if nwords == 0 {
        Some((Seq::empty(), 0))
    } else if p.len() == 0 {
        None
    } else {
        match spec_unpack_word(p[0], p.drop_first(), 0) {
            None => None,
            Some((w, c)) => match spec_unpack(p.skip(1 + c), (nwords - 1) as nat) {
                None => None,
                Some((rest, c2)) => Some((w + rest, 1 + c + c2)),
            },
        }
    }
}

/// Bit `j` of a word's tag is set exactly when byte `j` is nonzero.
proof fn lemma_tag_bits(w: Seq<u8>)
    requires
        w.len() == 8,
    ensures
        forall|j: int|
            0 <= j < 8 ==> (((#[trigger] (spec_tag(w) >> (j as u8))) & 1 == 1) <==> w[j] != 0),
{
    let t = spec_tag(w);
    let b0: u8 = if w[0] != 0 { 1 } else { 0 };
    let b1: u8 = if w[1] != 0 { 1 } else { 0 };
    let b2: u8 = if w[2] != 0 { 1 } else { 0 };
    let b3: u8 = if w[3] != 0 { 1 } else { 0 };
    let b4: u8 = if w[4] != 0 { 1 } else { 0 };
    let b5: u8 = if w[5] != 0 { 1 } else { 0 };
    let b6: u8 = if w[6] != 0 { 1 } else { 0 };
    let b7: u8 = if w[7] != 0 { 1 } else { 0 };
    assert((t >> 0u8) & 1 == b0 && (t >> 1u8) & 1 == b1 && (t >> 2u8) & 1 == b2 && (t >> 3u8) & 1
        == b3 && (t >> 4u8) & 1 == b4 && (t >> 5u8) & 1 == b5 && (t >> 6u8) & 1 == b6 && (t >> 7u8)
        & 1 == b7) by (bit_vector)
        requires
            b0 <= 1 && b1 <= 1 && b2 <= 1 && b3 <= 1 && b4 <= 1 && b5 <= 1 && b6 <= 1 && b7 <= 1,
            t == b0 + 2 * b1 + 4 * b2 + 8 * b3 + 16 * b4 + 32 * b5 + 64 * b6 + 128 * b7,
    ;
    assert forall|j: int| 0 <= j < 8 implies (((#[trigger] (spec_tag(w) >> (j as u8))) & 1 == 1)
        <==> w[j] != 0) by {
        if j == 0 {
        } else if j == 1 {
        } else if j == 2 {
        } else if j == 3 {
        } else if j == 4 {
        } else if j == 5 {
        } else if j == 6 {
        } else {
        }
    }
}

/// Unpacking one word inverts packing it, from position `j` on, whatever
/// follows the word's nonzero bytes in the payload.
proof fn lemma_unpack_word_round_trip(w: Seq<u8>, rest: Seq<u8>, j: int)
    requires
        w.len() == 8,
        0 <= j <= 8,
    ensures
        spec_unpack_word(spec_tag(w), spec_nonzero_from(w, j) + rest, j) == Some(
            (w.skip(j), spec_nonzero_from(w, j).len() as int),
        ),
    decreases 8 - j,
{
    lemma_tag_bits(w);
    let tag = spec_tag(w);
    let p = spec_nonzero_from(w, j) + rest;
    if j == 8 {
        assert(w.skip(8) =~= Seq::<u8>::empty());
        assert(p =~= rest);
    } else if w[j] != 0 {
        assert((tag >> (j as u8)) & 1 == 1);
        lemma_unpack_word_round_trip(w, rest, j + 1);
        assert(p[0] == w[j]);
        assert(p.drop_first() =~= spec_nonzero_from(w, j + 1) + rest);
        assert(seq![p[0]] + w.skip(j + 1) =~= w.skip(j));
    } else {
        assert((tag >> (j as u8)) & 1 != 1);
        lemma_unpack_word_round_trip(w, rest, j + 1);
        assert(p =~= spec_nonzero_from(w, j + 1) + rest);
        assert(seq![0u8] + w.skip(j + 1) =~= w.skip(j));
    }
}

/// Packing distributes over concatenation at a word boundary.
proof fn lemma_pack_concat(u: Seq<u8>, v: Seq<u8>)
    requires
        u.len() % 8 == 0,
    ensures
        spec_pack(u + v) == spec_pack(u) + spec_pack(v),
    decreases u.len(),
{
    if u.len() == 0 {
        assert(u + v =~= v);
        assert(spec_pack(u) =~= Seq::<u8>::empty());
        assert(spec_pack(u) + spec_pack(v) =~= spec_pack(v));
    } else {
        assert((u + v).take(8) =~= u.take(8));
        assert((u + v).skip(8) =~= u.skip(8) + v);
        lemma_pack_concat(u.skip(8), v);
        assert(spec_pack_word(u.take(8)) + (spec_pack(u.skip(8)) + spec_pack(v)) =~= (
        spec_pack_word(u.take(8)) + spec_pack(u.skip(8))) + spec_pack(v));
    }
}

/// Unpacking inverts packing: the packed form of any word-aligned buffer,
/// followed by anything, unpacks to that buffer, consuming exactly the
/// packed bytes.
pub proof fn lemma_pack_round_trip(b: Seq<u8>, rest: Seq<u8>)
    requires
        b.len() % 8 == 0,
    ensures
        spec_unpack(spec_pack(b) + rest, (b.len() / 8) as nat) == Some(
            (b, spec_pack(b).len() as int),
        ),
    decreases b.len(),
{
    if b.len() == 0 {
        assert(b =~= Seq::<u8>::empty());
        assert(spec_unpack(spec_pack(b) + rest, 0) == Some((Seq::<u8>::empty(), 0int)));
    } else {
        let w = b.take(8);
        let tail = b.skip(8);
        let p = spec_pack(b) + rest;
        assert(p[0] == spec_tag(w));
        assert(p.drop_first() =~= spec_nonzero_from(w, 0) + (spec_pack(tail) + rest));
        lemma_unpack_word_round_trip(w, spec_pack(tail) + rest, 0);
        assert(w.skip(0) =~= w);
        let c = spec_nonzero_from(w, 0).len() as int;
        assert(p.skip(1 + c) =~= spec_pack(tail) + rest);
        lemma_pack_round_trip(tail, rest);
        assert(w + tail =~= b);
        assert(spec_pack(b).len() == 1 + c + spec_pack(tail).len());
    }
}

/// The nonzero bytes of the word at `base` in `data`, from byte `j` on.
fn nonzero_from(data: &[u8], base: usize, j: usize) -> (r: Vec<u8>)
    requires
        base + 8 <= data@.len(),
        j <= 8,
    ensures
        r@ == spec_nonzero_from(data@.subrange(base as int, base + 8), j as int),
    decreases 8 - j,
{
    let ghost w = data@.subrange(base as int, base + 8);
    let len = data.len();
    assert(base + 8 <= len);
    if j >= 8 {
        let v: Vec<u8> = Vec::new();
        assert(v@ =~= spec_nonzero_from(w, 8));
        v
    } else {
        let b = *slice_index_get(data, base + j);
        let mut rest = nonzero_from(data, base, j + 1);
        if b != 0 {
            let mut v: Vec<u8> = Vec::new();
            v.push(b);
            v.append(&mut rest);
            assert(v@ =~= seq![w[j as int]] + spec_nonzero_from(w, j + 1));
            v
        } else {
            rest
        }
    }
}

/// Appends the packed form of the 8-byte word at `base` in `data`.
#[verifier::rlimit(50)]
fn pack_word_into(out: &mut Vec<u8>, data: &[u8], base: usize)
    requires
        base + 8 <= data@.len(),
    ensures
        final(out)@ == old(out)@ + spec_pack_word(data@.subrange(base as int, base + 8)),
{
    let ghost w = data@.subrange(base as int, base + 8);
    let len = data.len();
    assert(base + 8 <= len);
    let b0 = *slice_index_get(data, base);
    let b1 = *slice_index_get(data, base + 1);
    let b2 = *slice_index_get(data, base + 2);
    let b3 = *slice_index_get(data, base + 3);
    let b4 = *slice_index_get(data, base + 4);
    let b5 = *slice_index_get(data, base + 5);
    let b6 = *slice_index_get(data, base + 6);
    let b7 = *slice_index_get(data, base + 7);
    let tag: u8 = (if b0 != 0 { 1u8 } else { 0u8 }) + (if b1 != 0 { 2u8 } else { 0u8 }) + (if b2
        != 0 { 4u8 } else { 0u8 }) + (if b3 != 0 { 8u8 } else { 0u8 }) + (if b4 != 0 { 16u8 } else { 0u8 })
        + (if b5 != 0 { 32u8 } else { 0u8 }) + (if b6 != 0 { 64u8 } else { 0u8 }) + (if b7 != 0 { 128u8 } else { 0u8 });
    assert(tag == spec_tag(w));
    out.push(tag);
    let mut tail = nonzero_from(data, base, 0);
    out.append(&mut tail);
    assert(final(out)@ =~= old(out)@ + spec_pack_word(w));
}

/// Packs a word-aligned buffer.
pub fn pack_bytes(data: &[u8]) -> (r: Vec<u8>)
    requires
        data@.len() % 8 == 0,
    ensures
        r@ == spec_pack(data@),
{
    let n = data.len() / 8;
    assert(8 * n == data@.len()) by (nonlinear_arith)
        requires
            n == data@.len() / 8,
            data@.len() % 8 == 0,
    ;
    let mut out: Vec<u8> = Vec::new();
    let mut i: usize = 0;
    while i < n
        invariant
            i <= n,
            n == data@.len() / 8,
            8 * n == data@.len(),
            data@.len() <= usize::MAX,
            data@.len() % 8 == 0,
            out@ == spec_pack(data@.take(8 * i)),
        decreases n - i,
    {
        let ghost prefix = data@.take(8 * i);
        pack_word_into(&mut out, data, 8 * i);
        proof {
            let next = data@.take(8 * (i + 1));
            let w = data@.subrange(8 * i, 8 * (i + 1));
            assert(next =~= prefix + w);
            lemma_pack_concat(prefix, w);
            assert(spec_pack(w) =~= spec_pack_word(w.take(8)) + spec_pack(w.skip(8)));
            assert(w.take(8) =~= w);
            assert(w.skip(8) =~= Seq::<u8>::empty());
            assert(spec_pack(w) =~= spec_pack_word(w));
        }
        i = i + 1;
    }
    proof {
        assert(data@.take(8 * (n as int)) =~= data@);
    }
    out
}

/// Unpacks one word: reads payload bytes for the set bits of `tag`,
/// pushing the reconstructed bytes `j..8` of the word onto `out`.
fn unpack_word_rec(tag: u8, packed: &[u8], pos: usize, j: usize, out: &mut Vec<u8>) -> (r: Result<
    usize,
    (),
>)
    requires
        pos <= packed@.len(),
        j <= 8,
    ensures
        r matches Ok(c) ==> ({
            &&& spec_unpack_word(tag, packed@.skip(pos as int), j as int) matches Some((w, cc))
                && final(out)@ == old(out)@ + w && cc == c
            &&& pos + c <= packed@.len()
        }),
        r is Err <==> spec_unpack_word(tag, packed@.skip(pos as int), j as int) is None,
        r is Err ==> final(out)@ == old(out)@,
    decreases 8 - j,
{
    if j >= 8 {
        assert(final(out)@ =~= old(out)@ + Seq::<u8>::empty());
        return Ok(0);
    }
    if (tag >> (j as u8)) & 1 == 1 {
        if pos >= packed.len() {
            assert(packed@.skip(pos as int).len() == 0);
            return Err(());
        }
        let b = *slice_index_get(packed, pos);
        out.push(b);
        proof {
            assert(packed@.skip(pos as int).drop_first() =~= packed@.skip(pos + 1));
            assert(b == packed@.skip(pos as int)[0]);
        }
        match unpack_word_rec(tag, packed, pos + 1, j + 1, out) {
            Ok(c) => {
                proof {
                    let (w, cc) = spec_unpack_word(tag, packed@.skip(pos + 1), j + 1).unwrap();
                    assert(final(out)@ =~= old(out)@ + (seq![b] + w));
                }
                Ok(c + 1)
            },
            Err(e) => {
                out.pop();
                assert(final(out)@ =~= old(out)@);
                Err(e)
            },
        }
    } else {
        out.push(0);
        match unpack_word_rec(tag, packed, pos, j + 1, out) {
            Ok(c) => {
                proof {
                    let (w, cc) = spec_unpack_word(tag, packed@.skip(pos as int), j + 1).unwrap();
                    assert(final(out)@ =~= old(out)@ + (seq![0u8] + w));
                }
                Ok(c)
            },
            Err(e) => {
                out.pop();
                assert(final(out)@ =~= old(out)@);
                Err(e)
            },
        }
    }
}

/// Unpacks `nwords` words from the front of `packed` into a fresh buffer,
/// returning the unpacked bytes and how many packed bytes were consumed,
/// or an error when the packed data ends too early.
pub fn unpack_bytes(packed: &[u8], nwords: usize) -> (r: Result<(Vec<u8>, usize), ()>)
    requires
        nwords * 8 <= usize::MAX,
    ensures
        r matches Ok((out, c)) ==> spec_unpack(packed@, nwords as nat) == Some((out@, c as int))
            && c <= packed@.len(),
        r is Err <==> spec_unpack(packed@, nwords as nat) is None,
{
    let mut out: Vec<u8> = Vec::new();
    let mut pos: usize = 0;
    let mut i: usize = 0;
    proof {
        assert(packed@.skip(0) =~= packed@);
        match spec_unpack(packed@, nwords as nat) {
            Some((w, c)) => {
                assert(Seq::<u8>::empty() + w =~= w);
            },
            None => {},
        }
    }
    while i < nwords
        invariant
            i <= nwords,
            pos <= packed@.len(),
            nwords * 8 <= usize::MAX,
            spec_unpack(packed@, nwords as nat) == (match spec_unpack(
                packed@.skip(pos as int),
                (nwords - i) as nat,
            ) {
                Some((w, c)) => Some((out@ + w, pos + c)),
                None => None::<(Seq<u8>, int)>,
            }),
        decreases nwords - i,
    {
        let ghost rem = packed@.skip(pos as int);
        if pos >= packed.len() {
            assert(rem.len() == 0);
            return Err(());
        }
        let tag = *slice_index_get(packed, pos);
        assert(tag == rem[0]);
        proof {
            assert(packed@.skip(pos + 1) =~= rem.drop_first());
        }
        let ghost out_before = out@;
        match unpack_word_rec(tag, packed, pos + 1, 0, &mut out) {
            Ok(c) => {
                proof {
                    let (w, cc) = spec_unpack_word(tag, rem.drop_first(), 0).unwrap();
                    assert(packed@.skip(pos + 1 + c) =~= rem.skip(1 + cc));
                }
                pos = pos + 1 + c;
                i = i + 1;
                proof {
                    let (w, cc) = spec_unpack_word(tag, rem.drop_first(), 0).unwrap();
                    match spec_unpack(packed@.skip(pos as int), (nwords - i) as nat) {
                        Some((w2, c2)) => {
                            assert((out_before + w) + w2 =~= out_before + (w + w2));
                        },
                        None => {},
                    }
                }
            },
            Err(_) => {
                return Err(());
            },
        }
    }
    assert(spec_unpack(packed@.skip(pos as int), 0) == Some((Seq::<u8>::empty(), 0int)));
    assert(out@ + Seq::<u8>::empty() =~= out@);
    Ok((out, pos))
}

} // verus!
