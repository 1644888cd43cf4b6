//! Primitives of the ABI wire format.
//!
//! Every payload that crosses the guest boundary is a flat byte string
//! built from a handful of little-endian primitives: fixed-width integers,
//! a one-byte boolean, length-prefixed byte strings, and tagged options.
//! Encoders state exactly which bytes they append; decoders are specified
//! against spec-level decoders that consume a prefix and return the rest,
//! so that encode-then-decode laws compose field by field.

use vstd::prelude::*;

verus! {

// ---------------------------------------------------------------------
// Spec encoders
// ---------------------------------------------------------------------
/// A `u16` as two little-endian bytes.
pub open spec fn enc_u16(v: u16) -> Seq<u8> {
    seq![(v & 0xff) as u8, ((v >> 8) & 0xff) as u8]
}

/// A `u32` as four little-endian bytes.
pub open spec fn enc_u32(v: u32) -> Seq<u8> {
    seq![
        (v & 0xff) as u8,
        ((v >> 8) & 0xff) as u8,
        ((v >> 16) & 0xff) as u8,
        ((v >> 24) & 0xff) as u8,
    ]
}

/// A boolean as one byte, `1` for true and `0` for false.
pub open spec fn enc_bool(v: bool) -> Seq<u8> {
    seq![if v { 1u8 } else { 0u8 }]
}

/// A byte string: its length as `u32`, then the bytes themselves.
pub open spec fn enc_bytes(b: Seq<u8>) -> Seq<u8> {
    enc_u32(b.len() as u32) + b
}

/// An optional byte string: a presence byte, then the string if present.
pub open spec fn enc_opt_bytes(o: Option<Seq<u8>>) -> Seq<u8> {
    match o {
        Option::None => seq![0u8],
        Option::Some(b) => seq![1u8] + enc_bytes(b),
    }
}

/// An optional `u32`: a presence byte, then the value if present.
pub open spec fn enc_opt_u32(o: Option<u32>) -> Seq<u8> {
    match o {
        Option::None => seq![0u8],
        Option::Some(v) => seq![1u8] + enc_u32(v),
    }
}

// ---------------------------------------------------------------------
// Spec decoders: consume a prefix, hand back the value and the rest
// ---------------------------------------------------------------------
/// Read one byte.
pub open spec fn dec_u8(s: Seq<u8>) -> Option<(u8, Seq<u8>)> {
    if s.len() >= 1 {
        Option::Some((s[0], s.skip(1)))
    } else {
        Option::None
    }
}

/// Read a little-endian `u16`.
pub open spec fn dec_u16(s: Seq<u8>) -> Option<(u16, Seq<u8>)> {
    if s.len() >= 2 {
        Option::Some(((s[0] as u16) | ((s[1] as u16) << 8), s.skip(2)))
    } else {
        Option::None
    }
}

/// Read a little-endian `u32`.
pub open spec fn dec_u32(s: Seq<u8>) -> Option<(u32, Seq<u8>)> {
    if s.len() >= 4 {
        Option::Some(
            (
                (s[0] as u32) | ((s[1] as u32) << 8) | ((s[2] as u32) << 16) | ((s[3] as u32)
                    << 24),
                s.skip(4),
            ),
        )
    } else {
        Option::None
    }
}

/// Read a boolean byte; anything but `0` or `1` is malformed.
pub open spec fn dec_bool(s: Seq<u8>) -> Option<(bool, Seq<u8>)> {
    match dec_u8(s) {
        Option::Some((t, rest)) => if t == 1 {
            Option::Some((true, rest))
        } else if t == 0 {
            Option::Some((false, rest))
        } else {
            Option::None
        },
        Option::None => Option::None,
    }
}

/// Read a length-prefixed byte string.
pub open spec fn dec_bytes(s: Seq<u8>) -> Option<(Seq<u8>, Seq<u8>)> {
    match dec_u32(s) {
        Option::Some((n, rest)) => if rest.len() >= n {
            Option::Some((rest.take(n as int), rest.skip(n as int)))
        } else {
            Option::None
        },
        Option::None => Option::None,
    }
}

/// Read an optional byte string.
pub open spec fn dec_opt_bytes(s: Seq<u8>) -> Option<(Option<Seq<u8>>, Seq<u8>)> {
    match dec_u8(s) {
        Option::Some((t, rest)) => if t == 0 {
            Option::Some((Option::None, rest))
        } else if t == 1 {
            match dec_bytes(rest) {
                Option::Some((b, rest2)) => Option::Some((Option::Some(b), rest2)),
                Option::None => Option::None,
            }
        } else {
            Option::None
        },
        Option::None => Option::None,
    }
}

/// Read an optional `u32`.
pub open spec fn dec_opt_u32(s: Seq<u8>) -> Option<(Option<u32>, Seq<u8>)> {
    match dec_u8(s) {
        Option::Some((t, rest)) => if t == 0 {
            Option::Some((Option::None, rest))
        } else if t == 1 {
            match dec_u32(rest) {
                Option::Some((v, rest2)) => Option::Some((Option::Some(v), rest2)),
                Option::None => Option::None,
            }
        } else {
            Option::None
        },
        Option::None => Option::None,
    }
}

// ---------------------------------------------------------------------
// Header lists: a count, then (name, value) byte-string pairs in order
// ---------------------------------------------------------------------
/// The spec-level image of a list of header pairs.
pub open spec fn hview(h: Seq<(Vec<u8>, Vec<u8>)>) -> Seq<(Seq<u8>, Seq<u8>)> {
    h.map_values(|p: (Vec<u8>, Vec<u8>)| (p.0@, p.1@))
}

/// Length bounds under which a header list is encodable.
pub open spec fn headers_wf(hs: Seq<(Seq<u8>, Seq<u8>)>) -> bool {
    &&& hs.len() <= u32::MAX
    &&& forall|i: int|
        0 <= i < hs.len() ==> #[trigger] hs[i].0.len() <= u32::MAX && hs[i].1.len() <= u32::MAX
}

/// One header pair: its name, then its value.
pub open spec fn enc_header(p: (Seq<u8>, Seq<u8>)) -> Seq<u8> {
    enc_bytes(p.0) + enc_bytes(p.1)
}

/// The pairs of a header list, in order, without the count.
pub open spec fn enc_header_entries(hs: Seq<(Seq<u8>, Seq<u8>)>) -> Seq<u8>
    decreases hs.len(),
{
    if hs.len() == 0 {
        Seq::empty()
    } else {
        enc_header(hs[0]) + enc_header_entries(hs.drop_first())
    }
}

/// A header list: its length as `u32`, then the pairs in order.
pub open spec fn enc_headers(hs: Seq<(Seq<u8>, Seq<u8>)>) -> Seq<u8> {
    enc_u32(hs.len() as u32) + enc_header_entries(hs)
}

/// Read `n` header pairs.
pub open spec fn dec_header_entries(s: Seq<u8>, n: nat) -> Option<
    (Seq<(Seq<u8>, Seq<u8>)>, Seq<u8>),
>
    decreases n,
{
    if n == 0 {
        Option::Some((Seq::empty(), s))
    } else {
        match dec_bytes(s) {
            Option::Some((name, r1)) => match dec_bytes(r1) {
                Option::Some((value, r2)) => match dec_header_entries(r2, (n - 1) as nat) {
                    Option::Some((es, r3)) => Option::Some(
                        (seq![(name, value)] + es, r3),
                    ),
                    Option::None => Option::None,
                },
                Option::None => Option::None,
            },
            Option::None => Option::None,
        }
    }
}

/// Read a header list.
pub open spec fn dec_headers(s: Seq<u8>) -> Option<(Seq<(Seq<u8>, Seq<u8>)>, Seq<u8>)> {
    match dec_u32(s) {
        Option::Some((n, rest)) => dec_header_entries(rest, n as nat),
        Option::None => Option::None,
    }
}

/// Appending one pair to a list appends its encoding to the list's.
pub proof fn lemma_enc_entries_snoc(hs: Seq<(Seq<u8>, Seq<u8>)>, p: (Seq<u8>, Seq<u8>))
    ensures
        enc_header_entries(hs.push(p)) == enc_header_entries(hs) + enc_header(p),
    decreases hs.len(),
{
    if hs.len() == 0 {
        let single = hs.push(p);
        assert(single[0] == p);
        assert(single.drop_first() =~= Seq::<(Seq<u8>, Seq<u8>)>::empty());
        assert(enc_header_entries(single) == enc_header(p) + enc_header_entries(
            Seq::<(Seq<u8>, Seq<u8>)>::empty(),
        ));
        assert(enc_header_entries(Seq::<(Seq<u8>, Seq<u8>)>::empty()) == Seq::<u8>::empty());
        assert(enc_header(p) + Seq::<u8>::empty() =~= Seq::<u8>::empty() + enc_header(p));
    } else {
        assert(hs.push(p).drop_first() =~= hs.drop_first().push(p));
        lemma_enc_entries_snoc(hs.drop_first(), p);
        assert(enc_header_entries(hs.push(p)) == enc_header(hs[0]) + (enc_header_entries(
            hs.drop_first(),
        ) + enc_header(p)));
        assert(enc_header(hs[0]) + (enc_header_entries(hs.drop_first()) + enc_header(p)) =~= (
        enc_header(hs[0]) + enc_header_entries(hs.drop_first())) + enc_header(p));
    }
}

/// Round trip of the pair list body.
#[verifier::rlimit(30)]
pub proof fn lemma_dec_header_entries(hs: Seq<(Seq<u8>, Seq<u8>)>, rest: Seq<u8>)
    requires
        headers_wf(hs),
    ensures
        dec_header_entries(enc_header_entries(hs) + rest, hs.len()) == Some((hs, rest)),
    decreases hs.len(),
{
    if hs.len() == 0 {
        assert(enc_header_entries(hs) + rest =~= rest);
        assert(dec_header_entries(rest, 0) == Some((Seq::<(Seq<u8>, Seq<u8>)>::empty(), rest)));
        assert(hs =~= Seq::<(Seq<u8>, Seq<u8>)>::empty());
    } else {
        let p = hs[0];
        let tail = hs.drop_first();
        assert forall|i: int| 0 <= i < tail.len() implies #[trigger] tail[i].0.len() <= u32::MAX
            && tail[i].1.len() <= u32::MAX by {
            assert(tail[i] == hs[i + 1]);
        }
        let r3 = enc_header_entries(tail) + rest;
        let r2 = enc_bytes(p.1) + r3;
        let s = enc_header_entries(hs) + rest;
        assert(s =~= enc_bytes(p.0) + r2);
        lemma_dec_bytes(p.0, r2);
        assert(dec_bytes(s) == Some((p.0, r2)));
        lemma_dec_bytes(p.1, r3);
        lemma_dec_header_entries(tail, rest);
        assert(dec_header_entries(s, hs.len()) == Some((seq![(p.0, p.1)] + tail, rest)));
        assert(p == (p.0, p.1));
        assert(seq![(p.0, p.1)] + tail =~= hs);
    }
}

/// Round trip of a header list.
pub proof fn lemma_dec_headers(hs: Seq<(Seq<u8>, Seq<u8>)>, rest: Seq<u8>)
    requires
        headers_wf(hs),
    ensures
        dec_headers(enc_headers(hs) + rest) == Some((hs, rest)),
{
    let body = enc_header_entries(hs) + rest;
    assert(enc_headers(hs) + rest =~= enc_u32(hs.len() as u32) + body);
    lemma_dec_u32(hs.len() as u32, body);
    lemma_dec_header_entries(hs, rest);
}

/// Append a header list's encoding to a buffer.
pub fn write_headers(out: &mut Vec<u8>, hs: &Vec<(Vec<u8>, Vec<u8>)>)
    requires
        headers_wf(hview(hs@)),
    ensures
        final(out)@ == old(out)@ + enc_headers(hview(hs@)),
{
    write_u32(out, hs.len() as u32);
    let ghost mid = out@;
    let mut i: usize = 0;
    while i < hs.len()
        invariant
            i <= hs@.len(),
            headers_wf(hview(hs@)),
            out@ == mid + enc_header_entries(hview(hs@).take(i as int)),
        decreases hs@.len() - i,
    {
        let ghost before = out@;
        proof {
            assert(hview(hs@)[i as int] == (hs@[i as int].0@, hs@[i as int].1@));
            assert(hview(hs@)[i as int].0.len() <= u32::MAX && hview(hs@)[i as int].1.len()
                <= u32::MAX);
        }
        write_bytes(out, &hs[i].0);
        write_bytes(out, &hs[i].1);
        proof {
            let pview = (hs@[i as int].0@, hs@[i as int].1@);
            assert(out@ =~= before + enc_header(pview));
            assert(hview(hs@).take(i + 1 as int) =~= hview(hs@).take(i as int).push(pview));
            lemma_enc_entries_snoc(hview(hs@).take(i as int), pview);
            assert(out@ =~= mid + enc_header_entries(hview(hs@).take(i + 1 as int)));
        }
        i = i + 1;
    }
    proof {
        assert(hview(hs@).take(hs@.len() as int) =~= hview(hs@));
        assert(final(out)@ =~= old(out)@ + enc_headers(hview(hs@)));
    }
}

/// Read a header list.
pub fn read_headers(buf: &Vec<u8>, pos: usize) -> (r: Option<(Vec<(Vec<u8>, Vec<u8>)>, usize)>)
    requires
        pos <= buf@.len(),
    ensures
        match r {
            Some((hs, p2)) => pos <= p2 <= buf@.len() && dec_headers(buf@.skip(pos as int))
                == Some((hview(hs@), buf@.skip(p2 as int))),
            None => dec_headers(buf@.skip(pos as int)) is None,
        },
{
    match read_u32(buf, pos) {
        Some((n, p1)) => {
            let ghost start = buf@.skip(p1 as int);
            let mut out: Vec<(Vec<u8>, Vec<u8>)> = Vec::new();
            let mut i: u32 = 0;
            let mut p: usize = p1;
            loop
                invariant
                    i <= n,
                    pos < p1 <= p <= buf@.len(),
                    start == buf@.skip(p1 as int),
                    dec_headers(buf@.skip(pos as int)) == dec_header_entries(start, n as nat),
                    out@.len() == i,
                    match dec_header_entries(buf@.skip(p as int), (n - i) as nat) {
                        Option::Some((es, r)) => dec_header_entries(start, n as nat) == Some(
                            (hview(out@) + es, r),
                        ),
                        Option::None => dec_header_entries(start, n as nat) is None,
                    },
                decreases n - i,
            {
                if i == n {
                    proof {
                        assert(dec_header_entries(buf@.skip(p as int), 0) == Some(
                            (Seq::<(Seq<u8>, Seq<u8>)>::empty(), buf@.skip(p as int)),
                        ));
                        assert(hview(out@) + Seq::<(Seq<u8>, Seq<u8>)>::empty() =~= hview(out@));
                    }
                    return Some((out, p));
                }
                let ghost old_out = out@;
                let ghost old_p = p as int;
                let (name_bytes, p_name) = match read_bytes(buf, p) {
                    Some(v) => v,
                    None => {
                        return None;
                    },
                };
                let (value_bytes, p_value) = match read_bytes(buf, p_name) {
                    Some(v) => v,
                    None => {
                        return None;
                    },
                };
                proof {
                    let pair = (name_bytes@, value_bytes@);
                    match dec_header_entries(buf@.skip(p_value as int), (n - i - 1) as nat) {
                        Option::Some((es2, r2)) => {
                            assert(dec_header_entries(buf@.skip(old_p), (n - i) as nat) == Some(
                                (seq![pair] + es2, r2),
                            ));
                            assert(hview(old_out.push((name_bytes, value_bytes))) =~= hview(
                                old_out,
                            ).push(pair));
                            assert(hview(old_out).push(pair) + es2 =~= hview(old_out) + (
                            seq![pair] + es2));
                        },
                        Option::None => {},
                    }
                }
                out.push((name_bytes, value_bytes));
                p = p_value;
                i = i + 1;
            }
        },
        None => None,
    }
}

// ---------------------------------------------------------------------
// Round-trip lemmas: decoding an encoding in front of any rest yields
// the value and the untouched rest
// ---------------------------------------------------------------------
pub proof fn lemma_dec_u16(v: u16, rest: Seq<u8>)
    ensures
        dec_u16(enc_u16(v) + rest) == Some((v, rest)),
{
    let s = enc_u16(v) + rest;
    assert(((v & 0xff) as u8 as u16) | ((((v >> 8) & 0xff) as u8 as u16) << 8) == v)
        by (bit_vector);
    assert(s.skip(2) =~= rest);
}

pub proof fn lemma_dec_u32(v: u32, rest: Seq<u8>)
    ensures
        dec_u32(enc_u32(v) + rest) == Some((v, rest)),
{
    let s = enc_u32(v) + rest;
    assert(((v & 0xff) as u8 as u32) | ((((v >> 8) & 0xff) as u8 as u32) << 8) | ((((v >> 16)
        & 0xff) as u8 as u32) << 16) | ((((v >> 24) & 0xff) as u8 as u32) << 24) == v)
        by (bit_vector);
    assert(s.skip(4) =~= rest);
}

pub proof fn lemma_dec_bool(v: bool, rest: Seq<u8>)
    ensures
        dec_bool(enc_bool(v) + rest) == Some((v, rest)),
{
    let s = enc_bool(v) + rest;
    assert(s.skip(1) =~= rest);
}

pub proof fn lemma_dec_bytes(b: Seq<u8>, rest: Seq<u8>)
    requires
        b.len() <= u32::MAX,
    ensures
        dec_bytes(enc_bytes(b) + rest) == Some((b, rest)),
{
    let s = enc_bytes(b) + rest;
    assert(enc_u32(b.len() as u32) + (b + rest) =~= s);
    lemma_dec_u32(b.len() as u32, b + rest);
    let r = (b + rest);
    assert((b + rest).take(b.len() as int) =~= b);
    assert((b + rest).skip(b.len() as int) =~= rest);
}

pub proof fn lemma_dec_opt_bytes(o: Option<Seq<u8>>, rest: Seq<u8>)
    requires
        o is Some ==> o->0.len() <= u32::MAX,
    ensures
        dec_opt_bytes(enc_opt_bytes(o) + rest) == Some((o, rest)),
{
    match o {
        Option::None => {
            let s = enc_opt_bytes(o) + rest;
            assert(s.skip(1) =~= rest);
        },
        Option::Some(b) => {
            let s = enc_opt_bytes(o) + rest;
            assert(s[0] == 1u8);
            assert(s.skip(1) =~= enc_bytes(b) + rest);
            lemma_dec_bytes(b, rest);
        },
    }
}

pub proof fn lemma_dec_opt_u32(o: Option<u32>, rest: Seq<u8>)
    ensures
        dec_opt_u32(enc_opt_u32(o) + rest) == Some((o, rest)),
{
    match o {
        Option::None => {
            let s = enc_opt_u32(o) + rest;
            assert(s.skip(1) =~= rest);
        },
        Option::Some(v) => {
            let s = enc_opt_u32(o) + rest;
            assert(s[0] == 1u8);
            assert(s.skip(1) =~= enc_u32(v) + rest);
            lemma_dec_u32(v, rest);
        },
    }
}

// ---------------------------------------------------------------------
// Exec encoders: append to a growing buffer
// ---------------------------------------------------------------------
pub fn write_u16(out: &mut Vec<u8>, v: u16)
    ensures
        final(out)@ == old(out)@ + enc_u16(v),
{
    out.push((v & 0xff) as u8);
    out.push(((v >> 8) & 0xff) as u8);
    proof {
        assert(final(out)@ =~= old(out)@ + enc_u16(v));
    }
}

pub fn write_u32(out: &mut Vec<u8>, v: u32)
    ensures
        final(out)@ == old(out)@ + enc_u32(v),
{
    out.push((v & 0xff) as u8);
    out.push(((v >> 8) & 0xff) as u8);
    out.push(((v >> 16) & 0xff) as u8);
    out.push(((v >> 24) & 0xff) as u8);
    proof {
        assert(final(out)@ =~= old(out)@ + enc_u32(v));
    }
}

pub fn write_bool(out: &mut Vec<u8>, v: bool)
    ensures
        final(out)@ == old(out)@ + enc_bool(v),
{
    if v {
        out.push(1u8);
    } else {
        out.push(0u8);
    }
    proof {
        assert(final(out)@ =~= old(out)@ + enc_bool(v));
    }
}

pub fn write_bytes(out: &mut Vec<u8>, b: &Vec<u8>)
    requires
        b@.len() <= u32::MAX,
    ensures
        final(out)@ == old(out)@ + enc_bytes(b@),
{
    write_u32(out, b.len() as u32);
    let ghost mid = out@;
    let mut i: usize = 0;
    while i < b.len()
        invariant
            i <= b@.len(),
            out@ == mid + b@.subrange(0, i as int),
        decreases b@.len() - i,
    {
        out.push(b[i]);
        proof {
            assert(out@ =~= mid + b@.subrange(0, i + 1 as int));
        }
        i = i + 1;
    }
    proof {
        assert(b@.subrange(0, b@.len() as int) =~= b@);
        assert(final(out)@ =~= old(out)@ + enc_bytes(b@));
    }
}

pub fn write_opt_bytes(out: &mut Vec<u8>, o: &Option<Vec<u8>>)
    requires
        o is Some ==> o->0@.len() <= u32::MAX,
    ensures
        final(out)@ == old(out)@ + enc_opt_bytes(match o {
            Option::Some(b) => Option::Some(b@),
            Option::None => Option::None,
        }),
{
    match o {
        Option::None => {
            out.push(0u8);
            proof {
                assert(final(out)@ =~= old(out)@ + enc_opt_bytes(Option::None));
            }
        },
        Option::Some(b) => {
            out.push(1u8);
            write_bytes(out, b);
            proof {
                assert(final(out)@ =~= old(out)@ + enc_opt_bytes(Option::Some(b@)));
            }
        },
    }
}

pub fn write_opt_u32(out: &mut Vec<u8>, o: &Option<u32>)
    ensures
        final(out)@ == old(out)@ + enc_opt_u32(*o),
{
    match o {
        Option::None => {
            out.push(0u8);
            proof {
                assert(final(out)@ =~= old(out)@ + enc_opt_u32(Option::None));
            }
        },
        Option::Some(v) => {
            out.push(1u8);
            write_u32(out, *v);
            proof {
                assert(final(out)@ =~= old(out)@ + enc_opt_u32(Option::Some(*v)));
            }
        },
    }
}

// ---------------------------------------------------------------------
// Exec decoders: walk the buffer by position, specified against the
// spec decoders on the remaining suffix
// ---------------------------------------------------------------------
pub fn read_u8(buf: &Vec<u8>, pos: usize) -> (r: Option<(u8, usize)>)
    requires
        pos <= buf@.len(),
    ensures
        match r {
            Some((v, p2)) => pos < p2 <= buf@.len() && dec_u8(buf@.skip(pos as int)) == Some(
                (v, buf@.skip(p2 as int)),
            ),
            None => dec_u8(buf@.skip(pos as int)) is None,
        },
{
    if buf.len() - pos >= 1 {
        let v = buf[pos];
        proof {
            assert(buf@.skip(pos as int)[0] == buf@[pos as int]);
            assert(buf@.skip(pos as int).skip(1) =~= buf@.skip(pos + 1 as int));
        }
        Some((v, pos + 1))
    } else {
        None
    }
}

pub fn read_u16(buf: &Vec<u8>, pos: usize) -> (r: Option<(u16, usize)>)
    requires
        pos <= buf@.len(),
    ensures
        match r {
            Some((v, p2)) => pos < p2 <= buf@.len() && dec_u16(buf@.skip(pos as int)) == Some(
                (v, buf@.skip(p2 as int)),
            ),
            None => dec_u16(buf@.skip(pos as int)) is None,
        },
{
    if buf.len() - pos >= 2 {
        let v = (buf[pos] as u16) | ((buf[pos + 1] as u16) << 8);
        proof {
            let s = buf@.skip(pos as int);
            assert(s[0] == buf@[pos as int]);
            assert(s[1] == buf@[pos + 1]);
            assert(s.skip(2) =~= buf@.skip(pos + 2));
        }
        Some((v, pos + 2))
    } else {
        None
    }
}

pub fn read_u32(buf: &Vec<u8>, pos: usize) -> (r: Option<(u32, usize)>)
    requires
        pos <= buf@.len(),
    ensures
        match r {
            Some((v, p2)) => pos < p2 <= buf@.len() && dec_u32(buf@.skip(pos as int)) == Some(
                (v, buf@.skip(p2 as int)),
            ),
            None => dec_u32(buf@.skip(pos as int)) is None,
        },
{
    if buf.len() - pos >= 4 {
        let v = (buf[pos] as u32) | ((buf[pos + 1] as u32) << 8) | ((buf[pos + 2] as u32) << 16)
            | ((buf[pos + 3] as u32) << 24);
        proof {
            let s = buf@.skip(pos as int);
            assert(s[0] == buf@[pos as int]);
            assert(s[1] == buf@[pos + 1]);
            assert(s[2] == buf@[pos + 2]);
            assert(s[3] == buf@[pos + 3]);
            assert(s.skip(4) =~= buf@.skip(pos + 4));
        }
        Some((v, pos + 4))
    } else {
        None
    }
}

pub fn read_bool(buf: &Vec<u8>, pos: usize) -> (r: Option<(bool, usize)>)
    requires
        pos <= buf@.len(),
    ensures
        match r {
            Some((v, p2)) => pos < p2 <= buf@.len() && dec_bool(buf@.skip(pos as int)) == Some(
                (v, buf@.skip(p2 as int)),
            ),
            None => dec_bool(buf@.skip(pos as int)) is None,
        },
{
    match read_u8(buf, pos) {
        Some((t, p2)) => {
            if t == 1 {
                Some((true, p2))
            } else if t == 0 {
                Some((false, p2))
            } else {
                None
            }
        },
        None => None,
    }
}

pub fn read_bytes(buf: &Vec<u8>, pos: usize) -> (r: Option<(Vec<u8>, usize)>)
    requires
        pos <= buf@.len(),
    ensures
        match r {
            Some((b, p2)) => pos <= p2 <= buf@.len() && dec_bytes(buf@.skip(pos as int)) == Some(
                (b@, buf@.skip(p2 as int)),
            ),
            None => dec_bytes(buf@.skip(pos as int)) is None,
        },
{
    match read_u32(buf, pos) {
        Some((n, p2)) => {
            if (n as u64) > (buf.len() - p2) as u64 {
                proof {
                    let s = buf@.skip(pos as int);
                    assert(dec_u32(s) == Some((n, buf@.skip(p2 as int))));
                }
                None
            } else {
                let n = n as usize;
                let mut out: Vec<u8> = Vec::new();
                let mut i: usize = 0;
                while i < n
                    invariant
                        i <= n,
                        p2 + n <= buf@.len(),
                        buf@.len() <= usize::MAX,
                        out@ == buf@.subrange(p2 as int, p2 + i as int),
                    decreases n - i,
                {
                    out.push(buf[p2 + i]);
                    proof {
                        assert(out@ =~= buf@.subrange(p2 as int, p2 + (i + 1) as int));
                    }
                    i = i + 1;
                }
                proof {
                    let s = buf@.skip(pos as int);
                    let rest = buf@.skip(p2 as int);
                    assert(rest.take(n as int) =~= buf@.subrange(p2 as int, p2 + n as int));
                    assert(rest.skip(n as int) =~= buf@.skip(p2 + n as int));
                }
                Some((out, p2 + n))
            }
        },
        None => None,
    }
}

pub fn read_opt_bytes(buf: &Vec<u8>, pos: usize) -> (r: Option<(Option<Vec<u8>>, usize)>)
    requires
        pos <= buf@.len(),
    ensures
        match r {
            Some((o, p2)) => pos <= p2 <= buf@.len() && dec_opt_bytes(buf@.skip(pos as int))
                == Some(
                (
                    match o {
                        Option::Some(b) => Option::Some(b@),
                        Option::None => Option::<Seq<u8>>::None,
                    },
                    buf@.skip(p2 as int),
                ),
            ),
            None => dec_opt_bytes(buf@.skip(pos as int)) is None,
        },
{
    match read_u8(buf, pos) {
        Some((t, p2)) => {
            if t == 0 {
                Some((None, p2))
            } else if t == 1 {
                match read_bytes(buf, p2) {
                    Some((b, p3)) => Some((Some(b), p3)),
                    None => None,
                }
            } else {
                None
            }
        },
        None => None,
    }
}

pub fn read_opt_u32(buf: &Vec<u8>, pos: usize) -> (r: Option<(Option<u32>, usize)>)
    requires
        pos <= buf@.len(),
    ensures
        match r {
            Some((o, p2)) => pos <= p2 <= buf@.len() && dec_opt_u32(buf@.skip(pos as int)) == Some(
                (o, buf@.skip(p2 as int)),
            ),
            None => dec_opt_u32(buf@.skip(pos as int)) is None,
        },
{
    match read_u8(buf, pos) {
        Some((t, p2)) => {
            if t == 0 {
                Some((None, p2))
            } else if t == 1 {
                match read_u32(buf, p2) {
                    Some((v, p3)) => Some((Some(v), p3)),
                    None => None,
                }
            } else {
                None
            }
        },
        None => None,
    }
}

} // verus!
