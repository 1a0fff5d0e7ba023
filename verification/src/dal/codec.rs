use vstd::prelude::*;

verus! {

use crate::estimates::participant::{Participant, ParticipantView};
use crate::estimates::session::{Average, Session, SessionID, SessionView};
use crate::estimates::vote::VoteState;
use crate::user::{BasicUser, BasicUserView, UserID, UserToken};

/// The four little-endian bytes of a 32-bit number.
pub open spec fn enc_u32(n: u32) -> Seq<u8> {
    seq![
        (n % 256) as u8,
        ((n / 256) % 256) as u8,
        ((n / 65536) % 256) as u8,
        ((n / 16777216) % 256) as u8,
    ]
}

/// The eight little-endian bytes of a 64-bit number.
pub open spec fn enc_u64(n: u64) -> Seq<u8> {
    seq![
        (n % 256) as u8,
        ((n / 256) % 256) as u8,
        ((n / 65536) % 256) as u8,
        ((n / 16777216) % 256) as u8,
        ((n / 4294967296) % 256) as u8,
        ((n / 1099511627776) % 256) as u8,
        ((n / 281474976710656) % 256) as u8,
        ((n / 72057594037927936) % 256) as u8,
    ]
}

/// A 32-bit number is the weighted sum of its little-endian bytes.
proof fn lemma_u32_recompose(n: u32)
    ensures
        n == (n % 256) + 256 * ((n / 256) % 256) + 65536 * ((n / 65536) % 256) + 16777216 * ((n
            / 16777216) % 256),
{
    assert(n == (n % 256) + 256 * ((n / 256) % 256) + 65536 * ((n / 65536) % 256) + 16777216 * ((n
        / 16777216) % 256)) by (bit_vector);
}

/// A 64-bit number is the weighted sum of its little-endian bytes.
proof fn lemma_u64_recompose(n: u64)
    ensures
        n == (n % 256) + 256 * ((n / 256) % 256) + 65536 * ((n / 65536) % 256) + 16777216 * ((n
            / 16777216) % 256) + 4294967296 * ((n / 4294967296) % 256) + 1099511627776 * ((n
            / 1099511627776) % 256) + 281474976710656 * ((n / 281474976710656) % 256)
            + 72057594037927936 * ((n / 72057594037927936) % 256),
{
    assert(n == (n % 256) + 256 * ((n / 256) % 256) + 65536 * ((n / 65536) % 256) + 16777216 * ((n
        / 16777216) % 256) + 4294967296 * ((n / 4294967296) % 256) + 1099511627776 * ((n
        / 1099511627776) % 256) + 281474976710656 * ((n / 281474976710656) % 256)
        + 72057594037927936 * ((n / 72057594037927936) % 256)) by (bit_vector);
}

/// Appends the four little-endian bytes of `n`.
pub fn put_u32(out: &mut Vec<u8>, n: u32)
    ensures
        final(out)@ == old(out)@ + enc_u32(n),
{
    out.push((n % 256) as u8);
    out.push(((n / 256) % 256) as u8);
    out.push(((n / 65536) % 256) as u8);
    out.push(((n / 16777216) % 256) as u8);
    proof {
        assert(final(out)@ =~= old(out)@ + enc_u32(n));
    }
}

/// Appends the eight little-endian bytes of `n`.
pub fn put_u64(out: &mut Vec<u8>, n: u64)
    ensures
        final(out)@ == old(out)@ + enc_u64(n),
{
    out.push((n % 256) as u8);
    out.push(((n / 256) % 256) as u8);
    out.push(((n / 65536) % 256) as u8);
    out.push(((n / 16777216) % 256) as u8);
    out.push(((n / 4294967296) % 256) as u8);
    out.push(((n / 1099511627776) % 256) as u8);
    out.push(((n / 281474976710656) % 256) as u8);
    out.push(((n / 72057594037927936) % 256) as u8);
    proof {
        assert(final(out)@ =~= old(out)@ + enc_u64(n));
    }
}

/// Reads four little-endian bytes at `pos` back into the number they encode.
pub fn parse_u32_at(v: &Vec<u8>, pos: usize) -> (r: Option<(u32, usize)>)
    ensures
        (r matches Some((n, p2)) ==> {
            &&& pos + 4 <= v@.len()
            &&& p2 == pos + 4
            &&& v@.subrange(pos as int, p2 as int) == enc_u32(n)
        }),
        pos + 4 <= v@.len() ==> r is Some,
{
    if pos >= v.len() || v.len() - pos < 4 {
        return None;
    }
    let b0 = v[pos] as u32;
    let b1 = v[pos + 1] as u32;
    let b2 = v[pos + 2] as u32;
    let b3 = v[pos + 3] as u32;
    let n = b0 + 256 * b1 + 65536 * b2 + 16777216 * b3;
    proof {
        lemma_u32_recompose(n);
        assert(n % 256 == b0 && (n / 256) % 256 == b1 && (n / 65536) % 256 == b2 && (n / 16777216)
            % 256 == b3) by (bit_vector)
            requires
                b0 < 256 && b1 < 256 && b2 < 256 && b3 < 256 && n == b0 + 256 * b1 + 65536 * b2
                    + 16777216 * b3,
        ;
        assert(v@.subrange(pos as int, pos + 4) =~= enc_u32(n));
    }
    Some((n, pos + 4))
}

/// Reads eight little-endian bytes at `pos` back into the number they encode.
pub fn parse_u64_at(v: &Vec<u8>, pos: usize) -> (r: Option<(u64, usize)>)
    ensures
        (r matches Some((n, p2)) ==> {
            &&& pos + 8 <= v@.len()
            &&& p2 == pos + 8
            &&& v@.subrange(pos as int, p2 as int) == enc_u64(n)
        }),
        pos + 8 <= v@.len() ==> r is Some,
{
    if pos >= v.len() || v.len() - pos < 8 {
        return None;
    }
    let b0 = v[pos] as u64;
    let b1 = v[pos + 1] as u64;
    let b2 = v[pos + 2] as u64;
    let b3 = v[pos + 3] as u64;
    let b4 = v[pos + 4] as u64;
    let b5 = v[pos + 5] as u64;
    let b6 = v[pos + 6] as u64;
    let b7 = v[pos + 7] as u64;
    let n = b0 + 256 * b1 + 65536 * b2 + 16777216 * b3 + 4294967296 * b4 + 1099511627776 * b5
        + 281474976710656 * b6 + 72057594037927936 * b7;
    proof {
        lemma_u64_recompose(n);
        assert(n % 256 == b0 && (n / 256) % 256 == b1 && (n / 65536) % 256 == b2 && (n / 16777216)
            % 256 == b3 && (n / 4294967296) % 256 == b4 && (n / 1099511627776) % 256 == b5 && (n
            / 281474976710656) % 256 == b6 && (n / 72057594037927936) % 256 == b7) by (bit_vector)
            requires
                b0 < 256 && b1 < 256 && b2 < 256 && b3 < 256 && b4 < 256 && b5 < 256 && b6 < 256
                    && b7 < 256 && n == b0 + 256 * b1 + 65536 * b2 + 16777216 * b3 + 4294967296
                    * b4 + 1099511627776 * b5 + 281474976710656 * b6 + 72057594037927936 * b7,
        ;
        assert(v@.subrange(pos as int, pos + 8) =~= enc_u64(n));
    }
    Some((n, pos + 8))
}


/// Equal eight-byte encodings come from equal numbers.
#[verifier::rlimit(50)]
proof fn lemma_enc_u64_inj(a: u64, b: u64)
    requires
        enc_u64(a) == enc_u64(b),
    ensures
        a == b,
{
    assert(a % 256 == b % 256) by {
        assert(enc_u64(a)[0] == enc_u64(b)[0]);
    }
    assert((a / 256) % 256 == (b / 256) % 256) by {
        assert(enc_u64(a)[1] == enc_u64(b)[1]);
    }
    assert((a / 65536) % 256 == (b / 65536) % 256) by {
        assert(enc_u64(a)[2] == enc_u64(b)[2]);
    }
    assert((a / 16777216) % 256 == (b / 16777216) % 256) by {
        assert(enc_u64(a)[3] == enc_u64(b)[3]);
    }
    assert((a / 4294967296) % 256 == (b / 4294967296) % 256) by {
        assert(enc_u64(a)[4] == enc_u64(b)[4]);
    }
    assert((a / 1099511627776) % 256 == (b / 1099511627776) % 256) by {
        assert(enc_u64(a)[5] == enc_u64(b)[5]);
    }
    assert((a / 281474976710656) % 256 == (b / 281474976710656) % 256) by {
        assert(enc_u64(a)[6] == enc_u64(b)[6]);
    }
    assert((a / 72057594037927936) % 256 == (b / 72057594037927936) % 256) by {
        assert(enc_u64(a)[7] == enc_u64(b)[7]);
    }
    lemma_u64_recompose(a);
    lemma_u64_recompose(b);
}

/// A length-prefixed byte field: eight bytes of length, then the bytes.
pub open spec fn enc_bytes(b: Seq<u8>) -> Seq<u8> {
    enc_u64(b.len() as u64) + b
}

/// A length-prefixed string field: the string's UTF-8 bytes behind their
/// length.
pub open spec fn enc_str(s: Seq<char>) -> Seq<u8> {
    enc_bytes(vstd::utf8::encode_utf8(s))
}

/// Appends a length-prefixed byte field.
pub fn put_bytes(out: &mut Vec<u8>, b: &[u8])
    ensures
        final(out)@ == old(out)@ + enc_bytes(b@),
{
    put_u64(out, b.len() as u64);
    let n = b.len();
    let mut i: usize = 0;
    while i < n
        invariant
            n == b@.len(),
            i <= n,
            out@ == old(out)@ + enc_u64(b@.len() as u64) + b@.take(i as int),
        decreases n - i,
    {
        out.push(b[i]);
        proof {
            assert(out@ =~= old(out)@ + enc_u64(b@.len() as u64) + b@.take(i + 1));
        }
        i = i + 1;
    }
    proof {
        assert(b@.take(n as int) =~= b@);
        assert(out@ =~= old(out)@ + enc_bytes(b@));
    }
}

/// Appends a length-prefixed string field.
pub fn put_str(out: &mut Vec<u8>, s: &str)
    ensures
        final(out)@ == old(out)@ + enc_str(s@),
{
    put_bytes(out, s.as_bytes());
}

/// Reads a length-prefixed byte field at `pos`: whenever the buffer holds
/// one there, exactly that field comes back.
#[verifier::rlimit(50)]
pub fn parse_bytes_at(v: &Vec<u8>, pos: usize) -> (r: Option<(Vec<u8>, usize)>)
    ensures
        (r matches Some((b, p2)) ==> {
            &&& p2 <= v@.len()
            &&& p2 == pos + 8 + b@.len()
            &&& v@.subrange(pos as int, p2 as int) == enc_bytes(b@)
        }),
        (forall|bb: Seq<u8>|
            pos + 8 + bb.len() <= v@.len() && v@.subrange(pos as int, pos + 8 + bb.len())
                == enc_bytes(bb) ==> (r matches Some(x) && x.0@ == bb && x.1 == pos + 8
                + bb.len())),
{
    let total = v.len();
    let parsed = parse_u64_at(v, pos);
    let (n, p1) = match parsed {
        Some(x) => x,
        None => {
            proof {
                assert forall|bb: Seq<u8>|
                    pos + 8 + bb.len() <= v@.len() && v@.subrange(pos as int, pos + 8 + bb.len())
                        == enc_bytes(bb) implies false by {
                    assert(pos + 8 <= v@.len());
                }
            }
            return None;
        },
    };
    proof {
        assert forall|bb: Seq<u8>|
            pos + 8 + bb.len() <= v@.len() && v@.subrange(pos as int, pos + 8 + bb.len())
                == enc_bytes(bb) implies n == bb.len() by {
            assert(bb.len() <= total);
            assert(enc_u64(bb.len() as u64).len() == 8);
            assert forall|i: int| 0 <= i < 8 implies #[trigger] v@.subrange(pos as int, pos + 8)[i]
                == enc_u64(bb.len() as u64)[i] by {
                assert(v@.subrange(pos as int, pos + 8 + bb.len())[i] == enc_bytes(bb)[i]);
            }
            assert(v@.subrange(pos as int, pos + 8) =~= enc_u64(bb.len() as u64));
            lemma_enc_u64_inj(n, bb.len() as u64);
        }
    }
    if ((total - p1) as u64) < n {
        proof {
            assert forall|bb: Seq<u8>|
                pos + 8 + bb.len() <= v@.len() && v@.subrange(pos as int, pos + 8 + bb.len())
                    == enc_bytes(bb) implies false by {
                assert(n == bb.len());
            }
        }
        return None;
    }
    let len = n as usize;
    let mut out: Vec<u8> = Vec::new();
    let mut i: usize = 0;
    while i < len
        invariant
            p1 + len <= v@.len(),
            v@.len() <= usize::MAX,
            i <= len,
            out@ == v@.subrange(p1 as int, p1 + i),
        decreases len - i,
    {
        out.push(v[p1 + i]);
        proof {
            assert(out@ =~= v@.subrange(p1 as int, p1 + i + 1));
        }
        i = i + 1;
    }
    proof {
        assert(v@.subrange(pos as int, p1 + len) =~= enc_u64(n) + out@);
        assert(out@.len() as u64 == n);
        assert(v@.subrange(pos as int, p1 + len) =~= enc_bytes(out@));
        assert forall|bb: Seq<u8>|
            pos + 8 + bb.len() <= v@.len() && v@.subrange(pos as int, pos + 8 + bb.len())
                == enc_bytes(bb) implies out@ == bb by {
            assert(n == bb.len());
            assert forall|k: int| 0 <= k < bb.len() implies #[trigger] out@[k] == bb[k] by {
                assert(v@.subrange(pos as int, pos + 8 + bb.len())[8 + k] == enc_bytes(bb)[8 + k]);
                assert(enc_bytes(bb)[8 + k] == bb[k]);
                assert(out@[k] == v@[p1 + k]);
            }
            assert(out@ =~= bb);
        }
    }
    Some((out, p1 + len))
}

/// Reads a length-prefixed string field at `pos`: whenever the buffer holds
/// one there, exactly that string comes back.
pub fn parse_str_at(v: &Vec<u8>, pos: usize) -> (r: Option<(String, usize)>)
    ensures
        (r matches Some((s, p2)) ==> {
            &&& p2 <= v@.len()
            &&& p2 == pos + 8 + vstd::utf8::encode_utf8(s@).len()
            &&& v@.subrange(pos as int, p2 as int) == enc_str(s@)
        }),
        (forall|cs: Seq<char>|
            pos + 8 + vstd::utf8::encode_utf8(cs).len() <= v@.len() && v@.subrange(
                pos as int,
                pos + 8 + vstd::utf8::encode_utf8(cs).len(),
            ) == enc_str(cs) ==> (r matches Some(x) && x.0@ == cs && x.1 == pos + 8
                + vstd::utf8::encode_utf8(cs).len())),
{
    let parsed = parse_bytes_at(v, pos);
    match parsed {
        None => {
            proof {
                assert forall|cs: Seq<char>|
                    pos + 8 + vstd::utf8::encode_utf8(cs).len() <= v@.len() && v@.subrange(
                        pos as int,
                        pos + 8 + vstd::utf8::encode_utf8(cs).len(),
                    ) == enc_str(cs) implies false by {}
            }
            None
        },
        Some((b, p2)) => {
            let ghost bb0 = b@;
            match crate::text::bytes_to_string(b) {
                Some(s) => {
                    proof {
                        vstd::utf8::encode_utf8_decode_utf8(s@);
                        assert forall|cs: Seq<char>|
                            pos + 8 + vstd::utf8::encode_utf8(cs).len() <= v@.len() && v@.subrange(
                                pos as int,
                                pos + 8 + vstd::utf8::encode_utf8(cs).len(),
                            ) == enc_str(cs) implies s@ == cs && p2 == pos + 8
                            + vstd::utf8::encode_utf8(cs).len() by {
                            assert(bb0 == vstd::utf8::encode_utf8(cs));
                            crate::text::lemma_encode_utf8_injective(s@, cs);
                        }
                    }
                    Some((s, p2))
                },
                None => {
                    proof {
                        assert forall|cs: Seq<char>|
                            pos + 8 + vstd::utf8::encode_utf8(cs).len() <= v@.len() && v@.subrange(
                                pos as int,
                                pos + 8 + vstd::utf8::encode_utf8(cs).len(),
                            ) == enc_str(cs) implies false by {
                            assert(bb0 == vstd::utf8::encode_utf8(cs));
                            vstd::utf8::encode_utf8_valid_utf8(cs);
                        }
                    }
                    None
                },
            }
        },
    }
}


/// Equal four-byte encodings come from equal numbers.
proof fn lemma_enc_u32_inj(a: u32, b: u32)
    requires
        enc_u32(a) == enc_u32(b),
    ensures
        a == b,
{
    assert(enc_u32(a)[0] == enc_u32(b)[0]);
    assert(enc_u32(a)[1] == enc_u32(b)[1]);
    assert(enc_u32(a)[2] == enc_u32(b)[2]);
    assert(enc_u32(a)[3] == enc_u32(b)[3]);
    lemma_u32_recompose(a);
    lemma_u32_recompose(b);
}

/// A run that encodes two fields in sequence splits back into the two.
proof fn lemma_split_fields(v: Seq<u8>, a: Seq<u8>, b: Seq<u8>, pos: int)
    requires
        0 <= pos,
        pos + a.len() + b.len() <= v.len(),
        v.subrange(pos, pos + a.len() + b.len()) == a + b,
    ensures
        v.subrange(pos, pos + a.len()) == a,
        v.subrange(pos + a.len(), pos + a.len() + b.len()) == b,
{
    assert forall|i: int| 0 <= i < a.len() implies #[trigger] v.subrange(pos, pos + a.len())[i]
        == a[i] by {
        assert(v.subrange(pos, pos + a.len() + b.len())[i] == (a + b)[i]);
    }
    assert(v.subrange(pos, pos + a.len()) =~= a);
    assert forall|i: int|
        0 <= i < b.len() implies #[trigger] v.subrange(
        pos + a.len(),
        pos + a.len() + b.len(),
    )[i] == b[i] by {
        assert(v.subrange(pos, pos + a.len() + b.len())[a.len() + i] == (a + b)[a.len() + i]);
        assert((a + b)[a.len() + i] == b[i]);
        assert(v.subrange(pos, pos + a.len() + b.len())[a.len() + i] == v[pos + a.len() + i]);
        assert(v.subrange(pos + a.len(), pos + a.len() + b.len())[i] == v[pos + a.len() + i]);
    }
    assert(v.subrange(pos + a.len(), pos + a.len() + b.len()) =~= b);
}

/// A vote on the wire: a tag for the phase, then the amount (zero when the
/// phase carries none).
pub open spec fn enc_vote(v: VoteState) -> Seq<u8> {
    match v {
        VoteState::Empty => seq![0u8] + enc_u32(0),
        VoteState::Hidden(x) => seq![1u8] + enc_u32(x),
        VoteState::Visible(x) => seq![2u8] + enc_u32(x),
    }
}

/// Appends an encoded vote.
pub fn put_vote(out: &mut Vec<u8>, v: VoteState)
    ensures
        final(out)@ == old(out)@ + enc_vote(v),
{
    match v {
        VoteState::Empty => {
            out.push(0);
            put_u32(out, 0);
        },
        VoteState::Hidden(x) => {
            out.push(1);
            put_u32(out, x);
        },
        VoteState::Visible(x) => {
            out.push(2);
            put_u32(out, x);
        },
    }
    proof {
        assert(final(out)@ =~= old(out)@ + enc_vote(v));
    }
}

/// Reads an encoded vote at `pos`: whenever the buffer holds one there,
/// exactly that vote comes back.
pub fn parse_vote_at(v: &Vec<u8>, pos: usize) -> (r: Option<(VoteState, usize)>)
    ensures
        (r matches Some((w, p2)) ==> {
            &&& p2 <= v@.len()
            &&& p2 == pos + 5
            &&& v@.subrange(pos as int, p2 as int) == enc_vote(w)
        }),
        (forall|w: VoteState|
            pos + 5 <= v@.len() && v@.subrange(pos as int, pos + 5) == enc_vote(w) ==> (
            r matches Some(x) && x.0 == w && x.1 == pos + 5)),
{
    let total = v.len();
    if total < 1 || pos > total - 1 {
        return None;
    }
    let tag = v[pos];
    let (amount, p2) = match parse_u32_at(v, pos + 1) {
        Some(x) => x,
        None => {
            return None;
        },
    };
    proof {
        assert forall|w: VoteState|
            pos + 5 <= v@.len() && v@.subrange(pos as int, pos + 5) == enc_vote(w) implies {
            &&& tag == enc_vote(w)[0]
            &&& enc_u32(amount) == v@.subrange(pos as int, pos + 5).subrange(1, 5)
        } by {
            assert(v@.subrange(pos as int, pos + 5)[0] == v@[pos as int]);
            assert forall|i: int|
                0 <= i < 4 implies #[trigger] v@.subrange(pos + 1, pos + 5)[i] == v@.subrange(
                pos as int,
                pos + 5,
            ).subrange(1, 5)[i] by {}
            assert(v@.subrange(pos + 1, pos + 5) =~= v@.subrange(pos as int, pos + 5).subrange(
                1,
                5,
            ));
        }
        assert forall|w: VoteState|
            pos + 5 <= v@.len() && v@.subrange(pos as int, pos + 5) == enc_vote(w) implies {
            &&& (w is Empty ==> tag == 0 && amount == 0)
            &&& (w matches VoteState::Hidden(x) ==> tag == 1 && amount == x)
            &&& (w matches VoteState::Visible(x) ==> tag == 2 && amount == x)
        } by {
            assert(enc_vote(w).subrange(1, 5) =~= (match w {
                VoteState::Empty => enc_u32(0),
                VoteState::Hidden(x) => enc_u32(x),
                VoteState::Visible(x) => enc_u32(x),
            }));
            match w {
                VoteState::Empty => lemma_enc_u32_inj(amount, 0),
                VoteState::Hidden(x) => lemma_enc_u32_inj(amount, x),
                VoteState::Visible(x) => lemma_enc_u32_inj(amount, x),
            }
        }
    }
    let w = if tag == 0 {
        if amount != 0 {
            return None;
        }
        VoteState::Empty
    } else if tag == 1 {
        VoteState::Hidden(amount)
    } else if tag == 2 {
        VoteState::Visible(amount)
    } else {
        return None;
    };
    proof {
        assert(v@.subrange(pos as int, pos + 5) =~= seq![tag] + enc_u32(amount));
        assert(v@.subrange(pos as int, pos + 5) =~= enc_vote(w));
    }
    Some((w, p2))
}

/// A stored average on the wire: a presence tag, the total, the count (both
/// zero when absent).
pub open spec fn enc_avg(a: Option<Average>) -> Seq<u8> {
    match a {
        None => seq![0u8] + enc_u64(0) + enc_u32(0),
        Some(av) => seq![1u8] + enc_u64(av.total) + enc_u32(av.count),
    }
}

/// Appends an encoded average.
pub fn put_avg(out: &mut Vec<u8>, a: Option<Average>)
    ensures
        final(out)@ == old(out)@ + enc_avg(a),
{
    match a {
        None => {
            out.push(0);
            put_u64(out, 0);
            put_u32(out, 0);
        },
        Some(av) => {
            out.push(1);
            put_u64(out, av.total);
            put_u32(out, av.count);
        },
    }
    proof {
        assert(final(out)@ =~= old(out)@ + enc_avg(a));
    }
}

/// Reads an encoded average at `pos`: whenever the buffer holds one there,
/// exactly that average comes back.
pub fn parse_avg_at(v: &Vec<u8>, pos: usize) -> (r: Option<(Option<Average>, usize)>)
    ensures
        (r matches Some((a, p2)) ==> {
            &&& p2 <= v@.len()
            &&& p2 == pos + 13
            &&& v@.subrange(pos as int, p2 as int) == enc_avg(a)
        }),
        (forall|a: Option<Average>|
            pos + 13 <= v@.len() && v@.subrange(pos as int, pos + 13) == enc_avg(a) ==> (
            r matches Some(x) && x.0 == a && x.1 == pos + 13)),
{
    let total = v.len();
    if total < 1 || pos > total - 1 {
        return None;
    }
    let tag = v[pos];
    let (t, p1) = match parse_u64_at(v, pos + 1) {
        Some(x) => x,
        None => {
            return None;
        },
    };
    let (c, p2) = match parse_u32_at(v, p1) {
        Some(x) => x,
        None => {
            return None;
        },
    };
    proof {
        assert forall|a: Option<Average>|
            pos + 13 <= v@.len() && v@.subrange(pos as int, pos + 13) == enc_avg(a) implies {
            &&& (a is None ==> tag == 0 && t == 0 && c == 0)
            &&& (a matches Some(av) ==> tag == 1 && t == av.total && c == av.count)
        } by {
            let body = v@.subrange(pos as int, pos + 13);
            assert(body[0] == v@[pos as int]);
            assert forall|i: int|
                0 <= i < 8 implies #[trigger] v@.subrange(pos + 1, pos + 9)[i] == body.subrange(
                1,
                9,
            )[i] by {}
            assert(v@.subrange(pos + 1, pos + 9) =~= body.subrange(1, 9));
            assert forall|i: int|
                0 <= i < 4 implies #[trigger] v@.subrange(pos + 9, pos + 13)[i] == body.subrange(
                9,
                13,
            )[i] by {}
            assert(v@.subrange(pos + 9, pos + 13) =~= body.subrange(9, 13));
            match a {
                None => {
                    assert(body.subrange(1, 9) =~= enc_u64(0));
                    assert(body.subrange(9, 13) =~= enc_u32(0));
                    lemma_enc_u64_inj(t, 0);
                    lemma_enc_u32_inj(c, 0);
                },
                Some(av) => {
                    assert(body.subrange(1, 9) =~= enc_u64(av.total));
                    assert(body.subrange(9, 13) =~= enc_u32(av.count));
                    lemma_enc_u64_inj(t, av.total);
                    lemma_enc_u32_inj(c, av.count);
                },
            }
        }
    }
    let a = if tag == 0 {
        if t != 0 || c != 0 {
            return None;
        }
        None
    } else if tag == 1 {
        Some(Average { total: t, count: c })
    } else {
        return None;
    };
    proof {
        assert(v@.subrange(pos as int, pos + 13) =~= seq![tag] + enc_u64(t) + enc_u32(c));
        assert(v@.subrange(pos as int, pos + 13) =~= enc_avg(a));
    }
    Some((a, p2))
}


/// A session record on the wire: its identifier, then its average.
pub open spec fn enc_session(s: SessionView) -> Seq<u8> {
    enc_str(s.session_id) + enc_avg(s.average)
}

/// Encodes a session record.
pub fn encode_session(s: &Session) -> (r: Vec<u8>)
    ensures
        r@ == enc_session(s@),
{
    let mut out: Vec<u8> = Vec::new();
    put_str(&mut out, s.session_id.0.as_str());
    put_avg(&mut out, s.average);
    proof {
        assert(out@ =~= enc_session(s@));
    }
    out
}

/// Decodes a session record: a buffer that encodes one yields exactly that
/// record, and whatever decodes did encode to the buffer.
pub fn decode_session(v: &Vec<u8>) -> (r: Option<Session>)
    ensures
        (r matches Some(s) ==> v@ == enc_session(s@)),
        (forall|sv: SessionView|
            v@ == enc_session(sv) ==> (r matches Some(s) && s@ == sv)),
{
    proof {
        assert forall|sv: SessionView| v@ == enc_session(sv) implies {
            &&& v@.subrange(0, enc_str(sv.session_id).len() as int) == enc_str(sv.session_id)
            &&& v@.subrange(
                enc_str(sv.session_id).len() as int,
                enc_str(sv.session_id).len() + 13 as int,
            ) == enc_avg(sv.average)
            &&& v@.len() == enc_str(sv.session_id).len() + 13
        } by {
            assert(v@.subrange(0, v@.len() as int) =~= v@);
            lemma_split_fields(v@, enc_str(sv.session_id), enc_avg(sv.average), 0);
        }
    }
    let (sid, p1) = match parse_str_at(v, 0) {
        Some(x) => x,
        None => {
            return None;
        },
    };
    let (avg, p2) = match parse_avg_at(v, p1) {
        Some(x) => x,
        None => {
            return None;
        },
    };
    if p2 != v.len() {
        return None;
    }
    proof {
        assert(v@.subrange(0, v@.len() as int) =~= v@);
        assert(v@ =~= enc_str(sid@) + enc_avg(avg));
    }
    Some(Session { session_id: SessionID(sid), average: avg })
}

/// A user record on the wire: its identifier, then its token.
pub open spec fn enc_user(u: BasicUserView) -> Seq<u8> {
    enc_str(u.user_id) + enc_str(u.user_token)
}

/// Encodes a user record.
pub fn encode_user(u: &BasicUser) -> (r: Vec<u8>)
    ensures
        r@ == enc_user(u@),
{
    let mut out: Vec<u8> = Vec::new();
    put_str(&mut out, u.user_id.0.as_str());
    put_str(&mut out, u.user_token.0.as_str());
    proof {
        assert(out@ =~= enc_user(u@));
    }
    out
}

/// Decodes a user record: a buffer that encodes one yields exactly that
/// record, and whatever decodes did encode to the buffer.
pub fn decode_user(v: &Vec<u8>) -> (r: Option<BasicUser>)
    ensures
        (r matches Some(u) ==> v@ == enc_user(u@)),
        (forall|uv: BasicUserView| v@ == enc_user(uv) ==> (r matches Some(u) && u@ == uv)),
{
    proof {
        assert forall|uv: BasicUserView| v@ == enc_user(uv) implies {
            &&& v@.subrange(0, enc_str(uv.user_id).len() as int) == enc_str(uv.user_id)
            &&& v@.subrange(
                enc_str(uv.user_id).len() as int,
                (enc_str(uv.user_id).len() + enc_str(uv.user_token).len()) as int,
            ) == enc_str(uv.user_token)
            &&& v@.len() == enc_str(uv.user_id).len() + enc_str(uv.user_token).len()
        } by {
            assert(v@.subrange(0, v@.len() as int) =~= v@);
            lemma_split_fields(v@, enc_str(uv.user_id), enc_str(uv.user_token), 0);
        }
    }
    let (uid, p1) = match parse_str_at(v, 0) {
        Some(x) => x,
        None => {
            return None;
        },
    };
    let (tok, p2) = match parse_str_at(v, p1) {
        Some(x) => x,
        None => {
            return None;
        },
    };
    if p2 != v.len() {
        return None;
    }
    proof {
        assert(v@.subrange(0, v@.len() as int) =~= v@);
        assert(v@ =~= enc_str(uid@) + enc_str(tok@));
    }
    Some(BasicUser { user_id: UserID(uid), user_token: UserToken(tok) })
}

/// A participant record on the wire: user, session, nickname, vote.
pub open spec fn enc_participant(p: ParticipantView) -> Seq<u8> {
    enc_str(p.user_id) + enc_str(p.session_id) + enc_str(p.nickname) + enc_vote(p.vote)
}

/// Encodes a participant record.
pub fn encode_participant(p: &Participant) -> (r: Vec<u8>)
    ensures
        r@ == enc_participant(p@),
{
    let mut out: Vec<u8> = Vec::new();
    put_str(&mut out, p.user_id.0.as_str());
    put_str(&mut out, p.session_id.0.as_str());
    put_str(&mut out, p.nickname.as_str());
    put_vote(&mut out, p.vote);
    proof {
        assert(out@ =~= enc_participant(p@));
    }
    out
}

/// Decodes a participant record: a buffer that encodes one yields exactly
/// that record, and whatever decodes did encode to the buffer.
#[verifier::rlimit(100)]
#[verifier::spinoff_prover]
pub fn decode_participant(v: &Vec<u8>) -> (r: Option<Participant>)
    ensures
        (r matches Some(p) ==> v@ == enc_participant(p@)),
        (forall|pv: ParticipantView|
            v@ == enc_participant(pv) ==> (r matches Some(p) && p@ == pv)),
{
    proof {
        assert forall|pv: ParticipantView| v@ == enc_participant(pv) implies {
            let l1 = enc_str(pv.user_id).len() as int;
            let l2 = enc_str(pv.session_id).len() as int;
            let l3 = enc_str(pv.nickname).len() as int;
            &&& v@.subrange(0, l1) == enc_str(pv.user_id)
            &&& v@.subrange(l1, l1 + l2) == enc_str(pv.session_id)
            &&& v@.subrange(l1 + l2, l1 + l2 + l3) == enc_str(pv.nickname)
            &&& v@.subrange(l1 + l2 + l3, l1 + l2 + l3 + 5) == enc_vote(pv.vote)
            &&& v@.len() == l1 + l2 + l3 + 5
        } by {
            let f1 = enc_str(pv.user_id);
            let f2 = enc_str(pv.session_id);
            let f3 = enc_str(pv.nickname);
            let f4 = enc_vote(pv.vote);
            assert(v@.subrange(0, v@.len() as int) =~= v@);
            assert(v@ =~= f1 + (f2 + (f3 + f4)));
            lemma_split_fields(v@, f1, f2 + (f3 + f4), 0);
            lemma_split_fields(v@, f2, f3 + f4, f1.len() as int);
            lemma_split_fields(v@, f3, f4, (f1.len() + f2.len()) as int);
        }
    }
    let (uid, p1) = match parse_str_at(v, 0) {
        Some(x) => x,
        None => {
            return None;
        },
    };
    let (sid, p2) = match parse_str_at(v, p1) {
        Some(x) => x,
        None => {
            return None;
        },
    };
    let (nick, p3) = match parse_str_at(v, p2) {
        Some(x) => x,
        None => {
            return None;
        },
    };
    let (vote, p4) = match parse_vote_at(v, p3) {
        Some(x) => x,
        None => {
            return None;
        },
    };
    if p4 != v.len() {
        return None;
    }
    proof {
        assert(v@.subrange(0, v@.len() as int) =~= v@);
        assert(v@ =~= enc_str(uid@) + enc_str(sid@) + enc_str(nick@) + enc_vote(vote));
    }
    Some(
        Participant {
            user_id: UserID(uid),
            session_id: SessionID(sid),
            nickname: crate::user::Nickname::new(nick.as_str()),
            vote: vote,
        },
    )
}


/// Writing a session through the remote codec and reading it back yields an
/// equal record: the decoder is total and exact on everything the encoder
/// produces, whatever the session holds.
pub fn session_codec_round_trip(s: &Session) -> (r: Session)
    ensures
        r@ == s@,
{
    let bytes = encode_session(s);
    match decode_session(&bytes) {
        Some(x) => x,
        None => vstd::pervasive::unreached(),
    }
}

/// Writing a user through the remote codec and reading it back yields an
/// equal record, whatever the user holds.
pub fn user_codec_round_trip(u: &BasicUser) -> (r: BasicUser)
    ensures
        r@ == u@,
{
    let bytes = encode_user(u);
    match decode_user(&bytes) {
        Some(x) => x,
        None => vstd::pervasive::unreached(),
    }
}

/// Writing a participant through the remote codec and reading it back
/// yields an equal record, whatever the participant holds.
pub fn participant_codec_round_trip(p: &Participant) -> (r: Participant)
    ensures
        r@ == p@,
{
    let bytes = encode_participant(p);
    match decode_participant(&bytes) {
        Some(x) => x,
        None => vstd::pervasive::unreached(),
    }
}

} // verus!
