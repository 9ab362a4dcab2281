//! The persistence encoding: every value the snapshot store persists
//! implements [`Blob`], which couples a spec-level byte encoding (`enc`) and
//! decoding (`dec`) with verified executable writers and readers, and a
//! proved round-trip law: decoding an encoding yields the encoded value.
//!
//! The format is plain: `u64` as eight little-endian bytes; `i64` as a sign
//! byte plus the magnitude; `bool` and `u8` as one byte; a `String` as its
//! UTF-8 byte length followed by its UTF-8 bytes; an `Option` as a tag byte
//! plus the payload; a `Vec` as its length followed by its items; structs as
//! their fields in order.

use vstd::prelude::*;
use vstd::bytes::{
    spec_u64_to_le_bytes, spec_u64_from_le_bytes, lemma_auto_spec_u64_to_from_le_bytes,
    u64_to_le_bytes, u64_from_le_bytes,
};
use vstd::utf8::{encode_utf8, decode_utf8, valid_utf8, encode_utf8_valid_utf8, encode_utf8_decode_utf8};
use vstd::slice::slice_subrange;
use vstd::seq_lib::lemma_seq_skip_of_skip;
use crate::schedule_data::{pair, pairV, trio, trioV, nodes, nodesV};

verus! {

broadcast use vstd::seq_lib::lemma_seq_skip_of_skip;

/// A value with a byte encoding that the snapshot store can persist.
///
/// `dec` speaks of the deep view rather than the executable value, since a
/// spec function cannot build executable strings; the round-trip law
/// therefore says that decoding an encoding restores the encoded value up to
/// its mathematical content.
pub trait Blob: DeepView + Sized {
    /// Every length that the encoding stores fits the length prefix. Holds
    /// of every value an executable writer can be handed; spec-level values
    /// are unbounded, so the round-trip law asks for it.
    spec fn enc_ok(&self) -> bool;

    /// The encoding of this value.
    spec fn enc(&self) -> Seq<u8>;

    /// Decode a prefix of `s`: the decoded mathematical value and the number
    /// of bytes consumed, or `None` if no prefix of `s` is an encoding.
    spec fn dec(s: Seq<u8>) -> Option<(Self::V, int)>;

    /// A successful decode consumes between 0 and `s.len()` bytes.
    proof fn lemma_dec_len(s: Seq<u8>)
        ensures
            Self::dec(s) matches Some(p) ==> 0 <= p.1 <= s.len(),
    ;

    /// The round-trip law: decoding an encoding (with anything appended)
    /// yields the encoded value and consumes exactly the encoding.
    proof fn lemma_round_trip(&self, rest: Seq<u8>)
        requires
            self.enc_ok(),
        ensures
            Self::dec(self.enc() + rest) == Some((self.deep_view(), self.enc().len() as int)),
    ;

    /// Append this value's encoding to `out`.
    fn write(&self, out: &mut Vec<u8>)
        ensures
            final(out)@ == old(out)@ + self.enc(),
            self.enc_ok(),
    ;

    /// Decode one value starting at `pos`, returning it with the position
    /// just past its encoding; mirrors `dec` exactly.
    fn read(v: &Vec<u8>, pos: usize) -> (r: Option<(Self, usize)>)
        requires
            pos <= v@.len(),
        ensures
            match Self::dec(v@.skip(pos as int)) {
                Some(p) => {
                    &&& r matches Some(q)
                    &&& q.0.deep_view() == p.0
                    &&& q.1 == pos + p.1
                    &&& q.1 <= v@.len()
                },
                None => r is None,
            },
    ;
}

/// Skipping a concatenation's first operand leaves its second.
pub broadcast proof fn lemma_concat_skip<A>(a: Seq<A>, b: Seq<A>)
    ensures
        #[trigger] (a + b).skip(a.len() as int) == b,
{
    assert((a + b).skip(a.len() as int) =~= b);
}

impl Blob for u64 {
    open spec fn enc_ok(&self) -> bool {
        true
    }

    open spec fn enc(&self) -> Seq<u8> {
        spec_u64_to_le_bytes(*self)
    }

    open spec fn dec(s: Seq<u8>) -> Option<(u64, int)> {
        if s.len() >= 8 {
            Some((spec_u64_from_le_bytes(s.subrange(0, 8)), 8))
        } else {
            None
        }
    }

    proof fn lemma_dec_len(s: Seq<u8>) {
    }

    proof fn lemma_round_trip(&self, rest: Seq<u8>) {
        lemma_auto_spec_u64_to_from_le_bytes();
        assert((self.enc() + rest).subrange(0, 8) =~= self.enc());
    }

    fn write(&self, out: &mut Vec<u8>) {
        let mut b = u64_to_le_bytes(*self);
        out.append(&mut b);
    }

    fn read(v: &Vec<u8>, pos: usize) -> (r: Option<(u64, usize)>) {
        if v.len() - pos >= 8 {
            let s = slice_subrange(v.as_slice(), pos, pos + 8);
            let x = u64_from_le_bytes(s);
            proof {
                assert(v@.skip(pos as int).subrange(0, 8) =~= v@.subrange(
                    pos as int,
                    pos as int + 8,
                ));
            }
            Some((x, pos + 8))
        } else {
            None
        }
    }
}

impl Blob for u8 {
    open spec fn enc_ok(&self) -> bool {
        true
    }

    open spec fn enc(&self) -> Seq<u8> {
        seq![*self]
    }

    open spec fn dec(s: Seq<u8>) -> Option<(u8, int)> {
        if s.len() >= 1 {
            Some((s[0], 1))
        } else {
            None
        }
    }

    proof fn lemma_dec_len(s: Seq<u8>) {
    }

    proof fn lemma_round_trip(&self, rest: Seq<u8>) {
        assert((self.enc() + rest)[0] == *self);
    }

    fn write(&self, out: &mut Vec<u8>) {
        out.push(*self);
        proof {
            assert(out@ =~= old(out)@ + self.enc());
        }
    }

    fn read(v: &Vec<u8>, pos: usize) -> (r: Option<(u8, usize)>) {
        if pos < v.len() {
            Some((v[pos], pos + 1))
        } else {
            None
        }
    }
}

impl Blob for bool {
    open spec fn enc_ok(&self) -> bool {
        true
    }

    open spec fn enc(&self) -> Seq<u8> {
        seq![if *self { 1u8 } else { 0u8 }]
    }

    open spec fn dec(s: Seq<u8>) -> Option<(bool, int)> {
        if s.len() >= 1 {
            if s[0] == 0 {
                Some((false, 1))
            } else if s[0] == 1 {
                Some((true, 1))
            } else {
                None
            }
        } else {
            None
        }
    }

    proof fn lemma_dec_len(s: Seq<u8>) {
    }

    proof fn lemma_round_trip(&self, rest: Seq<u8>) {
        assert((self.enc() + rest)[0] == self.enc()[0]);
    }

    fn write(&self, out: &mut Vec<u8>) {
        out.push(if *self { 1u8 } else { 0u8 });
        proof {
            assert(out@ =~= old(out)@ + self.enc());
        }
    }

    fn read(v: &Vec<u8>, pos: usize) -> (r: Option<(bool, usize)>) {
        if pos < v.len() {
            let b = v[pos];
            if b == 0 {
                Some((false, pos + 1))
            } else if b == 1 {
                Some((true, pos + 1))
            } else {
                None
            }
        } else {
            None
        }
    }
}

impl Blob for () {
    open spec fn enc_ok(&self) -> bool {
        true
    }

    open spec fn enc(&self) -> Seq<u8> {
        Seq::empty()
    }

    open spec fn dec(s: Seq<u8>) -> Option<((), int)> {
        Some(((), 0))
    }

    proof fn lemma_dec_len(s: Seq<u8>) {
    }

    proof fn lemma_round_trip(&self, rest: Seq<u8>) {
        assert(self.enc() + rest =~= rest);
        assert(self.enc().len() == 0);
    }

    fn write(&self, out: &mut Vec<u8>) {
        proof {
            assert(out@ =~= out@ + self.enc());
        }
    }

    fn read(v: &Vec<u8>, pos: usize) -> (r: Option<((), usize)>) {
        Some(((), pos))
    }
}

impl Blob for i64 {
    open spec fn enc_ok(&self) -> bool {
        true
    }

    open spec fn enc(&self) -> Seq<u8> {
        if *self >= 0 {
            seq![0u8] + spec_u64_to_le_bytes(*self as u64)
        } else {
            seq![1u8] + spec_u64_to_le_bytes((-(*self as int + 1)) as u64)
        }
    }

    open spec fn dec(s: Seq<u8>) -> Option<(i64, int)> {
        if s.len() >= 9 {
            let m = spec_u64_from_le_bytes(s.subrange(1, 9));
            if s[0] == 0 && m <= i64::MAX as u64 {
                Some((m as i64, 9))
            } else if s[0] == 1 && m <= i64::MAX as u64 {
                Some(((-(m as int) - 1) as i64, 9))
            } else {
                None
            }
        } else {
            None
        }
    }

    proof fn lemma_dec_len(s: Seq<u8>) {
    }

    proof fn lemma_round_trip(&self, rest: Seq<u8>) {
        lemma_auto_spec_u64_to_from_le_bytes();
        let s = self.enc() + rest;
        if *self >= 0 {
            assert(s.subrange(1, 9) =~= spec_u64_to_le_bytes(*self as u64));
        } else {
            assert(s.subrange(1, 9) =~= spec_u64_to_le_bytes((-(*self as int + 1)) as u64));
        }
    }

    fn write(&self, out: &mut Vec<u8>) {
        if *self >= 0 {
            out.push(0u8);
            let mut b = u64_to_le_bytes(*self as u64);
            out.append(&mut b);
        } else {
            out.push(1u8);
            let mut b = u64_to_le_bytes((-(*self + 1)) as u64);
            out.append(&mut b);
        }
        proof {
            assert(out@ =~= old(out)@ + self.enc());
        }
    }

    fn read(v: &Vec<u8>, pos: usize) -> (r: Option<(i64, usize)>) {
        if v.len() - pos >= 9 {
            let tag = v[pos];
            let s = slice_subrange(v.as_slice(), pos + 1, pos + 9);
            let m = u64_from_le_bytes(s);
            proof {
                assert(v@.skip(pos as int).subrange(1, 9) =~= v@.subrange(
                    pos as int + 1,
                    pos as int + 9,
                ));
            }
            if tag == 0 && m <= i64::MAX as u64 {
                Some((m as i64, pos + 9))
            } else if tag == 1 && m <= i64::MAX as u64 {
                Some((-(m as i64) - 1, pos + 9))
            } else {
                None
            }
        } else {
            None
        }
    }
}

/// Relies on `str::from_utf8`: it succeeds exactly on valid UTF-8 input and
/// returns the string those bytes encode.
#[verifier::external_body]
fn utf8_to_string(bytes: &[u8]) -> (r: Option<String>)
    ensures
        match r {
            Some(s) => bytes@ == encode_utf8(s@) && valid_utf8(bytes@),
            None => !valid_utf8(bytes@),
        },
{
    match core::str::from_utf8(bytes) {
        Ok(s) => Some(s.to_owned()),
        Err(_) => None,
    }
}

impl Blob for String {
    open spec fn enc_ok(&self) -> bool {
        encode_utf8(self@).len() < 0x1_0000_0000_0000_0000
    }

    open spec fn enc(&self) -> Seq<u8> {
        spec_u64_to_le_bytes(encode_utf8(self@).len() as u64) + encode_utf8(self@)
    }

    open spec fn dec(s: Seq<u8>) -> Option<(Seq<char>, int)> {
        if s.len() >= 8 {
            let n = spec_u64_from_le_bytes(s.subrange(0, 8)) as int;
            if s.len() >= 8 + n {
                let bs = s.subrange(8, 8 + n);
                if valid_utf8(bs) {
                    Some((decode_utf8(bs), 8 + n))
                } else {
                    None
                }
            } else {
                None
            }
        } else {
            None
        }
    }

    proof fn lemma_dec_len(s: Seq<u8>) {
    }

    proof fn lemma_round_trip(&self, rest: Seq<u8>) {
        lemma_auto_spec_u64_to_from_le_bytes();
        let bs = encode_utf8(self@);
        let s = self.enc() + rest;
        assert(s.subrange(0, 8) =~= spec_u64_to_le_bytes(bs.len() as u64));
        assert(s.subrange(8, 8 + bs.len() as int) =~= bs);
        encode_utf8_valid_utf8(self@);
        encode_utf8_decode_utf8(self@);
    }

    fn write(&self, out: &mut Vec<u8>) {
        let bytes = self.as_str().as_bytes_vec();
        let n: u64 = bytes.len() as u64;
        n.write(out);
        let mut b = bytes;
        out.append(&mut b);
        proof {
            assert(out@ =~= old(out)@ + self.enc());
        }
    }

    fn read(v: &Vec<u8>, pos: usize) -> (r: Option<(String, usize)>) {
        match u64::read(v, pos) {
            None => None,
            Some((n, p)) => {
                if n <= (v.len() - p) as u64 {
                    let n_us: usize = n as usize;
                    let bytes = slice_subrange(v.as_slice(), p, p + n_us);
                    proof {
                        assert(v@.skip(pos as int).subrange(8, 8 + n as int) =~= v@.subrange(
                            p as int,
                            p as int + n as int,
                        ));
                    }
                    match utf8_to_string(bytes) {
                        None => None,
                        Some(s) => {
                            proof {
                                encode_utf8_decode_utf8(s@);
                            }
                            Some((s, p + n_us))
                        },
                    }
                } else {
                    None
                }
            },
        }
    }
}

impl<T: Blob> Blob for Option<T> {
    open spec fn enc_ok(&self) -> bool {
        match self {
            None => true,
            Some(x) => x.enc_ok(),
        }
    }

    open spec fn enc(&self) -> Seq<u8> {
        match self {
            None => seq![0u8],
            Some(x) => seq![1u8] + x.enc(),
        }
    }

    open spec fn dec(s: Seq<u8>) -> Option<(Option<T::V>, int)> {
        if s.len() >= 1 {
            if s[0] == 0 {
                Some((None, 1))
            } else if s[0] == 1 {
                match T::dec(s.skip(1)) {
                    None => None,
                    Some((x, n)) => Some((Some(x), 1 + n)),
                }
            } else {
                None
            }
        } else {
            None
        }
    }

    proof fn lemma_dec_len(s: Seq<u8>) {
        if s.len() >= 1 && s[0] == 1 {
            T::lemma_dec_len(s.skip(1));
        }
    }

    proof fn lemma_round_trip(&self, rest: Seq<u8>) {
        match self {
            None => {
                assert((self.enc() + rest)[0] == 0u8);
            },
            Some(x) => {
                let s = self.enc() + rest;
                assert(s =~= seq![1u8] + (x.enc() + rest));
                lemma_concat_skip(seq![1u8], x.enc() + rest);
                x.lemma_round_trip(rest);
            },
        }
    }

    fn write(&self, out: &mut Vec<u8>) {
        match self {
            None => {
                out.push(0u8);
                proof {
                    assert(out@ =~= old(out)@ + self.enc());
                }
            },
            Some(x) => {
                out.push(1u8);
                x.write(out);
                proof {
                    assert(out@ =~= old(out)@ + self.enc());
                }
            },
        }
    }

    fn read(v: &Vec<u8>, pos: usize) -> (r: Option<(Option<T>, usize)>) {
        if pos < v.len() {
            let tag = v[pos];
            if tag == 0 {
                Some((None, pos + 1))
            } else if tag == 1 {
                proof {
                    lemma_seq_skip_of_skip(v@, pos as int, 1);
                }
                match T::read(v, pos + 1) {
                    None => None,
                    Some((x, p)) => Some((Some(x), p)),
                }
            } else {
                None
            }
        } else {
            None
        }
    }
}

/// The concatenated encodings of a sequence of values.
pub open spec fn seq_enc<T: Blob>(s: Seq<T>) -> Seq<u8>
    decreases s.len(),
{
    if s.len() == 0 {
        Seq::empty()
    } else {
        s[0].enc() + seq_enc(s.drop_first())
    }
}

/// Decode exactly `k` values from the front of `s`.
pub open spec fn seq_dec<T: Blob>(s: Seq<u8>, k: nat) -> Option<(Seq<T::V>, int)>
    decreases k,
{
    if k == 0 {
        Some((Seq::empty(), 0))
    } else {
        match T::dec(s) {
            None => None,
            Some((x, n)) => match seq_dec::<T>(s.skip(n), (k - 1) as nat) {
                None => None,
                Some((tail, m)) => Some((seq![x] + tail, n + m)),
            },
        }
    }
}

/// The deep views of a sequence's members.
pub open spec fn deep_seq<T: DeepView>(s: Seq<T>) -> Seq<T::V> {
    Seq::new(s.len(), |i: int| s[i].deep_view())
}

pub proof fn lemma_seq_dec_len<T: Blob>(s: Seq<u8>, k: nat)
    ensures
        seq_dec::<T>(s, k) matches Some(p) ==> 0 <= p.1 <= s.len(),
    decreases k,
{
    if k > 0 {
        T::lemma_dec_len(s);
        match T::dec(s) {
            None => {},
            Some((x, n)) => {
                lemma_seq_dec_len::<T>(s.skip(n), (k - 1) as nat);
            },
        }
    }
}

pub proof fn lemma_seq_round_trip<T: Blob>(s: Seq<T>, rest: Seq<u8>)
    requires
        forall|i: int| 0 <= i < s.len() ==> #[trigger] s[i].enc_ok(),
    ensures
        seq_dec::<T>(seq_enc(s) + rest, s.len()) == Some((deep_seq(s), seq_enc(s).len() as int)),
    decreases s.len(),
{
    if s.len() == 0 {
        assert(seq_enc(s) + rest =~= rest);
        assert(deep_seq(s) =~= Seq::<T::V>::empty());
    } else {
        let tail = s.drop_first();
        let t = seq_enc(tail) + rest;
        assert(seq_enc(s) + rest =~= s[0].enc() + t);
        s[0].lemma_round_trip(t);
        lemma_concat_skip(s[0].enc(), t);
        assert(forall|i: int| 0 <= i < tail.len() ==> #[trigger] tail[i].enc_ok());
        lemma_seq_round_trip::<T>(tail, rest);
        assert(seq![s[0].deep_view()] + deep_seq(tail) =~= deep_seq(s));
    }
}

/// `seq_enc` distributes over appending one element.
pub proof fn lemma_seq_enc_push<T: Blob>(s: Seq<T>, x: T)
    ensures
        seq_enc(s.push(x)) == seq_enc(s) + x.enc(),
    decreases s.len(),
{
    if s.len() == 0 {
        assert(s.push(x).drop_first() =~= Seq::<T>::empty());
        assert(s.push(x)[0] == x);
        assert(seq_enc(s.push(x)) == x.enc() + seq_enc(Seq::<T>::empty()));
        assert(x.enc() + Seq::<u8>::empty() =~= x.enc());
        assert(Seq::<u8>::empty() + x.enc() =~= x.enc());
        assert(seq_enc(s.push(x)) =~= seq_enc(s) + x.enc());
    } else {
        assert(s.push(x).drop_first() =~= s.drop_first().push(x));
        lemma_seq_enc_push(s.drop_first(), x);
        assert(seq_enc(s.push(x)) =~= seq_enc(s) + x.enc());
    }
}

impl<T: Blob> Blob for Vec<T> {
    open spec fn enc_ok(&self) -> bool {
        &&& self@.len() < 0x1_0000_0000_0000_0000
        &&& forall|i: int| 0 <= i < self@.len() ==> #[trigger] self@[i].enc_ok()
    }

    open spec fn enc(&self) -> Seq<u8> {
        spec_u64_to_le_bytes(self@.len() as u64) + seq_enc(self@)
    }

    open spec fn dec(s: Seq<u8>) -> Option<(Seq<T::V>, int)> {
        if s.len() >= 8 {
            let n = spec_u64_from_le_bytes(s.subrange(0, 8));
            match seq_dec::<T>(s.skip(8), n as nat) {
                None => None,
                Some((items, m)) => Some((items, 8 + m)),
            }
        } else {
            None
        }
    }

    proof fn lemma_dec_len(s: Seq<u8>) {
        if s.len() >= 8 {
            let n = spec_u64_from_le_bytes(s.subrange(0, 8));
            lemma_seq_dec_len::<T>(s.skip(8), n as nat);
        }
    }

    proof fn lemma_round_trip(&self, rest: Seq<u8>) {
        lemma_auto_spec_u64_to_from_le_bytes();
        let pre = spec_u64_to_le_bytes(self@.len() as u64);
        let s = self.enc() + rest;
        assert(s =~= pre + (seq_enc(self@) + rest));
        assert(s.subrange(0, 8) =~= pre);
        lemma_concat_skip(pre, seq_enc(self@) + rest);
        lemma_seq_round_trip::<T>(self@, rest);
        assert(self.deep_view() =~= deep_seq(self@));
    }

    fn write(&self, out: &mut Vec<u8>) {
        let n: u64 = self.len() as u64;
        n.write(out);
        let ghost base = out@;
        let mut i: usize = 0;
        while i < self.len()
            invariant
                i <= self@.len(),
                out@ == base + seq_enc(self@.take(i as int)),
                forall|j: int| 0 <= j < i ==> #[trigger] self@[j].enc_ok(),
            decreases self@.len() - i,
        {
            let x = &self[i];
            x.write(out);
            proof {
                assert(self@.take(i + 1 as int) =~= self@.take(i as int).push(self@[i as int]));
                lemma_seq_enc_push(self@.take(i as int), self@[i as int]);
            }
            i = i + 1;
        }
        proof {
            assert(self@.take(self@.len() as int) =~= self@);
            assert(out@ =~= old(out)@ + self.enc());
        }
    }

    fn read(v: &Vec<u8>, pos: usize) -> (r: Option<(Vec<T>, usize)>) {
        match u64::read(v, pos) {
            None => None,
            Some((n, p0)) => {
                let ghost s0 = v@.skip(p0 as int);
                let mut acc: Vec<T> = Vec::new();
                let mut i: u64 = 0;
                let mut p: usize = p0;
                proof {
                    assert(acc.deep_view() =~= Seq::<T::V>::empty());
                    match seq_dec::<T>(s0, n as nat) {
                        Some(q) => {
                            assert(acc.deep_view() + q.0 =~= q.0);
                        },
                        None => {},
                    }
                }
                while i < n
                    invariant
                        i <= n,
                        p0 <= p <= v@.len(),
                        acc.deep_view().len() == i,
                        seq_dec::<T>(s0, n as nat) == (match seq_dec::<T>(
                            v@.skip(p as int),
                            (n - i) as nat,
                        ) {
                            None => None::<(Seq<T::V>, int)>,
                            Some(q) => Some((acc.deep_view() + q.0, p - p0 + q.1)),
                        }),
                    decreases n - i,
                {
                    let ghost acc_old = acc.deep_view();
                    proof {
                        T::lemma_dec_len(v@.skip(p as int));
                    }
                    match T::read(v, p) {
                        None => {
                            return None;
                        },
                        Some((x, p2)) => {
                            proof {
                                lemma_seq_skip_of_skip(v@, p as int, (p2 - p) as int);
                            }
                            acc.push(x);
                            proof {
                                assert(acc.deep_view() =~= acc_old.push(x.deep_view()));
                                match seq_dec::<T>(v@.skip(p2 as int), (n - i - 1) as nat) {
                                    Some(q2) => {
                                        assert(acc_old + (seq![x.deep_view()] + q2.0)
                                            =~= acc.deep_view() + q2.0);
                                    },
                                    None => {},
                                }
                            }
                            p = p2;
                            i = i + 1;
                        },
                    }
                }
                proof {
                    assert(acc.deep_view() + Seq::<T::V>::empty() =~= acc.deep_view());
                }
                Some((acc, p))
            },
        }
    }
}

impl<T: Blob> Blob for pair<T> {
    open spec fn enc_ok(&self) -> bool {
        self.first.enc_ok() && self.second.enc_ok()
    }

    open spec fn enc(&self) -> Seq<u8> {
        self.first.enc() + self.second.enc()
    }

    open spec fn dec(s: Seq<u8>) -> Option<(pairV<T::V>, int)> {
        match T::dec(s) {
            None => None,
            Some((a, n1)) => match T::dec(s.skip(n1)) {
                None => None,
                Some((b, n2)) => Some((pairV { first: a, second: b }, n1 + n2)),
            },
        }
    }

    proof fn lemma_dec_len(s: Seq<u8>) {
        T::lemma_dec_len(s);
        match T::dec(s) {
            None => {},
            Some((a, n1)) => {
                T::lemma_dec_len(s.skip(n1));
            },
        }
    }

    proof fn lemma_round_trip(&self, rest: Seq<u8>) {
        let r1 = self.second.enc() + rest;
        assert(self.enc() + rest =~= self.first.enc() + r1);
        self.first.lemma_round_trip(r1);
        lemma_concat_skip(self.first.enc(), r1);
        self.second.lemma_round_trip(rest);
    }

    fn write(&self, out: &mut Vec<u8>) {
        self.first.write(out);
        self.second.write(out);
        proof {
            assert(out@ =~= old(out)@ + self.enc());
        }
    }

    fn read(v: &Vec<u8>, pos: usize) -> (r: Option<(pair<T>, usize)>) {
        proof {
            T::lemma_dec_len(v@.skip(pos as int));
        }
        match T::read(v, pos) {
            None => None,
            Some((a, p1)) => {
                proof {
                    lemma_seq_skip_of_skip(v@, pos as int, (p1 - pos) as int);
                    T::lemma_dec_len(v@.skip(p1 as int));
                }
                match T::read(v, p1) {
                    None => None,
                    Some((b, p2)) => Some((pair { first: a, second: b }, p2)),
                }
            },
        }
    }
}

impl<T: Blob> Blob for trio<T> {
    open spec fn enc_ok(&self) -> bool {
        self.first.enc_ok() && self.second.enc_ok() && self.third.enc_ok()
    }

    open spec fn enc(&self) -> Seq<u8> {
        self.first.enc() + self.second.enc() + self.third.enc()
    }

    open spec fn dec(s: Seq<u8>) -> Option<(trioV<T::V>, int)> {
        match T::dec(s) {
            None => None,
            Some((a, n1)) => match T::dec(s.skip(n1)) {
                None => None,
                Some((b, n2)) => match T::dec(s.skip(n1).skip(n2)) {
                    None => None,
                    Some((c, n3)) => Some(
                        (trioV { first: a, second: b, third: c }, n1 + n2 + n3),
                    ),
                },
            },
        }
    }

    proof fn lemma_dec_len(s: Seq<u8>) {
        T::lemma_dec_len(s);
        match T::dec(s) {
            None => {},
            Some((a, n1)) => {
                T::lemma_dec_len(s.skip(n1));
                match T::dec(s.skip(n1)) {
                    None => {},
                    Some((b, n2)) => {
                        T::lemma_dec_len(s.skip(n1).skip(n2));
                    },
                }
            },
        }
    }

    proof fn lemma_round_trip(&self, rest: Seq<u8>) {
        let r2 = self.third.enc() + rest;
        let r1 = self.second.enc() + r2;
        assert(self.enc() + rest =~= self.first.enc() + r1);
        self.first.lemma_round_trip(r1);
        lemma_concat_skip(self.first.enc(), r1);
        self.second.lemma_round_trip(r2);
        lemma_concat_skip(self.second.enc(), r2);
        self.third.lemma_round_trip(rest);
    }

    fn write(&self, out: &mut Vec<u8>) {
        self.first.write(out);
        self.second.write(out);
        self.third.write(out);
        proof {
            assert(out@ =~= old(out)@ + self.enc());
        }
    }

    fn read(v: &Vec<u8>, pos: usize) -> (r: Option<(trio<T>, usize)>) {
        proof {
            T::lemma_dec_len(v@.skip(pos as int));
        }
        match T::read(v, pos) {
            None => None,
            Some((a, p1)) => {
                proof {
                    lemma_seq_skip_of_skip(v@, pos as int, (p1 - pos) as int);
                    T::lemma_dec_len(v@.skip(p1 as int));
                }
                match T::read(v, p1) {
                    None => None,
                    Some((b, p2)) => {
                        proof {
                            lemma_seq_skip_of_skip(v@, p1 as int, (p2 - p1) as int);
                            assert(v@.skip(pos as int).skip((p1 - pos) as int).skip((p2
                                - p1) as int) == v@.skip(p2 as int));
                            T::lemma_dec_len(v@.skip(p2 as int));
                        }
                        match T::read(v, p2) {
                            None => None,
                            Some((c, p3)) => Some(
                                (trio { first: a, second: b, third: c }, p3),
                            ),
                        }
                    },
                }
            },
        }
    }
}

impl<T: Blob> Blob for nodes<T> {
    open spec fn enc_ok(&self) -> bool {
        self.nodes.enc_ok()
    }

    open spec fn enc(&self) -> Seq<u8> {
        self.nodes.enc()
    }

    open spec fn dec(s: Seq<u8>) -> Option<(nodesV<T::V>, int)> {
        match <Vec<T> as Blob>::dec(s) {
            None => None,
            Some((items, n)) => Some((nodesV { nodes: items }, n)),
        }
    }

    proof fn lemma_dec_len(s: Seq<u8>) {
        <Vec<T> as Blob>::lemma_dec_len(s);
    }

    proof fn lemma_round_trip(&self, rest: Seq<u8>) {
        self.nodes.lemma_round_trip(rest);
    }

    fn write(&self, out: &mut Vec<u8>) {
        self.nodes.write(out);
    }

    fn read(v: &Vec<u8>, pos: usize) -> (r: Option<(nodes<T>, usize)>) {
        match <Vec<T> as Blob>::read(v, pos) {
            None => None,
            Some((items, p)) => Some((nodes { nodes: items }, p)),
        }
    }
}

} // verus!
