//! Incremental decoder for the VarNum wire encoding: a variable-length
//! base-128 integer, seven payload bits per byte, high bit set meaning
//! "more bytes follow".
//!
//! The decoder is an explicit resumable state value, so the same machine
//! can be driven from an in-memory cursor or fed one byte at a time by a
//! source that suspends between bytes.

use vstd::prelude::*;
use crate::de::{ByteReader, Deserialize, Error};

verus! {

/// 128 to the power `n`: the place value of the `n`-th payload group.
pub open spec fn pow128(n: nat) -> nat
    decreases n,
{
    if n == 0 {
        1
    } else {
        128 * pow128((n - 1) as nat)
    }
}

proof fn lemma_pow128_values()
    ensures
        pow128(0) == 1,
        pow128(1) == 128,
        pow128(2) == 16384,
        pow128(3) == 2097152,
        pow128(4) == 268435456,
        pow128(5) == 34359738368,
{
    assert(pow128(0) == 1);
    assert(pow128(1) == 128);
    assert(pow128(2) == 16384);
    assert(pow128(3) == 2097152);
    assert(pow128(4) == 268435456);
    assert(pow128(5) == 34359738368);
}

/// The accumulated value and the count of bytes consumed so far by a
/// partially-read VarNum.
#[derive(Debug, Clone, Copy, PartialEq, Eq, Structural)]
pub struct ReaderState {
    pub val: u32,
    pub length: usize,
}

/// A resumable VarNum read: still in progress, or finished with either a
/// decoded state or a malformed-encoding marker.
#[derive(Debug, Clone, Copy, PartialEq, Eq)]
pub enum VarNumReader {
    NotDone(ReaderState),
    Done(Result<ReaderState, ()>),
}

impl ReaderState {
    /// Consuming byte `n` shifts its seven payload bits up by `7 * n`, so
    /// the value accumulated from `length` bytes stays under `128^length`.
    pub open spec fn wf(self) -> bool {
        &&& self.length <= 5
        &&& (self.val as nat) < pow128(self.length as nat)
    }
}

/// One step of the VarNum machine: what feeding `byte` to the state does.
/// Decoding fails if a payload group would overflow 32 bits, and finishes
/// on the first byte whose high bit is clear.
pub open spec fn spec_step(s: ReaderState, byte: u8) -> VarNumReader {
    let b = (byte % 128) as u32;
    if s.length >= 5 || (s.length == 4 && b >= 16) {
        VarNumReader::Done(Err(()))
    } else {
        let next = ReaderState {
            val: (s.val + b * pow128(s.length as nat)) as u32,
            length: (s.length + 1) as usize,
        };
        if byte < 128 {
            VarNumReader::Done(Ok(next))
        } else {
            VarNumReader::NotDone(next)
        }
    }
}

/// Feeding a whole byte sequence to the machine, one byte at a time,
/// stopping at the first byte that finishes (or faults) the read.
pub open spec fn spec_feed(r: VarNumReader, bytes: Seq<u8>) -> VarNumReader
    decreases bytes.len(),
{
    if bytes.len() == 0 {
        r
    } else {
        match r {
            VarNumReader::NotDone(s) => spec_feed(spec_step(s, bytes[0]), bytes.drop_first()),
            VarNumReader::Done(_) => r,
        }
    }
}

/// How many bytes the machine value has already absorbed.
pub open spec fn state_len(r: VarNumReader) -> int {
    match r {
        VarNumReader::NotDone(s) => s.length as int,
        VarNumReader::Done(res) => match res {
            Ok(s) => s.length as int,
            Err(_) => 0,
        },
    }
}

/// What decoding a fresh 32-bit VarNum from the front of `bytes` yields:
/// the value and the count of bytes it occupied, or the exact error.
pub open spec fn spec_varint_decode(bytes: Seq<u8>) -> Result<(u32, int), Error> {
    match spec_feed(VarNumReader::init(), bytes) {
        VarNumReader::NotDone(_) => Err(Error::Eof),
        VarNumReader::Done(res) => match res {
            Ok(s) => Ok((s.val, s.length as int)),
            Err(_) => Err(Error::BadVarNum),
        },
    }
}

impl ReaderState {
    pub fn new() -> (r: Self)
        ensures
            r == (ReaderState { val: 0u32, length: 0usize }),
            r.wf(),
    {
        Self { val: 0, length: 0 }
    }

    /// Absorb one byte, moving to the next machine state.
    pub fn read_byte(self, byte: u8) -> (r: VarNumReader)
        requires
            self.wf(),
        ensures
            r == spec_step(self, byte),
            r.wf(),
    {
        proof {
            lemma_pow128_values();
        }
        let done = byte < 128;
        let b: u32 = (byte % 128) as u32;
        if self.length >= 5 || (self.length == 4 && b >= 16) {
            return VarNumReader::Done(Err(()));
        }
        let val: u32;
        if self.length == 0 {
            val = self.val + b;
            assert(val == (self.val + b * pow128(self.length as nat)) as u32);
        } else if self.length == 1 {
            val = self.val + b * 128;
            assert(val == (self.val + b * pow128(self.length as nat)) as u32);
        } else if self.length == 2 {
            val = self.val + b * 16384;
            assert(val == (self.val + b * pow128(self.length as nat)) as u32);
        } else if self.length == 3 {
            val = self.val + b * 2097152;
            assert(val == (self.val + b * pow128(self.length as nat)) as u32);
        } else {
            val = self.val + b * 268435456;
            assert(val == (self.val + b * pow128(self.length as nat)) as u32);
        }
        let next = ReaderState { val, length: self.length + 1 };
        if done {
            VarNumReader::Done(Ok(next))
        } else {
            VarNumReader::NotDone(next)
        }
    }
}

impl VarNumReader {
    /// The machine before any byte has been read.
    pub open spec fn init() -> Self {
        VarNumReader::NotDone(ReaderState { val: 0u32, length: 0usize })
    }

    /// Every state the machine holds satisfies the accumulator bound.
    pub open spec fn wf(self) -> bool {
        match self {
            VarNumReader::NotDone(s) => s.wf(),
            VarNumReader::Done(res) => match res {
                Ok(s) => s.wf(),
                Err(_) => true,
            },
        }
    }

    pub fn new() -> (r: Self)
        ensures
            r == Self::init(),
            r.wf(),
    {
        Self::NotDone(ReaderState::new())
    }

    /// Absorb one byte into a machine that is still in progress.
    pub fn try_read_byte(self, byte: u8) -> (r: Self)
        requires
            self.wf(),
            self is NotDone,
        ensures
            r == spec_step(self->NotDone_0, byte),
            r.wf(),
    {
        match self {
            Self::NotDone(state) => state.read_byte(byte),
            Self::Done(res) => Self::Done(res),
        }
    }

    /// Drive the machine over the cursor until it finishes, returning the
    /// final state (value and byte count) or the error.
    pub fn read_from_get_state(self, input: &mut ByteReader) -> (r: Result<ReaderState, Error>)
        requires
            self.wf(),
        ensures
            final(input)@.len() <= old(input)@.len(),
            match spec_feed(self, old(input)@) {
                VarNumReader::NotDone(_) => {
                    &&& r == Err::<ReaderState, Error>(Error::Eof)
                    &&& final(input)@.len() == 0
                },
                VarNumReader::Done(res) => match res {
                    Ok(s) => {
                        &&& r == Ok::<ReaderState, Error>(s)
                        &&& state_len(self) <= s.length <= state_len(self) + old(input)@.len()
                        &&& final(input)@ == old(input)@.skip(s.length - state_len(self))
                    },
                    Err(_) => r == Err::<ReaderState, Error>(Error::BadVarNum),
                },
            },
    {
        let ghost orig = input@;
        proof {
            assert(orig.skip(0) =~= orig);
        }
        let mut reader = self;
        loop
            invariant
                orig == old(input)@,
                reader.wf(),
                input@.len() <= orig.len(),
                spec_feed(self, orig) == spec_feed(reader, input@),
                reader matches VarNumReader::NotDone(s) ==> state_len(self) <= s.length
                    <= state_len(self) + orig.len() - input@.len() && input@ == orig.skip(
                    s.length - state_len(self)),
                reader matches VarNumReader::Done(Ok(s)) ==> state_len(self) <= s.length
                    <= state_len(self) + orig.len() - input@.len() && input@ == orig.skip(
                    s.length - state_len(self)),
            decreases input@.len(),
        {
            match reader {
                VarNumReader::Done(res) => {
                    return match res {
                        Ok(state) => Ok(state),
                        Err(_) => Err(Error::BadVarNum),
                    };
                },
                VarNumReader::NotDone(state) => {
                    match input.read_byte() {
                        Ok(byte) => {
                            proof {
                                assert(input@ =~= orig.skip(
                                    state.length + 1 - state_len(self),
                                ));
                            }
                            reader = state.read_byte(byte);
                        },
                        Err(_) => {
                            return Err(Error::Eof);
                        },
                    }
                },
            }
        }
    }

    /// Drive the machine over the cursor and return the decoded value.
    pub fn read_from(self, input: &mut ByteReader) -> (r: Result<u32, Error>)
        requires
            self.wf(),
        ensures
            final(input)@.len() <= old(input)@.len(),
            match spec_feed(self, old(input)@) {
                VarNumReader::NotDone(_) => {
                    &&& r == Err::<u32, Error>(Error::Eof)
                    &&& final(input)@.len() == 0
                },
                VarNumReader::Done(res) => match res {
                    Ok(s) => {
                        &&& r == Ok::<u32, Error>(s.val)
                        &&& state_len(self) <= s.length <= state_len(self) + old(input)@.len()
                        &&& final(input)@ == old(input)@.skip(s.length - state_len(self))
                    },
                    Err(_) => r == Err::<u32, Error>(Error::BadVarNum),
                },
            },
    {
        match self.read_from_get_state(input) {
            Ok(state) => Ok(state.val),
            Err(e) => Err(e),
        }
    }
}

/// The VarNum encoding of a value: seven payload bits per byte, low
/// group first, high bit set on every byte but the last.
pub open spec fn spec_varint_encode(n: u32) -> Seq<u8>
    decreases n,
{
    if n < 128 {
        seq![n as u8]
    } else {
        seq![(n % 128 + 128) as u8] + spec_varint_encode(n / 128)
    }
}

proof fn lemma_encode_len_bound(n: u32, j: nat)
    requires
        j >= 1,
        n < pow128(j),
    ensures
        spec_varint_encode(n).len() <= j,
    decreases n,
{
    if n < 128 {
    } else {
        assert(pow128(j) == 128 * pow128((j - 1) as nat));
        assert(n / 128 < pow128((j - 1) as nat)) by (nonlinear_arith)
            requires
                n < 128 * pow128((j - 1) as nat),
        ;
        lemma_encode_len_bound(n / 128, (j - 1) as nat);
    }
}

/// Every 32-bit value encodes to between one and five bytes.
pub proof fn lemma_varint_encode_len(n: u32)
    ensures
        1 <= spec_varint_encode(n).len() <= 5,
{
    lemma_pow128_values();
    lemma_encode_len_bound(n, 5);
}

/// Feeding an encoded value (then anything) to a machine mid-read
/// finishes the read with the value stacked on the accumulator, provided
/// the total still fits in 32 bits.
proof fn lemma_feed_encode(s: ReaderState, n: u32, rest: Seq<u8>)
    requires
        s.wf(),
        s.length <= 4,
        s.val + n * pow128(s.length as nat) < 0x1_0000_0000,
    ensures
        spec_feed(VarNumReader::NotDone(s), spec_varint_encode(n) + rest) == VarNumReader::Done(
            Ok(
                ReaderState {
                    val: (s.val + n * pow128(s.length as nat)) as u32,
                    length: (s.length + spec_varint_encode(n).len()) as usize,
                },
            ),
        ),
    decreases n,
{
    lemma_pow128_values();
    let enc = spec_varint_encode(n);
    let k = s.length as nat;
    if n < 128 {
        assert(enc == seq![n as u8]);
        assert((enc + rest)[0] == n as u8);
        assert((enc + rest).drop_first() =~= rest);
        let byte = n as u8;
        assert(byte % 128 == n && byte < 128);
        if s.length == 4 {
            assert(n * pow128(4) < 0x1_0000_0000);
            assert(n < 16);
        }
        let stepped = spec_step(s, byte);
        assert(stepped == VarNumReader::Done(
            Ok(
                ReaderState {
                    val: (s.val + n * pow128(k)) as u32,
                    length: (s.length + 1) as usize,
                },
            ),
        ));
        assert(spec_feed(VarNumReader::NotDone(s), enc + rest) == spec_feed(stepped, rest));
        assert(spec_feed(stepped, rest) == stepped);
    } else {
        assert(enc == seq![(n % 128 + 128) as u8] + spec_varint_encode(n / 128));
        let byte = (n % 128 + 128) as u8;
        assert((enc + rest)[0] == byte);
        assert((enc + rest).drop_first() =~= spec_varint_encode(n / 128) + rest);
        assert(byte >= 128 && byte % 128 == n % 128);
        if s.length == 4 {
            assert(n * pow128(4) >= 128 * pow128(4)) by (nonlinear_arith)
                requires
                    n >= 128,
            ;
            assert(false);
        }
        let b = (n % 128) as u32;
        let s2 = ReaderState { val: (s.val + b * pow128(k)) as u32, length: (s.length + 1) as usize };
        assert(s.val + b * pow128(k) < 0x1_0000_0000) by (nonlinear_arith)
            requires
                b <= n,
                pow128(k) >= 1,
                s.val + n * pow128(k) < 0x1_0000_0000,
        ;
        assert(spec_step(s, byte) == VarNumReader::NotDone(s2));
        assert(s2.val < pow128((s.length + 1) as nat)) by (nonlinear_arith)
            requires
                s.val < pow128(k),
                b < 128,
                s2.val == s.val + b * pow128(k),
                pow128((s.length + 1) as nat) == 128 * pow128(k),
        ;
        assert(s2.val + (n / 128) * pow128((s.length + 1) as nat) == s.val + n * pow128(k))
            by (nonlinear_arith)
            requires
                s2.val == s.val + (n % 128) * pow128(k),
                n % 128 + 128 * (n / 128) == n,
                pow128((s.length + 1) as nat) == 128 * pow128(k),
        ;
        assert(spec_feed(VarNumReader::NotDone(s), enc + rest) == spec_feed(
            VarNumReader::NotDone(s2),
            spec_varint_encode(n / 128) + rest,
        ));
        lemma_feed_encode(s2, n / 128, rest);
        assert(spec_varint_encode(n).len() == 1 + spec_varint_encode(n / 128).len());
    }
}

/// Round trip: decoding an encoded value, whatever follows it on the
/// wire, yields exactly that value and consumes exactly its encoding.
pub proof fn lemma_varint_round_trip(n: u32, rest: Seq<u8>)
    ensures
        spec_varint_decode(spec_varint_encode(n) + rest) == Ok::<(u32, int), Error>(
            (n, spec_varint_encode(n).len() as int),
        ),
{
    lemma_pow128_values();
    lemma_varint_encode_len(n);
    let s0 = ReaderState { val: 0u32, length: 0usize };
    lemma_feed_encode(s0, n, rest);
    assert(spec_feed(VarNumReader::init(), spec_varint_encode(n) + rest) == VarNumReader::Done(
        Ok(
            ReaderState {
                val: (0 + n * pow128(0)) as u32,
                length: (0 + spec_varint_encode(n).len()) as usize,
            },
        ),
    ));
    assert((0 + n * pow128(0)) as u32 == n);
}

/// A byte sequence whose high bit stays set for more than five bytes can
/// encode no 32-bit value: decoding fails with the malformed-VarNum
/// error, never with anything else.
pub proof fn lemma_varint_malformed(bytes: Seq<u8>)
    requires
        bytes.len() >= 6,
        forall|i: int| 0 <= i < 6 ==> bytes[i] >= 128,
    ensures
        spec_varint_decode(bytes) == Err::<(u32, int), Error>(Error::BadVarNum),
{
    lemma_pow128_values();
    let t1 = bytes.drop_first();
    let t2 = t1.drop_first();
    let t3 = t2.drop_first();
    let t4 = t3.drop_first();
    let t5 = t4.drop_first();
    assert(t1[0] == bytes[1] && t2[0] == bytes[2] && t3[0] == bytes[3] && t4[0] == bytes[4]
        && t5[0] == bytes[5]);
    let s0 = ReaderState { val: 0u32, length: 0usize };
    let r1 = spec_step(s0, bytes[0]);
    assert(r1 matches VarNumReader::NotDone(s) && s.length == 1);
    let s1 = r1->NotDone_0;
    let r2 = spec_step(s1, bytes[1]);
    assert(r2 matches VarNumReader::NotDone(s) && s.length == 2);
    let s2 = r2->NotDone_0;
    let r3 = spec_step(s2, bytes[2]);
    assert(r3 matches VarNumReader::NotDone(s) && s.length == 3);
    let s3 = r3->NotDone_0;
    let r4 = spec_step(s3, bytes[3]);
    assert(r4 matches VarNumReader::NotDone(s) && s.length == 4);
    let s4 = r4->NotDone_0;
    let r5 = spec_step(s4, bytes[4]);
    assert(spec_feed(VarNumReader::init(), bytes) == spec_feed(r1, t1));
    assert(spec_feed(r1, t1) == spec_feed(r2, t2));
    assert(spec_feed(r2, t2) == spec_feed(r3, t3));
    assert(spec_feed(r3, t3) == spec_feed(r4, t4));
    assert(spec_feed(r4, t4) == spec_feed(r5, t5));
    match r5 {
        VarNumReader::Done(res) => {
            assert(res is Err);
            assert(spec_feed(r5, t5) == r5);
        },
        VarNumReader::NotDone(s5) => {
            assert(s5.length == 5);
            let r6 = spec_step(s5, bytes[5]);
            assert(r6 == VarNumReader::Done(Err::<ReaderState, ()>(())));
            assert(spec_feed(r5, t5) == spec_feed(r6, t5.drop_first()));
            assert(spec_feed(r6, t5.drop_first()) == r6);
        },
    }
}

/// Resumability: feeding the machine a byte sequence in two instalments,
/// with an arbitrary suspension between them, leaves it exactly where
/// feeding the whole sequence at once does.
pub proof fn lemma_feed_split(r: VarNumReader, b1: Seq<u8>, b2: Seq<u8>)
    ensures
        spec_feed(r, b1 + b2) == spec_feed(spec_feed(r, b1), b2),
    decreases b1.len(),
{
    if b1.len() == 0 {
        assert(b1 + b2 =~= b2);
    } else {
        match r {
            VarNumReader::Done(_) => {
                assert(spec_feed(r, b1 + b2) == r);
                assert(spec_feed(r, b1) == r);
            },
            VarNumReader::NotDone(s) => {
                assert((b1 + b2)[0] == b1[0]);
                assert((b1 + b2).drop_first() =~= b1.drop_first() + b2);
                lemma_feed_split(spec_step(s, b1[0]), b1.drop_first(), b2);
            },
        }
    }
}

/// Feeding the whole sequence to a fresh machine is the same as stepping
/// on its first byte and feeding the rest: how a decoder that has already
/// pulled one byte off the cursor rejoins the one-shot specification.
pub proof fn lemma_feed_first_byte(bytes: Seq<u8>, stepped: VarNumReader)
    requires
        bytes.len() > 0,
        stepped == spec_step(ReaderState { val: 0u32, length: 0usize }, bytes[0]),
    ensures
        spec_feed(VarNumReader::init(), bytes) == spec_feed(stepped, bytes.drop_first()),
{
}

impl Deserialize for VarNumReader {
    type Value = u32;

    open spec fn spec_deserialize(bytes: Seq<u8>) -> Result<(u32, int), Error> {
        spec_varint_decode(bytes)
    }

    #[verifier::rlimit(50)]
    fn deserialize(input: &mut ByteReader) -> (r: Result<u32, Error>) {
        let ghost pre = input@;
        let reader = VarNumReader::new();
        let r = reader.read_from(input);
        proof {
            assert(<VarNumReader as Deserialize>::spec_deserialize(pre) == spec_varint_decode(
                pre,
            ));
            match spec_feed(VarNumReader::init(), pre) {
                VarNumReader::Done(Ok(s)) => {
                    assert(pre.skip(s.length - 0) =~= pre.skip(s.length as int));
                },
                _ => {},
            }
        }
        r
    }
}

} // verus!
