//! Byte cursor and the deserialization contract.
//!
//! A `ByteReader` is a bounds-checked, forward-only view over an in-memory
//! byte span. Every decodable type implements [`Deserialize`]; the
//! contract ties each executable decoder to a pure specification over the
//! bytes still ahead of the cursor.

use vstd::prelude::*;

verus! {

/// Everything that can go wrong while decoding a payload.
#[derive(Debug, Clone, Copy, PartialEq, Eq, Structural)]
pub enum Error {
    /// The source ran out of bytes before a value could be fully read.
    Eof,
    /// A decoded top-level packet id matches no packet in the family.
    BadPacketId,
    /// A decoded enum discriminant matches no declared variant.
    BadEnumTag,
    /// A variable-length integer would overflow its target width.
    BadVarNum,
    /// String bytes are not valid UTF-8.
    BadUtf8,
}

pub type DeResult<V> = Result<V, Error>;

/// A borrowed, non-owning, forward-only cursor over a byte span.
///
/// Reads either consume exactly the requested bytes or fail without
/// consuming anything; the cursor never moves backward.
pub struct ByteReader<'a> {
    input: &'a [u8],
}

impl<'a> ByteReader<'a> {
    /// The bytes not yet consumed.
    pub closed spec fn view(self) -> Seq<u8> {
        self.input@
    }

    pub fn new(input: &'a [u8]) -> (r: Self)
        ensures
            r@ == input@,
    {
        Self { input }
    }

    /// Consumes and returns the next byte, or fails with `Eof` leaving the
    /// cursor unchanged.
    pub fn read_byte(&mut self) -> (r: DeResult<u8>)
        ensures
            match r {
                Ok(b) => {
                    &&& old(self)@.len() > 0
                    &&& b == old(self)@[0]
                    &&& final(self)@ == old(self)@.drop_first()
                },
                Err(e) => {
                    &&& e == Error::Eof
                    &&& old(self)@.len() == 0
                    &&& final(self)@ == old(self)@
                },
            },
    {
        if self.input.len() == 0 {
            Err(Error::Eof)
        } else {
            let b = *vstd::slice::slice_index_get(self.input, 0);
            self.input = vstd::slice::slice_subrange(self.input, 1, self.input.len());
            Ok(b)
        }
    }

    /// Consumes and returns the next `len` bytes, or fails with `Eof`
    /// leaving the cursor unchanged when fewer than `len` bytes remain.
    pub fn read_bytes(&mut self, len: usize) -> (r: DeResult<&'a [u8]>)
        ensures
            match r {
                Ok(s) => {
                    &&& old(self)@.len() >= len
                    &&& s@ == old(self)@.take(len as int)
                    &&& final(self)@ == old(self)@.skip(len as int)
                },
                Err(e) => {
                    &&& e == Error::Eof
                    &&& old(self)@.len() < len
                    &&& final(self)@ == old(self)@
                },
            },
    {
        if len > self.input.len() {
            return Err(Error::Eof);
        }
        let res = vstd::slice::slice_subrange(self.input, 0, len);
        self.input = vstd::slice::slice_subrange(self.input, len, self.input.len());
        Ok(res)
    }

    /// How many bytes are still ahead of the cursor.
    pub fn remaining_len(&self) -> (r: usize)
        ensures
            r == self@.len(),
    {
        self.input.len()
    }

    /// Whether every byte has been consumed.
    pub fn done(&self) -> (r: bool)
        ensures
            r <==> self@.len() == 0,
    {
        self.input.len() == 0
    }
}

/// The deserialization contract. Every decodable type conforms: scalars,
/// strings, declared packet structs and enums, and packet families.
///
/// `spec_deserialize` is the pure meaning of the decoder: on any byte
/// sequence it gives either the decoded value (as its mathematical view)
/// together with the exact number of bytes the value occupies, or the
/// error the decoder must report. `deserialize` is bound to it: on
/// success the cursor advances by exactly the specified count, and on
/// failure it reports exactly the specified error.
pub trait Deserialize: Sized {
    type Value: View;

    /// What decoding from the front of `bytes` yields.
    spec fn spec_deserialize(bytes: Seq<u8>) -> Result<(<Self::Value as View>::V, int), Error>;

    fn deserialize(input: &mut ByteReader) -> (r: Result<Self::Value, Error>)
        ensures
            final(input)@.len() <= old(input)@.len(),
            match r {
                Ok(v) => ({
                    let d = Self::spec_deserialize(old(input)@);
                    &&& d matches Ok(p)
                    &&& p.0 == v@
                    &&& 0 <= p.1 <= old(input)@.len()
                    &&& final(input)@ == old(input)@.skip(p.1)
                }),
                Err(e) => Self::spec_deserialize(old(input)@) == Err::<
                    (<Self::Value as View>::V, int),
                    Error,
                >(e),
            },
    ;
}

impl Deserialize for u8 {
    type Value = u8;

    open spec fn spec_deserialize(bytes: Seq<u8>) -> Result<(u8, int), Error> {
        if bytes.len() < 1 {
            Err(Error::Eof)
        } else {
            Ok((bytes[0], 1))
        }
    }

    fn deserialize(input: &mut ByteReader) -> (r: Result<u8, Error>) {
        input.read_byte()
    }
}

impl Deserialize for u16 {
    type Value = u16;

    open spec fn spec_deserialize(bytes: Seq<u8>) -> Result<(u16, int), Error> {
        if bytes.len() < 2 {
            Err(Error::Eof)
        } else {
            Ok(((bytes[0] + bytes[1] * 0x100) as u16, 2))
        }
    }

    fn deserialize(input: &mut ByteReader) -> (r: Result<u16, Error>) {
        let s = input.read_bytes(2)?;
        let b0 = *vstd::slice::slice_index_get(s, 0);
        let b1 = *vstd::slice::slice_index_get(s, 1);
        Ok(b0 as u16 + (b1 as u16) * 0x100)
    }
}

impl Deserialize for u32 {
    type Value = u32;

    open spec fn spec_deserialize(bytes: Seq<u8>) -> Result<(u32, int), Error> {
        if bytes.len() < 4 {
            Err(Error::Eof)
        } else {
            Ok(
                (
                    (bytes[0] + bytes[1] * 0x100 + bytes[2] * 0x1_0000 + bytes[3]
                        * 0x100_0000) as u32,
                    4,
                ),
            )
        }
    }

    fn deserialize(input: &mut ByteReader) -> (r: Result<u32, Error>) {
        let s = input.read_bytes(4)?;
        let b0 = *vstd::slice::slice_index_get(s, 0);
        let b1 = *vstd::slice::slice_index_get(s, 1);
        let b2 = *vstd::slice::slice_index_get(s, 2);
        let b3 = *vstd::slice::slice_index_get(s, 3);
        Ok(b0 as u32 + (b1 as u32) * 0x100 + (b2 as u32) * 0x1_0000 + (b3 as u32) * 0x100_0000)
    }
}

impl Deserialize for u64 {
    type Value = u64;

    open spec fn spec_deserialize(bytes: Seq<u8>) -> Result<(u64, int), Error> {
        if bytes.len() < 8 {
            Err(Error::Eof)
        } else {
            Ok(
                (
                    (bytes[0] + bytes[1] * 0x100 + bytes[2] * 0x1_0000 + bytes[3] * 0x100_0000
                        + bytes[4] * 0x1_0000_0000 + bytes[5] * 0x100_0000_0000 + bytes[6]
                        * 0x1_0000_0000_0000 + bytes[7] * 0x100_0000_0000_0000) as u64,
                    8,
                ),
            )
        }
    }

    fn deserialize(input: &mut ByteReader) -> (r: Result<u64, Error>) {
        let s = input.read_bytes(8)?;
        let b0 = *vstd::slice::slice_index_get(s, 0);
        let b1 = *vstd::slice::slice_index_get(s, 1);
        let b2 = *vstd::slice::slice_index_get(s, 2);
        let b3 = *vstd::slice::slice_index_get(s, 3);
        let b4 = *vstd::slice::slice_index_get(s, 4);
        let b5 = *vstd::slice::slice_index_get(s, 5);
        let b6 = *vstd::slice::slice_index_get(s, 6);
        let b7 = *vstd::slice::slice_index_get(s, 7);
        Ok(
            b0 as u64 + (b1 as u64) * 0x100 + (b2 as u64) * 0x1_0000 + (b3 as u64) * 0x100_0000 + (
            b4 as u64) * 0x1_0000_0000 + (b5 as u64) * 0x100_0000_0000 + (b6 as u64)
                * 0x1_0000_0000_0000 + (b7 as u64) * 0x100_0000_0000_0000,
        )
    }
}

impl Deserialize for i8 {
    type Value = i8;

    open spec fn spec_deserialize(bytes: Seq<u8>) -> Result<(i8, int), Error> {
        if bytes.len() < 1 {
            Err(Error::Eof)
        } else {
            Ok((bytes[0] as i8, 1))
        }
    }

    fn deserialize(input: &mut ByteReader) -> (r: Result<i8, Error>) {
        let b = input.read_byte()?;
        Ok(#[verifier::truncate] (b as i8))
    }
}

impl Deserialize for i16 {
    type Value = i16;

    open spec fn spec_deserialize(bytes: Seq<u8>) -> Result<(i16, int), Error> {
        match u16::spec_deserialize(bytes) {
            Ok(p) => Ok((p.0 as i16, p.1)),
            Err(e) => Err(e),
        }
    }

    fn deserialize(input: &mut ByteReader) -> (r: Result<i16, Error>) {
        let v = u16::deserialize(input)?;
        Ok(#[verifier::truncate] (v as i16))
    }
}

impl Deserialize for i32 {
    type Value = i32;

    open spec fn spec_deserialize(bytes: Seq<u8>) -> Result<(i32, int), Error> {
        match u32::spec_deserialize(bytes) {
            Ok(p) => Ok((p.0 as i32, p.1)),
            Err(e) => Err(e),
        }
    }

    fn deserialize(input: &mut ByteReader) -> (r: Result<i32, Error>) {
        let v = u32::deserialize(input)?;
        Ok(#[verifier::truncate] (v as i32))
    }
}

impl Deserialize for i64 {
    type Value = i64;

    open spec fn spec_deserialize(bytes: Seq<u8>) -> Result<(i64, int), Error> {
        match u64::spec_deserialize(bytes) {
            Ok(p) => Ok((p.0 as i64, p.1)),
            Err(e) => Err(e),
        }
    }

    fn deserialize(input: &mut ByteReader) -> (r: Result<i64, Error>) {
        let v = u64::deserialize(input)?;
        Ok(#[verifier::truncate] (v as i64))
    }
}

/// Relies on std::str::from_utf8: it succeeds exactly on the byte
/// sequences that are valid UTF-8, and then yields the characters those
/// bytes encode.
#[verifier::external_body]
fn bytes_to_str<'a>(v: &'a [u8]) -> (r: Option<&'a str>)
    ensures
        r is Some <==> vstd::utf8::valid_utf8(v@),
        r matches Some(s) ==> s@ == vstd::utf8::decode_utf8(v@),
{
    std::str::from_utf8(v).ok()
}

/// What decoding a length-prefixed UTF-8 string from the front of `bytes`
/// yields: a VarNum byte length, then that many bytes validated as UTF-8.
pub open spec fn spec_string_deserialize(bytes: Seq<u8>) -> Result<(Seq<char>, int), Error> {
    match crate::varnum::spec_varint_decode(bytes) {
        Err(e) => Err(e),
        Ok((len, n)) => {
            let rest = bytes.skip(n);
            if rest.len() < len {
                Err(Error::Eof)
            } else if !vstd::utf8::valid_utf8(rest.take(len as int)) {
                Err(Error::BadUtf8)
            } else {
                Ok((vstd::utf8::decode_utf8(rest.take(len as int)), n + len))
            }
        },
    }
}

impl Deserialize for String {
    type Value = String;

    open spec fn spec_deserialize(bytes: Seq<u8>) -> Result<(Seq<char>, int), Error> {
        spec_string_deserialize(bytes)
    }

    fn deserialize(input: &mut ByteReader) -> (r: Result<String, Error>) {
        let ghost pre = input@;
        proof {
            assert(<crate::varnum::VarNumReader as Deserialize>::spec_deserialize(pre)
                == crate::varnum::spec_varint_decode(pre));
            assert(<String as Deserialize>::spec_deserialize(pre) == spec_string_deserialize(pre));
        }
        let len = crate::varnum::VarNumReader::deserialize(input)?;
        let ghost mid = input@;
        let bytes = input.read_bytes(len as usize)?;
        proof {
            let n = crate::varnum::spec_varint_decode(pre)->Ok_0.1;
            assert(mid.take(len as int) =~= pre.skip(n).take(len as int));
            assert(mid.skip(len as int) =~= pre.skip(n + len));
        }
        match bytes_to_str(bytes) {
            Some(s) => Ok(s.to_owned()),
            None => Err(Error::BadUtf8),
        }
    }
}

} // verus!
