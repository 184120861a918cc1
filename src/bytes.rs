use vstd::prelude::*;
use vstd::utf8::encode_utf8;

use crate::error::Error;
use crate::hex::{hex_decode, hex_to_bytes};

verus! {

/// What reading a fixed-size value of `n` bytes from `b` yields.
pub open spec fn sized(b: Seq<u8>, n: nat) -> Result<Seq<u8>, Error> {
    if b.len() == n {
        Ok(b)
    } else {
        Err(Error::InvalidBytesLength)
    }
}

/// Reading a fixed-size value and writing it back out gives the original bytes.
pub proof fn lemma_sized_round_trip(b: Seq<u8>, n: nat)
    ensures
        sized(b, n) is Ok ==> sized(b, n)->Ok_0 == b,
{
}

/// What reading a fixed-size value of `n` bytes from the hex text `t` yields.
pub open spec fn sized_hex(t: Seq<u8>, n: nat) -> Result<Seq<u8>, Error> {
    match hex_decode(t) {
        Ok(b) => sized(b, n),
        Err(e) => Err(e),
    }
}

/// Thirty-two bytes: the encoding of a field element.
#[derive(Debug, Clone, Copy, PartialEq, Eq)]
pub struct Bytes32 {
    bytes: [u8; 32],
}

/// Forty-eight bytes: the encoding of a compressed G1 point.
#[derive(Debug, Clone, Copy, PartialEq, Eq)]
pub struct Bytes48 {
    bytes: [u8; 48],
}

impl View for Bytes32 {
    type V = Seq<u8>;

    closed spec fn view(&self) -> Seq<u8> {
        self.bytes@
    }
}

impl View for Bytes48 {
    type V = Seq<u8>;

    closed spec fn view(&self) -> Seq<u8> {
        self.bytes@
    }
}

impl Bytes32 {
    /// Takes exactly 32 bytes.
    pub fn from_bytes(b: &[u8]) -> (r: Result<Self, Error>)
        ensures
            match r {
                Ok(v) => sized(b@, 32) == Ok::<Seq<u8>, Error>(v@),
                Err(e) => sized(b@, 32) == Err::<Seq<u8>, Error>(e),
            },
    {
        if b.len() != 32 {
            return Err(Error::InvalidBytesLength);
        }
        let mut bytes = [0u8; 32];
        let mut i: usize = 0;
        while i < 32
            invariant
                b@.len() == 32,
                i <= 32,
                forall|j: int| 0 <= j < i ==> bytes@[j] == b@[j],
            decreases 32 - i,
        {
            bytes[i] = b[i];
            i = i + 1;
        }
        assert(bytes@ =~= b@);
        Ok(Bytes32 { bytes })
    }

    /// Takes 32 bytes written in hex, with or without a `0x` prefix.
    pub fn from_hex(hex_str: &str) -> (r: Result<Self, Error>)
        ensures
            match r {
                Ok(v) => sized_hex(encode_utf8(hex_str@), 32) == Ok::<Seq<u8>, Error>(v@),
                Err(e) => sized_hex(encode_utf8(hex_str@), 32) == Err::<Seq<u8>, Error>(e),
            },
    {
        match hex_to_bytes(hex_str) {
            Ok(b) => Self::from_bytes(b.as_slice()),
            Err(e) => Err(e),
        }
    }

    /// The 32 bytes.
    pub fn to_bytes(&self) -> (r: [u8; 32])
        ensures
            r@ == self@,
    {
        self.bytes
    }
}

impl Bytes48 {
    /// Takes exactly 48 bytes.
    pub fn from_bytes(b: &[u8]) -> (r: Result<Self, Error>)
        ensures
            match r {
                Ok(v) => sized(b@, 48) == Ok::<Seq<u8>, Error>(v@),
                Err(e) => sized(b@, 48) == Err::<Seq<u8>, Error>(e),
            },
    {
        if b.len() != 48 {
            return Err(Error::InvalidBytesLength);
        }
        let mut bytes = [0u8; 48];
        let mut i: usize = 0;
        while i < 48
            invariant
                b@.len() == 48,
                i <= 48,
                forall|j: int| 0 <= j < i ==> bytes@[j] == b@[j],
            decreases 48 - i,
        {
            bytes[i] = b[i];
            i = i + 1;
        }
        assert(bytes@ =~= b@);
        Ok(Bytes48 { bytes })
    }

    /// Takes the 48 bytes of an array.
    pub fn from_array(bytes: [u8; 48]) -> (r: Self)
        ensures
            r@ == bytes@,
    {
        Bytes48 { bytes }
    }

    /// Takes 48 bytes written in hex, with or without a `0x` prefix.
    pub fn from_hex(hex_str: &str) -> (r: Result<Self, Error>)
        ensures
            match r {
                Ok(v) => sized_hex(encode_utf8(hex_str@), 48) == Ok::<Seq<u8>, Error>(v@),
                Err(e) => sized_hex(encode_utf8(hex_str@), 48) == Err::<Seq<u8>, Error>(e),
            },
    {
        match hex_to_bytes(hex_str) {
            Ok(b) => Self::from_bytes(b.as_slice()),
            Err(e) => Err(e),
        }
    }

    /// The 48 bytes.
    pub fn to_bytes(&self) -> (r: [u8; 48])
        ensures
            r@ == self@,
    {
        self.bytes
    }
}

} // verus!
