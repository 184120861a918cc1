use vstd::prelude::*;
use vstd::utf8::encode_utf8;

use crate::blob::{blob_from_hex, Blob};
use crate::bytes::{sized_hex, Bytes48};
use crate::error::Error;

verus! {

/// The texts of a sequence of strings.
pub open spec fn texts(v: Seq<String>) -> Seq<Seq<char>> {
    v.map_values(|s: String| s@)
}

/// `e` is what decoding the `i`-th text yields, and every text before it
/// decodes.
pub open spec fn first_blob_error(t: Seq<Seq<char>>, i: int, e: Error) -> bool {
    &&& 0 <= i < t.len()
    &&& blob_from_hex(encode_utf8(t[i])) == Err::<Seq<u8>, Error>(e)
    &&& forall|j: int| 0 <= j < i ==> (#[trigger] blob_from_hex(encode_utf8(t[j]))) is Ok
}

/// `e` is what reading the `i`-th text as 48 hex bytes yields, and every text
/// before it reads.
pub open spec fn first_bytes48_error(t: Seq<Seq<char>>, i: int, e: Error) -> bool {
    &&& 0 <= i < t.len()
    &&& sized_hex(encode_utf8(t[i]), 48) == Err::<Seq<u8>, Error>(e)
    &&& forall|j: int| 0 <= j < i ==> (#[trigger] sized_hex(encode_utf8(t[j]), 48)) is Ok
}

/// Reads each text as 48 hex bytes, stopping at the first that fails.
fn read_bytes48(v: &Vec<String>) -> (r: Result<Vec<Bytes48>, Error>)
    ensures
        match r {
            Ok(out) => out@.len() == v@.len() && forall|i: int|
                0 <= i < v@.len() ==> sized_hex(encode_utf8(texts(v@)[i]), 48) == Ok::<
                    Seq<u8>,
                    Error,
                >((#[trigger] out@[i])@),
            Err(e) => exists|i: int| first_bytes48_error(texts(v@), i, e),
        },
{
    let mut out: Vec<Bytes48> = Vec::new();
    let mut k: usize = 0;
    while k < v.len()
        invariant
            k <= v@.len(),
            out@.len() == k,
            forall|i: int|
                0 <= i < k ==> sized_hex(encode_utf8(texts(v@)[i]), 48) == Ok::<Seq<u8>, Error>(
                    (#[trigger] out@[i])@,
                ),
        decreases v@.len() - k,
    {
        match Bytes48::from_hex(v[k].as_str()) {
            Ok(b) => {
                assert(texts(v@)[k as int] == v@[k as int]@);
                out.push(b);
                k = k + 1;
            },
            Err(e) => {
                assert(texts(v@)[k as int] == v@[k as int]@);
                assert forall|j: int| 0 <= j < k implies (#[trigger] sized_hex(
                    encode_utf8(texts(v@)[j]),
                    48,
                )) is Ok by {
                    assert(sized_hex(encode_utf8(texts(v@)[j]), 48) == Ok::<Seq<u8>, Error>(
                        out@[j]@,
                    ));
                }
                assert(first_bytes48_error(texts(v@), k as int, e));
                return Err(e);
            },
        }
    }
    Ok(out)
}

/// The input of a batch fixture: blobs, commitments and proofs, in hex.
pub struct Input {
    blobs: Vec<String>,
    commitments: Vec<String>,
    proofs: Vec<String>,
}

impl Input {
    /// The blobs' hex texts.
    pub closed spec fn blob_texts(&self) -> Seq<Seq<char>> {
        texts(self.blobs@)
    }

    /// The commitments' hex texts.
    pub closed spec fn commitment_texts(&self) -> Seq<Seq<char>> {
        texts(self.commitments@)
    }

    /// The proofs' hex texts.
    pub closed spec fn proof_texts(&self) -> Seq<Seq<char>> {
        texts(self.proofs@)
    }

    pub fn new(blobs: Vec<String>, commitments: Vec<String>, proofs: Vec<String>) -> (r: Self)
        ensures
            r.blob_texts() == texts(blobs@),
            r.commitment_texts() == texts(commitments@),
            r.proof_texts() == texts(proofs@),
    {
        Input { blobs, commitments, proofs }
    }

    /// The blobs' hex texts.
    pub fn blobs(&self) -> (r: &Vec<String>)
        ensures
            texts(r@) == self.blob_texts(),
    {
        &self.blobs
    }

    /// The commitments' hex texts.
    pub fn commitments(&self) -> (r: &Vec<String>)
        ensures
            texts(r@) == self.commitment_texts(),
    {
        &self.commitments
    }

    /// The proofs' hex texts.
    pub fn proofs(&self) -> (r: &Vec<String>)
        ensures
            texts(r@) == self.proof_texts(),
    {
        &self.proofs
    }

    /// Decodes every blob, stopping at the first that fails.
    pub fn get_blobs(&self) -> (r: Result<Vec<Blob>, Error>)
        ensures
            match r {
                Ok(v) => v@.len() == self.blob_texts().len() && forall|i: int|
                    0 <= i < v@.len() ==> blob_from_hex(encode_utf8(self.blob_texts()[i])) == Ok::<
                        Seq<u8>,
                        Error,
                    >((#[trigger] v@[i])@),
                Err(e) => exists|i: int| first_blob_error(self.blob_texts(), i, e),
            },
    {
        let mut v: Vec<Blob> = Vec::new();
        let mut k: usize = 0;
        while k < self.blobs.len()
            invariant
                k <= self.blobs@.len(),
                v@.len() == k,
                forall|i: int|
                    0 <= i < k ==> blob_from_hex(encode_utf8(texts(self.blobs@)[i])) == Ok::<
                        Seq<u8>,
                        Error,
                    >((#[trigger] v@[i])@),
            decreases self.blobs@.len() - k,
        {
            match Blob::from_hex(self.blobs[k].as_str()) {
                Ok(blob) => {
                    assert(texts(self.blobs@)[k as int] == self.blobs@[k as int]@);
                    v.push(blob);
                    k = k + 1;
                },
                Err(e) => {
                    assert(texts(self.blobs@)[k as int] == self.blobs@[k as int]@);
                    assert forall|j: int| 0 <= j < k implies (#[trigger] blob_from_hex(
                        encode_utf8(texts(self.blobs@)[j]),
                    )) is Ok by {
                        assert(blob_from_hex(encode_utf8(texts(self.blobs@)[j])) == Ok::<
                            Seq<u8>,
                            Error,
                        >(v@[j]@));
                    }
                    assert(first_blob_error(texts(self.blobs@), k as int, e));
                    return Err(e);
                },
            }
        }
        Ok(v)
    }

    /// Reads every commitment as 48 bytes, stopping at the first that fails.
    pub fn get_commitments(&self) -> (r: Result<Vec<Bytes48>, Error>)
        ensures
            match r {
                Ok(v) => v@.len() == self.commitment_texts().len() && forall|i: int|
                    0 <= i < v@.len() ==> sized_hex(encode_utf8(self.commitment_texts()[i]), 48)
                        == Ok::<Seq<u8>, Error>((#[trigger] v@[i])@),
                Err(e) => exists|i: int| first_bytes48_error(self.commitment_texts(), i, e),
            },
    {
        read_bytes48(&self.commitments)
    }

    /// Reads every proof as 48 bytes, stopping at the first that fails.
    pub fn get_proofs(&self) -> (r: Result<Vec<Bytes48>, Error>)
        ensures
            match r {
                Ok(v) => v@.len() == self.proof_texts().len() && forall|i: int|
                    0 <= i < v@.len() ==> sized_hex(encode_utf8(self.proof_texts()[i]), 48)
                        == Ok::<Seq<u8>, Error>((#[trigger] v@[i])@),
                Err(e) => exists|i: int| first_bytes48_error(self.proof_texts(), i, e),
            },
    {
        read_bytes48(&self.proofs)
    }
}

/// A batch fixture: its input, and whether the batch verifies, absent where
/// the input is to be refused.
pub struct Test {
    pub input: Input,
    output: Option<bool>,
}

impl Test {
    /// The fixture's input.
    pub closed spec fn spec_input(&self) -> Input {
        self.input
    }

    /// The expected result.
    pub closed spec fn spec_output(&self) -> Option<bool> {
        self.output
    }

    pub fn new(input: Input, output: Option<bool>) -> (r: Self)
        ensures
            r.spec_input() == input,
            r.spec_output() == output,
    {
        Test { input, output }
    }

    /// The expected result.
    pub fn get_output(&self) -> (r: Option<bool>)
        ensures
            r == self.spec_output(),
    {
        self.output
    }
}

} // verus!
