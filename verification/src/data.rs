//! The persisted form of a proof with its public inputs, and the conversions
//! to and from it.

use crate::field::BaseElement;
use crate::layout::{COEFF_LEVEL, VALUE_NUM};
use crate::public::PublicInputs;
use base64::DecodeError;
use vstd::prelude::*;

verus! {

/// The error of `base64` when a text is no encoding of bytes.
#[verifier::external_type_specification]
#[verifier::external_body]
pub struct ExDecodeError(DecodeError);

/// The text that `base64::encode` returns for `bytes`.
pub uninterp spec fn base64_text(bytes: Seq<u8>) -> Seq<char>;

/// The bytes that `base64::decode` returns for `text`, or `None` where it reports an error.
pub uninterp spec fn base64_bytes(text: Seq<char>) -> Option<Seq<u8>>;

/// `base64::encode`, in the standard alphabet with padding. The result is named by
/// `base64_text`; the contract also claims that decoding it gives `bytes` back. The length
/// computation inside cannot overflow, as a vector holds at most `isize::MAX` bytes.
#[verifier::external_body]
fn encode_base64(bytes: &Vec<u8>) -> (text: String)
    ensures
        text@ == base64_text(bytes@),
        base64_bytes(text@) == Some(bytes@),
{
    base64::encode(bytes)
}

/// `base64::decode`, in the standard alphabet. The contract claims that the outcome depends on
/// the text alone, and names it by `base64_bytes`.
#[verifier::external_body]
fn decode_base64(text: &String) -> (decoded: Result<Vec<u8>, DecodeError>)
    ensures
        match decoded {
            Ok(bytes) => base64_bytes(text@) == Some(bytes@),
            Err(_) => base64_bytes(text@) is None,
        },
{
    base64::decode(text)
}

/// Why a record could not be read back.
#[derive(Clone, Copy, Debug, PartialEq, Eq, Structural)]
pub enum DataError {
    /// The proof text is no base64 encoding.
    ProofNotBase64,
}

/// A proof and its public inputs as they are stored: the results as 64-bit integers, the proof
/// bytes as base64 text.
#[derive(Debug)]
pub struct Data {
    pub result: [[Vec<u64>; COEFF_LEVEL]; VALUE_NUM],
    pub proof: String,
}

impl Data {
    /// The integers of the results, by value, level and row.
    pub open spec fn result_values(&self) -> Seq<Seq<Seq<int>>> {
        Seq::new(
            VALUE_NUM as nat,
            |v: int|
                Seq::new(
                    COEFF_LEVEL as nat,
                    |l: int|
                        Seq::new(
                            self.result@[v]@[l]@.len(),
                            |t: int| self.result@[v]@[l]@[t] as int,
                        ),
                ),
        )
    }

    /// What the record stands for: the results and the proof bytes, or `None` where the proof
    /// text is no base64 encoding.
    pub open spec fn parsed(&self) -> Option<(Seq<Seq<Seq<int>>>, Seq<u8>)> {
        match base64_bytes(self.proof@) {
            Some(bytes) => Some((self.result_values(), bytes)),
            None => None,
        }
    }
}

impl Default for Data {
    /// The record with no results and an empty proof text.
    fn default() -> (data: Self)
        ensures
            data.proof@.len() == 0,
            forall|v: int, l: int|
                0 <= v < VALUE_NUM && 0 <= l < COEFF_LEVEL ==> (#[trigger] data.result@[v]@[l])@.len()
                    == 0,
    {
        Data {
            result: [[Vec::new(), Vec::new()], [Vec::new(), Vec::new()]],
            proof: String::new(),
        }
    }
}

/// The field elements that a sequence of 64-bit integers stands for.
pub fn elements_from_u64(numbers: &Vec<u64>) -> (elements: Vec<BaseElement>)
    ensures
        elements@.len() == numbers@.len(),
        forall|t: int| 0 <= t < numbers@.len() ==> (#[trigger] elements@[t])@ == numbers@[t] as int,
{
    let mut elements: Vec<BaseElement> = Vec::new();
    let mut t: usize = 0;
    while t < numbers.len()
        invariant
            t <= numbers@.len(),
            elements@.len() == t,
            forall|s: int| 0 <= s < t ==> (#[trigger] elements@[s])@ == numbers@[s] as int,
        decreases numbers@.len() - t,
    {
        elements.push(BaseElement::from_u64(numbers[t]));
        t += 1;
    }
    elements
}

/// The canonical representatives of a sequence of field elements, each of which fits 64 bits.
pub fn elements_to_u64(elements: &Vec<BaseElement>) -> (numbers: Vec<u64>)
    requires
        forall|t: int| 0 <= t < elements@.len() ==> (#[trigger] elements@[t])@ <= u64::MAX,
    ensures
        numbers@.len() == elements@.len(),
        forall|t: int| 0 <= t < elements@.len() ==> (#[trigger] numbers@[t]) as int == elements@[t]@,
{
    let mut numbers: Vec<u64> = Vec::new();
    let mut t: usize = 0;
    while t < elements.len()
        invariant
            t <= elements@.len(),
            numbers@.len() == t,
            forall|s: int| 0 <= s < elements@.len() ==> (#[trigger] elements@[s])@ <= u64::MAX,
            forall|s: int| 0 <= s < t ==> (#[trigger] numbers@[s]) as int == elements@[s]@,
        decreases elements@.len() - t,
    {
        let e: BaseElement = elements[t];
        numbers.push(e.as_int() as u64);
        t += 1;
    }
    numbers
}

/// Pairs public inputs with the outcome of decoding the proof text.
pub fn with_decoded_proof(inputs: PublicInputs, decoded: Result<Vec<u8>, DecodeError>) -> (r:
    Result<(PublicInputs, Vec<u8>), DataError>)
    ensures
        match decoded {
            Ok(bytes) => r == Ok::<(PublicInputs, Vec<u8>), DataError>((inputs, bytes)),
            Err(_) => r == Err::<(PublicInputs, Vec<u8>), DataError>(DataError::ProofNotBase64),
        },
{
    match decoded {
        Ok(bytes) => Ok((inputs, bytes)),
        Err(_) => Err(DataError::ProofNotBase64),
    }
}

/// Whether `r` is what reading `data` back gives: the results and proof bytes that the record
/// stands for, or the error where it stands for none.
pub open spec fn is_reading_of(r: Result<(PublicInputs, Vec<u8>), DataError>, data: Data) -> bool {
    match data.parsed() {
        Some((results, bytes)) => r is Ok && r->Ok_0.0@ == results && r->Ok_0.1@ == bytes,
        None => r == Err::<(PublicInputs, Vec<u8>), DataError>(DataError::ProofNotBase64),
    }
}

/// Reads a record back: the results as field elements and the proof bytes that the text encodes.
/// Fails exactly where the proof text is no base64 encoding.
pub fn from_data(data: Data) -> (r: Result<(PublicInputs, Vec<u8>), DataError>)
    ensures
        is_reading_of(r, data),
{
    let inputs: PublicInputs = PublicInputs {
        result: [
            [elements_from_u64(&data.result[0][0]), elements_from_u64(&data.result[0][1])],
            [elements_from_u64(&data.result[1][0]), elements_from_u64(&data.result[1][1])],
        ],
    };
    proof {
        assert forall|v: int, l: int| 0 <= v < VALUE_NUM && 0 <= l < COEFF_LEVEL implies #[trigger] inputs@[v][l]
            == data.result_values()[v][l] by {
            assert(inputs@[v][l] =~= data.result_values()[v][l]);
        }
        assert(inputs@ =~~= data.result_values());
    }
    let decoded: Result<Vec<u8>, DecodeError> = decode_base64(&data.proof);
    with_decoded_proof(inputs, decoded)
}

/// Whether every result of `inputs` fits 64 bits.
pub open spec fn fits_u64(inputs: &PublicInputs) -> bool {
    forall|v: int, l: int, t: int|
        0 <= v < VALUE_NUM && 0 <= l < COEFF_LEVEL && 0 <= t < inputs.result@[v]@[l]@.len() ==> (
        #[trigger] inputs.result@[v]@[l]@[t])@ <= u64::MAX
}

/// Tests whether every entry of `elements` fits 64 bits.
pub fn all_fit_u64(elements: &Vec<BaseElement>) -> (ok: bool)
    ensures
        ok == (forall|t: int| 0 <= t < elements@.len() ==> (#[trigger] elements@[t])@ <= u64::MAX),
{
    let mut t: usize = 0;
    while t < elements.len()
        invariant
            t <= elements@.len(),
            forall|s: int| 0 <= s < t ==> (#[trigger] elements@[s])@ <= u64::MAX,
        decreases elements@.len() - t,
    {
        let e: BaseElement = elements[t];
        if e.as_int() > u64::MAX as u128 {
            return false;
        }
        t += 1;
    }
    true
}

/// Tests whether every result of `inputs` fits 64 bits.
pub fn can_store(inputs: &PublicInputs) -> (ok: bool)
    ensures
        ok == fits_u64(inputs),
{
    let ok: bool = all_fit_u64(&inputs.result[0][0]) && all_fit_u64(&inputs.result[0][1])
        && all_fit_u64(&inputs.result[1][0]) && all_fit_u64(&inputs.result[1][1]);
    proof {
        if ok {
            assert forall|v: int, l: int, t: int|
                0 <= v < VALUE_NUM && 0 <= l < COEFF_LEVEL && 0 <= t
                    < inputs.result@[v]@[l]@.len() implies (#[trigger] inputs.result@[v]@[l]@[t])@
                <= u64::MAX by {
                if v == 0 && l == 0 {
                    assert(inputs.result@[0]@[0]@[t]@ <= u64::MAX);
                } else if v == 0 {
                    assert(inputs.result@[0]@[1]@[t]@ <= u64::MAX);
                } else if l == 0 {
                    assert(inputs.result@[1]@[0]@[t]@ <= u64::MAX);
                } else {
                    assert(inputs.result@[1]@[1]@[t]@ <= u64::MAX);
                }
            }
        }
    }
    ok
}

/// Whether `data` stores `proof` with `inputs`: the results by their canonical representatives,
/// the proof as its base64 text, which decodes to the proof again.
pub open spec fn is_record_of(data: Data, proof: Seq<u8>, inputs: PublicInputs) -> bool {
    &&& data.result_values() == inputs@
    &&& data.proof@ == base64_text(proof)
    &&& data.parsed() == Some((inputs@, proof))
}

/// Stores a proof with its public inputs: the results by their canonical representatives, the
/// proof bytes as base64 text. Reading the record back gives the same results and bytes.
pub fn to_data(proof: Vec<u8>, public_input: PublicInputs) -> (data: Data)
    requires
        fits_u64(&public_input),
    ensures
        is_record_of(data, proof@, public_input),
{
    let data: Data = Data {
        result: [
            [
                elements_to_u64(&public_input.result[0][0]),
                elements_to_u64(&public_input.result[0][1]),
            ],
            [
                elements_to_u64(&public_input.result[1][0]),
                elements_to_u64(&public_input.result[1][1]),
            ],
        ],
        proof: encode_base64(&proof),
    };
    proof {
        assert forall|v: int, l: int| 0 <= v < VALUE_NUM && 0 <= l < COEFF_LEVEL implies #[trigger] data.result_values()[v][l]
            == public_input@[v][l] by {
            assert(data.result_values()[v][l] =~= public_input@[v][l]);
        }
        assert(data.result_values() =~~= public_input@);
    }
    data
}

} // verus!
