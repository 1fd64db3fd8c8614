use vstd::prelude::*;
use crate::symmetric_key_encryption::{
    bytes_result, decrypt, encrypt, gcm_seal, open_spec, CryptoError, NONCE_LEN,
};
use crate::util::generate_os_rand;

verus! {

/// The two input labels of a one-input gate: one for input 0, one for input 1.
pub struct GarbledInputLabel2(pub Vec<u8>, pub Vec<u8>);

/// The two output labels of a one-input gate: one for output row 0, one for row 1.
pub struct GarbledOutputLabel2(pub Vec<u8>, pub Vec<u8>);

/// One row of a garbled table: an output label sealed under an input label.
pub struct GarbledTable {
    nonce: Vec<u8>,
    ciphertext: Vec<u8>,
}

impl View for GarbledTable {
    type V = (Seq<u8>, Seq<u8>);

    /// The nonce and the ciphertext.
    closed spec fn view(&self) -> (Seq<u8>, Seq<u8>) {
        (self.nonce@, self.ciphertext@)
    }
}

/// The two rows of a one-input gate.
pub type GarbledTable2 = (GarbledTable, GarbledTable);

impl GarbledTable {
    /// The nonce and the ciphertext, borrowed.
    pub fn as_tuple(&self) -> (r: (&Vec<u8>, &Vec<u8>))
        ensures
            (r.0@, r.1@) == self@,
    {
        (&self.nonce, &self.ciphertext)
    }
}

impl From<(Vec<u8>, Vec<u8>)> for GarbledTable {
    fn from(parts: (Vec<u8>, Vec<u8>)) -> (r: Self) {
        let (nonce, ciphertext) = parts;
        Self { nonce, ciphertext }
    }
}

impl vstd::std_specs::convert::FromSpecImpl<(Vec<u8>, Vec<u8>)> for GarbledTable {
    open spec fn obeys_from_spec() -> bool {
        true
    }

    closed spec fn from_spec(v: (Vec<u8>, Vec<u8>)) -> Self {
        GarbledTable { nonce: v.0, ciphertext: v.1 }
    }
}

/// A table built from a nonce and a ciphertext holds them.
pub broadcast proof fn lemma_table_from_parts(v: (Vec<u8>, Vec<u8>))
    ensures
        (#[trigger] <GarbledTable as vstd::std_specs::convert::FromSpec<
            (Vec<u8>, Vec<u8>),
        >>::from_spec(v))@ == (v.0@, v.1@),
{
}

/// A row of the table seals `output` under `input` with the row's own nonce.
pub open spec fn seals(table: (Seq<u8>, Seq<u8>), input: Seq<u8>, output: Seq<u8>) -> bool {
    table.0.len() == NONCE_LEN && table.1 == gcm_seal(input, table.0, output)
}

/// Garbles a one-input gate: draws two sixteen-byte input labels and two output labels, and
/// seals output label `k` under input label `k` for each row `k`.
pub fn generate2() -> (r: Result<(GarbledInputLabel2, GarbledOutputLabel2, GarbledTable2), CryptoError>)
    ensures
        match r {
            Ok((inputs, outputs, tables)) => inputs.0@.len() == 16 && inputs.1@.len() == 16
                && outputs.0@.len() == 16 && outputs.1@.len() == 16 && seals(
                tables.0@,
                inputs.0@,
                outputs.0@,
            ) && seals(tables.1@, inputs.1@, outputs.1@),
            Err(_) => false,
        },
{
    broadcast use lemma_table_from_parts;

    let garbled_input_label2 = GarbledInputLabel2(generate_os_rand(128), generate_os_rand(128));
    let garbled_output_label2 = GarbledOutputLabel2(generate_os_rand(128), generate_os_rand(128));

    let row0 = match encrypt(garbled_input_label2.0.as_slice(), garbled_output_label2.0.as_slice()) {
        Ok(sealed) => sealed,
        Err(e) => return Err(e),
    };
    let row1 = match encrypt(garbled_input_label2.1.as_slice(), garbled_output_label2.1.as_slice()) {
        Ok(sealed) => sealed,
        Err(e) => return Err(e),
    };
    let garbled_table2 = (GarbledTable::from(row0), GarbledTable::from(row1));

    Ok((garbled_input_label2, garbled_output_label2, garbled_table2))
}

/// What evaluating the circuit on `label` gives: the first row that decrypts under it.
pub open spec fn evaluate2_spec(label: Seq<u8>, t0: (Seq<u8>, Seq<u8>), t1: (Seq<u8>, Seq<u8>)) -> Result<
    Seq<u8>,
    CryptoError,
> {
    match open_spec(label, t0.0, t0.1) {
        Ok(p) => Ok(p),
        Err(_) => match open_spec(label, t1.0, t1.1) {
            Ok(p) => Ok(p),
            Err(_) => Err(CryptoError::EvaluationFailed),
        },
    }
}

/// Evaluates a garbled gate: returns the output label of the first row that decrypts under
/// `garbled_input_label`.
pub fn evaluate2(garbled_input_label: &[u8], garbled_table: &GarbledTable2) -> (r: Result<
    Vec<u8>,
    CryptoError,
>)
    ensures
        bytes_result(r) == evaluate2_spec(garbled_input_label@, garbled_table.0@, garbled_table.1@),
{
    if let Ok(garbled_output_label) = decrypt(garbled_input_label, garbled_table.0.as_tuple()) {
        return Ok(garbled_output_label);
    }
    if let Ok(garbled_output_label) = decrypt(garbled_input_label, garbled_table.1.as_tuple()) {
        return Ok(garbled_output_label);
    }
    Err(CryptoError::EvaluationFailed)
}

fn bytes_eq(a: &[u8], b: &Vec<u8>) -> (r: bool)
    ensures
        r == (a@ == b@),
{
    if a.len() != b.len() {
        return false;
    }
    let mut i: usize = 0;
    while i < a.len()
        invariant
            a@.len() == b@.len(),
            0 <= i <= a@.len(),
            forall|j: int| 0 <= j < i ==> a@[j] == b@[j],
        decreases a@.len() - i,
    {
        if a[i] != b[i] {
            return false;
        }
        i = i + 1;
    }
    assert(a@ =~= b@);
    true
}

/// Decodes an output label: the entry of `base_table` at the index of the matching label.
pub fn decode2(output_label: &[u8], output_label2: &GarbledOutputLabel2, base_table: &[u8]) -> (r:
    Result<u8, CryptoError>)
    requires
        output_label@ == output_label2.0@ ==> base_table@.len() >= 1,
        output_label@ != output_label2.0@ && output_label@ == output_label2.1@ ==> base_table@.len()
            >= 2,
    ensures
        r == if output_label@ == output_label2.0@ {
            Ok(base_table@[0])
        } else if output_label@ == output_label2.1@ {
            Ok(base_table@[1])
        } else {
            Err::<u8, CryptoError>(CryptoError::DecodingFailed)
        },
{
    if bytes_eq(output_label, &output_label2.0) {
        return Ok(base_table[0]);
    }
    if bytes_eq(output_label, &output_label2.1) {
        return Ok(base_table[1]);
    }
    Err(CryptoError::DecodingFailed)
}

} // verus!
