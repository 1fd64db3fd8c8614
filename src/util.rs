use vstd::prelude::*;
use rand::rngs::OsRng;
use rand::RngCore;

verus! {

/// Relies on rand's `OsRng::fill_bytes`: it overwrites the buffer with bytes from the
/// operating system and leaves its length as it was. Nothing is known of the bytes.
#[verifier::external_body]
fn fill_os_rand(buf: &mut [u8])
    ensures
        final(buf)@.len() == old(buf)@.len(),
{
    OsRng.fill_bytes(buf);
}

/// `length / 8` bytes (`length` counts bits) drawn from the operating system's generator.
pub fn generate_os_rand(length: u32) -> (r: Vec<u8>)
    ensures
        r@.len() == length / 8,
{
    let mut label = vec![0u8; (length / 8) as usize];
    fill_os_rand(label.as_mut_slice());
    label
}

} // verus!
