pub mod gf;
pub mod sbox;
pub mod state;
pub mod cipher;
pub mod util;
pub mod symmetric_key_encryption;
pub mod garbled_circuit;
