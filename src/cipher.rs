use vstd::prelude::*;
use crate::sbox::{s_box, s_box_spec};
use crate::state::{
    add_round_key_spec, inv_mix_columns_spec, inv_shift_rows_spec, inv_sub_bytes_spec,
    mix_columns_spec, shift_rows_spec, sub_bytes_spec, State,
};

verus! {

broadcast use crate::state::group_block_conversions;

/// The key-schedule round constants: successive powers of x in the field.
pub const RCON: [u8; 10] = [0x01, 0x02, 0x04, 0x08, 0x10, 0x20, 0x40, 0x80, 0x1b, 0x36];

/// Why a cipher call was refused before any arithmetic.
#[derive(Debug, Clone, Copy, PartialEq, Eq, Structural)]
pub enum CipherError {
    /// The key is not `4 * nk` bytes long.
    KeyLengthMismatch,
    /// `(nk, nr)` is not one of `(4, 10)`, `(6, 12)`, `(8, 14)`.
    UnsupportedRoundCount,
}

/// The key sizes (in words) and round counts of AES-128, AES-192 and AES-256.
pub open spec fn supported(nk: int, nr: int) -> bool {
    (nk == 4 && nr == 10) || (nk == 6 && nr == 12) || (nk == 8 && nr == 14)
}

/// A word rotated left by one byte.
pub open spec fn rot_word(t: Seq<u8>) -> Seq<u8> {
    seq![t[1], t[2], t[3], t[0]]
}

/// Each byte of a word through the substitution box.
pub open spec fn sub_word_spec(t: Seq<u8>) -> Seq<u8> {
    Seq::new(4, |i: int| s_box_spec(t[i]))
}

/// The bytewise XOR of two words.
pub open spec fn xor_word_spec(a: Seq<u8>, b: Seq<u8>) -> Seq<u8> {
    Seq::new(4, |i: int| a[i] ^ b[i])
}

/// The round-constant word `[RCON[k], 0, 0, 0]`.
pub open spec fn rcon_word(k: int) -> Seq<u8> {
    seq![RCON@[k], 0u8, 0u8, 0u8]
}

/// What the word before word `j` becomes before it is XORed with word `j - nk`.
pub open spec fn schedule_temp(prev: Seq<u8>, j: int, nk: int) -> Seq<u8> {
    if j % nk == 0 {
        xor_word_spec(sub_word_spec(rot_word(prev)), rcon_word(j / nk - 1))
    } else if nk > 6 && j % nk == 4 {
        sub_word_spec(prev)
    } else {
        prev
    }
}

/// Word `j` of the key schedule: the key itself for `j < nk`, then the recurrence.
#[verifier::opaque]
pub open spec fn schedule_word(key: Seq<u8>, nk: nat, j: nat) -> Seq<u8>
    decreases j,
{
    if j < nk || nk == 0 {
        key.subrange(4 * j as int, 4 * j as int + 4)
    } else {
        xor_word_spec(
            schedule_word(key, nk, (j - nk) as nat),
            schedule_temp(schedule_word(key, nk, (j - 1) as nat), j as int, nk as int),
        )
    }
}

/// The expanded key: `4 * (nr + 1)` words, as bytes.
pub open spec fn key_schedule(key: Seq<u8>, nk: nat, nr: nat) -> Seq<u8> {
    Seq::new(16 * (nr + 1), |b: int| schedule_word(key, nk, (b / 4) as nat)[b % 4])
}

/// Substitutes the four bytes of a word.
pub fn sub_word(word: &mut [u8])
    requires
        old(word)@.len() == 4,
    ensures
        final(word)@ == sub_word_spec(old(word)@),
{
    word[0] = s_box(word[0]);
    word[1] = s_box(word[1]);
    word[2] = s_box(word[2]);
    word[3] = s_box(word[3]);
    assert(word@ =~= sub_word_spec(old(word)@));
}

/// The bytewise XOR of the first four bytes of `a` and of `b`.
pub fn xor_word(a: &[u8], b: &[u8]) -> (r: [u8; 4])
    requires
        a@.len() >= 4,
        b@.len() >= 4,
    ensures
        r@ == xor_word_spec(a@, b@),
{
    let r = [a[0] ^ b[0], a[1] ^ b[1], a[2] ^ b[2], a[3] ^ b[3]];
    assert(r@ =~= xor_word_spec(a@, b@));
    r
}

proof fn lemma_schedule_byte(key: Seq<u8>, nk: nat, nr: nat, j: int, k: int)
    requires
        0 <= j,
        4 * j + 4 <= 16 * (nr + 1),
        0 <= k < 4,
    ensures
        key_schedule(key, nk, nr)[4 * j + k] == schedule_word(key, nk, j as nat)[k],
{
    assert((4 * j + k) / 4 == j && (4 * j + k) % 4 == k);
}

proof fn lemma_schedule_word_len(key: Seq<u8>, nk: nat, j: nat)
    requires
        key.len() == 4 * nk,
        nk > 0,
    ensures
        schedule_word(key, nk, j).len() == 4,
{
    reveal_with_fuel(schedule_word, 1);
}

proof fn lemma_schedule_word_next(key: Seq<u8>, nk: nat, j: nat)
    requires
        0 < nk <= j,
    ensures
        schedule_word(key, nk, j) == xor_word_spec(
            schedule_word(key, nk, (j - nk) as nat),
            schedule_temp(schedule_word(key, nk, (j - 1) as nat), j as int, nk as int),
        ),
{
    reveal_with_fuel(schedule_word, 1);
}

/// Word `j` of the schedule from the word before it and the word `nk` places back.
fn next_word(prev: &[u8; 4], back: &[u8; 4], j: usize, nk: usize) -> (r: [u8; 4])
    requires
        nk == 4 || nk == 6 || nk == 8,
        nk <= j < 4 * (nk + 7),
    ensures
        r@ == xor_word_spec(back@, schedule_temp(prev@, j as int, nk as int)),
{
    let mut temp: [u8; 4] = *prev;
    if j % nk == 0 {
        let mut rotated: [u8; 4] = [temp[1], temp[2], temp[3], temp[0]];
        assert(rotated@ =~= rot_word(prev@));
        sub_word(&mut rotated);
        assert(1 <= j / nk <= 10);
        let rc: [u8; 4] = [RCON[j / nk - 1], 0, 0, 0];
        assert(rc@ =~= rcon_word(j / nk - 1));
        temp = xor_word(&rotated, &rc);
    } else if nk > 6 && j % nk == 4 {
        sub_word(&mut temp);
    }
    xor_word(back, &temp)
}

/// Expands a key of `nk` words into the `4 * (nr + 1)` words of round keys, as bytes.
pub fn key_expansion(key: &[u8], nk: usize, nr: usize) -> (w: Vec<u8>)
    requires
        supported(nk as int, nr as int),
        key@.len() == 4 * nk,
    ensures
        w@ == key_schedule(key@, nk as nat, nr as nat),
{
    let total: usize = (nr + 1) * 16;
    let ghost ks = key_schedule(key@, nk as nat, nr as nat);
    let mut w: Vec<u8> = Vec::with_capacity(total);
    let mut i: usize = 0;
    while i < nk * 4
        invariant
            supported(nk as int, nr as int),
            key@.len() == 4 * nk,
            total == 16 * (nr + 1),
            ks == key_schedule(key@, nk as nat, nr as nat),
            0 <= i <= 4 * nk,
            w@ == ks.subrange(0, i as int),
        decreases 4 * nk - i,
    {
        proof {
            let j = i as int / 4;
            let k = i as int % 4;
            lemma_schedule_byte(key@, nk as nat, nr as nat, j, k);
            reveal_with_fuel(schedule_word, 1);
            assert(ks[i as int] == key@[i as int]);
        }
        w.push(key[i]);
        i = i + 1;
        assert(w@ =~= ks.subrange(0, i as int));
    }

    while i < total
        invariant
            supported(nk as int, nr as int),
            key@.len() == 4 * nk,
            total == 16 * (nr + 1),
            ks == key_schedule(key@, nk as nat, nr as nat),
            4 * nk <= i <= total,
            i % 4 == 0,
            w@ == ks.subrange(0, i as int),
        decreases total - i,
    {
        let j: usize = i / 4;
        let prev: [u8; 4] = [w[i - 4], w[i - 3], w[i - 2], w[i - 1]];
        let back: [u8; 4] = [w[i - nk * 4], w[i - nk * 4 + 1], w[i - nk * 4 + 2], w[i - nk * 4 + 3]];
        proof {
            let pw = schedule_word(key@, nk as nat, (j - 1) as nat);
            let bw = schedule_word(key@, nk as nat, (j - nk) as nat);
            assert forall|k: int| 0 <= k < 4 implies #[trigger] prev@[k] == pw[k] by {
                lemma_schedule_byte(key@, nk as nat, nr as nat, j - 1, k);
            }
            assert forall|k: int| 0 <= k < 4 implies #[trigger] back@[k] == bw[k] by {
                lemma_schedule_byte(key@, nk as nat, nr as nat, j - nk, k);
            }
            lemma_schedule_word_len(key@, nk as nat, (j - 1) as nat);
            lemma_schedule_word_len(key@, nk as nat, (j - nk) as nat);
            assert(prev@ =~= pw);
            assert(back@ =~= bw);
        }
        let x = next_word(&prev, &back, j, nk);
        proof {
            lemma_schedule_word_next(key@, nk as nat, j as nat);
            assert(x@ == schedule_word(key@, nk as nat, j as nat));
            assert forall|k: int| 0 <= k < 4 implies #[trigger] ks[i + k] == x@[k] by {
                lemma_schedule_byte(key@, nk as nat, nr as nat, j as int, k);
            }
        }
        w.push(x[0]);
        w.push(x[1]);
        w.push(x[2]);
        w.push(x[3]);
        i = i + 4;
        assert(w@ =~= ks.subrange(0, i as int));
    }
    w
}

/// Round key `r`: bytes `16 * r .. 16 * r + 16` of the expanded key.
pub open spec fn round_key(w: Seq<u8>, r: int) -> Seq<u8> {
    w.subrange(16 * r, 16 * r + 16)
}

/// The state after the first `n` full rounds (substitute, shift, mix, add key `1..=n`).
pub open spec fn encrypt_rounds(s: Seq<u8>, w: Seq<u8>, n: nat) -> Seq<u8>
    decreases n,
{
    if n == 0 {
        s
    } else {
        add_round_key_spec(
            mix_columns_spec(shift_rows_spec(sub_bytes_spec(encrypt_rounds(s, w, (n - 1) as nat)))),
            round_key(w, n as int),
        )
    }
}

/// The state after the inverse rounds `n` down to `1` (inverse shift, inverse substitute,
/// add key, inverse mix).
pub open spec fn decrypt_rounds(s: Seq<u8>, w: Seq<u8>, n: nat) -> Seq<u8>
    decreases n,
{
    if n == 0 {
        s
    } else {
        decrypt_rounds(
            inv_mix_columns_spec(
                add_round_key_spec(inv_sub_bytes_spec(inv_shift_rows_spec(s)), round_key(w, n as int)),
            ),
            w,
            (n - 1) as nat,
        )
    }
}

/// The forward cipher of one block under the expanded key `w` with `nr` rounds.
pub open spec fn cipher_spec(input: Seq<u8>, w: Seq<u8>, nr: nat) -> Seq<u8> {
    let s = encrypt_rounds(add_round_key_spec(input, round_key(w, 0)), w, (nr - 1) as nat);
    add_round_key_spec(shift_rows_spec(sub_bytes_spec(s)), round_key(w, nr as int))
}

/// The inverse cipher of one block under the expanded key `w` with `nr` rounds.
pub open spec fn inv_cipher_spec(input: Seq<u8>, w: Seq<u8>, nr: nat) -> Seq<u8> {
    let s = decrypt_rounds(add_round_key_spec(input, round_key(w, nr as int)), w, (nr - 1) as nat);
    add_round_key_spec(inv_sub_bytes_spec(inv_shift_rows_spec(s)), round_key(w, 0))
}

/// What `cipher` and `inv_cipher` return for a block: the refusal, if any, else `out`.
pub open spec fn checked(nk: int, nr: int, key: Seq<u8>, out: Seq<u8>) -> Result<
    Seq<u8>,
    CipherError,
> {
    if !supported(nk, nr) {
        Err(CipherError::UnsupportedRoundCount)
    } else if key.len() != 4 * nk {
        Err(CipherError::KeyLengthMismatch)
    } else {
        Ok(out)
    }
}

/// Encrypts one block with a key of `nk` words over `nr` rounds.
pub fn cipher(input: [u8; 16], nk: usize, nr: usize, key: &Vec<u8>) -> (r: Result<
    [u8; 16],
    CipherError,
>)
    ensures
        match r {
            Ok(out) => checked(
                nk as int,
                nr as int,
                key@,
                cipher_spec(input@, key_schedule(key@, nk as nat, nr as nat), nr as nat),
            ) == Ok::<Seq<u8>, CipherError>(out@),
            Err(e) => checked(nk as int, nr as int, key@, input@) == Err::<Seq<u8>, CipherError>(e),
        },
{
    if !((nk == 4 && nr == 10) || (nk == 6 && nr == 12) || (nk == 8 && nr == 14)) {
        return Err(CipherError::UnsupportedRoundCount);
    }
    if key.len() != 4 * nk {
        return Err(CipherError::KeyLengthMismatch);
    }
    let w = key_expansion(key.as_slice(), nk, nr);
    let ghost s0 = add_round_key_spec(input@, round_key(w@, 0));
    let mut state = State::from(input);
    state.add_round_key(&w.as_slice()[0..16]);
    assert(state@ == s0);

    let mut round: usize = 1;
    while round < nr
        invariant
            supported(nk as int, nr as int),
            w@.len() == 16 * (nr + 1),
            1 <= round <= nr,
            state@ == encrypt_rounds(s0, w@, (round - 1) as nat),
        decreases nr - round,
    {
        state.sub_bytes();
        state.shift_rows();
        state.mix_columns();
        state.add_round_key(&w.as_slice()[16 * round..16 * (round + 1)]);
        round = round + 1;
    }

    state.sub_bytes();
    state.shift_rows();
    state.add_round_key(&w.as_slice()[16 * nr..16 * (nr + 1)]);

    let out = <[u8; 16]>::from(state);
    Ok(out)
}

/// Decrypts one block with a key of `nk` words over `nr` rounds.
pub fn inv_cipher(input: [u8; 16], nk: usize, nr: usize, key: &Vec<u8>) -> (r: Result<
    [u8; 16],
    CipherError,
>)
    ensures
        match r {
            Ok(out) => checked(
                nk as int,
                nr as int,
                key@,
                inv_cipher_spec(input@, key_schedule(key@, nk as nat, nr as nat), nr as nat),
            ) == Ok::<Seq<u8>, CipherError>(out@),
            Err(e) => checked(nk as int, nr as int, key@, input@) == Err::<Seq<u8>, CipherError>(e),
        },
{
    if !((nk == 4 && nr == 10) || (nk == 6 && nr == 12) || (nk == 8 && nr == 14)) {
        return Err(CipherError::UnsupportedRoundCount);
    }
    if key.len() != 4 * nk {
        return Err(CipherError::KeyLengthMismatch);
    }
    let w = key_expansion(key.as_slice(), nk, nr);
    let ghost s0 = add_round_key_spec(input@, round_key(w@, nr as int));
    let mut state = State::from(input);
    state.add_round_key(&w.as_slice()[16 * nr..16 * (nr + 1)]);
    assert(state@ == s0);

    let mut round: usize = nr - 1;
    while round > 0
        invariant
            supported(nk as int, nr as int),
            w@.len() == 16 * (nr + 1),
            0 <= round < nr,
            decrypt_rounds(state@, w@, round as nat) == decrypt_rounds(s0, w@, (nr - 1) as nat),
        decreases round,
    {
        let ghost before = state@;
        state.inv_shift_rows();
        state.inv_sub_bytes();
        state.add_round_key(&w.as_slice()[16 * round..16 * (round + 1)]);
        state.inv_mix_columns();
        assert(decrypt_rounds(before, w@, round as nat) == decrypt_rounds(
            state@,
            w@,
            (round - 1) as nat,
        ));
        round = round - 1;
    }

    state.inv_shift_rows();
    state.inv_sub_bytes();
    state.add_round_key(&w.as_slice()[0..16]);

    let out = <[u8; 16]>::from(state);
    Ok(out)
}

proof fn lemma_decrypt_rounds_undo(t: Seq<u8>, w: Seq<u8>, n: nat)
    requires
        t.len() == 16,
        w.len() >= 16 * (n + 1),
    ensures
        decrypt_rounds(shift_rows_spec(sub_bytes_spec(encrypt_rounds(t, w, n))), w, n)
            == shift_rows_spec(sub_bytes_spec(t)),
    decreases n,
{
    if n > 0 {
        let e = encrypt_rounds(t, w, (n - 1) as nat);
        let p = shift_rows_spec(sub_bytes_spec(e));
        let x = encrypt_rounds(t, w, n);
        let k = round_key(w, n as int);
        assert(x == add_round_key_spec(mix_columns_spec(p), k));
        crate::state::lemma_shift_rows_round_trip(sub_bytes_spec(x));
        crate::state::lemma_sub_bytes_round_trip(x);
        crate::state::lemma_add_round_key_twice(mix_columns_spec(p), k);
        crate::state::lemma_mix_columns_round_trip(p);
        assert(inv_mix_columns_spec(
            add_round_key_spec(
                inv_sub_bytes_spec(inv_shift_rows_spec(shift_rows_spec(sub_bytes_spec(x)))),
                k,
            ),
        ) == p);
        lemma_decrypt_rounds_undo(t, w, (n - 1) as nat);
    }
}

/// Decryption undoes encryption: for every supported key size and round count, every key of
/// that size and every block, the inverse cipher of the cipher of the block is the block.
pub proof fn lemma_cipher_round_trip(block: Seq<u8>, nk: nat, nr: nat, key: Seq<u8>)
    requires
        supported(nk as int, nr as int),
        key.len() == 4 * nk,
        block.len() == 16,
    ensures
        inv_cipher_spec(cipher_spec(block, key_schedule(key, nk, nr), nr), key_schedule(key, nk, nr), nr)
            == block,
{
    let w = key_schedule(key, nk, nr);
    let k0 = round_key(w, 0);
    let kn = round_key(w, nr as int);
    let t = add_round_key_spec(block, k0);
    let c = cipher_spec(block, w, nr);
    let p = shift_rows_spec(sub_bytes_spec(encrypt_rounds(t, w, (nr - 1) as nat)));
    crate::state::lemma_add_round_key_twice(p, kn);
    assert(add_round_key_spec(c, kn) == p);
    lemma_decrypt_rounds_undo(t, w, (nr - 1) as nat);
    crate::state::lemma_shift_rows_round_trip(sub_bytes_spec(t));
    crate::state::lemma_sub_bytes_round_trip(t);
    crate::state::lemma_add_round_key_twice(block, k0);
}

} // verus!
