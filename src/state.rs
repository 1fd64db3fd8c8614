use vstd::prelude::*;
use crate::gf::{gf_mul, mult};
use crate::sbox::{inv_s_box, inv_s_box_spec, s_box, s_box_spec};

verus! {

/// The cipher state: sixteen bytes, column-major, byte `4 * c + r` at row `r`, column `c`.
#[derive(Debug)]
pub struct State {
    inner: [u8; 16],
}

impl View for State {
    type V = Seq<u8>;

    closed spec fn view(&self) -> Seq<u8> {
        self.inner@
    }
}

impl From<[u8; 16]> for State {
    fn from(inner: [u8; 16]) -> (r: Self) {
        Self { inner }
    }
}

impl vstd::std_specs::convert::FromSpecImpl<[u8; 16]> for State {
    open spec fn obeys_from_spec() -> bool {
        true
    }

    closed spec fn from_spec(v: [u8; 16]) -> Self {
        State { inner: v }
    }
}

impl From<State> for [u8; 16] {
    fn from(value: State) -> (r: Self) {
        value.inner
    }
}

impl vstd::std_specs::convert::FromSpecImpl<State> for [u8; 16] {
    open spec fn obeys_from_spec() -> bool {
        true
    }

    closed spec fn from_spec(v: State) -> Self {
        v.inner
    }
}

/// A state built from a block holds the block.
pub broadcast proof fn lemma_state_from_block(v: [u8; 16])
    ensures
        (#[trigger] <State as vstd::std_specs::convert::FromSpec<[u8; 16]>>::from_spec(v))@
            == v@,
{
}

/// A block taken from a state holds the state.
pub broadcast proof fn lemma_block_from_state(s: State)
    ensures
        (#[trigger] <[u8; 16] as vstd::std_specs::convert::FromSpec<State>>::from_spec(s))@
            == s@,
{
}

pub broadcast group group_block_conversions {
    lemma_state_from_block,
    lemma_block_from_state,
}

impl Default for State {
    fn default() -> (r: Self)
        ensures
            r@ == Seq::new(16, |i: int| 0u8),
    {
        Self::new()
    }
}

impl PartialEq for State {
    fn eq(&self, o: &State) -> (r: bool) {
        let mut i: usize = 0;
        while i < 16
            invariant
                0 <= i <= 16,
                self.inner@.len() == 16,
                o.inner@.len() == 16,
                forall|j: int| 0 <= j < i ==> self.inner@[j] == o.inner@[j],
            decreases 16 - i,
        {
            if self.inner[i] != o.inner[i] {
                return false;
            }
            i = i + 1;
        }
        assert(self.inner@ =~= o.inner@);
        true
    }
}

impl vstd::std_specs::cmp::PartialEqSpecImpl for State {
    open spec fn obeys_eq_spec() -> bool {
        true
    }

    open spec fn eq_spec(&self, o: &State) -> bool {
        self@ == o@
    }
}

impl Eq for State {
}

/// Each byte of the state through the substitution box.
pub open spec fn sub_bytes_spec(s: Seq<u8>) -> Seq<u8> {
    Seq::new(16, |i: int| s_box_spec(s[i]))
}

/// Each byte of the state through the inverse substitution box.
pub open spec fn inv_sub_bytes_spec(s: Seq<u8>) -> Seq<u8> {
    Seq::new(16, |i: int| inv_s_box_spec(s[i]))
}

/// Row `r` rotated left by `r` positions: position `4 * c + r` takes column `(c + r) mod 4`.
pub open spec fn shift_rows_spec(s: Seq<u8>) -> Seq<u8> {
    Seq::new(16, |i: int| s[4 * ((i / 4 + i % 4) % 4) + i % 4])
}

/// Row `r` rotated right by `r` positions.
pub open spec fn inv_shift_rows_spec(s: Seq<u8>) -> Seq<u8> {
    Seq::new(16, |i: int| s[4 * ((i / 4 + 4 - i % 4) % 4) + i % 4])
}

/// One column multiplied by the matrix whose rows are rotations of `[02, 03, 01, 01]`.
pub open spec fn mix_column(col: Seq<u8>) -> Seq<u8> {
    seq![
        gf_mul(2, col[0]) ^ gf_mul(3, col[1]) ^ col[2] ^ col[3],
        col[0] ^ gf_mul(2, col[1]) ^ gf_mul(3, col[2]) ^ col[3],
        col[0] ^ col[1] ^ gf_mul(2, col[2]) ^ gf_mul(3, col[3]),
        gf_mul(3, col[0]) ^ col[1] ^ col[2] ^ gf_mul(2, col[3]),
    ]
}

/// One column multiplied by the matrix whose rows are rotations of `[0e, 0b, 0d, 09]`.
pub open spec fn inv_mix_column(col: Seq<u8>) -> Seq<u8> {
    seq![
        gf_mul(0x0e, col[0]) ^ gf_mul(0x0b, col[1]) ^ gf_mul(0x0d, col[2]) ^ gf_mul(0x09, col[3]),
        gf_mul(0x09, col[0]) ^ gf_mul(0x0e, col[1]) ^ gf_mul(0x0b, col[2]) ^ gf_mul(0x0d, col[3]),
        gf_mul(0x0d, col[0]) ^ gf_mul(0x09, col[1]) ^ gf_mul(0x0e, col[2]) ^ gf_mul(0x0b, col[3]),
        gf_mul(0x0b, col[0]) ^ gf_mul(0x0d, col[1]) ^ gf_mul(0x09, col[2]) ^ gf_mul(0x0e, col[3]),
    ]
}

/// Column `c` (bytes `4 * c .. 4 * c + 4`) of a state.
pub open spec fn column(s: Seq<u8>, c: int) -> Seq<u8> {
    s.subrange(4 * c, 4 * c + 4)
}

/// Every column mixed.
pub open spec fn mix_columns_spec(s: Seq<u8>) -> Seq<u8> {
    Seq::new(16, |i: int| mix_column(column(s, i / 4))[i % 4])
}

/// Every column mixed by the inverse matrix.
pub open spec fn inv_mix_columns_spec(s: Seq<u8>) -> Seq<u8> {
    Seq::new(16, |i: int| inv_mix_column(column(s, i / 4))[i % 4])
}

/// The state XOR the first sixteen bytes of `k`.
pub open spec fn add_round_key_spec(s: Seq<u8>, k: Seq<u8>) -> Seq<u8> {
    Seq::new(16, |i: int| s[i] ^ k[i])
}

impl State {
    /// The all-zero state.
    pub fn new() -> (r: Self)
        ensures
            r@ == Seq::new(16, |i: int| 0u8),
    {
        let r = Self { inner: [0u8; 16] };
        assert(r@ =~= Seq::new(16, |i: int| 0u8));
        r
    }

    /// Substitutes every byte.
    pub fn sub_bytes(&mut self)
        ensures
            final(self)@ == sub_bytes_spec(old(self)@),
    {
        let ghost s0 = self.inner@;
        let mut i: usize = 0;
        while i < 16
            invariant
                0 <= i <= 16,
                self.inner@.len() == 16,
                s0.len() == 16,
                forall|j: int| 0 <= j < i ==> self.inner@[j] == s_box_spec(s0[j]),
                forall|j: int| i <= j < 16 ==> self.inner@[j] == s0[j],
            decreases 16 - i,
        {
            let b = s_box(self.inner[i]);
            self.inner[i] = b;
            i = i + 1;
        }
        assert(self.inner@ =~= sub_bytes_spec(s0));
    }

    /// Undoes `sub_bytes`, byte by byte.
    pub fn inv_sub_bytes(&mut self)
        ensures
            final(self)@ == inv_sub_bytes_spec(old(self)@),
    {
        let ghost s0 = self.inner@;
        let mut i: usize = 0;
        while i < 16
            invariant
                0 <= i <= 16,
                self.inner@.len() == 16,
                s0.len() == 16,
                forall|j: int| 0 <= j < i ==> self.inner@[j] == inv_s_box_spec(s0[j]),
                forall|j: int| i <= j < 16 ==> self.inner@[j] == s0[j],
            decreases 16 - i,
        {
            let b = inv_s_box(self.inner[i]);
            self.inner[i] = b;
            i = i + 1;
        }
        assert(self.inner@ =~= inv_sub_bytes_spec(s0));
    }

    /// Rotates row `r` left by `r` positions.
    pub fn shift_rows(&mut self)
        ensures
            final(self)@ == shift_rows_spec(old(self)@),
    {
        let mut out = [0u8; 16];

        out[0] = self.inner[0];
        out[4] = self.inner[4];
        out[8] = self.inner[8];
        out[12] = self.inner[12];

        out[1] = self.inner[5];
        out[5] = self.inner[9];
        out[9] = self.inner[13];
        out[13] = self.inner[1];

        out[2] = self.inner[10];
        out[6] = self.inner[14];
        out[10] = self.inner[2];
        out[14] = self.inner[6];

        out[3] = self.inner[15];
        out[7] = self.inner[3];
        out[11] = self.inner[7];
        out[15] = self.inner[11];

        assert(out@ =~= shift_rows_spec(self.inner@));
        self.inner = out;
    }

    /// Rotates row `r` right by `r` positions.
    pub fn inv_shift_rows(&mut self)
        ensures
            final(self)@ == inv_shift_rows_spec(old(self)@),
    {
        let mut out = [0u8; 16];

        out[0] = self.inner[0];
        out[4] = self.inner[4];
        out[8] = self.inner[8];
        out[12] = self.inner[12];

        out[1] = self.inner[13];
        out[5] = self.inner[1];
        out[9] = self.inner[5];
        out[13] = self.inner[9];

        out[2] = self.inner[10];
        out[6] = self.inner[14];
        out[10] = self.inner[2];
        out[14] = self.inner[6];

        out[3] = self.inner[7];
        out[7] = self.inner[11];
        out[11] = self.inner[15];
        out[15] = self.inner[3];

        assert(out@ =~= inv_shift_rows_spec(self.inner@));
        self.inner = out;
    }
}

impl State {
    /// Multiplies every column by the mixing matrix.
    pub fn mix_columns(&mut self)
        ensures
            final(self)@ == mix_columns_spec(old(self)@),
    {
        let ghost s0 = self.inner@;
        let mut i: usize = 0;
        while i < 4
            invariant
                0 <= i <= 4,
                self.inner@.len() == 16,
                s0.len() == 16,
                forall|j: int| 0 <= j < 4 * i ==> self.inner@[j] == mix_columns_spec(s0)[j],
                forall|j: int| 4 * i <= j < 16 ==> self.inner@[j] == s0[j],
            decreases 4 - i,
        {
            let s0b = self.inner[i * 4];
            let s1b = self.inner[i * 4 + 1];
            let s2b = self.inner[i * 4 + 2];
            let s3b = self.inner[i * 4 + 3];
            proof {
                assert(column(s0, i as int) =~= seq![s0b, s1b, s2b, s3b]);
            }

            self.inner[i * 4] = mult(0x02, s0b) ^ mult(0x03, s1b) ^ s2b ^ s3b;
            self.inner[i * 4 + 1] = s0b ^ mult(0x02, s1b) ^ mult(0x03, s2b) ^ s3b;
            self.inner[i * 4 + 2] = s0b ^ s1b ^ mult(0x02, s2b) ^ mult(0x03, s3b);
            self.inner[i * 4 + 3] = mult(0x03, s0b) ^ s1b ^ s2b ^ mult(0x02, s3b);
            i = i + 1;
        }
        assert(self.inner@ =~= mix_columns_spec(s0));
    }

    /// Multiplies every column by the inverse mixing matrix.
    pub fn inv_mix_columns(&mut self)
        ensures
            final(self)@ == inv_mix_columns_spec(old(self)@),
    {
        let ghost s0 = self.inner@;
        let mut i: usize = 0;
        while i < 4
            invariant
                0 <= i <= 4,
                self.inner@.len() == 16,
                s0.len() == 16,
                forall|j: int| 0 <= j < 4 * i ==> self.inner@[j] == inv_mix_columns_spec(s0)[j],
                forall|j: int| 4 * i <= j < 16 ==> self.inner@[j] == s0[j],
            decreases 4 - i,
        {
            let s0b = self.inner[i * 4];
            let s1b = self.inner[i * 4 + 1];
            let s2b = self.inner[i * 4 + 2];
            let s3b = self.inner[i * 4 + 3];
            proof {
                assert(column(s0, i as int) =~= seq![s0b, s1b, s2b, s3b]);
            }

            self.inner[i * 4] = mult(0x0e, s0b) ^ mult(0x0b, s1b) ^ mult(0x0d, s2b) ^ mult(0x09, s3b);
            self.inner[i * 4 + 1] = mult(0x09, s0b) ^ mult(0x0e, s1b) ^ mult(0x0b, s2b) ^ mult(
                0x0d,
                s3b,
            );
            self.inner[i * 4 + 2] = mult(0x0d, s0b) ^ mult(0x09, s1b) ^ mult(0x0e, s2b) ^ mult(
                0x0b,
                s3b,
            );
            self.inner[i * 4 + 3] = mult(0x0b, s0b) ^ mult(0x0d, s1b) ^ mult(0x09, s2b) ^ mult(
                0x0e,
                s3b,
            );
            i = i + 1;
        }
        assert(self.inner@ =~= inv_mix_columns_spec(s0));
    }

    /// XORs the first sixteen bytes of `w` into the state.
    pub fn add_round_key(&mut self, w: &[u8])
        requires
            w@.len() >= 16,
        ensures
            final(self)@ == add_round_key_spec(old(self)@, w@),
    {
        let ghost s0 = self.inner@;
        let mut c: usize = 0;
        while c < 4
            invariant
                0 <= c <= 4,
                w@.len() >= 16,
                self.inner@.len() == 16,
                s0.len() == 16,
                forall|j: int| 0 <= j < 4 * c ==> self.inner@[j] == s0[j] ^ w@[j],
                forall|j: int| 4 * c <= j < 16 ==> self.inner@[j] == s0[j],
            decreases 4 - c,
        {
            self.inner[c * 4] = self.inner[c * 4] ^ w[c * 4];
            self.inner[c * 4 + 1] = self.inner[c * 4 + 1] ^ w[c * 4 + 1];
            self.inner[c * 4 + 2] = self.inner[c * 4 + 2] ^ w[c * 4 + 2];
            self.inner[c * 4 + 3] = self.inner[c * 4 + 3] ^ w[c * 4 + 3];
            c = c + 1;
        }
        assert(self.inner@ =~= add_round_key_spec(s0, w@));
    }
}

#[verifier::rlimit(100)]
proof fn lemma_mix_bytes_round_trip_0(a: u8, b: u8, c: u8, d: u8, m0: u8, m1: u8, m2: u8, m3: u8)
    by (bit_vector)
    requires
        m0 == gf_mul(2, a) ^ gf_mul(3, b) ^ c ^ d,
        m1 == a ^ gf_mul(2, b) ^ gf_mul(3, c) ^ d,
        m2 == a ^ b ^ gf_mul(2, c) ^ gf_mul(3, d),
        m3 == gf_mul(3, a) ^ b ^ c ^ gf_mul(2, d),
    ensures
        gf_mul(0x0e, m0) ^ gf_mul(0x0b, m1) ^ gf_mul(0x0d, m2) ^ gf_mul(0x09, m3) == a,
{
}

#[verifier::rlimit(100)]
proof fn lemma_mix_bytes_round_trip_1(a: u8, b: u8, c: u8, d: u8, m0: u8, m1: u8, m2: u8, m3: u8)
    by (bit_vector)
    requires
        m0 == gf_mul(2, a) ^ gf_mul(3, b) ^ c ^ d,
        m1 == a ^ gf_mul(2, b) ^ gf_mul(3, c) ^ d,
        m2 == a ^ b ^ gf_mul(2, c) ^ gf_mul(3, d),
        m3 == gf_mul(3, a) ^ b ^ c ^ gf_mul(2, d),
    ensures
        gf_mul(0x09, m0) ^ gf_mul(0x0e, m1) ^ gf_mul(0x0b, m2) ^ gf_mul(0x0d, m3) == b,
{
}

#[verifier::rlimit(100)]
proof fn lemma_mix_bytes_round_trip_2(a: u8, b: u8, c: u8, d: u8, m0: u8, m1: u8, m2: u8, m3: u8)
    by (bit_vector)
    requires
        m0 == gf_mul(2, a) ^ gf_mul(3, b) ^ c ^ d,
        m1 == a ^ gf_mul(2, b) ^ gf_mul(3, c) ^ d,
        m2 == a ^ b ^ gf_mul(2, c) ^ gf_mul(3, d),
        m3 == gf_mul(3, a) ^ b ^ c ^ gf_mul(2, d),
    ensures
        gf_mul(0x0d, m0) ^ gf_mul(0x09, m1) ^ gf_mul(0x0e, m2) ^ gf_mul(0x0b, m3) == c,
{
}

#[verifier::rlimit(100)]
proof fn lemma_mix_bytes_round_trip_3(a: u8, b: u8, c: u8, d: u8, m0: u8, m1: u8, m2: u8, m3: u8)
    by (bit_vector)
    requires
        m0 == gf_mul(2, a) ^ gf_mul(3, b) ^ c ^ d,
        m1 == a ^ gf_mul(2, b) ^ gf_mul(3, c) ^ d,
        m2 == a ^ b ^ gf_mul(2, c) ^ gf_mul(3, d),
        m3 == gf_mul(3, a) ^ b ^ c ^ gf_mul(2, d),
    ensures
        gf_mul(0x0b, m0) ^ gf_mul(0x0d, m1) ^ gf_mul(0x09, m2) ^ gf_mul(0x0e, m3) == d,
{
}

/// Inverse column mixing undoes column mixing on every four-byte column.
#[verifier::spinoff_prover]
pub proof fn lemma_mix_column_round_trip(col: Seq<u8>)
    requires
        col.len() == 4,
    ensures
        inv_mix_column(mix_column(col)) == col,
{
    let (a, b, c, d) = (col[0], col[1], col[2], col[3]);
    let m = mix_column(col);
    let (m0, m1, m2, m3) = (m[0], m[1], m[2], m[3]);
    lemma_mix_bytes_round_trip_0(a, b, c, d, m0, m1, m2, m3);
    lemma_mix_bytes_round_trip_1(a, b, c, d, m0, m1, m2, m3);
    lemma_mix_bytes_round_trip_2(a, b, c, d, m0, m1, m2, m3);
    lemma_mix_bytes_round_trip_3(a, b, c, d, m0, m1, m2, m3);
    assert(inv_mix_column(m) =~= col);
}

/// The inverse row shift undoes the row shift on every state.
pub proof fn lemma_shift_rows_round_trip(s: Seq<u8>)
    requires
        s.len() == 16,
    ensures
        inv_shift_rows_spec(shift_rows_spec(s)) == s,
{
    assert(inv_shift_rows_spec(shift_rows_spec(s)) =~= s);
}

/// Adding the same round key twice gives the state back.
pub proof fn lemma_add_round_key_twice(s: Seq<u8>, k: Seq<u8>)
    requires
        s.len() == 16,
        k.len() >= 16,
    ensures
        add_round_key_spec(add_round_key_spec(s, k), k) == s,
{
    assert forall|i: int| 0 <= i < 16 implies #[trigger] add_round_key_spec(
        add_round_key_spec(s, k),
        k,
    )[i] == s[i] by {
        let (x, y) = (s[i], k[i]);
        assert(x ^ y ^ y == x) by (bit_vector);
    }
    assert(add_round_key_spec(add_round_key_spec(s, k), k) =~= s);
}

/// Inverse byte substitution undoes byte substitution on every state.
pub proof fn lemma_sub_bytes_round_trip(s: Seq<u8>)
    requires
        s.len() == 16,
    ensures
        inv_sub_bytes_spec(sub_bytes_spec(s)) == s,
{
    assert forall|i: int| 0 <= i < 16 implies #[trigger] inv_sub_bytes_spec(sub_bytes_spec(s))[i]
        == s[i] by {
        crate::sbox::lemma_s_box_round_trip(s[i]);
    }
    assert(inv_sub_bytes_spec(sub_bytes_spec(s)) =~= s);
}

/// Inverse column mixing undoes column mixing on every state.
pub proof fn lemma_mix_columns_round_trip(s: Seq<u8>)
    requires
        s.len() == 16,
    ensures
        inv_mix_columns_spec(mix_columns_spec(s)) == s,
{
    let m = mix_columns_spec(s);
    assert forall|c: int| 0 <= c < 4 implies #[trigger] column(m, c) == mix_column(column(s, c)) by {
        assert(column(m, c) =~= mix_column(column(s, c)));
    }
    assert forall|i: int| 0 <= i < 16 implies #[trigger] inv_mix_columns_spec(m)[i] == s[i] by {
        let c = i / 4;
        assert(column(m, c) == mix_column(column(s, c)));
        lemma_mix_column_round_trip(column(s, c));
    }
    assert(inv_mix_columns_spec(m) =~= s);
}

} // verus!
