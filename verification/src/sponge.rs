//! Duplex sponge construction over the Keccak-F1600 permutation.
//!
//! The sponge state is a 200-byte array evolved by the permutation. A rate
//! prefix of the state is XOR-combined with inputs (`absorb`), read out
//! (`squeeze`), or used as a key stream (`encrypt` / `decrypt`); `commit`
//! applies the permutation and resets the rate cursor so that logically
//! independent message sections cannot interfere.

use vstd::prelude::*;

verus! {

/// Total width of the sponge state in bytes.
pub const STATE_WIDTH: usize = 200;

/// Rate: how many bytes of the state are exposed between permutations.
pub const RATE: usize = 168;

// ---------------------------------------------------------------------------
// Keccak-F1600, specification level.
//
// The state is 25 lanes of 64 bits; lane `i` holds columns `i % 5` and row
// `i / 5`. Each round applies the theta, rho, pi, chi and iota steps.
// ---------------------------------------------------------------------------

/// Column parity used by the theta step.
pub open spec fn keccak_c(l: Seq<u64>, x: int) -> u64 {
    l[x] ^ l[x + 5] ^ l[x + 10] ^ l[x + 15] ^ l[x + 20]
}

/// Rotate a 64-bit lane left by `n < 64` positions.
pub open spec fn rotl(x: u64, n: u64) -> u64 {
    if n == 0 {
        x
    } else {
        (x << n) | (x >> ((64 - n) as u64))
    }
}

/// Column adjustment used by the theta step.
pub open spec fn keccak_d(l: Seq<u64>, x: int) -> u64 {
    keccak_c(l, (x + 4) % 5) ^ rotl(keccak_c(l, (x + 1) % 5), 1)
}

pub open spec fn theta(l: Seq<u64>) -> Seq<u64> {
    Seq::new(25, |i: int| l[i] ^ keccak_d(l, i % 5))
}

/// Source lane feeding destination lane `d` in the combined rho-pi step.
pub open spec fn pi_src(d: int) -> int {
    (d % 5 + 3 * (d / 5)) % 5 + 5 * (d % 5)
}

/// Rotation offset of the rho step, indexed by the source lane.
pub open spec fn rho_rot(i: int) -> u64 {
    if i == 0 { 0 } else if i == 1 { 1 } else if i == 2 { 62 } else if i == 3 { 28 }
    else if i == 4 { 27 } else if i == 5 { 36 } else if i == 6 { 44 } else if i == 7 { 6 }
    else if i == 8 { 55 } else if i == 9 { 20 } else if i == 10 { 3 } else if i == 11 { 10 }
    else if i == 12 { 43 } else if i == 13 { 25 } else if i == 14 { 39 } else if i == 15 { 41 }
    else if i == 16 { 45 } else if i == 17 { 15 } else if i == 18 { 21 } else if i == 19 { 8 }
    else if i == 20 { 18 } else if i == 21 { 2 } else if i == 22 { 61 } else if i == 23 { 56 }
    else { 14 }
}

pub open spec fn rho_pi(l: Seq<u64>) -> Seq<u64> {
    Seq::new(25, |i: int| rotl(l[pi_src(i)], rho_rot(pi_src(i))))
}

pub open spec fn chi(l: Seq<u64>) -> Seq<u64> {
    Seq::new(
        25,
        |i: int| l[i] ^ ((!l[5 * (i / 5) + (i % 5 + 1) % 5]) & l[5 * (i / 5) + (i % 5 + 2) % 5]),
    )
}

/// Round constant of round `r`.
pub open spec fn round_constant(r: int) -> u64 {
    if r == 0 { 0x0000000000000001 } else if r == 1 { 0x0000000000008082 }
    else if r == 2 { 0x800000000000808a } else if r == 3 { 0x8000000080008000 }
    else if r == 4 { 0x000000000000808b } else if r == 5 { 0x0000000080000001 }
    else if r == 6 { 0x8000000080008081 } else if r == 7 { 0x8000000000008009 }
    else if r == 8 { 0x000000000000008a } else if r == 9 { 0x0000000000000088 }
    else if r == 10 { 0x0000000080008009 } else if r == 11 { 0x000000008000000a }
    else if r == 12 { 0x000000008000808b } else if r == 13 { 0x800000000000008b }
    else if r == 14 { 0x8000000000008089 } else if r == 15 { 0x8000000000008003 }
    else if r == 16 { 0x8000000000008002 } else if r == 17 { 0x8000000000000080 }
    else if r == 18 { 0x000000000000800a } else if r == 19 { 0x800000008000000a }
    else if r == 20 { 0x8000000080008081 } else if r == 21 { 0x8000000000008080 }
    else if r == 22 { 0x0000000080000001 } else { 0x8000000080008008 }
}

pub open spec fn keccak_round(l: Seq<u64>, r: int) -> Seq<u64> {
    let after = chi(rho_pi(theta(l)));
    after.update(0, after[0] ^ round_constant(r))
}

pub open spec fn keccak_rounds(l: Seq<u64>, n: nat) -> Seq<u64>
    decreases n,
{
    if n == 0 {
        l
    } else {
        keccak_round(keccak_rounds(l, (n - 1) as nat), n - 1)
    }
}

/// The full 24-round Keccak-F1600 permutation on lanes.
pub open spec fn keccak_f(l: Seq<u64>) -> Seq<u64> {
    keccak_rounds(l, 24)
}

// ---------------------------------------------------------------------------
// Byte <-> lane packing (lanes are little-endian).
// ---------------------------------------------------------------------------

/// Value of the little-endian 64-bit lane starting at byte `base`.
pub open spec fn lane_at(b: Seq<u8>, base: int) -> u64 {
    (b[base] + b[base + 1] * 0x100 + b[base + 2] * 0x1_0000 + b[base + 3] * 0x100_0000
        + b[base + 4] * 0x1_0000_0000 + b[base + 5] * 0x100_0000_0000
        + b[base + 6] * 0x1_0000_0000_0000 + b[base + 7] * 0x100_0000_0000_0000) as u64
}

/// Divisor that isolates byte `j` of a little-endian lane.
pub open spec fn byte_divisor(j: int) -> u64 {
    if j == 0 { 1 } else if j == 1 { 0x100 } else if j == 2 { 0x1_0000 }
    else if j == 3 { 0x100_0000 } else if j == 4 { 0x1_0000_0000 }
    else if j == 5 { 0x100_0000_0000 } else if j == 6 { 0x1_0000_0000_0000 }
    else { 0x100_0000_0000_0000 }
}

pub open spec fn lane_byte(x: u64, j: int) -> u8 {
    ((x / byte_divisor(j)) % 0x100) as u8
}

pub open spec fn state_lanes(b: Seq<u8>) -> Seq<u64> {
    Seq::new(25, |i: int| lane_at(b, 8 * i))
}

pub open spec fn state_bytes(l: Seq<u64>) -> Seq<u8> {
    Seq::new(200, |i: int| lane_byte(l[i / 8], i % 8))
}

/// The permutation as seen by the byte-level sponge.
pub open spec fn permute_bytes(b: Seq<u8>) -> Seq<u8> {
    state_bytes(keccak_f(state_lanes(b)))
}

// ---------------------------------------------------------------------------
// Keccak-F1600, executable level.
// ---------------------------------------------------------------------------

fn rotl_exec(x: u64, n: u64) -> (r: u64)
    requires
        n < 64,
    ensures
        r == rotl(x, n),
{
    if n == 0 {
        x
    } else {
        (x << n) | (x >> ((64 - n) as u64))
    }
}

fn rho_rot_exec(i: usize) -> (r: u64)
    requires
        i < 25,
    ensures
        r == rho_rot(i as int),
        r < 64,
{
    match i {
        0 => 0, 1 => 1, 2 => 62, 3 => 28, 4 => 27,
        5 => 36, 6 => 44, 7 => 6, 8 => 55, 9 => 20,
        10 => 3, 11 => 10, 12 => 43, 13 => 25, 14 => 39,
        15 => 41, 16 => 45, 17 => 15, 18 => 21, 19 => 8,
        20 => 18, 21 => 2, 22 => 61, 23 => 56, _ => 14,
    }
}

fn round_constant_exec(r: usize) -> (c: u64)
    requires
        r < 24,
    ensures
        c == round_constant(r as int),
{
    match r {
        0 => 0x0000000000000001, 1 => 0x0000000000008082,
        2 => 0x800000000000808a, 3 => 0x8000000080008000,
        4 => 0x000000000000808b, 5 => 0x0000000080000001,
        6 => 0x8000000080008081, 7 => 0x8000000000008009,
        8 => 0x000000000000008a, 9 => 0x0000000000000088,
        10 => 0x0000000080008009, 11 => 0x000000008000000a,
        12 => 0x000000008000808b, 13 => 0x800000000000008b,
        14 => 0x8000000000008089, 15 => 0x8000000000008003,
        16 => 0x8000000000008002, 17 => 0x8000000000000080,
        18 => 0x000000000000800a, 19 => 0x800000008000000a,
        20 => 0x8000000080008081, 21 => 0x8000000000008080,
        22 => 0x0000000080000001, _ => 0x8000000080008008,
    }
}

fn theta_exec(l: &Vec<u64>) -> (r: Vec<u64>)
    requires
        l@.len() == 25,
    ensures
        r@ == theta(l@),
{
    let c0 = l[0] ^ l[5] ^ l[10] ^ l[15] ^ l[20];
    let c1 = l[1] ^ l[6] ^ l[11] ^ l[16] ^ l[21];
    let c2 = l[2] ^ l[7] ^ l[12] ^ l[17] ^ l[22];
    let c3 = l[3] ^ l[8] ^ l[13] ^ l[18] ^ l[23];
    let c4 = l[4] ^ l[9] ^ l[14] ^ l[19] ^ l[24];
    proof {
        assert(c0 == keccak_c(l@, 0));
        assert(c1 == keccak_c(l@, 1));
        assert(c2 == keccak_c(l@, 2));
        assert(c3 == keccak_c(l@, 3));
        assert(c4 == keccak_c(l@, 4));
    }
    let d0 = c4 ^ rotl_exec(c1, 1);
    let d1 = c0 ^ rotl_exec(c2, 1);
    let d2 = c1 ^ rotl_exec(c3, 1);
    let d3 = c2 ^ rotl_exec(c4, 1);
    let d4 = c3 ^ rotl_exec(c0, 1);
    let mut out: Vec<u64> = Vec::new();
    let mut i: usize = 0;
    while i < 25
        invariant
            l@.len() == 25,
            i <= 25,
            out@.len() == i,
            forall|j: int| 0 <= j < i ==> out@[j] == theta(l@)[j],
            d0 == keccak_d(l@, 0),
            d1 == keccak_d(l@, 1),
            d2 == keccak_d(l@, 2),
            d3 == keccak_d(l@, 3),
            d4 == keccak_d(l@, 4),
        decreases 25 - i,
    {
        let col = i % 5;
        let d = if col == 0 { d0 } else if col == 1 { d1 } else if col == 2 { d2 }
            else if col == 3 { d3 } else { d4 };
        out.push(l[i] ^ d);
        i = i + 1;
    }
    proof {
        assert(out@ =~= theta(l@));
    }
    out
}

fn rho_pi_exec(l: &Vec<u64>) -> (r: Vec<u64>)
    requires
        l@.len() == 25,
    ensures
        r@ == rho_pi(l@),
{
    let mut out: Vec<u64> = Vec::new();
    let mut i: usize = 0;
    while i < 25
        invariant
            l@.len() == 25,
            i <= 25,
            out@.len() == i,
            forall|j: int| 0 <= j < i ==> out@[j] == rho_pi(l@)[j],
        decreases 25 - i,
    {
        let s = (i % 5 + 3 * (i / 5)) % 5 + 5 * (i % 5);
        proof {
            assert(s == pi_src(i as int));
            assert(s < 25);
        }
        let amt = rho_rot_exec(s);
        out.push(rotl_exec(l[s], amt));
        i = i + 1;
    }
    proof {
        assert(out@ =~= rho_pi(l@));
    }
    out
}

fn chi_exec(l: &Vec<u64>) -> (r: Vec<u64>)
    requires
        l@.len() == 25,
    ensures
        r@ == chi(l@),
{
    let mut out: Vec<u64> = Vec::new();
    let mut i: usize = 0;
    while i < 25
        invariant
            l@.len() == 25,
            i <= 25,
            out@.len() == i,
            forall|j: int| 0 <= j < i ==> out@[j] == chi(l@)[j],
        decreases 25 - i,
    {
        let row = i / 5;
        let col = i % 5;
        let n1 = 5 * row + (col + 1) % 5;
        let n2 = 5 * row + (col + 2) % 5;
        out.push(l[i] ^ ((!l[n1]) & l[n2]));
        i = i + 1;
    }
    proof {
        assert(out@ =~= chi(l@));
    }
    out
}

fn keccak_round_exec(l: &Vec<u64>, r: usize) -> (out: Vec<u64>)
    requires
        l@.len() == 25,
        r < 24,
    ensures
        out@ == keccak_round(l@, r as int),
{
    let t = theta_exec(l);
    let p = rho_pi_exec(&t);
    let mut c = chi_exec(&p);
    let rc = round_constant_exec(r);
    let lane0 = c[0] ^ rc;
    c.set(0, lane0);
    proof {
        assert(c@ =~= keccak_round(l@, r as int));
    }
    c
}

fn keccak_f_exec(l: Vec<u64>) -> (out: Vec<u64>)
    requires
        l@.len() == 25,
    ensures
        out@ == keccak_f(l@),
{
    let ghost init = l@;
    let mut cur = l;
    let mut r: usize = 0;
    while r < 24
        invariant
            r <= 24,
            cur@.len() == 25,
            cur@ == keccak_rounds(init, r as nat),
        decreases 24 - r,
    {
        cur = keccak_round_exec(&cur, r);
        r = r + 1;
    }
    cur
}

fn lane_from_bytes(b: &Vec<u8>, base: usize) -> (x: u64)
    requires
        b@.len() == 200,
        base + 8 <= 200,
    ensures
        x == lane_at(b@, base as int),
{
    (b[base] as u64) + (b[base + 1] as u64) * 0x100 + (b[base + 2] as u64) * 0x1_0000
        + (b[base + 3] as u64) * 0x100_0000 + (b[base + 4] as u64) * 0x1_0000_0000
        + (b[base + 5] as u64) * 0x100_0000_0000 + (b[base + 6] as u64) * 0x1_0000_0000_0000
        + (b[base + 7] as u64) * 0x100_0000_0000_0000
}

fn lane_byte_exec(x: u64, j: usize) -> (b: u8)
    requires
        j < 8,
    ensures
        b == lane_byte(x, j as int),
{
    let d: u64 = match j {
        0 => 1, 1 => 0x100, 2 => 0x1_0000, 3 => 0x100_0000,
        4 => 0x1_0000_0000, 5 => 0x100_0000_0000, 6 => 0x1_0000_0000_0000,
        _ => 0x100_0000_0000_0000,
    };
    proof {
        assert(d == byte_divisor(j as int));
    }
    ((x / d) % 0x100) as u8
}

/// Apply Keccak-F1600 to the 200-byte sponge state.
fn permute(state: &mut Vec<u8>)
    requires
        old(state)@.len() == 200,
    ensures
        final(state)@ == permute_bytes(old(state)@),
{
    let mut lanes: Vec<u64> = Vec::new();
    let mut i: usize = 0;
    while i < 25
        invariant
            state@.len() == 200,
            state@ == old(state)@,
            i <= 25,
            lanes@.len() == i,
            forall|j: int| 0 <= j < i ==> lanes@[j] == state_lanes(state@)[j],
        decreases 25 - i,
    {
        lanes.push(lane_from_bytes(state, 8 * i));
        i = i + 1;
    }
    proof {
        assert(lanes@ =~= state_lanes(state@));
    }
    let out_lanes = keccak_f_exec(lanes);
    let mut out: Vec<u8> = Vec::new();
    let mut k: usize = 0;
    while k < 200
        invariant
            out_lanes@.len() == 25,
            out_lanes@ == keccak_f(state_lanes(old(state)@)),
            k <= 200,
            out@.len() == k,
            forall|j: int| 0 <= j < k ==> out@[j] == state_bytes(out_lanes@)[j],
        decreases 200 - k,
    {
        out.push(lane_byte_exec(out_lanes[k / 8], k % 8));
        k = k + 1;
    }
    proof {
        assert(out@ =~= state_bytes(out_lanes@));
    }
    *state = out;
}

// ---------------------------------------------------------------------------
// Spongos: the byte-level duplex state.
// ---------------------------------------------------------------------------

/// Mathematical model of a [`Spongos`]: the state bytes and the rate cursor.
pub struct SpView {
    pub bytes: Seq<u8>,
    pub pos: int,
}

/// A well-formed sponge state: full width, cursor within the rate.
pub open spec fn sp_wf(v: SpView) -> bool {
    v.bytes.len() == 200 && 0 <= v.pos < 168
}

pub open spec fn sp_new() -> SpView {
    SpView { bytes: Seq::new(200, |i: int| 0u8), pos: 0 }
}

pub open spec fn sp_advance(bytes: Seq<u8>, pos: int) -> SpView {
    if pos + 1 == 168 {
        SpView { bytes: permute_bytes(bytes), pos: 0 }
    } else {
        SpView { bytes: bytes, pos: pos + 1 }
    }
}

pub open spec fn sp_absorb_byte(v: SpView, x: u8) -> SpView {
    sp_advance(v.bytes.update(v.pos, v.bytes[v.pos] ^ x), v.pos)
}

pub open spec fn sp_squeeze_byte(v: SpView) -> (SpView, u8) {
    (sp_advance(v.bytes.update(v.pos, 0u8), v.pos), v.bytes[v.pos])
}

/// Encryption of one byte: the key-stream byte is the rate byte; the
/// ciphertext is absorbed in its place.
pub open spec fn sp_encrypt_byte(v: SpView, p: u8) -> (SpView, u8) {
    let c = p ^ v.bytes[v.pos];
    (sp_advance(v.bytes.update(v.pos, v.bytes[v.pos] ^ c), v.pos), c)
}

pub open spec fn sp_decrypt_byte(v: SpView, c: u8) -> (SpView, u8) {
    let p = c ^ v.bytes[v.pos];
    (sp_advance(v.bytes.update(v.pos, v.bytes[v.pos] ^ c), v.pos), p)
}

pub open spec fn sp_absorb(v: SpView, data: Seq<u8>) -> SpView
    decreases data.len(),
{
    if data.len() == 0 {
        v
    } else {
        sp_absorb_byte(sp_absorb(v, data.drop_last()), data.last())
    }
}

pub open spec fn sp_squeeze(v: SpView, n: nat) -> (SpView, Seq<u8>)
    decreases n,
{
    if n == 0 {
        (v, Seq::empty())
    } else {
        let prev = sp_squeeze(v, (n - 1) as nat);
        let step = sp_squeeze_byte(prev.0);
        (step.0, prev.1.push(step.1))
    }
}

pub open spec fn sp_encrypt(v: SpView, plain: Seq<u8>) -> (SpView, Seq<u8>)
    decreases plain.len(),
{
    if plain.len() == 0 {
        (v, Seq::empty())
    } else {
        let prev = sp_encrypt(v, plain.drop_last());
        let step = sp_encrypt_byte(prev.0, plain.last());
        (step.0, prev.1.push(step.1))
    }
}

pub open spec fn sp_decrypt(v: SpView, cipher: Seq<u8>) -> (SpView, Seq<u8>)
    decreases cipher.len(),
{
    if cipher.len() == 0 {
        (v, Seq::empty())
    } else {
        let prev = sp_decrypt(v, cipher.drop_last());
        let step = sp_decrypt_byte(prev.0, cipher.last());
        (step.0, prev.1.push(step.1))
    }
}

pub open spec fn sp_commit(v: SpView) -> SpView {
    if v.pos == 0 {
        v
    } else {
        SpView { bytes: permute_bytes(v.bytes), pos: 0 }
    }
}

pub open spec fn sp_join(v: SpView, other: SpView) -> SpView {
    sp_commit(sp_absorb(v, other.bytes))
}

/// Decrypting the ciphertext that encryption produced recovers the plaintext
/// and leaves both parties in the same sponge state.
pub proof fn lemma_decrypt_inverts_encrypt(v: SpView, plain: Seq<u8>)
    ensures
        sp_decrypt(v, sp_encrypt(v, plain).1) == (sp_encrypt(v, plain).0, plain),
    decreases plain.len(),
{
    if plain.len() == 0 {
        assert(sp_decrypt(v, sp_encrypt(v, plain).1).1 =~= plain);
    } else {
        lemma_decrypt_inverts_encrypt(v, plain.drop_last());
        let prev = sp_encrypt(v, plain.drop_last());
        let p = plain.last();
        let s = prev.0.bytes[prev.0.pos];
        let c = p ^ s;
        assert(sp_encrypt(v, plain).1.drop_last() =~= prev.1);
        assert(((p ^ s) ^ s) == p) by (bit_vector);
        assert((c ^ s) == p);
        assert(sp_decrypt(v, sp_encrypt(v, plain).1).1 =~= plain);
    }
}


/// Absorbing a concatenation equals absorbing the parts in order.
pub proof fn lemma_sp_absorb_append(v: SpView, a: Seq<u8>, b: Seq<u8>)
    ensures
        sp_absorb(v, a + b) == sp_absorb(sp_absorb(v, a), b),
    decreases b.len(),
{
    if b.len() == 0 {
        assert(a + b =~= a);
    } else {
        lemma_sp_absorb_append(v, a, b.drop_last());
        assert((a + b).drop_last() =~= a + b.drop_last());
        assert((a + b).last() == b.last());
    }
}

/// Encrypting a concatenation equals encrypting the parts in order.
pub proof fn lemma_sp_encrypt_append(v: SpView, a: Seq<u8>, b: Seq<u8>)
    ensures
        sp_encrypt(v, a + b).0 == sp_encrypt(sp_encrypt(v, a).0, b).0,
        sp_encrypt(v, a + b).1 == sp_encrypt(v, a).1 + sp_encrypt(sp_encrypt(v, a).0, b).1,
    decreases b.len(),
{
    if b.len() == 0 {
        assert(a + b =~= a);
        assert(sp_encrypt(v, a).1 + sp_encrypt(sp_encrypt(v, a).0, b).1 =~= sp_encrypt(v, a).1);
    } else {
        lemma_sp_encrypt_append(v, a, b.drop_last());
        assert((a + b).drop_last() =~= a + b.drop_last());
        assert((a + b).last() == b.last());
        assert(sp_encrypt(v, a).1 + sp_encrypt(sp_encrypt(v, a).0, b).1 =~= (sp_encrypt(v, a).1
            + sp_encrypt(sp_encrypt(v, a).0, b.drop_last()).1).push(
            sp_encrypt(sp_encrypt(v, a).0, b).1.last(),
        ));
    }
}

/// Decrypting a concatenation equals decrypting the parts in order.
pub proof fn lemma_sp_decrypt_append(v: SpView, a: Seq<u8>, b: Seq<u8>)
    ensures
        sp_decrypt(v, a + b).0 == sp_decrypt(sp_decrypt(v, a).0, b).0,
        sp_decrypt(v, a + b).1 == sp_decrypt(v, a).1 + sp_decrypt(sp_decrypt(v, a).0, b).1,
    decreases b.len(),
{
    if b.len() == 0 {
        assert(a + b =~= a);
        assert(sp_decrypt(v, a).1 + sp_decrypt(sp_decrypt(v, a).0, b).1 =~= sp_decrypt(v, a).1);
    } else {
        lemma_sp_decrypt_append(v, a, b.drop_last());
        assert((a + b).drop_last() =~= a + b.drop_last());
        assert((a + b).last() == b.last());
        assert(sp_decrypt(v, a).1 + sp_decrypt(sp_decrypt(v, a).0, b).1 =~= (sp_decrypt(v, a).1
            + sp_decrypt(sp_decrypt(v, a).0, b.drop_last()).1).push(
            sp_decrypt(sp_decrypt(v, a).0, b).1.last(),
        ));
    }
}


/// Decrypting a prefix of a ciphertext yields the prefix of the plaintext.
pub proof fn lemma_sp_decrypt_prefix(v: SpView, c: Seq<u8>, j: int)
    requires
        0 <= j <= c.len(),
    ensures
        sp_decrypt(v, c).1.take(j) == sp_decrypt(v, c.take(j)).1,
{
    assert(c =~= c.take(j) + c.skip(j));
    lemma_sp_decrypt_append(v, c.take(j), c.skip(j));
    lemma_sp_decrypt_len(v, c.take(j));
    lemma_sp_decrypt_len(v, c.skip(j));
    assert((sp_decrypt(v, c.take(j)).1 + sp_decrypt(sp_decrypt(v, c.take(j)).0, c.skip(j)).1)
        .take(j) =~= sp_decrypt(v, c.take(j)).1);
}

/// Lengths of derived streams.
pub proof fn lemma_sp_encrypt_len(v: SpView, plain: Seq<u8>)
    ensures
        sp_encrypt(v, plain).1.len() == plain.len(),
    decreases plain.len(),
{
    if plain.len() > 0 {
        lemma_sp_encrypt_len(v, plain.drop_last());
    }
}

pub proof fn lemma_sp_decrypt_len(v: SpView, cipher: Seq<u8>)
    ensures
        sp_decrypt(v, cipher).1.len() == cipher.len(),
    decreases cipher.len(),
{
    if cipher.len() > 0 {
        lemma_sp_decrypt_len(v, cipher.drop_last());
    }
}

pub proof fn lemma_sp_squeeze_len(v: SpView, n: nat)
    ensures
        sp_squeeze(v, n).1.len() == n,
    decreases n,
{
    if n > 0 {
        lemma_sp_squeeze_len(v, (n - 1) as nat);
    }
}

/// Re-encrypting a decrypted stream reproduces the ciphertext and the same
/// final state: the two directions of masking agree.
pub proof fn lemma_encrypt_inverts_decrypt(v: SpView, cipher: Seq<u8>)
    ensures
        sp_encrypt(v, sp_decrypt(v, cipher).1) == (sp_decrypt(v, cipher).0, cipher),
    decreases cipher.len(),
{
    if cipher.len() == 0 {
        assert(sp_encrypt(v, sp_decrypt(v, cipher).1).1 =~= cipher);
    } else {
        lemma_encrypt_inverts_decrypt(v, cipher.drop_last());
        lemma_sp_decrypt_len(v, cipher);
        let prev = sp_decrypt(v, cipher.drop_last());
        let c = cipher.last();
        let s = prev.0.bytes[prev.0.pos];
        assert(sp_decrypt(v, cipher).1.drop_last() =~= prev.1);
        assert(((c ^ s) ^ s) == c) by (bit_vector);
        assert(sp_encrypt(v, sp_decrypt(v, cipher).1).1 =~= cipher);
    }
}

/// The duplex sponge: a 200-byte state with a rate cursor.
pub struct Spongos {
    state: Vec<u8>,
    pos: usize,
}

impl View for Spongos {
    type V = SpView;

    closed spec fn view(&self) -> SpView {
        SpView { bytes: self.state@, pos: self.pos as int }
    }
}

impl Spongos {
    /// A fresh sponge: all-zero state, cursor at the start of the rate.
    pub fn new() -> (s: Spongos)
        ensures
            s@ == sp_new(),
            sp_wf(s@),
    {
        let mut state: Vec<u8> = Vec::new();
        let mut i: usize = 0;
        while i < 200
            invariant
                i <= 200,
                state@.len() == i,
                forall|j: int| 0 <= j < i ==> state@[j] == 0u8,
            decreases 200 - i,
        {
            state.push(0);
            i = i + 1;
        }
        proof {
            assert(state@ =~= sp_new().bytes);
        }
        Spongos { state, pos: 0 }
    }

    fn absorb_byte(&mut self, x: u8)
        requires
            sp_wf(old(self)@),
        ensures
            final(self)@ == sp_absorb_byte(old(self)@, x),
            sp_wf(final(self)@),
    {
        let b = self.state[self.pos] ^ x;
        self.state.set(self.pos, b);
        self.pos = self.pos + 1;
        if self.pos == RATE {
            permute(&mut self.state);
            self.pos = 0;
        }
    }

    /// Mix public data into the state.
    pub fn absorb(&mut self, data: &[u8])
        requires
            sp_wf(old(self)@),
        ensures
            final(self)@ == sp_absorb(old(self)@, data@),
            sp_wf(final(self)@),
    {
        let ghost init = self@;
        let mut i: usize = 0;
        while i < data.len()
            invariant
                sp_wf(self@),
                i <= data@.len(),
                self@ == sp_absorb(init, data@.take(i as int)),
            decreases data@.len() - i,
        {
            self.absorb_byte(data[i]);
            i = i + 1;
            proof {
                assert(data@.take(i as int).drop_last() =~= data@.take(i as int - 1));
            }
        }
        proof {
            assert(data@.take(data@.len() as int) =~= data@);
        }
    }

    fn squeeze_byte(&mut self) -> (b: u8)
        requires
            sp_wf(old(self)@),
        ensures
            final(self)@ == sp_squeeze_byte(old(self)@).0,
            b == sp_squeeze_byte(old(self)@).1,
            sp_wf(final(self)@),
    {
        let b = self.state[self.pos];
        self.state.set(self.pos, 0);
        self.pos = self.pos + 1;
        if self.pos == RATE {
            permute(&mut self.state);
            self.pos = 0;
        }
        b
    }

    /// Extract `n` bytes from the state.
    pub fn squeeze(&mut self, n: usize) -> (out: Vec<u8>)
        requires
            sp_wf(old(self)@),
        ensures
            final(self)@ == sp_squeeze(old(self)@, n as nat).0,
            out@ == sp_squeeze(old(self)@, n as nat).1,
            out@.len() == n,
            sp_wf(final(self)@),
    {
        let ghost init = self@;
        let mut out: Vec<u8> = Vec::new();
        let mut i: usize = 0;
        while i < n
            invariant
                sp_wf(self@),
                i <= n,
                self@ == sp_squeeze(init, i as nat).0,
                out@ == sp_squeeze(init, i as nat).1,
                out@.len() == i,
            decreases n - i,
        {
            let b = self.squeeze_byte();
            out.push(b);
            i = i + 1;
        }
        out
    }

    /// XOR-stream `plain` with the rate, absorbing the ciphertext.
    pub fn encrypt(&mut self, plain: &[u8]) -> (cipher: Vec<u8>)
        requires
            sp_wf(old(self)@),
        ensures
            final(self)@ == sp_encrypt(old(self)@, plain@).0,
            cipher@ == sp_encrypt(old(self)@, plain@).1,
            cipher@.len() == plain@.len(),
            sp_wf(final(self)@),
    {
        let ghost init = self@;
        let mut out: Vec<u8> = Vec::new();
        let mut i: usize = 0;
        while i < plain.len()
            invariant
                sp_wf(self@),
                i <= plain@.len(),
                self@ == sp_encrypt(init, plain@.take(i as int)).0,
                out@ == sp_encrypt(init, plain@.take(i as int)).1,
                out@.len() == i,
            decreases plain@.len() - i,
        {
            let s = self.state[self.pos];
            let c = plain[i] ^ s;
            let b = s ^ c;
            self.state.set(self.pos, b);
            self.pos = self.pos + 1;
            if self.pos == RATE {
                permute(&mut self.state);
                self.pos = 0;
            }
            out.push(c);
            i = i + 1;
            proof {
                assert(plain@.take(i as int).drop_last() =~= plain@.take(i as int - 1));
            }
        }
        proof {
            assert(plain@.take(plain@.len() as int) =~= plain@);
        }
        out
    }

    /// Inverse of [`Spongos::encrypt`]: recover the plaintext, absorbing the
    /// same ciphertext so that both parties stay in the same state.
    pub fn decrypt(&mut self, cipher: &[u8]) -> (plain: Vec<u8>)
        requires
            sp_wf(old(self)@),
        ensures
            final(self)@ == sp_decrypt(old(self)@, cipher@).0,
            plain@ == sp_decrypt(old(self)@, cipher@).1,
            plain@.len() == cipher@.len(),
            sp_wf(final(self)@),
    {
        let ghost init = self@;
        let mut out: Vec<u8> = Vec::new();
        let mut i: usize = 0;
        while i < cipher.len()
            invariant
                sp_wf(self@),
                i <= cipher@.len(),
                self@ == sp_decrypt(init, cipher@.take(i as int)).0,
                out@ == sp_decrypt(init, cipher@.take(i as int)).1,
                out@.len() == i,
            decreases cipher@.len() - i,
        {
            let s = self.state[self.pos];
            let c = cipher[i];
            let p = c ^ s;
            let b = s ^ c;
            self.state.set(self.pos, b);
            self.pos = self.pos + 1;
            if self.pos == RATE {
                permute(&mut self.state);
                self.pos = 0;
            }
            out.push(p);
            i = i + 1;
            proof {
                assert(cipher@.take(i as int).drop_last() =~= cipher@.take(i as int - 1));
            }
        }
        proof {
            assert(cipher@.take(cipher@.len() as int) =~= cipher@);
        }
        out
    }

    /// Apply the permutation and reset the rate cursor, sealing the current
    /// message section.
    pub fn commit(&mut self)
        requires
            sp_wf(old(self)@),
        ensures
            final(self)@ == sp_commit(old(self)@),
            sp_wf(final(self)@),
    {
        if self.pos != 0 {
            permute(&mut self.state);
            self.pos = 0;
        }
    }

    /// An independent copy: mutations of the fork do not affect `self`.
    pub fn fork(&self) -> (s: Spongos)
        ensures
            s@ == self@,
    {
        let mut state: Vec<u8> = Vec::new();
        let mut i: usize = 0;
        while i < self.state.len()
            invariant
                i <= self.state@.len(),
                state@.len() == i,
                forall|j: int| 0 <= j < i ==> state@[j] == self.state@[j],
            decreases self.state@.len() - i,
        {
            state.push(self.state[i]);
            i = i + 1;
        }
        proof {
            assert(state@ =~= self.state@);
        }
        Spongos { state, pos: self.pos }
    }

    /// Absorb another sponge's state and commit: chains a parent snapshot
    /// into this message's state.
    pub fn join(&mut self, other: &Spongos)
        requires
            sp_wf(old(self)@),
        ensures
            final(self)@ == sp_join(old(self)@, other@),
            sp_wf(final(self)@),
    {
        let copy = other.fork();
        self.absorb(copy.state.as_slice());
        self.commit();
    }

    /// Byte-wise equality of two sponge states.
    pub fn equals(&self, other: &Spongos) -> (r: bool)
        ensures
            r == (self@ == other@),
    {
        if self.pos != other.pos {
            proof {
                assert(self@.pos != other@.pos);
            }
            return false;
        }
        if self.state.len() != other.state.len() {
            return false;
        }
        let mut i: usize = 0;
        while i < self.state.len()
            invariant
                self.state@.len() == other.state@.len(),
                i <= self.state@.len(),
                forall|j: int| 0 <= j < i ==> self.state@[j] == other.state@[j],
            decreases self.state@.len() - i,
        {
            if self.state[i] != other.state[i] {
                return false;
            }
            i = i + 1;
        }
        proof {
            assert(self.state@ =~= other.state@);
        }
        true
    }
}

} // verus!
