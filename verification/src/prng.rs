use vstd::prelude::*;

verus! {

/// One step of the xorshift64 generator (shifts 13, 7, 17).
pub open spec fn xorshift(s: u64) -> u64 {
    let a = s ^ (s << 13u64);
    let b = a ^ (a >> 7u64);
    b ^ (b << 17u64)
}

/// The generator state after `k` steps from `s`.
pub open spec fn prng_state(s: u64, k: nat) -> u64
    decreases k,
{
    if k == 0 {
        s
    } else {
        xorshift(prng_state(s, (k - 1) as nat))
    }
}

/// Byte `j` (little-endian, `0 <= j < 8`) of the word `v`.
pub open spec fn byte_of(v: u64, j: int) -> u8 {
    ((v >> ((8 * j) as u64)) & 0xffu64) as u8
}

/// The bytes that `fill_buffer` writes into a buffer of length `n` when the
/// generator starts in state `s`: each 8-byte chunk holds the little-endian
/// bytes of the next output, the last chunk possibly cut short.
pub open spec fn stream(s: u64, n: nat) -> Seq<u8> {
    Seq::new(n, |i: int| byte_of(prng_state(s, (i / 8 + 1) as nat), i % 8))
}

/// Number of generator outputs consumed when filling `n` bytes.
pub open spec fn words_for(n: nat) -> nat {
    ((n + 7) / 8) as nat
}

/// The state a generator seeded with `seed` starts in.
pub open spec fn seed_state(seed: u64) -> u64 {
    if seed == 0 { 1 } else { seed }
}

/// The xorshift step never maps a nonzero state to zero.
pub proof fn lemma_xorshift_nonzero(s: u64)
    requires
        s != 0,
    ensures
        xorshift(s) != 0,
{
    let a = s ^ (s << 13u64);
    let b = a ^ (a >> 7u64);
    assert(s != 0 ==> s ^ (s << 13u64) != 0) by (bit_vector);
    assert(a != 0 ==> a ^ (a >> 7u64) != 0) by (bit_vector);
    assert(b != 0 ==> b ^ (b << 17u64) != 0) by (bit_vector);
}

/// A nonzero state stays nonzero after any number of steps.
pub proof fn lemma_prng_state_nonzero(s: u64, k: nat)
    requires
        s != 0,
    ensures
        prng_state(s, k) != 0,
    decreases k,
{
    if k > 0 {
        lemma_prng_state_nonzero(s, (k - 1) as nat);
        lemma_xorshift_nonzero(prng_state(s, (k - 1) as nat));
    }
}

/// xorshift64 pseudo-random generator; its state is never zero.
pub struct PseudoRandom {
    state: u64,
}

impl View for PseudoRandom {
    type V = u64;

    closed spec fn view(&self) -> u64 {
        self.state
    }
}

impl PseudoRandom {
    #[verifier::type_invariant]
    closed spec fn inv(self) -> bool {
        self.state != 0
    }

    /// A generator seeded with `seed`; a zero seed is replaced by 1.
    pub fn new(seed: u64) -> (r: Self)
        ensures
            r@ == seed_state(seed),
    {
        PseudoRandom { state: if seed == 0 { 1 } else { seed } }
    }

    /// Advances the generator one step and returns the new state.
    pub fn next(&mut self) -> (v: u64)
        ensures
            final(self)@ == xorshift(old(self)@),
            v == final(self)@,
    {
        proof {
            use_type_invariant(&*self);
            lemma_xorshift_nonzero(self.state);
        }
        let s = self.state;
        let a = s ^ (s << 13u64);
        let b = a ^ (a >> 7u64);
        let c = b ^ (b << 17u64);
        self.state = c;
        c
    }

    /// Fills `buf` with the generator's output, eight little-endian bytes per
    /// step; the final step is cut short when the length is not a multiple of 8.
    pub fn fill_buffer(&mut self, buf: &mut [u8])
        ensures
            final(buf)@ == stream(old(self)@, old(buf)@.len()),
            final(self)@ == prng_state(old(self)@, words_for(old(buf)@.len())),
    {
        let ghost s0 = self@;
        let n = buf.len();
        let mut cur: u64 = 0;
        let mut i: usize = 0;
        while i < n
            invariant
                n == buf@.len(),
                n == old(buf)@.len(),
                s0 == old(self)@,
                i <= n,
                self@ == prng_state(s0, words_for(i as nat)),
                i % 8 != 0 ==> cur == prng_state(s0, (i / 8 + 1) as nat),
                forall|k: int| 0 <= k < i ==> buf@[k] == #[trigger] stream(s0, n as nat)[k],
            decreases n - i,
        {
            if i % 8 == 0 {
                cur = self.next();
                assert(words_for((i + 1) as nat) == words_for(i as nat) + 1);
            } else {
                assert(words_for((i + 1) as nat) == words_for(i as nat));
            }
            let j = i % 8;
            let byte = ((cur >> ((8 * j) as u64)) & 0xffu64) as u8;
            buf[i] = byte;
            i = i + 1;
        }
        assert(buf@ =~= stream(s0, n as nat));
    }
}

} // verus!
