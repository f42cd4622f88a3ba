//! Deterministic pseudorandom generator: xorshift128+ as seen in Node.js 12.
//!
//! Raw 64-bit outputs are produced in batches of 64 words; each word keeps the
//! high 52 bits of the older state half (`x >> 12`), which is exactly the
//! mantissa a consumer splices into an IEEE-754 double in `[1, 2)` before
//! subtracting one. The library works with those 52-bit words directly, so a
//! raw word `w` stands for the uniform value `w / 2^52`. Words are consumed in
//! reverse order within each batch; that ordering is part of the reproducible
//! contract.

use vstd::prelude::*;

verus! {

/// Upper bound (exclusive) on every raw word: `2^52`.
pub const RAW_BOUND: u64 = 0x0010_0000_0000_0000;

/// Mask selecting the 52 meaningful bits of a raw word.
pub const RAW_MASK: u64 = 0x000F_FFFF_FFFF_FFFF;

/// Mathematical state of the generator: the two state words and the not yet
/// consumed suffix of the current batch (drawn from the back).
pub ghost struct RngModel {
    pub s0: u64,
    pub s1: u64,
    pub pending: Seq<u64>,
}

/// The xorshift128+ state-mixing function applied once per generated word.
pub open spec fn mix(a: u64, b: u64) -> u64 {
    let t1 = a ^ (a << 23);
    let t2 = t1 ^ (t1 >> 17);
    let t3 = t2 ^ b;
    t3 ^ (b >> 26)
}

/// State words after generating `n` words from `(s0, s1)`.
pub open spec fn batch_state(s0: u64, s1: u64, n: nat) -> (u64, u64)
    decreases n,
{
    if n == 0 {
        (s0, s1)
    } else {
        let (a, b) = batch_state(s0, s1, (n - 1) as nat);
        (b, mix(a, b))
    }
}

/// The first `n` raw words generated from `(s0, s1)`, in generation order.
pub open spec fn batch_words(s0: u64, s1: u64, n: nat) -> Seq<u64>
    decreases n,
{
    if n == 0 {
        Seq::empty()
    } else {
        let (a, b) = batch_state(s0, s1, (n - 1) as nat);
        batch_words(s0, s1, (n - 1) as nat).push(b >> 12)
    }
}

/// Model of a freshly seeded generator: one full batch stands ready.
pub open spec fn seeded_model(s0: u64, s1: u64) -> RngModel {
    RngModel {
        s0: batch_state(s0, s1, 64).0,
        s1: batch_state(s0, s1, 64).1,
        pending: batch_words(s0, s1, 64),
    }
}

/// One draw: pop the last pending word, refilling a whole batch first if the
/// pending suffix is empty.
pub open spec fn spec_draw(m: RngModel) -> (u64, RngModel) {
    if m.pending.len() > 0 {
        (m.pending.last(), RngModel { pending: m.pending.drop_last(), ..m })
    } else {
        let refilled = seeded_model(m.s0, m.s1);
        (refilled.pending.last(), RngModel { pending: refilled.pending.drop_last(), ..refilled })
    }
}

/// The next `n` raw words a generator in state `m` will yield.
pub open spec fn spec_draws(m: RngModel, n: nat) -> Seq<u64>
    decreases n,
{
    if n == 0 {
        Seq::empty()
    } else {
        let (w, m2) = spec_draw(m);
        seq![w] + spec_draws(m2, (n - 1) as nat)
    }
}

/// The generator state after `n` draws from `m`.
pub open spec fn spec_advance(m: RngModel, n: nat) -> RngModel
    decreases n,
{
    if n == 0 {
        m
    } else {
        spec_advance(spec_draw(m).1, (n - 1) as nat)
    }
}

/// Index selected by a raw draw over `len` items: `floor(raw / 2^52 * len)`.
pub open spec fn pick_index_spec(raw: u64, len: nat) -> int {
    (raw * len) / (RAW_BOUND as int)
}

/// Pending words restored from an untrusted snapshot: at most one batch is
/// kept and only the low 52 bits of each word are meaningful.
pub open spec fn sanitize_pending(s: Seq<u64>) -> Seq<u64> {
    s.take(if s.len() <= 64 { s.len() as int } else { 64 }).map_values(|x: u64| x & RAW_MASK)
}

/// Well-formedness of a generator model: at most one batch is pending and
/// every pending word is a 52-bit raw word. Constructors establish this and
/// every operation preserves it.
pub open spec fn rng_model_wf(m: RngModel) -> bool {
    &&& m.pending.len() <= 64
    &&& forall|i: int| 0 <= i < m.pending.len() ==> m.pending[i] < RAW_BOUND
}

proof fn lemma_shr12_bound(x: u64)
    by (bit_vector)
    ensures
        x >> 12 < 0x0010_0000_0000_0000u64,
{
}

proof fn lemma_mask_bound(x: u64)
    by (bit_vector)
    ensures
        x & 0x000F_FFFF_FFFF_FFFFu64 < 0x0010_0000_0000_0000u64,
        x < 0x0010_0000_0000_0000u64 ==> x & 0x000F_FFFF_FFFF_FFFFu64 == x,
{
}

/// Seedable, serializable generator with an exact, reproducible output
/// sequence.
pub struct Rng {
    s0: u64,
    s1: u64,
    pending: Vec<u64>,
}

/// Snapshot of a generator's full internal state, as plain values. Restoring
/// a snapshot is a no-op on the sequence of future draws.
#[derive(Debug, Clone, PartialEq, Eq)]
pub struct RngState {
    pub s0: u64,
    pub s1: u64,
    pub pending: Vec<u64>,
}

impl View for Rng {
    type V = RngModel;

    closed spec fn view(&self) -> RngModel {
        RngModel { s0: self.s0, s1: self.s1, pending: self.pending@ }
    }
}

impl Rng {
    /// Well-formedness, stated of the model; see [`rng_model_wf`].
    pub open spec fn wf(&self) -> bool {
        rng_model_wf(self@)
    }

    /// Seed from two 64-bit words; the whole first batch is generated at once.
    pub fn seeded(s0: u64, s1: u64) -> (r: Rng)
        ensures
            r@ == seeded_model(s0, s1),
            r.wf(),
    {
        let (words, a, b) = generate_batch(s0, s1);
        Rng { s0: a, s1: b, pending: words }
    }

    /// Seed from the operating system's entropy source. This path is
    /// non-deterministic and excluded from the reproducibility guarantees.
    pub fn new() -> (r: Rng)
        ensures
            r@.pending.len() == 64,
            r.wf(),
    {
        let (s0, s1) = entropy_seed();
        proof {
            lemma_batch_words_len(s0, s1, 64);
        }
        Rng::seeded(s0, s1)
    }

    /// Draw one raw 52-bit word, standing for the uniform value `r / 2^52`.
    pub fn next_raw(&mut self) -> (r: u64)
        requires
            old(self).wf(),
        ensures
            r == spec_draw(old(self)@).0,
            final(self)@ == spec_draw(old(self)@).1,
            r < RAW_BOUND,
            final(self).wf(),
    {
        if self.pending.len() == 0 {
            let (words, a, b) = generate_batch(self.s0, self.s1);
            self.s0 = a;
            self.s1 = b;
            self.pending = words;
        }
        let r = self.pending.pop().unwrap();
        r
    }

    /// Select uniformly over `choices`, consuming exactly one draw whatever
    /// the length; returns `None` only when `choices` is empty.
    pub fn pick<T: Copy>(&mut self, choices: &Vec<T>) -> (r: Option<T>)
        requires
            old(self).wf(),
        ensures
            final(self).wf(),
            final(self)@ == spec_draw(old(self)@).1,
            choices@.len() == 0 ==> r is None,
            choices@.len() > 0 ==> r == Some(
                choices@[pick_index_spec(spec_draw(old(self)@).0, choices@.len()) as int],
            ),
    {
        let idx = self.pick_slot(choices.len());
        if choices.len() == 0 {
            None
        } else {
            Some(choices[idx])
        }
    }

    /// Select a slot in `0 .. len`, consuming exactly one draw; returns 0 when
    /// `len` is 0 (the draw is still consumed).
    pub fn pick_slot(&mut self, len: usize) -> (r: usize)
        requires
            old(self).wf(),
        ensures
            final(self).wf(),
            final(self)@ == spec_draw(old(self)@).1,
            len > 0 ==> r == pick_index_spec(spec_draw(old(self)@).0, len as nat) && r < len,
            len == 0 ==> r == 0,
    {
        let raw = self.next_raw();
        if len == 0 {
            return 0;
        }
        proof {
            assert((raw as int) * (len as int) < (0x0010_0000_0000_0000int)
                * (0x1_0000_0000_0000_0000int)) by (nonlinear_arith)
                requires
                    raw < 0x0010_0000_0000_0000u64,
                    len <= 0xFFFF_FFFF_FFFF_FFFFu64,
            ;
            lemma_pick_index_in_range(raw, len as nat);
        }
        let wide: u128 = (raw as u128) * (len as u128) / (RAW_BOUND as u128);
        wide as usize
    }

    /// Capture the full internal state as plain values.
    pub fn to_state(&self) -> (st: RngState)
        ensures
            st.s0 == self@.s0,
            st.s1 == self@.s1,
            st.pending@ == self@.pending,
    {
        let mut pending: Vec<u64> = Vec::new();
        let mut i: usize = 0;
        while i < self.pending.len()
            invariant
                i <= self.pending@.len(),
                pending@ == self.pending@.take(i as int),
            decreases self.pending@.len() - i,
        {
            pending.push(self.pending[i]);
            i += 1;
        }
        proof {
            assert(pending@ =~= self.pending@);
        }
        RngState { s0: self.s0, s1: self.s1, pending }
    }

    /// Rebuild a generator from a snapshot. At most one batch of pending
    /// words is kept and stray high bits are cleared, so restoring a snapshot
    /// taken by `to_state` reproduces the captured state exactly.
    pub fn from_state(st: &RngState) -> (r: Rng)
        ensures
            r@.s0 == st.s0,
            r@.s1 == st.s1,
            r@.pending == sanitize_pending(st.pending@),
            r.wf(),
    {
        let keep: usize = if st.pending.len() <= 64 {
            st.pending.len()
        } else {
            64
        };
        let mut pending: Vec<u64> = Vec::new();
        let mut i: usize = 0;
        while i < keep
            invariant
                i <= keep,
                keep <= st.pending@.len(),
                keep <= 64,
                pending@.len() == i as int,
                forall|j: int| 0 <= j < i ==> pending@[j] == st.pending@[j] & RAW_MASK,
                forall|j: int| 0 <= j < i ==> pending@[j] < 0x0010_0000_0000_0000u64,
            decreases keep - i,
        {
            let word = st.pending[i] & RAW_MASK;
            proof {
                lemma_mask_bound(st.pending@[i as int]);
            }
            pending.push(word);
            i += 1;
        }
        proof {
            assert(pending@ =~= sanitize_pending(st.pending@));
        }
        Rng { s0: st.s0, s1: st.s1, pending }
    }
}

/// Model of the generator rebuilt by `from_state` from a capture of `m`.
pub open spec fn restored_model(m: RngModel) -> RngModel {
    RngModel { s0: m.s0, s1: m.s1, pending: sanitize_pending(m.pending) }
}

/// Restoring a captured state is a no-op on the draw sequence: the rebuilt
/// generator has the very model of the captured one, hence every subsequently
/// drawn word agrees, at any batch boundary.
pub proof fn lemma_state_round_trip(m: RngModel)
    requires
        m.pending.len() <= 64,
        forall|i: int| 0 <= i < m.pending.len() ==> m.pending[i] < RAW_BOUND,
    ensures
        restored_model(m) == m,
        forall|n: nat| spec_draws(restored_model(m), n) == spec_draws(m, n),
{
    assert forall|i: int| 0 <= i < m.pending.len() implies sanitize_pending(m.pending)[i]
        == m.pending[i] by {
        lemma_mask_bound(m.pending[i]);
    }
    assert(sanitize_pending(m.pending) =~= m.pending);
}

/// A pick over a single choice always lands on that choice: whatever word is
/// drawn, the selected index is 0.
pub proof fn lemma_pick_single(raw: u64)
    requires
        raw < RAW_BOUND,
    ensures
        pick_index_spec(raw, 1) == 0,
{
}

proof fn lemma_pick_index_in_range(raw: u64, len: nat)
    requires
        raw < RAW_BOUND,
        len > 0,
    ensures
        pick_index_spec(raw, len) < len,
{
    let d = RAW_BOUND as int;
    assert((raw * len) / d < len) by (nonlinear_arith)
        requires
            raw < d,
            len > 0,
            d > 0,
    ;
}

/// Generate one full batch of 64 raw words from `(s0, s1)`, returning the
/// words in generation order together with the advanced state words.
fn generate_batch(s0: u64, s1: u64) -> (r: (Vec<u64>, u64, u64))
    ensures
        r.0@ == batch_words(s0, s1, 64),
        r.1 == batch_state(s0, s1, 64).0,
        r.2 == batch_state(s0, s1, 64).1,
        r.0@.len() == 64,
        forall|i: int| 0 <= i < r.0@.len() ==> r.0@[i] < 0x0010_0000_0000_0000u64,
{
    let mut words: Vec<u64> = Vec::new();
    let mut a = s0;
    let mut b = s1;
    let mut i: usize = 0;
    while i < 64
        invariant
            i <= 64,
            words@ == batch_words(s0, s1, i as nat),
            a == batch_state(s0, s1, i as nat).0,
            b == batch_state(s0, s1, i as nat).1,
            forall|j: int| 0 <= j < words@.len() ==> words@[j] < 0x0010_0000_0000_0000u64,
        decreases 64 - i,
    {
        proof {
            lemma_shr12_bound(b);
            assert(batch_words(s0, s1, (i + 1) as nat) == batch_words(s0, s1, i as nat).push(
                b >> 12,
            ));
        }
        words.push(b >> 12);
        let t1 = a ^ (a << 23u64);
        let t2 = t1 ^ (t1 >> 17u64);
        let t3 = t2 ^ b;
        let t4 = t3 ^ (b >> 26u64);
        a = b;
        b = t4;
        i += 1;
    }
    proof {
        lemma_batch_words_len(s0, s1, 64);
    }
    (words, a, b)
}

proof fn lemma_batch_words_len(s0: u64, s1: u64, n: nat)
    ensures
        batch_words(s0, s1, n).len() == n,
    decreases n,
{
    if n > 0 {
        lemma_batch_words_len(s0, s1, (n - 1) as nat);
    }
}

/// Relies on getrandom::fill: fills the buffer with bytes from the operating
/// system's secure entropy source. Panics if that source fails, since seed
/// acquisition has no fallback.
#[verifier::external_body]
fn entropy_seed() -> (r: (u64, u64)) {
    let mut buf = [0u8; 16];
    getrandom::fill(&mut buf).expect("failed to get random seed");
    let s0 = u64::from_ne_bytes(buf[0..8].try_into().expect("slice is 8 bytes"));
    let s1 = u64::from_ne_bytes(buf[8..16].try_into().expect("slice is 8 bytes"));
    (s0, s1)
}

} // verus!
