//! Secret-shared wire algebra for the three-party proof simulation: the
//! per-party randomness pools, the append-only view logs, and the prover-side
//! and verifier-side gate protocols.

use vstd::prelude::*;

verus! {

pub type IKosResult<T> = Result<T, IKosError>;

#[derive(Clone, Debug)]
pub struct IKosError {
    pub error: String,
}

// ---------------------------------------------------------------------------
// Bit and byte helpers
// ---------------------------------------------------------------------------

/// Bit `i` of `x`, as a word that is 0 or 1.
pub open spec fn get_bit(x: u32, i: u32) -> u32 {
    (x >> i) & 1
}

/// `x` with bit `i` replaced by the low bit of `b`.
pub open spec fn set_bit(x: u32, i: u32, b: u32) -> u32 {
    if b & 1 != 0 {
        x | (1u32 << i)
    } else {
        x & (!(1u32 << i))
    }
}

/// Big-endian 32-bit word from four bytes.
pub open spec fn word_from_be(b0: u8, b1: u8, b2: u8, b3: u8) -> u32 {
    ((((b0 as u32) << 24) | ((b1 as u32) << 16)) | ((b2 as u32) << 8)) | (b3 as u32)
}

/// The four big-endian bytes of a 32-bit word.
pub open spec fn word_to_be(w: u32) -> Seq<u8> {
    seq![(w >> 24) as u8, (w >> 16) as u8, (w >> 8) as u8, w as u8]
}

/// Big-endian byte encoding of a word sequence.
pub open spec fn words_to_be(ws: Seq<u32>) -> Seq<u8>
    decreases ws.len(),
{
    if ws.len() == 0 {
        Seq::empty()
    } else {
        word_to_be(ws[0]) + words_to_be(ws.drop_first())
    }
}

proof fn lemma_words_to_be_push(ws: Seq<u32>, w: u32)
    ensures
        words_to_be(ws.push(w)) =~= words_to_be(ws) + word_to_be(w),
    decreases ws.len(),
{
    if ws.len() == 0 {
        assert(ws.push(w).drop_first() =~= Seq::<u32>::empty());
        assert(words_to_be(ws.push(w)) =~= word_to_be(w) + words_to_be(Seq::<u32>::empty()));
        assert(words_to_be(ws.push(w)) =~= words_to_be(ws) + word_to_be(w));
    } else {
        assert(ws.push(w).drop_first() =~= ws.drop_first().push(w));
        lemma_words_to_be_push(ws.drop_first(), w);
        assert(ws.push(w)[0] == ws[0]);
        assert(words_to_be(ws.push(w)) =~= word_to_be(ws[0]) + (words_to_be(ws.drop_first())
            + word_to_be(w)));
        assert(words_to_be(ws.push(w)) =~= words_to_be(ws) + word_to_be(w));
    }
}

// ---------------------------------------------------------------------------
// SHA-256 and fresh randomness (the only outside calls of this module)
// ---------------------------------------------------------------------------

pub uninterp spec fn sha256_of(data: Seq<u8>) -> Seq<u8>;

/// Relies on crypto::sha2::Sha256 via crypto::digest::Digest: one SHA-256
/// digest, 32 bytes, a function of the input bytes alone.
#[verifier::external_body]
pub(crate) fn sha256(data: &Vec<u8>) -> (r: Vec<u8>)
    ensures
        r@ == sha256_of(data@),
        r@.len() == 32,
{
    let mut sha = crypto::sha2::Sha256::new();
    crypto::digest::Digest::input(&mut sha, data.as_slice());
    let mut out = vec![0u8; 32];
    crypto::digest::Digest::result(&mut sha, &mut out);
    out
}

/// Relies on rand::random: one random byte from the thread-local generator;
/// nothing is promised of its value.
#[verifier::external_body]
fn random_byte() -> u8 {
    rand::random::<u8>()
}

/// `num` fresh random bytes; only the length is promised.
pub fn generate_random(num: usize) -> (r: Vec<u8>)
    ensures
        r@.len() == num,
{
    let mut randoms: Vec<u8> = Vec::new();
    let mut i: usize = 0;
    while i < num
        invariant
            i <= num,
            randoms@.len() == i,
        decreases num - i,
    {
        randoms.push(random_byte());
        i = i + 1;
    }
    randoms
}

/// The eight words of one randomness block: `SHA-256(key)` split into
/// big-endian 32-bit words.
pub open spec fn expand_words(h: Seq<u8>) -> Seq<u32> {
    Seq::new(8, |i: int| word_from_be(h[4 * i], h[4 * i + 1], h[4 * i + 2], h[4 * i + 3]))
}

/// Derive eight pseudorandom words from a key.
pub fn generate_randomness(key: &Vec<u8>) -> (r: Vec<u32>)
    ensures
        r@ == expand_words(sha256_of(key@)),
{
    let hash = sha256(key);
    let mut randoms: Vec<u32> = Vec::new();
    let mut i: usize = 0;
    while i < 8
        invariant
            i <= 8,
            hash@ == sha256_of(key@),
            hash@.len() == 32,
            randoms@.len() == i,
            forall|j: int| 0 <= j < i ==> randoms@[j] == expand_words(sha256_of(key@))[j],
        decreases 8 - i,
    {
        let random = ((((hash[4 * i] as u32) << 24) | ((hash[4 * i + 1] as u32) << 16))
            | ((hash[4 * i + 2] as u32) << 8)) | (hash[4 * i + 3] as u32);
        randoms.push(random);
        i = i + 1;
    }
    proof {
        assert(randoms@ =~= expand_words(sha256_of(key@)));
    }
    randoms
}

/// Big-endian byte encoding of a word vector.
pub fn convert_u32_to_u8(ws: &Vec<u32>) -> (r: Vec<u8>)
    ensures
        r@ == words_to_be(ws@),
{
    let mut out: Vec<u8> = Vec::new();
    let mut i: usize = 0;
    while i < ws.len()
        invariant
            i <= ws@.len(),
            out@ == words_to_be(ws@.take(i as int)),
        decreases ws@.len() - i,
    {
        let w = ws[i];
        out.push((w >> 24) as u8);
        out.push((w >> 16) as u8);
        out.push((w >> 8) as u8);
        out.push(w as u8);
        proof {
            assert(ws@.take(i + 1 as int).drop_last() =~= ws@.take(i as int));
            assert(ws@.take(i + 1 as int) =~= ws@.take(i as int).push(ws@[i as int]));
            lemma_words_to_be_push(ws@.take(i as int), ws@[i as int]);
            assert(out@ =~= words_to_be(ws@.take(i as int)) + word_to_be(ws@[i as int]));
        }
        i = i + 1;
    }
    proof {
        assert(ws@.take(ws@.len() as int) =~= ws@);
    }
    out
}

// ---------------------------------------------------------------------------
// The per-party randomness pool, modelled as a pure stream
// ---------------------------------------------------------------------------

/// Block `k` of the self-chaining pseudorandom stream: block 0 expands the
/// seed, and each later block expands the byte encoding of the block that was
/// just exhausted.
pub open spec fn randomness_block(seed: Seq<u8>, k: nat) -> Seq<u32>
    decreases k,
{
    if k == 0 {
        expand_words(sha256_of(seed))
    } else {
        expand_words(sha256_of(words_to_be(randomness_block(seed, (k - 1) as nat))))
    }
}

/// Word `n` of the stream rooted at `seed`.
pub open spec fn pool_word(seed: Seq<u8>, n: nat) -> u32 {
    randomness_block(seed, n / 8)[(n % 8) as int]
}

/// A commitment binds a party's seed and its recorded gate outputs together.
pub open spec fn commitment_of(seed: Seq<u8>, out_data: Seq<u32>) -> Seq<u8> {
    sha256_of(seed + words_to_be(out_data))
}

// ---------------------------------------------------------------------------
// Views and contexts
// ---------------------------------------------------------------------------

/// One party's view of one repetition: its seed, its input shares and its
/// ordered log of non-linear gate outputs.
#[derive(Clone, Debug)]
pub struct IKosView {
    pub rand_tape_seed: Vec<u8>,
    pub in_data: Vec<u32>,
    pub out_data: Vec<u32>,
}

/// Two views hold the same seed, input shares and output log.
pub open spec fn view_eq(a: IKosView, b: IKosView) -> bool {
    &&& a.rand_tape_seed@ == b.rand_tape_seed@
    &&& a.in_data@ == b.in_data@
    &&& a.out_data@ == b.out_data@
}

impl IKosView {
    /// An identical view: same seed, same input shares, same output log.
    pub fn duplicate(&self) -> (r: IKosView)
        ensures
            view_eq(*self, r),
    {
        let rand_tape_seed = self.rand_tape_seed.clone();
        let in_data = self.in_data.clone();
        let out_data = self.out_data.clone();
        proof {
            assert(rand_tape_seed@ =~= self.rand_tape_seed@);
            assert(in_data@ =~= self.in_data@);
            assert(out_data@ =~= self.out_data@);
        }
        IKosView { rand_tape_seed, in_data, out_data }
    }

    /// A fresh view with a 16-byte random seed and empty logs.
    pub fn new() -> (r: IKosView)
        ensures
            r.rand_tape_seed@.len() == 16,
            r.in_data@ == Seq::<u32>::empty(),
            r.out_data@ == Seq::<u32>::empty(),
    {
        let seed_len: usize = 16;
        let r = IKosView {
            rand_tape_seed: generate_random(seed_len),
            in_data: Vec::new(),
            out_data: Vec::new(),
        };
        proof {
            assert(r.in_data@ =~= Seq::<u32>::empty());
            assert(r.out_data@ =~= Seq::<u32>::empty());
        }
        r
    }
}

/// A view together with its replay state: the current randomness block, the
/// words already drawn from it, and the log-entry cursor used on the verifier
/// path.
pub struct IKosContext {
    pub ikos_view: IKosView,
    pub randomness: Vec<u32>,
    pub used_rand_ctr: usize,
    pub out_view_ctr: usize,
    pub block_index: Ghost<nat>,
}

impl IKosContext {
    pub open spec fn seed(self) -> Seq<u8> {
        self.ikos_view.rand_tape_seed@
    }

    /// Total number of randomness words drawn so far.
    pub open spec fn drawn(self) -> nat {
        (self.block_index@ * 8 + self.used_rand_ctr) as nat
    }

    /// The pool really holds the current block of the stream, and the draw
    /// counter never runs past the block's end.
    pub open spec fn wf(self) -> bool {
        &&& self.randomness@ == randomness_block(self.seed(), self.block_index@)
        &&& self.used_rand_ctr <= 8
    }

    /// A fresh context over a fresh view.
    pub fn new() -> (r: IKosContext)
        ensures
            r.wf(),
            r.seed().len() == 16,
            r.ikos_view.in_data@ == Seq::<u32>::empty(),
            r.ikos_view.out_data@ == Seq::<u32>::empty(),
            r.drawn() == 0,
            r.out_view_ctr == 0,
    {
        let ikos_view = IKosView::new();
        let randomness = generate_randomness(&ikos_view.rand_tape_seed);
        IKosContext { ikos_view, randomness, used_rand_ctr: 0, out_view_ctr: 0, block_index: Ghost(0) }
    }

    /// A replay context over a revealed view: same seed, counters reset.
    pub fn new_views(ikos_view: IKosView) -> (r: IKosContext)
        ensures
            r.wf(),
            r.ikos_view == ikos_view,
            r.drawn() == 0,
            r.out_view_ctr == 0,
    {
        let randomness = generate_randomness(&ikos_view.rand_tape_seed);
        IKosContext { ikos_view, randomness, used_rand_ctr: 0, out_view_ctr: 0, block_index: Ghost(0) }
    }

    /// Hash the seed together with the encoded output log.
    pub fn commit_ikos_context(&self) -> (r: Vec<u8>)
        ensures
            r@ == commitment_of(self.seed(), self.ikos_view.out_data@),
            r@.len() == 32,
    {
        let mut data = self.ikos_view.rand_tape_seed.clone();
        let mut tail = convert_u32_to_u8(&self.ikos_view.out_data);
        proof {
            vstd::std_specs::vec::vec_clone_deep_view_proof(self.ikos_view.rand_tape_seed, data);
            assert(data@ =~= self.seed());
        }
        data.append(&mut tail);
        sha256(&data)
    }
}

/// The next unconsumed word of a context's randomness pool; on exhaustion the
/// pool reseeds itself from the byte encoding of the block just used up.
pub fn get_next_random_from_context(ctx: &mut IKosContext) -> (r: IKosResult<u32>)
    requires
        old(ctx).wf(),
    ensures
        final(ctx).wf(),
        r is Ok,
        r->Ok_0 == pool_word(old(ctx).seed(), old(ctx).drawn()),
        final(ctx).ikos_view == old(ctx).ikos_view,
        final(ctx).out_view_ctr == old(ctx).out_view_ctr,
        final(ctx).drawn() == old(ctx).drawn() + 1,
{
    proof {
        assert(randomness_block(old(ctx).seed(), old(ctx).block_index@).len() == 8);
    }
    if ctx.randomness.len() <= ctx.used_rand_ctr {
        let bytes = convert_u32_to_u8(&ctx.randomness);
        ctx.randomness = generate_randomness(&bytes);
        ctx.used_rand_ctr = 0;
        proof {
            ctx.block_index@ = ctx.block_index@ + 1;
        }
    }
    let rand = ctx.randomness[ctx.used_rand_ctr];
    ctx.used_rand_ctr = ctx.used_rand_ctr + 1;
    proof {
        let s = old(ctx).seed();
        let d = old(ctx).drawn();
        let b = old(ctx).block_index@;
        let u = old(ctx).used_rand_ctr as nat;
        assert(randomness_block(s, ctx.block_index@).len() == 8);
        if u == 8 {
            assert(d == b * 8 + 8);
            assert(d / 8 == b + 1 && d % 8 == 0) by (nonlinear_arith)
                requires
                    d == b * 8 + 8,
            ;
        } else {
            assert(d / 8 == b && d % 8 == u) by (nonlinear_arith)
                requires
                    d == b * 8 + u,
                    u < 8,
            ;
        }
    }
    Ok(rand)
}

// ---------------------------------------------------------------------------
// Prover-side wires: one value per virtual party
// ---------------------------------------------------------------------------

/// Combine the three exclusive-or shares of a secret-shared word back into
/// the clear value.
pub open spec fn recombine3(v: Seq<u32>) -> u32
    recommends
        v.len() == 3,
{
    (v[0] ^ v[1]) ^ v[2]
}

/// All three contexts of one repetition are well formed.
pub open spec fn ctxs_wf(cs: Seq<IKosContext>) -> bool {
    cs.len() == 3 && (forall|i: int| 0 <= i < 3 ==> (#[trigger] cs[i]).wf())
}

/// The word each party would draw next from its own pool.
pub open spec fn rand_words3(cs: Seq<IKosContext>) -> Seq<u32> {
    Seq::new(3, |i: int| pool_word(cs[i].seed(), cs[i].drawn()))
}

/// Party `i`'s output share of the three-party AND protocol.
pub open spec fn and3_share(x: Seq<u32>, y: Seq<u32>, r: Seq<u32>, i: int) -> u32 {
    ((((x[i] & y[(i + 1) % 3]) ^ (x[(i + 1) % 3] & y[i])) ^ (x[i] & y[i])) ^ r[i]) ^ r[(i + 1) % 3]
}

/// One non-linear gate happened: every party drew one random word and
/// appended exactly its own output share to its view.
pub open spec fn gate_logged(pre: Seq<IKosContext>, post: Seq<IKosContext>, entries: Seq<u32>) -> bool {
    &&& post.len() == pre.len()
    &&& forall|i: int|
        0 <= i < pre.len() ==> {
            &&& (#[trigger] post[i]).wf()
            &&& post[i].seed() == pre[i].seed()
            &&& post[i].ikos_view.in_data@ == pre[i].ikos_view.in_data@
            &&& post[i].ikos_view.out_data@ == pre[i].ikos_view.out_data@.push(entries[i])
            &&& post[i].drawn() == pre[i].drawn() + 1
            &&& post[i].out_view_ctr == pre[i].out_view_ctr
        }
}

proof fn lemma_remove_insert(s: Seq<IKosContext>, i: int, v: IKosContext)
    requires
        0 <= i < s.len(),
    ensures
        s.remove(i).insert(i, v) =~= s.update(i, v),
{
}

/// A prover-side wire: one 32-bit share per virtual party. A wire made from a
/// public value carries the same word in every share and `shared` is false;
/// such a wire never draws randomness nor writes a log entry.
#[derive(Clone, Debug)]
pub struct IKosVariable4P {
    pub value: Vec<u32>,
    pub shared: bool,
}

impl IKosVariable4P {
    pub open spec fn wf(self) -> bool {
        self.value@.len() == 3
    }

    /// A public or constant wire: the value replicated across all parties.
    pub fn new_value(value: u32) -> (r: IKosVariable4P)
        ensures
            r.wf(),
            !r.shared,
            r.value@ =~= seq![value, value, value],
    {
        IKosVariable4P { value: vec![value, value, value], shared: false }
    }

    /// A secret wire from three shares.
    pub fn new_share(value: Vec<u32>) -> (r: IKosVariable4P)
        requires
            value@.len() == 3,
        ensures
            r.wf(),
            r.shared,
            r.value@ == value@,
    {
        IKosVariable4P { value, shared: true }
    }

    fn is_empty_context(&self) -> (r: bool)
        ensures
            r == !self.shared,
    {
        !self.shared
    }

    /// An identical wire; shares and kind are preserved.
    pub fn duplicate(&self) -> (r: IKosVariable4P)
        requires
            self.wf(),
        ensures
            r.wf(),
            r.value@ == self.value@,
            r.shared == self.shared,
    {
        let value = self.value.clone();
        proof {
            assert(value@ =~= self.value@);
        }
        IKosVariable4P { value, shared: self.shared }
    }

    /// Per-share bitwise complement.
    pub fn negate(self) -> (r: IKosVariable4P)
        requires
            self.wf(),
        ensures
            r.wf(),
            r.shared == self.shared,
            forall|i: int| 0 <= i < 3 ==> r.value@[i] == !self.value@[i],
    {
        let mut zelf = self;
        let mut i: usize = 0;
        while i < 3
            invariant
                i <= 3,
                zelf.value@.len() == 3,
                zelf.shared == self.shared,
                forall|j: int| 0 <= j < i ==> zelf.value@[j] == !self.value@[j],
                forall|j: int| i <= j < 3 ==> zelf.value@[j] == self.value@[j],
            decreases 3 - i,
        {
            let v = zelf.value[i];
            zelf.value.set(i, !v);
            i = i + 1;
        }
        zelf
    }

    /// Per-share exclusive or; linear, so no randomness and no log write.
    pub fn xor(self, rhs: &IKosVariable4P) -> (r: IKosVariable4P)
        requires
            self.wf(),
            rhs.wf(),
        ensures
            r.wf(),
            r.shared == self.shared,
            forall|i: int| 0 <= i < 3 ==> r.value@[i] == (self.value@[i] ^ rhs.value@[i]),
    {
        let mut zelf = self;
        let mut i: usize = 0;
        while i < 3
            invariant
                i <= 3,
                zelf.value@.len() == 3,
                rhs.wf(),
                zelf.shared == self.shared,
                forall|j: int| 0 <= j < i ==> zelf.value@[j] == (self.value@[j] ^ rhs.value@[j]),
                forall|j: int| i <= j < 3 ==> zelf.value@[j] == self.value@[j],
            decreases 3 - i,
        {
            let v = zelf.value[i] ^ rhs.value[i];
            zelf.value.set(i, v);
            i = i + 1;
        }
        zelf
    }

    /// Per-share right shift by `n` bits.
    pub fn rshift(self, n: u32) -> (r: IKosVariable4P)
        requires
            self.wf(),
            n < 32,
        ensures
            r.wf(),
            r.shared == self.shared,
            forall|i: int| 0 <= i < 3 ==> r.value@[i] == (self.value@[i] >> n),
    {
        let mut zelf = self;
        let mut i: usize = 0;
        while i < 3
            invariant
                i <= 3,
                n < 32,
                zelf.value@.len() == 3,
                zelf.shared == self.shared,
                forall|j: int| 0 <= j < i ==> zelf.value@[j] == (self.value@[j] >> n),
                forall|j: int| i <= j < 3 ==> zelf.value@[j] == self.value@[j],
            decreases 3 - i,
        {
            let v = zelf.value[i] >> n;
            zelf.value.set(i, v);
            i = i + 1;
        }
        zelf
    }

    /// Per-share left shift by `n` bits.
    pub fn lshift(self, n: u32) -> (r: IKosVariable4P)
        requires
            self.wf(),
            n < 32,
        ensures
            r.wf(),
            r.shared == self.shared,
            forall|i: int| 0 <= i < 3 ==> r.value@[i] == (self.value@[i] << n),
    {
        let mut zelf = self;
        let mut i: usize = 0;
        while i < 3
            invariant
                i <= 3,
                n < 32,
                zelf.value@.len() == 3,
                zelf.shared == self.shared,
                forall|j: int| 0 <= j < i ==> zelf.value@[j] == (self.value@[j] << n),
                forall|j: int| i <= j < 3 ==> zelf.value@[j] == self.value@[j],
            decreases 3 - i,
        {
            let v = zelf.value[i] << n;
            zelf.value.set(i, v);
            i = i + 1;
        }
        zelf
    }

    /// Per-share bitwise or. Inherited behaviour, preserved as it stands: a
    /// plain per-share OR of the shares, not a re-randomized secure protocol.
    pub fn bit_or(self, rhs: &IKosVariable4P) -> (r: IKosVariable4P)
        requires
            self.wf(),
            rhs.wf(),
        ensures
            r.wf(),
            r.shared == self.shared,
            forall|i: int| 0 <= i < 3 ==> r.value@[i] == (self.value@[i] | rhs.value@[i]),
    {
        let mut zelf = self;
        let mut i: usize = 0;
        while i < 3
            invariant
                i <= 3,
                zelf.value@.len() == 3,
                rhs.wf(),
                zelf.shared == self.shared,
                forall|j: int| 0 <= j < i ==> zelf.value@[j] == (self.value@[j] | rhs.value@[j]),
                forall|j: int| i <= j < 3 ==> zelf.value@[j] == self.value@[j],
            decreases 3 - i,
        {
            let v = zelf.value[i] | rhs.value[i];
            zelf.value.set(i, v);
            i = i + 1;
        }
        zelf
    }

    /// Secure three-party AND. When either operand is secret, every party
    /// draws one fresh random word from its own pool, computes its output
    /// share from its own and the next party's shares, and appends that share
    /// to its own view. When both operands are public the AND is taken
    /// locally per share.
    pub fn bit_and(self, rhs: &IKosVariable4P, ctxs: &mut Vec<IKosContext>) -> (r: IKosVariable4P)
        requires
            self.wf(),
            rhs.wf(),
            (self.shared || rhs.shared) ==> ctxs_wf(old(ctxs)@),
        ensures
            r.wf(),
            !self.shared && !rhs.shared ==> {
                &&& final(ctxs)@ == old(ctxs)@
                &&& !r.shared
                &&& forall|i: int| 0 <= i < 3 ==> r.value@[i] == (self.value@[i] & rhs.value@[i])
            },
            self.shared || rhs.shared ==> {
                let rw = rand_words3(old(ctxs)@);
                &&& r.shared
                &&& forall|i: int|
                    0 <= i < 3 ==> r.value@[i] == and3_share(self.value@, rhs.value@, rw, i)
                &&& gate_logged(
                    old(ctxs)@,
                    final(ctxs)@,
                    Seq::new(3, |i: int| and3_share(self.value@, rhs.value@, rw, i)),
                )
                &&& recombine3(r.value@) == (recombine3(self.value@) & recombine3(rhs.value@))
            },
    {
        let mut zelf = self;
        if !zelf.shared && !rhs.shared {
            let ghost orig = zelf.value@;
            let mut i: usize = 0;
            while i < 3
                invariant
                    i <= 3,
                    zelf.value@.len() == 3,
                    rhs.wf(),
                    !zelf.shared,
                    forall|j: int| 0 <= j < i ==> zelf.value@[j] == (orig[j] & rhs.value@[j]),
                    forall|j: int| i <= j < 3 ==> zelf.value@[j] == orig[j],
                decreases 3 - i,
            {
                let v = zelf.value[i] & rhs.value[i];
                zelf.value.set(i, v);
                i = i + 1;
            }
            return zelf;
        }

        let ghost pre = ctxs@;
        let ghost rw = rand_words3(pre);
        let rand = draw_three(ctxs);
        let x = &zelf.value;
        let y = &rhs.value;
        let mut out: Vec<u32> = Vec::new();
        let mut i: usize = 0;
        while i < 3
            invariant
                i <= 3,
                zelf.wf(),
                rhs.wf(),
                rand@.len() == 3,
                rand@ == rw,
                x@ == zelf.value@,
                y@ == rhs.value@,
                out@.len() == i,
                forall|j: int| 0 <= j < i ==> out@[j] == and3_share(zelf.value@, rhs.value@, rw, j),
            decreases 3 - i,
        {
            let i1 = (i + 1) % 3;
            let o = ((((x[i] & y[i1]) ^ (x[i1] & y[i])) ^ (x[i] & y[i])) ^ rand[i]) ^ rand[i1];
            out.push(o);
            i = i + 1;
        }
        let ghost mid = ctxs@;
        zelf.value.set(0, out[0]);
        zelf.value.set(1, out[1]);
        zelf.value.set(2, out[2]);
        let mut c0 = ctxs.remove(0);
        let mut c1 = ctxs.remove(0);
        let mut c2 = ctxs.remove(0);
        c0.ikos_view.out_data.push(out[0]);
        c1.ikos_view.out_data.push(out[1]);
        c2.ikos_view.out_data.push(out[2]);
        ctxs.push(c0);
        ctxs.push(c1);
        ctxs.push(c2);
        zelf.shared = true;
        proof {
            let entries = Seq::new(3, |i: int| and3_share(self.value@, rhs.value@, rw, i));
            assert(zelf.value@ =~= entries);
            lemma_and3_recombine(self.value@, rhs.value@, rw);
            assert forall|j: int| 0 <= j < 3 implies {
                &&& (#[trigger] ctxs@[j]).wf()
                &&& ctxs@[j].seed() == mid[j].seed()
                &&& ctxs@[j].ikos_view.in_data@ == mid[j].ikos_view.in_data@
                &&& ctxs@[j].ikos_view.out_data@ == mid[j].ikos_view.out_data@.push(entries[j])
                &&& ctxs@[j].drawn() == mid[j].drawn()
                &&& ctxs@[j].out_view_ctr == mid[j].out_view_ctr
            } by {
                assert(ctxs@ =~= mid.update(0, ctxs@[0]).update(1, ctxs@[1]).update(2, ctxs@[2]));
                if j == 0 {
                } else if j == 1 {
                } else {
                    assert(j == 2);
                }
            }
        }
        zelf
    }

    /// Secure 32-bit addition as 31 boolean carry rounds. Each party mixes
    /// single bits with one fresh random word, folds the result into its
    /// running carry word, appends that whole word as one log entry, and
    /// takes `share xor rhs-share xor carry` as its sum share. When both
    /// operands are public the sum is taken locally per share, wrapping.
    pub fn add_op(self, rhs: &IKosVariable4P, ctxs: &mut Vec<IKosContext>) -> (r: IKosVariable4P)
        requires
            self.wf(),
            rhs.wf(),
            (self.shared || rhs.shared) ==> ctxs_wf(old(ctxs)@),
        ensures
            r.wf(),
            !self.shared && !rhs.shared ==> {
                &&& final(ctxs)@ == old(ctxs)@
                &&& !r.shared
                &&& forall|i: int|
                    0 <= i < 3 ==> r.value@[i] as int == (self.value@[i] + rhs.value@[i])
                        % 0x100000000
            },
            self.shared || rhs.shared ==> {
                let rw = rand_words3(old(ctxs)@);
                let cw = carry3(self.value@, rhs.value@, rw, 31);
                &&& r.shared
                &&& forall|i: int|
                    0 <= i < 3 ==> r.value@[i] == ((self.value@[i] ^ rhs.value@[i]) ^ cw[i])
                &&& gate_logged(old(ctxs)@, final(ctxs)@, cw)
                &&& recombine3(r.value@) as int == (recombine3(self.value@) + recombine3(
                    rhs.value@,
                )) % 0x100000000
            },
    {
        let mut zelf = self;
        if !zelf.shared && !rhs.shared {
            let ghost orig = zelf.value@;
            let mut i: usize = 0;
            while i < 3
                invariant
                    i <= 3,
                    zelf.value@.len() == 3,
                    rhs.wf(),
                    !zelf.shared,
                    forall|j: int|
                        0 <= j < i ==> zelf.value@[j] as int == (orig[j] + rhs.value@[j])
                            % 0x100000000,
                    forall|j: int| i <= j < 3 ==> zelf.value@[j] == orig[j],
                decreases 3 - i,
            {
                let v = zelf.value[i].wrapping_add(rhs.value[i]);
                proof {
                    assert(v as int == (orig[i as int] + rhs.value@[i as int]) % 0x100000000);
                }
                zelf.value.set(i, v);
                i = i + 1;
            }
            return zelf;
        }

        let ghost pre = ctxs@;
        let ghost rw = rand_words3(pre);
        let rand = draw_three(ctxs);
        let ghost xv = zelf.value@;
        let ghost yv = rhs.value@;
        let mut a: Vec<u32> = vec![0, 0, 0];
        let mut b: Vec<u32> = vec![0, 0, 0];
        let mut out: Vec<u32> = vec![0, 0, 0];
        proof {
            assert(out@ =~= carry3(xv, yv, rw, 0));
        }
        let mut i: u32 = 0;
        while i < 31
            invariant
                i <= 31,
                zelf.wf(),
                rhs.wf(),
                zelf.value@ == xv,
                rhs.value@ == yv,
                rand@.len() == 3,
                rand@ == rw,
                a@.len() == 3,
                b@.len() == 3,
                out@.len() == 3,
                out@ == carry3(xv, yv, rw, i as nat),
            decreases 31 - i,
        {
            let x = &zelf.value;
            let y = &rhs.value;
            a.set(0, bit_of(x[0] ^ out[0], i));
            a.set(1, bit_of(x[1] ^ out[1], i));
            a.set(2, bit_of(x[2] ^ out[2], i));
            b.set(0, bit_of(y[0] ^ out[0], i));
            b.set(1, bit_of(y[1] ^ out[1], i));
            b.set(2, bit_of(y[2] ^ out[2], i));
            let ghost p = out@;
            let c0 = ((a[0] & b[1]) ^ (a[1] & b[0])) ^ bit_of(rand[1], i);
            let o0 = with_bit(out[0], i + 1, ((c0 ^ (a[0] & b[0])) ^ bit_of(out[0], i)) ^ bit_of(
                rand[0],
                i,
            ));
            out.set(0, o0);
            let c1 = ((a[1] & b[2]) ^ (a[2] & b[1])) ^ bit_of(rand[2], i);
            let o1 = with_bit(out[1], i + 1, ((c1 ^ (a[1] & b[1])) ^ bit_of(out[1], i)) ^ bit_of(
                rand[1],
                i,
            ));
            out.set(1, o1);
            let c2 = ((a[2] & b[0]) ^ (a[0] & b[2])) ^ bit_of(rand[0], i);
            let o2 = with_bit(out[2], i + 1, ((c2 ^ (a[2] & b[2])) ^ bit_of(out[2], i)) ^ bit_of(
                rand[2],
                i,
            ));
            out.set(2, o2);
            proof {
                assert(o0 == adder_step(xv[0], yv[0], xv[1], yv[1], p[0], p[1], rw[0], rw[1], i));
                assert(o1 == adder_step(xv[1], yv[1], xv[2], yv[2], p[1], p[2], rw[1], rw[2], i));
                assert(o2 == adder_step(xv[2], yv[2], xv[0], yv[0], p[2], p[0], rw[2], rw[0], i));
                assert(out@ =~= carry3(xv, yv, rw, (i + 1) as nat));
            }
            i = i + 1;
        }
        let ghost mid = ctxs@;
        let ghost cw = carry3(xv, yv, rw, 31);
        let s0 = zelf.value[0] ^ rhs.value[0] ^ out[0];
        let s1 = zelf.value[1] ^ rhs.value[1] ^ out[1];
        let s2 = zelf.value[2] ^ rhs.value[2] ^ out[2];
        zelf.value.set(0, s0);
        zelf.value.set(1, s1);
        zelf.value.set(2, s2);
        let mut c0 = ctxs.remove(0);
        let mut c1 = ctxs.remove(0);
        let mut c2 = ctxs.remove(0);
        c0.ikos_view.out_data.push(out[0]);
        c1.ikos_view.out_data.push(out[1]);
        c2.ikos_view.out_data.push(out[2]);
        ctxs.push(c0);
        ctxs.push(c1);
        ctxs.push(c2);
        zelf.shared = true;
        proof {
            assert forall|j: int| 0 <= j < 3 implies {
                &&& (#[trigger] ctxs@[j]).wf()
                &&& ctxs@[j].seed() == mid[j].seed()
                &&& ctxs@[j].ikos_view.in_data@ == mid[j].ikos_view.in_data@
                &&& ctxs@[j].ikos_view.out_data@ == mid[j].ikos_view.out_data@.push(cw[j])
                &&& ctxs@[j].drawn() == mid[j].drawn()
                &&& ctxs@[j].out_view_ctr == mid[j].out_view_ctr
            } by {
                if j == 0 {
                } else if j == 1 {
                } else {
                    assert(j == 2);
                }
            }
            lemma_add3_recombine(xv, yv, rw);
            assert(zelf.value@ =~= Seq::new(3, |j: int| (xv[j] ^ yv[j]) ^ carry3(xv, yv, rw, 31)[j]));
        }
        zelf
    }

    /// Single-armed select: `bit_and(cond, value)`; callers combine the two
    /// branches explicitly.
    pub fn if_op(self, rhs: &IKosVariable4P, ctxs: &mut Vec<IKosContext>) -> (r: IKosVariable4P)
        requires
            self.wf(),
            rhs.wf(),
            (self.shared || rhs.shared) ==> ctxs_wf(old(ctxs)@),
        ensures
            r.wf(),
            !self.shared && !rhs.shared ==> {
                &&& final(ctxs)@ == old(ctxs)@
                &&& !r.shared
                &&& forall|i: int| 0 <= i < 3 ==> r.value@[i] == (self.value@[i] & rhs.value@[i])
            },
            self.shared || rhs.shared ==> {
                let rw = rand_words3(old(ctxs)@);
                &&& r.shared
                &&& forall|i: int|
                    0 <= i < 3 ==> r.value@[i] == and3_share(self.value@, rhs.value@, rw, i)
                &&& gate_logged(
                    old(ctxs)@,
                    final(ctxs)@,
                    Seq::new(3, |i: int| and3_share(self.value@, rhs.value@, rw, i)),
                )
            },
    {
        self.bit_and(rhs, ctxs)
    }

    /// Greater-than via two's-complement subtraction: compute
    /// `self + (!rhs + 1)` with the secure adder and map each share to
    /// all-ones when its top bit is clear, all-zeros otherwise. The shares
    /// recombine to all-ones exactly when the wrapped difference of the
    /// recombined operands is below 2^31.
    pub fn gt(self, rhs: &IKosVariable4P, ctxs: &mut Vec<IKosContext>) -> (r: IKosVariable4P)
        requires
            self.wf(),
            rhs.wf(),
            (self.shared || rhs.shared) ==> ctxs_wf(old(ctxs)@),
        ensures
            r.wf(),
            r.shared == (self.shared || rhs.shared),
            forall|i: int| 0 <= i < 3 ==> (r.value@[i] == 0xffffffffu32 || r.value@[i] == 0u32),
            (rhs.shared || replicated3(rhs.value@)) && (self.shared || rhs.shared || replicated3(
                self.value@,
            )) ==> recombine3(r.value@) == gt_clear(recombine3(self.value@), recombine3(rhs.value@)),
            !self.shared && !rhs.shared ==> final(ctxs)@ == old(ctxs)@,
            (self.shared || rhs.shared) ==> ctxs_wf(final(ctxs)@),
            // When the right operand is secret, both adders run the full
            // protocol: per party two random words drawn and the two carry
            // words appended, and each result share is the top-bit map of
            // its replayed sum share.
            rhs.shared ==> ({
                let rw1 = rand_words3(old(ctxs)@);
                let nv = neg3(rhs.value@);
                let cw1 = carry3(nv, ones3(), rw1, 31);
                let mv = sum_shares3(nv, ones3(), cw1);
                let rw2 = rand_words3_next(old(ctxs)@);
                let cw2 = carry3(self.value@, mv, rw2, 31);
                let tv = sum_shares3(self.value@, mv, cw2);
                &&& gate_logged2(old(ctxs)@, final(ctxs)@, cw1, cw2)
                &&& forall|i: int| 0 <= i < 3 ==> r.value@[i] == top_bit_map(tv[i])
            }),
            // When only the left operand is secret, the negated constant is
            // combined locally and a single adder gate runs.
            self.shared && !rhs.shared ==> ({
                let mv = Seq::new(3, |i: int| ((neg3(rhs.value@)[i] + 1) % 0x100000000) as u32);
                let rw = rand_words3(old(ctxs)@);
                let cw = carry3(self.value@, mv, rw, 31);
                let tv = sum_shares3(self.value@, mv, cw);
                &&& gate_logged(old(ctxs)@, final(ctxs)@, cw)
                &&& forall|i: int| 0 <= i < 3 ==> r.value@[i] == top_bit_map(tv[i])
            }),
            // With two public operands everything is local.
            !self.shared && !rhs.shared ==> ({
                let mv = Seq::new(3, |i: int| ((neg3(rhs.value@)[i] + 1) % 0x100000000) as u32);
                let tv = Seq::new(3, |i: int| ((self.value@[i] + mv[i]) % 0x100000000) as u32);
                forall|i: int| 0 <= i < 3 ==> r.value@[i] == top_bit_map(tv[i])
            }),
    {
        let ghost cs0 = ctxs@;
        let ghost xv = self.value@;
        let ghost yv = rhs.value@;
        let ghost self_shared = self.shared;
        let one = IKosVariable4P::new_value(1);
        let neg = rhs.duplicate().negate();
        let ghost nv = neg.value@;
        let minus_rhs = neg.add_op(&one, ctxs);
        let ghost mv = minus_rhs.value@;
        let ghost cs1 = ctxs@;
        let mut minus_gt = self.add_op(&minus_rhs, ctxs);
        let ghost tv = minus_gt.value@;
        let v0: u32 = if minus_gt.value[0] >> 31 == 0 { u32::MAX } else { 0 };
        let v1: u32 = if minus_gt.value[1] >> 31 == 0 { u32::MAX } else { 0 };
        let v2: u32 = if minus_gt.value[2] >> 31 == 0 { u32::MAX } else { 0 };
        minus_gt.value.set(0, v0);
        minus_gt.value.set(1, v1);
        minus_gt.value.set(2, v2);
        proof {
            let m = 0x100000000int;
            let am = recombine3(xv);
            let bm = recombine3(yv);
            let y0 = yv[0];
            let y1 = yv[1];
            let y2 = yv[2];
            assert(((!y0 ^ !y1) ^ !y2) == !((y0 ^ y1) ^ y2)) by (bit_vector);
            assert((!((y0 ^ y1) ^ y2)) as int == 0xffffffff - ((y0 ^ y1) ^ y2)) by (bit_vector);
            assert(nv =~= seq![!y0, !y1, !y2]);
            assert(recombine3(nv) as int == 0xffffffff - bm);
            if (rhs.shared || replicated3(yv)) && (self_shared || rhs.shared || replicated3(xv)) {
                // The recombined value of `minus_rhs` is the wrapped negation of bm.
                if rhs.shared {
                    let rw1 = rand_words3(cs0);
                    let cw1 = carry3(nv, one.value@, rw1, 31);
                    let sv1 = Seq::new(3, |j: int| (nv[j] ^ one.value@[j]) ^ cw1[j]);
                    assert(mv =~= sv1);
                    lemma_add3_recombine(nv, one.value@, rw1);
                    assert((1u32 ^ 1u32) ^ 1u32 == 1u32) by (bit_vector);
                    assert(recombine3(one.value@) == 1u32);
                    assert(recombine3(mv) as int == (recombine3(nv) + 1) % m);
                    assert(recombine3(mv) as int == (m - bm) % m);
                } else {
                    let w0 = nv[0];
                    assert(replicated3(yv));
                    assert((y0 ^ y0) ^ y0 == y0) by (bit_vector);
                    assert(bm == y0);
                    assert(nv[1] == w0 && nv[2] == w0);
                    assert(mv[0] as int == (w0 + 1) % m);
                    assert(mv[1] as int == (w0 + 1) % m);
                    assert(mv[2] as int == (w0 + 1) % m);
                    let q0 = mv[0];
                    assert((q0 ^ q0) ^ q0 == q0) by (bit_vector);
                    assert(replicated3(mv));
                    assert(recombine3(mv) == mv[0]);
                    assert(w0 as int == 0xffffffff - bm);
                    assert(recombine3(mv) as int == (m - bm) % m);
                }
                // The recombined value of the subtraction is (am - bm) mod 2^32.
                if self_shared || minus_rhs.shared {
                    let rw2 = rand_words3(cs1);
                    let cw2 = carry3(xv, mv, rw2, 31);
                    let sv2 = Seq::new(3, |j: int| (xv[j] ^ mv[j]) ^ cw2[j]);
                    assert(tv =~= sv2);
                    lemma_add3_recombine(xv, mv, rw2);
                    assert(recombine3(tv) as int == (am + recombine3(mv)) % m);
                    lemma_wrap_sub(am as int, bm as int);
                    assert(recombine3(tv) as int == (am - bm) % m);
                } else {
                    assert(replicated3(xv));
                    let x0 = xv[0];
                    assert((x0 ^ x0) ^ x0 == x0) by (bit_vector);
                    assert(am == x0);
                    assert(tv[0] as int == (x0 + mv[0]) % m);
                    assert(tv[1] as int == (x0 + mv[0]) % m);
                    assert(tv[2] as int == (x0 + mv[0]) % m);
                    let t0 = tv[0];
                    assert((t0 ^ t0) ^ t0 == t0) by (bit_vector);
                    assert(replicated3(tv));
                    assert(recombine3(tv) == tv[0]);
                    assert(recombine3(mv) == mv[0]);
                    assert(recombine3(tv) as int == (am + recombine3(mv)) % m);
                    lemma_wrap_sub(am as int, bm as int);
                    assert(recombine3(tv) as int == (am - bm) % m);
                }
                // The per-share top-bit map recombines to the top bit of the
                // recombined difference.
                let t0 = tv[0];
                let t1 = tv[1];
                let t2 = tv[2];
                assert((((if (t0 >> 31u32) == 0u32 {
                    0xffffffffu32
                } else {
                    0u32
                }) ^ (if (t1 >> 31u32) == 0u32 {
                    0xffffffffu32
                } else {
                    0u32
                })) ^ (if (t2 >> 31u32) == 0u32 {
                    0xffffffffu32
                } else {
                    0u32
                })) == (if ((t0 ^ t1) ^ t2) < 0x80000000u32 {
                    0xffffffffu32
                } else {
                    0u32
                })) by (bit_vector);
                assert(recombine3(minus_gt.value@) == (if recombine3(tv) < 0x80000000u32 {
                    0xffffffffu32
                } else {
                    0u32
                }));
            }
            // The context-effect clauses, case by case.
            assert(minus_gt.value@ =~= seq![v0, v1, v2]);
            lemma_top_bit(tv[0]);
            lemma_top_bit(tv[1]);
            lemma_top_bit(tv[2]);
            if rhs.shared {
                let rw1 = rand_words3(cs0);
                let nvs = neg3(yv);
                assert(nv =~= nvs);
                assert(one.value@ =~= ones3());
                let cw1 = carry3(nvs, ones3(), rw1, 31);
                assert(carry3(nv, one.value@, rw1, 31) == cw1);
                let mvs = sum_shares3(nvs, ones3(), cw1);
                assert(mv =~= mvs);
                let rw2 = rand_words3_next(cs0);
                assert(rand_words3(cs1) =~= rw2);
                let cw2 = carry3(xv, mvs, rw2, 31);
                assert(carry3(xv, mv, rand_words3(cs1), 31) == cw2);
                let tvs = sum_shares3(xv, mvs, cw2);
                assert(tv =~= tvs);
                assert forall|i: int| 0 <= i < 3 implies {
                    &&& (#[trigger] ctxs@[i]).wf()
                    &&& ctxs@[i].seed() == cs0[i].seed()
                    &&& ctxs@[i].ikos_view.in_data@ == cs0[i].ikos_view.in_data@
                    &&& ctxs@[i].ikos_view.out_data@ == cs0[i].ikos_view.out_data@.push(
                        cw1[i],
                    ).push(cw2[i])
                    &&& ctxs@[i].drawn() == cs0[i].drawn() + 2
                    &&& ctxs@[i].out_view_ctr == cs0[i].out_view_ctr
                } by {
                    assert(cs1[i].ikos_view.out_data@ == cs0[i].ikos_view.out_data@.push(cw1[i]));
                }
                assert(gate_logged2(cs0, ctxs@, cw1, cw2));
            } else if self_shared {
                let nvs = neg3(yv);
                assert(nv =~= nvs);
                let mvs = Seq::new(3, |i: int| ((neg3(yv)[i] + 1) % 0x100000000) as u32);
                assert forall|i: int| 0 <= i < 3 implies mv[i] == mvs[i] by {
                    assert(mv[i] as int == (nv[i] + 1) % 0x100000000);
                }
                assert(mv =~= mvs);
                assert(cs1 == cs0);
                let rw = rand_words3(cs0);
                let cw = carry3(xv, mvs, rw, 31);
                assert(carry3(xv, mv, rand_words3(cs1), 31) == cw);
                let tvs = sum_shares3(xv, mvs, cw);
                assert(tv =~= tvs);
            } else {
                let mvs = Seq::new(3, |i: int| ((neg3(yv)[i] + 1) % 0x100000000) as u32);
                assert forall|i: int| 0 <= i < 3 implies mv[i] == mvs[i] by {
                    assert(mv[i] as int == (nv[i] + 1) % 0x100000000);
                }
                let tvs = Seq::new(3, |i: int| ((xv[i] + mvs[i]) % 0x100000000) as u32);
                assert forall|i: int| 0 <= i < 3 implies tv[i] == tvs[i] by {
                    assert(tv[i] as int == (xv[i] + mv[i]) % 0x100000000);
                }
                assert(ctxs@ == cs0);
            }
        }
        minus_gt
    }
}

/// The three complemented shares.
pub open spec fn neg3(y: Seq<u32>) -> Seq<u32> {
    Seq::new(3, |i: int| !y[i])
}

/// The replicated all-one constant wire.
pub open spec fn ones3() -> Seq<u32> {
    seq![1u32, 1u32, 1u32]
}

/// The word each party would draw for a second gate, one draw after `cs`.
pub open spec fn rand_words3_next(cs: Seq<IKosContext>) -> Seq<u32> {
    Seq::new(3, |i: int| pool_word(cs[i].seed(), (cs[i].drawn() + 1) as nat))
}

/// Two non-linear gates happened back to back: every party drew two random
/// words and appended exactly its two output shares, in order.
pub open spec fn gate_logged2(
    pre: Seq<IKosContext>,
    post: Seq<IKosContext>,
    e1: Seq<u32>,
    e2: Seq<u32>,
) -> bool {
    &&& post.len() == pre.len()
    &&& forall|i: int|
        0 <= i < pre.len() ==> {
            &&& (#[trigger] post[i]).wf()
            &&& post[i].seed() == pre[i].seed()
            &&& post[i].ikos_view.in_data@ == pre[i].ikos_view.in_data@
            &&& post[i].ikos_view.out_data@ == pre[i].ikos_view.out_data@.push(e1[i]).push(e2[i])
            &&& post[i].drawn() == pre[i].drawn() + 2
            &&& post[i].out_view_ctr == pre[i].out_view_ctr
        }
}

/// The sum shares of one adder gate: share, other share, carry word.
pub open spec fn sum_shares3(x: Seq<u32>, y: Seq<u32>, cw: Seq<u32>) -> Seq<u32> {
    Seq::new(3, |i: int| (x[i] ^ y[i]) ^ cw[i])
}

/// The per-share top-bit map of `gt`: all-ones where the sign bit is clear.
pub open spec fn top_bit_map(t: u32) -> u32 {
    if get_bit(t, 31) == 0 {
        0xffffffffu32
    } else {
        0u32
    }
}

proof fn lemma_top_bit(t: u32)
    ensures
        (get_bit(t, 31) == 0) <==> (t >> 31u32 == 0),
{
    assert(((t >> 31u32) & 1 == 0) <==> (t >> 31u32 == 0)) by (bit_vector);
}

/// All-ones exactly when the wrapped difference `a - b` has a clear top bit.
pub open spec fn gt_clear(a: u32, b: u32) -> u32 {
    if (a - b) % 0x100000000 < 0x80000000 {
        0xffffffffu32
    } else {
        0u32
    }
}

/// All three shares hold the same word, as the shares of a public wire do.
pub open spec fn replicated3(v: Seq<u32>) -> bool {
    v.len() == 3 && v[0] == v[1] && v[1] == v[2]
}

proof fn lemma_wrap_sub(am: int, bm: int)
    requires
        0 <= am < 0x100000000,
        0 <= bm < 0x100000000,
    ensures
        (am + ((0x100000000 - bm) % 0x100000000)) % 0x100000000 == (am - bm) % 0x100000000,
{
    let m = 0x100000000int;
    if bm == 0 {
        vstd::arithmetic::div_mod::lemma_mod_add_multiples_vanish(0, m);
        vstd::arithmetic::div_mod::lemma_small_mod(0, m as nat);
        vstd::arithmetic::div_mod::lemma_small_mod(am as nat, m as nat);
    } else {
        vstd::arithmetic::div_mod::lemma_small_mod((m - bm) as nat, m as nat);
        vstd::arithmetic::div_mod::lemma_mod_add_multiples_vanish(am - bm, m);
    }
}

/// On operands whose difference stays within 2^31 (and which differ at all),
/// the recombined result of `gt` reads as the strict comparison itself.
pub proof fn lemma_gt_meaning(a: u32, b: u32)
    requires
        a != b,
        a > b ==> a - b < 0x80000000,
        b > a ==> b - a <= 0x80000000,
    ensures
        gt_clear(a, b) == (if a > b {
            0xffffffffu32
        } else {
            0u32
        }),
{
    let m = 0x100000000int;
    if a > b {
        vstd::arithmetic::div_mod::lemma_small_mod((a - b) as nat, m as nat);
    } else {
        vstd::arithmetic::div_mod::lemma_mod_add_multiples_vanish(a - b, m);
        vstd::arithmetic::div_mod::lemma_small_mod((a - b + m) as nat, m as nat);
    }
}

/// Bit `i` of `x` as a 0-or-1 word.
fn bit_of(x: u32, i: u32) -> (r: u32)
    requires
        i < 32,
    ensures
        r == get_bit(x, i),
{
    (x >> i) & 1
}

/// `x` with bit `i` replaced by the low bit of `b`.
fn with_bit(x: u32, i: u32, b: u32) -> (r: u32)
    requires
        i < 32,
    ensures
        r == set_bit(x, i, b),
{
    if (b & 1) != 0 {
        x | (1u32 << i)
    } else {
        x & (!(1u32 << i))
    }
}

// ---------------------------------------------------------------------------
// The shared ripple-carry adder specification
// ---------------------------------------------------------------------------

/// Party `j`'s updated carry word after the adder round for bit `i`: the
/// cross-mixed carry bit is folded in at position `i + 1`.
pub open spec fn adder_step(
    xj: u32,
    yj: u32,
    xj1: u32,
    yj1: u32,
    pj: u32,
    pj1: u32,
    rj: u32,
    rj1: u32,
    i: u32,
) -> u32 {
    let aj = get_bit(xj ^ pj, i);
    let bj = get_bit(yj ^ pj, i);
    let aj1 = get_bit(xj1 ^ pj1, i);
    let bj1 = get_bit(yj1 ^ pj1, i);
    let c = ((aj & bj1) ^ (aj1 & bj)) ^ get_bit(rj1, i);
    set_bit(pj, (i + 1) as u32, ((c ^ (aj & bj)) ^ get_bit(pj, i)) ^ get_bit(rj, i))
}

/// The three parties' carry words after the first `n` adder rounds.
pub open spec fn carry3(x: Seq<u32>, y: Seq<u32>, r: Seq<u32>, n: nat) -> Seq<u32>
    decreases n,
{
    if n == 0 {
        seq![0u32, 0u32, 0u32]
    } else {
        let p = carry3(x, y, r, (n - 1) as nat);
        let i = (n - 1) as u32;
        Seq::new(
            3,
            |j: int|
                adder_step(
                    x[j],
                    y[j],
                    x[(j + 1) % 3],
                    y[(j + 1) % 3],
                    p[j],
                    p[(j + 1) % 3],
                    r[j],
                    r[(j + 1) % 3],
                    i,
                ),
        )
    }
}

/// The majority (carry-out) bit of two addends and a carry word at bit `i`.
pub open spec fn maj_bit(a: u32, b: u32, c: u32, i: u32) -> u32 {
    ((get_bit(a, i) & get_bit(b, i)) ^ (get_bit(a, i) & get_bit(c, i))) ^ (get_bit(b, i) & get_bit(
        c,
        i,
    ))
}

/// The clear carry word of `a + b` after `n` rounds: bit `k` (for
/// `1 <= k <= n`) is the carry into position `k`.
pub open spec fn carry_word(a: u32, b: u32, n: nat) -> u32
    decreases n,
{
    if n == 0 {
        0u32
    } else {
        let p = carry_word(a, b, (n - 1) as nat);
        set_bit(p, n as u32, maj_bit(a, b, p, (n - 1) as u32))
    }
}

// ---------------------------------------------------------------------------
// Gate correctness: recombining the output shares yields the clear result
// ---------------------------------------------------------------------------

/// The low `n` bits, as a 64-bit mask.
pub open spec fn mask64(n: nat) -> u64
    recommends
        n <= 63,
{
    ((1u64 << (n as u64)) - 1) as u64
}

/// After `n` adder rounds the low `n` bits of `a + b` are settled: the low
/// bits of `a` and `b` sum to the low bits of `a xor b xor carry` plus the
/// pending carry-out at position `n`.
pub open spec fn partial_sum_ok(a: u32, b: u32, n: nat) -> bool {
    let c = carry_word(a, b, n);
    ((a as u64) & mask64(n)) + ((b as u64) & mask64(n)) == ((((a ^ b) ^ c) as u64) & mask64(n)) + (
    (get_bit(c, n as u32) as u64) << (n as u64))
}

proof fn lemma_partial_sum(a: u32, b: u32, n: nat)
    requires
        n <= 31,
    ensures
        partial_sum_ok(a, b, n),
    decreases n,
{
    if n == 0 {
        assert(carry_word(a, b, 0) == 0u32);
        assert((((a as u64) & (((1u64 << 0u64) - 1) as u64)) + ((b as u64) & (((1u64 << 0u64)
            - 1) as u64)) == ((((a ^ b) ^ 0u32) as u64) & (((1u64 << 0u64) - 1) as u64)) + ((((0u32
            >> 0u32) & 1u32) as u64) << 0u64))) by (bit_vector);
        assert(mask64(0) == ((1u64 << 0u64) - 1) as u64);
        assert(get_bit(0u32, 0u32) == (0u32 >> 0u32) & 1u32);
    } else {
        lemma_partial_sum(a, b, (n - 1) as nat);
        let m = (n - 1) as u32;
        let c = carry_word(a, b, (n - 1) as nat);
        let cn = carry_word(a, b, n);
        assert(cn == set_bit(c, n as u32, maj_bit(a, b, c, m)));
        assert(n as u32 == m + 1);
        assert(n as u64 == (m as u64) + 1);
        assert(((n - 1) as nat) as u64 == m as u64);
        assert(mask64((n - 1) as nat) == ((1u64 << (m as u64)) - 1) as u64);
        assert(get_bit(c, m) == (c >> m) & 1u32);
        assert(((a as u64) & (((1u64 << (m as u64)) - 1) as u64)) + ((b as u64) & (((1u64 << (m
            as u64)) - 1) as u64)) == ((((a ^ b) ^ c) as u64) & (((1u64 << (m as u64)) - 1) as u64))
            + ((((c >> m) & 1u32) as u64) << (m as u64)));
        assert(((a as u64) & (((1u64 << ((m as u64) + 1)) - 1) as u64)) + ((b as u64) & (((1u64 << (
        (m as u64) + 1)) - 1) as u64)) == ((((a ^ b) ^ set_bit(c, (m + 1) as u32, maj_bit(a, b, c, m)))
            as u64) & (((1u64 << ((m as u64) + 1)) - 1) as u64)) + ((((set_bit(c, (m + 1) as u32,
            maj_bit(a, b, c, m)) >> ((m + 1) as u32)) & 1u32) as u64) << ((m as u64) + 1)))
            by (bit_vector)
            requires
                m <= 30,
                ((a as u64) & (((1u64 << (m as u64)) - 1) as u64)) + ((b as u64) & (((1u64 << (m
                    as u64)) - 1) as u64)) == ((((a ^ b) ^ c) as u64) & (((1u64 << (m as u64))
                    - 1) as u64)) + ((((c >> m) & 1u32) as u64) << (m as u64)),
        ;
        assert(cn == set_bit(c, (m + 1) as u32, maj_bit(a, b, c, m)));
        assert(mask64(n) == ((1u64 << ((m as u64) + 1)) - 1) as u64);
        assert(get_bit(cn, n as u32) == (cn >> ((m + 1) as u32)) & 1u32);
    }
}

/// After all 31 rounds the carry word turns per-bit exclusive or into true
/// 32-bit addition.
pub proof fn lemma_adder_word(a: u32, b: u32)
    ensures
        (((a ^ b) ^ carry_word(a, b, 31)) as int) == (a + b) % 0x100000000,
{
    lemma_partial_sum(a, b, 31);
    let c = carry_word(a, b, 31);
    assert(mask64(31) == ((1u64 << 31u64) - 1) as u64);
    assert(get_bit(c, 31u32) == (c >> 31u32) & 1u32);
    assert(((a as u64) & (((1u64 << 31u64) - 1) as u64)) + ((b as u64) & (((1u64 << 31u64)
        - 1) as u64)) == ((((a ^ b) ^ c) as u64) & (((1u64 << 31u64) - 1) as u64)) + ((((c >> 31u32)
        & 1u32) as u64) << 31u64));
    assert((((a ^ b) ^ c) as int) == (a + b) % 0x100000000) by (bit_vector)
        requires
            ((a as u64) & (((1u64 << 31u64) - 1) as u64)) + ((b as u64) & (((1u64 << 31u64)
                - 1) as u64)) == ((((a ^ b) ^ c) as u64) & (((1u64 << 31u64) - 1) as u64)) + ((((c
                >> 31u32) & 1u32) as u64) << 31u64),
    ;
}

/// The three carry words collapse under exclusive or to the clear carry word
/// of the recombined addends: the randomness cancels round by round.
pub proof fn lemma_carry3_collapse(x: Seq<u32>, y: Seq<u32>, r: Seq<u32>, n: nat)
    requires
        x.len() == 3,
        y.len() == 3,
        r.len() == 3,
        n <= 31,
    ensures
        recombine3(carry3(x, y, r, n)) == carry_word(recombine3(x), recombine3(y), n),
    decreases n,
{
    let x0 = x[0];
    let x1 = x[1];
    let x2 = x[2];
    let y0 = y[0];
    let y1 = y[1];
    let y2 = y[2];
    let r0 = r[0];
    let r1 = r[1];
    let r2 = r[2];
    if n == 0 {
        assert((0u32 ^ 0u32) ^ 0u32 == 0u32) by (bit_vector);
    } else {
        lemma_carry3_collapse(x, y, r, (n - 1) as nat);
        let p = carry3(x, y, r, (n - 1) as nat);
        let i = (n - 1) as u32;
        let p0 = p[0];
        let p1 = p[1];
        let p2 = p[2];
        let cur = carry3(x, y, r, n);
        assert(cur[0] == adder_step(x0, y0, x1, y1, p0, p1, r0, r1, i));
        assert(cur[1] == adder_step(x1, y1, x2, y2, p1, p2, r1, r2, i));
        assert(cur[2] == adder_step(x2, y2, x0, y0, p2, p0, r2, r0, i));
        assert((adder_step(x0, y0, x1, y1, p0, p1, r0, r1, i) ^ adder_step(x1, y1, x2, y2, p1, p2,
            r1, r2, i)) ^ adder_step(x2, y2, x0, y0, p2, p0, r2, r0, i) == set_bit((p0 ^ p1) ^ p2, (
        i + 1) as u32, maj_bit((x0 ^ x1) ^ x2, (y0 ^ y1) ^ y2, (p0 ^ p1) ^ p2, i))) by (bit_vector)
            requires
                i <= 30,
        ;
        assert((i + 1) as u32 == n as u32);
        assert(carry_word(recombine3(x), recombine3(y), n) == set_bit(
            carry_word(recombine3(x), recombine3(y), (n - 1) as nat),
            n as u32,
            maj_bit(
                recombine3(x),
                recombine3(y),
                carry_word(recombine3(x), recombine3(y), (n - 1) as nat),
                i,
            ),
        ));
    }
}

/// For every pair of inputs, every 3-share split and every randomness, the
/// adder's sum shares recombine to the sum of the recombined inputs modulo
/// 2^32.
pub proof fn lemma_add3_recombine(x: Seq<u32>, y: Seq<u32>, r: Seq<u32>)
    requires
        x.len() == 3,
        y.len() == 3,
        r.len() == 3,
    ensures
        (recombine3(Seq::new(3, |j: int| (x[j] ^ y[j]) ^ carry3(x, y, r, 31)[j])) as int) == (
        recombine3(x) + recombine3(y)) % 0x100000000,
{
    lemma_carry3_collapse(x, y, r, 31);
    let cw = carry3(x, y, r, 31);
    let a = recombine3(x);
    let b = recombine3(y);
    let x0 = x[0];
    let x1 = x[1];
    let x2 = x[2];
    let y0 = y[0];
    let y1 = y[1];
    let y2 = y[2];
    let c0 = cw[0];
    let c1 = cw[1];
    let c2 = cw[2];
    let s = Seq::new(3, |j: int| (x[j] ^ y[j]) ^ carry3(x, y, r, 31)[j]);
    assert(s[0] == (x0 ^ y0) ^ c0);
    assert(s[1] == (x1 ^ y1) ^ c1);
    assert(s[2] == (x2 ^ y2) ^ c2);
    assert((((x0 ^ y0) ^ c0) ^ ((x1 ^ y1) ^ c1)) ^ ((x2 ^ y2) ^ c2) == (((x0 ^ x1) ^ x2) ^ ((y0
        ^ y1) ^ y2)) ^ ((c0 ^ c1) ^ c2)) by (bit_vector);
    lemma_adder_word(a, b);
}

/// For every pair of inputs, every 3-share split and every randomness, the
/// AND gate's output shares recombine to the AND of the recombined inputs:
/// the per-party randomness cancels and the cross terms expand the product.
pub proof fn lemma_and3_recombine(x: Seq<u32>, y: Seq<u32>, r: Seq<u32>)
    requires
        x.len() == 3,
        y.len() == 3,
        r.len() == 3,
    ensures
        recombine3(Seq::new(3, |i: int| and3_share(x, y, r, i))) == (recombine3(x) & recombine3(
            y,
        )),
{
    let x0 = x[0];
    let x1 = x[1];
    let x2 = x[2];
    let y0 = y[0];
    let y1 = y[1];
    let y2 = y[2];
    let r0 = r[0];
    let r1 = r[1];
    let r2 = r[2];
    let o = Seq::new(3, |i: int| and3_share(x, y, r, i));
    assert(o[0] == ((((x0 & y1) ^ (x1 & y0)) ^ (x0 & y0)) ^ r0) ^ r1);
    assert(o[1] == ((((x1 & y2) ^ (x2 & y1)) ^ (x1 & y1)) ^ r1) ^ r2);
    assert(o[2] == ((((x2 & y0) ^ (x0 & y2)) ^ (x2 & y2)) ^ r2) ^ r0);
    assert(((((((x0 & y1) ^ (x1 & y0)) ^ (x0 & y0)) ^ r0) ^ r1) ^ (((((x1 & y2) ^ (x2 & y1)) ^ (x1
        & y1)) ^ r1) ^ r2)) ^ (((((x2 & y0) ^ (x0 & y2)) ^ (x2 & y2)) ^ r2) ^ r0) == ((x0 ^ x1)
        ^ x2) & ((y0 ^ y1) ^ y2)) by (bit_vector);
}

/// Draw one word from each of the three contexts, in party order.
fn draw_three(ctxs: &mut Vec<IKosContext>) -> (r: Vec<u32>)
    requires
        ctxs_wf(old(ctxs)@),
    ensures
        r@ =~= rand_words3(old(ctxs)@),
        final(ctxs)@.len() == 3,
        forall|j: int|
            0 <= j < 3 ==> {
                &&& (#[trigger] final(ctxs)@[j]).wf()
                &&& final(ctxs)@[j].seed() == old(ctxs)@[j].seed()
                &&& final(ctxs)@[j].ikos_view == old(ctxs)@[j].ikos_view
                &&& final(ctxs)@[j].drawn() == old(ctxs)@[j].drawn() + 1
                &&& final(ctxs)@[j].out_view_ctr == old(ctxs)@[j].out_view_ctr
            },
{
    let ghost pre = ctxs@;
    let mut c0 = ctxs.remove(0);
    let mut c1 = ctxs.remove(0);
    let mut c2 = ctxs.remove(0);
    let r0 = next_random_total(&mut c0);
    let r1 = next_random_total(&mut c1);
    let r2 = next_random_total(&mut c2);
    ctxs.push(c0);
    ctxs.push(c1);
    ctxs.push(c2);
    let rand = vec![r0, r1, r2];
    proof {
        assert(rand@ =~= rand_words3(pre));
        assert forall|j: int| 0 <= j < 3 implies {
            &&& (#[trigger] ctxs@[j]).wf()
            &&& ctxs@[j].seed() == pre[j].seed()
            &&& ctxs@[j].ikos_view == pre[j].ikos_view
            &&& ctxs@[j].drawn() == pre[j].drawn() + 1
            &&& ctxs@[j].out_view_ctr == pre[j].out_view_ctr
        } by {
            if j == 0 {
            } else if j == 1 {
            } else {
                assert(j == 2);
            }
        }
    }
    rand
}

/// One pool word; the pool never runs dry, so the draw always succeeds.
fn next_random_total(ctx: &mut IKosContext) -> (r: u32)
    requires
        old(ctx).wf(),
    ensures
        final(ctx).wf(),
        r == pool_word(old(ctx).seed(), old(ctx).drawn()),
        final(ctx).ikos_view == old(ctx).ikos_view,
        final(ctx).out_view_ctr == old(ctx).out_view_ctr,
        final(ctx).drawn() == old(ctx).drawn() + 1,
{
    match get_next_random_from_context(ctx) {
        Ok(v) => v,
        Err(_) => {
            proof {
                assert(false);
            }
            0
        },
    }
}

// ---------------------------------------------------------------------------
// Verifier-side wires: the two revealed parties replay and check
// ---------------------------------------------------------------------------

/// Both replay contexts of one repetition are well formed.
pub open spec fn ctxs2_wf(cs: Seq<IKosContext>) -> bool {
    cs.len() == 2 && (forall|i: int| 0 <= i < 2 ==> (#[trigger] cs[i]).wf())
}

/// The word each of the two parties would draw next from its own pool.
pub open spec fn rand_words2(cs: Seq<IKosContext>) -> Seq<u32> {
    Seq::new(2, |i: int| pool_word(cs[i].seed(), cs[i].drawn()))
}

/// The first revealed party's output share of the AND protocol, recomputed
/// from the two revealed shares and both parties' randomness.
pub open spec fn and2_out(x: Seq<u32>, y: Seq<u32>, r: Seq<u32>) -> u32 {
    ((((x[0] & y[1]) ^ (x[1] & y[0])) ^ (x[0] & y[0])) ^ r[0]) ^ r[1]
}

/// The first revealed party's carry word after `n` adder rounds, derived
/// bit by bit while the second party's carry word `w1` is read from its log.
pub open spec fn carry2(x: Seq<u32>, y: Seq<u32>, r: Seq<u32>, w1: u32, n: nat) -> u32
    decreases n,
{
    if n == 0 {
        0u32
    } else {
        let p = carry2(x, y, r, w1, (n - 1) as nat);
        let i = (n - 1) as u32;
        adder_step(x[0], y[0], x[1], y[1], p, w1, r[0], r[1], i)
    }
}

/// The two complemented shares.
pub open spec fn neg2(y: Seq<u32>) -> Seq<u32> {
    Seq::new(2, |i: int| !y[i])
}

/// The replicated all-one constant wire, two shares.
pub open spec fn ones2() -> Seq<u32> {
    seq![1u32, 1u32]
}

/// The word each replay party would draw for a second gate.
pub open spec fn rand_words2_next(cs: Seq<IKosContext>) -> Seq<u32> {
    Seq::new(2, |i: int| pool_word(cs[i].seed(), (cs[i].drawn() + 1) as nat))
}

/// The sum shares of one replayed adder gate.
pub open spec fn sum_shares2(x: Seq<u32>, y: Seq<u32>, w0: u32, w1: u32) -> Seq<u32> {
    seq![(x[0] ^ y[0]) ^ w0, (x[1] ^ y[1]) ^ w1]
}

/// The recorded carry word `w0` of the first revealed party passes the
/// bit-by-bit replay check against the second party's recorded word `w1`.
pub open spec fn adder2_check(x: Seq<u32>, y: Seq<u32>, r: Seq<u32>, w0: u32, w1: u32) -> bool {
    forall|i: u32|
        i < 31 ==> get_bit(w0, (i + 1) as u32) == get_bit(
            #[trigger] adder_step(x[0], y[0], x[1], y[1], w0, w1, r[0], r[1], i),
            (i + 1) as u32,
        )
}

/// A verifier-side wire: one 32-bit share per revealed party.
#[derive(Clone, Debug)]
pub struct IKosVariable4V {
    pub value: Vec<u32>,
    pub shared: bool,
}

impl IKosVariable4V {
    pub open spec fn wf(self) -> bool {
        self.value@.len() == 2
    }

    /// A public or constant wire: the value replicated across both parties.
    pub fn new_value(value: u32) -> (r: IKosVariable4V)
        ensures
            r.wf(),
            !r.shared,
            r.value@ =~= seq![value, value],
    {
        IKosVariable4V { value: vec![value, value], shared: false }
    }

    /// A secret wire from the two revealed shares.
    pub fn new_share(value: Vec<u32>) -> (r: IKosVariable4V)
        requires
            value@.len() == 2,
        ensures
            r.wf(),
            r.shared,
            r.value@ == value@,
    {
        IKosVariable4V { value, shared: true }
    }

    fn is_empty_context(&self) -> (r: bool)
        ensures
            r == !self.shared,
    {
        !self.shared
    }

    /// An identical wire; shares and kind are preserved.
    pub fn duplicate(&self) -> (r: IKosVariable4V)
        requires
            self.wf(),
        ensures
            r.wf(),
            r.value@ == self.value@,
            r.shared == self.shared,
    {
        let value = self.value.clone();
        proof {
            assert(value@ =~= self.value@);
        }
        IKosVariable4V { value, shared: self.shared }
    }

    /// Per-share bitwise complement.
    pub fn negate(self) -> (r: IKosVariable4V)
        requires
            self.wf(),
        ensures
            r.wf(),
            r.shared == self.shared,
            forall|i: int| 0 <= i < 2 ==> r.value@[i] == !self.value@[i],
    {
        let mut zelf = self;
        let v0 = zelf.value[0];
        let v1 = zelf.value[1];
        zelf.value.set(0, !v0);
        zelf.value.set(1, !v1);
        zelf
    }

    /// Per-share exclusive or.
    pub fn xor(self, rhs: &IKosVariable4V) -> (r: IKosVariable4V)
        requires
            self.wf(),
            rhs.wf(),
        ensures
            r.wf(),
            r.shared == self.shared,
            forall|i: int| 0 <= i < 2 ==> r.value@[i] == (self.value@[i] ^ rhs.value@[i]),
    {
        let mut zelf = self;
        let v0 = zelf.value[0] ^ rhs.value[0];
        let v1 = zelf.value[1] ^ rhs.value[1];
        zelf.value.set(0, v0);
        zelf.value.set(1, v1);
        zelf
    }

    /// Per-share right shift.
    pub fn rshift(self, n: u32) -> (r: IKosVariable4V)
        requires
            self.wf(),
            n < 32,
        ensures
            r.wf(),
            r.shared == self.shared,
            forall|i: int| 0 <= i < 2 ==> r.value@[i] == (self.value@[i] >> n),
    {
        let mut zelf = self;
        let v0 = zelf.value[0] >> n;
        let v1 = zelf.value[1] >> n;
        zelf.value.set(0, v0);
        zelf.value.set(1, v1);
        zelf
    }

    /// Per-share left shift.
    pub fn lshift(self, n: u32) -> (r: IKosVariable4V)
        requires
            self.wf(),
            n < 32,
        ensures
            r.wf(),
            r.shared == self.shared,
            forall|i: int| 0 <= i < 2 ==> r.value@[i] == (self.value@[i] << n),
    {
        let mut zelf = self;
        let v0 = zelf.value[0] << n;
        let v1 = zelf.value[1] << n;
        zelf.value.set(0, v0);
        zelf.value.set(1, v1);
        zelf
    }

    /// Per-share bitwise or; inherited plain OR, preserved as it stands.
    pub fn bit_or(self, rhs: &IKosVariable4V) -> (r: IKosVariable4V)
        requires
            self.wf(),
            rhs.wf(),
        ensures
            r.wf(),
            r.shared == self.shared,
            forall|i: int| 0 <= i < 2 ==> r.value@[i] == (self.value@[i] | rhs.value@[i]),
    {
        let mut zelf = self;
        let v0 = zelf.value[0] | rhs.value[0];
        let v1 = zelf.value[1] | rhs.value[1];
        zelf.value.set(0, v0);
        zelf.value.set(1, v1);
        zelf
    }

    /// The first party's log entry for this gate was never committed and must
    /// be derived, which shows as a length mismatch between the two logs.
    pub fn require_reconstruct(ctx: &Vec<IKosContext>) -> (r: bool)
        requires
            ctx@.len() == 2,
        ensures
            r == (ctx@[0].ikos_view.out_data@.len() != ctx@[1].ikos_view.out_data@.len()),
    {
        ctx[0].ikos_view.out_data.len() != ctx[1].ikos_view.out_data.len()
    }

    /// Replay the AND gate: recompute the first revealed party's output
    /// share; if that party's log already holds an entry at the cursor it
    /// must match (a mismatch rejects the proof), and otherwise the new
    /// value extends the log. The second party's share is read from its
    /// committed log.
    pub fn bit_and(self, rhs: &IKosVariable4V, ctxs: &mut Vec<IKosContext>) -> (r: IKosResult<
        IKosVariable4V,
    >)
        requires
            self.wf(),
            rhs.wf(),
            (self.shared || rhs.shared) ==> ctxs2_wf(old(ctxs)@),
        ensures
            !self.shared && !rhs.shared ==> {
                &&& final(ctxs)@ == old(ctxs)@
                &&& r is Ok
                &&& r->Ok_0.wf()
                &&& !r->Ok_0.shared
                &&& forall|i: int|
                    0 <= i < 2 ==> r->Ok_0.value@[i] == (self.value@[i] & rhs.value@[i])
            },
            self.shared || rhs.shared ==> ({
                let rw = rand_words2(old(ctxs)@);
                let out = and2_out(self.value@, rhs.value@, rw);
                let d0 = old(ctxs)@[0].ikos_view.out_data@;
                let d1 = old(ctxs)@[1].ikos_view.out_data@;
                let k0 = old(ctxs)@[0].out_view_ctr;
                let k1 = old(ctxs)@[1].out_view_ctr;
                let req = d0.len() != d1.len();
                                &&& r is Err ==> {
                    &&& final(ctxs)@.len() == 2
                    &&& final(ctxs)@[0].ikos_view == old(ctxs)@[0].ikos_view
                    &&& final(ctxs)@[1].ikos_view == old(ctxs)@[1].ikos_view
                    &&& final(ctxs)@[0].out_view_ctr == k0
                    &&& final(ctxs)@[1].out_view_ctr == k1
                }
                &&& (r is Ok <==> ((if req {
                    k0 < usize::MAX
                } else {
                    k0 < d0.len() && out == d0[k0 as int]
                }) && k1 < d1.len()))
                &&& r is Ok ==> {
                    &&& r->Ok_0.wf()
                    &&& r->Ok_0.shared
                    &&& r->Ok_0.value@ =~= seq![out, d1[k1 as int]]
                    &&& final(ctxs)@.len() == 2
                    &&& final(ctxs)@[0].wf()
                    &&& final(ctxs)@[0].seed() == old(ctxs)@[0].seed()
                    &&& final(ctxs)@[0].ikos_view.in_data@ == old(ctxs)@[0].ikos_view.in_data@
                    &&& final(ctxs)@[0].ikos_view.out_data@ == (if req {
                        d0.push(out)
                    } else {
                        d0
                    })
                    &&& final(ctxs)@[0].out_view_ctr == k0 + 1
                    &&& final(ctxs)@[0].drawn() == old(ctxs)@[0].drawn() + 1
                    &&& final(ctxs)@[1].wf()
                    &&& final(ctxs)@[1].seed() == old(ctxs)@[1].seed()
                    &&& final(ctxs)@[1].ikos_view == old(ctxs)@[1].ikos_view
                    &&& final(ctxs)@[1].out_view_ctr == k1 + 1
                    &&& final(ctxs)@[1].drawn() == old(ctxs)@[1].drawn() + 1
                }
            }),
    {
        let mut zelf = self;
        if !zelf.shared && !rhs.shared {
            let v0 = zelf.value[0] & rhs.value[0];
            let v1 = zelf.value[1] & rhs.value[1];
            zelf.value.set(0, v0);
            zelf.value.set(1, v1);
            return Ok(zelf);
        }
        let ghost pre = ctxs@;
        let rand = draw_two(ctxs);
        let out = ((((zelf.value[0] & rhs.value[1]) ^ (zelf.value[1] & rhs.value[0]))
            ^ (zelf.value[0] & rhs.value[0])) ^ rand[0]) ^ rand[1];
        let required = IKosVariable4V::require_reconstruct(ctxs);
        let mut c0 = ctxs.remove(0);
        let mut c1 = ctxs.remove(0);
        // All checks come before any log is extended, so a rejected gate
        // leaves the views and cursors as they were.
        if c1.out_view_ctr >= c1.ikos_view.out_data.len() {
            ctxs.push(c0);
            ctxs.push(c1);
            return Err(IKosError { error: "_IkosVariable4V & operation fail.".to_owned() });
        }
        if !required {
            if c0.out_view_ctr >= c0.ikos_view.out_data.len() {
                ctxs.push(c0);
                ctxs.push(c1);
                return Err(IKosError { error: "_IkosVariable4V & operation fail.".to_owned() });
            }
            if out != c0.ikos_view.out_data[c0.out_view_ctr] {
                ctxs.push(c0);
                ctxs.push(c1);
                return Err(IKosError { error: "_IkosVariable4V & operation fail.".to_owned() });
            }
        } else {
            if c0.out_view_ctr == usize::MAX {
                ctxs.push(c0);
                ctxs.push(c1);
                return Err(IKosError { error: "_IkosVariable4V & operation fail.".to_owned() });
            }
            c0.ikos_view.out_data.push(out);
        }
        let v1 = c1.ikos_view.out_data[c1.out_view_ctr];
        zelf.value.set(0, out);
        zelf.value.set(1, v1);
        c0.out_view_ctr = c0.out_view_ctr + 1;
        c1.out_view_ctr = c1.out_view_ctr + 1;
        ctxs.push(c0);
        ctxs.push(c1);
        zelf.shared = true;
        Ok(zelf)
    }

    /// Replay of the adder. The second party's carry word is read from its
    /// log; the first party's is either checked bit by bit against its
    /// committed entry (a mismatch rejects the proof) or derived and
    /// appended.
    pub fn add_op(self, rhs: &IKosVariable4V, ctxs: &mut Vec<IKosContext>) -> (r: IKosResult<
        IKosVariable4V,
    >)
        requires
            self.wf(),
            rhs.wf(),
            (self.shared || rhs.shared) ==> ctxs2_wf(old(ctxs)@),
        ensures
            !self.shared && !rhs.shared ==> {
                &&& final(ctxs)@ == old(ctxs)@
                &&& r is Ok
                &&& r->Ok_0.wf()
                &&& !r->Ok_0.shared
                &&& forall|i: int|
                    0 <= i < 2 ==> r->Ok_0.value@[i] as int == (self.value@[i] + rhs.value@[i])
                        % 0x100000000
            },
            self.shared || rhs.shared ==> ({
                let rw = rand_words2(old(ctxs)@);
                let d0 = old(ctxs)@[0].ikos_view.out_data@;
                let d1 = old(ctxs)@[1].ikos_view.out_data@;
                let k0 = old(ctxs)@[0].out_view_ctr;
                let k1 = old(ctxs)@[1].out_view_ctr;
                let req = d0.len() != d1.len();
                let w1 = d1[k1 as int];
                let w0 = if req {
                    carry2(self.value@, rhs.value@, rw, w1, 31)
                } else {
                    d0[k0 as int]
                };
                &&& r is Err ==> {
                    &&& final(ctxs)@.len() == 2
                    &&& final(ctxs)@[0].ikos_view == old(ctxs)@[0].ikos_view
                    &&& final(ctxs)@[1].ikos_view == old(ctxs)@[1].ikos_view
                    &&& final(ctxs)@[0].out_view_ctr == k0
                    &&& final(ctxs)@[1].out_view_ctr == k1
                }
                &&& (r is Ok <==> (k1 < d1.len() && (if req {
                    k0 < usize::MAX
                } else {
                    k0 < d0.len() && adder2_check(self.value@, rhs.value@, rw, d0[k0 as int], w1)
                })))
                &&& r is Ok ==> {
                    &&& r->Ok_0.wf()
                    &&& r->Ok_0.shared
                    &&& r->Ok_0.value@ =~= seq![
                        (self.value@[0] ^ rhs.value@[0]) ^ w0,
                        (self.value@[1] ^ rhs.value@[1]) ^ w1,
                    ]
                    &&& final(ctxs)@.len() == 2
                    &&& final(ctxs)@[0].wf()
                    &&& final(ctxs)@[0].seed() == old(ctxs)@[0].seed()
                    &&& final(ctxs)@[0].ikos_view.in_data@ == old(ctxs)@[0].ikos_view.in_data@
                    &&& final(ctxs)@[0].ikos_view.out_data@ == (if req {
                        d0.push(w0)
                    } else {
                        d0
                    })
                    &&& final(ctxs)@[0].out_view_ctr == k0 + 1
                    &&& final(ctxs)@[0].drawn() == old(ctxs)@[0].drawn() + 1
                    &&& final(ctxs)@[1].wf()
                    &&& final(ctxs)@[1].seed() == old(ctxs)@[1].seed()
                    &&& final(ctxs)@[1].ikos_view == old(ctxs)@[1].ikos_view
                    &&& final(ctxs)@[1].out_view_ctr == k1 + 1
                    &&& final(ctxs)@[1].drawn() == old(ctxs)@[1].drawn() + 1
                }
            }),
    {
        let mut zelf = self;
        if !zelf.shared && !rhs.shared {
            let ghost orig = zelf.value@;
            let v0 = zelf.value[0].wrapping_add(rhs.value[0]);
            let v1 = zelf.value[1].wrapping_add(rhs.value[1]);
            proof {
                assert(v0 as int == (orig[0] + rhs.value@[0]) % 0x100000000);
                assert(v1 as int == (orig[1] + rhs.value@[1]) % 0x100000000);
            }
            zelf.value.set(0, v0);
            zelf.value.set(1, v1);
            return Ok(zelf);
        }
        let ghost pre = ctxs@;
        let ghost xv = zelf.value@;
        let ghost yv = rhs.value@;
        let ghost rw = rand_words2(pre);
        let rand = draw_two(ctxs);
        let required = IKosVariable4V::require_reconstruct(ctxs);
        let mut c0 = ctxs.remove(0);
        let mut c1 = ctxs.remove(0);
        // Read the second party's carry word; in checking mode also the first's.
        if c1.out_view_ctr >= c1.ikos_view.out_data.len() {
            ctxs.push(c0);
            ctxs.push(c1);
            return Err(IKosError { error: "IkosVariable4V + operation fail.".to_owned() });
        }
        let w1 = c1.ikos_view.out_data[c1.out_view_ctr];
        let mut w0: u32 = 0;
        if !required {
            if c0.out_view_ctr >= c0.ikos_view.out_data.len() {
                ctxs.push(c0);
                ctxs.push(c1);
                return Err(IKosError { error: "IkosVariable4V + operation fail.".to_owned() });
            }
            w0 = c0.ikos_view.out_data[c0.out_view_ctr];
        } else {
            if c0.out_view_ctr == usize::MAX {
                ctxs.push(c0);
                ctxs.push(c1);
                return Err(IKosError { error: "IkosVariable4V + operation fail.".to_owned() });
            }
        }
        let ghost logged0 = w0;
        let x0 = zelf.value[0];
        let x1 = zelf.value[1];
        let y0 = rhs.value[0];
        let y1 = rhs.value[1];
        let mut i: u32 = 0;
        #[verifier::loop_isolation(false)]
        while i < 31
            invariant
                i <= 31,
                ctxs@.len() == 0,
                xv.len() == 2,
                yv.len() == 2,
                rw.len() == 2,
                x0 == xv[0],
                x1 == xv[1],
                y0 == yv[0],
                y1 == yv[1],
                rand@ == rw,
                rand@.len() == 2,
                !required ==> w0 == logged0,
                !required ==> forall|k: u32|
                    k < i ==> get_bit(logged0, (k + 1) as u32) == get_bit(
                        #[trigger] adder_step(xv[0], yv[0], xv[1], yv[1], logged0, w1, rw[0], rw[1], k),
                        (k + 1) as u32,
                    ),
                required ==> w0 == carry2(xv, yv, rw, w1, i as nat),
            decreases 31 - i,
        {
            let a0 = bit_of(x0 ^ w0, i);
            let a1 = bit_of(x1 ^ w1, i);
            let b0 = bit_of(y0 ^ w0, i);
            let b1 = bit_of(y1 ^ w1, i);
            let c = ((a0 & b1) ^ (a1 & b0)) ^ bit_of(rand[1], i);
            let t = ((c ^ (a0 & b0)) ^ bit_of(w0, i)) ^ bit_of(rand[0], i);
            proof {
                lemma_get_bit_le(xv[0] ^ w0, i);
                lemma_get_bit_le(xv[1] ^ w1, i);
                lemma_get_bit_le(yv[0] ^ w0, i);
                lemma_get_bit_le(yv[1] ^ w1, i);
                lemma_get_bit_le(rw[0], i);
                lemma_get_bit_le(rw[1], i);
                lemma_get_bit_le(w0, i);
                lemma_t_single_bit(a0, a1, b0, b1, get_bit(rw[1], i), get_bit(w0, i), get_bit(rw[0], i));
            }
            if !required {
                if t != bit_of(w0, i + 1) {
                    proof {
                        lemma_set_get_bit(w0, (i + 1) as u32, t);
                        if adder2_check(xv, yv, rw, logged0, w1) {
                            assert(get_bit(logged0, (i + 1) as u32) == get_bit(
                                adder_step(
                                    xv[0],
                                    yv[0],
                                    xv[1],
                                    yv[1],
                                    logged0,
                                    w1,
                                    rw[0],
                                    rw[1],
                                    i,
                                ),
                                (i + 1) as u32,
                            ));
                            assert(false);
                        }
                    }
                    ctxs.push(c0);
                    ctxs.push(c1);
                    return Err(IKosError { error: "IkosVariable4V + operation fail.".to_owned() });
                }
                proof {
                    lemma_set_get_bit(w0, (i + 1) as u32, t);
                }
            } else {
                let neww0 = with_bit(w0, i + 1, t);
                proof {
                    assert(neww0 == adder_step(xv[0], yv[0], xv[1], yv[1], w0, w1, rw[0], rw[1], i));
                    assert(neww0 == carry2(xv, yv, rw, w1, (i + 1) as nat));
                }
                w0 = neww0;
            }
            i = i + 1;
        }
        if required {
            c0.ikos_view.out_data.push(w0);
        }
        let v0 = x0 ^ y0 ^ w0;
        let v1 = x1 ^ y1 ^ w1;
        zelf.value.set(0, v0);
        zelf.value.set(1, v1);
        c0.out_view_ctr = c0.out_view_ctr + 1;
        c1.out_view_ctr = c1.out_view_ctr + 1;
        ctxs.push(c0);
        ctxs.push(c1);
        zelf.shared = true;
        Ok(zelf)
    }

    /// Single-armed select on the replay side: `bit_and(cond, value)`, with
    /// exactly the AND replay's acceptance condition and effects.
    pub fn if_op(self, rhs: &IKosVariable4V, ctxs: &mut Vec<IKosContext>) -> (r: IKosResult<
        IKosVariable4V,
    >)
        requires
            self.wf(),
            rhs.wf(),
            (self.shared || rhs.shared) ==> ctxs2_wf(old(ctxs)@),
        ensures
            !self.shared && !rhs.shared ==> {
                &&& final(ctxs)@ == old(ctxs)@
                &&& r is Ok
                &&& r->Ok_0.wf()
                &&& !r->Ok_0.shared
                &&& forall|i: int|
                    0 <= i < 2 ==> r->Ok_0.value@[i] == (self.value@[i] & rhs.value@[i])
            },
            self.shared || rhs.shared ==> ({
                let rw = rand_words2(old(ctxs)@);
                let out = and2_out(self.value@, rhs.value@, rw);
                let d0 = old(ctxs)@[0].ikos_view.out_data@;
                let d1 = old(ctxs)@[1].ikos_view.out_data@;
                let k0 = old(ctxs)@[0].out_view_ctr;
                let k1 = old(ctxs)@[1].out_view_ctr;
                let req = d0.len() != d1.len();
                                &&& r is Err ==> {
                    &&& final(ctxs)@.len() == 2
                    &&& final(ctxs)@[0].ikos_view == old(ctxs)@[0].ikos_view
                    &&& final(ctxs)@[1].ikos_view == old(ctxs)@[1].ikos_view
                    &&& final(ctxs)@[0].out_view_ctr == k0
                    &&& final(ctxs)@[1].out_view_ctr == k1
                }
                &&& (r is Ok <==> ((if req {
                    k0 < usize::MAX
                } else {
                    k0 < d0.len() && out == d0[k0 as int]
                }) && k1 < d1.len()))
                &&& r is Ok ==> {
                    &&& r->Ok_0.wf()
                    &&& r->Ok_0.shared
                    &&& r->Ok_0.value@ =~= seq![out, d1[k1 as int]]
                    &&& final(ctxs)@.len() == 2
                    &&& final(ctxs)@[0].wf()
                    &&& final(ctxs)@[0].seed() == old(ctxs)@[0].seed()
                    &&& final(ctxs)@[0].ikos_view.in_data@ == old(ctxs)@[0].ikos_view.in_data@
                    &&& final(ctxs)@[0].ikos_view.out_data@ == (if req {
                        d0.push(out)
                    } else {
                        d0
                    })
                    &&& final(ctxs)@[0].out_view_ctr == k0 + 1
                    &&& final(ctxs)@[0].drawn() == old(ctxs)@[0].drawn() + 1
                    &&& final(ctxs)@[1].wf()
                    &&& final(ctxs)@[1].seed() == old(ctxs)@[1].seed()
                    &&& final(ctxs)@[1].ikos_view == old(ctxs)@[1].ikos_view
                    &&& final(ctxs)@[1].out_view_ctr == k1 + 1
                    &&& final(ctxs)@[1].drawn() == old(ctxs)@[1].drawn() + 1
                }
            }),
    {
        self.bit_and(rhs, ctxs)
    }

    /// Replay of the greater-than gate: two's-complement subtraction through
    /// the replayed adder, then the per-share top-bit map. With a secret
    /// right operand the replay accepts exactly when both inner adder
    /// replays accept against the committed logs.
    pub fn gt(self, rhs: &IKosVariable4V, ctxs: &mut Vec<IKosContext>) -> (r: IKosResult<
        IKosVariable4V,
    >)
        requires
            self.wf(),
            rhs.wf(),
            (self.shared || rhs.shared) ==> ctxs2_wf(old(ctxs)@),
        ensures
            r matches Ok(v) ==> {
                &&& v.wf()
                &&& v.shared == (self.shared || rhs.shared)
                &&& forall|i: int| 0 <= i < 2 ==> (v.value@[i] == 0xffffffffu32 || v.value@[i] == 0u32)
            },
            !self.shared && !rhs.shared ==> {
                &&& final(ctxs)@ == old(ctxs)@
                &&& r is Ok
                &&& ({
                    let mv = Seq::new(2, |i: int| ((neg2(rhs.value@)[i] + 1) % 0x100000000) as u32);
                    let tv = Seq::new(2, |i: int| ((self.value@[i] + mv[i]) % 0x100000000) as u32);
                    forall|i: int| 0 <= i < 2 ==> r->Ok_0.value@[i] == top_bit_map(tv[i])
                })
            },
            (self.shared || rhs.shared) && r is Ok ==> ctxs2_wf(final(ctxs)@),
            // A secret right operand runs both adders through the replay.
            rhs.shared ==> ({
                let rw1 = rand_words2(old(ctxs)@);
                let nv = neg2(rhs.value@);
                let d0 = old(ctxs)@[0].ikos_view.out_data@;
                let d1 = old(ctxs)@[1].ikos_view.out_data@;
                let k0 = old(ctxs)@[0].out_view_ctr;
                let k1 = old(ctxs)@[1].out_view_ctr;
                let req1 = d0.len() != d1.len();
                let w1a = d1[k1 as int];
                let w0a = if req1 {
                    carry2(nv, ones2(), rw1, w1a, 31)
                } else {
                    d0[k0 as int]
                };
                let ok1 = (if req1 {
                    k0 < usize::MAX
                } else {
                    k0 < d0.len() && adder2_check(nv, ones2(), rw1, d0[k0 as int], w1a)
                }) && k1 < d1.len();
                let mv = sum_shares2(nv, ones2(), w0a, w1a);
                let d0m = if req1 {
                    d0.push(w0a)
                } else {
                    d0
                };
                let rw2 = rand_words2_next(old(ctxs)@);
                let req2 = d0m.len() != d1.len();
                let w1b = d1[k1 + 1];
                let w0b = if req2 {
                    carry2(self.value@, mv, rw2, w1b, 31)
                } else {
                    d0m[k0 + 1]
                };
                let ok2 = (if req2 {
                    k0 + 1 < usize::MAX
                } else {
                    k0 + 1 < d0m.len() && adder2_check(self.value@, mv, rw2, d0m[k0 + 1], w1b)
                }) && k1 + 1 < d1.len();
                let tv = sum_shares2(self.value@, mv, w0b, w1b);
                &&& (r is Ok <==> (ok1 && ok2))
                &&& r is Ok ==> {
                    &&& forall|i: int| 0 <= i < 2 ==> r->Ok_0.value@[i] == top_bit_map(tv[i])
                    &&& final(ctxs)@.len() == 2
                    &&& final(ctxs)@[0].seed() == old(ctxs)@[0].seed()
                    &&& final(ctxs)@[0].ikos_view.in_data@ == old(ctxs)@[0].ikos_view.in_data@
                    &&& final(ctxs)@[0].ikos_view.out_data@ == (if req2 {
                        d0m.push(w0b)
                    } else {
                        d0m
                    })
                    &&& final(ctxs)@[0].out_view_ctr == k0 + 2
                    &&& final(ctxs)@[0].drawn() == old(ctxs)@[0].drawn() + 2
                    &&& final(ctxs)@[1].seed() == old(ctxs)@[1].seed()
                    &&& final(ctxs)@[1].ikos_view == old(ctxs)@[1].ikos_view
                    &&& final(ctxs)@[1].out_view_ctr == k1 + 2
                    &&& final(ctxs)@[1].drawn() == old(ctxs)@[1].drawn() + 2
                }
            }),
            // With a public right operand the negated constant is local and
            // a single adder replay runs.
            self.shared && !rhs.shared ==> ({
                let mv = Seq::new(2, |i: int| ((neg2(rhs.value@)[i] + 1) % 0x100000000) as u32);
                let rw = rand_words2(old(ctxs)@);
                let d0 = old(ctxs)@[0].ikos_view.out_data@;
                let d1 = old(ctxs)@[1].ikos_view.out_data@;
                let k0 = old(ctxs)@[0].out_view_ctr;
                let k1 = old(ctxs)@[1].out_view_ctr;
                let req = d0.len() != d1.len();
                let w1 = d1[k1 as int];
                let w0 = if req {
                    carry2(self.value@, mv, rw, w1, 31)
                } else {
                    d0[k0 as int]
                };
                let tv = sum_shares2(self.value@, mv, w0, w1);
                &&& (r is Ok <==> ((if req {
                    k0 < usize::MAX
                } else {
                    k0 < d0.len() && adder2_check(self.value@, mv, rw, d0[k0 as int], w1)
                }) && k1 < d1.len()))
                &&& r is Ok ==> {
                    &&& forall|i: int| 0 <= i < 2 ==> r->Ok_0.value@[i] == top_bit_map(tv[i])
                    &&& final(ctxs)@.len() == 2
                    &&& final(ctxs)@[0].seed() == old(ctxs)@[0].seed()
                    &&& final(ctxs)@[0].ikos_view.in_data@ == old(ctxs)@[0].ikos_view.in_data@
                    &&& final(ctxs)@[0].ikos_view.out_data@ == (if req {
                        d0.push(w0)
                    } else {
                        d0
                    })
                    &&& final(ctxs)@[0].out_view_ctr == k0 + 1
                    &&& final(ctxs)@[0].drawn() == old(ctxs)@[0].drawn() + 1
                    &&& final(ctxs)@[1].seed() == old(ctxs)@[1].seed()
                    &&& final(ctxs)@[1].ikos_view == old(ctxs)@[1].ikos_view
                    &&& final(ctxs)@[1].out_view_ctr == k1 + 1
                    &&& final(ctxs)@[1].drawn() == old(ctxs)@[1].drawn() + 1
                }
            }),
    {
        let ghost cs0 = ctxs@;
        let ghost xv = self.value@;
        let ghost yv = rhs.value@;
        let ghost self_shared = self.shared;
        let one = IKosVariable4V::new_value(1);
        let neg = rhs.duplicate().negate();
        let ghost nv = neg.value@;
        proof {
            assert(nv =~= neg2(yv));
            assert(one.value@ =~= ones2());
        }
        let minus_rhs = match neg.add_op(&one, ctxs) {
            Ok(v) => v,
            Err(e) => {
                return Err(e);
            },
        };
        let ghost mv = minus_rhs.value@;
        let ghost cs1 = ctxs@;
        proof {
            if rhs.shared {
                assert(rand_words2(cs0) =~= rand_words2(cs0));
            } else if self_shared {
                assert(cs1 == cs0);
                let mvs = Seq::new(2, |i: int| ((neg2(yv)[i] + 1) % 0x100000000) as u32);
                assert forall|i: int| 0 <= i < 2 implies mv[i] == mvs[i] by {
                    assert(mv[i] as int == (nv[i] + 1) % 0x100000000);
                }
                assert(mv =~= mvs);
            }
        }
        let mut minus_gt = match self.add_op(&minus_rhs, ctxs) {
            Ok(v) => v,
            Err(e) => {
                proof {
                    if rhs.shared {
                        lemma_gt_replay_mid(cs0, cs1, nv, mv, yv);
                    }
                }
                return Err(e);
            },
        };
        let ghost tv = minus_gt.value@;
        let v0: u32 = if minus_gt.value[0] >> 31 == 0 {
            u32::MAX
        } else {
            0
        };
        let v1: u32 = if minus_gt.value[1] >> 31 == 0 {
            u32::MAX
        } else {
            0
        };
        minus_gt.value.set(0, v0);
        minus_gt.value.set(1, v1);
        proof {
            assert(minus_gt.value@ =~= seq![v0, v1]);
            lemma_top_bit(tv[0]);
            lemma_top_bit(tv[1]);
            if rhs.shared {
                lemma_gt_replay_mid(cs0, cs1, nv, mv, yv);
            } else if !self_shared {
                let mvs = Seq::new(2, |i: int| ((neg2(yv)[i] + 1) % 0x100000000) as u32);
                assert forall|i: int| 0 <= i < 2 implies mv[i] == mvs[i] by {
                    assert(mv[i] as int == (nv[i] + 1) % 0x100000000);
                }
                let tvs = Seq::new(2, |i: int| ((xv[i] + mvs[i]) % 0x100000000) as u32);
                assert forall|i: int| 0 <= i < 2 implies tv[i] == tvs[i] by {
                    assert(tv[i] as int == (xv[i] + mv[i]) % 0x100000000);
                }
                assert(ctxs@ == cs0);
            }
        }
        Ok(minus_gt)
    }
}

// ---------------------------------------------------------------------------
// Replay completeness: honest prover data never trips a replay check
// ---------------------------------------------------------------------------

/// The two shares of party `p` and the party after it, in reveal order.
pub open spec fn restrict2(v: Seq<u32>, p: int) -> Seq<u32> {
    seq![v[p], v[(p + 1) % 3]]
}

/// The AND replay recomputes exactly the entry the prover logged: on the
/// revealed pair's shares and randomness, the two-party formula equals the
/// first revealed party's three-party output share. With the exact `bit_and`
/// contracts this makes every honest AND replay accept and reproduce the
/// committed log.
pub proof fn lemma_and_replay_complete(x: Seq<u32>, y: Seq<u32>, r: Seq<u32>, p: int)
    requires
        x.len() == 3,
        y.len() == 3,
        r.len() == 3,
        0 <= p < 3,
    ensures
        and2_out(restrict2(x, p), restrict2(y, p), restrict2(r, p)) == and3_share(x, y, r, p),
{
}

/// Bits at or below round `n` of a carry word never change in later rounds.
proof fn lemma_carry3_stable(x: Seq<u32>, y: Seq<u32>, r: Seq<u32>, j: int, k: u32, n: nat, m: nat)
    requires
        x.len() == 3,
        y.len() == 3,
        r.len() == 3,
        0 <= j < 3,
        k <= n,
        n <= m,
        m <= 31,
    ensures
        get_bit(carry3(x, y, r, m)[j], k) == get_bit(carry3(x, y, r, n)[j], k),
    decreases m - n,
{
    if m > n {
        lemma_carry3_stable(x, y, r, j, k, n, (m - 1) as nat);
        let prev = carry3(x, y, r, (m - 1) as nat);
        let i = (m - 1) as u32;
        let w = prev[j];
        let cur = carry3(x, y, r, m)[j];
        assert(cur == adder_step(
            x[j],
            y[j],
            x[(j + 1) % 3],
            y[(j + 1) % 3],
            prev[j],
            prev[(j + 1) % 3],
            r[j],
            r[(j + 1) % 3],
            i,
        ));
        let xj = x[j];
        let yj = y[j];
        let xj1 = x[(j + 1) % 3];
        let yj1 = y[(j + 1) % 3];
        let pj1 = prev[(j + 1) % 3];
        let rj = r[j];
        let rj1 = r[(j + 1) % 3];
        let aj = get_bit(xj ^ w, i);
        let bj = get_bit(yj ^ w, i);
        let aj1 = get_bit(xj1 ^ pj1, i);
        let bj1 = get_bit(yj1 ^ pj1, i);
        let c = ((aj & bj1) ^ (aj1 & bj)) ^ get_bit(rj1, i);
        let t = ((c ^ (aj & bj)) ^ get_bit(w, i)) ^ get_bit(rj, i);
        assert(cur == set_bit(w, (i + 1) as u32, t));
        lemma_set_bit_other(w, (i + 1) as u32, t, k);
    }
}

proof fn lemma_set_bit_other(w: u32, pos: u32, b: u32, k: u32)
    requires
        pos < 32,
        k < pos,
    ensures
        get_bit(set_bit(w, pos, b), k) == get_bit(w, k),
{
    assert((if b & 1 != 0 {
        ((w | (1u32 << pos)) >> k) & 1
    } else {
        ((w & (!(1u32 << pos))) >> k) & 1
    }) == (w >> k) & 1) by (bit_vector)
        requires
            pos < 32,
            k < pos,
    ;
}

/// The bit an adder round writes depends only on the operands' and carry
/// words' bits at the round index, so the round can be replayed against the
/// final carry words.
proof fn lemma_adder_step_local(
    x0: u32,
    y0: u32,
    x1: u32,
    y1: u32,
    p0: u32,
    p1: u32,
    w0: u32,
    w1: u32,
    r0: u32,
    r1: u32,
    i: u32,
)
    requires
        i < 31,
        get_bit(p0, i) == get_bit(w0, i),
        get_bit(p1, i) == get_bit(w1, i),
    ensures
        get_bit(adder_step(x0, y0, x1, y1, p0, p1, r0, r1, i), (i + 1) as u32) == get_bit(
            adder_step(x0, y0, x1, y1, w0, w1, r0, r1, i),
            (i + 1) as u32,
        ),
{
    assert(get_bit(adder_step(x0, y0, x1, y1, p0, p1, r0, r1, i), (i + 1) as u32) == get_bit(
        adder_step(x0, y0, x1, y1, w0, w1, r0, r1, i),
        (i + 1) as u32,
    )) by (bit_vector)
        requires
            i < 31,
            (p0 >> i) & 1 == (w0 >> i) & 1,
            (p1 >> i) & 1 == (w1 >> i) & 1,
    ;
}

/// The adder replay check always passes on honest prover data: the first
/// revealed party's committed carry word satisfies, bit for bit, the replay
/// recurrence against the second revealed party's committed carry word.
/// With the exact `add_op` contracts this makes every honest adder replay
/// accept and reproduce the committed sum shares.
pub proof fn lemma_adder_replay_complete(x: Seq<u32>, y: Seq<u32>, r: Seq<u32>, p: int)
    requires
        x.len() == 3,
        y.len() == 3,
        r.len() == 3,
        0 <= p < 3,
    ensures
        adder2_check(
            restrict2(x, p),
            restrict2(y, p),
            restrict2(r, p),
            carry3(x, y, r, 31)[p],
            carry3(x, y, r, 31)[(p + 1) % 3],
        ),
{
    let x2 = restrict2(x, p);
    let y2 = restrict2(y, p);
    let r2 = restrict2(r, p);
    let p1 = (p + 1) % 3;
    let w0 = carry3(x, y, r, 31)[p];
    let w1 = carry3(x, y, r, 31)[p1];
    assert forall|i: u32| i < 31 implies get_bit(w0, (i + 1) as u32) == get_bit(
        #[trigger] adder_step(x2[0], y2[0], x2[1], y2[1], w0, w1, r2[0], r2[1], i),
        (i + 1) as u32,
    ) by {
        let prev = carry3(x, y, r, i as nat);
        let cur = carry3(x, y, r, (i + 1) as nat);
        assert(cur[p] == adder_step(
            x[p],
            y[p],
            x[p1],
            y[p1],
            prev[p],
            prev[p1],
            r[p],
            r[p1],
            i,
        ));
        // The committed word carries this round's output bit unchanged.
        lemma_carry3_stable(x, y, r, p, (i + 1) as u32, (i + 1) as nat, 31);
        // Both carry words agree with the final words at the round's index.
        lemma_carry3_stable(x, y, r, p, i, i as nat, 31);
        lemma_carry3_stable(x, y, r, p1, i, i as nat, 31);
        lemma_adder_step_local(
            x[p],
            y[p],
            x[p1],
            y[p1],
            prev[p],
            prev[p1],
            w0,
            w1,
            r[p],
            r[p1],
            i,
        );
    }
}

proof fn lemma_get_bit_le(x: u32, i: u32)
    ensures
        get_bit(x, i) <= 1,
{
    let g = (x >> i) & 1;
    assert((x >> i) & 1 <= 1) by (bit_vector);
}

proof fn lemma_t_single_bit(a0: u32, a1: u32, b0: u32, b1: u32, g1: u32, p0: u32, g0: u32)
    requires
        a0 <= 1,
        a1 <= 1,
        b0 <= 1,
        b1 <= 1,
        g1 <= 1,
        p0 <= 1,
        g0 <= 1,
    ensures
        (((((a0 & b1) ^ (a1 & b0)) ^ g1) ^ (a0 & b0)) ^ p0) ^ g0 <= 1,
{
    assert((((((a0 & b1) ^ (a1 & b0)) ^ g1) ^ (a0 & b0)) ^ p0) ^ g0 <= 1) by (bit_vector)
        requires
            a0 <= 1,
            a1 <= 1,
            b0 <= 1,
            b1 <= 1,
            g1 <= 1,
            p0 <= 1,
            g0 <= 1,
    ;
}

proof fn lemma_set_get_bit(w: u32, k: u32, b: u32)
    requires
        k < 32,
        b <= 1,
    ensures
        get_bit(set_bit(w, k, b), k) == b,
{
    assert((if b & 1 != 0 {
        ((w | (1u32 << k)) >> k) & 1
    } else {
        ((w & (!(1u32 << k))) >> k) & 1
    }) == b) by (bit_vector)
        requires
            k < 32,
            b <= 1,
    ;
}

/// After an accepted first replayed adder, the second replay's inputs are
/// the quantities the contract derives from the starting state: same seeds
/// one draw later, cursors one further, and the first party's log possibly
/// extended by the derived carry word.
proof fn lemma_gt_replay_mid(
    cs0: Seq<IKosContext>,
    cs1: Seq<IKosContext>,
    nv: Seq<u32>,
    mv: Seq<u32>,
    yv: Seq<u32>,
)
    requires
        cs0.len() == 2,
        cs1.len() == 2,
        cs1[0].seed() == cs0[0].seed(),
        cs1[1].seed() == cs0[1].seed(),
        cs1[0].drawn() == cs0[0].drawn() + 1,
        cs1[1].drawn() == cs0[1].drawn() + 1,
    ensures
        rand_words2(cs1) =~= rand_words2_next(cs0),
{
}

/// Draw one word from each of the two replay contexts, in party order.
fn draw_two(ctxs: &mut Vec<IKosContext>) -> (r: Vec<u32>)
    requires
        ctxs2_wf(old(ctxs)@),
    ensures
        r@ =~= rand_words2(old(ctxs)@),
        final(ctxs)@.len() == 2,
        forall|j: int|
            0 <= j < 2 ==> {
                &&& (#[trigger] final(ctxs)@[j]).wf()
                &&& final(ctxs)@[j].seed() == old(ctxs)@[j].seed()
                &&& final(ctxs)@[j].ikos_view == old(ctxs)@[j].ikos_view
                &&& final(ctxs)@[j].drawn() == old(ctxs)@[j].drawn() + 1
                &&& final(ctxs)@[j].out_view_ctr == old(ctxs)@[j].out_view_ctr
            },
{
    let ghost pre = ctxs@;
    let mut c0 = ctxs.remove(0);
    let mut c1 = ctxs.remove(0);
    let r0 = next_random_total(&mut c0);
    let r1 = next_random_total(&mut c1);
    ctxs.push(c0);
    ctxs.push(c1);
    let rand = vec![r0, r1];
    proof {
        assert(rand@ =~= rand_words2(pre));
        assert forall|j: int| 0 <= j < 2 implies {
            &&& (#[trigger] ctxs@[j]).wf()
            &&& ctxs@[j].seed() == pre[j].seed()
            &&& ctxs@[j].ikos_view == pre[j].ikos_view
            &&& ctxs@[j].drawn() == pre[j].drawn() + 1
            &&& ctxs@[j].out_view_ctr == pre[j].out_view_ctr
        } by {
            if j == 0 {
            } else {
                assert(j == 1);
            }
        }
    }
    rand
}

/// Two pools rooted at equal seeds that have drawn equally often hand out the
/// same next word: the stream is a function of the seed and the draw count
/// alone.
pub proof fn lemma_randomness_deterministic(c1: IKosContext, c2: IKosContext)
    requires
        c1.wf(),
        c2.wf(),
        c1.seed() == c2.seed(),
        c1.drawn() == c2.drawn(),
    ensures
        pool_word(c1.seed(), c1.drawn()) == pool_word(c2.seed(), c2.drawn()),
{
}

} // verus!
