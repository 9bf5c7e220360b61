//! The proof orchestrator: commit, challenge, response and verify. A prover
//! runs the circuit once per repetition against three-share wires, commits
//! to every party's view, derives one hidden party per repetition from the
//! committed transcript, and reveals the other two; a verifier replays the
//! circuit on the revealed pair and accepts only a bit-for-bit consistent
//! transcript.

use crate::parser::ast;
use crate::parser::ast::{
    clone_string, BinaryOperator, ExpressionType, ParameterType, StatementType,
};
use crate::traverser::prf_traverser::{
    circuit_shape, expr_evals, lookup_var, shape_of_parts, stmt_shape, stmts_shape, EvalShape,
    ProofTraverser, Var, VarType,
};
use crate::zkboo::ikos::{
    commitment_of, ctxs2_wf, generate_random, recombine3, sha256, sha256_of, view_eq,
    words_to_be, word_to_be, IKosContext, IKosError, IKosResult, IKosVariable4P, IKosVariable4V,
    IKosView,
};
use vstd::prelude::*;

verus! {

/// One fresh random 32-bit word, for witness splitting.
fn random_u32() -> (r: u32) {
    let bytes = generate_random(4);
    ((((bytes[0] as u32) << 24) | ((bytes[1] as u32) << 16)) | ((bytes[2] as u32) << 8)) | (
    bytes[3] as u32)
}

/// The protocol configuration: repetition count, party count (three),
/// revealed parties per repetition (two) and word width (32).
pub struct ZkBoo {
    pub num_of_repetitions: usize,
    pub num_of_parties: usize,
    pub num_of_reveals: usize,
    pub num_of_bits: usize,
}

/// What a prover starts from: the witness words, the public input words and
/// the circuit's output arity.
pub struct ProvingProof {
    pub input: Vec<u32>,
    pub input_pub: Vec<u32>,
    pub output_len: usize,
}

impl ProvingProof {
    pub fn new(input: Vec<u32>, input_pub: Vec<u32>, output_len: usize) -> (r: ProvingProof)
        ensures
            r.input@ == input@,
            r.input_pub@ == input_pub@,
            r.output_len == output_len,
    {
        ProvingProof { input, input_pub, output_len }
    }
}

/// A finished proof: the public inputs, the claimed output, every
/// repetition's output shares, all commitments, and all views (of which a
/// response reveals two per repetition).
pub struct Proof {
    pub input_len: usize,
    pub input_pub: Vec<u32>,
    pub output: Vec<u32>,
    pub out_data: Vec<Vec<u32>>,
    pub three_views: Vec<Vec<u8>>,
    pub views: Vec<IKosView>,
}

/// Every commitment binds the seed and output log of the view at the same
/// position.
pub open spec fn commitments_bind(three_views: Seq<Vec<u8>>, views: Seq<IKosView>) -> bool {
    &&& three_views.len() == views.len()
    &&& forall|i: int|
        0 <= i < views.len() ==> (#[trigger] three_views[i])@ == commitment_of(
            views[i].rand_tape_seed@,
            views[i].out_data@,
        )
}

/// One repetition's recorded output shares: three words per output, and
/// each triple recombines to the claimed output word.
pub open spec fn od_entry_ok(od: Vec<u32>, output: Seq<u32>) -> bool {
    &&& od@.len() == 3 * output.len()
    &&& forall|k: int|
        #![trigger od@[3 * k]]
        0 <= k < output.len() ==> output[k] == ((od@[3 * k] ^ od@[3 * k + 1]) ^ od@[3 * k + 2])
}

/// Each repetition's recorded output shares recombine to the claimed output.
pub open spec fn out_data_recombines(out_data: Seq<Vec<u32>>, output: Seq<u32>) -> bool {
    forall|r: int| 0 <= r < out_data.len() ==> od_entry_ok(#[trigger] out_data[r], output)
}

/// The byte encoding of the full public transcript that the random oracle
/// hashes: both lengths, every repetition's output shares, then every
/// commitment.
pub open spec fn oracle_transcript(
    input_len: u32,
    out_len: u32,
    out_data: Seq<Vec<u32>>,
    commits: Seq<Vec<u8>>,
) -> Seq<u8> {
    ((word_to_be(input_len) + word_to_be(out_len)) + words_list_to_be(out_data)) + bytes_list_concat(
        commits,
    )
}

pub open spec fn words_list_to_be(s: Seq<Vec<u32>>) -> Seq<u8>
    decreases s.len(),
{
    if s.len() == 0 {
        Seq::empty()
    } else {
        words_to_be(s[0]@) + words_list_to_be(s.drop_first())
    }
}

pub open spec fn bytes_list_concat(s: Seq<Vec<u8>>) -> Seq<u8>
    decreases s.len(),
{
    if s.len() == 0 {
        Seq::empty()
    } else {
        s[0]@ + bytes_list_concat(s.drop_first())
    }
}

proof fn lemma_words_list_push(s: Seq<Vec<u32>>, v: Vec<u32>)
    ensures
        words_list_to_be(s.push(v)) =~= words_list_to_be(s) + words_to_be(v@),
    decreases s.len(),
{
    if s.len() == 0 {
        assert(s.push(v).drop_first() =~= Seq::<Vec<u32>>::empty());
        assert(s.push(v)[0] == v);
        assert(words_list_to_be(Seq::<Vec<u32>>::empty()) =~= Seq::<u8>::empty());
        assert(words_list_to_be(s.push(v)) =~= words_to_be(v@) + Seq::<u8>::empty());
        assert(words_list_to_be(s) =~= Seq::<u8>::empty());
    } else {
        assert(s.push(v).drop_first() =~= s.drop_first().push(v));
        lemma_words_list_push(s.drop_first(), v);
        assert(s.push(v)[0] == s[0]);
        assert(words_list_to_be(s.push(v)) =~= words_to_be(s[0]@) + (words_list_to_be(
            s.drop_first(),
        ) + words_to_be(v@)));
    }
}

proof fn lemma_bytes_list_push(s: Seq<Vec<u8>>, v: Vec<u8>)
    ensures
        bytes_list_concat(s.push(v)) =~= bytes_list_concat(s) + v@,
    decreases s.len(),
{
    if s.len() == 0 {
        assert(s.push(v).drop_first() =~= Seq::<Vec<u8>>::empty());
        assert(s.push(v)[0] == v);
        assert(bytes_list_concat(Seq::<Vec<u8>>::empty()) =~= Seq::<u8>::empty());
        assert(bytes_list_concat(s.push(v)) =~= v@ + Seq::<u8>::empty());
        assert(bytes_list_concat(s) =~= Seq::<u8>::empty());
    } else {
        assert(s.push(v).drop_first() =~= s.drop_first().push(v));
        lemma_bytes_list_push(s.drop_first(), v);
        assert(s.push(v)[0] == s[0]);
        assert(bytes_list_concat(s.push(v)) =~= s[0]@ + (bytes_list_concat(s.drop_first())
            + v@));
    }
}

/// One challenge index in {0,1,2} per repetition, read from the transcript
/// hash.
pub open spec fn challenge_words(h: Seq<u8>, n: nat) -> Seq<u8> {
    Seq::new(n, |i: int| (h[i % 32] % 3) as u8)
}

/// The commitments of the revealed parties, repetition by repetition, in
/// reveal order.
pub open spec fn revealed_commitments(three_views: Seq<Vec<u8>>, challenge: Seq<u8>) -> Seq<u8>
    decreases challenge.len(),
{
    if challenge.len() == 0 {
        Seq::empty()
    } else {
        let r = challenge.len() - 1;
        let e = challenge[r] as int;
        revealed_commitments(three_views, challenge.drop_last()) + (three_views[3 * r + ((e + 1)
            % 3)]@ + three_views[3 * r + ((e + 2) % 3)]@)
    }
}

/// Every one of `k` successive circuit passes evaluates cleanly and yields
/// `out_len` output wires, threading the accumulated bindings from pass to
/// pass as the evaluator does.
pub open spec fn reps_shape_ok(
    ss: Seq<ast::Statement>,
    vars: Seq<(String, Var)>,
    n_in: int,
    n_pub: int,
    k: int,
    out_len: int,
) -> bool
    decreases k,
{
    if k <= 0 {
        true
    } else {
        let sh = circuit_shape(ss, vars, n_in, n_pub);
        sh.ok && sh.out_len == out_len && reps_shape_ok(ss, sh.vars, n_in, n_pub, k - 1, out_len)
    }
}

/// Exclusive-or of a wire's three shares, read back as the clear word.
fn recombine_exec(v: &IKosVariable4P) -> (r: u32)
    requires
        v.wf(),
    ensures
        r == recombine3(v.value@),
{
    (v.value[0] ^ v.value[1]) ^ v.value[2]
}

impl ZkBoo {
    pub fn new(
        num_of_repetitions: usize,
        num_of_parties: usize,
        num_of_reveals: usize,
        num_of_bits: usize,
    ) -> (r: ZkBoo)
        ensures
            r.num_of_repetitions == num_of_repetitions,
            r.num_of_parties == num_of_parties,
            r.num_of_reveals == num_of_reveals,
            r.num_of_bits == num_of_bits,
    {
        ZkBoo { num_of_repetitions, num_of_parties, num_of_reveals, num_of_bits }
    }

    /// Run the circuit once per repetition against fresh three-share wires,
    /// and commit every party's view. All repetitions must claim the same
    /// output; divergence is a broken circuit, not a proof rejection.
    pub fn prove(
        &self,
        proof: ProvingProof,
        tr: &mut ProofTraverser,
        statements: &Vec<ast::Statement>,
    ) -> (r: IKosResult<Proof>)
        requires
            old(tr).wires_wf(),
            1 <= self.num_of_repetitions,
        ensures
            final(tr).wires_wf(),
            // Success is owed up to the one value-dependent decision: when
            // every repetition's circuit pass evaluates cleanly with the
            // right arity, the proof is produced unless the recombined
            // outputs of the repetitions disagree, and that one outcome is
            // named exactly.
            r is Ok ==> reps_shape_ok(
                statements@,
                old(tr).vars@,
                proof.input@.len() as int,
                old(tr).in_pub@.len() as int,
                self.num_of_repetitions as int,
                proof.output_len as int,
            ),
            reps_shape_ok(
                statements@,
                old(tr).vars@,
                proof.input@.len() as int,
                old(tr).in_pub@.len() as int,
                self.num_of_repetitions as int,
                proof.output_len as int,
            ) ==> (r is Ok || (r matches Err(e) && e.error@
                == "circuit output diverges across repetitions"@)),
            r matches Ok(p) ==> {
                &&& p.views@.len() == 3 * self.num_of_repetitions
                &&& p.three_views@.len() == 3 * self.num_of_repetitions
                &&& commitments_bind(p.three_views@, p.views@)
                &&& p.out_data@.len() == self.num_of_repetitions
                &&& p.output@.len() == proof.output_len
                &&& out_data_recombines(p.out_data@, p.output@)
                &&& p.input_len == proof.input@.len()
                &&& p.input_pub@ == proof.input_pub@
            },
    {
        let input_len = proof.input.len();
        let ghost n_in_ = proof.input@.len() as int;
        let ghost n_pub_ = old(tr).in_pub@.len() as int;
        let ghost vars0 = old(tr).vars@;
        let ghost reps_ = self.num_of_repetitions as int;
        let ghost ol_ = proof.output_len as int;
        let mut out_data: Vec<Vec<u32>> = Vec::new();
        let mut three_views: Vec<Vec<u8>> = Vec::new();
        let mut views: Vec<IKosView> = Vec::new();
        let mut output: Vec<u32> = Vec::new();
        let mut rep: usize = 0;
        #[verifier::loop_isolation(false)]
        while rep < self.num_of_repetitions
            invariant
                rep <= self.num_of_repetitions,
                tr.wires_wf(),
                tr.in_pub@ == old(tr).in_pub@,
                reps_shape_ok(statements@, vars0, n_in_, n_pub_, reps_, ol_) == reps_shape_ok(
                    statements@,
                    tr.vars@,
                    n_in_,
                    n_pub_,
                    reps_ - rep,
                    ol_,
                ),
                out_data@.len() == rep,
                views@.len() == 3 * rep,
                three_views@.len() == 3 * rep,
                commitments_bind(three_views@, views@),
                rep > 0 ==> output@.len() == proof.output_len,
                out_data_recombines(out_data@, output@),
            decreases self.num_of_repetitions - rep,
        {
            let mut ctxs: Vec<IKosContext> = Vec::new();
            ctxs.push(IKosContext::new());
            ctxs.push(IKosContext::new());
            ctxs.push(IKosContext::new());
            // Split the witness: two fresh random shares per word, the third
            // share completing the exclusive-or; each party records its own
            // input share.
            let mut wires: Vec<IKosVariable4P> = Vec::new();
            let mut in0: Vec<u32> = Vec::new();
            let mut in1: Vec<u32> = Vec::new();
            let mut in2: Vec<u32> = Vec::new();
            let mut k: usize = 0;
            while k < proof.input.len()
                invariant
                    k <= proof.input@.len(),
                    wires@.len() == k,
                    forall|j: int| 0 <= j < k ==> (#[trigger] wires@[j]).wf(),
                decreases proof.input@.len() - k,
            {
                let s0 = random_u32();
                let s1 = random_u32();
                let s2 = (proof.input[k] ^ s0) ^ s1;
                in0.push(s0);
                in1.push(s1);
                in2.push(s2);
                wires.push(IKosVariable4P::new_share(vec![s0, s1, s2]));
                k = k + 1;
            }
            let mut c0 = ctxs.remove(0);
            let mut c1 = ctxs.remove(0);
            let mut c2 = ctxs.remove(0);
            c0.ikos_view.in_data = in0;
            c1.ikos_view.in_data = in1;
            c2.ikos_view.in_data = in2;
            ctxs.push(c0);
            ctxs.push(c1);
            ctxs.push(c2);
            proof {
                assert(crate::zkboo::ikos::ctxs_wf(ctxs@));
            }
            let ghost vars_pre = tr.vars@;
            let ghost sh = circuit_shape(statements@, vars_pre, n_in_, n_pub_);
            proof {
                assert(reps_shape_ok(statements@, vars_pre, n_in_, n_pub_, reps_ - rep, ol_) == (
                sh.ok && sh.out_len == ol_ && reps_shape_ok(
                    statements@,
                    sh.vars,
                    n_in_,
                    n_pub_,
                    reps_ - rep - 1,
                    ol_,
                )));
            }
            let out_wires = match tr.circuit(wires, statements, &mut ctxs) {
                Ok(o) => o,
                Err(e) => {
                    return Err(IKosError { error: e.message() });
                },
            };
            if out_wires.len() != proof.output_len {
                return Err(IKosError { error: "circuit output arity mismatch".to_owned() });
            }
            // Collect this repetition's output shares and clear words.
            let mut od: Vec<u32> = Vec::new();
            let mut clear: Vec<u32> = Vec::new();
            let mut k: usize = 0;
            while k < out_wires.len()
                invariant
                    k <= out_wires@.len(),
                    forall|j: int| 0 <= j < out_wires@.len() ==> (#[trigger] out_wires@[j]).wf(),
                    od@.len() == 3 * k,
                    clear@.len() == k,
                    forall|j: int|
                        #![trigger od@[3 * j]]
                        0 <= j < k ==> clear@[j] == ((od@[3 * j] ^ od@[3 * j + 1]) ^ od@[3 * j
                            + 2]),
                decreases out_wires@.len() - k,
            {
                let w = &out_wires[k];
                od.push(w.value[0]);
                od.push(w.value[1]);
                od.push(w.value[2]);
                clear.push(recombine_exec(w));
                k = k + 1;
            }
            if rep == 0 {
                output = clear;
            } else {
                if !(output == clear) {
                    return Err(
                        IKosError {
                            error: "circuit output diverges across repetitions".to_owned(),
                        },
                    );
                }
                proof {
                    assert(output@ =~= clear@);
                }
            }
            proof {
                assert(od_entry_ok(od, output@));
            }
            od_recombines_push(Ghost(out_data@), Ghost(od), Ghost(output@));
            out_data.push(od);
            // Commit each party's view, then keep the view.
            let mut p: usize = 0;
            while p < 3
                invariant
                    p <= 3,
                    ctxs@.len() == 3 - p,
                    views@.len() == 3 * rep + p,
                    three_views@.len() == 3 * rep + p,
                    commitments_bind(three_views@, views@),
                decreases 3 - p,
            {
                let c = ctxs.remove(0);
                let cm = c.commit_ikos_context();
                three_views.push(cm);
                views.push(c.ikos_view);
                p = p + 1;
            }
            rep = rep + 1;
        }
        Ok(
            Proof {
                input_len,
                input_pub: proof.input_pub,
                output,
                out_data,
                three_views,
                views,
            },
        )
    }

    /// Derive one challenge index in {0,1,2} per repetition by hashing the
    /// full public transcript: the input and output lengths, the claimed
    /// output shares of every repetition, and all commitments.
    pub fn query_random_oracle(
        input_len: usize,
        out_len: usize,
        out_data: &Vec<Vec<u32>>,
        three_views: &Vec<Vec<u8>>,
    ) -> (r: Vec<u8>)
        requires
            input_len <= u32::MAX,
            out_len <= u32::MAX,
        ensures
            r@ == challenge_words(
                sha256_of(
                    oracle_transcript(
                        input_len as u32,
                        out_len as u32,
                        out_data@,
                        three_views@,
                    ),
                ),
                out_data@.len(),
            ),
            r@.len() == out_data@.len(),
            forall|i: int| 0 <= i < r@.len() ==> r@[i] < 3,
    {
        let mut transcript: Vec<u8> = Vec::new();
        let il = input_len as u32;
        let ol = out_len as u32;
        transcript.push((il >> 24) as u8);
        transcript.push((il >> 16) as u8);
        transcript.push((il >> 8) as u8);
        transcript.push(il as u8);
        transcript.push((ol >> 24) as u8);
        transcript.push((ol >> 16) as u8);
        transcript.push((ol >> 8) as u8);
        transcript.push(ol as u8);
        proof {
            assert(transcript@ =~= word_to_be(il) + word_to_be(ol));
        }
        let mut i: usize = 0;
        while i < out_data.len()
            invariant
                i <= out_data@.len(),
                transcript@ =~= (word_to_be(il) + word_to_be(ol)) + words_list_to_be(
                    out_data@.take(i as int),
                ),
            decreases out_data@.len() - i,
        {
            let mut bytes = crate::zkboo::ikos::convert_u32_to_u8(&out_data[i]);
            proof {
                assert(out_data@.take(i + 1 as int) =~= out_data@.take(i as int).push(
                    out_data@[i as int],
                ));
                lemma_words_list_push(out_data@.take(i as int), out_data@[i as int]);
            }
            transcript.append(&mut bytes);
            i = i + 1;
        }
        proof {
            assert(out_data@.take(out_data@.len() as int) =~= out_data@);
        }
        let ghost mid = transcript@;
        let mut i: usize = 0;
        while i < three_views.len()
            invariant
                i <= three_views@.len(),
                transcript@ =~= mid + bytes_list_concat(three_views@.take(i as int)),
            decreases three_views@.len() - i,
        {
            let mut bytes = three_views[i].clone();
            proof {
                vstd::std_specs::vec::vec_clone_deep_view_proof(three_views@[i as int], bytes);
                assert(bytes@ =~= three_views@[i as int]@);
                assert(three_views@.take(i + 1 as int) =~= three_views@.take(i as int).push(
                    three_views@[i as int],
                ));
                lemma_bytes_list_push(three_views@.take(i as int), three_views@[i as int]);
            }
            transcript.append(&mut bytes);
            i = i + 1;
        }
        proof {
            assert(three_views@.take(three_views@.len() as int) =~= three_views@);
            assert(transcript@ =~= oracle_transcript(il, ol, out_data@, three_views@));
        }
        let hash = sha256(&transcript);
        let mut challenge: Vec<u8> = Vec::new();
        let mut i: usize = 0;
        while i < out_data.len()
            invariant
                i <= out_data@.len(),
                hash@ == sha256_of(oracle_transcript(il, ol, out_data@, three_views@)),
                hash@.len() == 32,
                challenge@.len() == i,
                forall|j: int|
                    0 <= j < i ==> #[trigger] challenge@[j] == (hash@[j % 32] % 3) as u8,
            decreases out_data@.len() - i,
        {
            challenge.push(hash[i % 32] % 3);
            i = i + 1;
        }
        proof {
            assert(challenge@ =~= challenge_words(
                sha256_of(oracle_transcript(il, ol, out_data@, three_views@)),
                out_data@.len(),
            ));
        }
        challenge
    }

    /// Per repetition, reveal the views of the two parties the challenge
    /// does not name; the hidden party's data is never emitted.
    pub fn build_response(views: &Vec<IKosView>, challenge: &Vec<u8>) -> (r: Vec<IKosView>)
        requires
            views@.len() == 3 * challenge@.len(),
            forall|i: int| 0 <= i < challenge@.len() ==> challenge@[i] < 3,
        ensures
            r@.len() == 2 * challenge@.len(),
            forall|i: int|
                0 <= i < challenge@.len() ==> {
                    let e = #[trigger] challenge@[i] as int;
                    &&& view_eq(r@[2 * i], views@[3 * i + ((e + 1) % 3)])
                    &&& view_eq(r@[2 * i + 1], views@[3 * i + ((e + 2) % 3)])
                },
    {
        let mut response: Vec<IKosView> = Vec::new();
        let total = views.len();
        let mut i: usize = 0;
        while i < challenge.len()
            invariant
                i <= challenge@.len(),
                views@.len() == 3 * challenge@.len(),
                total == views@.len(),
                3 * challenge@.len() <= usize::MAX,
                forall|j: int| 0 <= j < challenge@.len() ==> challenge@[j] < 3,
                response@.len() == 2 * i,
                forall|j: int|
                    0 <= j < i ==> {
                        let e = #[trigger] challenge@[j] as int;
                        &&& view_eq(response@[2 * j], views@[3 * j + ((e + 1) % 3)])
                        &&& view_eq(response@[2 * j + 1], views@[3 * j + ((e + 2) % 3)])
                    },
            decreases challenge@.len() - i,
        {
            let e = challenge[i] as usize;
            let idx1 = 3 * i + ((e + 1) % 3);
            let idx2 = 3 * i + ((e + 2) % 3);
            response.push(views[idx1].duplicate());
            response.push(views[idx2].duplicate());
            i = i + 1;
        }
        response
    }

    /// The challenged party is never among the revealed ones: for every
    /// challenge index, the two revealed positions differ from it and from
    /// each other, so one share of every secret stays hidden.
    pub proof fn lemma_response_hides_challenged_party(e: int)
        requires
            0 <= e < 3,
        ensures
            (e + 1) % 3 != e,
            (e + 2) % 3 != e,
            (e + 1) % 3 != (e + 2) % 3,
    {
    }

    /// Replay every repetition against the two revealed views: rebuild the
    /// verifier wires from the revealed input shares, re-run the circuit
    /// with every non-linear gate checked against the committed logs,
    /// recompute the two commitments, and check the output shares against
    /// the claimed output. Any single inconsistency rejects the proof. On
    /// acceptance the aggregated hash over the two revealed commitments of
    /// every repetition is returned for the transcript.
    pub fn rebuild_proof(
        &self,
        proof: &Proof,
        challenge: &Vec<u8>,
        response: &Vec<IKosView>,
        parameters: &Vec<ast::Parameter>,
        statements: &Vec<ast::Statement>,
    ) -> (r: IKosResult<Vec<u8>>)
        ensures
            r matches Ok(h) ==> {
                &&& h@ == sha256_of(revealed_commitments(proof.three_views@, challenge@))
                &&& h@.len() == 32
                &&& out_data_recombines(proof.out_data@, proof.output@)
                &&& proof.out_data@.len() == challenge@.len()
                &&& challenge@.len() > 0 ==> ({
                    let sh = circuit_shape(
                        statements@,
                        param_vars(parameters@),
                        proof.input_len as int,
                        proof.input_pub@.len() as int,
                    );
                    sh.ok && sh.out_len == proof.output@.len()
                })
            },
    {
        if proof.out_data.len() != challenge.len() {
            return Err(IKosError { error: "challenge arity mismatch".to_owned() });
        }
        if challenge.len() > usize::MAX / 3 || proof.output.len() > usize::MAX / 3 {
            return Err(IKosError { error: "oversized proof".to_owned() });
        }
        if response.len() != 2 * challenge.len() || proof.three_views.len() != 3 * challenge.len() {
            return Err(IKosError { error: "response arity mismatch".to_owned() });
        }
        let mut aggregate: Vec<u8> = Vec::new();
        let mut rep: usize = 0;
        while rep < challenge.len()
            invariant
                rep <= challenge@.len(),
                challenge@.len() <= usize::MAX / 3,
                proof.output@.len() <= usize::MAX / 3,
                proof.out_data@.len() == challenge@.len(),
                response@.len() == 2 * challenge@.len(),
                proof.three_views@.len() == 3 * challenge@.len(),
                rep > 0 ==> ({
                    let sh = circuit_shape(
                        statements@,
                        param_vars(parameters@),
                        proof.input_len as int,
                        proof.input_pub@.len() as int,
                    );
                    sh.ok && sh.out_len == proof.output@.len()
                }),
                aggregate@ =~= revealed_commitments(
                    proof.three_views@,
                    challenge@.take(rep as int),
                ),
                forall|r_: int|
                    0 <= r_ < rep ==> od_entry_ok(#[trigger] proof.out_data@[r_], proof.output@),
            decreases challenge@.len() - rep,
        {
            let e = challenge[rep] as usize;
            if e >= 3 {
                return Err(IKosError { error: "challenge out of range".to_owned() });
            }
            let va = &response[2 * rep];
            let vb = &response[2 * rep + 1];
            if va.in_data.len() != proof.input_len || vb.in_data.len() != proof.input_len {
                return Err(IKosError { error: "revealed input arity mismatch".to_owned() });
            }
            let mut ctxs: Vec<IKosContext> = Vec::new();
            ctxs.push(IKosContext::new_views(va.duplicate()));
            ctxs.push(IKosContext::new_views(vb.duplicate()));
            proof {
                assert(ctxs2_wf(ctxs@));
            }
            let mut wires: Vec<IKosVariable4V> = Vec::new();
            let mut k: usize = 0;
            while k < va.in_data.len()
                invariant
                    k <= va.in_data@.len(),
                    vb.in_data@.len() == va.in_data@.len(),
                    wires@.len() == k,
                    forall|j: int| 0 <= j < k ==> (#[trigger] wires@[j]).wf(),
                decreases va.in_data@.len() - k,
            {
                wires.push(IKosVariable4V::new_share(vec![va.in_data[k], vb.in_data[k]]));
                k = k + 1;
            }
            let mut vt = match VerifyTraverser::new(parameters, &proof.input_pub) {
                Ok(v) => v,
                Err(e2) => {
                    return Err(e2);
                },
            };
            let out_wires = match vt.circuit(wires, statements, &mut ctxs) {
                Ok(o) => o,
                Err(e2) => {
                    return Err(e2);
                },
            };
            if out_wires.len() != proof.output.len() {
                return Err(IKosError { error: "replayed output arity mismatch".to_owned() });
            }
            if proof.out_data[rep].len() != 3 * proof.output.len() {
                return Err(IKosError { error: "output share arity mismatch".to_owned() });
            }
            // Check the replayed output shares against the committed shares
            // and the recombined shares against the claimed output.
            let mut k: usize = 0;
            while k < out_wires.len()
                invariant
                    k <= out_wires@.len(),
                    out_wires@.len() == proof.output@.len(),
                    proof.output@.len() <= usize::MAX / 3,
                    rep < proof.out_data@.len(),
                    proof.out_data@[rep as int]@.len() == 3 * proof.output@.len(),
                    forall|j: int| 0 <= j < out_wires@.len() ==> (#[trigger] out_wires@[j]).wf(),
                    e < 3,
                    forall|j: int|
                        #![trigger proof.out_data@[rep as int]@[3 * j]]
                        0 <= j < k ==> proof.output@[j] == ((proof.out_data@[rep as int]@[3 * j]
                            ^ proof.out_data@[rep as int]@[3 * j + 1]) ^ proof.out_data@[
                        rep as int]@[3 * j + 2]),
                decreases out_wires@.len() - k,
            {
                let base = 3 * k;
                let sa = proof.out_data[rep][base + ((e + 1) % 3)];
                let sb = proof.out_data[rep][base + ((e + 2) % 3)];
                let w = &out_wires[k];
                if w.value[0] != sa || w.value[1] != sb {
                    return Err(IKosError { error: "replayed output share mismatch".to_owned() });
                }
                let clear = (proof.out_data[rep][base] ^ proof.out_data[rep][base + 1])
                    ^ proof.out_data[rep][base + 2];
                if clear != proof.output[k] {
                    return Err(IKosError { error: "claimed output mismatch".to_owned() });
                }
                k = k + 1;
            }
            // Recompute and check the two revealed commitments.
            let ca = ctxs[0].commit_ikos_context();
            let cb = ctxs[1].commit_ikos_context();
            let ia = 3 * rep + ((e + 1) % 3);
            let ib = 3 * rep + ((e + 2) % 3);
            if !(ca == proof.three_views[ia]) || !(cb == proof.three_views[ib]) {
                return Err(IKosError { error: "commitment mismatch".to_owned() });
            }
            let ghost pre_aggregate = aggregate@;
            let ghost ca_view = ca@;
            let ghost cb_view = cb@;
            let mut ca2 = ca;
            let mut cb2 = cb;
            aggregate.append(&mut ca2);
            aggregate.append(&mut cb2);
            proof {
                assert(challenge@.take(rep + 1 as int).drop_last() =~= challenge@.take(rep as int));
                assert(ca_view =~= proof.three_views@[3 * rep + ((e + 1) % 3)]@);
                assert(cb_view =~= proof.three_views@[3 * rep + ((e + 2) % 3)]@);
                assert(aggregate@ =~= revealed_commitments(
                    proof.three_views@,
                    challenge@.take(rep + 1 as int),
                ));
                assert(od_entry_ok(proof.out_data@[rep as int], proof.output@));
                assert forall|r_: int| 0 <= r_ < rep + 1 implies od_entry_ok(
                    #[trigger] proof.out_data@[r_],
                    proof.output@,
                ) by {
                    if r_ < rep as int {
                        assert(od_entry_ok(proof.out_data@[r_], proof.output@));
                    }
                }
            }
            rep = rep + 1;
        }
        proof {
            assert(challenge@.take(challenge@.len() as int) =~= challenge@);
        }
        Ok(sha256(&aggregate))
    }
}

/// Push-step for the output recombination bookkeeping of `prove`.
fn od_recombines_push(
    Ghost(prev): Ghost<Seq<Vec<u32>>>,
    Ghost(od): Ghost<Vec<u32>>,
    Ghost(output): Ghost<Seq<u32>>,
)
    requires
        out_data_recombines(prev, output),
        od_entry_ok(od, output),
    ensures
        out_data_recombines(prev.push(od), output),
{
    proof {
        assert forall|r: int| 0 <= r < prev.push(od).len() implies od_entry_ok(
            #[trigger] prev.push(od)[r],
            output,
        ) by {
            if r < prev.len() {
                assert(prev.push(od)[r] == prev[r]);
                assert(od_entry_ok(prev[r], output));
            } else {
                assert(prev.push(od)[r] == od);
            }
        }
    }
}

proof fn lemma_lookup_push_pair(vars: Seq<(String, Var)>, p: (String, Var), name: Seq<char>)
    ensures
        lookup_var(vars.push(p), name) == (if p.0@ == name {
            Option::Some(p.1)
        } else {
            lookup_var(vars, name)
        }),
{
    assert(vars.push(p).last() == p);
    assert(vars.push(p).drop_last() =~= vars);
}

/// Private parameters among the first `n`, for the declaration-order ids.
pub open spec fn count_private(ps: Seq<ast::Parameter>, n: int) -> int
    decreases n,
{
    if n <= 0 {
        0
    } else {
        count_private(ps, n - 1) + (match ps[n - 1].node {
            ParameterType::Private { variable_type: _, variable: _ } => 1int,
            ParameterType::Public { variable_type: _, variable: _ } => 0int,
        })
    }
}

/// The binding one parameter produces: its name, and a slot numbered among
/// the parameters of its own kind.
pub open spec fn param_binding(ps: Seq<ast::Parameter>, i: int) -> (String, Var) {
    match ps[i].node {
        ParameterType::Private { variable_type: _, variable } => (
            variable,
            Var { id: count_private(ps, i) as usize, typ: VarType::Private },
        ),
        ParameterType::Public { variable_type: _, variable } => (
            variable,
            Var { id: (i - count_private(ps, i)) as usize, typ: VarType::Public },
        ),
    }
}

/// The bindings of a whole parameter list, in declaration order.
pub open spec fn param_vars(ps: Seq<ast::Parameter>) -> Seq<(String, Var)> {
    Seq::new(ps.len(), |i: int| param_binding(ps, i))
}

/// The shape state the replayer currently stands in.
pub open spec fn vshape_of(vt: VerifyTraverser) -> EvalShape {
    shape_of_parts(vt.vars@, vt.instance_var@.len() as int, vt.out@.len() as int)
}

/// Verifier-side evaluation state: the same parameter bindings as the
/// prover's, over two-share wires.
pub struct VerifyTraverser {
    pub cond: Option<IKosVariable4V>,
    pub vars: Vec<(String, Var)>,
    pub in_pub: Vec<u32>,
    pub input_var: Vec<IKosVariable4V>,
    pub instance_var: Vec<IKosVariable4V>,
    pub out: Vec<IKosVariable4V>,
}

impl VerifyTraverser {
    /// Every wire the replayer holds carries two shares.
    pub open spec fn wires_wf(self) -> bool {
        &&& self.cond matches Some(c) ==> c.wf()
        &&& forall|i: int| 0 <= i < self.input_var@.len() ==> (#[trigger] self.input_var@[i]).wf()
        &&& forall|i: int|
            0 <= i < self.instance_var@.len() ==> (#[trigger] self.instance_var@[i]).wf()
    }

    /// Bind the function's parameters in declaration order, mirroring the
    /// prover's binding: one entry per parameter under its name, private
    /// parameters numbered among themselves and public ones likewise.
    pub fn new(parameters: &Vec<ast::Parameter>, in_pub: &Vec<u32>) -> (r: IKosResult<
        VerifyTraverser,
    >)
        ensures
            r is Ok,
            r matches Ok(v) ==> {
                &&& v.wires_wf()
                &&& v.cond is None
                &&& v.in_pub@ == in_pub@
                &&& v.input_var@.len() == 0
                &&& v.instance_var@.len() == 0
                &&& v.out@.len() == 0
                &&& v.vars@ == param_vars(parameters@)
            },
    {
        let mut vars: Vec<(String, Var)> = Vec::new();
        let mut input_index: usize = 0;
        let mut in_pub_index: usize = 0;
        let mut i: usize = 0;
        while i < parameters.len()
            invariant
                i <= parameters@.len(),
                input_index == count_private(parameters@, i as int),
                in_pub_index == i - count_private(parameters@, i as int),
                vars@.len() == i,
                vars@ =~= param_vars(parameters@).take(i as int),
            decreases parameters@.len() - i,
        {
            match &parameters[i].node {
                ParameterType::Private { variable_type: _t, variable } => {
                    vars.push((clone_string(variable), Var { id: input_index, typ: VarType::Private }));
                    input_index = input_index + 1;
                },
                ParameterType::Public { variable_type: _t, variable } => {
                    vars.push((clone_string(variable), Var { id: in_pub_index, typ: VarType::Public }));
                    in_pub_index = in_pub_index + 1;
                },
            }
            proof {
                assert(vars@.last() == param_binding(parameters@, i as int));
                assert(param_vars(parameters@).take(i + 1 as int) =~= param_vars(
                    parameters@,
                ).take(i as int).push(param_binding(parameters@, i as int)));
                assert(vars@ =~= param_vars(parameters@).take(i + 1 as int));
            }
            i = i + 1;
        }
        proof {
            assert(param_vars(parameters@).take(parameters@.len() as int) =~= param_vars(
                parameters@,
            ));
        }
        let mut in_pub2: Vec<u32> = Vec::new();
        let mut i: usize = 0;
        while i < in_pub.len()
            invariant
                i <= in_pub@.len(),
                in_pub2@ =~= in_pub@.take(i as int),
            decreases in_pub@.len() - i,
        {
            in_pub2.push(in_pub[i]);
            i = i + 1;
        }
        proof {
            assert(in_pub2@ =~= in_pub@);
        }
        Ok(
            VerifyTraverser {
                cond: None,
                vars,
                in_pub: in_pub2,
                input_var: Vec::new(),
                instance_var: Vec::new(),
                out: Vec::new(),
            },
        )
    }

    /// One replay pass: evaluate the statements against this repetition's
    /// revealed input wires and replay contexts.
    pub fn circuit(
        &mut self,
        input: Vec<IKosVariable4V>,
        statements: &Vec<ast::Statement>,
        ctxs: &mut Vec<IKosContext>,
    ) -> (r: IKosResult<Vec<IKosVariable4V>>)
        requires
            old(self).wires_wf(),
            ctxs2_wf(old(ctxs)@),
            forall|i: int| 0 <= i < input@.len() ==> (#[trigger] input@[i]).wf(),
        ensures
            r matches Ok(out) ==> {
                &&& forall|i: int| 0 <= i < out@.len() ==> (#[trigger] out@[i]).wf()
                &&& ctxs2_wf(final(ctxs)@)
                &&& ({
                    let sh = circuit_shape(
                        statements@,
                        old(self).vars@,
                        input@.len() as int,
                        old(self).in_pub@.len() as int,
                    );
                    &&& sh.ok
                    &&& out@.len() == sh.out_len
                    &&& final(self).vars@ == sh.vars
                })
            },
            final(self).in_pub@ == old(self).in_pub@,
    {
        let ghost n_in_ = input@.len() as int;
        let ghost n_pub_ = old(self).in_pub@.len() as int;
        let ghost target = circuit_shape(statements@, old(self).vars@, n_in_, n_pub_);
        self.input_var = input;
        self.instance_var = Vec::new();
        self.out = Vec::new();
        self.cond = None;
        proof {
            assert(vshape_of(*self) =~= EvalShape {
                ok: true,
                vars: old(self).vars@,
                n_inst: 0,
                out_len: 0,
            });
        }
        let mut i: usize = 0;
        #[verifier::loop_isolation(false)]
        while i < statements.len()
            invariant
                i <= statements@.len(),
                self.wires_wf(),
                ctxs2_wf(ctxs@),
                self.in_pub@ == old(self).in_pub@,
                self.input_var@.len() == input@.len(),
                stmts_shape(statements@, i as int, vshape_of(*self), n_in_, n_pub_) == target,
                forall|k: int| 0 <= k < self.out@.len() ==> (#[trigger] self.out@[k]).wf(),
            decreases statements@.len() - i,
        {
            let ghost cur = vshape_of(*self);
            proof {
                assert(stmts_shape(statements@, i as int, cur, n_in_, n_pub_) == stmts_shape(
                    statements@,
                    i + 1,
                    stmt_shape(statements@[i as int], cur, n_in_, n_pub_),
                    n_in_,
                    n_pub_,
                ));
            }
            match self.traverse_statement(&statements[i], ctxs) {
                Ok(_) => {
                    proof {
                        assert(vshape_of(*self) =~= stmt_shape(
                            statements@[i as int],
                            cur,
                            n_in_,
                            n_pub_,
                        ));
                    }
                },
                Err(e) => {
                    return Err(e);
                },
            }
            i = i + 1;
        }
        proof {
            assert(vshape_of(*self) =~= target);
        }
        let mut out: Vec<IKosVariable4V> = Vec::new();
        let mut k: usize = 0;
        while k < self.out.len()
            invariant
                k <= self.out@.len(),
                forall|j: int| 0 <= j < self.out@.len() ==> (#[trigger] self.out@[j]).wf(),
                out@.len() == k,
                forall|j: int| 0 <= j < k ==> (#[trigger] out@[j]).wf(),
                ctxs2_wf(ctxs@),
            decreases self.out@.len() - k,
        {
            out.push(self.out[k].duplicate());
            k = k + 1;
        }
        Ok(out)
    }

    /// Replay one statement; a failed gate check rejects the proof, and an
    /// accepted statement binds and counts exactly as its shape says.
    fn traverse_statement(&mut self, stmt: &ast::Statement, ctxs: &mut Vec<IKosContext>) -> (r:
        IKosResult<()>)
        requires
            old(self).wires_wf(),
            ctxs2_wf(old(ctxs)@),
        ensures
            final(self).wires_wf(),
            r is Ok ==> ctxs2_wf(final(ctxs)@),
            ({
                let post = stmt_shape(
                    *stmt,
                    vshape_of(*old(self)),
                    old(self).input_var@.len() as int,
                    old(self).in_pub@.len() as int,
                );
                r is Ok ==> {
                    &&& post.ok
                    &&& final(self).vars@ == post.vars
                    &&& final(self).instance_var@.len() == post.n_inst
                    &&& final(self).out@.len() == post.out_len
                }
            }),
            final(self).in_pub@ == old(self).in_pub@,
            final(self).input_var@.len() == old(self).input_var@.len(),
            forall|k: int|
                0 <= k < final(self).out@.len() ==> ((#[trigger] final(self).out@[k]).wf() || (
                exists|j: int| 0 <= j < old(self).out@.len() && final(self).out@[k] == old(
                    self,
                ).out@[j])),
        decreases stmt,
    {
        let ghost n_in_ = old(self).input_var@.len() as int;
        let ghost n_pub_ = old(self).in_pub@.len() as int;
        let ghost pre = vshape_of(*old(self));
        match &stmt.node {
            StatementType::IfStatement { condition, if_statements, else_statements } => {
                let ghost st1 = EvalShape {
                    ok: pre.ok && expr_evals(*condition, pre.vars, n_in_, n_pub_, pre.n_inst),
                    vars: pre.vars,
                    n_inst: pre.n_inst,
                    out_len: pre.out_len,
                };
                let ghost target1 = stmts_shape(if_statements@, 0, st1, n_in_, n_pub_);
                let ghost target2 = stmts_shape(else_statements@, 0, target1, n_in_, n_pub_);
                proof {
                    assert(stmt_shape(*stmt, pre, n_in_, n_pub_) == target2);
                }
                let new_cond = match self.traverse_expression(condition, ctxs) {
                    Ok(c) => c,
                    Err(e) => {
                        return Err(e);
                    },
                };
                let had = self.cond.is_some();
                self.cond = None;
                if !had {
                    self.cond = Some(new_cond.duplicate());
                }
                let mut i: usize = 0;
                proof {
                    assert(vshape_of(*self) =~= st1);
                }
                #[verifier::loop_isolation(false)]
                while i < if_statements.len()
                    invariant
                        i <= if_statements@.len(),
                        self.wires_wf(),
                        ctxs2_wf(ctxs@),
                        self.in_pub@ == old(self).in_pub@,
                        self.input_var@.len() == old(self).input_var@.len(),
                        stmts_shape(if_statements@, i as int, vshape_of(*self), n_in_, n_pub_)
                            == target1,
                        forall|k: int|
                            0 <= k < self.out@.len() ==> ((#[trigger] self.out@[k]).wf() || (
                            exists|j: int| 0 <= j < old(self).out@.len() && self.out@[k] == old(
                                self,
                            ).out@[j])),
                    decreases if_statements@.len() - i,
                {
                    proof {
                        assert(decreases_to!(*stmt => stmt.node));
                        assert(decreases_to!(stmt.node => stmt.node->if_statements));
                        assert(*if_statements == stmt.node->if_statements);
                        assert(decreases_to!(*if_statements => if_statements@));
                        assert(decreases_to!(if_statements@ => if_statements@[i as int]));
                    }
                    let ghost cur = vshape_of(*self);
                    proof {
                        assert(stmts_shape(if_statements@, i as int, cur, n_in_, n_pub_)
                            == stmts_shape(
                            if_statements@,
                            i + 1,
                            stmt_shape(if_statements@[i as int], cur, n_in_, n_pub_),
                            n_in_,
                            n_pub_,
                        ));
                    }
                    match self.traverse_statement(&if_statements[i], ctxs) {
                        Ok(_) => {
                            proof {
                                assert(vshape_of(*self) =~= stmt_shape(
                                    if_statements@[i as int],
                                    cur,
                                    n_in_,
                                    n_pub_,
                                ));
                            }
                        },
                        Err(e) => {
                            return Err(e);
                        },
                    }
                    i = i + 1;
                }
                let had2 = self.cond.is_some();
                self.cond = None;
                if !had2 {
                    self.cond = Some(new_cond.negate());
                }
                let mut i: usize = 0;
                proof {
                    assert(vshape_of(*self) =~= target1);
                }
                #[verifier::loop_isolation(false)]
                while i < else_statements.len()
                    invariant
                        i <= else_statements@.len(),
                        self.wires_wf(),
                        ctxs2_wf(ctxs@),
                        self.in_pub@ == old(self).in_pub@,
                        self.input_var@.len() == old(self).input_var@.len(),
                        stmts_shape(else_statements@, i as int, vshape_of(*self), n_in_, n_pub_)
                            == target2,
                        forall|k: int|
                            0 <= k < self.out@.len() ==> ((#[trigger] self.out@[k]).wf() || (
                            exists|j: int| 0 <= j < old(self).out@.len() && self.out@[k] == old(
                                self,
                            ).out@[j])),
                    decreases else_statements@.len() - i,
                {
                    proof {
                        assert(decreases_to!(*stmt => stmt.node));
                        assert(decreases_to!(stmt.node => stmt.node->else_statements));
                        assert(*else_statements == stmt.node->else_statements);
                        assert(decreases_to!(*else_statements => else_statements@));
                        assert(decreases_to!(else_statements@ => else_statements@[i as int]));
                    }
                    let ghost cur = vshape_of(*self);
                    proof {
                        assert(stmts_shape(else_statements@, i as int, cur, n_in_, n_pub_)
                            == stmts_shape(
                            else_statements@,
                            i + 1,
                            stmt_shape(else_statements@[i as int], cur, n_in_, n_pub_),
                            n_in_,
                            n_pub_,
                        ));
                    }
                    match self.traverse_statement(&else_statements[i], ctxs) {
                        Ok(_) => {
                            proof {
                                assert(vshape_of(*self) =~= stmt_shape(
                                    else_statements@[i as int],
                                    cur,
                                    n_in_,
                                    n_pub_,
                                ));
                            }
                        },
                        Err(e) => {
                            return Err(e);
                        },
                    }
                    i = i + 1;
                }
                self.cond = None;
                proof {
                    assert(vshape_of(*self) =~= target2);
                }
                Ok(())
            },
            StatementType::ForEachStatement { iterator: _i, iterable: _e, statements: _s } => {
                Ok(())
            },
            StatementType::ReturnStatement { return_value } => {
                let v = match self.traverse_expression(return_value, ctxs) {
                    Ok(v) => v,
                    Err(e) => {
                        return Err(e);
                    },
                };
                self.out = Vec::new();
                self.out.push(v);
                Ok(())
            },
            StatementType::InitializerStatement {
                variable_type: _variable_type,
                variable: _variable,
                default: _default,
            } => Ok(()),
            StatementType::AssignStatement { left, operator: _operator, right } => {
                let v = match self.traverse_expression(right, ctxs) {
                    Ok(v) => v,
                    Err(e) => {
                        return Err(e);
                    },
                };
                self.vars.push(
                    (
                        clone_string(left),
                        Var { id: self.instance_var.len(), typ: VarType::Instance },
                    ),
                );
                self.instance_var.push(v);
                Ok(())
            },
            StatementType::Expression { expression: _expression } => Ok(()),
        }
    }

    /// Replay one expression to a two-share wire; an accepted expression had
    /// every identifier bound in range.
    #[verifier::rlimit(50)]
    fn traverse_expression(&mut self, expr: &ast::Expression, ctxs: &mut Vec<IKosContext>) -> (r:
        IKosResult<IKosVariable4V>)
        requires
            old(self).wires_wf(),
            ctxs2_wf(old(ctxs)@),
        ensures
            final(self).wires_wf(),
            final(self).out@ == old(self).out@,
            final(self).vars@ == old(self).vars@,
            final(self).in_pub@ == old(self).in_pub@,
            final(self).input_var@.len() == old(self).input_var@.len(),
            final(self).instance_var@.len() == old(self).instance_var@.len(),
            r is Ok ==> expr_evals(
                *expr,
                old(self).vars@,
                old(self).input_var@.len() as int,
                old(self).in_pub@.len() as int,
                old(self).instance_var@.len() as int,
            ),
            r matches Ok(v) ==> {
                &&& v.wf()
                &&& ctxs2_wf(final(ctxs)@)
            },
        decreases expr,
    {
        let res: IKosVariable4V = match &expr.node {
            ExpressionType::BinaryExpression { left, operator, right } => {
                let v1 = match self.traverse_expression(left, ctxs) {
                    Ok(v) => v,
                    Err(e) => {
                        return Err(e);
                    },
                };
                let v2 = match self.traverse_expression(right, ctxs) {
                    Ok(v) => v,
                    Err(e) => {
                        return Err(e);
                    },
                };
                let combined = match operator {
                    BinaryOperator::Add => v1.add_op(&v2, ctxs),
                    BinaryOperator::Gt => v1.gt(&v2, ctxs),
                    BinaryOperator::BitAnd => v1.bit_and(&v2, ctxs),
                    BinaryOperator::BitOr => Ok(v1.bit_or(&v2)),
                    BinaryOperator::BitXor => Ok(v1.xor(&v2)),
                    _ => Ok(IKosVariable4V::new_value(0)),
                };
                match combined {
                    Ok(v) => v,
                    Err(e) => {
                        return Err(e);
                    },
                }
            },
            ExpressionType::FunctionCallExpression { function_name: _f, arguments: _a } => {
                IKosVariable4V::new_value(0)
            },
            ExpressionType::Number { value } => {
                IKosVariable4V::new_value(#[verifier::truncate] (*value as u32))
            },
            ExpressionType::Identifier { value } => {
                let mut found: Option<Var> = None;
                let mut i: usize = 0;
                #[verifier::loop_isolation(false)]
                while i < self.vars.len()
                    invariant
                        i <= self.vars@.len(),
                        found == lookup_var(self.vars@.take(i as int), value@),
                    decreases self.vars@.len() - i,
                {
                    proof {
                        assert(self.vars@.take(i + 1 as int) =~= self.vars@.take(i as int).push(
                            self.vars@[i as int],
                        ));
                        lemma_lookup_push_pair(
                            self.vars@.take(i as int),
                            self.vars@[i as int],
                            value@,
                        );
                    }
                    if self.vars[i].0 == *value {
                        found = Some(self.vars[i].1);
                    }
                    i = i + 1;
                }
                proof {
                    assert(self.vars@.take(self.vars@.len() as int) =~= self.vars@);
                }
                let var = match found {
                    Some(v) => v,
                    None => {
                        return Err(IKosError { error: "unbound identifier".to_owned() });
                    },
                };
                match var.typ {
                    VarType::Private => {
                        if var.id >= self.input_var.len() {
                            return Err(IKosError { error: "input share out of range".to_owned() });
                        }
                        self.input_var[var.id].duplicate()
                    },
                    VarType::Public => {
                        if var.id >= self.in_pub.len() {
                            return Err(IKosError { error: "public input out of range".to_owned() });
                        }
                        IKosVariable4V::new_value(self.in_pub[var.id])
                    },
                    VarType::Instance => {
                        if var.id >= self.instance_var.len() {
                            return Err(IKosError { error: "instance out of range".to_owned() });
                        }
                        self.instance_var[var.id].duplicate()
                    },
                }
            },
        };
        let cond = match &self.cond {
            Some(c) => Some(c.duplicate()),
            None => None,
        };
        match cond {
            Some(c) => {
                self.cond = None;
                res.bit_and(&c, ctxs)
            },
            None => Ok(res),
        }
    }
}

} // verus!
