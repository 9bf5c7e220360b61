//! End-to-end and gate-level behaviour of the proof engine.

use zoker::parse_zok;
use zoker::parser::ast;
use zoker::traverser::prf_traverser::{find_function, ProofTraverser};
use zoker::zkboo::ikos::{
    get_next_random_from_context, IKosContext, IKosVariable4P, IKosView,
};
use zoker::zkboo::zkboo::{Proof, ProvingProof, ZkBoo};

fn fixed_view(seed: Vec<u8>) -> IKosView {
    IKosView { rand_tape_seed: seed, in_data: vec![], out_data: vec![] }
}

fn split3(x: u32) -> IKosVariable4P {
    let s0 = x ^ 0xdead_beef;
    let s1 = 0x1234_5678;
    let s2 = (x ^ s0) ^ s1;
    IKosVariable4P::new_share(vec![s0, s1, s2])
}

fn recombine(v: &IKosVariable4P) -> u32 {
    (v.value[0] ^ v.value[1]) ^ v.value[2]
}

fn three_contexts() -> Vec<IKosContext> {
    vec![IKosContext::new(), IKosContext::new(), IKosContext::new()]
}

#[test]
fn randomness_pool_is_deterministic() {
    let seed = vec![7u8; 16];
    let mut c1 = IKosContext::new_views(fixed_view(seed.clone()));
    let mut c2 = IKosContext::new_views(fixed_view(seed));
    let mut w1 = Vec::new();
    let mut w2 = Vec::new();
    for _ in 0..20 {
        w1.push(get_next_random_from_context(&mut c1).unwrap());
    }
    for _ in 0..20 {
        w2.push(get_next_random_from_context(&mut c2).unwrap());
    }
    assert_eq!(w1, w2);
}

#[test]
fn pool_reseeds_past_first_block() {
    let seed = vec![1u8; 16];
    let mut c = IKosContext::new_views(fixed_view(seed));
    let mut ws = Vec::new();
    for _ in 0..16 {
        ws.push(get_next_random_from_context(&mut c).unwrap());
    }
    // The second block comes from rehashing the first, not from repeating it.
    assert_ne!(&ws[0..8], &ws[8..16]);
}

#[test]
fn commitment_avalanche_on_seed_bit() {
    let seed = vec![3u8; 16];
    let mut view = fixed_view(seed.clone());
    view.out_data = vec![1, 2, 3];
    let base = IKosContext::new_views(view).commit_ikos_context();

    let mut seed2 = seed;
    seed2[0] ^= 1;
    let mut view2 = fixed_view(seed2);
    view2.out_data = vec![1, 2, 3];
    let flipped = IKosContext::new_views(view2).commit_ikos_context();
    assert_ne!(base, flipped);
}

#[test]
fn commitment_avalanche_on_recorded_data_bit() {
    let seed = vec![3u8; 16];
    let mut view = fixed_view(seed.clone());
    view.out_data = vec![1, 2, 3];
    let base = IKosContext::new_views(view).commit_ikos_context();

    let mut view2 = fixed_view(seed);
    view2.out_data = vec![1, 2, 3 ^ 1];
    let flipped = IKosContext::new_views(view2).commit_ikos_context();
    assert_ne!(base, flipped);
}

#[test]
fn and_gate_recombines_to_bitwise_and() {
    for &(a, b) in
        &[(0u32, 0u32), (1, 1), (0xffff_ffff, 0x1234_5678), (0x8000_0000, 0x8000_0001), (7, 25)]
    {
        let mut ctxs = three_contexts();
        let r = split3(a).bit_and(&split3(b), &mut ctxs);
        assert_eq!(recombine(&r), a & b);
        // Exactly one log entry was written per party.
        assert_eq!(ctxs[0].ikos_view.out_data.len(), 1);
        assert_eq!(ctxs[1].ikos_view.out_data.len(), 1);
        assert_eq!(ctxs[2].ikos_view.out_data.len(), 1);
    }
}

#[test]
fn add_gate_recombines_to_wrapping_sum() {
    for &(a, b) in &[
        (0u32, 0u32),
        (1, 1),
        (0xffff_ffff, 1),
        (0xffff_ffff, 0xffff_ffff),
        (0x7fff_ffff, 1),
        (123_456, 654_321),
    ] {
        let mut ctxs = three_contexts();
        let r = split3(a).add_op(&split3(b), &mut ctxs);
        assert_eq!(recombine(&r), a.wrapping_add(b));
        // The whole carry history is one log entry per party.
        assert_eq!(ctxs[0].ikos_view.out_data.len(), 1);
    }
}

#[test]
fn xor_and_negate_are_linear() {
    let ctxs = three_contexts();
    let r = split3(0x0f0f_0f0f).xor(&split3(0x00ff_00ff));
    assert_eq!(recombine(&r), 0x0f0f_0f0f ^ 0x00ff_00ff);
    let n = split3(0x1234_5678).negate();
    assert_eq!(recombine(&n), !0x1234_5678u32);
    // Linear gates never touch the randomness or the logs.
    let w = split3(1).lshift(4).rshift(2);
    assert_eq!(recombine(&w), (1u32 << 4) >> 2);
    assert_eq!(ctxs[0].ikos_view.out_data.len(), 0);
}

#[test]
fn gt_gate_recombines_to_comparison() {
    // Pairs whose difference stays within 2^31, where the sign-bit trick
    // reads as the strict comparison.
    for &(a, b, expect) in &[
        (25u32, 19u32, u32::MAX),
        (10, 19, 0),
        (1, 0, u32::MAX),
        (0, 1, 0),
        (0x8000_0000, 0x7fff_ffff, u32::MAX),
        (0x7fff_ffff, 0x8000_0000, 0),
        (u32::MAX, 0x8000_0000, u32::MAX),
        (0x8000_0000, u32::MAX, 0),
    ] {
        let mut ctxs = three_contexts();
        let r = split3(a).gt(&split3(b), &mut ctxs);
        assert_eq!(recombine(&r), expect, "gt({a}, {b})");
    }
}

#[test]
fn if_op_masks_with_condition() {
    let mut ctxs = three_contexts();
    let cond = split3(u32::MAX);
    let val = split3(0xabcd_ef01);
    let r = val.if_op(&cond, &mut ctxs);
    assert_eq!(recombine(&r), 0xabcd_ef01);
    let mut ctxs2 = three_contexts();
    let r2 = split3(0xabcd_ef01).if_op(&split3(0), &mut ctxs2);
    assert_eq!(recombine(&r2), 0);
}

const AGE_CONTRACT: &str =
    "contract A { function check(private uint age) returns uint { return age > 19; } }";

fn run_pipeline(age: u32) -> (Proof, Result<Vec<u8>, String>) {
    let prog = parse_zok(AGE_CONTRACT).unwrap();
    let ast::Program::GlobalStatements(v) = &prog;
    let gs = &v[0];
    let mut tr = ProofTraverser::new(vec![age]);
    tr.traverse_global_statement(gs, &"A".to_string(), &"check".to_string()).unwrap();
    let (params, stmts) = find_function(gs, &"check".to_string()).unwrap();
    let zk = ZkBoo::new(2, 3, 2, 32);
    let proving = ProvingProof::new(tr.input.clone(), tr.in_pub.clone(), 1);
    let res = zk.prove(proving, &mut tr, stmts).unwrap();
    let challenge = ZkBoo::query_random_oracle(res.input_len, 1, &res.out_data, &res.three_views);
    let response = ZkBoo::build_response(&res.views, &challenge);
    let verdict =
        zk.rebuild_proof(&res, &challenge, &response, params, stmts).map_err(|e| e.error);
    (res, verdict)
}

#[test]
fn end_to_end_age_above_threshold_accepts_as_true() {
    let (res, verdict) = run_pipeline(25);
    assert!(verdict.is_ok());
    assert_eq!(res.output, vec![u32::MAX]);
}

#[test]
fn end_to_end_age_below_threshold_accepts_as_false() {
    // The proof attests correct evaluation, not a particular outcome.
    let (res, verdict) = run_pipeline(10);
    assert!(verdict.is_ok());
    assert_eq!(res.output, vec![0]);
}

#[test]
fn malformed_witness_aborts_before_any_repetition() {
    let prog = parse_zok(AGE_CONTRACT).unwrap();
    // Too few witness words.
    let short = ProofTraverser::traverse(&prog, &"A".to_string(), &"check".to_string(), vec![]);
    assert!(short.is_err());
    // Surplus witness words are as malformed as missing ones.
    let long =
        ProofTraverser::traverse(&prog, &"A".to_string(), &"check".to_string(), vec![25, 7]);
    assert!(long.is_err());
    // The exact arity proves.
    let exact = ProofTraverser::traverse(&prog, &"A".to_string(), &"check".to_string(), vec![25]);
    assert!(exact.is_ok());
}

#[test]
fn transcript_export_renders() {
    let prog = parse_zok(AGE_CONTRACT).unwrap();
    let t =
        ProofTraverser::traverse(&prog, &"A".to_string(), &"check".to_string(), vec![25]).unwrap();
    assert!(t.starts_with("[1,[],[4294967295],\"0x"));
    assert!(t.ends_with("]]"));
}

#[test]
fn tampered_revealed_log_entry_rejects() {
    let prog = parse_zok(AGE_CONTRACT).unwrap();
    let ast::Program::GlobalStatements(v) = &prog;
    let gs = &v[0];
    let mut tr = ProofTraverser::new(vec![25]);
    tr.traverse_global_statement(gs, &"A".to_string(), &"check".to_string()).unwrap();
    let (params, stmts) = find_function(gs, &"check".to_string()).unwrap();
    let zk = ZkBoo::new(2, 3, 2, 32);
    let proving = ProvingProof::new(tr.input.clone(), tr.in_pub.clone(), 1);
    let res = zk.prove(proving, &mut tr, stmts).unwrap();
    let challenge = ZkBoo::query_random_oracle(res.input_len, 1, &res.out_data, &res.three_views);
    let response = ZkBoo::build_response(&res.views, &challenge);
    // Every single revealed log entry is load-bearing.
    for i in 0..response.len() {
        for k in 0..response[i].out_data.len() {
            let mut tampered = ZkBoo::build_response(&res.views, &challenge);
            tampered[i].out_data[k] ^= 1;
            let verdict = zk.rebuild_proof(&res, &challenge, &tampered, params, stmts);
            assert!(verdict.is_err(), "tampering view {i} entry {k} must reject");
        }
    }
    // The untampered response still verifies.
    assert!(zk.rebuild_proof(&res, &challenge, &response, params, stmts).is_ok());
}

#[test]
fn tampered_revealed_seed_rejects() {
    let prog = parse_zok(AGE_CONTRACT).unwrap();
    let ast::Program::GlobalStatements(v) = &prog;
    let gs = &v[0];
    let mut tr = ProofTraverser::new(vec![25]);
    tr.traverse_global_statement(gs, &"A".to_string(), &"check".to_string()).unwrap();
    let (params, stmts) = find_function(gs, &"check".to_string()).unwrap();
    let zk = ZkBoo::new(2, 3, 2, 32);
    let proving = ProvingProof::new(tr.input.clone(), tr.in_pub.clone(), 1);
    let res = zk.prove(proving, &mut tr, stmts).unwrap();
    let challenge = ZkBoo::query_random_oracle(res.input_len, 1, &res.out_data, &res.three_views);
    let mut response = ZkBoo::build_response(&res.views, &challenge);
    response[0].rand_tape_seed[0] ^= 1;
    assert!(zk.rebuild_proof(&res, &challenge, &response, params, stmts).is_err());
}

#[test]
fn independent_runs_differ_yet_both_verify() {
    let (res1, verdict1) = run_pipeline(25);
    let (res2, verdict2) = run_pipeline(25);
    assert!(verdict1.is_ok());
    assert!(verdict2.is_ok());
    // Fresh seeds every run, so fresh commitments.
    assert_ne!(res1.views[0].rand_tape_seed, res2.views[0].rand_tape_seed);
    assert_ne!(res1.three_views, res2.three_views);
    // But the same claimed output.
    assert_eq!(res1.output, res2.output);
}
