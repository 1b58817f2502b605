//! The memory policy, its reading from the environment, and cancellation.
use midnight_proofs::config::{
    CancelFlags, CancelToken, PolicyVars, ProverConfig, ProverContext, DEFAULT_COSET_SPILL_FLOOR_K,
    DEFAULT_MSM_CHUNK_LOG2,
};
use midnight_proofs::plonk::error::{Error, MIDNIGHT_CANCEL_SENTINEL};

fn unset() -> PolicyVars {
    PolicyVars {
        spill_pk: None,
        spill_cosets: None,
        spill_floor_k: None,
        spill_dir: None,
        msm_chunk_log2: None,
    }
}

fn set(text: &str) -> Option<String> {
    Some(text.to_string())
}

#[test]
fn heap_is_the_default_and_turns_nothing_on() {
    let c = ProverConfig::default();
    assert_eq!(c, ProverConfig::heap());
    assert!(!c.map_prover_key);
    assert!(!c.spill_cosets);
    // Off everywhere, including far above the floor.
    assert!(!c.spills_cosets_at(30));
}

#[test]
fn the_spill_gate_needs_both_the_switch_and_the_floor() {
    let c = ProverConfig { spill_cosets: true, coset_spill_floor_k: 18, ..ProverConfig::heap() };
    assert!(!c.spills_cosets_at(17), "below the floor must not spill");
    assert!(c.spills_cosets_at(18), "at the floor must spill");
    assert!(c.spills_cosets_at(19), "above the floor must spill");

    let off = ProverConfig { spill_cosets: false, ..c.clone() };
    assert!(!off.spills_cosets_at(19), "the floor alone must not enable spilling");
}

#[test]
fn the_four_combinations_are_all_expressible() {
    let cosets_only = ProverConfig { spill_cosets: true, ..ProverConfig::heap() };
    assert!(!cosets_only.map_prover_key);
    assert!(cosets_only.spills_cosets_at(20));

    let both = ProverConfig::mapped_key_and_cosets();
    assert!(both.map_prover_key && both.spills_cosets_at(20));

    let key_only = ProverConfig::mapped_key();
    assert!(key_only.map_prover_key && !key_only.spills_cosets_at(20));
}

#[test]
fn msm_chunk_is_two_to_the_log() {
    assert_eq!(ProverConfig::heap().msm_chunk(), 1 << DEFAULT_MSM_CHUNK_LOG2);
    let c = ProverConfig { msm_chunk_log2: 3, ..ProverConfig::heap() };
    assert_eq!(c.msm_chunk(), 8);
}

#[test]
fn the_process_policy_is_stable_within_a_run() {
    let mut cell = None;
    let first = ProverConfig::process(&mut cell, &unset()).clone();
    assert_eq!(&first, ProverConfig::process(&mut cell, &unset()));
}

#[test]
fn the_process_policy_ignores_a_later_environment() {
    let mut cell = None;
    let first = ProverConfig::process(&mut cell, &unset()).clone();
    let later = PolicyVars { spill_pk: set("1"), ..unset() };
    assert_eq!(ProverConfig::process(&mut cell, &later), &first);
    assert!(ProverConfig::from_env(&later).map_prover_key);
}

#[test]
fn a_token_cancels_its_holder_and_nothing_else() {
    let mut flags = CancelFlags::new();
    let a = CancelToken::new(&mut flags);
    let b = CancelToken::new(&mut flags);
    let a_handle = a.clone();
    assert!(!a.is_cancelled(&flags) && !b.is_cancelled(&flags));

    a_handle.cancel(&mut flags);
    assert!(a.is_cancelled(&flags), "the clone shares the flag");
    assert!(!b.is_cancelled(&flags), "an unrelated token is untouched");

    let ctx_a = ProverContext::new(ProverConfig::heap()).with_cancel(a);
    let ctx_b = ProverContext::new(ProverConfig::heap()).with_cancel(b);
    let ctx_none = ProverContext::new(ProverConfig::heap());
    assert!(ctx_a.is_cancelled(&flags));
    assert!(!ctx_b.is_cancelled(&flags));
    assert!(!ctx_none.is_cancelled(&flags), "no token means never cancelled");
}

#[test]
fn the_process_wide_token_is_apart_from_the_others() {
    let mut flags = CancelFlags::default();
    let mine = CancelToken::new(&mut flags);
    let mut cell = None;
    let vars = PolicyVars { spill_cosets: set("true"), ..unset() };
    let process = ProverContext::process(&mut cell, &vars);
    assert!(process.config.spill_cosets);
    assert!(!process.is_cancelled(&flags));

    mine.cancel(&mut flags);
    assert!(!process.is_cancelled(&flags));
    CancelToken::shared().cancel(&mut flags);
    assert!(process.is_cancelled(&flags));
    assert!(process.clone().is_cancelled(&flags));
}

#[test]
fn a_checkpoint_stops_a_cancelled_proof() {
    let mut flags = CancelFlags::new();
    let token = CancelToken::new(&mut flags);
    let ctx = ProverContext::default().with_cancel(token.clone());
    assert!(ctx.checkpoint(&flags, "trace.start").is_ok());
    token.cancel(&mut flags);
    match ctx.checkpoint(&flags, "trace.end") {
        Err(Error::Cancelled { phase }) => assert_eq!(phase, "trace.end"),
        Ok(()) => panic!("a cancelled proof went on"),
    }
}

#[test]
fn msm_chunk_never_overflows_the_shift() {
    for log2 in [usize::BITS - 1, usize::BITS, 64, 200, u32::MAX] {
        let c = ProverConfig { msm_chunk_log2: log2, ..ProverConfig::heap() };
        assert_eq!(c.msm_chunk(), 1usize << (usize::BITS - 1), "log2={log2}");
    }
}

#[test]
fn the_cancelled_error_still_carries_the_sentinel() {
    let e = Error::Cancelled { phase: "trace.parse_advices.start" };
    let text = e.message();
    assert!(text.contains(MIDNIGHT_CANCEL_SENTINEL), "{text}");
    assert!(text.contains("trace.parse_advices.start"), "{text}");
}

#[test]
fn an_unset_environment_is_the_heap_policy() {
    assert_eq!(ProverConfig::from_env(&unset()), ProverConfig::heap());
}

#[test]
fn every_variable_sets_its_own_field() {
    let vars = PolicyVars {
        spill_pk: set("1"),
        spill_cosets: set("true"),
        spill_floor_k: set("+14"),
        spill_dir: set("/spill"),
        msm_chunk_log2: set("20"),
    };
    assert_eq!(
        ProverConfig::from_env(&vars),
        ProverConfig {
            map_prover_key: true,
            spill_cosets: true,
            coset_spill_floor_k: 14,
            spill_dir: set("/spill"),
            msm_chunk_log2: 20,
        }
    );
}

#[test]
fn what_cannot_be_read_falls_back_to_the_default() {
    for text in ["", "+", "-1", "4294967296", "0x10", " 1", "1 ", "1e1", "\u{663}", "+1\u{663}"] {
        let vars = PolicyVars {
            spill_pk: set("TRUE"),
            spill_cosets: set("yes"),
            spill_floor_k: set(text),
            spill_dir: set(""),
            msm_chunk_log2: set(text),
        };
        let c = ProverConfig::from_env(&vars);
        assert_eq!(c, ProverConfig::heap(), "{text:?}");
        assert_eq!(c.coset_spill_floor_k, DEFAULT_COSET_SPILL_FLOOR_K);
        assert_eq!(text.parse::<u32>().ok(), None, "{text:?}");
    }
}

#[test]
fn numerals_are_read_as_the_standard_library_reads_them() {
    for text in ["0", "007", "+7", "4294967295", "18", "00000000000000000001"] {
        let vars = PolicyVars { spill_floor_k: set(text), ..unset() };
        assert_eq!(
            ProverConfig::from_env(&vars).coset_spill_floor_k,
            text.parse::<u32>().unwrap(),
            "{text:?}"
        );
    }
}

#[test]
fn a_chunk_size_out_of_range_disables_chunking() {
    for (text, log2) in [("63", usize::BITS - 1), ("64", usize::BITS - 1), ("200", usize::BITS - 1)] {
        let vars = PolicyVars { msm_chunk_log2: set(text), ..unset() };
        assert_eq!(ProverConfig::from_env(&vars).msm_chunk_log2, log2);
    }
}

#[test]
fn a_chunk_size_out_of_range_is_handed_to_the_host_to_warn_about() {
    for (text, log2) in [("64", Some(64)), ("200", Some(200)), ("18", None), ("many", None)] {
        let vars = PolicyVars { msm_chunk_log2: set(text), ..unset() };
        assert_eq!(ProverConfig::out_of_range_chunk_log2(&vars), log2, "{text}");
    }
    assert_eq!(ProverConfig::out_of_range_chunk_log2(&unset()), None);
}
