//! Prover memory policy: how much memory the prover may use, and what it may
//! spend instead.
//!
//! [`ProverConfig`] is plain data: every memory decision is a method on it.
//! [`ProverContext`] carries a config and an optional [`CancelToken`] through
//! key loading and proof creation, so two requests in one process hold two
//! contexts and neither can see the other.
use vstd::arithmetic::power2::pow2;
use vstd::prelude::*;

use crate::plonk::error::Error;
use crate::text::{
    lemma_digits_name_their_number, lemma_other_texts_name_no_number, numeral_value, parse_u32,
    u32_of_text,
};

verus! {

/// Default `k` at or above which coset spilling engages, when enabled.
///
/// Below it, writing the file and faulting its pages in costs more than the
/// heap that the small cosets would have taken.
pub const DEFAULT_COSET_SPILL_FLOOR_K: u32 = 18;

/// Default chunk size of a multi-scalar multiplication, as a log2.
pub const DEFAULT_MSM_CHUNK_LOG2: u32 = 18;

/// How the prover trades memory against CPU and disk.
///
/// Nothing here changes what a proof is: these settings only change where the
/// intermediate values live.
#[derive(Debug, PartialEq, Eq)]
pub struct ProverConfig {
    /// Move the prover key into a mapped file rather than holding it on the
    /// heap.
    pub map_prover_key: bool,
    /// Spill extended-domain cosets to a mapped temporary file at or above
    /// `coset_spill_floor_k`.
    pub spill_cosets: bool,
    /// The `k` at or above which `spill_cosets` engages.
    pub coset_spill_floor_k: u32,
    /// Directory for spill files. `None` uses the host's default.
    pub spill_dir: Option<String>,
    /// Chunk size of a multi-scalar multiplication, as a log2. A large value
    /// disables chunking.
    pub msm_chunk_log2: u32,
}

/// What the environment says about the policy: the text of each variable that
/// is set.
#[derive(Debug, PartialEq, Eq)]
pub struct PolicyVars {
    /// `MIDNIGHT_SPILL_PK`
    pub spill_pk: Option<String>,
    /// `MIDNIGHT_SPILL_COSETS`
    pub spill_cosets: Option<String>,
    /// `MIDNIGHT_SPILL_FLOOR_K`
    pub spill_floor_k: Option<String>,
    /// `MIDNIGHT_SPILL_DIR`
    pub spill_dir: Option<String>,
    /// `MIDNIGHT_MSM_CHUNK_LOG2`
    pub msm_chunk_log2: Option<String>,
}

/// The log2 above which a chunk size cannot be represented.
pub open spec fn max_chunk_log2() -> u32 {
    (usize::BITS - 1) as u32
}

/// A chunk size's log2, brought into range: too large a value stands for the
/// largest power of two, which is larger than any multi-scalar multiplication.
pub open spec fn clamped_log2(log2: u32) -> u32 {
    if log2 < usize::BITS {
        log2
    } else {
        max_chunk_log2()
    }
}

/// Whether a variable switches something on: `1` or `true`, and nothing else.
pub open spec fn switched_on(var: Option<String>) -> bool {
    var matches Some(text) && (text@ == "1"@ || text@ == "true"@)
}

/// The number in a variable, if it is set and holds one.
pub open spec fn number_in(var: Option<String>) -> Option<u32> {
    match var {
        Some(text) => u32_of_text(text@),
        None => None,
    }
}

/// The policy that the environment asks for. What is unset or cannot be read
/// falls back to the default.
pub open spec fn policy_of(vars: PolicyVars) -> ProverConfig {
    ProverConfig {
        map_prover_key: switched_on(vars.spill_pk),
        spill_cosets: switched_on(vars.spill_cosets),
        coset_spill_floor_k: match number_in(vars.spill_floor_k) {
            Some(k) => k,
            None => DEFAULT_COSET_SPILL_FLOOR_K,
        },
        spill_dir: match vars.spill_dir {
            Some(dir) => if dir@.len() == 0 {
                None
            } else {
                Some(dir)
            },
            None => None,
        },
        msm_chunk_log2: match number_in(vars.msm_chunk_log2) {
            Some(log2) => clamped_log2(log2),
            None => DEFAULT_MSM_CHUNK_LOG2,
        },
    }
}

/// The policy of a process whose cell holds `cell` when it is asked for: the one
/// that is stored, or else the one that the environment asks for.
pub open spec fn process_policy(cell: Option<ProverConfig>, vars: PolicyVars) -> ProverConfig {
    match cell {
        Some(stored) => stored,
        None => policy_of(vars),
    }
}

/// Clones an optional text.
fn clone_text(text: &Option<String>) -> (copy: Option<String>)
    ensures
        copy == *text,
{
    match text {
        Some(text) => Some(text.clone()),
        None => None,
    }
}

/// `1` or `true`; anything else, including unset, is false.
fn env_flag(var: &Option<String>) -> (on: bool)
    ensures
        on == switched_on(*var),
{
    match var {
        Some(text) => *text == "1".to_owned() || *text == "true".to_owned(),
        None => false,
    }
}

/// The number in a variable, if it is set and holds one.
fn env_parse(var: &Option<String>) -> (number: Option<u32>)
    ensures
        number == number_in(*var),
{
    match var {
        Some(text) => parse_u32(text.as_str()),
        None => None,
    }
}

impl Clone for ProverConfig {
    fn clone(&self) -> (copy: Self)
        ensures
            copy == *self,
    {
        ProverConfig {
            map_prover_key: self.map_prover_key,
            spill_cosets: self.spill_cosets,
            coset_spill_floor_k: self.coset_spill_floor_k,
            spill_dir: clone_text(&self.spill_dir),
            msm_chunk_log2: self.msm_chunk_log2,
        }
    }
}

impl Default for ProverConfig {
    /// Everything on the heap.
    fn default() -> (config: Self)
        ensures
            config == ProverConfig::spec_heap(),
    {
        Self::heap()
    }
}

impl ProverConfig {
    /// The policy with every optimisation off.
    pub open spec fn spec_heap() -> Self {
        ProverConfig {
            map_prover_key: false,
            spill_cosets: false,
            coset_spill_floor_k: DEFAULT_COSET_SPILL_FLOOR_K,
            spill_dir: None,
            msm_chunk_log2: DEFAULT_MSM_CHUNK_LOG2,
        }
    }

    /// Everything on the heap: the right choice wherever memory is not the
    /// binding constraint.
    pub fn heap() -> (config: Self)
        ensures
            config == Self::spec_heap(),
    {
        ProverConfig {
            map_prover_key: false,
            spill_cosets: false,
            coset_spill_floor_k: DEFAULT_COSET_SPILL_FLOOR_K,
            spill_dir: None,
            msm_chunk_log2: DEFAULT_MSM_CHUNK_LOG2,
        }
    }

    /// Map the prover key; leave cosets on the heap.
    pub fn mapped_key() -> (config: Self)
        ensures
            config == (ProverConfig { map_prover_key: true, ..Self::spec_heap() }),
    {
        ProverConfig { map_prover_key: true, ..Self::heap() }
    }

    /// Map the prover key and spill cosets above the default floor.
    pub fn mapped_key_and_cosets() -> (config: Self)
        ensures
            config == (ProverConfig {
                map_prover_key: true,
                spill_cosets: true,
                ..Self::spec_heap()
            }),
    {
        ProverConfig { map_prover_key: true, spill_cosets: true, ..Self::heap() }
    }

    /// The policy that the environment asks for.
    ///
    /// Unset or unreadable values fall back to the defaults rather than
    /// failing: a malformed tuning knob should not stop a prover that would
    /// otherwise work. A chunk size that is out of range is read as "chunking
    /// disabled".
    pub fn from_env(vars: &PolicyVars) -> (config: Self)
        ensures
            config == policy_of(*vars),
    {
        ProverConfig {
            map_prover_key: env_flag(&vars.spill_pk),
            spill_cosets: env_flag(&vars.spill_cosets),
            coset_spill_floor_k: match env_parse(&vars.spill_floor_k) {
                Some(k) => k,
                None => DEFAULT_COSET_SPILL_FLOOR_K,
            },
            spill_dir: match &vars.spill_dir {
                Some(dir) => if dir.as_str().is_empty() {
                    None
                } else {
                    Some(dir.clone())
                },
                None => None,
            },
            msm_chunk_log2: match env_parse(&vars.msm_chunk_log2) {
                Some(log2) => if log2 < usize::BITS {
                    log2
                } else {
                    usize::BITS - 1
                },
                None => DEFAULT_MSM_CHUNK_LOG2,
            },
        }
    }

    /// The log2 of a chunk size that [`from_env`](Self::from_env) found out of
    /// range, for the host to warn about: whoever set it meant something.
    pub fn out_of_range_chunk_log2(vars: &PolicyVars) -> (log2: Option<u32>)
        ensures
            log2 == match number_in(vars.msm_chunk_log2) {
                Some(log2) => if log2 < usize::BITS {
                    None
                } else {
                    Some(log2)
                },
                None => None,
            },
    {
        match env_parse(&vars.msm_chunk_log2) {
            Some(log2) => if log2 < usize::BITS {
                None
            } else {
                Some(log2)
            },
            None => None,
        }
    }

    /// The process-wide policy, read from the environment on first use.
    ///
    /// `cell` holds the policy of the process. It is filled once and frozen: a
    /// later call returns what the first one stored, whatever the environment
    /// says by then.
    pub fn process<'a>(cell: &'a mut Option<ProverConfig>, vars: &PolicyVars) -> (config:
        &'a ProverConfig)
        ensures
            *config == process_policy(*old(cell), *vars),
            *final(cell) == Some(*config),
            *old(cell) matches Some(stored) ==> *config == stored,
    {
        if cell.is_none() {
            *cell = Some(Self::from_env(vars));
        }
        match cell {
            Some(config) => config,
            None => unreached(),
        }
    }

    /// Whether cosets spill for a circuit of size `k` under this policy.
    pub open spec fn spec_spills_cosets_at(self, k: u32) -> bool {
        self.spill_cosets && k >= self.coset_spill_floor_k
    }

    /// Whether cosets spill for a circuit of size `k` under this policy.
    pub fn spills_cosets_at(&self, k: u32) -> (spills: bool)
        ensures
            spills == self.spec_spills_cosets_at(k),
    {
        self.spill_cosets && k >= self.coset_spill_floor_k
    }

    /// Chunk size of a multi-scalar multiplication.
    ///
    /// The log2 is brought into range before the shift, so an out-of-range
    /// value disables chunking rather than overflowing.
    pub fn msm_chunk(&self) -> (chunk: usize)
        ensures
            chunk == pow2(clamped_log2(self.msm_chunk_log2) as nat),
    {
        let log2: u32 = if self.msm_chunk_log2 < usize::BITS {
            self.msm_chunk_log2
        } else {
            usize::BITS - 1
        };
        proof {
            vstd::bits::lemma_usize_pow2_no_overflow(log2 as nat);
            vstd::bits::lemma_usize_shl_is_mul(1, log2 as usize);
        }
        1usize << log2
    }
}

/// The cancellation flags of a process: the process-wide one, and one for each
/// token that was made.
///
/// A host that cancels from other threads keeps this value behind a lock.
#[derive(Debug)]
pub struct CancelFlags {
    shared: bool,
    owned: Vec<bool>,
}

/// A request-scoped cancellation flag.
///
/// One token belongs to one proof. Setting it stops that proof at its next
/// phase checkpoint; it cannot reach a proof that holds a different token. Clone
/// it to hand the caller a handle while the prover holds the other one: both
/// name the same flag.
#[derive(Debug)]
pub struct CancelToken(TokenFlag);

#[derive(Clone, Copy, Debug)]
enum TokenFlag {
    /// The flag at this position, shared only with the token's clones.
    Owned(usize),
    /// The process-wide flag.
    Shared,
}

impl CancelFlags {
    /// Whether the token belongs to these flags.
    pub closed spec fn issued(&self, token: CancelToken) -> bool {
        match token.0 {
            TokenFlag::Owned(at) => at < self.owned@.len(),
            TokenFlag::Shared => true,
        }
    }

    /// Whether the token's flag is set.
    pub closed spec fn raised(&self, token: CancelToken) -> bool {
        match token.0 {
            TokenFlag::Owned(at) => at < self.owned@.len() && self.owned@[at as int],
            TokenFlag::Shared => self.shared,
        }
    }

    /// The flags of a process in which nothing is cancelled and the process-wide
    /// token is the only one.
    pub fn new() -> (flags: Self)
        ensures
            forall|token: CancelToken| !#[trigger] flags.raised(token),
            forall|token: CancelToken| #[trigger] flags.issued(token) == token.is_shared(),
    {
        CancelFlags { shared: false, owned: Vec::new() }
    }
}

impl Default for CancelFlags {
    fn default() -> (flags: Self)
        ensures
            forall|token: CancelToken| !#[trigger] flags.raised(token),
            forall|token: CancelToken| #[trigger] flags.issued(token) == token.is_shared(),
    {
        Self::new()
    }
}

impl Clone for CancelToken {
    /// A second handle on the same flag.
    fn clone(&self) -> (copy: Self)
        ensures
            copy == *self,
    {
        CancelToken(self.0)
    }
}

impl CancelToken {
    /// Whether this is the token over the process-wide flag.
    pub closed spec fn is_shared(self) -> bool {
        self.0 is Shared
    }

    /// A fresh token, not cancelled.
    pub fn new(flags: &mut CancelFlags) -> (token: Self)
        ensures
            !old(flags).issued(token),
            !final(flags).raised(token),
            forall|t: CancelToken| #[trigger]
                final(flags).issued(t) == (old(flags).issued(t) || t == token),
            forall|t: CancelToken| #[trigger] final(flags).raised(t) == old(flags).raised(t),
    {
        let at: usize = flags.owned.len();
        flags.owned.push(false);
        CancelToken(TokenFlag::Owned(at))
    }

    /// The token over the process-wide flag. New callers want
    /// [`new`](Self::new).
    pub fn shared() -> (token: Self)
        ensures
            token.is_shared(),
            forall|t: CancelToken| #[trigger] t.is_shared() ==> t == token,
            forall|flags: CancelFlags| #[trigger] flags.issued(token),
    {
        CancelToken(TokenFlag::Shared)
    }

    /// Asks the proof that holds this token to stop at its next checkpoint.
    pub fn cancel(&self, flags: &mut CancelFlags)
        ensures
            forall|t: CancelToken| #[trigger] final(flags).issued(t) == old(flags).issued(t),
            forall|t: CancelToken| #[trigger]
                final(flags).raised(t) == (old(flags).raised(t) || t == *self && old(flags).issued(
                    t,
                )),
    {
        match self.0 {
            TokenFlag::Owned(at) => {
                if at < flags.owned.len() {
                    flags.owned[at] = true;
                }
            },
            TokenFlag::Shared => {
                flags.shared = true;
            },
        }
    }

    /// Whether [`cancel`](Self::cancel) has been called.
    pub fn is_cancelled(&self, flags: &CancelFlags) -> (cancelled: bool)
        ensures
            cancelled == flags.raised(*self),
    {
        self.flag(flags)
    }

    /// The flag that this token names.
    fn flag(&self, flags: &CancelFlags) -> (set: bool)
        ensures
            set == flags.raised(*self),
    {
        match self.0 {
            TokenFlag::Owned(at) => at < flags.owned.len() && flags.owned[at],
            TokenFlag::Shared => flags.shared,
        }
    }
}

/// Everything that a single proof needs to know about how to run, as distinct
/// from what to prove: the memory policy and an optional cancellation token.
#[derive(Debug)]
pub struct ProverContext {
    /// How this proof trades memory for CPU and disk.
    pub config: ProverConfig,
    /// Set to let the caller stop this proof between phases. `None` means that
    /// the proof cannot be cancelled.
    pub cancel: Option<CancelToken>,
}

impl Clone for ProverContext {
    fn clone(&self) -> (copy: Self)
        ensures
            copy == *self,
    {
        ProverContext {
            config: self.config.clone(),
            cancel: match &self.cancel {
                Some(token) => Some(token.clone()),
                None => None,
            },
        }
    }
}

impl Default for ProverContext {
    /// Everything on the heap, and no cancellation.
    fn default() -> (context: Self)
        ensures
            context.config == ProverConfig::spec_heap(),
            context.cancel is None,
    {
        Self::new(ProverConfig::heap())
    }
}

impl ProverContext {
    /// A context with the given policy and no cancellation.
    pub fn new(config: ProverConfig) -> (context: Self)
        ensures
            context.config == config,
            context.cancel is None,
    {
        ProverContext { config, cancel: None }
    }

    /// Attaches a cancellation token.
    pub fn with_cancel(self, token: CancelToken) -> (context: Self)
        ensures
            context.config == self.config,
            context.cancel == Some(token),
    {
        ProverContext { config: self.config, cancel: Some(token) }
    }

    /// Whether cancellation has been requested for this proof.
    pub open spec fn stopped(self, flags: CancelFlags) -> bool {
        self.cancel matches Some(token) && flags.raised(token)
    }

    /// Whether cancellation has been requested for this proof.
    pub fn is_cancelled(&self, flags: &CancelFlags) -> (cancelled: bool)
        ensures
            cancelled == self.stopped(*flags),
    {
        match &self.cancel {
            Some(token) => token.is_cancelled(flags),
            None => false,
        }
    }

    /// Ends the proof at the phase checkpoint `phase` if cancellation has been
    /// requested for it.
    pub fn checkpoint(&self, flags: &CancelFlags, phase: &'static str) -> (outcome: Result<
        (),
        Error,
    >)
        ensures
            outcome == if self.stopped(*flags) {
                Err::<(), Error>(Error::Cancelled { phase })
            } else {
                Ok(())
            },
    {
        if self.is_cancelled(flags) {
            Err(Error::Cancelled { phase })
        } else {
            Ok(())
        }
    }

    /// The process-wide context: [`ProverConfig::process`] with the process-wide
    /// flag as its token.
    pub fn process(cell: &mut Option<ProverConfig>, vars: &PolicyVars) -> (context: Self)
        ensures
            context.config == process_policy(*old(cell), *vars),
            *final(cell) == Some(context.config),
            *old(cell) matches Some(stored) ==> context.config == stored,
            context.cancel matches Some(token) && token.is_shared(),
    {
        let config = ProverConfig::process(cell, vars).clone();
        ProverContext { config, cancel: Some(CancelToken::shared()) }
    }
}

/// A token cancels the proofs that hold it or a clone of it, and no other: after
/// `token.cancel` a context is stopped exactly when it was already, or when it
/// holds that token.
pub proof fn law_a_token_cancels_its_holder_and_nothing_else(
    before: CancelFlags,
    after: CancelFlags,
    token: CancelToken,
    context: ProverContext,
)
    requires
        before.issued(token),
        forall|t: CancelToken| #[trigger]
            after.raised(t) == (before.raised(t) || t == token && before.issued(t)),
    ensures
        after.raised(token),
        context.stopped(after) == (context.stopped(before) || context.cancel == Some(token)),
{
}

/// Two tokens that were made one after the other are different, whatever the
/// flags were: cancelling one leaves the other as it was.
pub proof fn law_fresh_tokens_are_apart(
    before: CancelFlags,
    between: CancelFlags,
    first: CancelToken,
    second: CancelToken,
)
    requires
        forall|t: CancelToken| #[trigger] between.issued(t) == (before.issued(t) || t == first),
        !between.issued(second),
    ensures
        first != second,
{
    assert(between.issued(first));
}

/// The policy of a process is frozen: whatever the environment says at a later
/// call, the cell keeps the first policy.
pub proof fn law_the_process_policy_is_stable(
    cell: Option<ProverConfig>,
    vars: PolicyVars,
    later: PolicyVars,
)
    ensures
        process_policy(Some(process_policy(cell, vars)), later) == process_policy(cell, vars),
{
}

/// The heap policy spills nothing, however large the circuit.
pub proof fn law_heap_never_spills(k: u32)
    ensures
        !ProverConfig::spec_heap().spec_spills_cosets_at(k),
        !ProverConfig::spec_heap().map_prover_key,
{
}

/// Spilling is monotone in the circuit's size: a policy that spills at one size
/// spills at every larger one, and one whose switch is off never spills.
pub proof fn law_spilling_is_monotone(policy: ProverConfig, small: u32, large: u32)
    requires
        small <= large,
    ensures
        policy.spec_spills_cosets_at(small) ==> policy.spec_spills_cosets_at(large),
        !policy.spill_cosets ==> !policy.spec_spills_cosets_at(large),
{
}

/// A chunk is never empty and always fits: no log2 overflows the shift, and all
/// the log2s that are out of range give the same chunk.
pub proof fn law_chunks_are_in_range(log2: u32)
    ensures
        0 < pow2(clamped_log2(log2) as nat) <= usize::MAX,
        usize::BITS - 1 <= log2 ==> clamped_log2(log2) == max_chunk_log2(),
{
    vstd::arithmetic::power2::lemma_pow2_pos(clamped_log2(log2) as nat);
    vstd::bits::lemma_usize_pow2_no_overflow(clamped_log2(log2) as nat);
}

/// The two switches are independent, so all four combinations can be asked for:
/// each variable decides its own switch, and whether the key is mapped has no
/// say in which cosets spill.
pub proof fn law_the_four_combinations_are_all_expressible(
    vars: PolicyVars,
    spill_pk: Option<String>,
    spill_cosets: Option<String>,
    k: u32,
)
    ensures
        ({
            let policy = policy_of(PolicyVars { spill_pk, spill_cosets, ..vars });
            &&& policy.map_prover_key == switched_on(spill_pk)
            &&& policy.spill_cosets == switched_on(spill_cosets)
            &&& policy.spec_spills_cosets_at(k) == (switched_on(spill_cosets) && k >= policy_of(
                vars,
            ).coset_spill_floor_k)
        }),
{
}

/// A context without a token cannot be cancelled: whatever its policy is and
/// whichever flags are raised, it is never stopped and passes every checkpoint.
pub proof fn law_a_context_without_a_token_is_never_stopped(
    context: ProverContext,
    flags: CancelFlags,
    phase: &'static str,
    cancelled: bool,
    outcome: Result<(), Error>,
)
    requires
        context.cancel is None,
        call_ensures(ProverContext::is_cancelled, (&context, &flags), cancelled),
        call_ensures(ProverContext::checkpoint, (&context, &flags, phase), outcome),
    ensures
        !cancelled,
        !context.stopped(flags),
        outcome is Ok,
{
}

/// A context with a token is stopped exactly when the token itself says that it was
/// cancelled, whatever the policy is. A checkpoint then ends the proof, and names
/// the phase.
pub proof fn law_a_context_is_stopped_by_its_own_token_alone(
    context: ProverContext,
    token: CancelToken,
    flags: CancelFlags,
    phase: &'static str,
    asked: bool,
    cancelled: bool,
    outcome: Result<(), Error>,
)
    requires
        context.cancel == Some(token),
        call_ensures(CancelToken::is_cancelled, (&token, &flags), asked),
        call_ensures(ProverContext::is_cancelled, (&context, &flags), cancelled),
        call_ensures(ProverContext::checkpoint, (&context, &flags, phase), outcome),
    ensures
        cancelled == asked,
        context.stopped(flags) == asked,
        asked ==> outcome == Err::<(), Error>(Error::Cancelled { phase }),
        !asked ==> outcome is Ok,
{
}

/// Under fresh flags nothing is cancelled: no token says so, and no context is
/// stopped, whatever its policy and its token are.
pub proof fn law_nothing_is_stopped_under_fresh_flags(
    flags: CancelFlags,
    context: ProverContext,
    token: CancelToken,
    phase: &'static str,
    asked: bool,
    outcome: Result<(), Error>,
)
    requires
        call_ensures(CancelFlags::new, (), flags),
        call_ensures(CancelToken::is_cancelled, (&token, &flags), asked),
        call_ensures(ProverContext::checkpoint, (&context, &flags, phase), outcome),
    ensures
        !asked,
        !context.stopped(flags),
        outcome is Ok,
{
}

/// The switch and the floor decide together whether cosets spill: with the switch
/// off, or below the floor, they never do, and otherwise they always do.
pub proof fn law_the_switch_and_the_floor_decide(policy: ProverConfig, k: u32, spills: bool)
    requires
        call_ensures(ProverConfig::spills_cosets_at, (&policy, k), spills),
    ensures
        !policy.spill_cosets ==> !spills,
        k < policy.coset_spill_floor_k ==> !spills,
        policy.spill_cosets && policy.coset_spill_floor_k <= k ==> spills,
{
}

/// The ready-made policies differ in their switches alone, and none of them names a
/// directory.
pub proof fn law_the_named_policies_differ_in_their_switches(
    heap: ProverConfig,
    key: ProverConfig,
    both: ProverConfig,
)
    requires
        call_ensures(ProverConfig::heap, (), heap),
        call_ensures(ProverConfig::mapped_key, (), key),
        call_ensures(ProverConfig::mapped_key_and_cosets, (), both),
    ensures
        !heap.map_prover_key && !heap.spill_cosets,
        key.map_prover_key && !key.spill_cosets,
        both.map_prover_key && both.spill_cosets,
        heap.coset_spill_floor_k == 18 && heap.msm_chunk_log2 == 18 && heap.spill_dir is None,
        key.coset_spill_floor_k == 18 && key.msm_chunk_log2 == 18 && key.spill_dir is None,
        both.coset_spill_floor_k == 18 && both.msm_chunk_log2 == 18 && both.spill_dir is None,
{
}

/// A switch is on when its variable is `1` or `true`, and in no other case. Each
/// switch has its own variable.
pub proof fn law_switches_take_two_words(vars: PolicyVars, config: ProverConfig)
    requires
        call_ensures(ProverConfig::from_env, (&vars,), config),
    ensures
        vars.spill_pk is None ==> !config.map_prover_key,
        vars.spill_pk matches Some(text) ==> config.map_prover_key == (text@ == seq!['1'] || text@
            == seq!['t', 'r', 'u', 'e']),
        vars.spill_cosets is None ==> !config.spill_cosets,
        vars.spill_cosets matches Some(text) ==> config.spill_cosets == (text@ == seq!['1'] || text@
            == seq!['t', 'r', 'u', 'e']),
{
    reveal_strlit("1");
    reveal_strlit("true");
    assert("1"@ =~= seq!['1']);
    assert("true"@ =~= seq!['t', 'r', 'u', 'e']);
}

/// A directory that is asked for is the one that is used. An empty name asks for
/// none.
pub proof fn law_the_requested_directory_is_used(vars: PolicyVars, config: ProverConfig)
    requires
        call_ensures(ProverConfig::from_env, (&vars,), config),
    ensures
        vars.spill_dir is None ==> config.spill_dir is None,
        vars.spill_dir matches Some(dir) ==> dir@.len() == 0 ==> config.spill_dir is None,
        vars.spill_dir matches Some(dir) ==> dir@.len() > 0 ==> config.spill_dir == Some(dir),
{
}

/// Numbers that are written in decimal, with or without a plus sign, are taken as
/// they are. A floor that does not fit is no number, and so is such a chunk size; a
/// chunk size that merely cannot be shifted by stands for the largest one, and is
/// what a host is told to warn about.
pub proof fn law_numbers_are_taken_as_written(
    vars: PolicyVars,
    text: String,
    digits: Seq<char>,
    config: ProverConfig,
    warned: Option<u32>,
)
    requires
        digits.len() > 0,
        forall|i: int| 0 <= i < digits.len() ==> '0' <= #[trigger] digits[i] <= '9',
        text@ == digits || text@ == seq!['+'] + digits,
        call_ensures(ProverConfig::from_env, (&vars,), config),
        call_ensures(ProverConfig::out_of_range_chunk_log2, (&vars,), warned),
    ensures
        vars.spill_floor_k == Some(text) ==> config.coset_spill_floor_k == if numeral_value(digits)
            <= 0xffff_ffff {
            numeral_value(digits)
        } else {
            18
        },
        vars.msm_chunk_log2 == Some(text) ==> config.msm_chunk_log2 == if numeral_value(digits)
            < usize::BITS {
            numeral_value(digits) as int
        } else if numeral_value(digits) <= 0xffff_ffff {
            usize::BITS - 1
        } else {
            18
        },
        vars.msm_chunk_log2 == Some(text) ==> if usize::BITS <= numeral_value(digits)
            <= 0xffff_ffff {
            warned == Some(numeral_value(digits) as u32)
        } else {
            warned is None
        },
{
    lemma_digits_name_their_number(text@, digits);
}

/// What is unset falls back to the default, and so does what holds anything but
/// digits after an optional plus sign.
pub proof fn law_what_is_no_number_falls_back(
    vars: PolicyVars,
    text: String,
    at: int,
    config: ProverConfig,
    warned: Option<u32>,
)
    requires
        0 <= at < text@.len(),
        text@[at] < '0' || text@[at] > '9',
        at == 0 ==> text@[at] != '+',
        call_ensures(ProverConfig::from_env, (&vars,), config),
        call_ensures(ProverConfig::out_of_range_chunk_log2, (&vars,), warned),
    ensures
        vars.spill_floor_k is None || vars.spill_floor_k == Some(text)
            ==> config.coset_spill_floor_k == 18,
        vars.msm_chunk_log2 is None || vars.msm_chunk_log2 == Some(text) ==> config.msm_chunk_log2
            == 18 && warned is None,
{
    lemma_other_texts_name_no_number(text@, at);
}

/// Each variable decides its own setting: where two environments agree on one, so
/// do the policies.
pub proof fn law_variables_are_independent(
    one: PolicyVars,
    other: PolicyVars,
    one_config: ProverConfig,
    other_config: ProverConfig,
)
    requires
        call_ensures(ProverConfig::from_env, (&one,), one_config),
        call_ensures(ProverConfig::from_env, (&other,), other_config),
    ensures
        one.spill_pk == other.spill_pk ==> one_config.map_prover_key == other_config.map_prover_key,
        one.spill_cosets == other.spill_cosets ==> one_config.spill_cosets
            == other_config.spill_cosets,
        one.spill_floor_k == other.spill_floor_k ==> one_config.coset_spill_floor_k
            == other_config.coset_spill_floor_k,
        one.spill_dir == other.spill_dir ==> one_config.spill_dir == other_config.spill_dir,
        one.msm_chunk_log2 == other.msm_chunk_log2 ==> one_config.msm_chunk_log2
            == other_config.msm_chunk_log2,
{
}

/// The first policy of a process is the one that the environment asks for, and what
/// is stored wins over it.
pub proof fn law_the_environment_is_asked_once(
    vars: PolicyVars,
    stored: ProverConfig,
    asked: ProverConfig,
)
    requires
        call_ensures(ProverConfig::from_env, (&vars,), asked),
    ensures
        process_policy(None, vars) == asked,
        process_policy(Some(stored), vars) == stored,
{
}

/// A chunk is the power of two that its log2 says, as long as that can be shifted
/// by; every larger log2 gives the largest power of two. So one more doubles the
/// chunk until then.
pub proof fn law_chunks_are_powers_of_two(
    policy: ProverConfig,
    next: ProverConfig,
    chunk: usize,
    next_chunk: usize,
)
    requires
        call_ensures(ProverConfig::msm_chunk, (&policy,), chunk),
        call_ensures(ProverConfig::msm_chunk, (&next,), next_chunk),
    ensures
        policy.msm_chunk_log2 == 0 ==> chunk == 1,
        policy.msm_chunk_log2 < usize::BITS ==> chunk == pow2(policy.msm_chunk_log2 as nat),
        policy.msm_chunk_log2 >= usize::BITS ==> chunk == pow2((usize::BITS - 1) as nat),
        next.msm_chunk_log2 == policy.msm_chunk_log2 + 1 && next.msm_chunk_log2 < usize::BITS
            ==> next_chunk == 2 * chunk,
        next.msm_chunk_log2 >= policy.msm_chunk_log2 >= usize::BITS ==> next_chunk == chunk,
{
    vstd::arithmetic::power2::lemma2_to64();
    if next.msm_chunk_log2 == policy.msm_chunk_log2 + 1 && next.msm_chunk_log2 < usize::BITS {
        vstd::arithmetic::power2::lemma_pow2_unfold(next.msm_chunk_log2 as nat);
    }
}

/// A context has the policy that it is made with, and a token only if it is given one.
/// Giving it a token changes nothing else, and a clone is the same context.
pub proof fn law_a_context_is_what_it_is_made_of(
    config: ProverConfig,
    token: CancelToken,
    context: ProverContext,
    guarded: ProverContext,
    copy: ProverContext,
)
    requires
        call_ensures(ProverContext::new, (config,), context),
        call_ensures(ProverContext::with_cancel, (context, token), guarded),
        call_ensures(ProverContext::clone, (&guarded,), copy),
    ensures
        context.config == config,
        context.cancel is None,
        guarded.config == config,
        guarded.cancel == Some(token),
        copy == guarded,
{
}

/// A clone of a token names the same flag: whoever holds either is told the same.
pub proof fn law_clones_of_a_token_are_the_same(
    token: CancelToken,
    copy: CancelToken,
    flags: CancelFlags,
    one: bool,
    other: bool,
)
    requires
        call_ensures(CancelToken::clone, (&token,), copy),
        call_ensures(CancelToken::is_cancelled, (&token, &flags), one),
        call_ensures(CancelToken::is_cancelled, (&copy, &flags), other),
    ensures
        copy == token,
        one == other,
{
}

} // verus!
