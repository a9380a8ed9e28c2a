//! Credential pool: a fixed, ordered list of backend credentials handed out
//! round robin.
//!
//! Each acquisition selects the credential at the cursor's position modulo
//! the pool size and advances the cursor, so load spreads over all
//! credentials; the cursor's absolute value carries no meaning beyond
//! producing the rotation, and it wraps harmlessly at the machine limit.

use vstd::prelude::*;
use vstd::arithmetic::div_mod::{
    lemma_add_mod_noop, lemma_mod_add_multiples_vanish, lemma_mod_bound, lemma_small_mod,
};

verus! {

/// The teloxide `Bot` handle is the configured client the pool hands out; it
/// is opaque here and only carried through to the callers that perform
/// backend requests.
#[verifier::external_type_specification]
#[verifier::external_body]
pub struct ExBot(teloxide::Bot);

/// How the rotation cursor advances on each acquisition: one step, wrapping
/// to zero at the machine limit.
pub open spec fn wrap_next(c: nat) -> nat {
    if c == usize::MAX as nat {
        0
    } else {
        c + 1
    }
}

/// The index selected by the `i`-th acquisition of a pool of `n` credentials
/// whose cursor started at `c0`.
pub open spec fn rotation_index(c0: int, i: int, n: int) -> int {
    (c0 + i) % n
}

/// A pool of interchangeable backend credentials selected by round robin.
pub struct RoundRobinBot {
    bot_tokens: Vec<String>,
    current_index: usize,
}

impl RoundRobinBot {
    /// The ordered credentials the pool was constructed with.
    pub closed spec fn tokens(self) -> Seq<String> {
        self.bot_tokens@
    }

    /// How many credentials the pool holds.
    pub open spec fn pool_size(self) -> nat {
        self.tokens().len()
    }

    /// The rotation cursor: counts acquisitions, read modulo the pool size.
    pub closed spec fn cursor(self) -> nat {
        self.current_index as nat
    }

    /// A pool is usable only when it holds at least one credential; an empty
    /// credential list is a fatal configuration error caught before
    /// construction.
    pub open spec fn wf(self) -> bool {
        self.pool_size() >= 1
    }

    /// Builds the pool over the given credentials with the cursor at zero.
    pub fn new(bot_tokens: Vec<String>) -> (r: Self)
        requires
            bot_tokens@.len() >= 1,
        ensures
            r.wf(),
            r.tokens() == bot_tokens@,
            r.cursor() == 0,
    {
        RoundRobinBot { bot_tokens, current_index: 0 }
    }

    /// Selects the next credential slot: the cursor's position modulo the
    /// pool size, advancing the cursor by one (wrapping at the machine
    /// limit). This is the whole effect of an acquisition on the pool.
    pub fn acquire_index(&mut self) -> (i: usize)
        requires
            old(self).wf(),
        ensures
            final(self).wf(),
            final(self).tokens() == old(self).tokens(),
            i == old(self).cursor() % old(self).pool_size(),
            i < old(self).pool_size(),
            final(self).cursor() == wrap_next(old(self).cursor()),
    {
        let i = self.current_index % self.bot_tokens.len();
        self.current_index = if self.current_index == usize::MAX {
            0
        } else {
            self.current_index + 1
        };
        i
    }

    /// Acquires the next credential in rotation and configures a fresh
    /// backend client around it, aimed at the given endpoint. No network
    /// I/O happens here; the only effect on the pool is the cursor advance.
    /// `None` comes only from the client construction itself: an HTTP client
    /// that cannot be built or an endpoint that is not a valid URL.
    pub fn get_bot(&mut self, api_url: &String) -> (r: Option<teloxide::Bot>)
        requires
            old(self).wf(),
        ensures
            final(self).wf(),
            final(self).tokens() == old(self).tokens(),
            final(self).cursor() == wrap_next(old(self).cursor()),
    {
        let i = self.acquire_index();
        build_bot(&self.bot_tokens[i], api_url)
    }
}

/// Relies on reqwest's `ClientBuilder` and teloxide's `Bot::with_client` and
/// `Bot::set_api_url`: constructs a client for one credential with a 5 s
/// connect timeout, a 300 s overall timeout and TCP_NODELAY, bound to the
/// given base endpoint. `None` when the HTTP client cannot be built or the
/// endpoint does not parse as a URL; no network request is made.
#[verifier::external_body]
fn build_bot(token: &String, api_url: &String) -> (r: Option<teloxide::Bot>) {
    let client = reqwest::Client::builder()
        .connect_timeout(core::time::Duration::from_secs(5))
        .timeout(core::time::Duration::from_secs(5 * 60))
        .tcp_nodelay(true)
        .build();
    let client = match client {
        Ok(c) => c,
        Err(_) => return None,
    };
    let url = match reqwest::Url::parse(api_url.as_str()) {
        Ok(u) => u,
        Err(_) => return None,
    };
    Some(teloxide::Bot::with_client(token.clone(), client).set_api_url(url))
}

/// Law: acquisitions cycle through every credential before repeating. Any
/// two acquisitions less than a full round apart select distinct indices.
pub proof fn lemma_round_robin_distinct(c0: int, n: int, i: int, j: int)
    requires
        n >= 1,
        0 <= c0,
        0 <= i < j < i + n,
    ensures
        rotation_index(c0, i, n) != rotation_index(c0, j, n),
{
    let d = j - i;
    let r = (c0 + i) % n;
    lemma_mod_bound(c0 + i, n);
    lemma_add_mod_noop(c0 + i, d, n);
    lemma_small_mod(d as nat, n as nat);
    assert((c0 + j) % n == (r + d) % n);
    if r + d < n {
        lemma_small_mod((r + d) as nat, n as nat);
    } else {
        lemma_mod_add_multiples_vanish(r + d - n, n);
        lemma_small_mod((r + d - n) as nat, n as nat);
    }
}

/// Law: the rotation is periodic with period exactly the pool size: one full
/// round later the same credential is selected again.
pub proof fn lemma_round_robin_period(c0: int, n: int, i: int)
    requires
        n >= 1,
        0 <= c0,
        0 <= i,
    ensures
        rotation_index(c0, i + n, n) == rotation_index(c0, i, n),
{
    lemma_mod_add_multiples_vanish(c0 + i, n);
}

/// Law: a run of acquisitions selects indices deterministically. When the
/// cursors `cursors[0..=k]` evolve by single acquisitions without reaching
/// the wrap point, and `selected[j]` is what the `j`-th acquisition chose,
/// then `selected[i]` is `(cursors[0] + i) % n`: the rotation walks the pool
/// in order from wherever the cursor started.
pub proof fn lemma_round_robin_sequence(cursors: Seq<int>, selected: Seq<int>, n: int, i: int)
    requires
        n >= 1,
        cursors.len() == selected.len() + 1,
        cursors[0] >= 0,
        forall|j: int|
            0 <= j < selected.len() ==> (#[trigger] selected[j]) == cursors[j] % n && cursors[j + 1]
                == cursors[j] + 1,
        0 <= i < selected.len(),
    ensures
        cursors[i] == cursors[0] + i,
        selected[i] == rotation_index(cursors[0], i, n),
    decreases i,
{
    if i > 0 {
        lemma_round_robin_sequence(cursors, selected, n, i - 1);
    }
}

/// Law: every selected index is a real slot of the pool.
pub proof fn lemma_round_robin_in_range(c0: int, n: int, i: int)
    requires
        n >= 1,
        0 <= c0,
        0 <= i,
    ensures
        0 <= rotation_index(c0, i, n) < n,
{
    lemma_mod_bound(c0 + i, n);
}

} // verus!
