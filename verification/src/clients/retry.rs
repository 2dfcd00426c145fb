//! The retriable call protocol.
//!
//! A call is tried against one candidate address after another. Attempts
//! are numbered from 1. The first attempt takes the first address of the
//! list, the second the second, and after the last address the walk begins
//! again with the first. A write is sent to the leader that the candidate is
//! known to have reported; a read goes to the candidate itself. When a node
//! answers that the request is to be forwarded, the leader it names is
//! remembered for the candidate and is called once, directly. Every other
//! failure costs one attempt and a pause that grows with the number of
//! attempts made.
//!
//! A candidate is called whenever its turn comes, also when it has failed
//! before: the addresses tried so far only decide whether a leader that a
//! node names is worth a direct call. A leader that has been tried ends the
//! call with the failure at hand.
//!
//! A node says that a request is to be forwarded either by an error of that
//! shape, which holds the leader's address, or by the text of another
//! error, in which the address stands behind a label.
//!
//! The decisions are functions of the protocol state ([`RetryState`]) and of
//! what the last call returned. [`retry_call`] runs them against a request
//! that can connect, call and pause.

use vstd::prelude::*;
use regex::Regex;
use crate::base::error::CommonError;
use crate::base::text::{
    bare_address, contains_seq, opt_text, str_contains, str_eq, strip_address, texts,
};
use crate::clients::pool::ClientPool;

verus! {

/// The words by which a node says that a request belongs to the leader.
pub const FORWARD_MARKER: &'static str = "forward request to";

/// Where a forwarding notice holds the leader's address: after the label, up
/// to the closing brace.
pub const RPC_ADDR_PATTERN: &'static str = "rpc_addr: ([^}]+)";

/// The text of the error for an empty address list.
pub const EMPTY_ADDRESS_LIST: &'static str = "Call address list cannot be empty";

/// The text of the error for a call that ran out of attempts.
pub const NOT_FOUND_LEADER: &'static str = "Not found leader";

/// What the first capture group of the first match of `pattern` in `text`
/// holds; `None` where the pattern does not compile, does not match, or the
/// group took no part in the match.
pub uninterp spec fn first_capture(pattern: Seq<char>, text: Seq<char>) -> Option<Seq<char>>;

/// `Regex::new`, `Regex::captures`, `Captures::get(1)` and `Match::as_str`
/// in a row: the text that the first capture group of the leftmost match
/// holds. The result depends on the pattern and the text alone.
#[verifier::external_body]
fn regex_first_capture(pattern: &str, text: &str) -> (r: Option<String>)
    ensures
        opt_text(r) == first_capture(pattern@, text@),
{
    let re = Regex::new(pattern).ok()?;
    re.captures(text)?.get(1).map(|m| m.as_str().to_string())
}

/// The leader's address in a forwarding notice: what follows the address
/// label, without backslashes, double quotes and blanks.
pub open spec fn forward_addr_of(text: Seq<char>) -> Option<Seq<char>> {
    match first_capture(RPC_ADDR_PATTERN@, text) {
        Some(captured) => Some(bare_address(captured)),
        None => None,
    }
}

/// What a failure says about forwarding.
pub struct Notice {
    /// Whether the failure says that the request is to be forwarded.
    pub marked: bool,
    /// The leader's address, where the failure names it.
    pub leader: Option<Seq<char>>,
}

/// The leader's address that a failure names: the address that a
/// forwarding error holds, or the one in the text of another error.
pub open spec fn forward_addr(err: CommonError) -> Option<Seq<char>> {
    match err {
        CommonError::ForwardToLeader(leader) => Some(leader@),
        _ => forward_addr_of(err.message()),
    }
}

/// What a failure says about forwarding: it is a forwarding error, or its
/// text holds the words of a forwarding notice.
pub open spec fn notice_of(err: CommonError) -> Notice {
    Notice {
        marked: err is ForwardToLeader || contains_seq(err.message(), FORWARD_MARKER@),
        leader: forward_addr(err),
    }
}

/// Extracts the leader's address from `err`.
pub fn get_forward_addr(err: &CommonError) -> (r: Option<String>)
    ensures
        opt_text(r) == forward_addr(*err),
{
    match err {
        CommonError::ForwardToLeader(leader) => Some(leader.clone()),
        _ => {
            let error_info: String = err.to_string();
            match regex_first_capture(RPC_ADDR_PATTERN, error_info.as_str()) {
                Some(captured) => Some(strip_address(captured.as_str())),
                None => None,
            }
        },
    }
}

/// Whether `err` says that the request is to be forwarded.
pub fn is_forward_notice(err: &CommonError) -> (r: bool)
    ensures
        r == notice_of(*err).marked,
{
    match err {
        CommonError::ForwardToLeader(_) => true,
        _ => {
            let text: String = err.to_string();
            str_contains(text.as_str(), FORWARD_MARKER)
        },
    }
}

/// How often a call is retried and how long it pauses in between.
#[derive(Debug, Clone, Copy, PartialEq, Eq, Structural)]
pub struct RetryPolicy {
    /// Failed attempts after which the call still goes on; one more ends it.
    pub max_attempts: u32,
    /// Seconds of pause per attempt made so far.
    pub backoff_step_secs: u32,
}

/// The attempt ceiling of the default policy.
pub fn retry_times() -> (n: u32)
    ensures
        n == 16,
{
    16
}

/// The pause of the default policy before attempt number `times`.
pub fn retry_sleep_time(times: u32) -> (secs: u64)
    ensures
        secs == times * 2,
{
    (times as u64) * 2
}

impl Default for RetryPolicy {
    fn default() -> (p: Self)
        ensures
            p.max_attempts == 16,
            p.backoff_step_secs == 2,
    {
        RetryPolicy { max_attempts: retry_times(), backoff_step_secs: 2 }
    }
}

impl RetryPolicy {
    /// Seconds to pause before attempt number `times`.
    pub open spec fn pause_before(self, times: nat) -> nat {
        times * self.backoff_step_secs as nat
    }
}

/// The protocol state as contracts see it.
pub struct RetryView {
    /// The number of the current attempt; the first is 1.
    pub times: nat,
    /// The address picked from the list for this attempt.
    pub candidate: Seq<char>,
    /// The address that the next call goes to.
    pub target: Seq<char>,
    /// Whether the next call is the direct call to a leader just reported.
    pub follow_up: bool,
    /// The addresses that have answered with a forwarding notice, or failed
    /// as leader, in the order in which they did.
    pub tried: Seq<Seq<char>>,
}

/// What the protocol decides after a failure.
pub enum Verdict {
    /// Call the target now.
    Call,
    /// Pause for so many seconds, then call the target.
    Sleep(nat),
    /// Give the failure back to the caller as it is.
    Surface,
    /// Give up: the attempts are used up.
    NotFoundLeader,
    /// Give up: there is no address to call.
    EmptyList,
}

/// The address for attempt `times`: the first attempt takes the first
/// address of the list, and the list is walked round and round.
pub open spec fn candidate_at(addrs: Seq<Seq<char>>, times: nat) -> Seq<char>
    recommends
        addrs.len() > 0,
        times >= 1,
{
    addrs[((times - 1) % addrs.len() as int) as int]
}

/// Where a request for `candidate` is sent: a write goes to the leader that
/// the candidate reported, if any; everything else to the candidate.
pub open spec fn resolved_target(
    cache: Map<Seq<char>, Seq<char>>,
    candidate: Seq<char>,
    is_write: bool,
) -> Seq<char> {
    if is_write && cache.contains_key(candidate) {
        cache[candidate]
    } else {
        candidate
    }
}

/// The state in which attempt `times` begins.
pub open spec fn attempt(
    addrs: Seq<Seq<char>>,
    cache: Map<Seq<char>, Seq<char>>,
    is_write: bool,
    times: nat,
    tried: Seq<Seq<char>>,
) -> RetryView {
    RetryView {
        times,
        candidate: candidate_at(addrs, times),
        target: resolved_target(cache, candidate_at(addrs, times), is_write),
        follow_up: false,
        tried,
    }
}

/// The state with `addr` added to the tried addresses.
pub open spec fn with_tried(v: RetryView, addr: Seq<char>) -> RetryView {
    RetryView {
        times: v.times,
        candidate: v.candidate,
        target: v.target,
        follow_up: v.follow_up,
        tried: v.tried.push(addr),
    }
}

/// The state before the direct call to `leader`.
pub open spec fn with_follow_up(v: RetryView, leader: Seq<char>) -> RetryView {
    RetryView {
        times: v.times,
        candidate: v.candidate,
        target: leader,
        follow_up: true,
        tried: v.tried,
    }
}

/// An attempt is over: either the ceiling is passed, or the next attempt
/// begins after a pause.
pub open spec fn after_attempt(
    v: RetryView,
    addrs: Seq<Seq<char>>,
    cache: Map<Seq<char>, Seq<char>>,
    is_write: bool,
    policy: RetryPolicy,
) -> (RetryView, Verdict) {
    if v.times > policy.max_attempts {
        (v, Verdict::NotFoundLeader)
    } else {
        (
            attempt(addrs, cache, is_write, v.times + 1, v.tried),
            Verdict::Sleep(policy.pause_before(v.times + 1)),
        )
    }
}

/// No client could be had for the target. For a candidate the failure goes
/// back to the caller; for a reported leader the attempt is over.
pub open spec fn after_connect_failure(
    v: RetryView,
    addrs: Seq<Seq<char>>,
    cache: Map<Seq<char>, Seq<char>>,
    is_write: bool,
    policy: RetryPolicy,
) -> (RetryView, Verdict) {
    if addrs.len() == 0 {
        (v, Verdict::EmptyList)
    } else if v.follow_up {
        after_attempt(with_tried(v, v.target), addrs, cache, is_write, policy)
    } else {
        (v, Verdict::Surface)
    }
}

/// The call to the target failed with an error that says `notice` about
/// forwarding. The new state, the new leader hints, and what to do next.
pub open spec fn after_call_failure(
    v: RetryView,
    addrs: Seq<Seq<char>>,
    cache: Map<Seq<char>, Seq<char>>,
    is_write: bool,
    policy: RetryPolicy,
    notice: Notice,
) -> (RetryView, Map<Seq<char>, Seq<char>>, Verdict) {
    if addrs.len() == 0 {
        (v, cache, Verdict::EmptyList)
    } else if v.follow_up {
        let next = after_attempt(with_tried(v, v.target), addrs, cache, is_write, policy);
        (next.0, cache, next.1)
    } else if notice.marked {
        let marked = with_tried(v, v.target);
        match notice.leader {
            Some(leader) => {
                let hinted = cache.insert(v.candidate, leader);
                if marked.tried.contains(leader) {
                    (marked, hinted, Verdict::Surface)
                } else {
                    (with_follow_up(marked, leader), hinted, Verdict::Call)
                }
            },
            None => {
                let next = after_attempt(marked, addrs, cache, is_write, policy);
                (next.0, cache, next.1)
            },
        }
    } else {
        let next = after_attempt(v, addrs, cache, is_write, policy);
        (next.0, cache, next.1)
    }
}

/// What the caller of the protocol does next.
#[derive(Debug)]
pub enum RetryStep {
    /// Call the target now.
    Call,
    /// Pause for so many seconds, then call the target.
    Sleep(u64),
    /// The call is over with this error.
    Stop(CommonError),
}

/// Whether `step` carries out `verdict`, where `error` is the failure that
/// was judged.
pub open spec fn carries_out(step: RetryStep, verdict: Verdict, error: CommonError) -> bool {
    match verdict {
        Verdict::Call => step is Call,
        Verdict::Sleep(secs) => step is Sleep && step->Sleep_0 == secs,
        Verdict::Surface => step is Stop && step->Stop_0 == error,
        Verdict::NotFoundLeader => step is Stop && step->Stop_0 is CommonError
            && step->Stop_0.message() == NOT_FOUND_LEADER@,
        Verdict::EmptyList => step is Stop && step->Stop_0 is CommonError
            && step->Stop_0.message() == EMPTY_ADDRESS_LIST@,
    }
}

/// The state of one retriable call.
#[derive(Debug)]
pub struct RetryState {
    times: u64,
    candidate: String,
    target: String,
    follow_up: bool,
    tried: Vec<String>,
}

fn list_holds(list: &Vec<String>, addr: &str) -> (r: bool)
    ensures
        r == texts(list@).contains(addr@),
{
    let mut i: usize = 0;
    while i < list.len()
        invariant
            i <= list.len(),
            forall|k: int| 0 <= k < i ==> texts(list@)[k] != addr@,
        decreases list.len() - i,
    {
        if str_eq(list[i].as_str(), addr) {
            assert(texts(list@)[i as int] == addr@);
            return true;
        }
        i += 1;
    }
    false
}

/// Resolves the address that a request for `candidate` is sent to.
pub fn resolve_target(pool: &ClientPool, candidate: &str, is_write: bool) -> (target: String)
    ensures
        target@ == resolved_target(pool.leader_cache(), candidate@, is_write),
{
    if is_write {
        match pool.get_leader_addr(candidate) {
            Some(leader) => leader,
            None => candidate.to_owned(),
        }
    } else {
        candidate.to_owned()
    }
}

impl RetryState {
    pub closed spec fn view(&self) -> RetryView {
        RetryView {
            times: self.times as nat,
            candidate: self.candidate@,
            target: self.target@,
            follow_up: self.follow_up,
            tried: texts(self.tried@),
        }
    }

    /// Begins a call: the first attempt has number 1. An empty list is an
    /// error, and nothing is to be called.
    pub fn start(pool: &ClientPool, addrs: &Vec<String>, is_write: bool) -> (r: Result<
        RetryState,
        CommonError,
    >)
        ensures
            addrs@.len() == 0 ==> r is Err && r->Err_0 is CommonError && r->Err_0.message()
                == EMPTY_ADDRESS_LIST@,
            addrs@.len() > 0 ==> r is Ok && r->Ok_0@ == attempt(
                texts(addrs@),
                pool.leader_cache(),
                is_write,
                1,
                Seq::empty(),
            ),
    {
        if addrs.len() == 0 {
            return Err(CommonError::CommonError(String::from_str(EMPTY_ADDRESS_LIST)));
        }
        let candidate: String = addrs[0].clone();
        assert(candidate_at(texts(addrs@), 1) == texts(addrs@)[0]) by {
            assert(0int % (addrs@.len() as int) == 0);
        }
        let target: String = resolve_target(pool, candidate.as_str(), is_write);
        let state = RetryState { times: 1, candidate, target, follow_up: false, tried: Vec::new() };
        assert(texts(state.tried@) =~= Seq::<Seq<char>>::empty());
        Ok(state)
    }

    /// The address that the next call goes to.
    pub fn target(&self) -> (t: &String)
        ensures
            t@ == self@.target,
    {
        &self.target
    }

    /// The address picked from the list for this attempt.
    pub fn candidate(&self) -> (c: &String)
        ensures
            c@ == self@.candidate,
    {
        &self.candidate
    }

    /// The number of the current attempt.
    pub fn times(&self) -> (n: u64)
        ensures
            n == self@.times,
    {
        self.times
    }

    /// Whether the next call is the direct call to a reported leader.
    pub fn is_follow_up(&self) -> (b: bool)
        ensures
            b == self@.follow_up,
    {
        self.follow_up
    }

    fn mark_tried(&mut self, addr: String)
        ensures
            final(self)@ == with_tried(old(self)@, addr@),
    {
        self.tried.push(addr);
        assert(texts(self.tried@) =~= texts(old(self).tried@).push(addr@));
    }

    fn finish_attempt(
        &mut self,
        pool: &ClientPool,
        addrs: &Vec<String>,
        is_write: bool,
        policy: &RetryPolicy,
        Ghost(error): Ghost<CommonError>,
    ) -> (step: RetryStep)
        requires
            addrs@.len() > 0,
        ensures
            carries_out(
                step,
                after_attempt(old(self)@, texts(addrs@), pool.leader_cache(), is_write, *policy).1,
                error,
            ),
            final(self)@ == after_attempt(
                old(self)@,
                texts(addrs@),
                pool.leader_cache(),
                is_write,
                *policy,
            ).0,
    {
        if self.times > policy.max_attempts as u64 {
            return RetryStep::Stop(CommonError::CommonError(String::from_str(NOT_FOUND_LEADER)));
        }
        let times: u64 = self.times + 1;
        let index: usize = ((times - 1) % (addrs.len() as u64)) as usize;
        let candidate: String = addrs[index].clone();
        let target: String = resolve_target(pool, candidate.as_str(), is_write);
        assert(times * (policy.backoff_step_secs as u64) <= 0x1_0000_0000 * 0xffff_ffff)
            by (nonlinear_arith)
            requires
                times <= 0x1_0000_0000,
                policy.backoff_step_secs <= 0xffff_ffff,
        ;
        let secs: u64 = times * (policy.backoff_step_secs as u64);
        self.times = times;
        self.candidate = candidate;
        self.target = target;
        self.follow_up = false;
        RetryStep::Sleep(secs)
    }

    /// No client could be had for the target.
    pub fn connect_failed(
        &mut self,
        pool: &ClientPool,
        addrs: &Vec<String>,
        is_write: bool,
        policy: &RetryPolicy,
        error: CommonError,
    ) -> (step: RetryStep)
        ensures
            carries_out(
                step,
                after_connect_failure(
                    old(self)@,
                    texts(addrs@),
                    pool.leader_cache(),
                    is_write,
                    *policy,
                ).1,
                error,
            ),
            final(self)@ == after_connect_failure(
                old(self)@,
                texts(addrs@),
                pool.leader_cache(),
                is_write,
                *policy,
            ).0,
    {
        if addrs.len() == 0 {
            return RetryStep::Stop(CommonError::CommonError(String::from_str(EMPTY_ADDRESS_LIST)));
        }
        if self.follow_up {
            let leader: String = self.target.clone();
            self.mark_tried(leader);
            self.finish_attempt(pool, addrs, is_write, policy, Ghost(error))
        } else {
            RetryStep::Stop(error)
        }
    }

    /// The call to the target failed with `error`.
    pub fn call_failed(
        &mut self,
        pool: &mut ClientPool,
        addrs: &Vec<String>,
        is_write: bool,
        policy: &RetryPolicy,
        error: CommonError,
    ) -> (step: RetryStep)
        ensures
            carries_out(
                step,
                after_call_failure(
                    old(self)@,
                    texts(addrs@),
                    old(pool).leader_cache(),
                    is_write,
                    *policy,
                    notice_of(error),
                ).2,
                error,
            ),
            final(self)@ == after_call_failure(
                old(self)@,
                texts(addrs@),
                old(pool).leader_cache(),
                is_write,
                *policy,
                notice_of(error),
            ).0,
            final(pool).leader_cache() == after_call_failure(
                old(self)@,
                texts(addrs@),
                old(pool).leader_cache(),
                is_write,
                *policy,
                notice_of(error),
            ).1,
            final(pool).max_open() == old(pool).max_open(),
            final(pool).inner_pools() == old(pool).inner_pools(),
            final(pool).openraft_pools() == old(pool).openraft_pools(),
            final(pool).kv_pools() == old(pool).kv_pools(),
    {
        if addrs.len() == 0 {
            return RetryStep::Stop(CommonError::CommonError(String::from_str(EMPTY_ADDRESS_LIST)));
        }
        if self.follow_up {
            let leader: String = self.target.clone();
            self.mark_tried(leader);
            return self.finish_attempt(pool, addrs, is_write, policy, Ghost(error));
        }
        if !is_forward_notice(&error) {
            return self.finish_attempt(pool, addrs, is_write, policy, Ghost(error));
        }
        let target: String = self.target.clone();
        self.mark_tried(target);
        match get_forward_addr(&error) {
            Some(leader) => {
                pool.set_leader_addr(self.candidate.clone(), leader.clone());
                if list_holds(&self.tried, leader.as_str()) {
                    RetryStep::Stop(error)
                } else {
                    self.target = leader;
                    self.follow_up = true;
                    RetryStep::Call
                }
            },
            None => self.finish_attempt(pool, addrs, is_write, policy, Ghost(error)),
        }
    }
}

/// A request that can be sent to one address after another: it tells
/// whether it writes, obtains a client for an address, and calls once. It
/// also waits out the pause between two attempts.
pub trait RetriableRequest {
    /// The client that a call goes through.
    type Client;

    /// What a successful call returns.
    type Response;

    /// Whether the request changes state, so that only the leader serves it.
    fn is_write_request(&self) -> bool;

    /// Obtains a pooled client for `addr`.
    fn get_client(&mut self, pool: &mut ClientPool, addr: &str) -> Result<
        Self::Client,
        CommonError,
    >;

    /// Sends the request through `client`, once.
    fn call_once(&mut self, client: &mut Self::Client) -> Result<Self::Response, CommonError>;

    /// Waits for `secs` seconds.
    fn pause(&mut self, secs: u64);
}

/// Sends `request` to the addresses of `addrs` in turn until one call
/// succeeds, a client cannot be had, a reported leader turns out to have
/// been tried already, or the attempts are used up.
///
/// With an empty list the call fails at once: the request is not asked for
/// anything and the pool is not touched.
pub fn retry_call<Req: RetriableRequest>(
    client_pool: &mut ClientPool,
    addrs: &Vec<String>,
    request: &mut Req,
    policy: &RetryPolicy,
) -> (r: Result<Req::Response, CommonError>)
    ensures
        addrs@.len() == 0 ==> {
            &&& r is Err
            &&& r->Err_0 is CommonError
            &&& r->Err_0.message() == EMPTY_ADDRESS_LIST@
            &&& *final(request) == *old(request)
            &&& final(client_pool).leader_cache() == old(client_pool).leader_cache()
            &&& final(client_pool).inner_pools() == old(client_pool).inner_pools()
            &&& final(client_pool).openraft_pools() == old(client_pool).openraft_pools()
            &&& final(client_pool).kv_pools() == old(client_pool).kv_pools()
        },
{
    if addrs.len() == 0 {
        return Err(CommonError::CommonError(String::from_str(EMPTY_ADDRESS_LIST)));
    }
    let is_write: bool = request.is_write_request();
    let mut state: RetryState = match RetryState::start(client_pool, addrs, is_write) {
        Ok(state) => state,
        Err(e) => {
            return Err(e);
        },
    };
    loop
        invariant
            addrs@.len() > 0,
            state@.times <= policy.max_attempts + 1,
        decreases policy.max_attempts + 1 - state@.times, (if state@.follow_up { 0int } else { 1int }),
    {
        let target: String = state.target().clone();
        let step: RetryStep = match request.get_client(client_pool, target.as_str()) {
            Err(e) => state.connect_failed(client_pool, addrs, is_write, policy, e),
            Ok(client) => {
                let mut client = client;
                match request.call_once(&mut client) {
                    Ok(data) => {
                        return Ok(data);
                    },
                    Err(e) => state.call_failed(client_pool, addrs, is_write, policy, e),
                }
            },
        };
        match step {
            RetryStep::Call => {},
            RetryStep::Sleep(secs) => {
                request.pause(secs);
            },
            RetryStep::Stop(e) => {
                return Err(e);
            },
        }
    }
}

/// A read is always sent to the candidate itself, whatever leader the
/// candidate is known to have reported.
pub proof fn lemma_read_ignores_leader_hints(
    addrs: Seq<Seq<char>>,
    cache: Map<Seq<char>, Seq<char>>,
    times: nat,
    tried: Seq<Seq<char>>,
)
    ensures
        attempt(addrs, cache, false, times, tried).target == candidate_at(addrs, times),
        attempt(addrs, cache, false, times, tried).target == attempt(
            addrs,
            Map::empty(),
            false,
            times,
            tried,
        ).target,
{
}

/// A write is sent to the leader that the candidate reported, and to the
/// candidate where it reported none.
pub proof fn lemma_write_follows_leader_hints(
    addrs: Seq<Seq<char>>,
    cache: Map<Seq<char>, Seq<char>>,
    times: nat,
    tried: Seq<Seq<char>>,
)
    ensures
        cache.contains_key(candidate_at(addrs, times)) ==> attempt(
            addrs,
            cache,
            true,
            times,
            tried,
        ).target == cache[candidate_at(addrs, times)],
        !cache.contains_key(candidate_at(addrs, times)) ==> attempt(
            addrs,
            cache,
            true,
            times,
            tried,
        ).target == candidate_at(addrs, times),
{
}

/// When the node called for a candidate answers with a forwarding notice
/// that names a leader not tried so far, the leader is remembered for the
/// candidate and is called next, within the same attempt and without a
/// pause.
pub proof fn lemma_forward_is_followed(
    v: RetryView,
    addrs: Seq<Seq<char>>,
    cache: Map<Seq<char>, Seq<char>>,
    is_write: bool,
    policy: RetryPolicy,
    notice: Notice,
    leader: Seq<char>,
)
    requires
        addrs.len() > 0,
        !v.follow_up,
        notice.marked,
        notice.leader == Some(leader),
        leader != v.target,
        !v.tried.contains(leader),
    ensures
        after_call_failure(v, addrs, cache, is_write, policy, notice).2 is Call,
        after_call_failure(v, addrs, cache, is_write, policy, notice).0.target == leader,
        after_call_failure(v, addrs, cache, is_write, policy, notice).0.follow_up,
        after_call_failure(v, addrs, cache, is_write, policy, notice).0.times == v.times,
        after_call_failure(v, addrs, cache, is_write, policy, notice).1.contains_key(v.candidate),
        after_call_failure(v, addrs, cache, is_write, policy, notice).1[v.candidate] == leader,
{
    let marked = with_tried(v, v.target);
    assert forall|i: int| 0 <= i < marked.tried.len() implies marked.tried[i] != leader by {
        if i < v.tried.len() {
            assert(v.tried[i] == marked.tried[i]);
            assert(v.tried.contains(v.tried[i]));
        }
    }
}

/// A forwarding notice that names a leader which was tried before ends the
/// call with the failure at hand; the leader is remembered all the same.
pub proof fn lemma_tried_leader_ends_the_call(
    v: RetryView,
    addrs: Seq<Seq<char>>,
    cache: Map<Seq<char>, Seq<char>>,
    is_write: bool,
    policy: RetryPolicy,
    notice: Notice,
    leader: Seq<char>,
)
    requires
        addrs.len() > 0,
        !v.follow_up,
        notice.marked,
        notice.leader == Some(leader),
        leader == v.target || v.tried.contains(leader),
    ensures
        after_call_failure(v, addrs, cache, is_write, policy, notice).2 is Surface,
        after_call_failure(v, addrs, cache, is_write, policy, notice).1[v.candidate] == leader,
{
    let marked = with_tried(v, v.target);
    if leader == v.target {
        assert(marked.tried[v.tried.len() as int] == leader);
    } else {
        let i = choose|i: int| 0 <= i < v.tried.len() && v.tried[i] == leader;
        assert(marked.tried[i] == leader);
    }
}

/// The first call of a write goes to the first address of the list, where
/// that address has reported no leader. Where the node there answers with a
/// forwarding notice that names another address, that address is called
/// next, within the first attempt, and is remembered as the leader of the
/// first address.
pub proof fn lemma_first_address_forwards(
    addrs: Seq<Seq<char>>,
    cache: Map<Seq<char>, Seq<char>>,
    policy: RetryPolicy,
    notice: Notice,
    leader: Seq<char>,
)
    requires
        addrs.len() > 0,
        !cache.contains_key(addrs[0]),
        notice.marked,
        notice.leader == Some(leader),
        leader != addrs[0],
    ensures
        attempt(addrs, cache, true, 1, Seq::empty()).candidate == addrs[0],
        attempt(addrs, cache, true, 1, Seq::empty()).target == addrs[0],
        after_call_failure(
            attempt(addrs, cache, true, 1, Seq::empty()),
            addrs,
            cache,
            true,
            policy,
            notice,
        ) == (
            with_follow_up(
                with_tried(attempt(addrs, cache, true, 1, Seq::empty()), addrs[0]),
                leader,
            ),
            cache.insert(addrs[0], leader),
            Verdict::Call,
        ),
{
    let first = attempt(addrs, cache, true, 1, Seq::empty());
    assert(0int % (addrs.len() as int) == 0);
    assert(first.candidate == addrs[0]);
    lemma_forward_is_followed(first, addrs, cache, true, policy, notice, leader);
}

/// A write to three different addresses, of which none has reported a
/// leader: the first call goes to the first address. Where the node there
/// answers with a forwarding notice that names the third address, the
/// second call goes to the third address, within the first attempt and
/// without a pause, and the third address is remembered as the leader of
/// the first.
pub proof fn lemma_first_of_three_forwards_to_third(
    addrs: Seq<Seq<char>>,
    policy: RetryPolicy,
    notice: Notice,
)
    requires
        addrs.len() == 3,
        addrs[0] != addrs[1],
        addrs[0] != addrs[2],
        addrs[1] != addrs[2],
        notice.marked,
        notice.leader == Some(addrs[2]),
    ensures
        attempt(addrs, Map::empty(), true, 1, Seq::empty()).target == addrs[0],
        after_call_failure(
            attempt(addrs, Map::empty(), true, 1, Seq::empty()),
            addrs,
            Map::empty(),
            true,
            policy,
            notice,
        ).2 is Call,
        after_call_failure(
            attempt(addrs, Map::empty(), true, 1, Seq::empty()),
            addrs,
            Map::empty(),
            true,
            policy,
            notice,
        ).0.target == addrs[2],
        after_call_failure(
            attempt(addrs, Map::empty(), true, 1, Seq::empty()),
            addrs,
            Map::empty(),
            true,
            policy,
            notice,
        ).0.times == 1,
        after_call_failure(
            attempt(addrs, Map::empty(), true, 1, Seq::empty()),
            addrs,
            Map::empty(),
            true,
            policy,
            notice,
        ).1 == Map::<Seq<char>, Seq<char>>::empty().insert(addrs[0], addrs[2]),
{
    lemma_first_address_forwards(addrs, Map::empty(), policy, notice, addrs[2]);
}

/// A failed attempt is followed by another as long as no more than
/// `max_attempts` were made, after a pause that is longer than the one
/// before; the attempt after that many ends the call.
pub proof fn lemma_attempts_are_bounded(
    v: RetryView,
    addrs: Seq<Seq<char>>,
    cache: Map<Seq<char>, Seq<char>>,
    is_write: bool,
    policy: RetryPolicy,
)
    ensures
        v.times > policy.max_attempts ==> after_attempt(v, addrs, cache, is_write, policy).1
            is NotFoundLeader,
        v.times <= policy.max_attempts ==> {
            &&& after_attempt(v, addrs, cache, is_write, policy).1 == Verdict::Sleep(
                policy.pause_before(v.times + 1),
            )
            &&& after_attempt(v, addrs, cache, is_write, policy).0.times == v.times + 1
            &&& policy.pause_before(v.times) <= policy.pause_before(v.times + 1)
            &&& policy.backoff_step_secs > 0 ==> policy.pause_before(v.times) < policy.pause_before(
                v.times + 1,
            )
        },
{
    assert(v.times * policy.backoff_step_secs as nat + policy.backoff_step_secs as nat == (v.times
        + 1) * policy.backoff_step_secs as nat) by (nonlinear_arith);
}

} // verus!
