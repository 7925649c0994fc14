use vstd::prelude::*;
use vstd::string::*;
use crate::error::KhoraError;
use crate::text::{hex, hex4, lemma_hex4_injective, lemma_hex_injective, lemma_hex_len, push_hex, push_hex4};
use core::time::Duration;
use std::collections::hash_map::RandomState;
use std::hash::BuildHasher;

verus! {

/// What is kept on disk about a launched Chrome so that later invocations can
/// reconnect to it.
#[derive(Debug)]
pub struct SessionInfo {
    /// Unique session identifier.
    pub id: String,
    /// WebSocket debug URL for reconnecting via CDP.
    pub ws_url: String,
    /// PID of the Chrome process (0 when it could not be determined).
    pub pid: u32,
    /// Whether Chrome was launched in headless mode.
    pub headless: bool,
    /// Unix time, in seconds, when the session was created.
    pub created_at: u64,
    /// Chrome's private user data directory, when it is known.
    pub data_dir: Option<String>,
}

impl SessionInfo {
    /// A copy of this session record.
    pub fn duplicate(&self) -> (r: SessionInfo)
        ensures
            r == *self,
    {
        SessionInfo {
            id: self.id.clone(),
            ws_url: self.ws_url.clone(),
            pid: self.pid,
            headless: self.headless,
            created_at: self.created_at,
            data_dir: match &self.data_dir {
                Some(d) => Some(d.clone()),
                None => None,
            },
        }
    }
}

/// The session identifier made at time `millis` (milliseconds since the Unix
/// epoch) with the random suffix `suffix`: the low 32 bits of the time in
/// lower-case hexadecimal, then the suffix as four hexadecimal digits.
pub open spec fn session_id_text(millis: nat, suffix: u16) -> Seq<char> {
    hex(millis % 0x1_0000_0000) + hex4(suffix)
}

/// Whether `s` is a session identifier for some instant and suffix.
pub open spec fn is_session_id(s: Seq<char>) -> bool {
    exists|n: nat, k: u16| n < 0x1_0000_0000 && s == hex(n) + hex4(k)
}

/// `std::time::SystemTime`, an instant of the system clock, held opaque.
#[verifier::external_type_specification]
#[verifier::external_body]
pub struct ExSystemTime(std::time::SystemTime);

/// The current time of the system clock (`SystemTime::now`). It depends on
/// the clock, so nothing is stated about it.
#[verifier::external_body]
fn clock_now() -> std::time::SystemTime {
    std::time::SystemTime::now()
}

/// How long after the Unix epoch `t` is (`SystemTime::duration_since`
/// `UNIX_EPOCH`); a time before the epoch, an error there, reads as zero.
/// Nothing is stated about the duration, which is opaque here.
#[verifier::external_body]
fn since_unix_epoch(t: &std::time::SystemTime) -> Duration {
    t.duration_since(std::time::UNIX_EPOCH).unwrap_or_default()
}

/// The whole milliseconds in `d` (`Duration::as_millis`). The duration is
/// opaque here, so nothing is stated about the count.
#[verifier::external_body]
fn whole_millis(d: &Duration) -> u128 {
    d.as_millis()
}

/// A hasher builder with freshly drawn random keys (`RandomState::new`).
#[verifier::external_body]
fn random_keys() -> RandomState {
    RandomState::new()
}

/// The hash of a zero byte under `state`'s keys (`BuildHasher::hash_one`).
/// The keys are random, so nothing is stated about it.
#[verifier::external_body]
fn random_bits(state: &RandomState) -> u64 {
    state.hash_one(0u8)
}

impl SessionInfo {
    /// The session identifier for the instant `millis` (milliseconds since
    /// the Unix epoch) and the random suffix `suffix`.
    pub fn id_for_time(millis: u128, suffix: u16) -> (r: String)
        ensures
            r@ == session_id_text(millis as nat, suffix),
    {
        let low: u128 = millis & 0xFFFF_FFFFu128;
        assert(millis & 0xFFFF_FFFFu128 == millis % 0x1_0000_0000u128) by (bit_vector);
        let mut r = String::new();
        push_hex(&mut r, low as u64);
        push_hex4(&mut r, suffix);
        r
    }

    /// A short unique session identifier: the current time with a random
    /// suffix.
    pub fn generate_id() -> (r: String)
        ensures
            is_session_id(r@),
            r@.len() >= 5,
    {
        let now = clock_now();
        let ms = whole_millis(&since_unix_epoch(&now));
        let bits = random_bits(&random_keys());
        let suffix: u16 = (bits & 0xFFFFu64) as u16;
        let r = SessionInfo::id_for_time(ms, suffix);
        proof {
            lemma_hex_len((ms as nat) % 0x1_0000_0000);
            assert(r@ == hex((ms as nat) % 0x1_0000_0000) + hex4(suffix));
        }
        r
    }
}

/// Identifiers made at instants whose low 32 bits differ, or with different
/// suffixes, are different.
pub proof fn lemma_session_ids_distinct(a: nat, x: u16, b: nat, y: u16)
    requires
        a % 0x1_0000_0000 != b % 0x1_0000_0000 || x != y,
    ensures
        session_id_text(a, x) != session_id_text(b, y),
{
    let ha = hex(a % 0x1_0000_0000);
    let hb = hex(b % 0x1_0000_0000);
    if session_id_text(a, x) == session_id_text(b, y) {
        let s = session_id_text(a, x);
        assert(s.len() == ha.len() + 4);
        assert(s.len() == hb.len() + 4);
        assert(s.subrange(0, ha.len() as int) =~= ha);
        assert(s.subrange(0, hb.len() as int) =~= hb);
        assert(s.subrange(ha.len() as int, s.len() as int) =~= hex4(x));
        assert(session_id_text(b, y).subrange(hb.len() as int, s.len() as int) =~= hex4(y));
        lemma_hex_injective(a % 0x1_0000_0000, b % 0x1_0000_0000);
        lemma_hex4_injective(x, y);
    }
}

/// The file name a session is saved under: its identifier plus `.json`.
pub fn session_file_name(id: &str) -> (r: String)
    ensures
        r@ == id@ + ".json"@,
{
    let mut r = String::from_str(id);
    r.append(".json");
    r
}

/// A session is stale when its Chrome PID is known and that process is gone.
pub open spec fn is_stale(pid: u32, alive: bool) -> bool {
    pid > 0 && !alive
}

/// Whether a session whose process liveness is `alive` is stale.
pub fn session_is_stale(info: &SessionInfo, alive: bool) -> (r: bool)
    ensures
        r == is_stale(info.pid, alive),
{
    info.pid > 0 && !alive
}

/// Checks a session loaded for `session_id` against the liveness of its
/// Chrome process. A load failure is passed on; a session whose known PID is
/// no longer running gives `SessionDead(session_id)`, and its session file is
/// then stale; any other session is returned.
pub fn load_and_verify(
    session_id: &str,
    loaded: Result<SessionInfo, KhoraError>,
    alive: bool,
) -> (r: Result<SessionInfo, KhoraError>)
    ensures
        match loaded {
            Err(e) => r == Err::<SessionInfo, KhoraError>(e),
            Ok(s) => if is_stale(s.pid, alive) {
                r matches Err(KhoraError::SessionDead(id)) && id@ == session_id@
            } else {
                r == Ok::<SessionInfo, KhoraError>(s)
            },
        },
{
    match loaded {
        Err(e) => Err(e),
        Ok(s) => {
            if s.pid > 0 && !alive {
                Err(KhoraError::SessionDead(String::from_str(session_id)))
            } else {
                Ok(s)
            }
        },
    }
}

/// The sessions among the first `n` whose process is gone, in order.
pub open spec fn stale_upto(ss: Seq<SessionInfo>, alive: Seq<bool>, n: int) -> Seq<SessionInfo>
    decreases n,
{
    if n <= 0 {
        Seq::empty()
    } else {
        let r = stale_upto(ss, alive, n - 1);
        if is_stale(ss[n - 1].pid, alive[n - 1]) {
            r.push(ss[n - 1])
        } else {
            r
        }
    }
}

/// The sessions that the automatic clean-up removes: those whose Chrome PID is
/// known and no longer running (`alive[i]` is the liveness of `sessions[i]`).
/// The caller deletes their data directories and session files.
pub fn reap_stale_sessions(sessions: &Vec<SessionInfo>, alive: &Vec<bool>) -> (r: Vec<SessionInfo>)
    requires
        alive@.len() == sessions@.len(),
    ensures
        r@ == stale_upto(sessions@, alive@, sessions@.len() as int),
{
    let mut r: Vec<SessionInfo> = Vec::new();
    let mut i: usize = 0;
    while i < sessions.len()
        invariant
            i <= sessions@.len(),
            alive@.len() == sessions@.len(),
            r@ == stale_upto(sessions@, alive@, i as int),
        decreases sessions.len() - i,
    {
        if session_is_stale(&sessions[i], alive[i]) {
            r.push(sessions[i].duplicate());
        }
        i = i + 1;
    }
    r
}

/// When every process is alive (or of unknown PID) the clean-up keeps every
/// session.
pub proof fn lemma_auto_reap_keeps_live(ss: Seq<SessionInfo>, alive: Seq<bool>, n: int)
    requires
        0 <= n <= ss.len(),
        n <= alive.len(),
        forall|i: int| 0 <= i < n ==> !is_stale(ss[i].pid, #[trigger] alive[i]),
    ensures
        stale_upto(ss, alive, n) == Seq::<SessionInfo>::empty(),
    decreases n,
{
    if n > 0 {
        lemma_auto_reap_keeps_live(ss, alive, n - 1);
    }
}

/// When every process is gone the clean-up removes every session.
pub proof fn lemma_auto_reap_removes_dead(ss: Seq<SessionInfo>, alive: Seq<bool>, n: int)
    requires
        0 <= n <= ss.len(),
        n <= alive.len(),
        forall|i: int| 0 <= i < n ==> is_stale(ss[i].pid, #[trigger] alive[i]),
    ensures
        stale_upto(ss, alive, n) == ss.take(n),
    decreases n,
{
    if n > 0 {
        lemma_auto_reap_removes_dead(ss, alive, n - 1);
        assert(ss.take(n) =~= ss.take(n - 1).push(ss[n - 1]));
    } else {
        assert(ss.take(n) =~= Seq::<SessionInfo>::empty());
    }
}

/// What the `reap` command does with one session.
#[derive(Clone, Copy, Debug, PartialEq, Eq, Structural)]
pub enum ReapAction {
    /// Leave the session alone.
    Keep,
    /// The browser is alive: close it, then remove the session.
    Close,
    /// The browser is gone: remove its data directory and the session.
    Discard,
}

/// The `reap` decision: a session is reaped when its process is gone, when
/// `--all` is given, or when it was created at or before the age threshold;
/// reaped live sessions are closed, dead ones discarded.
pub open spec fn reap_action_spec(pid: u32, alive: bool, created_at: u64, all: bool, threshold: Option<u64>) -> ReapAction {
    let dead = is_stale(pid, alive);
    let old = match threshold {
        Some(t) => created_at <= t,
        None => false,
    };
    if !(dead || all || old) {
        ReapAction::Keep
    } else if !dead {
        ReapAction::Close
    } else {
        ReapAction::Discard
    }
}

/// The `reap` decision for one session (see `reap_action_spec`).
pub fn reap_action(info: &SessionInfo, alive: bool, all: bool, threshold: Option<u64>) -> (r: ReapAction)
    ensures
        r == reap_action_spec(info.pid, alive, info.created_at, all, threshold),
{
    let dead = session_is_stale(info, alive);
    let old = match threshold {
        Some(t) => info.created_at <= t,
        None => false,
    };
    if !(dead || all || old) {
        ReapAction::Keep
    } else if !dead {
        ReapAction::Close
    } else {
        ReapAction::Discard
    }
}

/// The creation-time cut-off for `--older-than`: sessions created at or
/// before `now - age` seconds are old (the subtraction stops at 0).
pub fn age_threshold(now: u64, older_than: Option<u64>) -> (r: Option<u64>)
    ensures
        match older_than {
            Some(age) => r == Some(if now >= age {
                (now - age) as u64
            } else {
                0u64
            }),
            None => r is None,
        },
{
    match older_than {
        Some(age) => Some(now.saturating_sub(age)),
        None => None,
    }
}

/// `reap --older-than 0s` reaps every session created up to now.
pub proof fn lemma_reap_zero_age_takes_all(pid: u32, alive: bool, created_at: u64, all: bool, now: u64)
    requires
        created_at <= now,
    ensures
        reap_action_spec(pid, alive, created_at, all, Some(now)) != ReapAction::Keep,
{
}

/// `reap --all` reaps every session, and a session whose process is gone is
/// always discarded.
pub proof fn lemma_reap_all_and_dead(pid: u32, alive: bool, created_at: u64, all: bool, threshold: Option<u64>)
    ensures
        all ==> reap_action_spec(pid, alive, created_at, all, threshold) != ReapAction::Keep,
        is_stale(pid, alive) ==> reap_action_spec(pid, alive, created_at, all, threshold)
            == ReapAction::Discard,
        !is_stale(pid, alive) ==> reap_action_spec(pid, alive, created_at, all, threshold)
            != ReapAction::Discard,
{
}

} // verus!
