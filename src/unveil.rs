//! Reveal of gated content: each presented token's block is read from the
//! keyed store and deleted, so that it is revealed at most once.
use vstd::prelude::*;
use crate::error::{AppError, AppErrorType, AppErrorView, error_with};
use crate::gate::{
    KEY_PREFIX, PROTECTED_TTL, ProtectedContent, block_scan, gate_ok,
    lemma_stored, redact_count, redacted, store_units, unit_keys, unit_view,
    unit_views,
};
use crate::kv::{KvModel, kv_get};
use crate::text::views;

verus! {

/// A block held for reveal: (id, tag, content).
pub type Unit = (Seq<char>, Seq<char>, Seq<char>);

/// An operation on the keyed store.
#[derive(Debug)]
pub enum KvAction {
    /// Read a key.
    Get { key: String },
    /// Delete a key.
    Del { key: String },
    /// Nothing left to do.
    Idle,
}

/// Abstract value of a [`KvAction`].
pub enum KvActionView {
    Get { key: Seq<char> },
    Del { key: Seq<char> },
    Idle,
}

impl View for KvAction {
    type V = KvActionView;

    open spec fn view(&self) -> KvActionView {
        match self {
            KvAction::Get { key } => KvActionView::Get { key: key@ },
            KvAction::Del { key } => KvActionView::Del { key: key@ },
            KvAction::Idle => KvActionView::Idle,
        }
    }
}

/// The keyed store's answer to an operation.
#[derive(Debug)]
pub enum KvEvent {
    /// The block read, if the key was present (and readable).
    Value(Option<ProtectedContent>),
    /// The key was deleted.
    Deleted,
    /// The operation failed.
    Failed(AppError),
}

/// Abstract value of a [`KvEvent`].
pub enum KvEventView {
    Value(Option<Unit>),
    Deleted,
    Failed(AppErrorView),
}

impl View for KvEvent {
    type V = KvEventView;

    open spec fn view(&self) -> KvEventView {
        match self {
            KvEvent::Value(Some(u)) => KvEventView::Value(Some(unit_view(*u))),
            KvEvent::Value(None) => KvEventView::Value(None),
            KvEvent::Deleted => KvEventView::Deleted,
            KvEvent::Failed(e) => KvEventView::Failed(e@),
        }
    }
}

/// Where a reveal stands.
#[derive(Clone, Copy, PartialEq, Eq, Structural, Debug)]
pub enum RevealPhase {
    Start,
    Reading,
    Deleting,
    Done,
}

/// Message of an answer that does not fit the operation.
pub const UNEXPECTED_ANSWER: &'static str = "unexpected reply from the keyed store";

/// A reveal in progress.
#[derive(Debug)]
pub struct RevealTx {
    keys: Vec<String>,
    idx: usize,
    holding: Option<ProtectedContent>,
    found: Vec<ProtectedContent>,
    phase: RevealPhase,
    failure: Option<AppError>,
}

/// Abstract value of a [`RevealTx`].
pub struct RevealView {
    pub keys: Seq<Seq<char>>,
    pub idx: int,
    /// The block read and not yet deleted.
    pub holding: Option<Unit>,
    /// Blocks read and deleted so far.
    pub found: Seq<Unit>,
    pub phase: RevealPhase,
    pub failure: Option<AppErrorView>,
}

impl View for RevealTx {
    type V = RevealView;

    closed spec fn view(&self) -> RevealView {
        RevealView {
            keys: views(self.keys@),
            idx: self.idx as int,
            holding: match self.holding {
                Some(u) => Some(unit_view(u)),
                None => None,
            },
            found: unit_views(self.found@),
            phase: self.phase,
            failure: match self.failure {
                Some(e) => Some(e@),
                None => None,
            },
        }
    }
}

/// The result of a finished reveal.
pub open spec fn reveal_result(s: RevealView) -> Result<Seq<Unit>, AppErrorView> {
    match s.failure {
        Some(e) => Err(e),
        None => Ok(s.found),
    }
}

pub open spec fn reveal_fail(s: RevealView, e: AppErrorView) -> (RevealView, KvActionView) {
    (RevealView { phase: RevealPhase::Done, failure: Some(e), ..s }, KvActionView::Idle)
}

pub open spec fn reveal_advance(s: RevealView) -> (RevealView, KvActionView) {
    if s.idx + 1 < s.keys.len() {
        (
            RevealView { idx: s.idx + 1, phase: RevealPhase::Reading, holding: None, ..s },
            KvActionView::Get { key: s.keys[s.idx + 1] },
        )
    } else {
        (RevealView { phase: RevealPhase::Done, holding: None, ..s }, KvActionView::Idle)
    }
}

pub open spec fn unexpected() -> AppErrorView {
    error_with(UNEXPECTED_ANSWER@, AppErrorType::RedisError)
}

/// The transition of a reveal on the answer to its last operation.
pub open spec fn reveal_next(s: RevealView, e: KvEventView) -> (RevealView, KvActionView) {
    match s.phase {
        RevealPhase::Start => if s.keys.len() == 0 {
            (RevealView { phase: RevealPhase::Done, ..s }, KvActionView::Idle)
        } else {
            (
                RevealView { phase: RevealPhase::Reading, idx: 0, ..s },
                KvActionView::Get { key: s.keys[0] },
            )
        },
        RevealPhase::Reading => match e {
            KvEventView::Value(Some(u)) => (
                RevealView { phase: RevealPhase::Deleting, holding: Some(u), ..s },
                KvActionView::Del { key: s.keys[s.idx] },
            ),
            KvEventView::Value(None) => reveal_advance(s),
            KvEventView::Failed(err) => reveal_fail(s, err),
            KvEventView::Deleted => reveal_fail(s, unexpected()),
        },
        RevealPhase::Deleting => match e {
            KvEventView::Deleted => match s.holding {
                Some(u) => reveal_advance(RevealView { found: s.found.push(u), ..s }),
                None => reveal_advance(s),
            },
            KvEventView::Failed(err) => reveal_fail(s, err),
            _ => reveal_fail(s, unexpected()),
        },
        RevealPhase::Done => (s, KvActionView::Idle),
    }
}

/// A fresh reveal of the blocks held under `keys`.
pub open spec fn reveal_start(keys: Seq<Seq<char>>) -> RevealView {
    RevealView {
        keys,
        idx: 0,
        holding: None,
        found: Seq::empty(),
        phase: RevealPhase::Start,
        failure: None,
    }
}

/// Begins revealing the blocks held under `keys` (see
/// [`crate::gate::reveal_keys`]).
pub fn start_reveal(keys: Vec<String>) -> (r: RevealTx)
    ensures
        r.wf(),
        r@ == reveal_start(views(keys@)),
{
    let r = RevealTx {
        keys,
        idx: 0,
        holding: None,
        found: Vec::new(),
        phase: RevealPhase::Start,
        failure: None,
    };
    assert(r@.found =~= Seq::<Unit>::empty());
    r
}

fn event_err(e: KvEvent) -> (r: AppError)
    ensures
        r@ == match e@ {
            KvEventView::Failed(x) => x,
            _ => unexpected(),
        },
{
    match e {
        KvEvent::Failed(x) => x,
        _ => AppError::from_str(UNEXPECTED_ANSWER, AppErrorType::RedisError),
    }
}

impl RevealTx {
    /// The index is in range while a key is being worked on.
    pub closed spec fn wf(&self) -> bool {
        (self.phase == RevealPhase::Reading || self.phase == RevealPhase::Deleting) ==> self.idx
            < self.keys.len()
    }

    fn advance(&mut self) -> (a: KvAction)
        requires
            old(self).wf(),
            old(self).idx < old(self).keys.len(),
        ensures
            final(self).wf(),
            (final(self)@, a@) == reveal_advance(old(self)@),
    {
        self.holding = None;
        if self.idx + 1 < self.keys.len() {
            self.idx = self.idx + 1;
            self.phase = RevealPhase::Reading;
            KvAction::Get { key: self.keys[self.idx].clone() }
        } else {
            self.phase = RevealPhase::Done;
            KvAction::Idle
        }
    }

    fn fail(&mut self, e: AppError) -> (a: KvAction)
        requires
            old(self).wf(),
        ensures
            final(self).wf(),
            (final(self)@, a@) == reveal_fail(old(self)@, e@),
    {
        self.phase = RevealPhase::Done;
        self.failure = Some(e);
        KvAction::Idle
    }

    /// Takes the answer to the last operation and returns the next one;
    /// [`KvAction::Idle`] once the reveal is over.
    pub fn step(&mut self, e: KvEvent) -> (a: KvAction)
        requires
            old(self).wf(),
        ensures
            final(self).wf(),
            (final(self)@, a@) == reveal_next(old(self)@, e@),
    {
        match self.phase {
            RevealPhase::Start => {
                if self.keys.len() == 0 {
                    self.phase = RevealPhase::Done;
                    KvAction::Idle
                } else {
                    self.phase = RevealPhase::Reading;
                    self.idx = 0;
                    KvAction::Get { key: self.keys[0].clone() }
                }
            },
            RevealPhase::Reading => match e {
                KvEvent::Value(Some(u)) => {
                    self.phase = RevealPhase::Deleting;
                    self.holding = Some(u);
                    KvAction::Del { key: self.keys[self.idx].clone() }
                },
                KvEvent::Value(None) => self.advance(),
                other => self.fail(event_err(other)),
            },
            RevealPhase::Deleting => match e {
                KvEvent::Deleted => {
                    match self.holding.take() {
                        Some(u) => {
                            let ghost before = self.found@;
                            self.found.push(u);
                            assert(unit_views(self.found@) =~= unit_views(before).push(
                                unit_view(u),
                            ));
                        },
                        None => {},
                    }
                    self.advance()
                },
                other => self.fail(event_err(other)),
            },
            RevealPhase::Done => KvAction::Idle,
        }
    }

    /// Whether the reveal is over.
    pub fn is_done(&self) -> (r: bool)
        ensures
            r == (self@.phase == RevealPhase::Done),
    {
        self.phase == RevealPhase::Done
    }

    /// The blocks revealed (none when no token was held any more), or the
    /// error that ended the reveal; `None` while it runs.
    pub fn into_outcome(self) -> (r: Option<Result<Vec<ProtectedContent>, AppError>>)
        ensures
            self@.phase != RevealPhase::Done ==> r is None,
            self@.phase == RevealPhase::Done ==> r is Some && match (r->0, reveal_result(self@)) {
                (Ok(v), Ok(w)) => unit_views(v@) == w,
                (Err(e), Err(x)) => e@ == x,
                _ => false,
            },
    {
        if self.phase != RevealPhase::Done {
            return None;
        }
        match self.failure {
            Some(e) => Some(Err(e)),
            None => Some(Ok(self.found)),
        }
    }
}

/// Runs a reveal against the keyed store at time `t`, for at most `fuel`
/// operations, starting from answer `e`.
pub open spec fn run_reveal(
    m: KvModel<Unit>,
    s: RevealView,
    e: KvEventView,
    t: int,
    fuel: nat,
) -> (KvModel<Unit>, RevealView)
    decreases fuel,
{
    if fuel == 0 {
        (m, s)
    } else {
        let (s2, a) = reveal_next(s, e);
        match a {
            KvActionView::Idle => (m, s2),
            KvActionView::Get { key } => run_reveal(
                m,
                s2,
                KvEventView::Value(kv_get(m, key, t)),
                t,
                (fuel - 1) as nat,
            ),
            KvActionView::Del { key } => run_reveal(
                m.remove(key),
                s2,
                KvEventView::Deleted,
                t,
                (fuel - 1) as nat,
            ),
        }
    }
}

pub open spec fn reveal_fuel(n: nat) -> nat {
    2 * n + 2
}

/// Where a reveal of all held `units` stands before each answer is read.
pub open spec fn reveal_inv(
    m1: KvModel<Unit>,
    units: Seq<Unit>,
    m: KvModel<Unit>,
    s: RevealView,
    e: KvEventView,
    fuel: nat,
) -> bool {
    let keys = unit_keys(units);
    let n = units.len() as int;
    &&& s.keys == keys
    &&& s.failure is None
    &&& match s.phase {
        RevealPhase::Start => m == m1 && s.found.len() == 0 && fuel >= 2 * n + 1,
        RevealPhase::Reading => {
            &&& 0 <= s.idx < n
            &&& e == KvEventView::Value(Some(units[s.idx]))
            &&& s.found == units.subrange(0, s.idx)
            &&& m == m1.remove_keys(keys.subrange(0, s.idx).to_set())
            &&& fuel >= 2 * (n - s.idx)
        },
        RevealPhase::Deleting => {
            &&& 0 <= s.idx < n
            &&& e == KvEventView::Deleted
            &&& s.holding == Some(units[s.idx])
            &&& s.found == units.subrange(0, s.idx)
            &&& m == m1.remove_keys(keys.subrange(0, s.idx + 1).to_set())
            &&& fuel >= 2 * (n - s.idx) - 1
        },
        RevealPhase::Done => false,
    }
}

pub open spec fn stored_at(m1: KvModel<Unit>, units: Seq<Unit>, now: int) -> bool {
    forall|q: int| 0 <= q < units.len() ==> {
        &&& m1.contains_key(#[trigger] unit_keys(units)[q])
        &&& m1[unit_keys(units)[q]] == (units[q], now + PROTECTED_TTL)
    }
}

pub open spec fn reveal_done(m1: KvModel<Unit>, units: Seq<Unit>, m: KvModel<Unit>, s: RevealView) -> bool {
    &&& s.phase == RevealPhase::Done
    &&& s.failure is None
    &&& s.found == units
    &&& m == m1.remove_keys(unit_keys(units).to_set())
}

proof fn lemma_reveal_step(
    m1: KvModel<Unit>,
    units: Seq<Unit>,
    now: int,
    t: int,
    m: KvModel<Unit>,
    s: RevealView,
    e: KvEventView,
    fuel: nat,
)
    requires
        now <= t < now + PROTECTED_TTL,
        unit_keys(units).no_duplicates(),
        stored_at(m1, units, now),
        reveal_inv(m1, units, m, s, e, fuel),
    ensures
        ({
            let (s2, a) = reveal_next(s, e);
            match a {
                KvActionView::Idle => reveal_done(m1, units, m, s2),
                KvActionView::Get { key } => reveal_inv(
                    m1,
                    units,
                    m,
                    s2,
                    KvEventView::Value(kv_get(m, key, t)),
                    (fuel - 1) as nat,
                ),
                KvActionView::Del { key } => reveal_inv(
                    m1,
                    units,
                    m.remove(key),
                    s2,
                    KvEventView::Deleted,
                    (fuel - 1) as nat,
                ),
            }
        }),
{
    let keys = unit_keys(units);
    let n = units.len() as int;
    let (s2, a) = reveal_next(s, e);
    match s.phase {
        RevealPhase::Start => {
            assert(keys.subrange(0, 0).to_set() =~= Set::<Seq<char>>::empty());
            assert(m1.remove_keys(Set::<Seq<char>>::empty()) =~= m1);
            if n == 0 {
                assert(keys.to_set() =~= Set::<Seq<char>>::empty());
                assert(units =~= Seq::<Unit>::empty());
                assert(s.found =~= units);
            } else {
                assert(kv_get(m, keys[0], t) == Some(units[0]));
                assert(units.subrange(0, 0) =~= s.found);
            }
        },
        RevealPhase::Reading => {
            let i = s.idx;
            let k = keys[i];
            let pre = keys.subrange(0, i);
            let upto = keys.subrange(0, i + 1);
            assert(upto.to_set() =~= pre.to_set().insert(k)) by {
                assert forall|x| upto.to_set().contains(x) <==> pre.to_set().insert(k).contains(x) by {
                    if upto.contains(x) && x != k {
                        let a = choose|a: int| 0 <= a < upto.len() && upto[a] == x;
                        assert(pre[a] == x);
                    }
                    if pre.contains(x) {
                        let a = choose|a: int| 0 <= a < pre.len() && pre[a] == x;
                        assert(upto[a] == x);
                    }
                    if x == k {
                        assert(upto[i] == x);
                    }
                }
            }
            assert(m.remove(k) =~= m1.remove_keys(upto.to_set()));
        },
        RevealPhase::Deleting => {
            let i = s.idx;
            assert(units.subrange(0, i + 1) =~= units.subrange(0, i).push(units[i]));
            if i + 1 < n {
                let k = keys[i + 1];
                let done = keys.subrange(0, i + 1);
                assert(!done.to_set().contains(k)) by {
                    if done.contains(k) {
                        let a = choose|a: int| 0 <= a < done.len() && done[a] == k;
                        assert(keys[a] == keys[i + 1]);
                    }
                }
                assert(m.contains_key(k));
                assert(kv_get(m, k, t) == Some(units[i + 1]));
            } else {
                assert(units.subrange(0, n) =~= units);
                assert(keys.subrange(0, n) =~= keys);
            }
        },
        RevealPhase::Done => {},
    }
}

proof fn lemma_reveal_all(
    m1: KvModel<Unit>,
    units: Seq<Unit>,
    now: int,
    t: int,
    m: KvModel<Unit>,
    s: RevealView,
    e: KvEventView,
    fuel: nat,
)
    requires
        now <= t < now + PROTECTED_TTL,
        unit_keys(units).no_duplicates(),
        stored_at(m1, units, now),
        reveal_inv(m1, units, m, s, e, fuel),
    ensures
        ({
            let (m2, s2) = run_reveal(m, s, e, t, fuel);
            reveal_done(m1, units, m2, s2)
        }),
    decreases fuel,
{
    lemma_reveal_step(m1, units, now, t, m, s, e, fuel);
    let (s2, a) = reveal_next(s, e);
    match a {
        KvActionView::Idle => {},
        KvActionView::Get { key } => {
            lemma_reveal_all(m1, units, now, t, m, s2, KvEventView::Value(kv_get(m, key, t)), (fuel - 1) as nat);
        },
        KvActionView::Del { key } => {
            lemma_reveal_all(m1, units, now, t, m.remove(key), s2, KvEventView::Deleted, (fuel - 1) as nat);
        },
    }
}

proof fn lemma_reveal_none(m: KvModel<Unit>, keys: Seq<Seq<char>>, s: RevealView, e: KvEventView, t: int, fuel: nat)
    requires
        forall|q: int| 0 <= q < keys.len() ==> !m.contains_key(#[trigger] keys[q]),
        s.keys == keys,
        s.failure is None,
        s.found.len() == 0,
        s.phase == RevealPhase::Start || (s.phase == RevealPhase::Reading && 0 <= s.idx < keys.len()
            && e == KvEventView::Value(None)),
        s.phase == RevealPhase::Start ==> fuel >= keys.len() + 2,
        s.phase == RevealPhase::Reading ==> fuel >= keys.len() - s.idx + 1,
    ensures
        ({
            let (m2, s2) = run_reveal(m, s, e, t, fuel);
            &&& s2.phase == RevealPhase::Done
            &&& s2.failure is None
            &&& s2.found.len() == 0
            &&& m2 == m
        }),
    decreases fuel,
{
    let (s2, a) = reveal_next(s, e);
    if s.phase == RevealPhase::Start {
        if keys.len() > 0 {
            lemma_reveal_none(m, keys, s2, KvEventView::Value(kv_get(m, keys[0], t)), t, (fuel - 1) as nat);
        }
    } else if s.idx + 1 < keys.len() {
        lemma_reveal_none(
            m,
            keys,
            s2,
            KvEventView::Value(kv_get(m, keys[s.idx + 1], t)),
            t,
            (fuel - 1) as nat,
        );
    }
}

/// Gating round trip: a redaction holds as many blocks as the block count
/// calls for (2 of 6). Once they are held in the keyed store, a reveal of
/// their tokens within the time to live returns each block, with the tag and
/// content it had in the document, and removes it; a second reveal of the
/// same tokens finds nothing and returns an empty list.
pub proof fn lemma_gate_round_trip(
    html: Seq<char>,
    ids: Seq<Seq<char>>,
    picks: Seq<usize>,
    m: KvModel<Unit>,
    now: int,
    t: int,
)
    requires
        gate_ok(block_scan(html), ids, picks),
        now <= t < now + PROTECTED_TTL,
    ensures
        ({
            let bs = block_scan(html);
            let units = redacted(bs, ids, picks);
            let keys = unit_keys(units);
            let fuel = reveal_fuel(units.len());
            let (m2, first) = run_reveal(store_units(m, units, now), reveal_start(keys), KvEventView::Deleted, t, fuel);
            let (m3, second) = run_reveal(m2, reveal_start(keys), KvEventView::Deleted, t, fuel);
            &&& units.len() == redact_count(bs.len() as int)
            &&& bs.len() == 6 ==> units.len() == 2
            &&& first.phase == RevealPhase::Done && second.phase == RevealPhase::Done
            &&& units.len() > 0 ==> reveal_result(first) == Ok::<Seq<Unit>, AppErrorView>(units)
            &&& forall|q: int| 0 <= q < units.len() ==> (#[trigger] first.found[q]).1 == bs[picks[q] as int].1
                && first.found[q].2 == bs[picks[q] as int].2
            &&& reveal_result(second) == Ok::<Seq<Unit>, AppErrorView>(Seq::empty())
        }),
{
    let bs = block_scan(html);
    let units = redacted(bs, ids, picks);
    let keys = unit_keys(units);
    let n = units.len();
    assert(keys.no_duplicates()) by {
        assert forall|a: int, b: int| 0 <= a < keys.len() && 0 <= b < keys.len() && a != b
            implies keys[a] != keys[b] by {
            let (x, y) = (ids[picks[a] as int], ids[picks[b] as int]);
            assert(x != y);
            if keys[a] == keys[b] {
                assert(keys[a] == KEY_PREFIX@ + x);
                assert(x =~= keys[a].subrange(KEY_PREFIX@.len() as int, keys[a].len() as int));
                assert(y =~= keys[b].subrange(KEY_PREFIX@.len() as int, keys[b].len() as int));
            }
        }
    }
    let m1 = store_units(m, units, now);
    lemma_stored(m, units, now);
    let s0 = reveal_start(keys);
    assert(reveal_inv(m1, units, m1, s0, KvEventView::Deleted, reveal_fuel(n)));
    lemma_reveal_all(m1, units, now, t, m1, s0, KvEventView::Deleted, reveal_fuel(n));
    
    let (m2, first) = run_reveal(m1, s0, KvEventView::Deleted, t, reveal_fuel(n));
    assert forall|q: int| 0 <= q < keys.len() implies !m2.contains_key(#[trigger] keys[q]) by {
        assert(keys.to_set().contains(keys[q]));
    }
    lemma_reveal_none(m2, keys, s0, KvEventView::Deleted, t, reveal_fuel(n));
    let (m3, second) = run_reveal(m2, s0, KvEventView::Deleted, t, reveal_fuel(n));
    assert(second.found =~= Seq::<Unit>::empty());
}

} // verus!
