//! Single-flight coalescing of in-flight subgraph requests.
//!
//! The coordinator maps each request fingerprint to at most one live slot.
//! The first caller to register for a fingerprint is elected leader and
//! performs the downstream call once; every concurrent caller for the same
//! fingerprint becomes a follower of the slot. The leader publishes the
//! outcome through the slot exactly once, or abandons it unpublished; on
//! either path the slot is retired unconditionally. A follower that observes
//! closure without a value re-registers from scratch.
//!
//! The coordinator's observable behaviour is pinned to a transition system
//! over [`CoordinatorState`]: each operation's postcondition states that the
//! new state is [`apply`] of the corresponding [`DedupEvent`], and the
//! coalescing laws are proved over sequences of such events.

use vstd::prelude::*;

use crate::OperationKind;
use crate::http::ExecutionContext;
use crate::http::FetchError;
use crate::http::Fingerprint;
use crate::http::FingerprintView;
use crate::http::HttpResponseParts;
use crate::http::SubgraphRequest;
use crate::http::SubgraphResponse;
use crate::http::SubgraphResponseView;
use crate::http::clone_fingerprint;
use crate::http::fingerprint_matches;

verus! {

/// A downstream response that can be duplicated for fan-out. Cloning shares
/// the payload; the execution context it carries is the leader's and is
/// replaced before any follower returns the response upward.
pub struct CloneSubgraphResponse(pub SubgraphResponse);

impl View for CloneSubgraphResponse {
    type V = SubgraphResponseView;

    open spec fn view(&self) -> SubgraphResponseView {
        self.0@
    }
}

impl HttpResponseParts {
    /// Copies the shareable fields of a response.
    pub fn duplicate(&self) -> (r: HttpResponseParts)
        ensures
            r@ == self@,
    {
        HttpResponseParts {
            status: self.status,
            headers: crate::http::clone_headers(&self.headers),
            body: self.body.clone(),
        }
    }
}

impl Clone for CloneSubgraphResponse {
    fn clone(&self) -> (r: Self)
        ensures
            r@ == self@,
    {
        CloneSubgraphResponse(
            SubgraphResponse {
                response: self.0.response.duplicate(),
                context: self.0.context,
            },
        )
    }
}

/// What a leader publishes through its slot: the shareable success payload,
/// or the failure rendered to text (the structured error is not assumed
/// shareable across tasks).
pub enum Outcome {
    Success(CloneSubgraphResponse),
    Failure(String),
}

impl Clone for Outcome {
    fn clone(&self) -> (r: Self)
        ensures
            r@ == self@,
    {
        match self {
            Outcome::Success(resp) => Outcome::Success(resp.clone()),
            Outcome::Failure(m) => Outcome::Failure(m.clone()),
        }
    }
}

/// Mathematical image of a published outcome.
pub ghost enum OutcomeModel {
    Success(SubgraphResponseView),
    Failure(Seq<char>),
}

impl View for Outcome {
    type V = OutcomeModel;

    open spec fn view(&self) -> OutcomeModel {
        match self {
            Outcome::Success(r) => OutcomeModel::Success(r@),
            Outcome::Failure(m) => OutcomeModel::Failure(m@),
        }
    }
}

/// The state of one coalescing slot, as a follower observes it: no value
/// yet, a published outcome, or closure without a value (the leader
/// vanished before publishing).
pub enum SlotStatus {
    Pending,
    Published(Outcome),
    Closed,
}

/// Mathematical image of a slot's state.
pub ghost enum SlotModel {
    Pending,
    Published(OutcomeModel),
    Closed,
}

impl View for SlotStatus {
    type V = SlotModel;

    open spec fn view(&self) -> SlotModel {
        match self {
            SlotStatus::Pending => SlotModel::Pending,
            SlotStatus::Published(o) => SlotModel::Published(o@),
            SlotStatus::Closed => SlotModel::Closed,
        }
    }
}

/// Mathematical state of the coordinator: the fingerprints with a live
/// slot, and the state of every slot ever created (a retired slot's state
/// remains observable to followers that still hold a handle to it).
pub ghost struct CoordinatorState {
    pub live: Map<FingerprintView, int>,
    pub slots: Seq<SlotModel>,
}

impl CoordinatorState {
    /// Every live fingerprint points at an existing slot.
    pub open spec fn wf(&self) -> bool {
        forall|fp: FingerprintView|
            self.live.contains_key(fp) ==> 0 <= #[trigger] self.live[fp] < self.slots.len()
    }
}

/// One atomic step of the coalescing protocol.
pub ghost enum DedupEvent {
    /// A caller asks for the slot of a fingerprint: joins the live slot if
    /// one exists, otherwise creates a fresh pending slot and leads it.
    Register(FingerprintView),
    /// The leader publishes the outcome of its downstream call.
    Publish(int, OutcomeModel),
    /// The leader vanishes before publishing; its slot closes empty.
    Abandon(int),
    /// The leader's cleanup removes the fingerprint's slot from the map.
    Retire(FingerprintView),
}

/// The transition function of the coalescing protocol.
pub open spec fn apply(s: CoordinatorState, e: DedupEvent) -> CoordinatorState {
    match e {
        DedupEvent::Register(fp) => {
            if s.live.contains_key(fp) {
                s
            } else {
                CoordinatorState {
                    live: s.live.insert(fp, s.slots.len() as int),
                    slots: s.slots.push(SlotModel::Pending),
                }
            }
        },
        DedupEvent::Publish(i, o) => {
            if 0 <= i < s.slots.len() && s.slots[i] is Pending {
                CoordinatorState { live: s.live, slots: s.slots.update(i, SlotModel::Published(o)) }
            } else {
                s
            }
        },
        DedupEvent::Abandon(i) => {
            if 0 <= i < s.slots.len() && s.slots[i] is Pending {
                CoordinatorState { live: s.live, slots: s.slots.update(i, SlotModel::Closed) }
            } else {
                s
            }
        },
        DedupEvent::Retire(fp) => CoordinatorState { live: s.live.remove(fp), slots: s.slots },
    }
}

/// Applies a sequence of events in order.
pub open spec fn apply_all(s: CoordinatorState, evs: Seq<DedupEvent>) -> CoordinatorState
    decreases evs.len(),
{
    if evs.len() == 0 {
        s
    } else {
        apply_all(apply(s, evs[0]), evs.drop_first())
    }
}

/// What a caller is handed back by registration: leadership of a fresh
/// slot, or a follower handle onto the existing one. The index identifies
/// the slot.
pub enum Registration {
    Leader(usize),
    Follower(usize),
}

/// The coalescing coordinator: the shared fingerprint-to-slot mapping.
///
/// `entries` is the live map; `slots` records the publish state of every
/// slot ever created, so that a follower holding a handle onto a retired
/// slot still observes its final state (a real deployment keeps that state
/// in the broadcast channel itself).
pub struct Coordinator {
    slots: Vec<SlotStatus>,
    entries: Vec<(Fingerprint, usize)>,
}

impl Coordinator {
    /// No two live entries share a fingerprint, and every entry points at
    /// an existing slot.
    pub closed spec fn wf(&self) -> bool {
        &&& forall|i: int, j: int|
            0 <= i < j < self.entries@.len() ==> (#[trigger] self.entries@[i]).0@ != (
            #[trigger] self.entries@[j]).0@
        &&& forall|i: int|
            0 <= i < self.entries@.len() ==> (#[trigger] self.entries@[i]).1 < self.slots@.len()
    }

    pub closed spec fn view(&self) -> CoordinatorState {
        CoordinatorState {
            live: entries_map(self.entries@),
            slots: self.slots@.map_values(|s: SlotStatus| s@),
        }
    }

    /// Creates an empty coordinator: no live slot for any fingerprint.
    pub fn new() -> (c: Self)
        ensures
            c.wf(),
            c@.live == Map::<FingerprintView, int>::empty(),
            c@.slots == Seq::<SlotModel>::empty(),
    {
        let c = Coordinator { slots: Vec::new(), entries: Vec::new() };
        proof {
            assert(c@.slots =~= Seq::<SlotModel>::empty());
        }
        c
    }
}

impl Coordinator {
    /// Atomic get-or-insert on the slot map: the caller becomes leader of a
    /// fresh pending slot if the fingerprint has no live slot, and a
    /// follower of the existing slot otherwise. Either way the returned
    /// index is the fingerprint's live slot after the call.
    pub fn register(&mut self, fp: &Fingerprint) -> (r: Registration)
        requires
            old(self).wf(),
        ensures
            final(self).wf(),
            final(self)@ == apply(old(self)@, DedupEvent::Register(fp@)),
            match r {
                Registration::Follower(i) => old(self)@.live.contains_key(fp@) && i as int == old(
                    self,
                )@.live[fp@] && i < old(self)@.slots.len(),
                Registration::Leader(i) => !old(self)@.live.contains_key(fp@) && i as int == old(
                    self,
                )@.slots.len(),
            },
    {
        proof {
            lemma_entries_map_props(self.entries@);
        }
        let mut k: usize = 0;
        while k < self.entries.len()
            invariant
                *self == *old(self),
                old(self).wf(),
                k <= self.entries@.len(),
                forall|j: int| 0 <= j < k ==> (#[trigger] self.entries@[j]).0@ != fp@,
            decreases self.entries@.len() - k,
        {
            let e = &self.entries[k];
            if fingerprint_matches(&e.0, fp) {
                let idx = e.1;
                proof {
                    lemma_entries_map_props(self.entries@);
                    assert(self.entries@[k as int].0@ == fp@);
                    assert(self@.live.contains_key(fp@));
                    assert(self@.live[fp@] == idx as int);
                }
                return Registration::Follower(idx);
            }
            k += 1;
        }
        proof {
            assert(!self@.live.contains_key(fp@)) by {
                if self@.live.contains_key(fp@) {
                    let j = choose|j: int|
                        0 <= j < self.entries@.len() && (#[trigger] self.entries@[j]).0@ == fp@;
                }
            }
        }
        let idx = self.slots.len();
        self.slots.push(SlotStatus::Pending);
        let key = clone_fingerprint(fp);
        self.entries.push((key, idx));
        proof {
            let olde = old(self).entries@;
            let news = self.entries@;
            assert(news.drop_last() =~= olde);
            assert(news.last() == (key, idx));
            assert(entries_map(news) == entries_map(olde).insert(fp@, idx as int));
            assert(forall|j: int| 0 <= j < olde.len() ==> #[trigger] news[j] == olde[j]);
            assert(self.slots@.map_values(|s: SlotStatus| s@) =~= old(self).slots@.map_values(
                |s: SlotStatus| s@,
            ).push(SlotModel::Pending));
        }
        Registration::Leader(idx)
    }

    /// The leader's publish step: stores the outcome in its pending slot,
    /// where every follower of the slot observes it. Publishing to a slot
    /// already published or closed changes nothing (best-effort
    /// notification).
    pub fn publish(&mut self, slot: usize, outcome: Outcome)
        requires
            old(self).wf(),
            slot < old(self)@.slots.len(),
        ensures
            final(self).wf(),
            final(self)@ == apply(old(self)@, DedupEvent::Publish(slot as int, outcome@)),
    {
        let is_pending = match &self.slots[slot] {
            SlotStatus::Pending => true,
            _ => false,
        };
        if is_pending {
            self.slots[slot] = SlotStatus::Published(outcome);
            proof {
                assert(self.slots@.map_values(|s: SlotStatus| s@) =~= old(self).slots@.map_values(
                    |s: SlotStatus| s@,
                ).update(slot as int, SlotModel::Published(outcome@)));
            }
        }
    }

    /// The leader's teardown when it vanishes before publishing: the slot
    /// closes empty, which followers observe as closure rather than a
    /// value. Closing a slot already published changes nothing.
    pub fn abandon(&mut self, slot: usize)
        requires
            old(self).wf(),
            slot < old(self)@.slots.len(),
        ensures
            final(self).wf(),
            final(self)@ == apply(old(self)@, DedupEvent::Abandon(slot as int)),
    {
        let is_pending = match &self.slots[slot] {
            SlotStatus::Pending => true,
            _ => false,
        };
        if is_pending {
            self.slots[slot] = SlotStatus::Closed;
            proof {
                assert(self.slots@.map_values(|s: SlotStatus| s@) =~= old(self).slots@.map_values(
                    |s: SlotStatus| s@,
                ).update(slot as int, SlotModel::Closed));
            }
        }
    }

    /// Removes the fingerprint's slot from the live map, whatever its
    /// state. Called exactly once per slot by the leader's cleanup, on
    /// every exit path. Retiring a fingerprint with no live slot changes
    /// nothing.
    pub fn retire(&mut self, fp: &Fingerprint)
        requires
            old(self).wf(),
        ensures
            final(self).wf(),
            final(self)@ == apply(old(self)@, DedupEvent::Retire(fp@)),
    {
        proof {
            lemma_entries_map_props(self.entries@);
        }
        let mut k: usize = 0;
        while k < self.entries.len()
            invariant
                *self == *old(self),
                old(self).wf(),
                k <= self.entries@.len(),
                forall|j: int| 0 <= j < k ==> (#[trigger] self.entries@[j]).0@ != fp@,
            decreases self.entries@.len() - k,
        {
            let matched = {
                let e = &self.entries[k];
                fingerprint_matches(&e.0, fp)
            };
            if matched {
                let ghost olde = self.entries@;
                self.entries.remove(k);
                proof {
                    let news = self.entries@;
                    assert(olde == old(self).entries@);
                    lemma_entries_map_props(olde);
                    assert(forall|i: int, j: int|
                        0 <= i < j < olde.len() ==> (#[trigger] olde[i]).0@ != (
                        #[trigger] olde[j]).0@);
                    assert(forall|i: int|
                        0 <= i < olde.len() ==> (#[trigger] olde[i]).1 < old(self).slots@.len());
                    assert(self.slots@ == old(self).slots@);
                    assert(olde[k as int].0@ == fp@);
                    assert(news == olde.remove(k as int));
                    olde.remove_ensures(k as int);
                    assert(news.len() == olde.len() - 1);
                    assert(forall|i: int| 0 <= i < k as int ==> #[trigger] news[i] == olde[i]);
                    assert(forall|i: int|
                        k as int <= i < news.len() ==> #[trigger] news[i] == olde[i + 1]);
                    assert forall|i: int, j: int| 0 <= i < j < news.len() implies (
                    #[trigger] news[i]).0@ != (#[trigger] news[j]).0@ by {
                        let oi = if i < k as int { i } else { i + 1 };
                        let oj = if j < k as int { j } else { j + 1 };
                        assert(news[i] == olde[oi] && news[j] == olde[oj]);
                        assert(olde[oi].0@ != olde[oj].0@);
                    }
                    assert forall|i: int|
                        0 <= i < news.len() implies (#[trigger] news[i]).1 < self.slots@.len() by {
                        let oi = if i < k as int { i } else { i + 1 };
                        assert(news[i] == olde[oi]);
                    }
                    lemma_entries_map_props(news);
                    assert(entries_map(news) =~= entries_map(olde).remove(fp@)) by {
                        assert forall|v: FingerprintView| #[trigger]
                            entries_map(news).contains_key(v) implies entries_map(olde).remove(
                            fp@,
                        ).contains_key(v) by {
                            let j = choose|j: int|
                                0 <= j < news.len() && (#[trigger] news[j]).0@ == v;
                            let oj = if j < k as int { j } else { j + 1 };
                            assert(news[j] == olde[oj]);
                            assert(v != fp@);
                        }
                        assert forall|v: FingerprintView| #[trigger]
                            entries_map(olde).remove(fp@).contains_key(v) implies entries_map(
                            news,
                        ).contains_key(v) && entries_map(news)[v] == entries_map(olde).remove(
                            fp@,
                        )[v] by {
                            assert(v != fp@);
                            assert(entries_map(olde).contains_key(v));
                            let oj = choose|oj: int|
                                0 <= oj < olde.len() && (#[trigger] olde[oj]).0@ == v;
                            assert(oj != k as int);
                            let j = if oj < k as int { oj } else { oj - 1 };
                            assert(news[j] == olde[oj]);
                            assert(news[j].0@ == v);
                            assert(entries_map(news)[v] == news[j].1 as int);
                            assert(entries_map(olde)[v] == olde[oj].1 as int);
                        }
                    }
                }
                return ;
            }
            k += 1;
        }
        proof {
            assert(!self@.live.contains_key(fp@)) by {
                if self@.live.contains_key(fp@) {
                    let j = choose|j: int|
                        0 <= j < self.entries@.len() && (#[trigger] self.entries@[j]).0@ == fp@;
                }
            }
            assert(self@.live.remove(fp@) =~= self@.live);
        }
    }

    /// A follower's read of its slot's current state.
    pub fn observe(&self, slot: usize) -> (r: &SlotStatus)
        requires
            slot < self@.slots.len(),
        ensures
            r@ == self@.slots[slot as int],
    {
        &self.slots[slot]
    }
}

/// What a follower decides to do after observing its slot.
pub enum FollowerAction {
    /// The slot holds no value yet (spurious wake): keep waiting.
    WaitAgain,
    /// The slot closed without a value (the leader vanished): register
    /// again from scratch.
    Reregister,
    /// A published outcome: the per-caller result to return upward.
    Deliver(Result<SubgraphResponse, FetchError>),
}

/// A follower's reaction to the slot state it observed, for the caller
/// whose execution context is `context`. A delivered success pairs the
/// shared payload with that follower's own context, never the leader's;
/// a delivered failure carries the leader's rendered error text.
pub fn follower_step(status: &SlotStatus, context: ExecutionContext) -> (r: FollowerAction)
    ensures
        match status@ {
            SlotModel::Pending => r is WaitAgain,
            SlotModel::Closed => r is Reregister,
            SlotModel::Published(o) => match o {
                OutcomeModel::Success(resp) => match r {
                    FollowerAction::Deliver(Ok(out)) => out@.response == resp.response && out@.context
                        == context,
                    _ => false,
                },
                OutcomeModel::Failure(m) => match r {
                    FollowerAction::Deliver(Err(e)) => e.message@ == m,
                    _ => false,
                },
            },
        },
{
    match status {
        SlotStatus::Pending => FollowerAction::WaitAgain,
        SlotStatus::Closed => FollowerAction::Reregister,
        SlotStatus::Published(Outcome::Success(resp)) => {
            let payload = resp.0.response.duplicate();
            FollowerAction::Deliver(Ok(SubgraphResponse::new_from_response(payload, context)))
        },
        SlotStatus::Published(Outcome::Failure(m)) => {
            FollowerAction::Deliver(Err(FetchError { message: m.clone() }))
        },
    }
}

/// The outcome a leader broadcasts for a finished downstream call: the
/// shareable payload on success, the error rendered to text on failure.
pub fn broadcast_of(res: &Result<CloneSubgraphResponse, FetchError>) -> (o: Outcome)
    ensures
        match res {
            Ok(resp) => o@ == OutcomeModel::Success(resp@),
            Err(e) => o@ == OutcomeModel::Failure(e.message@),
        },
{
    match res {
        Ok(resp) => Outcome::Success(resp.clone()),
        Err(e) => Outcome::Failure(e.rendered()),
    }
}

/// The result the leader returns to its own caller: the payload bound to
/// the leader's own context on success, and on failure the original
/// structured error, never the text-downgraded copy the followers get.
pub fn leader_response(
    res: Result<CloneSubgraphResponse, FetchError>,
    context: ExecutionContext,
) -> (r: Result<SubgraphResponse, FetchError>)
    ensures
        match res {
            Ok(resp) => match r {
                Ok(out) => out@.response == resp@.response && out@.context == context,
                _ => false,
            },
            Err(e) => r == Result::<SubgraphResponse, FetchError>::Err(e),
        },
{
    match res {
        Ok(resp) => Ok(SubgraphResponse::new_from_response(resp.0.response, context)),
        Err(e) => Err(e),
    }
}

/// Where the dispatch gate sends a request.
pub enum Route {
    /// An idempotent read: goes through the coalescing coordinator.
    Coalesce,
    /// A mutation or subscription: goes straight to the downstream
    /// service, once per caller, never shared.
    Bypass,
}

/// Decides, per request, whether coalescing applies at all. Only queries
/// coalesce; a mutation or subscription bypasses the coordinator even when
/// its fingerprint equals a query's, so the two never share an execution.
pub fn route_of(request: &SubgraphRequest) -> (r: Route)
    ensures
        (r is Coalesce) <==> request.operation_kind == OperationKind::Query,
{
    if request.operation_kind.is_coalescable() {
        Route::Coalesce
    } else {
        Route::Bypass
    }
}

/// The outcome model a downstream result is broadcast as.
pub open spec fn outcome_model_of(res: Result<CloneSubgraphResponse, FetchError>) -> OutcomeModel {
    match res {
        Ok(resp) => OutcomeModel::Success(resp@),
        Err(e) => OutcomeModel::Failure(e.message@),
    }
}

/// The leader's completion path: derives the broadcast outcome from the
/// downstream result, publishes it through the slot, retires the slot
/// unconditionally, and returns the leader's own result — the payload bound
/// to the leader's own context, or the original structured error.
pub fn leader_finish(
    c: &mut Coordinator,
    fp: &Fingerprint,
    slot: usize,
    res: Result<CloneSubgraphResponse, FetchError>,
    context: ExecutionContext,
) -> (r: Result<SubgraphResponse, FetchError>)
    requires
        old(c).wf(),
        slot < old(c)@.slots.len(),
    ensures
        final(c).wf(),
        final(c)@ == apply(
            apply(old(c)@, DedupEvent::Publish(slot as int, outcome_model_of(res))),
            DedupEvent::Retire(fp@),
        ),
        match res {
            Ok(resp) => match r {
                Ok(out) => out@.response == resp@.response && out@.context == context,
                _ => false,
            },
            Err(e) => r == Result::<SubgraphResponse, FetchError>::Err(e),
        },
{
    let outcome = broadcast_of(&res);
    c.publish(slot, outcome);
    c.retire(fp);
    leader_response(res, context)
}

/// The leader's teardown when it is abandoned before publishing: the slot
/// closes empty and is retired all the same, so waiting followers observe
/// closure and a later registration for the fingerprint starts afresh.
pub fn leader_abandon(c: &mut Coordinator, fp: &Fingerprint, slot: usize)
    requires
        old(c).wf(),
        slot < old(c)@.slots.len(),
    ensures
        final(c).wf(),
        final(c)@ == apply(
            apply(old(c)@, DedupEvent::Abandon(slot as int)),
            DedupEvent::Retire(fp@),
        ),
{
    c.abandon(slot);
    c.retire(fp);
}

/// Every protocol step keeps the coordinator state well-formed.
pub proof fn lemma_apply_preserves_wf(s: CoordinatorState, e: DedupEvent)
    requires
        s.wf(),
    ensures
        apply(s, e).wf(),
{
}

/// Single-flight coalescing: while a fingerprint's slot is live, no step
/// other than retiring that fingerprint changes which slot it maps to.
/// A registration for it inside such a window finds the slot live and joins
/// as a follower ([`apply`] leaves the state unchanged and [`Coordinator::register`]
/// returns `Follower`), so however many concurrent callers arrive, the
/// downstream call belonging to the slot is made exactly once — by the one
/// caller whose registration created it.
pub proof fn lemma_single_flight(s: CoordinatorState, evs: Seq<DedupEvent>, fp: FingerprintView)
    requires
        s.live.contains_key(fp),
        forall|k: int| 0 <= k < evs.len() ==> evs[k] != DedupEvent::Retire(fp),
    ensures
        apply_all(s, evs).live.contains_key(fp),
        apply_all(s, evs).live[fp] == s.live[fp],
    decreases evs.len(),
{
    if evs.len() > 0 {
        let s1 = apply(s, evs[0]);
        assert(s1.live.contains_key(fp) && s1.live[fp] == s.live[fp]) by {
            match evs[0] {
                DedupEvent::Register(fp2) => {
                    if !s.live.contains_key(fp2) {
                        assert(fp2 != fp);
                    }
                },
                DedupEvent::Retire(fp2) => {
                    assert(evs[0] != DedupEvent::Retire(fp));
                    assert(fp2 != fp);
                },
                _ => {},
            }
        }
        let tail = evs.drop_first();
        assert(forall|k: int| 0 <= k < tail.len() ==> #[trigger] tail[k] == evs[k + 1]);
        lemma_single_flight(s1, tail, fp);
    }
}

/// Once an outcome is published, the slot holds it forever: no later step
/// changes a published slot's state. Every follower of the group therefore
/// observes the same outcome as every other — the one value the single
/// downstream invocation produced.
pub proof fn lemma_published_outcome_stable(s: CoordinatorState, evs: Seq<DedupEvent>, i: int)
    requires
        0 <= i < s.slots.len(),
        s.slots[i] is Published,
    ensures
        apply_all(s, evs).slots.len() >= s.slots.len(),
        apply_all(s, evs).slots[i] == s.slots[i],
    decreases evs.len(),
{
    if evs.len() > 0 {
        let s1 = apply(s, evs[0]);
        assert(s1.slots.len() >= s.slots.len() && s1.slots[i] == s.slots[i]);
        lemma_published_outcome_stable(s1, evs.drop_first(), i);
    }
}

/// Requests with different fingerprints never coalesce: a registration for
/// one fingerprint neither creates, removes, nor redirects the slot of any
/// other, so each of two distinct fingerprints elects its own leader and
/// triggers its own downstream invocation.
pub proof fn lemma_distinct_fingerprints_independent(
    s: CoordinatorState,
    fp1: FingerprintView,
    fp2: FingerprintView,
)
    requires
        fp1 != fp2,
    ensures
        apply(s, DedupEvent::Register(fp1)).live.contains_key(fp2) == s.live.contains_key(fp2),
        s.live.contains_key(fp2) ==> apply(s, DedupEvent::Register(fp1)).live[fp2] == s.live[fp2],
        !s.live.contains_key(fp1) ==> apply(s, DedupEvent::Register(fp1)).live.contains_key(fp1),
{
}

/// No residual caching: once a fingerprint's slot is retired, a new
/// registration for the same fingerprint elects a fresh leader of a
/// brand-new pending slot, so the request after a resolved group triggers
/// a new downstream invocation.
pub proof fn lemma_fresh_after_retire(s: CoordinatorState, fp: FingerprintView)
    ensures
        !apply(s, DedupEvent::Retire(fp)).live.contains_key(fp),
        ({
            let renewed = apply(apply(s, DedupEvent::Retire(fp)), DedupEvent::Register(fp));
            &&& renewed.live.contains_key(fp)
            &&& renewed.live[fp] == s.slots.len()
            &&& renewed.slots[renewed.live[fp]] is Pending
        }),
{
}

/// Recovery from a vanished leader: if the leader is abandoned before
/// publishing, the slot closes while still empty and is retired; a waiting
/// follower therefore observes closure — never a stale value — and its
/// re-registration finds no live slot and elects it leader, so it completes
/// the request itself instead of hanging.
pub proof fn lemma_abandoned_leader_recovery(s: CoordinatorState, fp: FingerprintView)
    requires
        s.wf(),
        s.live.contains_key(fp),
        s.slots[s.live[fp]] is Pending,
    ensures
        ({
            let i = s.live[fp];
            let closed = apply(s, DedupEvent::Abandon(i));
            let retired = apply(closed, DedupEvent::Retire(fp));
            &&& closed.slots[i] is Closed
            &&& !retired.live.contains_key(fp)
            &&& ({
                let renewed = apply(retired, DedupEvent::Register(fp));
                renewed.live.contains_key(fp) && renewed.slots[renewed.live[fp]] is Pending
            })
        }),
{
}

/// The live map denoted by a list of entries.
pub open spec fn entries_map(s: Seq<(Fingerprint, usize)>) -> Map<FingerprintView, int>
    decreases s.len(),
{
    if s.len() == 0 {
        Map::empty()
    } else {
        entries_map(s.drop_last()).insert(s.last().0@, s.last().1 as int)
    }
}

/// With pairwise-distinct fingerprints, the entry list denotes the map that
/// holds exactly its fingerprints, each bound to its entry's slot index.
proof fn lemma_entries_map_props(s: Seq<(Fingerprint, usize)>)
    requires
        forall|i: int, j: int|
            0 <= i < j < s.len() ==> (#[trigger] s[i]).0@ != (#[trigger] s[j]).0@,
    ensures
        forall|v: FingerprintView|
            #[trigger] entries_map(s).contains_key(v) <==> exists|k: int|
                0 <= k < s.len() && (#[trigger] s[k]).0@ == v,
        forall|k: int|
            0 <= k < s.len() ==> entries_map(s).contains_key((#[trigger] s[k]).0@)
                && entries_map(s)[s[k].0@] == s[k].1 as int,
    decreases s.len(),
{
    if s.len() > 0 {
        let pre = s.drop_last();
        let last = s.last();
        let n = s.len() - 1;
        assert(forall|i: int| 0 <= i < pre.len() ==> #[trigger] pre[i] == s[i]);
        lemma_entries_map_props(pre);
        assert forall|v: FingerprintView| #[trigger]
            entries_map(s).contains_key(v) implies exists|k: int|
            0 <= k < s.len() && (#[trigger] s[k]).0@ == v by {
            if v == last.0@ {
                assert(0 <= n < s.len() && s[n].0@ == v);
            } else {
                assert(entries_map(pre).contains_key(v));
                let k = choose|k: int| 0 <= k < pre.len() && (#[trigger] pre[k]).0@ == v;
                assert(0 <= k < s.len() && s[k].0@ == v);
            }
        }
        assert forall|v: FingerprintView|
            (exists|k: int| 0 <= k < s.len() && (#[trigger] s[k]).0@ == v) implies #[trigger]
            entries_map(s).contains_key(v) by {
            let k = choose|k: int| 0 <= k < s.len() && (#[trigger] s[k]).0@ == v;
            if k < n {
                assert(pre[k].0@ == v);
                assert(entries_map(pre).contains_key(v));
            }
        }
        assert forall|k: int|
            0 <= k < s.len() implies entries_map(s).contains_key((#[trigger] s[k]).0@)
            && entries_map(s)[s[k].0@] == s[k].1 as int by {
            if k < n {
                assert(pre[k] == s[k]);
                assert(s[k].0@ != last.0@);
                assert(entries_map(pre)[pre[k].0@] == pre[k].1 as int);
            }
        }
    }
}

} // verus!
