//! Permits that admit a request for as long as they are held.

use std::sync::Arc;
use vstd::prelude::*;

verus! {

/// A permit that may lose what it stands for while it is held.
pub trait AdmissionPermitHealth: Send + Sync {
    /// Whether the permit still stands.
    fn is_healthy(&self) -> bool;

    /// Whether the permit may be lost, so that it has to be asked again and again.
    fn requires_health_poll(&self) -> (r: bool)
        default_ensures
            r,
    {
        true
    }
}

/// A place of a concurrency limiter of this process, which has it back once the last copy is gone.
#[derive(Debug)]
pub struct ConcurrencyPermit {
    pub place: Arc<()>,
}

impl AdmissionPermitHealth for ConcurrencyPermit {
    fn is_healthy(&self) -> (r: bool)
        ensures
            r,
    {
        true
    }

    fn requires_health_poll(&self) -> (r: bool)
        ensures
            !r,
    {
        false
    }
}

/// One permit: of this process, or of all processes together.
#[derive(Debug)]
pub enum HeldPermit<D> {
    Local(Arc<ConcurrencyPermit>),
    Distributed(Arc<D>),
}

impl<D: AdmissionPermitHealth> HeldPermit<D> {
    /// Asked whether it still stands, the permit gave this answer.
    pub open spec fn reported(self, healthy: bool) -> bool {
        match self {
            HeldPermit::Local(_) => healthy,
            HeldPermit::Distributed(permit) => call_ensures(D::is_healthy, (&*permit,), healthy),
        }
    }

    /// Asked whether it may be lost, the permit gave this answer.
    pub open spec fn may_be_lost(self, answer: bool) -> bool {
        match self {
            HeldPermit::Local(_) => !answer,
            HeldPermit::Distributed(permit) => call_ensures(
                D::requires_health_poll,
                (&*permit,),
                answer,
            ),
        }
    }

    fn is_healthy(&self) -> (r: bool)
        ensures
            self.reported(r),
    {
        match self {
            HeldPermit::Local(permit) => permit.is_healthy(),
            HeldPermit::Distributed(permit) => permit.is_healthy(),
        }
    }

    fn requires_health_poll(&self) -> (r: bool)
        ensures
            self.may_be_lost(r),
    {
        match self {
            HeldPermit::Local(permit) => permit.requires_health_poll(),
            HeldPermit::Distributed(permit) => permit.requires_health_poll(),
        }
    }
}

impl<D> Clone for HeldPermit<D> {
    fn clone(&self) -> (r: Self)
        ensures
            r == *self,
    {
        match self {
            HeldPermit::Local(permit) => HeldPermit::Local(permit.clone()),
            HeldPermit::Distributed(permit) => HeldPermit::Distributed(permit.clone()),
        }
    }
}

/// Permits that are held together. Copies hold the same permits: each is given back once the last
/// copy is gone.
#[derive(Debug)]
pub struct AdmissionPermit<D> {
    permits: Vec<HeldPermit<D>>,
}

impl<D> AdmissionPermit<D> {
    /// The permits.
    pub closed spec fn held(&self) -> Seq<HeldPermit<D>> {
        self.permits@
    }

    #[verifier::type_invariant]
    spec fn holds_something(self) -> bool {
        self.permits@.len() > 0
    }

    /// How many permits are held: at least one.
    pub fn permit_count(&self) -> (r: usize)
        ensures
            r == self.held().len(),
            r > 0,
    {
        proof {
            use_type_invariant(self);
        }
        self.permits.len()
    }

    fn append_to(&self, all: &mut Vec<HeldPermit<D>>)
        ensures
            final(all)@ == old(all)@ + self.held(),
            self.held().len() > 0,
    {
        proof {
            use_type_invariant(self);
        }
        let mut at: usize = 0;
        assert(all@ + self.permits@.take(0) =~= all@);
        while at < self.permits.len()
            invariant
                at <= self.permits@.len(),
                all@ == old(all)@ + self.permits@.take(at as int),
            decreases self.permits@.len() - at,
        {
            all.push(self.permits[at].clone());
            assert(all@ =~= old(all)@ + self.permits@.take(at + 1));
            at += 1;
        }
        assert(self.permits@.take(at as int) =~= self.permits@);
    }
}

impl<D> Clone for AdmissionPermit<D> {
    fn clone(&self) -> (r: Self)
        ensures
            r.held() == self.held(),
    {
        let mut permits: Vec<HeldPermit<D>> = Vec::new();
        self.append_to(&mut permits);
        assert(permits@ =~= self.held());
        AdmissionPermit { permits }
    }
}

/// The permits of all, one list behind the other, from position `from` on.
pub open spec fn held_together<D>(permits: Seq<AdmissionPermit<D>>, from: nat) -> Seq<HeldPermit<D>>
    decreases permits.len() - from,
{
    if from >= permits.len() {
        Seq::empty()
    } else {
        permits[from as int].held() + held_together(permits, from + 1)
    }
}

impl<D: AdmissionPermitHealth> AdmissionPermit<D> {
    /// The permits that were taken, the local one first, if there are any.
    pub fn from_parts(local: Option<ConcurrencyPermit>, distributed: Option<D>) -> (r: Option<Self>)
        ensures
            match (local, distributed) {
                (None, None) => r is None,
                (Some(l), None) => r is Some && r->0.held() == seq![
                    HeldPermit::<D>::Local(Arc::new(l)),
                ],
                (None, Some(d)) => r is Some && r->0.held() == seq![
                    HeldPermit::Distributed(Arc::new(d)),
                ],
                (Some(l), Some(d)) => r is Some && r->0.held() == seq![
                    HeldPermit::Local(Arc::new(l)),
                    HeldPermit::Distributed(Arc::new(d)),
                ],
            },
    {
        let mut permits: Vec<HeldPermit<D>> = Vec::new();
        if let Some(local) = local {
            permits.push(HeldPermit::Local(Arc::new(local)));
        }
        if let Some(distributed) = distributed {
            permits.push(HeldPermit::Distributed(Arc::new(distributed)));
        }
        if permits.len() == 0 {
            return None;
        }
        Some(AdmissionPermit { permits })
    }

    /// All permits in one, if there are any.
    pub fn combine(permits: Vec<AdmissionPermit<D>>) -> (r: Option<Self>)
        ensures
            r is None <==> permits@.len() == 0,
            r matches Some(permit) ==> permit.held() == held_together(permits@, 0),
    {
        let mut all: Vec<HeldPermit<D>> = Vec::new();
        let mut at: usize = 0;
        assert(Seq::<HeldPermit<D>>::empty() + held_together(permits@, 0) =~= held_together(
            permits@,
            0,
        ));
        while at < permits.len()
            invariant
                at <= permits@.len(),
                all@.len() >= at,
                held_together(permits@, 0) == all@ + held_together(permits@, at as nat),
            decreases permits@.len() - at,
        {
            let ghost before = all@;
            permits[at].append_to(&mut all);
            assert(before + (permits@[at as int].held() + held_together(permits@, (at + 1) as nat))
                =~= all@ + held_together(permits@, (at + 1) as nat));
            at += 1;
        }
        assert(all@ + Seq::<HeldPermit<D>>::empty() =~= all@);
        if all.len() == 0 {
            return None;
        }
        Some(AdmissionPermit { permits: all })
    }

    /// Asked whether they all still stand, the permits gave this answer.
    pub open spec fn stands(&self, answer: bool) -> bool {
        if answer {
            forall|i: int| 0 <= i < self.held().len() ==> (#[trigger] self.held()[i]).reported(true)
        } else {
            exists|i: int|
                0 <= i < self.held().len() && (#[trigger] self.held()[i]).reported(false)
        }
    }

    /// Asked whether one of them may be lost, the permits gave this answer.
    pub open spec fn may_be_lost(&self, answer: bool) -> bool {
        if answer {
            exists|i: int|
                0 <= i < self.held().len() && (#[trigger] self.held()[i]).may_be_lost(true)
        } else {
            forall|i: int|
                0 <= i < self.held().len() ==> (#[trigger] self.held()[i]).may_be_lost(false)
        }
    }

    /// Whether all permits still stand: they are asked in turn, up to the first that does not.
    pub fn is_healthy(&self) -> (r: bool)
        ensures
            self.stands(r),
    {
        let mut at: usize = 0;
        while at < self.permits.len()
            invariant
                at <= self.permits@.len(),
                forall|i: int| 0 <= i < at ==> (#[trigger] self.held()[i]).reported(true),
            decreases self.permits@.len() - at,
        {
            if !self.permits[at].is_healthy() {
                assert(self.held()[at as int].reported(false));
                return false;
            }
            at += 1;
        }
        true
    }

    /// Whether one of the permits may be lost: they are asked in turn, up to the first that may.
    pub fn requires_health_poll(&self) -> (r: bool)
        ensures
            self.may_be_lost(r),
    {
        let mut at: usize = 0;
        while at < self.permits.len()
            invariant
                at <= self.permits@.len(),
                forall|i: int| 0 <= i < at ==> (#[trigger] self.held()[i]).may_be_lost(false),
            decreases self.permits@.len() - at,
        {
            if self.permits[at].requires_health_poll() {
                assert(self.held()[at as int].may_be_lost(true));
                return true;
            }
            at += 1;
        }
        false
    }
}

impl<D> From<ConcurrencyPermit> for AdmissionPermit<D> {
    /// The permit of a gate of this process alone.
    fn from(value: ConcurrencyPermit) -> (r: Self)
        ensures
            r.held() == seq![HeldPermit::<D>::Local(Arc::new(value))],
    {
        let mut permits: Vec<HeldPermit<D>> = Vec::new();
        permits.push(HeldPermit::Local(Arc::new(value)));
        AdmissionPermit { permits }
    }
}

impl<D> vstd::std_specs::convert::FromSpecImpl<ConcurrencyPermit> for AdmissionPermit<D> {
    open spec fn obeys_from_spec() -> bool {
        false
    }

    open spec fn from_spec(value: ConcurrencyPermit) -> Self {
        arbitrary()
    }
}

proof fn lemma_held_together<D>(permits: Seq<AdmissionPermit<D>>, from: nat, at: int, i: int) -> (r:
    int)
    requires
        from <= at < permits.len(),
        0 <= i < permits[at].held().len(),
    ensures
        0 <= r < held_together(permits, from).len(),
        held_together(permits, from)[r] == permits[at].held()[i],
    decreases permits.len() - from,
{
    if from == at {
        i
    } else {
        permits[from as int].held().len() + lemma_held_together(permits, from + 1, at, i)
    }
}

proof fn lemma_held_by_one<D>(permits: Seq<AdmissionPermit<D>>, from: nat, i: int) -> (r: (int, int))
    requires
        0 <= i < held_together(permits, from).len(),
    ensures
        from <= r.0 < permits.len(),
        0 <= r.1 < permits[r.0].held().len(),
        held_together(permits, from)[i] == permits[r.0].held()[r.1],
    decreases permits.len() - from,
{
    let first = permits[from as int].held();
    if i < first.len() {
        (from as int, i)
    } else {
        lemma_held_by_one(permits, from + 1, i - first.len())
    }
}

/// Permits that are held together stand exactly if each of those that they were made of stands, where
/// no part gives now one answer and now the other.
pub proof fn combined_permits_stand_together<D: AdmissionPermitHealth>(
    permits: Seq<AdmissionPermit<D>>,
    combined: AdmissionPermit<D>,
    answers: Seq<bool>,
    answer: bool,
)
    requires
        combined.held() == held_together(permits, 0),
        forall|i: int|
            0 <= i < combined.held().len() ==> !((#[trigger] combined.held()[i]).reported(true)
                && combined.held()[i].reported(false)),
        answers.len() == permits.len(),
        forall|i: int| 0 <= i < permits.len() ==> (#[trigger] permits[i]).stands(answers[i]),
        combined.stands(answer),
    ensures
        answer == forall|i: int| 0 <= i < answers.len() ==> answers[i],
{
    if answer {
        assert forall|at: int| 0 <= at < answers.len() implies answers[at] by {
            if !answers[at] {
                assert(permits[at].stands(false));
                let i = choose|i: int|
                    0 <= i < permits[at].held().len() && (#[trigger] permits[at].held()[i]).reported(
                        false,
                    );
                let j = lemma_held_together(permits, 0, at, i);
                assert(combined.held()[j].reported(true));
            }
        }
    } else {
        let j = choose|j: int|
            0 <= j < combined.held().len() && (#[trigger] combined.held()[j]).reported(false);
        let (at, i) = lemma_held_by_one(permits, 0, j);
        assert(permits[at].stands(answers[at]));
        if answers[at] {
            assert(permits[at].held()[i].reported(true));
        }
    }
}

/// Permits that are held together may be lost exactly if one of those that they were made of may,
/// where no part gives now one answer and now the other.
pub proof fn combined_permits_may_be_lost_if_one_may<D: AdmissionPermitHealth>(
    permits: Seq<AdmissionPermit<D>>,
    combined: AdmissionPermit<D>,
    answers: Seq<bool>,
    answer: bool,
)
    requires
        combined.held() == held_together(permits, 0),
        forall|i: int|
            0 <= i < combined.held().len() ==> !((#[trigger] combined.held()[i]).may_be_lost(true)
                && combined.held()[i].may_be_lost(false)),
        answers.len() == permits.len(),
        forall|i: int| 0 <= i < permits.len() ==> (#[trigger] permits[i]).may_be_lost(answers[i]),
        combined.may_be_lost(answer),
    ensures
        answer == exists|i: int| 0 <= i < answers.len() && answers[i],
{
    if answer {
        let j = choose|j: int|
            0 <= j < combined.held().len() && (#[trigger] combined.held()[j]).may_be_lost(true);
        let (at, i) = lemma_held_by_one(permits, 0, j);
        assert(permits[at].may_be_lost(answers[at]));
        if !answers[at] {
            assert(permits[at].held()[i].may_be_lost(false));
        }
    } else {
        assert forall|at: int| 0 <= at < answers.len() implies !answers[at] by {
            if answers[at] {
                assert(permits[at].may_be_lost(true));
                let i = choose|i: int|
                    0 <= i < permits[at].held().len() && (
                    #[trigger] permits[at].held()[i]).may_be_lost(true);
                let j = lemma_held_together(permits, 0, at, i);
                assert(combined.held()[j].may_be_lost(false));
            }
        }
    }
}

/// How work under a permit is watched.
#[derive(Debug, Clone, Copy, PartialEq, Eq, Structural)]
pub enum Supervision {
    /// The permit cannot be lost: the work runs to its end.
    RunToEnd,
    /// The permit may be lost: it is asked again and again.
    Poll,
}

/// How work under a permit is watched: only a permit that may be lost is asked again and again.
pub fn supervision_for<D: AdmissionPermitHealth>(permit: Option<&AdmissionPermit<D>>) -> (r:
    Supervision)
    ensures
        permit is None ==> r is RunToEnd,
        permit matches Some(permit) ==> permit.may_be_lost(r is Poll),
{
    match permit {
        None => Supervision::RunToEnd,
        Some(permit) => if permit.requires_health_poll() {
            Supervision::Poll
        } else {
            Supervision::RunToEnd
        },
    }
}

/// What happens while work is done under a permit that is asked again and again.
#[derive(Debug, Clone, Copy, PartialEq, Eq, Structural)]
pub enum HoldEvent {
    /// The work is about to go on.
    Resume,
    /// The work is done.
    Finished,
    /// It is time to ask the permit.
    Tick,
}

/// Whether work goes on.
#[derive(Debug, Clone, Copy, PartialEq, Eq, Structural)]
pub enum HoldStep {
    Continue,
    Stop,
}

/// Whether work under a permit goes on: not once it is done, nor once the permit is lost.
pub fn hold_step(event: HoldEvent, healthy: bool) -> (r: HoldStep)
    ensures
        r is Continue <==> !(event is Finished) && healthy,
{
    match event {
        HoldEvent::Finished => HoldStep::Stop,
        HoldEvent::Resume | HoldEvent::Tick => if healthy {
            HoldStep::Continue
        } else {
            HoldStep::Stop
        },
    }
}

/// What happens while the body of a response is sent under a permit that is asked again and again.
#[derive(Debug, Clone, Copy, PartialEq, Eq, Structural)]
pub enum BodyEvent {
    /// The body is about to go on.
    Resume,
    /// The next part of the body is there.
    Item,
    /// The body is at its end.
    End,
    /// It is time to ask the permit.
    Tick,
}

/// What is done about the body of a response.
#[derive(Debug, Clone, Copy, PartialEq, Eq, Structural)]
pub enum BodyStep {
    /// The part that is there is sent.
    Send,
    /// Nothing is sent yet.
    Wait,
    /// The response ends.
    Stop,
}

/// What is done about the body of a response: a part is sent only while the permit stands, and a
/// permit that is lost ends the response.
pub fn body_step(event: BodyEvent, healthy: bool) -> (r: BodyStep)
    ensures
        r is Send <==> event is Item && healthy,
        r is Stop <==> event is End || !healthy,
{
    match event {
        BodyEvent::End => BodyStep::Stop,
        BodyEvent::Item => if healthy {
            BodyStep::Send
        } else {
            BodyStep::Stop
        },
        BodyEvent::Resume | BodyEvent::Tick => if healthy {
            BodyStep::Wait
        } else {
            BodyStep::Stop
        },
    }
}

} // verus!
