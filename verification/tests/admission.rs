use aether_usage_policy::admission::{
    body_step, hold_step, supervision_for, AdmissionPermit, AdmissionPermitHealth, BodyEvent,
    BodyStep, ConcurrencyPermit, HoldEvent, HoldStep, Supervision,
};
use aether_usage_policy::websocket_admission::responses_websocket_plan_permit_is_healthy;
use std::sync::atomic::{AtomicBool, Ordering};
use std::sync::Arc;

struct TestPermitHealth(Arc<AtomicBool>);

impl AdmissionPermitHealth for TestPermitHealth {
    fn is_healthy(&self) -> bool {
        self.0.load(Ordering::Acquire)
    }
}

struct Snapshot {
    in_flight: usize,
}

struct ConcurrencyGate {
    limit: usize,
    places: Arc<()>,
}

impl ConcurrencyGate {
    fn new(limit: usize) -> Self {
        ConcurrencyGate { limit, places: Arc::new(()) }
    }

    fn snapshot(&self) -> Snapshot {
        Snapshot { in_flight: Arc::strong_count(&self.places) - 1 }
    }

    fn try_acquire(&self) -> Result<ConcurrencyPermit, ()> {
        if self.snapshot().in_flight >= self.limit {
            return Err(());
        }
        Ok(ConcurrencyPermit { place: Arc::clone(&self.places) })
    }
}

#[test]
fn holds_permit_until_response_body_is_consumed() {
    let gate = ConcurrencyGate::new(1);
    let permit = gate.try_acquire().expect("first permit");
    let permit = AdmissionPermit::<TestPermitHealth>::from(permit);
    let mut parts = vec![b"ok".to_vec()].into_iter();
    let mut body = Vec::new();

    assert_eq!(supervision_for(Some(&permit)), Supervision::RunToEnd);
    assert_eq!(gate.snapshot().in_flight, 1);
    assert!(gate.try_acquire().is_err(), "permit should still be held");

    loop {
        let part = parts.next();
        let event = if part.is_some() { BodyEvent::Item } else { BodyEvent::End };
        match body_step(event, permit.is_healthy()) {
            BodyStep::Send => body.extend(part.unwrap_or_default()),
            BodyStep::Wait => {}
            BodyStep::Stop => break,
        }
    }
    drop(permit);
    assert_eq!(body, b"ok");
    assert_eq!(gate.snapshot().in_flight, 0);
}

#[test]
fn cloned_permit_releases_capacity_only_after_last_clone_drops() {
    let gate = ConcurrencyGate::new(1);
    let permit =
        AdmissionPermit::<TestPermitHealth>::from(gate.try_acquire().expect("first permit"));
    let cloned = permit.clone();

    drop(permit);
    assert_eq!(gate.snapshot().in_flight, 1);
    assert!(gate.try_acquire().is_err(), "capacity should remain held by the clone");

    drop(cloned);
    assert_eq!(gate.snapshot().in_flight, 0);
    assert!(gate.try_acquire().is_ok(), "last clone should release capacity");
}

#[test]
fn holds_combined_local_and_distributed_permit_until_future_finishes() {
    let local_gate = ConcurrencyGate::new(1);
    let local = local_gate.try_acquire().expect("local permit");
    let distributed_gate = ConcurrencyGate::new(1);
    let distributed = distributed_gate.try_acquire().expect("distributed permit");

    let permit = AdmissionPermit::from_parts(Some(local), Some(distributed)).expect("permit");
    assert_eq!(supervision_for(Some(&permit)), Supervision::RunToEnd);
    assert!(local_gate.try_acquire().is_err(), "local permit should still be held");
    assert!(distributed_gate.try_acquire().is_err(), "distributed permit should still be held");

    drop(permit);
    assert_eq!(local_gate.snapshot().in_flight, 0);
    assert_eq!(distributed_gate.snapshot().in_flight, 0);
}

#[test]
fn unhealthy_distributed_permit_cancels_held_future() {
    let local_gate = ConcurrencyGate::new(1);
    let local = local_gate.try_acquire().expect("local permit");
    let healthy = Arc::new(AtomicBool::new(true));
    let permit =
        AdmissionPermit::from_parts(Some(local), Some(TestPermitHealth(Arc::clone(&healthy))))
            .expect("permit");

    assert_eq!(supervision_for(Some(&permit)), Supervision::Poll);
    assert_eq!(hold_step(HoldEvent::Resume, permit.is_healthy()), HoldStep::Continue);
    assert_eq!(hold_step(HoldEvent::Tick, permit.is_healthy()), HoldStep::Continue);
    healthy.store(false, Ordering::Release);
    assert_eq!(hold_step(HoldEvent::Tick, permit.is_healthy()), HoldStep::Stop);

    drop(permit);
    assert_eq!(local_gate.snapshot().in_flight, 0);
}

#[test]
fn unhealthy_distributed_permit_ends_idle_response_body() {
    let local_gate = ConcurrencyGate::new(1);
    let local = local_gate.try_acquire().expect("local permit");
    let healthy = Arc::new(AtomicBool::new(true));
    let permit =
        AdmissionPermit::from_parts(Some(local), Some(TestPermitHealth(Arc::clone(&healthy))))
            .expect("combined permit");

    assert_eq!(body_step(BodyEvent::Resume, permit.is_healthy()), BodyStep::Wait);
    assert_eq!(body_step(BodyEvent::Tick, permit.is_healthy()), BodyStep::Wait);
    healthy.store(false, Ordering::Release);
    assert_eq!(body_step(BodyEvent::Tick, permit.is_healthy()), BodyStep::Stop);

    drop(permit);
    assert_eq!(local_gate.snapshot().in_flight, 0);
}

#[test]
fn parts_are_sent_only_while_the_permit_stands() {
    assert_eq!(body_step(BodyEvent::Item, true), BodyStep::Send);
    assert_eq!(body_step(BodyEvent::Item, false), BodyStep::Stop);
    assert_eq!(body_step(BodyEvent::Resume, false), BodyStep::Stop);
    assert_eq!(body_step(BodyEvent::End, true), BodyStep::Stop);
    assert_eq!(hold_step(HoldEvent::Finished, true), HoldStep::Stop);
    assert_eq!(hold_step(HoldEvent::Resume, false), HoldStep::Stop);
}

#[test]
fn permits_are_combined_one_behind_the_other() {
    let gate = ConcurrencyGate::new(9);
    let one = || AdmissionPermit::<TestPermitHealth>::from(gate.try_acquire().unwrap());
    assert!(AdmissionPermit::<TestPermitHealth>::combine(Vec::new()).is_none());
    assert!(AdmissionPermit::<TestPermitHealth>::from_parts(None, None).is_none());
    let both = AdmissionPermit::combine(vec![one(), one()]).unwrap();
    assert_eq!(both.permit_count(), 2);
    assert_eq!(gate.snapshot().in_flight, 2);
    let healthy = Arc::new(AtomicBool::new(true));
    let lost =
        AdmissionPermit::from_parts(None, Some(TestPermitHealth(Arc::clone(&healthy)))).unwrap();
    let all = AdmissionPermit::combine(vec![both, lost]).unwrap();
    assert_eq!(all.permit_count(), 3);
    assert!(all.requires_health_poll());
    assert!(responses_websocket_plan_permit_is_healthy(Some(&all)));
    healthy.store(false, Ordering::Release);
    assert!(!responses_websocket_plan_permit_is_healthy(Some(&all)));
    assert!(responses_websocket_plan_permit_is_healthy::<TestPermitHealth>(None));
    drop(all);
    assert_eq!(gate.snapshot().in_flight, 0);
}

#[test]
fn a_combined_permit_answers_for_all_of_its_parts() {
    let gate = ConcurrencyGate::new(9);
    let local = || AdmissionPermit::<TestPermitHealth>::from(gate.try_acquire().unwrap());
    for first in [true, false] {
        for second in [true, false] {
            let permits: Vec<_> = [first, second]
                .into_iter()
                .map(|healthy| {
                    let health = TestPermitHealth(Arc::new(AtomicBool::new(healthy)));
                    AdmissionPermit::from_parts(Some(gate.try_acquire().unwrap()), Some(health))
                        .unwrap()
                })
                .collect();
            assert_eq!(permits[0].is_healthy(), first);
            assert_eq!(permits[1].is_healthy(), second);
            let combined = AdmissionPermit::combine(permits).unwrap();
            assert_eq!(combined.permit_count(), 4);
            assert_eq!(combined.is_healthy(), first && second);
            assert!(combined.requires_health_poll());
        }
    }
    let combined = AdmissionPermit::combine(vec![local(), local()]).unwrap();
    assert!(combined.is_healthy());
    assert!(!combined.requires_health_poll());
    let single = AdmissionPermit::combine(vec![local()]).unwrap();
    assert_eq!(single.permit_count(), 1);
}
