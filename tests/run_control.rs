use lattelab::buffers::BufferPair;
use lattelab::engine::{Action, Engine, Phase};
use lattelab::error::LbmError;

fn drain(mut e: Engine) -> Vec<Action> {
    let mut out = Vec::new();
    while !e.is_done() {
        out.push(e.next_action().unwrap());
    }
    out
}

#[test]
fn schedule_with_periodic_readbacks() {
    let actions = drain(Engine::new(3, 2));
    assert_eq!(
        actions,
        vec![
            Action::Initialize,
            Action::Dispatch { step: 0 },
            Action::Readback { step: 0 },
            Action::Dispatch { step: 1 },
            Action::Dispatch { step: 2 },
            Action::Readback { step: 2 },
            Action::FinalReadback,
        ]
    );
}

#[test]
fn schedule_without_readbacks() {
    let actions = drain(Engine::new(2, 0));
    assert_eq!(
        actions,
        vec![Action::Initialize, Action::Dispatch { step: 0 }, Action::Dispatch { step: 1 }, Action::FinalReadback]
    );
    assert_eq!(drain(Engine::new(0, 5)), vec![Action::Initialize, Action::FinalReadback]);
}

#[test]
fn dispatch_after_done_is_refused() {
    let mut e = Engine::new(1, 1);
    while !e.is_done() {
        e.next_action().unwrap();
    }
    assert_eq!(e.phase, Phase::Done);
    assert!(matches!(e.next_action(), Err(LbmError::EngineFinalized)));
    assert!(matches!(e.next_action(), Err(LbmError::EngineFinalized)));
}

#[test]
fn phases_move_forward() {
    let mut e = Engine::new(2, 1);
    assert_eq!(e.phase, Phase::Uninitialized);
    e.next_action().unwrap();
    assert_eq!(e.phase, Phase::Ready);
    e.next_action().unwrap();
    assert_eq!(e.phase, Phase::Running);
    assert_eq!(e.steps_done, 1);
}

#[test]
fn swapping_twice_restores_roles() {
    let a = vec![1.0f32, 2.0];
    let b = vec![3.0f32, 4.0];
    let (pa, pb) = (a.as_ptr(), b.as_ptr());
    let mut pair = BufferPair::new(a, b);
    pair.swap();
    assert_eq!(pair.current.as_ptr(), pb);
    assert_eq!(pair.next.as_ptr(), pa);
    assert!(pair.flipped);
    pair.swap();
    assert_eq!(pair.current.as_ptr(), pa);
    assert_eq!(pair.next.as_ptr(), pb);
    assert!(!pair.flipped);
}
