use labalaba::net::{classify, reclaim_next, PortState, ReclaimAction, ReclaimEvent};

#[test]
fn taken_but_unconnectable_is_blocked_not_free() {
    assert_eq!(classify(false, false), PortState::Blocked);
}

#[test]
fn classify_covers_every_case() {
    assert_eq!(classify(true, false), PortState::Free);
    assert_eq!(classify(true, true), PortState::Free);
    assert_eq!(classify(false, true), PortState::Serving);
    assert_eq!(classify(false, false), PortState::Blocked);
}

#[test]
fn reclaim_steps() {
    assert_eq!(reclaim_next(ReclaimEvent::PortProbed(PortState::Free)), ReclaimAction::Done);
    assert_eq!(reclaim_next(ReclaimEvent::PortProbed(PortState::Serving)), ReclaimAction::Done);
    assert_eq!(reclaim_next(ReclaimEvent::PortProbed(PortState::Blocked)), ReclaimAction::NextPid);
    assert_eq!(reclaim_next(ReclaimEvent::PidChecked { ours: false }), ReclaimAction::NextPid);
    assert_eq!(reclaim_next(ReclaimEvent::PidChecked { ours: true }), ReclaimAction::Kill);
    assert_eq!(reclaim_next(ReclaimEvent::KillFinished { ok: false }), ReclaimAction::NextPid);
    assert_eq!(reclaim_next(ReclaimEvent::KillFinished { ok: true }), ReclaimAction::RecordAndProbe);
}
