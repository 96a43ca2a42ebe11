use sound_garden::voices::{RoundRobin, VoiceAllocator, VoiceState};

#[test]
fn round_robin_takes_each_voice_in_turn() {
    let mut rr = RoundRobin::new(2);
    assert_eq!(rr.current(), None);
    assert_eq!(rr.allocate(), Some(0));
    assert_eq!(rr.allocate(), Some(1));
    assert_eq!(rr.allocate(), Some(0));
    assert_eq!(rr.current(), Some(0));
}

#[test]
fn round_robin_without_voices_takes_none() {
    let mut rr = RoundRobin::new(0);
    assert_eq!(rr.allocate(), None);
    assert_eq!(rr.current(), None);
}

#[test]
fn round_robin_migration_wraps_current_voice_when_shrinking() {
    let mut old = RoundRobin::new(3);
    old.allocate();
    old.allocate();
    old.allocate();
    assert_eq!(old.current(), Some(2));
    let mut new = RoundRobin::new(2);
    new.migrate(&old);
    assert_eq!(new.current(), Some(0));
    assert_eq!(new.allocate(), Some(1));
    let mut empty = RoundRobin::new(0);
    empty.migrate(&old);
    assert_eq!(empty.current(), None);
}

#[test]
fn note_on_takes_never_used_voices_first() {
    let mut alloc = VoiceAllocator::new(2);
    assert_eq!(alloc.note_on(0, 60), Some((0, false)));
    assert_eq!(alloc.note_on(0, 64), Some((1, false)));
    let v = alloc.voice(0);
    assert_eq!((v.channel, v.note, v.state, v.trigger_order), (0, 60, VoiceState::Held, 0));
    assert_eq!(alloc.voice(1).trigger_order, 1);
}

#[test]
fn note_off_releases_matching_voice_only() {
    let mut alloc = VoiceAllocator::new(2);
    alloc.note_on(0, 60);
    alloc.note_on(0, 64);
    assert_eq!(alloc.note_off(0, 60), Some(0));
    assert_eq!(alloc.voice(0).state, VoiceState::Released);
    assert_eq!(alloc.voice(0).release_order, 2);
    assert_eq!(alloc.voice(1).state, VoiceState::Held);
    assert_eq!(alloc.note_off(1, 64), None);
    assert_eq!(alloc.note_off(0, 61), None);
}

#[test]
fn repeated_same_note_releases_oldest_matching_held_voice() {
    let mut alloc = VoiceAllocator::new(2);
    alloc.note_on(0, 60);
    alloc.note_on(0, 60);
    assert_eq!(alloc.note_off(0, 60), Some(0));
    assert_eq!(alloc.note_off(0, 60), Some(1));
    assert_eq!(alloc.note_off(0, 60), None);
}

#[test]
fn released_voice_longest_ago_is_reused_before_stealing() {
    let mut alloc = VoiceAllocator::new(3);
    alloc.note_on(0, 60);
    alloc.note_on(0, 62);
    alloc.note_on(0, 64);
    alloc.note_off(0, 64);
    alloc.note_off(0, 60);
    assert_eq!(alloc.allocate_voice(), Some(2));
    assert_eq!(alloc.note_on(0, 67), Some((2, false)));
    assert_eq!(alloc.note_on(0, 69), Some((0, false)));
}

#[test]
fn stealing_forces_one_sample_retrigger() {
    let mut alloc = VoiceAllocator::new(1);
    alloc.note_on(0, 60);
    assert_eq!(alloc.note_on(0, 72), Some((0, true)));
    assert!(alloc.voice(0).pending_retrigger);
    assert_eq!(alloc.take_retriggers(), vec![0]);
    assert!(!alloc.voice(0).pending_retrigger);
    assert_eq!(alloc.take_retriggers(), Vec::<usize>::new());
}

#[test]
fn empty_allocator_ignores_notes() {
    let mut alloc = VoiceAllocator::new(0);
    assert_eq!(alloc.allocate_voice(), None);
    assert_eq!(alloc.note_on(0, 60), None);
    assert_eq!(alloc.note_off(0, 60), None);
}

#[test]
fn migrate_preserves_voice_state() {
    let mut old = VoiceAllocator::new(1);
    old.note_on(3, 60);
    let mut new = VoiceAllocator::new(2);
    new.migrate(&old);
    assert_eq!(new.voice(0).note, 60);
    assert_eq!(new.voice(0).channel, 3);
    assert_eq!(new.voice(1).state, VoiceState::NeverUsed);
    assert_eq!(new.note_on(0, 64), Some((1, false)));
    assert_eq!(new.voice(1).trigger_order, 1);
}

#[test]
fn releasing_a_key_right_after_striking_it_frees_the_struck_voice() {
    let mut voices = VoiceAllocator::new(3);
    voices.note_on(0, 60);
    voices.note_on(0, 64);
    let (taken, _) = voices.note_on(1, 67).unwrap();
    assert_eq!(voices.note_off(1, 67), Some(taken));
    for i in 0..voices.len() {
        let slot = voices.voice(i);
        assert!(!(slot.state == VoiceState::Held && slot.channel == 1 && slot.note == 67));
    }
}
