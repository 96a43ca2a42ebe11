use sound_garden::midi::{decode_message, pack_meta, unpack_meta, MidiEventKind, NoteMessage};

#[test]
fn decodes_note_on_and_velocity_zero_as_off() {
    assert_eq!(
        decode_message(&[0x91, 60, 64]),
        Some(NoteMessage { kind: MidiEventKind::NoteOn, channel: 1, note: 60, velocity: 64 })
    );
    assert_eq!(decode_message(&[0x91, 60, 0]).map(|event| event.kind), Some(MidiEventKind::NoteOff));
}

#[test]
fn decodes_note_off_and_ignores_other_messages() {
    assert_eq!(
        decode_message(&[0x8f, 200, 5]),
        Some(NoteMessage { kind: MidiEventKind::NoteOff, channel: 15, note: 127, velocity: 0 })
    );
    assert_eq!(decode_message(&[0xb0, 7, 100]), None);
    assert_eq!(decode_message(&[0x90, 60]), None);
    assert_eq!(decode_message(&[]), None);
}

#[test]
fn packed_slot_word_reads_back_the_event() {
    let w = pack_meta(MidiEventKind::NoteOn, 3, 60);
    assert_eq!(w, 1 | (3 << 8) | (60 << 16));
    assert_eq!(unpack_meta(w), (MidiEventKind::NoteOn, 3, 60));
    let w = pack_meta(MidiEventKind::NoteOff, 15, 127);
    assert_eq!(w, 2 | (15 << 8) | (127 << 16));
    assert_eq!(unpack_meta(w), (MidiEventKind::NoteOff, 15, 127));
}

#[test]
fn empty_slot_word_reads_as_note_off() {
    assert_eq!(unpack_meta(0), (MidiEventKind::NoteOff, 0, 0));
}
