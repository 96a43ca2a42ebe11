//! MIDI note events, and the decoding of MIDI input messages.
use vstd::prelude::*;

verus! {

/// Whether a note starts or stops.
#[derive(Clone, Copy, Debug, PartialEq, Eq, Structural)]
pub enum MidiEventKind {
    NoteOn,
    NoteOff,
}

/// A note event as it comes in: the channel and note (at most 15 and
/// 127) and, for a note-on, the velocity byte (1 to 127; 0 for a note-off).
#[derive(Clone, Copy, Debug, PartialEq, Eq, Structural)]
pub struct NoteMessage {
    pub kind: MidiEventKind,
    pub channel: u8,
    pub note: u8,
    pub velocity: u8,
}

/// The note event a MIDI message carries: a note-off (status `0x8n`) or a
/// note-on (`0x9n`) with at least two data bytes, a note-on of velocity 0
/// being a note-off; `None` for any other message.
pub open spec fn spec_decode(m: Seq<u8>) -> Option<NoteMessage> {
    if m.len() < 3 {
        None
    } else {
        let status = m[0];
        let channel = (status % 16) as u8;
        let note = if m[1] > 127 { 127u8 } else { m[1] };
        if status / 16 == 8 {
            Some(NoteMessage { kind: MidiEventKind::NoteOff, channel, note, velocity: 0 })
        } else if status / 16 == 9 {
            if m[2] > 0 {
                Some(NoteMessage {
                    kind: MidiEventKind::NoteOn,
                    channel,
                    note,
                    velocity: if m[2] > 127 { 127u8 } else { m[2] },
                })
            } else {
                Some(NoteMessage { kind: MidiEventKind::NoteOff, channel, note, velocity: 0 })
            }
        } else {
            None
        }
    }
}

/// Decodes a MIDI input message.
pub fn decode_message(message: &[u8]) -> (r: Option<NoteMessage>)
    ensures
        r == spec_decode(message@),
{
    if message.len() < 3 {
        return None;
    }
    let status = message[0];
    let channel = status % 16;
    let note = if message[1] > 127 {
        127
    } else {
        message[1]
    };
    let kind = status / 16;
    if kind == 8 {
        Some(NoteMessage { kind: MidiEventKind::NoteOff, channel, note, velocity: 0 })
    } else if kind == 9 {
        if message[2] > 0 {
            let velocity = if message[2] > 127 {
                127
            } else {
                message[2]
            };
            Some(NoteMessage { kind: MidiEventKind::NoteOn, channel, note, velocity })
        } else {
            Some(NoteMessage { kind: MidiEventKind::NoteOff, channel, note, velocity: 0 })
        }
    } else {
        None
    }
}

/// What a message decodes to, byte by byte: a message of fewer than three
/// bytes, or whose status byte is not `0x80`..`0x9F`, carries no note. A
/// status `0x8n` is a note-off on channel `n`; a status `0x9n` is a note-on
/// on channel `n` with the third byte as its velocity, unless that byte is 0,
/// which makes it a note-off. The second byte is the note.
pub proof fn lemma_decode_bytes(m: Seq<u8>)
    ensures
        m.len() < 3 ==> spec_decode(m) is None,
        m.len() >= 3 && (m[0] < 0x80 || m[0] >= 0xA0) ==> spec_decode(m) is None,
        m.len() >= 3 && 0x80 <= m[0] < 0x90 && m[1] <= 127 ==> spec_decode(m) == Some(
            NoteMessage { kind: MidiEventKind::NoteOff, channel: (m[0] - 0x80) as u8, note: m[1], velocity: 0 },
        ),
        m.len() >= 3 && 0x90 <= m[0] < 0xA0 && m[1] <= 127 && 1 <= m[2] <= 127 ==> spec_decode(m) == Some(
            NoteMessage { kind: MidiEventKind::NoteOn, channel: (m[0] - 0x90) as u8, note: m[1], velocity: m[2] },
        ),
        m.len() >= 3 && 0x90 <= m[0] < 0xA0 && m[1] <= 127 && m[2] == 0 ==> spec_decode(m) == Some(
            NoteMessage { kind: MidiEventKind::NoteOff, channel: (m[0] - 0x90) as u8, note: m[1], velocity: 0 },
        ),
{
}

/// Only a note-on message of velocity 0 turns into a note-off: every other
/// note-on keeps its velocity, which is never 0.
pub proof fn lemma_note_on_keeps_velocity(m: Seq<u8>)
    requires
        m.len() >= 3,
        0x90 <= m[0] < 0xA0,
    ensures
        m[2] > 0 <==> spec_decode(m)->Some_0.kind == MidiEventKind::NoteOn,
        m[2] > 0 ==> spec_decode(m)->Some_0.velocity > 0,
        0 < m[2] <= 127 ==> spec_decode(m)->Some_0.velocity == m[2],
{
}

/// The code of an event's kind in the word that a shared event slot keeps:
/// 1 for a note-on, 2 for a note-off.
pub open spec fn kind_code(kind: MidiEventKind) -> u32 {
    match kind {
        MidiEventKind::NoteOn => 1,
        MidiEventKind::NoteOff => 2,
    }
}

/// The word in which a shared event slot keeps an event's kind, channel and
/// note: the kind's code in the low byte, the channel in the next byte, the
/// note in the third.
pub open spec fn spec_pack(kind: MidiEventKind, channel: u8, note: u8) -> u32 {
    kind_code(kind) | ((channel as u32) << 8u32) | ((note as u32) << 16u32)
}

/// What a slot's word reads back as: a note-on where the low byte is 1, a
/// note-off otherwise, with the channel and note from the next two bytes.
pub open spec fn spec_unpack(word: u32) -> (MidiEventKind, u8, u8) {
    (
        if word & 0xff == 1 {
            MidiEventKind::NoteOn
        } else {
            MidiEventKind::NoteOff
        },
        ((word >> 8u32) & 0xff) as u8,
        ((word >> 16u32) & 0xff) as u8,
    )
}

/// Packs an event's kind, channel and note into the word a shared slot keeps.
pub fn pack_meta(kind: MidiEventKind, channel: u8, note: u8) -> (word: u32)
    ensures
        word == spec_pack(kind, channel, note),
{
    let code: u32 = match kind {
        MidiEventKind::NoteOn => 1,
        MidiEventKind::NoteOff => 2,
    };
    code | ((channel as u32) << 8u32) | ((note as u32) << 16u32)
}

/// Reads an event's kind, channel and note back from a slot's word.
pub fn unpack_meta(word: u32) -> (r: (MidiEventKind, u8, u8))
    ensures
        r == spec_unpack(word),
{
    let kind = if word & 0xff == 1 {
        MidiEventKind::NoteOn
    } else {
        MidiEventKind::NoteOff
    };
    (kind, ((word >> 8u32) & 0xff) as u8, ((word >> 16u32) & 0xff) as u8)
}

/// A slot gives back the kind, channel and note that were packed into it.
pub proof fn lemma_unpack_pack(kind: MidiEventKind, channel: u8, note: u8)
    ensures
        spec_unpack(spec_pack(kind, channel, note)) == (kind, channel, note),
{
    let k = kind_code(kind);
    let w = spec_pack(kind, channel, note);
    assert(w & 0xff == k && ((w >> 8u32) & 0xff) as u8 == channel && ((w >> 16u32) & 0xff) as u8 == note) by (bit_vector)
        requires
            w == k | ((channel as u32) << 8u32) | ((note as u32) << 16u32),
            k == 1 || k == 2,
    ;
}

} // verus!
