//! Voice allocation for the polyphonic ops: round robin for a control
//! signal, and note-by-note allocation with release and stealing for MIDI.
use vstd::prelude::*;

verus! {

/// Round-robin allocation among a fixed number of voices: each rising edge
/// of the control signal takes the voice after the one taken last.
pub struct RoundRobin {
    voices: usize,
    current: Option<usize>,
}

impl RoundRobin {
    /// How many voices there are.
    pub closed spec fn count(&self) -> nat {
        self.voices as nat
    }

    /// The voice taken last, which receives the live control signal.
    pub closed spec fn spec_current(&self) -> Option<usize> {
        self.current
    }

    /// The voice taken last is one of the voices.
    pub closed spec fn wf(&self) -> bool {
        self.current matches Some(c) ==> c < self.voices
    }

    /// `voices` voices, none taken yet.
    pub fn new(voices: usize) -> (r: Self)
        ensures
            r.wf(),
            r.count() == voices,
            r.spec_current() is None,
    {
        RoundRobin { voices, current: None }
    }

    /// The voice taken last.
    pub fn current(&self) -> (r: Option<usize>)
        ensures
            r == self.spec_current(),
    {
        self.current
    }

    /// Takes the next voice: the first one at the start, then each in turn,
    /// back to the first after the last. `None`, changing nothing, when
    /// there is no voice.
    pub fn allocate(&mut self) -> (r: Option<usize>)
        requires
            old(self).wf(),
        ensures
            final(self).wf(),
            final(self).count() == old(self).count(),
            old(self).count() == 0 ==> r is None && final(self).spec_current() == old(self).spec_current(),
            old(self).count() > 0 ==> r == Some(
                match old(self).spec_current() {
                    None => 0,
                    Some(c) => ((c + 1) % (old(self).count() as int)) as usize,
                },
            ) && final(self).spec_current() == r,
    {
        if self.voices == 0 {
            return None;
        }
        let next = match self.current {
            None => 0,
            Some(c) => (c + 1) % self.voices,
        };
        self.current = Some(next);
        Some(next)
    }

    /// Takes over where another allocator stood: its last voice, wrapped
    /// round to this allocator's count. An allocator without voices keeps
    /// its state.
    pub fn migrate(&mut self, other: &RoundRobin)
        requires
            old(self).wf(),
        ensures
            final(self).wf(),
            final(self).count() == old(self).count(),
            old(self).count() == 0 ==> final(self).spec_current() == old(self).spec_current(),
            old(self).count() > 0 ==> final(self).spec_current() == match other.spec_current() {
                None => None,
                Some(c) => Some((c as int % old(self).count() as int) as usize),
            },
    {
        if self.voices > 0 {
            self.current = match other.current {
                None => None,
                Some(c) => Some(c % self.voices),
            };
        }
    }
}

/// Where a voice of a MIDI-played op stands.
#[derive(Clone, Copy, Debug, PartialEq, Eq, Structural)]
pub enum VoiceState {
    NeverUsed,
    Held,
    Released,
}

/// What the allocator knows of a voice: the key it plays, where it stands,
/// when it was last struck and released, and whether its gate must open
/// again on the next sample because it was taken while held.
#[derive(Clone, Copy, Debug, PartialEq, Eq, Structural)]
pub struct VoiceSlot {
    pub channel: u8,
    pub note: u8,
    pub state: VoiceState,
    pub trigger_order: u64,
    pub release_order: u64,
    pub pending_retrigger: bool,
}

/// Allocation of voices to MIDI notes.
pub struct VoiceAllocator {
    voices: Vec<VoiceSlot>,
    order: u64,
}

/// The voice to take for a new note: the first never used, else the one
/// released longest ago, else the one struck longest ago (the first of
/// equals in each case).
pub open spec fn chosen_voice(v: Seq<VoiceSlot>, i: int) -> bool {
    &&& 0 <= i < v.len()
    &&& if exists|j: int| 0 <= j < v.len() && v[j].state == VoiceState::NeverUsed {
        &&& v[i].state == VoiceState::NeverUsed
        &&& forall|j: int| 0 <= j < i ==> v[j].state != VoiceState::NeverUsed
    } else if exists|j: int| 0 <= j < v.len() && v[j].state == VoiceState::Released {
        &&& v[i].state == VoiceState::Released
        &&& forall|j: int|
            0 <= j < v.len() && v[j].state == VoiceState::Released ==> v[i].release_order <= v[j].release_order
        &&& forall|j: int|
            0 <= j < i && v[j].state == VoiceState::Released ==> v[i].release_order < v[j].release_order
    } else {
        &&& forall|j: int| 0 <= j < v.len() ==> v[i].trigger_order <= v[j].trigger_order
        &&& forall|j: int| 0 <= j < i ==> v[i].trigger_order < v[j].trigger_order
    }
}

/// A held voice playing `note` on `channel`.
pub open spec fn holds(s: VoiceSlot, channel: u8, note: u8) -> bool {
    s.state == VoiceState::Held && s.channel == channel && s.note == note
}

/// The voice a note-off releases: the held one playing that key struck
/// longest ago (the first of equals).
pub open spec fn released_voice(v: Seq<VoiceSlot>, channel: u8, note: u8, i: int) -> bool {
    &&& 0 <= i < v.len()
    &&& holds(v[i], channel, note)
    &&& forall|j: int| 0 <= j < v.len() && holds(v[j], channel, note) ==> v[i].trigger_order <= v[j].trigger_order
    &&& forall|j: int| 0 <= j < i && holds(v[j], channel, note) ==> v[i].trigger_order < v[j].trigger_order
}

/// The voices after a note-on of `note` on `channel` took voice `i` at
/// `order`: it holds that key, struck and released at `order`, and must
/// open its gate again where it was taken while held.
pub open spec fn strike(v: Seq<VoiceSlot>, i: int, channel: u8, note: u8, order: u64) -> Seq<VoiceSlot> {
    v.update(
        i,
        VoiceSlot {
            channel,
            note,
            state: VoiceState::Held,
            trigger_order: order,
            release_order: order,
            pending_retrigger: v[i].state == VoiceState::Held,
        },
    )
}

/// The voices after a note-off released voice `i` at `order`.
pub open spec fn release(v: Seq<VoiceSlot>, i: int, order: u64) -> Seq<VoiceSlot> {
    v.update(i, VoiceSlot { state: VoiceState::Released, release_order: order, pending_retrigger: false, ..v[i] })
}

/// Releasing a key right after striking it, when no other voice held that
/// key, releases the voice that the strike took, and leaves the key held
/// by no voice.
pub proof fn lemma_strike_then_release(v: Seq<VoiceSlot>, i: int, channel: u8, note: u8, on: u64, off: u64)
    requires
        0 <= i < v.len(),
        forall|j: int| 0 <= j < v.len() && j != i ==> !holds(#[trigger] v[j], channel, note),
    ensures
        forall|j: int| released_voice(strike(v, i, channel, note, on), channel, note, j) <==> j == i,
        forall|j: int|
            0 <= j < v.len() ==> !holds(#[trigger] release(strike(v, i, channel, note, on), i, off)[j], channel, note),
{
    let struck = strike(v, i, channel, note, on);
    assert(holds(struck[i], channel, note));
    assert forall|j: int| 0 <= j < struck.len() && holds(#[trigger] struck[j], channel, note) implies j == i by {
        if j != i {
            assert(struck[j] == v[j]);
        }
    }
}

pub open spec fn next_order(order: u64) -> u64 {
    vstd::wrapping::u64_specs::wrapping_add(order, 1)
}

impl VoiceAllocator {
    pub closed spec fn spec_voices(&self) -> Seq<VoiceSlot> {
        self.voices@
    }

    /// The count of notes and releases so far, which orders them.
    pub closed spec fn spec_order(&self) -> u64 {
        self.order
    }

    /// `count` voices, never used.
    pub fn new(count: usize) -> (r: Self)
        ensures
            r.spec_voices().len() == count,
            forall|i: int|
                0 <= i < count ==> #[trigger] r.spec_voices()[i] == (VoiceSlot {
                    channel: 0,
                    note: 0,
                    state: VoiceState::NeverUsed,
                    trigger_order: 0,
                    release_order: 0,
                    pending_retrigger: false,
                }),
            r.spec_order() == 0,
    {
        let mut voices: Vec<VoiceSlot> = Vec::new();
        let mut k: usize = 0;
        while k < count
            invariant
                k <= count,
                voices@.len() == k,
                forall|i: int|
                    0 <= i < k ==> #[trigger] voices@[i] == (VoiceSlot {
                        channel: 0,
                        note: 0,
                        state: VoiceState::NeverUsed,
                        trigger_order: 0,
                        release_order: 0,
                        pending_retrigger: false,
                    }),
            decreases count - k,
        {
            voices.push(
                VoiceSlot {
                    channel: 0,
                    note: 0,
                    state: VoiceState::NeverUsed,
                    trigger_order: 0,
                    release_order: 0,
                    pending_retrigger: false,
                },
            );
            k = k + 1;
        }
        VoiceAllocator { voices, order: 0 }
    }

    /// How many voices there are.
    pub fn len(&self) -> (r: usize)
        ensures
            r == self.spec_voices().len(),
    {
        self.voices.len()
    }

    /// What the allocator knows of voice `i`.
    pub fn voice(&self, i: usize) -> (r: VoiceSlot)
        requires
            i < self.spec_voices().len(),
        ensures
            r == self.spec_voices()[i as int],
    {
        self.voices[i]
    }

    /// The voice a new note takes; `None` when there is no voice.
    pub fn allocate_voice(&self) -> (r: Option<usize>)
        ensures
            r is None <==> self.spec_voices().len() == 0,
            r matches Some(i) ==> chosen_voice(self.spec_voices(), i as int),
    {
        let v = &self.voices;
        let n = v.len();
        if n == 0 {
            return None;
        }
        let mut i: usize = 0;
        while i < n
            invariant
                n == v@.len(),
                v@ == self.voices@,
                i <= n,
                forall|j: int| 0 <= j < i ==> v@[j].state != VoiceState::NeverUsed,
            decreases n - i,
        {
            if v[i].state == VoiceState::NeverUsed {
                return Some(i);
            }
            i = i + 1;
        }
        let mut best: Option<usize> = None;
        let mut i: usize = 0;
        while i < n
            invariant
                n == v@.len(),
                v@ == self.voices@,
                i <= n,
                forall|j: int| 0 <= j < n ==> v@[j].state != VoiceState::NeverUsed,
                best is None ==> forall|j: int| 0 <= j < i ==> v@[j].state != VoiceState::Released,
                best matches Some(b) ==> {
                    &&& b < i
                    &&& v@[b as int].state == VoiceState::Released
                    &&& forall|j: int|
                        0 <= j < i && v@[j].state == VoiceState::Released ==> v@[b as int].release_order
                            <= v@[j].release_order
                    &&& forall|j: int|
                        0 <= j < b && v@[j].state == VoiceState::Released ==> v@[b as int].release_order
                            < v@[j].release_order
                },
            decreases n - i,
        {
            if v[i].state == VoiceState::Released {
                match best {
                    None => {
                        best = Some(i);
                    },
                    Some(b) => {
                        if v[i].release_order < v[b].release_order {
                            best = Some(i);
                        }
                    },
                }
            }
            i = i + 1;
        }
        if best.is_some() {
            return best;
        }
        let mut b: usize = 0;
        let mut i: usize = 1;
        while i < n
            invariant
                n == v@.len(),
                v@ == self.voices@,
                1 <= i <= n,
                b < i,
                forall|j: int| 0 <= j < n ==> v@[j].state != VoiceState::NeverUsed,
                forall|j: int| 0 <= j < n ==> v@[j].state != VoiceState::Released,
                forall|j: int| 0 <= j < i ==> v@[b as int].trigger_order <= v@[j].trigger_order,
                forall|j: int| 0 <= j < b ==> v@[b as int].trigger_order < v@[j].trigger_order,
            decreases n - i,
        {
            if v[i].trigger_order < v[b].trigger_order {
                b = i;
            }
            i = i + 1;
        }
        Some(b)
    }

    fn next_order(&mut self) -> (r: u64)
        ensures
            r == old(self).order,
            final(self).order == next_order(old(self).order),
            final(self).voices == old(self).voices,
    {
        let r = self.order;
        self.order = self.order.wrapping_add(1);
        r
    }

    /// Strikes `note` on `channel`: the chosen voice takes the key, held,
    /// struck now. Returns the voice and whether it was taken while held
    /// (stolen): a stolen voice's gate closes for one sample and opens again
    /// on the next. `None`, changing nothing, when there is no voice.
    pub fn note_on(&mut self, channel: u8, note: u8) -> (r: Option<(usize, bool)>)
        ensures
            r is None <==> old(self).spec_voices().len() == 0,
            r is None ==> final(self).spec_voices() == old(self).spec_voices() && final(self).spec_order()
                == old(self).spec_order(),
            r matches Some((i, stolen)) ==> {
                &&& chosen_voice(old(self).spec_voices(), i as int)
                &&& stolen == (old(self).spec_voices()[i as int].state == VoiceState::Held)
                &&& final(self).spec_voices() == strike(old(self).spec_voices(), i as int, channel, note, old(self).spec_order())
                &&& final(self).spec_order() == next_order(old(self).spec_order())
            },
    {
        let i = match self.allocate_voice() {
            Some(i) => i,
            None => {
                return None;
            },
        };
        let stolen = self.voices[i].state == VoiceState::Held;
        let order = self.next_order();
        self.voices.set(
            i,
            VoiceSlot {
                channel,
                note,
                state: VoiceState::Held,
                trigger_order: order,
                release_order: order,
                pending_retrigger: stolen,
            },
        );
        Some((i, stolen))
    }

    /// Releases `note` on `channel`: the held voice playing it that was
    /// struck longest ago, released now. `None`, changing nothing, when no
    /// voice holds that key.
    pub fn note_off(&mut self, channel: u8, note: u8) -> (r: Option<usize>)
        ensures
            r is None <==> forall|j: int|
                0 <= j < old(self).spec_voices().len() ==> !holds(#[trigger] old(self).spec_voices()[j], channel, note),
            r is None ==> final(self).spec_voices() == old(self).spec_voices() && final(self).spec_order()
                == old(self).spec_order(),
            r matches Some(i) ==> {
                &&& released_voice(old(self).spec_voices(), channel, note, i as int)
                &&& final(self).spec_voices() == release(old(self).spec_voices(), i as int, old(self).spec_order())
                &&& final(self).spec_order() == next_order(old(self).spec_order())
            },
    {
        let n = self.voices.len();
        let mut best: Option<usize> = None;
        let mut i: usize = 0;
        while i < n
            invariant
                n == self.voices@.len(),
                i <= n,
                best is None ==> forall|j: int| 0 <= j < i ==> !holds(#[trigger] self.voices@[j], channel, note),
                best matches Some(b) ==> {
                    &&& b < i
                    &&& holds(self.voices@[b as int], channel, note)
                    &&& forall|j: int|
                        0 <= j < i && holds(self.voices@[j], channel, note) ==> self.voices@[b as int].trigger_order
                            <= self.voices@[j].trigger_order
                    &&& forall|j: int|
                        0 <= j < b && holds(self.voices@[j], channel, note) ==> self.voices@[b as int].trigger_order
                            < self.voices@[j].trigger_order
                },
            decreases n - i,
        {
            let s = self.voices[i];
            if s.state == VoiceState::Held && s.channel == channel && s.note == note {
                match best {
                    None => {
                        best = Some(i);
                    },
                    Some(b) => {
                        if s.trigger_order < self.voices[b].trigger_order {
                            best = Some(i);
                        }
                    },
                }
            }
            i = i + 1;
        }
        let b = match best {
            Some(b) => b,
            None => {
                return None;
            },
        };
        let ghost before = self.voices@;
        assert(holds(before[b as int], channel, note));
        assert(holds(old(self).spec_voices()[b as int], channel, note));
        let order = self.next_order();
        let old_slot = self.voices[b];
        self.voices.set(
            b,
            VoiceSlot { state: VoiceState::Released, release_order: order, pending_retrigger: false, ..old_slot },
        );
        assert(self.voices@ =~= release(before, b as int, old(self).spec_order()));
        Some(b)
    }

    /// The voices whose gate opens again now, in order; their retrigger is
    /// cleared.
    pub fn take_retriggers(&mut self) -> (r: Vec<usize>)
        ensures
            forall|k: int| 0 <= k < r@.len() ==> #[trigger] r@[k] < old(self).spec_voices().len(),
            forall|k: int, l: int| 0 <= k < l < r@.len() ==> r@[k] < r@[l],
            forall|i: int|
                0 <= i < old(self).spec_voices().len() ==> (old(self).spec_voices()[i].pending_retrigger
                    <==> r@.contains(i as usize)),
            final(self).spec_voices().len() == old(self).spec_voices().len(),
            forall|i: int|
                0 <= i < old(self).spec_voices().len() ==> #[trigger] final(self).spec_voices()[i] == (VoiceSlot {
                    pending_retrigger: false,
                    ..old(self).spec_voices()[i]
                }),
            final(self).spec_order() == old(self).spec_order(),
    {
        let ghost before = self.voices@;
        let mut r: Vec<usize> = Vec::new();
        let n = self.voices.len();
        let mut i: usize = 0;
        while i < n
            invariant
                n == before.len(),
                self.voices@.len() == n,
                i <= n,
                self.order == old(self).order,
                before == old(self).voices@,
                forall|k: int| 0 <= k < r@.len() ==> #[trigger] r@[k] < i,
                forall|k: int, l: int| 0 <= k < l < r@.len() ==> r@[k] < r@[l],
                forall|j: int| 0 <= j < i ==> (before[j].pending_retrigger <==> r@.contains(j as usize)),
                forall|j: int|
                    0 <= j < i ==> #[trigger] self.voices@[j] == (VoiceSlot { pending_retrigger: false, ..before[j] }),
                forall|j: int| i <= j < n ==> #[trigger] self.voices@[j] == before[j],
            decreases n - i,
        {
            let s = self.voices[i];
            let ghost r0 = r@;
            if s.pending_retrigger {
                r.push(i);
                self.voices.set(i, VoiceSlot { pending_retrigger: false, ..s });
                proof {
                    assert(r@[r0.len() as int] == i);
                    assert forall|j: int| 0 <= j < i implies (before[j].pending_retrigger <==> r@.contains(j as usize)) by {
                        if r0.contains(j as usize) {
                            let k = choose|k: int| 0 <= k < r0.len() && r0[k] == j as usize;
                            assert(r@[k] == j as usize);
                        }
                        if r@.contains(j as usize) {
                            let k = choose|k: int| 0 <= k < r@.len() && r@[k] == j as usize;
                            assert(k < r0.len());
                            assert(r0[k] == j as usize);
                        }
                    }
                }
            } else {
                proof {
                    if r@.contains(i) {
                        let k = choose|k: int| 0 <= k < r@.len() && r@[k] == i;
                        assert(r@[k] < i);
                    }
                }
            }
            i = i + 1;
        }
        r
    }

    /// Takes over another allocator's state: its order count and, voice by
    /// voice, as many voices as both have.
    pub fn migrate(&mut self, other: &VoiceAllocator)
        ensures
            final(self).spec_order() == other.spec_order(),
            final(self).spec_voices().len() == old(self).spec_voices().len(),
            forall|i: int|
                0 <= i < old(self).spec_voices().len() ==> #[trigger] final(self).spec_voices()[i] == if i
                    < other.spec_voices().len() {
                    other.spec_voices()[i]
                } else {
                    old(self).spec_voices()[i]
                },
    {
        self.order = other.order;
        let n = self.voices.len();
        let mut i: usize = 0;
        while i < n && i < other.voices.len()
            invariant
                n == self.voices@.len(),
                n == old(self).voices@.len(),
                i <= n,
                self.order == other.order,
                forall|j: int|
                    0 <= j < n ==> #[trigger] self.voices@[j] == if j < i && j < other.voices@.len() {
                        other.voices@[j]
                    } else {
                        old(self).voices@[j]
                    },
            decreases n - i,
        {
            self.voices.set(i, other.voices[i]);
            i = i + 1;
        }
    }
}

} // verus!
