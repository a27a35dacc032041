//! The configured elements and the router that hands events to them.

use vstd::prelude::*;
use crate::chord::Chord;
use crate::drum::{drum_state_after, same_drum_setting, Kit};
use crate::midi::{MidiProcessor, PerformanceEvent};
use crate::text::Text;

verus! {

/// Everything that is configured: where it was loaded from, the input port,
/// the transpose that every chord shares, and the elements.
pub struct Setup {
    pub path: String,
    pub midi_port_id: usize,
    pub global_transpose: i32,
    pub chords: Vec<Chord>,
    pub kit: Kit,
    pub texts: Vec<Text>,
}

impl Setup {
    /// Hands one event to every chord, to the kit and to every text, in that
    /// order; each element decides for itself whether the event is its own.
    pub fn route(&mut self, message: PerformanceEvent)
        ensures
            final(self).path == old(self).path,
            final(self).midi_port_id == old(self).midi_port_id,
            final(self).global_transpose == old(self).global_transpose,
            final(self).chords@.len() == old(self).chords@.len(),
            forall|i: int|
                0 <= i < old(self).chords@.len() ==> {
                    &&& (#[trigger] final(self).chords@[i]).same_setting(&old(self).chords@[i])
                    &&& final(self).chords@[i].notes@ == old(self).chords@[i].notes_after(message)
                    &&& final(self).chords@[i].modulation == old(self).chords@[i].modulation_after(
                        message,
                    )
                },
            final(self).kit.drums@.len() == old(self).kit.drums@.len(),
            forall|i: int|
                0 <= i < old(self).kit.drums@.len() ==> {
                    &&& same_drum_setting(
                        #[trigger] final(self).kit.drums@[i],
                        old(self).kit.drums@[i],
                    )
                    &&& final(self).kit.drums@[i].state == drum_state_after(
                        old(self).kit.drums@[i].note,
                        old(self).kit.drums@[i].state,
                        message,
                    )
                },
            final(self).texts@.len() == old(self).texts@.len(),
            forall|i: int|
                0 <= i < old(self).texts@.len() ==> {
                    &&& (#[trigger] final(self).texts@[i]).same_setting(&old(self).texts@[i])
                    &&& final(self).texts@[i].cursor() == old(self).texts@[i].cursor_after(message)
                },
    {
        let n: usize = self.chords.len();
        let mut i: usize = 0;
        while i < n
            invariant
                i <= n,
                n == old(self).chords@.len(),
                self.chords@.len() == n,
                self.path == old(self).path,
                self.midi_port_id == old(self).midi_port_id,
                self.global_transpose == old(self).global_transpose,
                self.kit == old(self).kit,
                self.texts == old(self).texts,
                forall|j: int|
                    0 <= j < i ==> {
                        &&& (#[trigger] self.chords@[j]).same_setting(&old(self).chords@[j])
                        &&& self.chords@[j].notes@ == old(self).chords@[j].notes_after(message)
                        &&& self.chords@[j].modulation == old(self).chords@[j].modulation_after(
                            message,
                        )
                    },
                forall|j: int| i <= j < n ==> self.chords@[j] == old(self).chords@[j],
            decreases n - i,
        {
            self.chords[i].deal_with(message);
            i += 1;
        }
        self.kit.deal_with(message);
        let m: usize = self.texts.len();
        let ghost chords_done = self.chords@;
        let mut k: usize = 0;
        while k < m
            invariant
                k <= m,
                m == old(self).texts@.len(),
                self.texts@.len() == m,
                self.path == old(self).path,
                self.midi_port_id == old(self).midi_port_id,
                self.global_transpose == old(self).global_transpose,
                self.chords@ == chords_done,
                self.kit.drums@.len() == old(self).kit.drums@.len(),
                forall|j: int|
                    0 <= j < old(self).kit.drums@.len() ==> {
                        &&& same_drum_setting(
                            #[trigger] self.kit.drums@[j],
                            old(self).kit.drums@[j],
                        )
                        &&& self.kit.drums@[j].state == drum_state_after(
                            old(self).kit.drums@[j].note,
                            old(self).kit.drums@[j].state,
                            message,
                        )
                    },
                forall|j: int|
                    0 <= j < k ==> {
                        &&& (#[trigger] self.texts@[j]).same_setting(&old(self).texts@[j])
                        &&& self.texts@[j].cursor() == old(self).texts@[j].cursor_after(message)
                    },
                forall|j: int| k <= j < m ==> self.texts@[j] == old(self).texts@[j],
            decreases m - k,
        {
            self.texts[k].deal_with(message);
            k += 1;
        }
    }
}

} // verus!
