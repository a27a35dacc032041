//! One frame over the chords and the drums of a setup.

use vstd::prelude::*;
use crate::chord::Chord;
use crate::drum::{same_drum_setting, Drum, DrumGfx};
use crate::setup::Setup;
use crate::win::{bars_laid, drum_laid, Win};

verus! {

/// The buffer after the first `n` chords ran their frame and were drawn.
pub open spec fn chords_laid(
    buf: Seq<u32>,
    width: u32,
    height: u32,
    tick: usize,
    global_transpose: i32,
    chords: Seq<Chord>,
    n: int,
) -> Seq<u32>
    decreases n,
{
    if n <= 0 {
        buf
    } else {
        bars_laid(
            chords_laid(buf, width, height, tick, global_transpose, chords, n - 1),
            width as int,
            chords[n - 1].bars_of_frame(chords[n - 1].notes@, global_transpose, width, height, tick),
        )
    }
}

/// Whether a drum is drawn in its frame: it was triggered and its tick did
/// not reset it.
pub open spec fn drum_shows(drum: Drum) -> bool {
    drum.state.triggered && drum.state.stays_active(drum.decay_time)
}

/// The buffer after the first `n` drums ran their frame and were drawn;
/// `before` holds the drums as the frame found them, `after` as it left
/// them.
pub open spec fn drums_laid(buf: Seq<u32>, width: int, before: Seq<Drum>, after: Seq<Drum>, n: int) -> Seq<
    u32,
>
    decreases n,
{
    if n <= 0 {
        buf
    } else {
        let so_far = drums_laid(buf, width, before, after, n - 1);
        if drum_shows(before[n - 1]) {
            drum_laid(so_far, width, after[n - 1])
        } else {
            so_far
        }
    }
}

/// What the first `n` drums draw depends on those drums alone.
pub proof fn lemma_drums_laid_agree(
    buf: Seq<u32>,
    width: int,
    before: Seq<Drum>,
    a: Seq<Drum>,
    b: Seq<Drum>,
    n: int,
)
    requires
        forall|j: int| 0 <= j < n ==> a[j] == b[j],
    ensures
        drums_laid(buf, width, before, a, n) == drums_laid(buf, width, before, b, n),
    decreases n,
{
    if n > 0 {
        lemma_drums_laid_agree(buf, width, before, a, b, n - 1);
    }
}

impl Win {
    /// Runs one frame over every chord and then every drum of a setup, in
    /// their order: notes age or leave and their bars are drawn, triggered
    /// drums tick and are drawn while active. Texts and the status message,
    /// which need glyphs, are drawn by their own calls after this one.
    pub fn advance_and_render(&mut self, setup: &mut Setup)
        requires
            old(self).wf(),
            forall|i: int|
                0 <= i < old(setup).kit.drums@.len() ==> ((#[trigger] old(setup).kit.drums@[i]).gfx matches DrumGfx::Bitmap {
                    bitmap,
                } ==> bitmap.wf()),
        ensures
            final(self).wf(),
            final(self).same_frame(old(self)),
            final(setup).path == old(setup).path,
            final(setup).midi_port_id == old(setup).midi_port_id,
            final(setup).global_transpose == old(setup).global_transpose,
            final(setup).texts == old(setup).texts,
            final(setup).chords@.len() == old(setup).chords@.len(),
            forall|i: int|
                0 <= i < old(setup).chords@.len() ==> {
                    &&& (#[trigger] final(setup).chords@[i]).same_setting(&old(setup).chords@[i])
                    &&& final(setup).chords@[i].modulation == old(setup).chords@[i].modulation
                    &&& final(setup).chords@[i].notes@ == old(setup).chords@[i].notes_after_frame(
                        old(setup).chords@[i].notes@,
                        old(setup).global_transpose,
                        old(self).width,
                        old(self).height,
                        old(self).tick,
                    )
                },
            final(setup).kit.drums@.len() == old(setup).kit.drums@.len(),
            forall|i: int|
                0 <= i < old(setup).kit.drums@.len() ==> {
                    &&& same_drum_setting(
                        #[trigger] final(setup).kit.drums@[i],
                        old(setup).kit.drums@[i],
                    )
                    &&& final(setup).kit.drums@[i].state == (if old(
                        setup,
                    ).kit.drums@[i].state.triggered {
                        old(setup).kit.drums@[i].state.ticked(old(setup).kit.drums@[i].decay_time)
                    } else {
                        old(setup).kit.drums@[i].state
                    })
                },
            final(self).buffer@ == drums_laid(
                chords_laid(
                    old(self).buffer@,
                    old(self).width,
                    old(self).height,
                    old(self).tick,
                    old(setup).global_transpose,
                    old(setup).chords@,
                    old(setup).chords@.len() as int,
                ),
                old(self).width as int,
                old(setup).kit.drums@,
                final(setup).kit.drums@,
                old(setup).kit.drums@.len() as int,
            ),
    {
        let gt: i32 = setup.global_transpose;
        let ghost start = self.buffer@;
        let n: usize = setup.chords.len();
        let mut i: usize = 0;
        while i < n
            invariant
                i <= n,
                n == old(setup).chords@.len(),
                setup.chords@.len() == n,
                gt == old(setup).global_transpose,
                self.wf(),
                self.same_frame(old(self)),
                start == old(self).buffer@,
                setup.path == old(setup).path,
                setup.midi_port_id == old(setup).midi_port_id,
                setup.global_transpose == old(setup).global_transpose,
                setup.texts == old(setup).texts,
                setup.kit == old(setup).kit,
                forall|j: int|
                    0 <= j < i ==> {
                        &&& (#[trigger] setup.chords@[j]).same_setting(&old(setup).chords@[j])
                        &&& setup.chords@[j].modulation == old(setup).chords@[j].modulation
                        &&& setup.chords@[j].notes@ == old(setup).chords@[j].notes_after_frame(
                            old(setup).chords@[j].notes@,
                            gt,
                            self.width,
                            self.height,
                            self.tick,
                        )
                    },
                forall|j: int| i <= j < n ==> setup.chords@[j] == old(setup).chords@[j],
                self.buffer@ == chords_laid(
                    start,
                    self.width,
                    self.height,
                    self.tick,
                    gt,
                    old(setup).chords@,
                    i as int,
                ),
            decreases n - i,
        {
            self.draw_chord(&mut setup.chords[i], gt);
            i += 1;
        }
        let ghost mid = self.buffer@;
        let m: usize = setup.kit.drums.len();
        let ghost chords_done = setup.chords@;
        let mut k: usize = 0;
        while k < m
            invariant
                k <= m,
                m == old(setup).kit.drums@.len(),
                setup.kit.drums@.len() == m,
                self.wf(),
                self.same_frame(old(self)),
                setup.path == old(setup).path,
                setup.midi_port_id == old(setup).midi_port_id,
                setup.global_transpose == old(setup).global_transpose,
                setup.texts == old(setup).texts,
                setup.chords@ == chords_done,
                forall|j: int|
                    0 <= j < m ==> ((#[trigger] old(setup).kit.drums@[j]).gfx matches DrumGfx::Bitmap {
                        bitmap,
                    } ==> bitmap.wf()),
                forall|j: int|
                    0 <= j < k ==> {
                        &&& same_drum_setting(
                            #[trigger] setup.kit.drums@[j],
                            old(setup).kit.drums@[j],
                        )
                        &&& setup.kit.drums@[j].state == (if old(
                            setup,
                        ).kit.drums@[j].state.triggered {
                            old(setup).kit.drums@[j].state.ticked(
                                old(setup).kit.drums@[j].decay_time,
                            )
                        } else {
                            old(setup).kit.drums@[j].state
                        })
                    },
                forall|j: int| k <= j < m ==> setup.kit.drums@[j] == old(setup).kit.drums@[j],
                self.buffer@ == drums_laid(
                    mid,
                    self.width as int,
                    old(setup).kit.drums@,
                    setup.kit.drums@,
                    k as int,
                ),
            decreases m - k,
        {
            let ghost drums_before = setup.kit.drums@;
            assert(old(setup).kit.drums@[k as int].gfx matches DrumGfx::Bitmap { bitmap }
                ==> bitmap.wf());
            self.draw_drum(&mut setup.kit.drums[k]);
            proof {
                lemma_drums_laid_agree(
                    mid,
                    self.width as int,
                    old(setup).kit.drums@,
                    drums_before,
                    setup.kit.drums@,
                    k as int,
                );
            }
            k += 1;
        }
    }
}

} // verus!
