//! The polyphonic test synth: voice allocation verified here, sound rendering delegated to
//! a renderer that holds the floating-point oscillators.

use vstd::prelude::*;

use crate::engine::dummy_graph::rt::Synth;
use crate::midi::event::MidiEvent;
use crate::synths::voices::{
    apply_voice_action, spec_apply_voice_action, spec_voice_action, voice_action, Voice,
    VoiceAction, MAX_VOICES,
};

verus! {

/// The sound side of the test synth: makes the sound of a new voice, mixes the voices'
/// samples and writes them out. It holds floating-point state, so its methods carry no
/// contract.
pub trait VoiceRenderer {
    /// The sound state of one voice.
    type Sound;

    /// One mixed sample.
    type Sample;

    /// The buffer rendered into.
    type Output;

    /// The sound of a new voice for `key` at `velocity`.
    fn sound_for_note(&self, key: u8, velocity: u8) -> Self::Sound;

    /// Adapts the renderer to a stream's sample rate.
    fn set_sample_rate(&mut self, sample_rate: u32);

    /// The number of frames to render into `output`.
    fn frame_count(&self, output: &Self::Output) -> usize;

    /// The sample of silence that a frame's mix starts from.
    fn silence(&self) -> Self::Sample;

    /// Adds the voice's next sample to `sample` and advances its sound.
    fn mix_voice(&self, sample: Self::Sample, sound: &mut Self::Sound, releasing: bool) -> Self::Sample;

    /// Writes the mixed sample of frame `frame` to every channel of `output`.
    fn write_frame(&self, output: &mut Self::Output, frame: usize, sample: Self::Sample);

    /// Whether a released voice with this sound has faded out.
    fn faded(&self, sound: &Self::Sound) -> bool;
}

/// What the synth reads of a voice: its key and whether it is releasing.
pub open spec fn voice_header<P>(v: Voice<P>) -> (u8, bool) {
    (v.key, v.releasing)
}

/// The headers of the voices, in order.
pub open spec fn voice_headers<P>(voices: Seq<Voice<P>>) -> Seq<(u8, bool)> {
    voices.map_values(|v: Voice<P>| voice_header(v))
}

/// The items of `s` whose flag in `keep` is set, in order.
pub open spec fn select<A>(s: Seq<A>, keep: Seq<bool>) -> Seq<A>
    decreases s.len(),
{
    if s.len() == 0 || keep.len() != s.len() {
        Seq::empty()
    } else {
        let rest = select(s.drop_last(), keep.drop_last());
        if keep.last() {
            rest.push(s.last())
        } else {
            rest
        }
    }
}

/// Selecting commutes with taking the headers.
proof fn lemma_select_headers<P>(s: Seq<Voice<P>>, keep: Seq<bool>)
    requires
        keep.len() == s.len(),
    ensures
        voice_headers(select(s, keep)) == select(voice_headers(s), keep),
    decreases s.len(),
{
    if s.len() > 0 {
        lemma_select_headers(s.drop_last(), keep.drop_last());
        assert(voice_headers(s).drop_last() =~= voice_headers(s.drop_last()));
        let rest = select(s.drop_last(), keep.drop_last());
        assert(voice_headers(rest.push(s.last())) =~= voice_headers(rest).push(voice_header(s.last())));
    } else {
        assert(voice_headers(select(s, keep)) =~= select(voice_headers(s), keep));
    }
}

/// The polyphonic test synth: the sounding voices and the renderer that plays them.
pub struct VoiceSynth<R: VoiceRenderer> {
    pub renderer: R,
    pub voices: Vec<Voice<R::Sound>>,
}

impl<R: VoiceRenderer> VoiceSynth<R> {
    /// A silent synth with room for `MAX_VOICES` voices.
    pub fn new(renderer: R) -> (r: Self)
        ensures
            r.voices@.len() == 0,
    {
        VoiceSynth { renderer, voices: Vec::with_capacity(MAX_VOICES) }
    }

    /// Drops the released voices that the renderer finds faded; the others keep their
    /// order.
    fn drop_faded_voices(&mut self)
        ensures
            final(self).renderer == old(self).renderer,
            exists|keep: Seq<bool>|
                keep.len() == old(self).voices@.len() && (forall|i: int|
                    0 <= i < keep.len() && !(#[trigger] old(self).voices@[i]).releasing ==> keep[i])
                    && voice_headers(final(self).voices@) == select(
                    voice_headers(old(self).voices@),
                    keep,
                ),
    {
        let ghost start = self.voices@;
        let ghost mut keep: Seq<bool> = Seq::empty();
        let mut i: usize = 0;
        proof {
            assert(self.voices@.take(0) =~= select(start.take(0), keep));
            assert(self.voices@.skip(0) =~= start.skip(0));
        }
        while i < self.voices.len()
            invariant
                0 <= keep.len() <= start.len(),
                i <= self.voices.len(),
                self.renderer == old(self).renderer,
                start == old(self).voices@,
                forall|k: int| 0 <= k < keep.len() && !(#[trigger] start[k]).releasing ==> keep[k],
                self.voices@.take(i as int) == select(start.take(keep.len() as int), keep),
                self.voices@.skip(i as int) == start.skip(keep.len() as int),
            decreases self.voices.len() - i,
        {
            let ghost before = self.voices@;
            let ghost j = keep.len() as int;
            proof {
                assert(before.skip(i as int).len() == before.len() - i);
                assert(start.skip(j)[0] == start[j]);
                assert(before[i as int] == before.skip(i as int)[0]);
                assert(start.take(j + 1).drop_last() =~= start.take(j));
                assert(start.take(j + 1).last() == start[j]);
            }
            let drop = self.voices[i].releasing && self.renderer.faded(&self.voices[i].sound);
            if drop {
                self.voices.remove(i);
                proof {
                    assert(self.voices@.take(i as int) =~= before.take(i as int));
                    assert(self.voices@.skip(i as int) =~= before.skip(i as int).drop_first());
                    assert(start.skip(j + 1) =~= start.skip(j).drop_first());
                    assert(keep.push(false).drop_last() =~= keep);
                    keep = keep.push(false);
                }
            } else {
                i = i + 1;
                proof {
                    assert(self.voices@.take(i as int) =~= before.take(i - 1).push(before[i - 1]));
                    assert(self.voices@.skip(i as int) =~= before.skip(i - 1).drop_first());
                    assert(start.skip(j + 1) =~= start.skip(j).drop_first());
                    assert(keep.push(true).drop_last() =~= keep);
                    keep = keep.push(true);
                }
            }
        }
        proof {
            assert(self.voices@ =~= self.voices@.take(i as int));
            assert(start.skip(keep.len() as int).len() == 0);
            assert(start.take(keep.len() as int) =~= start);
            lemma_select_headers(start, keep);
        }
    }

    /// Prepares the synth for a stream: the renderer takes the sample rate and every
    /// voice stops.
    pub fn prepare(&mut self, sample_rate: u32)
        ensures
            final(self).voices@.len() == 0,
    {
        self.renderer.set_sample_rate(sample_rate);
        self.voices.clear();
    }
}

impl<R: VoiceRenderer> Synth for VoiceSynth<R> {
    type Output = R::Output;

    /// The voices take the step that the event asks for (see `spec_voice_action`), a new
    /// voice with some sound from the renderer; the renderer is untouched.
    open spec fn spec_midi_step(&self, event: MidiEvent, after: Self) -> bool {
        &&& after.renderer == self.renderer
        &&& exists|sound: Option<R::Sound>|
            (spec_voice_action(event) is Start ==> sound is Some) && after.voices@
                == spec_apply_voice_action(self.voices@, spec_voice_action(event), sound)
    }

    fn handle_midi_event(&mut self, event: MidiEvent) {
        let action = voice_action(event);
        let sound = match action {
            VoiceAction::Start { key, velocity } => Some(self.renderer.sound_for_note(key, velocity)),
            _ => None,
        };
        let ghost chosen = sound;
        apply_voice_action(&mut self.voices, action, sound);
        assert((spec_voice_action(event) is Start ==> chosen is Some) && self.voices@
            == spec_apply_voice_action(old(self).voices@, spec_voice_action(event), chosen));
    }

    /// The voices keep their keys, release flags and order; some released voices, those
    /// the renderer found faded, are dropped; the renderer is untouched.
    open spec fn spec_process_step(&self, after: Self) -> bool {
        &&& after.renderer == self.renderer
        &&& exists|keep: Seq<bool>|
            keep.len() == self.voices@.len() && (forall|i: int|
                0 <= i < keep.len() && !(#[trigger] self.voices@[i]).releasing ==> keep[i])
                && voice_headers(after.voices@) == select(voice_headers(self.voices@), keep)
    }

    fn process(&mut self, output: &mut R::Output) {
        let ghost start = self.voices@;
        let frames = self.renderer.frame_count(output);
        let mut frame: usize = 0;
        while frame < frames
            invariant
                frame <= frames,
                self.renderer == old(self).renderer,
                start == old(self).voices@,
                voice_headers(self.voices@) == voice_headers(start),
            decreases frames - frame,
        {
            let mut sample = self.renderer.silence();
            let mut i: usize = 0;
            while i < self.voices.len()
                invariant
                    self.renderer == old(self).renderer,
                    voice_headers(self.voices@) == voice_headers(start),
                decreases self.voices.len() - i,
            {
                let releasing = self.voices[i].releasing;
                let ghost before = self.voices@;
                sample = self.renderer.mix_voice(sample, &mut self.voices[i].sound, releasing);
                proof {
                    assert(voice_headers(self.voices@) =~= voice_headers(before));
                }
                i = i + 1;
            }
            self.renderer.write_frame(output, frame, sample);
            frame = frame + 1;
        }
        let ghost rendered = self.voices@;
        self.drop_faded_voices();
        proof {
            let keep = choose|keep: Seq<bool>|
                keep.len() == rendered.len() && (forall|i: int|
                    0 <= i < keep.len() && !(#[trigger] rendered[i]).releasing ==> keep[i])
                    && voice_headers(self.voices@) == select(voice_headers(rendered), keep);
            assert(voice_headers(rendered).len() == voice_headers(start).len());
            assert forall|i: int| 0 <= i < keep.len() && !(#[trigger] start[i]).releasing implies keep[i] by {
                assert(voice_headers(rendered)[i] == voice_headers(start)[i]);
            }
            assert(old(self).spec_process_step(*self));
        }
    }
}

} // verus!
