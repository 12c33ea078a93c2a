//! Voice allocation of the polyphonic test synth: which voices sound, one per key, at
//! most `MAX_VOICES` of them. The sound of a voice is the synth's own state, `P`.

use vstd::prelude::*;

use crate::midi::event::{MidiEvent, MidiEventKind};

verus! {

/// The most voices that sound at once.
pub const MAX_VOICES: usize = 32;

/// The MIDI controller number of "All Notes Off".
pub const ALL_NOTES_OFF: u8 = 123;

/// A sounding voice: the key that started it, whether that key has been released, and
/// the synth's sound state for it.
pub struct Voice<P> {
    pub key: u8,
    pub releasing: bool,
    pub sound: P,
}

/// What a MIDI event asks of the voices.
#[derive(Debug, Clone, Copy, PartialEq, Eq, Structural)]
pub enum VoiceAction {
    /// Start a voice for `key` at `velocity` (above zero).
    Start { key: u8, velocity: u8 },
    /// Release the voices of `key`.
    Release { key: u8 },
    /// Silence every voice at once.
    ClearAll,
    /// Nothing to do.
    Ignore,
}

/// What `event` asks of the voices: a note-on with a velocity above zero starts a voice,
/// a note-off releases its key, "All Notes Off" clears every voice, anything else
/// (a note-on with velocity zero too) is ignored.
pub open spec fn spec_voice_action(event: MidiEvent) -> VoiceAction {
    match event.kind {
        MidiEventKind::NoteOn { key, velocity } => if velocity > 0 {
            VoiceAction::Start { key, velocity }
        } else {
            VoiceAction::Ignore
        },
        MidiEventKind::NoteOff { key, .. } => VoiceAction::Release { key },
        MidiEventKind::ControlChange { controller, .. } => if controller == ALL_NOTES_OFF {
            VoiceAction::ClearAll
        } else {
            VoiceAction::Ignore
        },
        _ => VoiceAction::Ignore,
    }
}

/// Whether `event` is the "All Notes Off" control change.
pub open spec fn spec_is_all_notes_off(event: MidiEvent) -> bool {
    event.kind matches MidiEventKind::ControlChange { controller, .. } && controller == ALL_NOTES_OFF
}

/// Whether `event` is the "All Notes Off" control change.
pub fn is_all_notes_off(event: &MidiEvent) -> (r: bool)
    ensures
        r == spec_is_all_notes_off(*event),
{
    match event.kind {
        MidiEventKind::ControlChange { controller, .. } => controller == ALL_NOTES_OFF,
        _ => false,
    }
}

/// What `event` asks of the voices; see `spec_voice_action`.
pub fn voice_action(event: MidiEvent) -> (r: VoiceAction)
    ensures
        r == spec_voice_action(event),
{
    match event.kind {
        MidiEventKind::NoteOn { key, velocity } => {
            if velocity > 0 {
                VoiceAction::Start { key, velocity }
            } else {
                VoiceAction::Ignore
            }
        },
        MidiEventKind::NoteOff { key, .. } => VoiceAction::Release { key },
        MidiEventKind::ControlChange { controller, .. } => {
            if controller == ALL_NOTES_OFF {
                VoiceAction::ClearAll
            } else {
                VoiceAction::Ignore
            }
        },
        _ => VoiceAction::Ignore,
    }
}

/// The keys of the voices, in order.
pub open spec fn voice_keys<P>(voices: Seq<Voice<P>>) -> Seq<u8> {
    voices.map_values(|v: Voice<P>| v.key)
}

/// The voices after a voice for `key` starts with `sound`: the voices of that key stop,
/// the oldest voice stops when `MAX_VOICES` remain, and the new voice comes last.
pub open spec fn spec_start_voice<P>(voices: Seq<Voice<P>>, key: u8, sound: P) -> Seq<Voice<P>> {
    let kept = voices.filter(|v: Voice<P>| v.key != key);
    let room = if kept.len() == MAX_VOICES {
        kept.drop_first()
    } else {
        kept
    };
    room.push(Voice { key, releasing: false, sound })
}

/// The voices after `key` is released: its voices are marked as releasing.
pub open spec fn spec_release_key<P>(voices: Seq<Voice<P>>, key: u8) -> Seq<Voice<P>> {
    voices.map_values(
        |v: Voice<P>|
            if v.key == key {
                Voice { key: v.key, releasing: true, sound: v.sound }
            } else {
                v
            },
    )
}

/// Starts a voice for `key` with the sound `sound`; see `spec_start_voice`. The voices
/// are taken out in place, so a list with room for `MAX_VOICES` voices never reallocates.
pub fn start_voice<P>(voices: &mut Vec<Voice<P>>, key: u8, sound: P)
    ensures
        final(voices)@ == spec_start_voice(old(voices)@, key, sound),
{
    let ghost start = voices@;
    let ghost pred = |v: Voice<P>| v.key != key;
    let mut i: usize = 0;
    let ghost mut j: int = 0;
    proof {
        assert(voices@.skip(0) =~= start.skip(0));
        assert(voices@.take(0) =~= start.take(0).filter(pred)) by {
            reveal_with_fuel(Seq::<_>::filter, 1);
        }
    }
    while i < voices.len()
        invariant
            0 <= j <= start.len(),
            i <= voices.len(),
            pred == (|v: Voice<P>| v.key != key),
            voices@.take(i as int) == start.take(j).filter(pred),
            voices@.skip(i as int) == start.skip(j),
        decreases voices.len() - i,
    {
        let ghost before = voices@;
        proof {
            reveal_with_fuel(Seq::<_>::filter, 1);
            assert(before.skip(i as int).len() == before.len() - i);
            assert(j < start.len());
            assert(start.skip(j)[0] == start[j]);
            assert(before[i as int] == before.skip(i as int)[0]);
            assert(start.take(j + 1).drop_last() =~= start.take(j));
            assert(start.take(j + 1).last() == start[j]);
        }
        if voices[i].key == key {
            voices.remove(i);
            proof {
                assert(voices@.take(i as int) =~= before.take(i as int));
                assert(voices@.skip(i as int) =~= before.skip(i as int).drop_first());
                assert(start.skip(j + 1) =~= start.skip(j).drop_first());
            }
        } else {
            i = i + 1;
            proof {
                assert(voices@.take(i as int) =~= before.take(i - 1).push(before[i - 1]));
                assert(voices@.skip(i as int) =~= before.skip(i - 1).drop_first());
                assert(start.skip(j + 1) =~= start.skip(j).drop_first());
            }
        }
        proof {
            j = j + 1;
        }
    }
    proof {
        assert(voices@ =~= voices@.take(i as int));
        assert(start.skip(j).len() == 0);
        assert(start.take(j) =~= start);
    }
    if voices.len() == MAX_VOICES {
        let ghost kept = voices@;
        voices.remove(0);
        proof {
            assert(voices@ =~= kept.drop_first());
        }
    }
    voices.push(Voice { key, releasing: false, sound });
}

/// Marks the voices of `key` as releasing; see `spec_release_key`.
pub fn release_key<P>(voices: &mut Vec<Voice<P>>, key: u8)
    ensures
        final(voices)@ == spec_release_key(old(voices)@, key),
{
    let n = voices.len();
    let mut i: usize = 0;
    while i < n
        invariant
            i <= n,
            n == voices.len(),
            n == old(voices).len(),
            forall|j: int|
                0 <= j < i ==> #[trigger] voices@[j] == (if old(voices)@[j].key == key {
                    Voice { key: old(voices)@[j].key, releasing: true, sound: old(voices)@[j].sound }
                } else {
                    old(voices)@[j]
                }),
            forall|j: int| i <= j < n ==> voices@[j] == old(voices)@[j],
        decreases n - i,
    {
        if voices[i].key == key {
            voices[i].releasing = true;
        }
        i = i + 1;
    }
    assert(voices@ =~= spec_release_key(old(voices)@, key));
}

/// The voices after `action`, with `sound` as the new voice's sound for `Start`.
pub open spec fn spec_apply_voice_action<P>(voices: Seq<Voice<P>>, action: VoiceAction, sound: Option<P>) -> Seq<Voice<P>> {
    match action {
        VoiceAction::Start { key, .. } => match sound {
            Some(s) => spec_start_voice(voices, key, s),
            None => voices,
        },
        VoiceAction::Release { key } => spec_release_key(voices, key),
        VoiceAction::ClearAll => Seq::empty(),
        VoiceAction::Ignore => voices,
    }
}

/// Carries out `action` on the voices: `Start` starts a voice with `sound`, `Release`
/// releases the key, `ClearAll` silences every voice, `Ignore` does nothing.
pub fn apply_voice_action<P>(voices: &mut Vec<Voice<P>>, action: VoiceAction, sound: Option<P>)
    requires
        action is Start ==> sound is Some,
    ensures
        final(voices)@ == spec_apply_voice_action(old(voices)@, action, sound),
{
    match action {
        VoiceAction::Start { key, .. } => {
            if let Some(s) = sound {
                start_voice(voices, key, s);
            }
        },
        VoiceAction::Release { key } => release_key(voices, key),
        VoiceAction::ClearAll => {
            voices.clear();
        },
        VoiceAction::Ignore => {},
    }
}

/// No two voices share a key.
pub open spec fn keys_distinct<P>(voices: Seq<Voice<P>>) -> bool {
    forall|i: int, j: int|
        0 <= i < j < voices.len() ==> #[trigger] voices[i].key != #[trigger] voices[j].key
}

/// Taking out the voices of `key` keeps the other keys distinct, leaves no voice of `key`
/// and does not add voices.
proof fn lemma_drop_key<P>(voices: Seq<Voice<P>>, key: u8)
    requires
        keys_distinct(voices),
    ensures
        ({
            let kept = voices.filter(|v: Voice<P>| v.key != key);
            &&& keys_distinct(kept)
            &&& kept.len() <= voices.len()
            &&& forall|i: int| 0 <= i < kept.len() ==> (#[trigger] kept[i]).key != key
            &&& forall|i: int|
                0 <= i < kept.len() ==> exists|j: int|
                    0 <= j < voices.len() && (#[trigger] voices[j]).key == (#[trigger] kept[i]).key
        }),
    decreases voices.len(),
{
    reveal_with_fuel(Seq::<_>::filter, 1);
    let pred = |v: Voice<P>| v.key != key;
    if voices.len() > 0 {
        let rest = voices.drop_last();
        assert(keys_distinct(rest)) by {
            assert forall|i: int, j: int| 0 <= i < j < rest.len() implies #[trigger] rest[i].key
                != #[trigger] rest[j].key by {
                assert(rest[i] == voices[i] && rest[j] == voices[j]);
            }
        }
        lemma_drop_key(rest, key);
        let sub = rest.filter(pred);
        let last = voices.last();
        if pred(last) {
            let kept = sub.push(last);
            assert forall|i: int| 0 <= i < sub.len() implies (#[trigger] sub[i]).key != last.key by {
                let j = choose|j: int| 0 <= j < rest.len() && (#[trigger] rest[j]).key == sub[i].key;
                assert(rest[j] == voices[j]);
                assert(voices[j].key != voices[voices.len() - 1].key);
            }
            assert forall|i: int, j: int| 0 <= i < j < kept.len() implies #[trigger] kept[i].key
                != #[trigger] kept[j].key by {
                if j == kept.len() - 1 {
                    assert(kept[i] == sub[i]);
                } else {
                    assert(kept[i] == sub[i] && kept[j] == sub[j]);
                }
            }
            assert forall|i: int| 0 <= i < kept.len() implies exists|j: int|
                0 <= j < voices.len() && (#[trigger] voices[j]).key == (#[trigger] kept[i]).key by {
                if i == kept.len() - 1 {
                    assert(voices[voices.len() - 1].key == kept[i].key);
                } else {
                    assert(kept[i] == sub[i]);
                    let j = choose|j: int| 0 <= j < rest.len() && (#[trigger] rest[j]).key == sub[i].key;
                    assert(rest[j] == voices[j]);
                }
            }
        } else {
            assert forall|i: int| 0 <= i < sub.len() implies exists|j: int|
                0 <= j < voices.len() && (#[trigger] voices[j]).key == (#[trigger] sub[i]).key by {
                let j = choose|j: int| 0 <= j < rest.len() && (#[trigger] rest[j]).key == sub[i].key;
                assert(rest[j] == voices[j]);
            }
        }
    }
}

/// Starting a voice keeps the voice bookkeeping sound: at most `MAX_VOICES` voices, no
/// two on one key, and the new voice, not releasing, comes last.
pub proof fn lemma_start_voice_keeps_voices_sound<P>(voices: Seq<Voice<P>>, key: u8, sound: P)
    requires
        voices.len() <= MAX_VOICES,
        keys_distinct(voices),
    ensures
        ({
            let after = spec_start_voice(voices, key, sound);
            &&& after.len() <= MAX_VOICES
            &&& keys_distinct(after)
            &&& after.last().key == key
            &&& !after.last().releasing
        }),
{
    lemma_drop_key(voices, key);
    let kept = voices.filter(|v: Voice<P>| v.key != key);
    let room = if kept.len() == MAX_VOICES {
        kept.drop_first()
    } else {
        kept
    };
    let after = room.push(Voice { key, releasing: false, sound });
    assert forall|i: int| 0 <= i < room.len() implies (#[trigger] room[i]).key != key by {
        if kept.len() == MAX_VOICES {
            assert(room[i] == kept[i + 1]);
        }
    }
    assert forall|i: int, j: int| 0 <= i < j < after.len() implies #[trigger] after[i].key
        != #[trigger] after[j].key by {
        if kept.len() == MAX_VOICES {
            assert(after[i] == kept[i + 1]);
            if j < after.len() - 1 {
                assert(after[j] == kept[j + 1]);
            }
        } else {
            assert(after[i] == kept[i]);
            if j < after.len() - 1 {
                assert(after[j] == kept[j]);
            }
        }
    }
}

/// Releasing a key keeps the voices and their keys; only the voices of that key start
/// releasing.
pub proof fn lemma_release_keeps_keys<P>(voices: Seq<Voice<P>>, key: u8)
    ensures
        voice_keys(spec_release_key(voices, key)) == voice_keys(voices),
        spec_release_key(voices, key).len() == voices.len(),
        forall|i: int|
            0 <= i < voices.len() ==> (#[trigger] spec_release_key(voices, key)[i]).releasing == (
            voices[i].releasing || voices[i].key == key),
        forall|i: int|
            0 <= i < voices.len() ==> (#[trigger] spec_release_key(voices, key)[i]).key == voices[i].key
                && spec_release_key(voices, key)[i].sound == voices[i].sound,
{
    assert(voice_keys(spec_release_key(voices, key)) =~= voice_keys(voices));
}

/// Dropping the voices of `key` keeps a sequence with no voice of `key` as it is.
proof fn lemma_drop_absent_key<P>(voices: Seq<Voice<P>>, key: u8)
    requires
        forall|i: int| 0 <= i < voices.len() ==> (#[trigger] voices[i]).key != key,
    ensures
        voices.filter(|v: Voice<P>| v.key != key) == voices,
    decreases voices.len(),
{
    reveal_with_fuel(Seq::<_>::filter, 1);
    if voices.len() > 0 {
        lemma_drop_absent_key(voices.drop_last(), key);
        assert(voices.drop_last().push(voices.last()) =~= voices);
    } else {
        assert(voices.filter(|v: Voice<P>| v.key != key) =~= voices);
    }
}

/// Starting a voice for `key` among voices with distinct keys: a voice already on `key`
/// is taken out and the new voice comes last; when there is none and `MAX_VOICES` voices
/// sound, the oldest is taken out; the other voices keep their order.
pub proof fn lemma_start_voice_replaces_or_steals<P>(voices: Seq<Voice<P>>, key: u8, sound: P)
    requires
        voices.len() <= MAX_VOICES,
        keys_distinct(voices),
    ensures
        (forall|i: int| 0 <= i < voices.len() ==> (#[trigger] voices[i]).key != key) ==> spec_start_voice(
            voices,
            key,
            sound,
        ) == (if voices.len() == MAX_VOICES {
            voices.drop_first()
        } else {
            voices
        }).push(Voice { key, releasing: false, sound }),
        forall|k: int|
            0 <= k < voices.len() && (#[trigger] voices[k]).key == key ==> spec_start_voice(voices, key, sound)
                == voices.remove(k).push(Voice { key, releasing: false, sound }),
{
    let pred = |v: Voice<P>| v.key != key;
    if forall|i: int| 0 <= i < voices.len() ==> (#[trigger] voices[i]).key != key {
        lemma_drop_absent_key(voices, key);
    }
    assert forall|k: int| 0 <= k < voices.len() && (#[trigger] voices[k]).key == key implies spec_start_voice(
        voices,
        key,
        sound,
    ) == voices.remove(k).push(Voice { key, releasing: false, sound }) by {
        let a = voices.take(k);
        let b = voices.skip(k + 1);
        assert forall|i: int| 0 <= i < a.len() implies (#[trigger] a[i]).key != key by {
            assert(a[i] == voices[i]);
        }
        assert forall|i: int| 0 <= i < b.len() implies (#[trigger] b[i]).key != key by {
            assert(b[i] == voices[k + 1 + i]);
        }
        lemma_drop_absent_key(a, key);
        lemma_drop_absent_key(b, key);
        reveal_with_fuel(Seq::<_>::filter, 2);
        assert(seq![voices[k]].filter(pred) =~= Seq::<Voice<P>>::empty()) by {
            assert(seq![voices[k]].drop_last() =~= Seq::<Voice<P>>::empty());
        }
        assert(voices =~= a + seq![voices[k]] + b);
        Seq::filter_distributes_over_add(a, seq![voices[k]], pred);
        Seq::filter_distributes_over_add(a + seq![voices[k]], b, pred);
        assert(voices.filter(pred) =~= a + b);
        assert(voices.remove(k) =~= a + b);
    }
}

/// What each kind of event asks of the voices: a note-on with a velocity above zero
/// starts a voice for its key, a note-on with velocity zero asks nothing, a note-off
/// releases its key, the control change 123 ("All Notes Off") clears every voice, and
/// every other event asks nothing.
pub proof fn lemma_voice_action_by_event(event: MidiEvent)
    ensures
        match event.kind {
            MidiEventKind::NoteOn { key, velocity } => spec_voice_action(event) == if velocity >= 1 {
                VoiceAction::Start { key, velocity }
            } else {
                VoiceAction::Ignore
            },
            MidiEventKind::NoteOff { key, .. } => spec_voice_action(event) == VoiceAction::Release { key },
            MidiEventKind::ControlChange { controller, .. } => spec_voice_action(event) == if controller
                == 123 {
                VoiceAction::ClearAll
            } else {
                VoiceAction::Ignore
            },
            _ => spec_voice_action(event) == VoiceAction::Ignore,
        },
        spec_is_all_notes_off(event) <==> (event.kind matches MidiEventKind::ControlChange {
            controller,
            ..
        } && controller == 123),
{
}

} // verus!
