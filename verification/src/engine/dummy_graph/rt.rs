//! The audio thread's list of synths: synths are added and removed by commands from the
//! control thread, and removed synths go back to it to be freed off the audio thread.

use vstd::prelude::*;

use crate::midi::event::MidiEvent;
use crate::rt_channels::{pop_item, push_item, vec_capacity, RtConsumer, RtProducer};

verus! {

/// What the graph asks of a synth: take MIDI events and render audio. The library's synth
/// is `VoiceSynth`, whose steps are verified against `spec_midi_step` and
/// `spec_process_step`.
pub trait Synth: Sized {
    /// The buffer that the synth renders into.
    type Output;

    /// Whether `after` is what the synth `self` may become on `event`.
    spec fn spec_midi_step(&self, event: MidiEvent, after: Self) -> bool;

    /// Reacts to one MIDI event.
    fn handle_midi_event(&mut self, event: MidiEvent)
        ensures
            old(self).spec_midi_step(event, *final(self)),
    ;

    /// Whether `after` is what the synth `self` may become when it renders a block.
    spec fn spec_process_step(&self, after: Self) -> bool;

    /// Renders the next block of audio into `output`.
    fn process(&mut self, output: &mut Self::Output)
        ensures
            old(self).spec_process_step(*final(self)),
    ;
}

/// A change to the list of synths.
pub enum Command<S> {
    Push(S),
    Remove(u8),
}

/// One command applied to the synths `synths`: the new synths and the acknowledgement.
/// `has_room` says whether the list can grow without reallocating; only `Push` reads it.
/// A synth that is pushed without room, or removed, is handed to the retirement queue.
pub open spec fn spec_step<S>(synths: Seq<S>, cmd: Command<S>, has_room: bool) -> (Seq<S>, bool) {
    match cmd {
        Command::Push(s) => if has_room {
            (synths.push(s), true)
        } else {
            (synths, false)
        },
        Command::Remove(id) => if (id as int) < synths.len() {
            (synths.remove(id as int), true)
        } else {
            (synths, false)
        },
    }
}

/// Whether the command hands a synth to the retirement queue: a push without room, or the
/// removal of an existing synth. No other command touches that queue.
pub open spec fn spec_retires<S>(synths: Seq<S>, cmd: Command<S>, has_room: bool) -> bool {
    match cmd {
        Command::Push(_) => !has_room,
        Command::Remove(id) => (id as int) < synths.len(),
    }
}

/// A sequence of commands, each with the room flag it met, applied in order.
pub open spec fn spec_apply_all<S>(synths: Seq<S>, steps: Seq<(Command<S>, bool)>) -> Seq<S>
    decreases steps.len(),
{
    if steps.len() == 0 {
        synths
    } else {
        let before = spec_apply_all(synths, steps.drop_last());
        spec_step(before, steps.last().0, steps.last().1).0
    }
}

/// The synths as the audio thread holds them.
#[verifier::reject_recursive_types(S)]
pub struct Graph<S> {
    pub cmd_rx: RtConsumer<(u32, Command<S>)>,
    pub ack_tx: RtProducer<(u32, bool)>,
    pub retire_tx: RtProducer<S>,
    pub synths: Vec<S>,
}

impl<S: Synth> Graph<S> {
    /// Processes queued commands until the queue is empty, each with `process_command`,
    /// and acknowledges each with its id and result. One call handles at most `usize::MAX`
    /// commands.
    ///
    /// The synths change only by commands applied in order: the result is `spec_apply_all`
    /// of some sequence of commands with their room flags.
    pub fn process_incoming_commands(&mut self)
        ensures
            exists|steps: Seq<(Command<S>, bool)>|
                spec_apply_all(old(self).synths@, steps) == final(self).synths@,
    {
        let ghost start = self.synths@;
        let ghost mut steps: Seq<(Command<S>, bool)> = Seq::empty();
        let mut budget: usize = usize::MAX;
        while budget > 0
            invariant
                start == old(self).synths@,
                spec_apply_all(start, steps) == self.synths@,
            decreases budget,
        {
            match pop_item(&mut self.cmd_rx) {
                Some((id, cmd)) => {
                    let ghost c = cmd;
                    let ghost before = steps;
                    let res = self.process_command(cmd);
                    proof {
                        steps = steps.push((c, res));
                        assert(steps.drop_last() =~= before);
                    }
                    let _ = push_item(&mut self.ack_tx, (id, res));
                    budget = budget - 1;
                },
                None => {
                    budget = 0;
                },
            }
        }
    }

    /// Hands `event` to synth `id`, if there is one: that synth takes the step that its
    /// `spec_midi_step` describes; the other synths are untouched.
    pub fn handle_midi_event(&mut self, id: u8, event: MidiEvent)
        ensures
            final(self).cmd_rx == old(self).cmd_rx,
            final(self).ack_tx == old(self).ack_tx,
            final(self).retire_tx == old(self).retire_tx,
            final(self).synths.len() == old(self).synths.len(),
            forall|j: int|
                0 <= j < old(self).synths.len() && j != id ==> final(self).synths@[j] == old(
                    self,
                ).synths@[j],
            id >= old(self).synths.len() ==> final(self).synths@ == old(self).synths@,
            (id as int) < old(self).synths.len() ==> old(self).synths@[id as int].spec_midi_step(
                event,
                final(self).synths@[id as int],
            ),
    {
        if (id as usize) < self.synths.len() {
            self.synths[id as usize].handle_midi_event(event);
        }
    }

    /// Lets synth `id`, if there is one, render into `output`: that synth takes the step
    /// that its `spec_process_step` describes; the other synths are untouched. What is
    /// written to `output` is floating-point work and is not stated.
    pub fn process(&mut self, id: u8, output: &mut S::Output)
        ensures
            final(self).cmd_rx == old(self).cmd_rx,
            final(self).ack_tx == old(self).ack_tx,
            final(self).retire_tx == old(self).retire_tx,
            final(self).synths.len() == old(self).synths.len(),
            forall|j: int|
                0 <= j < old(self).synths.len() && j != id ==> final(self).synths@[j] == old(
                    self,
                ).synths@[j],
            id >= old(self).synths.len() ==> final(self).synths@ == old(self).synths@,
            (id as int) < old(self).synths.len() ==> old(self).synths@[id as int].spec_process_step(
                final(self).synths@[id as int],
            ),
    {
        if (id as usize) < self.synths.len() {
            self.synths[id as usize].process(output);
        }
    }

    /// Applies one command; `has_room` tells whether the list can grow without
    /// reallocating. A synth that is refused or removed goes to the retirement queue;
    /// that queue is opaque and its consumer runs on another thread, so the contract states
    /// only which commands touch it (`spec_retires`), not what it then holds.
    pub fn apply_command(&mut self, cmd: Command<S>, has_room: bool) -> (r: bool)
        ensures
            (final(self).synths@, r) == spec_step(old(self).synths@, cmd, has_room),
            final(self).cmd_rx == old(self).cmd_rx,
            final(self).ack_tx == old(self).ack_tx,
            !spec_retires(old(self).synths@, cmd, has_room) ==> final(self).retire_tx == old(
                self,
            ).retire_tx,
    {
        match cmd {
            Command::Push(synth) => {
                if !has_room {
                    retire_synth(&mut self.retire_tx, synth);
                    return false;
                }
                self.synths.push(synth);
                true
            },
            Command::Remove(id) => {
                if id as usize >= self.synths.len() {
                    return false;
                }
                let synth = self.synths.remove(id as usize);
                retire_synth(&mut self.retire_tx, synth);
                true
            },
        }
    }

    /// Applies one command, asking the list for room only for `Push`. The result follows
    /// `spec_step` with the acknowledgement as the room flag, which `spec_step` reads for
    /// `Push` only: a `Push` is refused exactly when the list is at its capacity, which
    /// this contract does not name.
    pub fn process_command(&mut self, cmd: Command<S>) -> (r: bool)
        ensures
            (final(self).synths@, r) == spec_step(old(self).synths@, cmd, r),
            final(self).cmd_rx == old(self).cmd_rx,
            final(self).ack_tx == old(self).ack_tx,
            !spec_retires(old(self).synths@, cmd, r) ==> final(self).retire_tx == old(
                self,
            ).retire_tx,
    {
        let has_room = match cmd {
            Command::Push(_) => self.synths.len() < vec_capacity(&self.synths),
            _ => true,
        };
        self.apply_command(cmd, has_room)
    }
}

/// Hands a synth to the retirement queue, to be freed off the audio thread. When the
/// queue is full the synth is dropped here. Whether the queue had room depends on the
/// consumer's thread, and the queue is opaque, so nothing is stated of the outcome.
fn retire_synth<S>(tx: &mut RtProducer<S>, synth: S) {
    match push_item(tx, synth) {
        Ok(()) => {},
        Err(_synth) => {},
    }
}

/// A refused command changes nothing: when the acknowledgement is `false`, the synths
/// stay as they were.
pub proof fn lemma_refused_command_changes_nothing<S>(synths: Seq<S>, cmd: Command<S>, has_room: bool)
    ensures
        !spec_step(synths, cmd, has_room).1 ==> spec_step(synths, cmd, has_room).0 == synths,
{
}

/// Pushing a synth (with room) and then removing the last synth restores the synths.
pub proof fn lemma_push_then_remove_restores<S>(synths: Seq<S>, synth: S, has_room: bool)
    requires
        synths.len() < 256,
    ensures
        ({
            let (pushed, ack1) = spec_step(synths, Command::Push(synth), true);
            let (removed, ack2) = spec_step(pushed, Command::Remove(synths.len() as u8), has_room);
            ack1 && ack2 && removed == synths
        }),
{
    assert(synths.push(synth).remove(synths.len() as int) =~= synths);
}

/// Removing synth `id` that exists takes out exactly that synth, which is retired: the
/// synths before it keep their places and the ones after it move down by one; removing a
/// synth that does not exist is refused and retires nothing. Pushing a
/// synth with room appends it after the others; without room it is refused and retired.
pub proof fn lemma_push_appends_and_remove_takes_out_that_synth<S>(synths: Seq<S>, synth: S, id: u8, has_room: bool)
    ensures
        ({
            let (after, ack) = spec_step(synths, Command::Remove(id), has_room);
            &&& (id as int) >= synths.len() ==> !ack && after == synths && !spec_retires(
                synths,
                Command::Remove(id),
                has_room,
            )
            &&& (id as int) < synths.len() ==> {
                &&& ack
                &&& spec_retires(synths, Command::Remove(id), has_room)
                &&& after.len() == synths.len() - 1
                &&& forall|i: int| 0 <= i < id ==> after[i] == synths[i]
                &&& forall|i: int| id <= i < synths.len() - 1 ==> after[i] == synths[i + 1]
            }
        }),
        ({
            let (after, ack) = spec_step(synths, Command::Push(synth), has_room);
            &&& ack == has_room
            &&& spec_retires(synths, Command::Push(synth), has_room) == !has_room
            &&& has_room ==> after.len() == synths.len() + 1 && after[synths.len() as int] == synth
                && forall|i: int| 0 <= i < synths.len() ==> after[i] == synths[i]
            &&& !has_room ==> after == synths
        }),
{
}

} // verus!
