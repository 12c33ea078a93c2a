# aaw

The realtime logic of a small audio workstation, written in Verus and verified.

- `src/midi`: decoding raw MIDI messages, transposition, key and channel masks, and the
  decisions of the MIDI input runtime (stale inputs, auto-connect slots).
- `src/engine`: the synth graph (routing MIDI events to sources, mixing order, the
  commands from the control thread and how each one changes the graph), the list of
  synths, and effects with their parameter requests. What reaches the queues shared with
  other threads (acknowledgements, retired synths) is not stated: those queues are opaque.
- `src/effects`: the gain effect's parameters.
- `src/synths`: the test synth: voice allocation, and the per-block loop that mixes the
  voices and drops the faded ones, with the floating-point sound left to a renderer in
  `app/`.
- `src/audio`: output selections, device information, block shapes, and the choice of
  the output stream configuration.
- `src/rt_channels.rs`: the realtime queues (`rtrb`) and what is assumed of them.

`app/` holds the program around the library: the audio and MIDI backends (cpal, midir),
the floating-point signal processing, serde copies of the saved types, and `main`.
