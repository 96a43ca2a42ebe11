# sound_garden

The core of a stack-based live-coding synthesizer, verified with Verus.

A program is a list of words; each word becomes an op that works on a
stack of stereo frames once per audio sample. The library holds what can be
stated and proved without floating point:

- `stack`, `ops`: the frame stack and the ops that only move frames
  (`dup`, `swap`, `rot`, `pop`, `dig:n`, `bury:n`, `ch:n`);
- `buffer`: the ring buffer behind delays, windows and reverb lines;
- `program`, `words`, `vocabulary`, `constants`: rewriting templates and
  quotations, planning the compilation, reading voice counts, note
  constants, and which op each word of a program names, with its
  arguments;
- `pattern`: gate and value patterns, parsed and compiled, their periods and
  their cells;
- `voices`: voice allocation for `poly` and MIDI-played voices;
- `scale`, `reverb`, `spectral`, `midi`, `migration`: scales, prime delay
  lengths, the spectral shuffle permutation, MIDI messages, and which op
  takes over the state of which on a program reload;
- `crdt`, `linear`, `engine`: the text, ids, undo history and layout of the
  collaborative editor, and the engine that keeps its characters, edges,
  edits and undone groups in sets shared between sessions;
- `help`: the index of the help text, term by term and group by group;
- `server`: the messages and options of the audio server, and the choice
  of a MIDI input.

`app/` renders a program to a WAV file: the virtual machine, the ops that
compute on samples, the compiler from words to ops and the meta data of
the collaborative engine, all on top of the library. `tests/` exercises the
library.

There is no live audio server and no MIDI input: playing to an audio
device, reading a MIDI port and the threads around them are left out, with
the crates that talk to the hardware. The library still holds
what the server decides (its messages, options and choice of a MIDI input)
and what MIDI input drives (message decoding, voice allocation).
