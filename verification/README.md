# daw_reabs

The session model of a small terminal digital audio workstation, written
in Verus: the library in `src/` is verified, and `app/` is the command-line
program around it (file and audio I/O, the terminal, floating-point mixing).

## Layout

| Module | What it holds |
|--------|---------------|
| `src/transport.rs` | The lock-free transport shared with the audio thread, and its loop arithmetic |
| `src/track.rs` | Clips and tracks: lengths, splitting, range queries |
| `src/project.rs` | The project: tracks, length, where a save goes |
| `src/render.rs` | Which part of a clip sounds inside a window of the timeline |
| `src/export.rs` | Export options, the WAV header, the export plan, stem names |
| `src/engine.rs` | Which cached clips sound in a real-time output block |
| `src/ui.rs` | The front end's state machine and key handling |
| `src/screen.rs` | Screen geometry and row labels |
| `src/text.rs` | Decimal formatting and string building |

Floating-point values (volume, pan, gain, tempo, normalization target) are
held in the library as their IEEE-754 bit patterns; the arithmetic on them
happens in `app/`.
