# synth

The control logic of a small polyphonic FM synthesizer, verified with Verus.

- `src/` is the verified library:
  - `envelope`: the phase machine of the ADSR envelopes (which level step a
    tick takes and which phase follows), with its laws;
  - `voices`: round-robin allocation of a fixed set of voices;
  - `samples`: the ring of recent output samples that the oscilloscope draws;
  - `midi`: live MIDI messages parsed through `midly`, and the note each one
    plays or stops;
  - `ports`: choosing the MIDI input port from the user's answer;
  - `synth`: the synthesizer parameters.
- `app/` is the program around it: audio output (`rodio`), MIDI input
  (`midir`), the oscilloscope window (`macroquad`), and everything computed in
  floating point — oscillators, envelope levels, pitches and the mix.
- `tests/` exercises the library on concrete values.

`rodio` is not named in `Cargo.toml`: with it, the sources of the outside
crates grew past what this build allows, so `app/` names it without it being
fetched. `midir` is fetched but needs the system ALSA library to build.
