# Volca Sample 2 Manager

Manages the samples of a KORG Volca Sample 2 over USB MIDI: shows its 200
slots, fetches and plays samples, loads and uploads WAV files, edits names,
writes samples back, and deletes them. Each of these works on one slot; there
are no operations on many at once besides the scan.

`src/` is a library verified with Verus. It holds everything that is decided or
computed on plain values:

- `audio`: speeds and rates, WAV files, mixing, resampling, playback steps
- `rounding`: the arithmetic of single and double precision, on integers
- `single`: single precision samples, by their bits, as 16-bit samples
- `waveform`: the outline that shows a sample
- `text`: decimal numbers, lines, search
- `proto`, `device`: messages, ports, framing, transfers
- `state`: the slots, the log and the audio data
- `effects`, `callbacks`: what each action of the user leads to
- `loading`, `upload`, `download`, `save`, `delete`, `scan`: the operations on
  slots, step by step

Each function says in its contract what it returns or changes; what holds
across functions is stated by the proof functions whose names begin with `law_`.

`app/` is the program around it: the window, the MIDI connection, the sound
output, and what is computed in floating point. `--list-ports` prints the MIDI
ports and ends.
