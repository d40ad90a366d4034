# Air Mouse

Hand gestures and spoken commands drive the desktop. A tracker streams hand
landmarks and a recogniser streams utterances, one JSON object a line; this
project decides what they mean and acts on it.

- `src/` is the decision core, written in Verus and verified: every rule with its
  contract, and proofs of what the rules guarantee together.
- `app/` does the rest: floating-point geometry, the clock, the input device, the
  other programs.
- `tests/` runs the core.

The core never does arithmetic on measured numbers. It holds them by their bit
patterns, compares them exactly, and asks for every number it needs: a step such as
`FrameStep::MeasurePalm` names the operands, and `Controller::resume` takes the
answer. Actions work the same way: what an action changes is recorded once the caller
has answered that it was done. Recorded before are where the cursor goes, the line
that announces a mode, when a spoken command was obeyed, and, as soon as its countdown
has passed, a shutdown. An action that fails ends the frame.

With `--dry-run` gestures are recognised and printed, and none is acted upon
(`report::effect`).

| Gesture | Action |
|---------|--------|
| Point with the index finger | Move the cursor |
| Pinch thumb and index finger | Left click |
| Pinch thumb and middle finger | Right click |
| Point with two fingers, move up or down | Scroll |
| Open palm, swipe sideways | Switch the workspace |
| Open palm, flip up or down | Step the volume |
| Raised fist, held | Close the tab; the next one needs an opened hand first |
| Clap twice, then lower the right hand | Power off |
| Say "shutdown now" or "shut down now" | Power off |
