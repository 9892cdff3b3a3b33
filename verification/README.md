# palit_client

The terminal client of the palit workstation: it reads controller events
from a pipe, runs them through a stack of views (home screen, timeline,
organ, keyboard, patch bay, popups), sends the sound engine its messages
and draws the views.

## Layout

- `src/` — the verified library (Verus). Each view is a state, a reducer
  and a focus grid, with contracts that say what every action does to the
  state and what is handed back to the main loop. Project documents are
  read from and written to an XML element type of the library's own;
  `xml.rs` parses project text with xmltree and converts it to that type.
  - `timing.rs`, `timeline.rs`, `components/`: sample offsets and columns,
    the timeline's tracks and regions, and the cells of its focus grid.
  - `focus.rs`: multi-focus grids and their navigation.
  - `layers.rs`: the stack of views and how the main loop turns it.
  - `events.rs`: the main loop's decisions on each event and each answer.
  - `routes.rs`, `modules/patch.rs`: the patch bay and its document form.
  - `modules.rs`, `modules/timeline.rs`, `document.rs`: project documents.
  - `views/`: the other views; `components/piano.rs`: the organ's key marks.
  - `waveform.rs`: the peaks a sound file's sketch is drawn from.
  - `ipc.rs`, `engine.rs`: controller messages in, sound engine messages out.
  - Public proof functions named `law_*` state the properties that hold
    across calls (round trips, inverses, invariants).
- `app/` — the program around the library: pipes, terminal drawing,
  reading files, waveform sketches of sound files and the main loop.
- `tests/` — tests of the library on concrete values.
