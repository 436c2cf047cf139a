# pis_code

A terminal editor for C# whose logic is written and proved in Verus.

- `src/model.rs` is the mathematical model of the editor: what the text, the
  cursor and the undo history are, and what each key press makes of them.
- `src/editor.rs` and `src/input.rs` are the editor and its keys, proved to do
  what the model says.
- `src/file_io.rs` and `src/text.rs` turn file contents into lines and back,
  and hold the helpers for strings and numbers.
- `src/check.rs`, `src/run.rs` and `src/report.rs` are the background check: when
  one may run, which tool it runs next, and what is read from a build's output.
- `src/syntax.rs`, `src/style.rs`, `src/spans.rs` and `src/ui.rs` lay out the
  screen.
- `src/session.rs` ties key presses, saves and checks together.
- `src/laws/` states and proves what holds across these parts, such as that redo
  takes back an undo, or that a saved buffer is read back as it was.

The regex engine, the highlighting engine and the layout solver are called from
the library; what is believed of them stands above each call.

`app/` is the program around the library: arguments, files, the terminal, the
build tool and the thread that a check runs on.
