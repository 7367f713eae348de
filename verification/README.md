# important

A terminal front end for chatting with a local language model: the upper two
thirds of the screen show the streamed answer, the lower third is the prompt.

- `src/` is the verified library (Verus): ANSI styling (`color`), the screen
  layout and its text operations (`term`), the session state with the prompt
  editing rules and the conversation (`state`), and character helpers (`text`).
- `app/` is the program around it: terminal I/O with crossterm, the model
  connection with ollama-rs, and the event loop on tokio.
- `tests/` runs the library on concrete values.
