# clean_dowman

A download manager that keeps a JSON tracking file of what it has to
download and resumes interrupted transfers.

- `src/` is the verified library (Verus): the tracking model, registering
  downloads, the run that decides which entries to check, reset, download or
  leave alone (a state machine driven by the application), the resumable
  download session, `%VAR%` expansion of destinations, the requests file's
  entries, the tracker's entry names, the log line format and the colour
  codes of the progress display.
- `app/` is the program around it: command line, files, HTTP, the Windows
  registry, the console progress bar and logging. It performs the actions the
  library asks for and reports the outcomes back.
- `tests/` runs the library on concrete inputs.
