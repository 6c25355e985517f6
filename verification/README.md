# pheme_va

A speech-to-text workbench for incident reporting: WAV audio goes through a
speech gate, a recognizer (whisper.cpp or a Zipformer model) and a rule-based
cleanup, and the transcript can be analysed for incident facts. The library
also holds the logic of a terminal bench for models, recordings and
telemetry: its key handling, state, run reports and screen text.

The library (`src/`) is written in Verus and proved against its contracts:

- `text`, `transcript`, `dictionary`, `incident`: transcript normalisation and
  guards, dictionary prompts, incident fact extraction.
- `engine`, `audio`, `zipformer`, `whisper`, `server`: the pipeline's
  decisions, audio shape checks, recognizer configuration and token decoding,
  the HTTP service's request rules.
- `model`, `model_catalog`, `download`, `rebuild`, `build_env`, `build_task`:
  the model manifest and catalog, downloads, adapter rebuilds and their
  environment.
- `metrics`, `batch`, `series`, `reports`, `run_record`, `history`, `logs`:
  telemetry configuration, batching, series grouping, the run report store
  and how a run's end is recorded, the saved history's bounds, and the log
  store.
- `navigation`, `session`, `screens`, `panels`, `folder`, `layout`, `tui`,
  `config`, `run_names`: the bench's key handling, its answers to the
  inference worker, the text of its screens, the folder browser, layout
  arithmetic and configuration.

`app/` is the program around it: command-line parsing, WAV decoding and
resampling, the recognizers, the HTTP service, metrics plumbing and
downloads. It has no terminal front end: the bench's drawing, input and
recording devices are not part of it. `tests/` exercises the library.
