# just_convert

The rules of Just Convert, a local desktop converter for audio, PDF, image and
Office files, written in Verus and proved against their contracts.

The library decides; the application around it acts. Everything that depends on
the disk, the clock, the environment or an engine's run is handed to the library
as plain values (what lies at a path, a directory listing, the current time,
what a probe found), and the library answers with plain values (the job to
queue, the engine command line, the staging path, the error to report).

## Layout

- `src/text.rs`, `src/paths.rs`: texts and paths as sequences of characters,
  with the operations the rules need (trimming, case folding, decimal notation,
  file names, extensions, parents, joins, containment).
- `src/domain/`: jobs, converter capabilities and file-browser entries, each with
  its mathematical model.
- `src/application/job_queue.rs`: the FIFO queue with a limit on running jobs.
- `src/application/job_service.rs`: the job lifecycle (accept, start, progress,
  cancel, complete, restore after a restart, history cleanup) and the laws that
  relate these operations.
- `src/application/folder_batch.rs`: folder conversions: which files are taken,
  in what order, and the collision-free output names.
- `src/application/*_converter.rs`: request validation, staging names, engine
  command lines, and each conversion from start to finish: the runs in order,
  what each result means, the checks a staged output must pass before it is
  published, and the clean-up on failure. The engine runs, file moves and
  reads are closures supplied by the application (`engine_run.rs` names what
  they answered), so the conversions are proved for every answer.
- `src/application/dependency_service.rs`, `converter_registry.rs`,
  `bootstrap.rs`: optional dependencies, their overrides and the conversion
  families offered.
- `src/application/file_manager.rs`: the file browser's naming, placement,
  protection and listing rules.
- `src/platform.rs`: where engines are searched for, in which order.
- `app/`: the desktop side: processes, files, SQLite databases, engine discovery
  and a JSON-lines command interface on standard input.
- `tests/`: executable tests of the library.
