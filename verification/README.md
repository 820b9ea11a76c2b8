# project-mouse

A task-bound wake lock for Windows with a rules engine behind it: it keeps the machine awake
(and, in the presenting mode, the display on) for exactly as long as the active profile's rules
ask for, and releases everything on exit.

## Layout

- `src/` is the library, written and proved with Verus. Every public function states what it
  returns or changes in `requires`/`ensures` over mathematical models (`Seq`, `Map`, `int`,
  views), and the properties that span several calls are public proof functions (`lemma_*`).
  - `modes`, `rule`, `snapshot`, `evaluator`: the three wake modes, the rule model and its
    evaluation against a sampled snapshot.
  - `power`, `engine`: the idempotent power reconciler and the engine that owns it.
  - `idle`, `input_engine`, `motion`: the idle clocks, the opt-in input engine, cursor motion.
  - `awake`: the "why is my PC awake" reduction of the OS aggregate.
  - `profiles`, `commands`, `startup`, `config`, `shell`, `logs`: profile bookkeeping, what the
    settings window and the tray compute, configuration decisions, the log tail.
  - `import`: the Move Mouse `Settings.xml` importer; XML parsing is delegated to `roxmltree`
    behind one trusted wrapper.
  - `platform`: the pure pieces of the OS readings (process-list cadence, power status, local
    time, notification state, executable names).
- `tests/` exercises the library on concrete values.
- `app/` is the tray application around it: the Win32 backends, the config file and its JSON
  form, logging, the settings window's commands and the tray shell.
