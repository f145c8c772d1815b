# cliclack_yaml

Interactive command-line prompt flows described as data. A flow is a list
of steps (banners, questions, choices, passwords, spinners, progress bars);
steps may carry a condition on the outcome of an earlier named step, and
their texts may refer to variables as `{name}`.

## Layout

- `src/` is the library, verified with Verus.
  - `engine.rs`: a run of a flow as a state machine. `PromptRun::advance`
    takes the user's `Reply` and returns the next `Request`; its contract
    (`transition`) states which step comes next, what it asks and what the
    answer stores.
  - `variables.rs`: `{name}` and `{input}` interpolation and the storing of
    output values.
  - `context.rs`: the variables of a run and the outcomes of named steps,
    kept as association lists with unique names.
  - `settings.rs`: the set-once app root and prompt folder, and where a
    prompt file is looked for.
  - `style.rs`: banner colours, rendered by `console`.
  - `steps/`: the rules and bookkeeping of each kind of step (input and
    password validation, choice items and hints, progress plans, ...).
  - `laws.rs`: properties of the library as a whole, as proof functions.
- `app/` is ordinary Rust around the library: thread-local settings, prompt
  files, YAML and JSON reading, and the terminal dialogue through `cliclack`.
- `tests/` runs the library on concrete values.
