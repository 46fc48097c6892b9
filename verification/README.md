# scx_loader (verified core)

The logic of the sched_ext loader tools, written in Verus and proved
against its contracts:

- `src/sched.rs`: the scheduler and mode enumerations and their names.
- `src/config.rs`: the configuration model, flag resolution, configured
  modes, the default configuration and the config-file lookup order.
- `src/ctl.rs`: the decisions of the `scxctl` client (name validation,
  prefix handling, mode choice).
- `src/backend.rs`: the service-backend config file (read and rewrite, with
  the read-after-write law) and the scheduler list.
- `src/journal.rs`: flattening of journal entries into display lines.
- `src/tui.rs`: the terminal front-end as a state machine from key and
  reply to next state and requests.
- `src/install.rs`: destination paths of the install task.
- `src/text.rs`: string helpers with their specifications.

`app/` holds the programs around the library: D-Bus and systemctl calls,
file I/O, terminal drawing and argument parsing. `tests/` runs the library
on concrete values.

Two collections are kept in `Vec`s with their order stated as invariants.
The scheduler table of the configuration (`SchedTable`) is a `Vec` of
entries whose keys are unique, viewed as a `Map`, where a hash map keyed by
`String` would serve; the scheduler list of the service backend is kept
strictly sorted by `insert_sorted`, where a `BTreeSet<String>` would serve.
vstd specifies those std maps and sets only for key types whose `Eq`/`Ord`
it knows to obey its model (`obeys_cmp`, `obeys_key_model`), which it does
not state for `String`, so with them nothing about the contents could be
proved.
