# SoroScope

What Soroban contract calls consume: analyzed, compared between two versions of a contract, and
worked through as jobs.

- `src/` is the library. Every function in it states what it does in a contract, and Verus proves
  it. What comes from other crates stands behind small functions whose contracts say what is
  relied on.
  - `parser`, `scval`, `json`: JSON arguments become contract values.
  - `comparison`, `double`, `rounding`, `text`: percentages of change, alerts, and the report.
    Double-precision numbers are held by their bits, so that the alerts can be reasoned about.
  - `jobs`, `queue`, `worker`, `webhook`, `time`: the life of a job, from its submission to the
    notification that it has ended.
  - `api`, `form`, `cli`, `config`, `simulation`: what requests, the command line and the settings
    ask for, and how they are answered.
- `tests/` runs the library on concrete values.
- `app/` is the program around it: the HTTP server, the tasks, the settings of the environment.
  It reaches the simulation service behind the RPC providers over HTTP.
