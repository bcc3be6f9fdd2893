# ghwf: GitHub workflow

`ghwf` drives a GitHub issue through a fixed sequence of phases (pre-plan,
prep-and-plan, implement, review, finished), one `ghwf work-on <issue>` at a
time. Inside an agent session each run reports the current phase, what is new
since the last look, and what to do next; outside one it launches the session
and supervises it.

## Layout

- `src/` is the library, verified with Verus. It holds everything `ghwf`
  decides, parses and writes: which approvals advance a phase, who may give
  them, what is news to a session, which issue is picked next, which branches
  are garbage, how settings files are merged, and every text that is posted.
- `app/` is the program around it: the command line, `git` and `gh`, files,
  signals, prompts.
- `tests/` holds the library's tests.

## How the library meets the world

- `git` commands are run by a function that the caller hands in, held in a
  `record::Recorded` that keeps, for the proofs alone, what was called and what
  came back. Contracts relate that record before and after: which commands are
  run, in which order, and how the result follows from what they came to. The
  same holds of claiming an issue and of listing its children.
- Work that alternates with outside steps (preparing a PR, converting a clone,
  collecting garbage, waiting for news, supervising a session, asking the setup
  questions) is a function from the step taken and its outcome to the next step.
- GitHub's replies, files, the clock and the agent's name arrive as plain values.
- A few calls into other crates are trusted: JSON and TOML documents, SHA-256,
  Base64, URL parsing and upper-casing. Each is a small wrapper that names what
  the crate computes; its doc comment says what is taken on trust.

## Where to start reading

- `workflow`, `run`, `work_on`: a `work-on` run, from what was fetched to the
  report.
- `threads`, `options`, `render`: what the conversation threads hold, and what
  is posted on them.
- `next`, `launch`, `wait`: picking an issue, running its session, and waiting
  for news.
- `collect_garbage`, `plan_cleanup`, `implement`, `git`: the branch.
- `config`, `config_schema`, `init`, `install`, `labels`: setting a project up.

The public proof functions state what holds across functions, such as that a
repeated run reports nothing, that strangers change nothing, and that every
approval is taken once.

## Environment

- `GHWF_ISSUE` names the issue a session was launched for.
