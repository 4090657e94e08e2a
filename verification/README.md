# WolfCode lessons

The lesson tools of the WolfCode editor: a course outline, running, testing and
handing in lessons, hints from a tutor, and reports to the teacher's dashboard.

- `src/` is the library. What the tools decide and compute stands there, with
  contracts that Verus proves. Two things are left to `app/`: how the path of a
  file falls into its parts, which is the platform's affair, and reading JSON
  into types.
  - `text`, `urls`, `json`: strings, URL path segments, JSON values
  - `files`: which file is run, tested or handed in, and for which lesson and course
  - `pytest`: reading the summary of a test run
  - `telemetry`, `events`: clock, session ids, events and request bodies
  - `bff`: requests to the gateway, its answers, the token
  - `runner`, `submit`, `tutor`, `auth`: the actions, step by step
  - `outline`, `panel`, `view`: the course outline and what the panels show
- `tests/` runs the library.
- `app/` connects it to the editor: panels, actions, files, keychain, network.

An action that waits for the outside world is a state machine in `src/`: a step
takes the state and what has come, and gives the next state and what is to be
done. `app/` does it and hands back what came.
