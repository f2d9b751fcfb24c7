# probe

`probe` is an agent preflight and drift scanner. Pointed at a repository it
detects the project stacks, git state, tools, agent-suite tools and lockfiles
(`scan`), saves that as a snapshot (`snapshot`), compares the current state with
a snapshot (`diff`), turns a scan into blockers, warnings, gates and commands to
run (`doctor`), and gives a compact cold-start read of the repository (`brief`).

## Layout

- `src/` is the library, verified with Verus. Every function states its result
  in `requires`/`ensures` over mathematical models (`Seq`, `Map`, views of each
  record); the laws of the library are public proof functions (`law_*`).
  - `text`, `order`, `seq_facts`: characters, string order, sequence facts.
  - `detect`, `git`, `tools`, `scan`: what a scan is made of.
  - `diff`, `doctor`, `brief`, `report`: what is made of scans, and their text.
  - `cli`, `error`, `snapshot`: the command line's decisions.
- `app/` is the command line: argument parsing, reading the file system and
  running `git` and the tool binaries, JSON in and out.
- `tests/` exercises the library on concrete values.
