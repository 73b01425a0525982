# knocks

The logic of a site for practising programming with short exercises ("100 knocks") in
seven languages, written in Verus: every function of the library states what it does
in its contract, and Verus proves it.

- `src/` — the verified library: languages and their upstream runners (`language`), the
  problem schema and submissions (`problem`), the execution contract and how a run is
  judged (`playground`), the endpoint's decisions (`proxy`), progress and its migration
  (`progress`), the learner's session (`session`), the front end's choices (`lang`,
  `console`, `mobile`, `layout`), storage keys and an in-memory store (`storage`), the
  development server's path resolution (`server`), the static checks of problem files
  (`content`), and the planning and judging of the runs that check them (`docker`,
  `batch`). `text` holds the string operations everything else is stated over.
- `tests/` — tests of the library, run against the compiled crate.
- `app/` — the programs around it, in ordinary Rust: the Leptos front end, the Vercel
  endpoint, the development server and the command line that audits problem files.
  They do the I/O and leave every decision to the library.
