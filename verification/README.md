# takusu_agent

The verified core of the takusu resident agent, written in Verus.

The agent talks with its user by text or voice, plans with the takusu
planner server, and proposes changes that the user approves on a screen, by
voice or not at all, depending on the approval layer. This crate holds the
parts of it that decide: which changes need which kind of approval, what a
turn collects from its tools and how it ends, how proposals are identified
and executed, how the conversation history is trimmed to the model's
context, which planner events are due and how they are delivered, what the
device surface shows, and what is read back or spoken. Each public function
states in its `ensures` what it returns or changes, and Verus proves the code
against it. Where a result rests on the clock, on randomness or on the
machine's time-zone database (fresh identifiers, the current time, dates in
a named zone), the contract states what holds of every outcome: the shape of
a UUID, for instance, but not which UUID.

The loops that drive a session (asking the language model, running tools,
recording and playing audio) are not part of this crate; the decisions they
take at each step are, in `turn`, `change_plan`, `history` and `audio`.

Layout:

- `src/` — the verified library, one module per concern; `src/lib.rs`
  lists them.
- `tests/` — tests of the library on concrete values.
- `app/` — what the library leaves to ordinary Rust: serde forms of the
  library's types, the statistics file, the broadcast of surface updates,
  the host of asynchronous tools and time-zone formatting.

The outside crates are called through small trusted wrappers, each with a
doc comment saying what its contract claims: `jiff` (timestamps),
`serde_json` (reading JSON members), `uuid` (fresh identifiers).
