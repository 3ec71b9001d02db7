# bobaclaw

The decision logic of the BobaClaw ChatOps agent, proved against its
contracts: how replies are sanitized and stored, when a session is compacted
and what survives, how the tool loop ends, which turns a new message cancels,
how Telegram messages are parsed, formatted and split, what the web channel
accepts, and how every built-in tool checks its arguments and words its reply.

* `src/` is the verified library. Calls into outside crates (`pulldown-cmark`,
  `reqwest` for its URL parser, `serde_json`, `cron`, `chrono`, `uuid`,
  `tokio-util`) sit behind small trusted wrappers whose contracts name or
  state what the call returns.
* `tests/` holds ordinary Rust tests of the library.
* `app/` is the runtime around it: JSON wire formats and tool schemas,
  workspace files, the scope gate's locks and tokens, and HTTP calls (fetched
  pages, the Telegram Bot API).

What `app/` does not hold: no driver runs the agent's tool loop, subagent
runs, spawn completions, exec, skills, media downloads or the web server. Those
drive the model client, the run ledger, the sandbox and the skill store, which
belong to the project's other crates; the library holds the decisions they
take (the step functions and plans in `src/`), ready for such a driver.
