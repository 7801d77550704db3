# orchestrator

The core of a workflow orchestrator: it loads workflow definitions, finds the one that an utterance
means, runs it by way of a handler and keeps a log of what happened. The library under `src/` is
verified with Verus; what each function does is stated in its contract.

- `registry/`: reading and checking definitions, and planning how they are written and removed.
- `dispatch.rs`, `client.rs`, `service.rs`: from a request to the input of a handler and its result.
- `handlers/`: timers, commands, and agents; `runtime/`: what an agent's child process is given and
  what its report means.
- `activity/`, `agent_log/`, `rotation.rs`, `calendar.rs`: the two logs, one file a day.
- `router/`: from utterances to workflows, over scores that the caller computes.
- `server/`: frames, connections and the course of a run.
- `json/`, `table.rs`, `text.rs`, `bytes.rs`, `paths.rs`: what the rest is built on.

The library neither reads nor writes anything itself. Functions that depend on the outside world
take what was found there as arguments and return what is to be done; `app/` does it. Floating-point
numbers pass through the library as text or as bits.
