# agent_cli_rust

A command-line chat agent that calls tools (weather, calculator, time, files, shell,
web pages, sub-agents), with the decisions of the agent proved in Verus.

- `src/` is the verified library:
  - `history.rs`: messages, the shape the chat API expects, trimming of old rounds;
  - `agent.rs`: the agent loop as a state machine (turn limit, confirmation of
    dangerous tools, stop after repeated tool failures);
  - `stream.rs`: lines, server-sent events and deltas of a streamed reply;
  - `tools.rs`: the tool catalog, dispatch of a call, and each tool's result text;
  - `config.rs`: choosing the provider from `api_keys.yaml` and `AGENT_PROVIDER`;
  - `session.rs`: typed commands, the confirmation answer, the system prompt;
  - `text.rs`: trimming, decimal rendering, joining and byte-exact cutting of text.
- `app/` is the program around it: the REPL, HTTP requests, files, the shell, the
  YAML and JSON formats, and the calculator's floating-point evaluation.
- `tests/` runs the library on concrete values.
