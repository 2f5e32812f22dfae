# zeroai

`0ai` is a configurable, agentic AI command line for orchestrating bots at
home: chat with a model of your choice, let it propose shell commands that you
confirm, extend it with MCP servers, and talk to other agents on the local
network.

The crate is split in two:

- `src/` is the library, written in Verus and proved against its contracts:
  slash-command completion and input classification, the chat state machine
  (what each background event does to the display and the stored
  conversation), session bookkeeping, the model catalogue and provider choice,
  reading provider replies, the MCP tool directory and JSON-RPC reply handling,
  mDNS discovery records and advertisements, the A2A messages, the prompt
  style, and the planning of shell commands (always run directly, never
  through a shell).
- `app/` is the program around it: the terminal loop and menus, the redb
  database, HTTP clients and the A2A server, MCP processes, mDNS and the
  Ctrl+C handler. It asks the library what to do and carries it out.

`tests/` exercises the library on concrete values.
