# Strata

Strata is a read-only portfolio analysis tool: it gathers the pies of a
Trading 212 account and answers questions about them through a chat model
that can call portfolio tools. It never places trades or changes the account.

The library under `src/` is verified with Verus:

- `decimal` — broker decimals as mantissa and scale, with exact rounding to
  a number of decimal places and the checked arithmetic of the decimal crate.
- `trading212` — the pie data as the broker reports it, the client
  configuration, request paths, and the pie-by-pie fetch of pie details.
- `portfolio` — the portfolio summary: rounded values, portfolio and pie
  weights and target shares, with its model and laws.
- `tools` — the tool registry and the JSON envelope of tool results.
- `chat` — the chat-completions request and the reading of its reply.
- `agent` — the conversation model and the tool loop, as a state machine.
- `json` — JSON normalizing and quoting, and the whitespace test.
- `http` — which status codes report success.

`app/` holds the program: HTTP, the file cache, serde forms of the library's
types, the typed tools and the driver of the tool loop.
