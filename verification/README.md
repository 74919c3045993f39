# playwright_api

Verified decision logic of a generator that turns the Playwright API
description (JSON) into Rust binding skeletons, and of the API request
context's body handling.

- `src/` (Verus): the API description model (`api`), text and case helpers
  (`text`, `case_conv`), identifier recipes (`naming`), the Rust type chosen
  for each type expression (`rust_type`), the declared structs and enums
  (`decl`), methods and events (`methods`), one module per interface
  (`module`), and where a fetch request's body goes (`fetch`). Each public
  function's contract states its result exactly over spec functions; laws
  relating the functions are proof functions beside them.
- `app/`: reads the JSON description, checks it with `to_tokens_accepts`,
  and writes the library's declarations out as tokens with `quote`; also the
  request context's construction and asynchronous `fetch`.
- `tests/`: concrete scenarios for every public function and law.
