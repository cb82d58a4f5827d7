# shopping

A shopping list kept per user, with a command-line client and an HTTP server.

- `src/` is the verified library (Verus): items and the operations on a list
  (add with the next id, remove by id, update one field), the in-memory store
  with one list per user, the stable ordering and the text of list pages and of
  the email, money amounts on top of `rust_decimal`, reading Basic credentials
  from an `Authorization` header, the password hashing and metadata decisions of
  the file store, and what the prompt and the commands of the client decide.
- `app/` is the program around it: the axum server and its handlers, the file
  and network I/O, the reqwest client, clap parsing, and the serde forms of the
  library's types.
- `tests/` exercise the library with the real outside crates.

The client's commands are `list`, `add --name N --price P --quantity Q`,
`remove ID QTY`, `mark ID [--ticked]`, `reorder ID ORDER`, `total [--limit L]`
(the itemised total, with an alert when it is over the limit), `email
[ADDRESS]` (the list as an email body, handed to a mock sender) and `login`
(go on as another user).

Run the client with `shopping`, the server with `shopping serve`
(`API_ADDR`, `API_STORE_PATH` set where it listens and keeps its files).
