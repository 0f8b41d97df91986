# phrase_warden

A companion for a chat with a list of banned phrases. It keeps the list in a
Postgres table, obeys the commands of moderators (`!addban`, `!addmute`, `!dban`,
`!dmute` and their longer forms), takes over what the chat's own bot reports, and
drops a phrase when somebody says it and is not punished within ten seconds.

- `src/` is the library, verified with Verus: what is made of the frames and messages
  that come in, of the public list, of the phrases to ignore, and of lost connections.
- `tests/` runs the library on concrete values.
- `app/` is the program around it: the chat, the database, the web, the threads.

The library hands back the changes that the phrase table is to see, in their
order, and the fault that cut the work short, if one did. The program makes the
changes, and gives the connection up on a fault.

`src/laws.rs` states what holds of the library as a whole. The functions that are
trusted rather than proved stand in `src/text.rs` (parts of `std`),
`src/pattern.rs` (`regex`) and `src/seed.rs` (`chrono`).
