# prx_email

An email plugin whose decisions are verified with Verus.

- `src/` is the verified library. `plugin/` holds the plugin's rules: request and configuration
  checks (`checks`), attachment paths (`paths`), `References` headers (`headers`), the outbox
  delivery state machine (`outbox`), the runtime state with its sync scheduler and OAuth
  refresh (`runtime`), the steps of a folder sync (`sync`), SMTP delivery decisions
  (`delivery`) and MIME parsing results (`mime`). `db/` holds the store's rows and schema
  statements, `tool.rs` the `email.execute` tool, and `text.rs` the string building blocks.
- `app/` runs those decisions against SQLite, IMAP, SMTP, the file system and the environment.
- `tests/` exercises the library on concrete values.
