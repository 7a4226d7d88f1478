# subreader

The verified core of a cross-device e-book reader.

- `src/` is the library, written in Verus: hybrid logical clocks and the
  sync engine's decisions, the sync scheduler and file-transfer state
  machines, plain-text and EPUB parsing (container, package document, tables
  of contents, XHTML to DOM, resources), the client authentication state
  machine, the backend's request rules and password checks. Verus proves
  every function free of panics and overflow, and the public ones against
  the contracts they state; calls into `zip`, `quick-xml`, `sha2`,
  `encoding_rs`, `chardetng`, `argon2` and `uuid` go through small trusted wrappers
  whose contracts say what is assumed of them.
- `app/` is the runtime around it: HTTP clients (`reqwest`), the async
  drivers of sync and authentication (`tokio`), file transfers, the token
  file, signed access tokens (`jsonwebtoken`) and the operation records. It performs the I/O the library asks for and hands results back.
- `tests/` exercise the library on concrete values.
