# gpgme-sq

The GPGME API subset used by pacman / libalpm, backed by Sequoia-PGP and the
`gpg-sq` command line tool, with its logic verified by Verus.

## Layout

- `src/` — the verified library (Verus). Every operation of the API is a
  function on plain values with a contract:
  - `error`, `data`, `global`, `context`, `ffi_types` — error codes and
    messages, in-memory data objects, process-wide settings, the context and
    the result records;
  - `keyring` — keyring parsing, certificate selection (key lookup, keylist
    search, export), the GPGME key record of a certificate, parameter parsing;
  - `crypto` — which certificates sign, encrypt and decrypt, and what each
    signature result records;
  - `keygen` — key-generation parameters;
  - `api` — the GPGME operations themselves (`gpgme_*`), one module per area;
  - `text` — character-level string helpers.
  Calls into Sequoia and the few standard-library conversions whose results
  the contracts speak of go through small trusted wrappers, each documented
  with what its contract claims.
- `app/` — the C ABI (`#[no_mangle] extern "C"` entry points): pointer
  handling, C layouts of the result records, file and process I/O, the
  passphrase callback, and Sequoia's streaming verifier and decryptor helpers.
- `tests/` — tests of the library on concrete values, including generated keys.
