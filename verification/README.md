# avatar_core

The verified core of a private desktop assistant that a paired phone can
drive: it recognises system intents in model replies and holds dangerous
ones for approval, plans keyboard/mouse automation, signs and checks an
HMAC-chained audit log, seals stored fields and session traffic with
AES-256-GCM, admits and authenticates mobile sessions, and decides what the
desktop host publishes and answers.

Layout:

- `src/` — the library, verified with Verus. Each module states its
  behaviour in `requires`/`ensures` contracts over spec functions; calls into
  outside crates (ring, aes-gcm, argon2, base64, serde_json, uuid, rcgen,
  jpeg-encoder) go through small trusted wrappers whose contracts name or
  describe their results.
- `tests/` — tests of the library on concrete values.
- `app/` — the host around it: device I/O, the SQLite vault, HTTP clients,
  the signaling server and the desktop window's commands.
