# latch

Passkey auth for one user: tap a passkey to get a session cookie, and let the
reverse proxy ask `/verify` whether it is still good.

The rules are a verified library, the program around them is not:

| Where         | What                                                                  |
|---------------|-----------------------------------------------------------------------|
| `src/`        | the library, proved with Verus                                        |
| `src/outside.rs` | every call into another crate, and what is taken for granted of it |
| `app/`        | the program: files, sockets, systemd                                  |
| `tests/`      | the library on concrete values                                        |

## What is proved

- **Tokens** (`jwt`, `b64u`): what was issued is what verifying gives back,
  until it ends; nothing is accepted whose signature is not the HMAC of its
  header and payload.
- **Requests** (`server`, `http`): a session is let in by name, a browser
  without one is sent to the login page, a program gets 401; a session that
  was logged out stays out; a challenge is answered once and in time; cookies
  come back as they were set.
- **Redirects** (`config`): a browser is never sent anywhere but to this host
  or, by https, to a site that gets the session cookie.
- **Configuration** (`config`, `cmd::config`): the environment overrules the
  file field by field; the settings that `config init` puts down come to a
  configuration, with the defaults it shows; read line by line, the file says
  what it was made of, as long as no value needs escaping.
- **Ceremonies** (`server`): a session starts only in answer to an open
  challenge whose ceremony was accepted, and each challenge is used once; a
  body that makes no sense changes nothing; a registration that is accepted
  adds one passkey behind the others, a login changes at most the passkey that
  was used.
- **Files** (`state`): a denylist that is saved is loaded again; a signing key
  is kept once it is written.
- **Updates** (`cmd::update`): nothing is unpacked, installed or restarted
  before the archive was found to have its published SHA-256.
- **Commands** (`cli`, `cmd`): what every command line comes to, what each
  command prints and does, and with which code it fails.

What webauthn-rs accepts, OpenSSL, serde_json and URL parsing are taken as
they are.
