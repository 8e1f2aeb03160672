# auth_template

The verified core of a session-based login template (Leptos, Axum,
axum-login, SeaORM, passkeys): the rules that decide who may sign in, what a
signed-in user may open, and how accounts are created, changed and seeded.
Every public function in `src/` carries a `requires`/`ensures` contract, and
Verus checks every function against the contracts it relies on.

## Layout

- `src/text.rs` – trimming, lower-casing, ASCII case-insensitive comparison,
  searching and ordering of strings.
- `src/roles.rs` – roles, role sets and permission sets.
- `src/password.rs` – password hashing and checking (`password-auth`).
- `src/auth.rs` – account records, the signed-in user, the session auth hash,
  password and passkey sign-in policy.
- `src/login.rs` – throttling of failed sign-in attempts and the replies.
- `src/csrf.rs` – CSRF tokens (random bytes in URL-safe base64).
- `src/auth_state.rs` – the browser's auth snapshot and the route guards.
- `src/admin.rs` – the administration rules: status and role lists, user
  forms, user cards and rows.
- `src/account.rs` – password change, profile, passkey rules, user handles.
- `src/seed.rs` – seeding the administrator and an optional staff account.
- `src/config.rs` – environment-dependent server settings.
- `src/paths.rs` – locale-prefixed links.
- `src/messages.rs` – which translated message each page shows for a key.
- `src/user_cards.rs` – the user cards of the administration page: order by
  id, optimistic deletion, actions under way.
- `src/demo.rs` – the in-memory demonstration server and its endpoints.
- `app/main.rs` – a command-line front end: prints the server settings for
  `LEPTOS_ENV`, and plans a seeding run from the `SEED_*` variables.
- `tests/` – executable tests of the library.

The web server, the database store and the passkey ceremony (Leptos, Axum,
SeaORM, webauthn-rs) are not part of this build; the library holds the
decisions they rely on, as functions from plain values to plain values.
