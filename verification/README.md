# user_service

User registration, login, sessions and profiles, written in Verus.

`src/` is the verified library:

- `utils/` — password policy and bcrypt hashing, profile field rules
  (nickname, phone, avatar), HMAC-signed session cookies, session IDs, the
  clock, and character helpers.
- `models/` — users, sessions and the two rate limiters (login failures per
  email, requests per IP), each with a mathematical model (`Map`s) that the
  contracts speak of.
- `services/auth_service.rs` — registration, login, logout, session lookup,
  profile and password changes, with their outcomes stated as spec
  functions, and the laws that relate them (a registered user can log in, a
  session identifies its user until it expires, failed logins look alike,
  lockouts, logout).
- `middleware/`, `routes/` — the `sid` cookie, client IP resolution, the
  `Set-Cookie` value and the error responses.
- `config.rs` — configuration from raw environment values.

`app/` is the HTTP server (Axum): it reads the environment, runs the router
and converts between JSON and the library's types.

`tests/` runs the library on concrete values.
