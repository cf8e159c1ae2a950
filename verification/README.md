# DBSC hello-world

A small HTTPS server for Device Bound Session Credentials (DBSC), with the logic of the handshake
as a library that is verified with Verus.

- `src/` is the library. `start`, `register`, `refresh`, `access` and `logout` answer the requests;
  `state` and `store` hold what the server keeps; `jwt`, `es256`, `base64url`, `json`, `headers`,
  `cookies` and `text` read what a request presents; `reply`, `session` and `log` make up what is
  answered and printed. `handshake` and `identifiers` state what holds over several requests.
- `app/` is the server around it: sockets, TLS, the environment, printing.
- `tests/` runs the library with the real crates.

## Running

Browsers run DBSC over TLS only. For `localhost`, make a certificate with `mkcert localhost
127.0.0.1 ::1`. In `chrome://flags`, set "Device Bound Session Credentials (Standard)" to
"Enabled – For developers".

| Variable           | Default                  |                              |
|--------------------|--------------------------|------------------------------|
| `DBSC_ORIGIN`      | `https://localhost:3000` | origin as the browser sees it |
| `DBSC_BIND`        | `127.0.0.1:3000`         | socket to listen on          |
| `DBSC_TLS_CERT`    | `localhost+2.pem`        | certificate, PEM             |
| `DBSC_TLS_KEY`     | `localhost+2-key.pem`    | key, PEM                     |
| `DBSC_COOKIE_NAME` | `__Host-auth_cookie`     | name of the bound cookie     |

## What the server does not enforce

The signature of a proof is verified and the outcome is printed; it decides nothing. A registration
is decided by the challenge that was offered to the login of the request: it has to come back in
time, and once. A refresh with a proof renews the cookie of a known session. A session is known
for thirty days from its registration.
