# ecw

The server of the "PlaneText" challenge: a small web site whose requests are
logged, encrypted with AES-128-CBC under IVs renewed by SHA-256, in the reply
headers. The page holding the flag is served only to requests that carry the
administrator's cookie.

- `src/` is the verified library: page table (`const_`, `const_::files`),
  routing of requests (`http_::handle_http`), replies (`http_::build_reply`),
  encryption and IV renewal (`crypto`), what each connection computes
  (`serve`), the administrator's start-up requests and log lines (`init`), and
  the random flag and cookie (`flags`). Calls into `aes`/`cbc`, `sha2`,
  `httparse`, `http` and `rand` stand behind the trusted items of `crypto`,
  `http_`, `init`, `flags` and `outside`.
- `app/` is the program around it: the tokio server, the reading of pages from
  disk, the start-up requests, and `ecw flags`, which writes a fresh flag and
  cookie.

Run `ecw flags` once to draw the flag and the cookie, then `ecw` to serve
(port 80, so usually with `sudo`).
