# Bollwark

A self-hosted CAPTCHA service. A visitor solves a proof-of-work puzzle whose difficulty grows
with the risk that the request carries; the site that embeds the widget then asks the service
whether the submission is to be accepted.

The rules of the service are a library that is verified with Verus. Every public function
states what it returns and what it changes, and the proofs are checked with the code.

- `src/puzzle` issues challenges and checks their solutions.
- `src/risk` scores requests and submissions: rates, headers, address reputation, TLS
  fingerprints, behaviour.
- `src/site` holds the registered sites with their policies and origins.
- `src/storage` holds challenges, sites and counters, and the rows that sites are kept in.
- `src/failover.rs` decides whether a claim that the service was down is believed.
- `src/api` answers requests: the decision on a puzzle, the steps of a verification, and the
  operator's requests.
- `src/dashboard` writes and reads the log of decisions.
- `src/client.rs` reads the service's answers on the side of the embedding site.
- `src/config.rs`, `src/startup.rs` and `src/watcher.rs` read the settings and decide what
  happens when the service starts and when a list changes.

The primitives come from other crates: hashes, message authentication codes, random numbers,
the clock, header maps, country databases, and the notations of addresses, identifiers and
dates. Each is called in one place, in `src/crypto.rs`, `src/headers.rs`, `src/ident.rs`,
`src/net.rs`, `src/time.rs`, `src/text.rs`, `src/risk/weights.rs` and `src/dashboard/geo.rs`,
where its contract states what the rest relies on.

`app` is the service around the library: it listens, reads files, and keeps the databases.
`tests` runs the library.
