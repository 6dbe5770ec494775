# kiro_provider

The decision logic of a client for the Kiro API that works with several credentials: which endpoint
and which HTTP client serve a credential, when a request is sent again, which credential is reported
and why, how long to wait, and what a caller is told in the end.

The library never talks to the network. A call is a value (`call::Call`) that hands out one action
at a time and is told what came of it:

    let (mut call, mut action) = provider.call_api(body, user_id, false, total, available)?;
    loop {
        let event = perform(action);
        (call, action) = call.step(event);
    }

## Layout

- `src/`: the library, verified with Verus.
  - `provider`: endpoints, clients, proxies, the start of calls
  - `call`: the course of a call, step by step
  - `trace`: what holds of every call, whatever happens to it
  - `error`: what a call can fail with, and how it is said
  - `body`: what the body of a response says, and its summary
  - `request`: token estimates, and request bodies in the logs
  - `retry_after`, `timing`: the `Retry-After` header, cooldowns and backoff
  - `json`, `text`: documents and texts
- `tests/`: tests of the library.
- `app/`: the provider at work, over `reqwest` and `tokio`.

## What is not proved

Functions marked `external_body` and the one `assume_specification` state what is believed of
`serde_json`, `chrono`, `fastrand`, `reqwest` and the standard library. The comment above each of
them says what that is.
