# road7

A reverse proxy whose decision logic is a Verus-verified library.

- `src/` is the library. Each module states its behaviour in `requires` /
  `ensures` contracts over mathematical models (`Seq`, `Map`, `int`), and the
  public `law_*` proof functions state properties that span several calls:
  - `headers`: header fields as an ordered list of (name, bytes) pairs.
  - `text`, `time`: character sequences, and spans of time with nanosecond
    precision.
  - `validate`, `bot_detector`, `auth`: checks of incoming requests.
  - `proxy`: routing to targets, the request sent upstream, the retry loop
    and the headers of answers.
  - `pipeline`: the order in which a request is checked, forwarded and
    answered, as a state machine from events to actions.
  - `load_balancer`, `circuit_breaker`, `rate_limiter`, `retry`, `cache`:
    the stateful components.
  - `transform`, `security_headers`: header rewriting.
  - `error`, `config`: error answers and configuration values.
- `tests/` runs the library on concrete values.
- `app/` is the server: configuration file, sockets, TLS, timers, metrics,
  the decoding of JSON Web Tokens and the floating-point retry strategies.
  It performs the actions that the pipeline names and hands their results
  back as events.

Calls into other crates (regular expressions, HTML sanitization, Base64,
hashing, MD5, SHA-256, random numbers, URI parsing, header names, the
concurrent map of the cache)
go through small trusted functions whose contracts say what the library
relies on.
