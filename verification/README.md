# rushwind

Service registries, script engines, rate limiting and retrying, as a library
whose decisions are proved with Verus, and the networked side around it.

* `src/` is the library. Every function states in its contract what it returns
  or changes, and Verus proves it.
  * `registry` holds what a registration is, how it is stored and read back, and
    for each backend (Consul, etcd, Eureka, Kubernetes, Nacos, Polaris,
    ServiceComb, ZooKeeper) what is sent, what an answer means and what comes
    next.
  * `script` holds the engines' lifecycle, the sources that scripts come from,
    the pools, the manager and the factories, and for each engine (CEL,
    JavaScript, Lua, Starlark, Wasm) how values cross over and what a run comes
    to.
  * `ratelimit` and `retry` hold when a caller may go on.
  * `json`, `order`, `text`, `string_map` and `random` hold what the others
    share. What is believed of other crates stands there, in `script::lua` and in
    `script::wasm`, each item with a comment that says what is believed.
* `app/` is ordinary Rust that does the talking: HTTP and the backends' own
  clients, the script runtimes, files and clocks. It asks the library what to do
  and does it.
* `tests/` runs the library.

Durations are whole nanoseconds, and double-precision numbers go by their bits.
Work that has to be waited for is a state machine: a function takes what came
back and says what is to be done next.
