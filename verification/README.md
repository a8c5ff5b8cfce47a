# llamacppdesk

The core of a desktop manager for local llama.cpp models, written in Verus.
The functions in `src/` carry contracts that Verus proves, with one
exception: the small trusted wrappers around outside calls (`std::path`,
`str::to_uppercase`, `reqwest` and `std::io` error queries, the HTTP reason
table, building a `String` from characters). Their contracts, and the
uninterpreted names they speak of, are believed rather than proved; each
says in its doc comment what it claims of the outside function.

- `src/` is the verified library: validation of settings, presets, history
  entries and chat requests; the tables of downloads and chat streams with
  their invariants; the step-by-step decisions of the download and chat
  workers and of the readiness wait; model reference resolution (direct URLs,
  Hugging Face repositories, Ollama models) with its list cache; the
  `llama-server` process bookkeeping; and the rules of the remote API.
- `app/` is the shell around it: Tauri commands, the remote HTTP API, JSON
  files, the child process, threads and HTTP requests. It performs the
  actions that the library's step functions return and hands back what
  happened.
- `tests/` exercises the library on concrete values.

Floating-point values (the sampling temperature, download percentages) are
kept by the library as `f32` bit patterns and as fractions, so that no
floating-point arithmetic happens in verified code.
