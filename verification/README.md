# ik_llama_cpp_2

The logic of a binding to ik_llama.cpp, a language-model engine, proved with
Verus. The engine is C++ code that this library never calls. It computes what
the engine is to be given and reads what the engine hands back:

- `sampling`, `token`, `grammar`: sampler chains, candidates, seeded draws
- `model`, `text`, `cstr`, `path`: tokens and their text, chat templates,
  metadata, adapters, strings and paths for the engine
- `context`, `llama_batch`, `llama_backend`, `timing`: decoding steps and their
  results
- `speculative`: multi-token prediction
- `mtmd`: images and sound
- `gguf`, `quantize`: model files
- `float`: the order of floating-point numbers, read off their bits
- `step`: operations that take several calls of the engine

An operation that needs the engine is split where the engine is called. What
comes before the call returns what to hand over; what comes after it takes the
engine's answer. Where the answer decides whether the engine is called again,
the operation is a machine: `Step::Call` says what to call next, and `resume`
goes on from the answer. `sampling::ChainStep` does the same for sampler chains;
what whole runs over a chain come to is stated in `sampling::whole`, and what a
seed decides in `sampling::seeded`.

`app/` holds the calls themselves: it owns the engine's objects, drives the
machines and converts values, floating-point numbers among them. It needs the
engine's raw bindings, `ik_llama_cpp_sys`.

What is believed without proof is in `src/text.rs` and `src/text/decoder.rs`:
four wrappers around `std::str::from_utf8`, `String::from_utf8_lossy` and the
UTF-8 decoder of `encoding_rs`.
