# disprove

Property-based testing for Rust, in the style of quickcheck: generate random
inputs, run property functions on them, and shrink failing inputs to smaller
counterexamples. The library is written in Verus and proved against its
contracts.

## Layout

- `src/arbitrary.rs`: the `Arbitrary` trait. Each type has a mathematical
  model; `arbitrary` generates values that respect the generator's size, and
  `shrink` returns candidates whose models are stated exactly
  (`shrink_models`). Two laws come with every implementation: no candidate has
  the model of its original, and values with one model shrink alike. Each
  implementation also states, as `generated`, which draws of the generator
  give which value: an integer is one draw from its range, a vector is a
  length draw followed by the draws of its elements in order, a tuple the
  draws of its components in order, and so on; for maps and sets, the draws
  of a vector of keys (or pairs), all of which the collection holds, a map
  with the value of the last pair drawn for each key.
- `src/arbitrary_int.rs`, `src/arbitrary_std.rs`, `src/arbitrary_tuple.rs`,
  `src/arbitrary_array.rs`: implementations for integers, `bool`, `char`,
  `()`, `String`, `Vec`, `VecDeque`, `Option`, `Result`, `Box`, `Rc`, `Arc`,
  `Wrapping`, `Saturating`, ranges, tuples up to twelve (shrinking
  component-wise), and arrays; `src/arbitrary_collections.rs`: `HashMap`,
  `HashSet`, `BTreeMap` and `BTreeSet`, which shrink by emptying or by
  dropping one key, in the order in which they walk their keys. Their
  contracts hold for keys that obey vstd's key model (or `Ord` model) and
  clone exactly, which each type states as `obeys_arbitrary`; the two
  shrinking laws are not claimed for them (`shrinks_by_model`).
- `src/shrink.rs`: the integer shrinking sequence (zero, the negation, then
  halving steps toward zero) with its law, and `empty_shrinker`/`chain`.
- `src/gen.rs`, `src/rng.rs`: the generator and the calls into `rand`. The
  generator keeps a ghost history of its draws (`samples`), by which the
  contracts of `arbitrary` say which draw gave which value: an integer is
  the one value drawn from its range, a string's length and characters are
  the draws made for it, in order.
- `src/tester.rs`, `src/testable.rs`, `src/error.rs`, `src/text.rs`:
  `TestResult`, the `Testable` properties, and the `QuickCheck` runner. Each
  property states, as `gives`, which outcomes one run of it can have and how
  it leaves the generator; the runner's result is the end of a run
  (`run_from`) over the outcomes of a chain of such runs, one call of
  `run_step` per outcome and `run_finish` at the end, with exact messages.
  A failing property's inputs are shrunk by repeated passes (`shrink_pass`,
  `minimize`) to a minimal counterexample, whose `Debug` text is the failure
  message (`gives` says so). `Gen` records the seed it was made from
  (`seed`), which the runner's builders keep.
- `app/lib.rs`: ordinary Rust around the library: settings from the
  `QUICKCHECK_*` environment variables, runners that panic on failure,
  `gen_bool` with a floating-point probability, and an error type with
  `Display`.
