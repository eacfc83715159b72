# migi

A symbiotic agent that observes a host system, learns its behaviour and
earns, phase by phase, the right to intervene:

    Observation → Assistance → LocalTakeover → ControlledTransition

## Layout

- `src/` — the verified library (Verus). Each module states its
  behaviour in `requires`/`ensures` contracts, and the properties that
  span functions are public proof functions named `law_*`:
  `config` (phases and their permissions), `trust` (trust score,
  authorization, phase transitions), `observer` (events, log lines,
  metrics readings), `learner` (the `Learner` trait; pattern counting,
  new-pattern and frequency-shift measures, predictions),
  `intervener` (what the shell and HTTP strategies run and record),
  `agent` (the decisions of one cycle of the main loop), `monitor`
  (status snapshots and their bounded history), `sandbox` (simulated
  scenarios), `secrets` (the encrypted secrets container).
- `app/` — the program around it: the main loop, file and network I/O,
  process execution, the configuration and state files, and the `sim`,
  `secrets` and `stats` tools.
- `tests/` — tests of the library.

## Fractions

Accuracies, thresholds, anomaly probabilities and resource percentages
are integers in millionths (`migi::fixed::SCALE` stands for `1.0`);
trust scores and the shares of event patterns are the exact fraction of
two counts (`migi::fixed::Fraction`). The configuration and state files
keep writing them as decimal numbers.
