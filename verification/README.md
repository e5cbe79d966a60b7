# configurations

Layered YAML configuration loading, verified with Verus, together with the
message models of a small JSON event feed and the decision logic of a few
timer and child-process loops.

- `src/yaml.rs`: the model of a `serde_yaml::Value` and the operations on
  values that merging needs.
- `src/merge.rs`: `merge_yaml`, its specification `merged`, and the laws of
  merging (later scalars override by key, sequences join, nested mappings
  merge, keys keep their order).
- `src/config.rs`: `Config`, `Opt`, `ConfigErr`, and the steps of a load
  (base document, one merge per file, the `-d` override).
- `src/models.rs`: the event feed's messages.
- `src/text.rs`, `src/process.rs`, `src/stdio.rs`, `src/ticks.rs`: decimal
  rendering and the step functions of the loops.
- `app/`: command line, environment, file and process I/O, serde and
  structopt copies of the library types, and the loops that run the steps.
