# cloudfits

Estimates what it costs to run a large language model, per hour and per
month, locally or with a hosted inference provider, and compares providers.

- `src/` is the verified library: the provider catalog (prices held exactly as
  ten-thousandths of a dollar), provider lookup by name and filtering by kind,
  the model-size reading of a model's name, the text grammar that `f64`
  parsing accepts, the reading of `nvidia-smi` and `rocm-smi` output, the
  power-draw estimate from a GPU's name, and the decisions of the terminal view.
- `app/` holds the `cloudfits` command line, its web endpoint and the terminal
  view (run as `cloudfits-tui`), hardware detection, and the cost model, whose
  figures are all floating point.
- `tests/` runs the library on concrete values.
