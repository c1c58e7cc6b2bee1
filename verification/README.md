# ommx (verified core)

The logic of the OMMX optimization-model toolkit, written in Verus: the
functions in `src/` carry `requires`/`ensures` contracts that Verus proves
(trait methods inherit theirs from the trait, and the few without a clause
are the outside calls listed below), and the laws of the library stand there
as public proof functions.

## Layout

- `src/` — the verified library.
  - Identifiers and labels: `ids`, `label`, `table`.
  - Constraints: `constraint` (equality kinds, provenance, removal reasons,
    context store), `metadata`, `stage`, `collection` (active/removed
    lifecycle, evaluated and sampled collections), `hints`, `hint_parse`.
  - Constraints read from their serialized form: `sampled_parse`.
  - Decision variables: `kind`, `dependent_expr`, `function_ids` (the
    variables a function reads), `dependencies` (acyclic
    reconstruction rules and their evaluation order), `samples`, `extrema`
    (ordered keys of `f64` bit patterns and the searches for the extreme
    accepted values of a bound).
  - Artifacts and registries: `image_ref`, `media_types`, `anonymous`,
    `builder`, `push`, `transport`, `remote`, `cli`.
  - Benchmark catalogues: `dataset` (MIPLIB 2017 and QPLIB instance checks
    and annotations).
- `tests/` — executable tests of the library.
- `app/` — ordinary Rust around the library: environment and docker
  credential lookup, the network client, conversions of the OCI client's
  errors and descriptors, catalogue rows with floating-point columns, and
  the floating-point comparisons (tolerances, bounds) whose outcomes the
  library takes as plain values.

## Trusted items

Four wrappers and two names stand for outside code; each has a doc comment
saying what its contract claims:

- `image_ref::parse_reference` — `oci_spec::distribution::Reference::try_from`,
  its outcome named `spec_parse_reference`;
- `anonymous::push_char` — `String::push`;
- `anonymous::local_timestamp` — `chrono::Local::now().format(..)`, nothing
  claimed of the text;
- `dependencies::toposort` — `petgraph::algo::toposort` on a `GraphMap`, its
  order named `petgraph_toposort`.
