# kinewright_media

Verified rules of a colour-managed video editor's fixture suites: what a matte
stores and what a change inside and outside of it must look like, which
deliveries are acceptable, which measurements a workflow must reproduce, and what
a manifest has to declare.

`src/` holds the library. Its functions state their results over sequences,
integers and maps, and Verus proves them. Floating-point samples appear as their
bits, times as nanoseconds, means as sums and counts. The coverage of a matte is
floating point and is computed in `app/`; the library holds the exact geometry of
the centred window and of the tracked one.

- mattes: `matte`, `sweep`, `stacks`, `effect`, `containment`, `raster`, `tally`,
  `parity`, `grade_buffer`, `cube`
- the tracked shot: `tracking`, `subject`, `recipes`
- delivery: `delivery_source`, `qc_raster`, `grade`, `scene`, `delivery`,
  `delivery_lane`, `starved`, `preconditions`, `performance`
- workflows: `chart`, `proposal`, `log_inverse`, `secondary`, `workflow_lane`
- manifests and inventories: `manifest`, `thresholds`, `declared`, `inventory`,
  `evidence`, `naming`, `numbers`, `text`

JSON documents are read by `serde_json`; what is relied on of it stands in
`manifest`.

`tests/` runs the library on concrete values. `app/` measures: it computes the
floating-point references, generates media, renders, exports, and hands plain
values to the library.
