# xtce_editor

The logic of an editor for XTCE (XML Telemetric and Command Exchange)
documents, written in Verus and proved against its contracts.

Each form of the editor is modelled in `src/` as a pair of functions: one
gives the texts and choices the form shows for an element, the other gives
the element the form's values produce. Their contracts are stated over spec
functions on the elements' views, and round-trip laws (`lemma_*_round_trip`)
prove that applying a form to what it shows gives the element back.

- `text.rs`, `number.rs`, `fields.rs`, `choice.rs`: reading and writing the
  text of one field: trimming, integers, decimal numbers, fixed choices.
- `alias.rs`, `ancillary.rs`, `header.rs`, `enumeration.rs`, `members.rs`,
  `recent.rs`: list editors and their compact text forms.
- `boolean.rs`, `lookup.rs`, `context.rs`: comparisons, boolean expression
  trees and their edits, lookup lists, context-dependent entries.
- `encoding.rs`, `errors.rs`, `calibrator.rs`, `rpn.rs`, `dynamic.rs`,
  `dimension.rs`, `argument.rs`, `significance.rs`: data encodings, error
  detection, calibrators, argument types.
- `algorithm.rs`, `custom.rs`, `math.rs`, `stream.rs`, `container.rs`:
  algorithms, streams and container encodings and rates.
- `model.rs`, `document.rs`, `duplicate.rs`, `metadata.rs`: the space system
  tree, element titles, applying an element's form, duplicating an element,
  the command metadata overview.

Decimal numbers are kept as the trimmed text that reads as the number.
`tests/` holds scenario tests on concrete values.
