# vacancies

A small library for an employment agency's vacancy list and a toy shop's
price list, written in Verus and proved against its contracts.

- `src/text.rs`: trimming, splitting, decimal parsing and rendering.
- `src/order.rs`: lexicographic sort keys and the stable order of a list of them.
- `src/generic_container.rs`: the ordered container vacancies are kept in.
- `src/agency.rs`, `src/agency_ext.rs`: vacancy records, their creation
  from typed text, their display, and the search for experienced teachers.
- `src/utils.rs`: stable sorts by company name, specialization and education.
- `src/toys.rs`: toy records read from comma-separated lines, prices.
- `src/console.rs`: the decisions of the text console (menu, removal, the
  form a vacancy is typed into).
- `src/pattern.rs`: calls into the `regex` crate.
- `app/`: the command-line programs (`toys`, `list`, `json`, `regex [auto]`),
  which read and print and store JSON files through serde.
