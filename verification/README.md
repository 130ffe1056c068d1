# hwp-dvc

Validation of HWPX documents against a DVC spec (a JSON "checklist" of
allowed fonts, paragraph shapes, table borders, hyperlink and macro
policy, and so on), with the library verified by Verus.

## Layout

- `src/` — the verified library (`hwp_dvc_core`):
  - `xml.rs`: the XML boundary (calls into `quick_xml`, each named by
    the bytes read and the reader's position) and the plain event stream
    the parsers read; attribute readers with exact contracts.
  - `container.rs`: the ZIP boundary (calls into `zip`).
  - `document/`: the archive, the header and section parsers (each
    specified as a function over the event stream), the document model
    and the run stream.
  - `checker/`: the ten validators and the `Checker` that runs them in
    a fixed order under a level and an output scope.
  - `spec.rs`, `error.rs`, `messages.rs`, `text.rs`: the validation
    spec, the error codes, their Korean and English messages and string
    helpers.
  - `output.rs`: the output formats and the `<dvcErrors>` XML form
    (written with `quick_xml`).
  - `laws/`: properties that hold for every input (permission gates,
    code ranges, one finding per paragraph shape and code, the simple
    level, section order, table nesting depth, record ids, the identity
    of table and cell findings, the font and border rules, font-name
    order, the level sequence, English messages).
- `tests/`: tests of the library.
- `app/`: the `hwp-dvc` command line: argument handling, file I/O, the
  message language (`HWP_DVC_LANG=en`), the spec's JSON form and the
  JSON output.

Border widths are kept in whole nanometres and font sizes in hundredths of a
point; the command line converts the spec's millimetres and points.
