# diag_adapter

Data coding and protocol helpers of a classic diagnostic adapter that serves UDS over DoIP
ECUs, written in Verus: each public function states its behaviour in `requires` / `ensures`
clauses over mathematical models, and Verus proves the code against them.

## Layout

- `src/` — the verified library.
  - `bits.rs`, `coding.rs`: bit extraction and injection, masks, byte order, packing.
  - `coded_type.rs`: coded types of ISO 22901-1 (standard, leading length, min/max length,
    length key), their decoding and encoding into a PDU.
  - `roundtrip.rs`: laws relating encoding and decoding (what a decode reads back of an
    encode, which payload bits an encode keeps).
  - `comparam.rs`, `com_params.rs`, `database.rs`, `dop.rs`, `sdg.rs`: com parameters and
    the database model.
  - `naming.rs`, `text.rs`, `number.rs`, `util.rs`: name conventions, text and number
    parsing, hex and payload helpers.
  - `health.rs`, `loading.rs`, `mdd.rs`: the health registry, the plan of the database
    load, and the decisions in rewriting a database file uncompressed.
  - `faults.rs`, `security.rs`, `sovd/`, `interfaces.rs`, `payload.rs`, `jobs.rs`,
    `config.rs`, `configuration.rs`, `error.rs`: the remaining adapter logic and its errors.
- `tests/` — tests of the library on concrete values.
- `app/` — the command line program around the library: configuration file, arguments,
  directory listing and output.

Calls into outside code (std text functions, `hex`, `serde_json`) go through small trusted
wrappers whose doc comments say what their contracts claim.
