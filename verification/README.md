# invar

Inventory of VMware vCenter servers: the RVTools-style sheets (vInfo, vHost,
vDisk, vSnapshot, vHealth and the per-object sheets), a cluster topology with
its findings, and an HTML report, built from what vCenter's SOAP API returns.

The library in `src/` is written in Verus. Each function states in its
contract what it returns, over spec functions on plain values (`Seq`, `int`,
the views of the library's types), and Verus proves the code meets it.

- `src/vcenter/` — the SOAP envelopes and replies, the XML tree they are read
  into, the session cache, the settings and the credential-store account
  names.
- `src/data/` — one module per sheet, the snapshot that feeds them, the
  topology and its findings, and the figures shared by the sheets (sizes and
  percentages carried as hundredths).
- `src/report.rs`, `src/export.rs` — the HTML report and the CSV/workbook
  layout.
- `src/command.rs` — the command line of `invar-export`.

`app/` is the `invar-export` program: arguments, HTTP, the credential store,
files and the workbook writer, around the library.
