# label_print

A label printing service for production lines. The library (`src/`, verified
with Verus) holds the rules:

- `db`: batch numbers (`YYMMDD` + machine + shift), four-digit running
  numbers, and the counting decision of each printed label against its
  production plan, with the laws that a plan never prints past its quantity
  and prints exactly that many labels.
- `qr`: the QR payload `ARKR-{item}-{batch}-{running}-{side}-{prod}` (which
  splits back into its fields), and the QR symbol of a payload as SVG,
  Base64 SVG, text art or a 0/1 matrix, through the `qrcode` and `base64`
  crates.
- `zpl`: the ZPL program of a 2x2 inch label.
- `errors`, `models`: error answers and the records exchanged with the ERP
  and the web page.
- `text`: decimal rendering, zero padding and splitting, with their proofs.

`app/` is the HTTP service around it: the axum server, the SQLite store
(rusqlite), the serde forms of the records and the label preview handlers.
