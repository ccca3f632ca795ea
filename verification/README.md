# ipscanner

The core of a network scanner for Windows desktops: it expands a target list
(single addresses, CIDR blocks, short and explicit ranges) into the addresses
to scan, decides what each probe result means for a host, reads NetBIOS node
status replies, HTTP titles and MAC vendors, guesses the kind of device, and
lays out the results for a spreadsheet export. The library is written in
Verus: every function carries a contract, and the laws that span functions
are stated and proved as proof functions.

## Layout

- `src/` — the verified library
  - `text`, `addr` — character-level text operations; IPv4 addresses as
    32-bit numbers, their dotted-decimal text and its parsing
  - `range` — the target-list syntax (`parse_targets`), with the network
    parser of `ipnet` behind a specified wrapper
  - `engine`, `registry`, `types` — the scan's decisions (defaults, liveness,
    follow-up lookups, reporting, progress) and the table of running scans
  - `netbios`, `http`, `mac`, `oui`, `ports`, `device`, `subnet`, `export` —
    reply parsing, title extraction, URL choice, vendor lookup, device-type
    guess, subnet choice and spreadsheet cells
- `tests/` — unit tests run against the compiled library
- `app/` — the Tauri application: commands, the asynchronous scan loop, the
  network lookups (ICMP, DNS, UDP, TCP, ARP, HTTP) and the `.xlsx` writer
