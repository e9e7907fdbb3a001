# Outpost

A CI security gate for a domain's front door: DNSSEC, the TLS certificate
chain, Certificate Transparency and HTTP security headers.

The library in `src/` decides; it opens no connection and reads no file. What
each check, each report and each fix amounts to is stated in contracts and
proved with Verus. What the library promises as a whole stands in proof
functions named `law_...`, beside the code or in the `*_laws` modules.

| Module | Contents |
|---|---|
| `report` | results, statuses, the text of a report |
| `config` | settings, defaults and overrides for each domain |
| `dns`, `tls`, `headers`, `ct` | the four checks |
| `headers_file`, `fix` | the change that a `_headers` file needs |
| `run` | the order of the checks, step by step |
| `clock`, `text` | points in time, operations on text |

A run is a dialogue: `DomainRun::begin` names the first piece of outside work,
and `DomainRun::step` takes what came of it and names the next. The program in
`app/` does that work and nothing else: the command line, files, DNS, TCP, TLS
and HTTP.
