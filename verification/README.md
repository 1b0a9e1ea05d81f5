# namecheap_cli

A command-line client for the Namecheap API (domains, DNS records, account
credentials), built around a library verified with Verus.

## Layout

- `src/` — the verified library:
  - `xml.rs`: XML events of a response body as plain tokens, read with quick-xml;
  - `response.rs`: the API's error envelope and the result of each command,
    each stated as a run over the tokens;
  - `request.rs`: the form fields of every API call and how change answers read;
  - `domain.rs`: splitting a domain into second-level label and top-level domain;
  - `config.rs`: stored configuration, credential resolution, `config set`/`login`;
  - `records.rs`: the host-record lists behind `dns add` and `dns delete`;
  - `output.rs`: the tables and lines the command line prints;
  - `text.rs`, `number.rs`: trimming, ASCII case, substring search, decimal numbers;
  - `models.rs`, `cli.rs`: the records and the command-line arguments as plain values.
- `app/` — the program: argument parsing (clap), HTTP (reqwest), the
  configuration file and environment, JSON output (serde), and the floating-point
  prices.
- `tests/` — tests of the library.
