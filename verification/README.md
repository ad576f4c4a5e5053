# uwe

Verified core of a static site toolkit and its web host provisioning,
written in Verus.

- `src/` is the library. Every function in it is verified against its
  `requires`/`ensures` contract; the few calls into outside crates
  (`slug`, `url`, `rusoto_route53`'s TXT quoting, `rand`) sit behind small
  trusted wrappers whose contracts are documented where they are declared.
- `tests/` runs the library on concrete values.
- `app/` is the input and output around it: files, the process
  environment, the AWS service calls, DNS queries and the serde wire
  formats.

Main modules: `text`, `split`, `path` (string and path primitives),
`entity` (HTML escaping), `route53`, `acm`, `cloudfront`, `s3`, `region`,
`name_servers`, `state_machine` (web hosting), `manifest`, `invalidation`,
`buffer`, `collections`, `hook`, `menu`, `render`, `options`, `project`,
`redirect`, `updater`, `ipc`, `jsonrpc`, `json_path`, `ids`.
