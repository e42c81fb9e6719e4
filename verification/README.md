# proxmoxmcp

One MCP server for many Proxmox VE clusters, with everything it decides written
and proved in [Verus](https://github.com/verus-lang/verus).

## Layout

- `src/` is the library. It performs no I/O: a function takes what was read and
  returns the request to send, the record to store or the text to answer with.
- `app/` is the program around it: command line, configuration files, HTTP, the
  MCP transport and the change-set store.
- `tests/` exercises the library from outside.

## The library

| Module | What it decides |
|---|---|
| `selector`, `grant` | which guests a token may name, and at which tier |
| `tier`, `catalog` | what each tool is, and which endpoint a read reaches |
| `inventory`, `waiver`, `protect` | which guests are protected, and what overrides that |
| `resolve`, `authorized` | where a guest is now, and whether a call may touch it |
| `client`, `error`, `json`, `task`, `guests` | the requests, and what their answers mean |
| `fingerprint`, `preview` | what an approval is bound to, and what an approver reads |
| `token` | what the token commands store |
| `server` | the tools: admission, reads, the low tier, provisioning, change sets |
| `text`, `order` | strings and sorting |

## What is proved

Every function states what it returns for every input. What holds across
functions is a public proof function whose name begins with `law_`; among them:

- a token without a grant reaches no guest, and a wildcard reaches no mutating
  tool;
- an authorized guest is inside the grant, its tier is carried, and nothing that
  disrupts a protected guest passes without an override;
- an apply executes only what was planned and approved, on the guest as it was
  planned, and a caller without a token applies nothing;
- an outcome nobody observed is never recorded, neither by an apply nor by the
  recovery at startup;
- a fetch that began before an invalidation is never published;
- percent-encoding loses nothing and separates nothing, and a recorded download
  URL holds no credentials.

## What is trusted

The JSON reader and writer (`serde_json`), the timestamp reader (`chrono`),
SHA-256 (`sha2`), and from the standard library `String::push`, the lossy UTF-8
decoder and the debug form of a string. Each stands behind one item whose
contract says what is relied on.
