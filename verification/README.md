# chrome_debug_mcp

The verified core of a Chrome DevTools MCP server: an MCP client drives one or
more Chrome instances (navigation, DOM, input, console and network logs,
debugger, tracing, WebMCP page tools, cookie import) through the DevTools
protocol.

## Layout

- `src/` — the library, written in Verus. It holds the server's decisions:
  the registries of instances and tabs and their invariants, the
  caches filled from DevTools events (network, console, debugger, custom
  domains, WebMCP), launch planning, cookie-seed planning, and for each tool
  the commands it sends and how it reads the answers. Laws that span several
  operations are public proof functions named `law_*`.
  Calls into `serde_json`, `url` and two std string functions sit behind
  small trusted wrappers whose contracts name what they return.
- `tests/` — tests of the library on concrete values.
- `app/` — the unverified shell: the MCP handler (`rust-mcp-sdk`), the
  browser pool and DevTools connections (`cdp-browser-lite`, `cdp-lite`),
  event listeners, file-system work of the cookie import, and the parts that
  work on floating-point values (trace analysis, performance metrics, and
  the text of a number of pages to scroll).
