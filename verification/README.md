# kitsune_engine

The policy and data core of a privacy-first browser engine, written in Verus:
every function in `src/` carries a contract that Verus proves.

## Layout

- `src/` — the verified library.
  - `text` — string primitives over `Seq<char>` views.
  - `dom`, `selector`, `html` — the DOM tree with its breadth-first and
    document-order walks, simple selectors, and parsing HTML into a tree
    through html5ever's walk of the document.
  - `css` — value parsers, stylesheet cutting, the effects of declarations
    and inline styles, and the cascade order and `var()` resolution.
  - `ipc`, `broker`, `engine`, `tab`, `navigation` — roles, capabilities,
    routing and crash policy between processes, wire frames, tabs and
    history.
  - `hil` — human-in-the-loop confirmations: dialogs, single-use approvals
    bound to one action and valid for 30 seconds, the decision log.
  - `net`, `fetch`, `cookies` — request privacy, tracker blocking, redirects,
    caching rules, error pages, partitioned cookies.
  - `page`, `page_load` — what a page load takes from a document (title,
    scripts, stylesheets, images, hosts to prefetch) and what it decides
    before styling (addresses to fetch, sheet and script texts, whether
    scripts run).
  - `images`, `shaping`, `render`, `script`, `sandbox`, `config`, `clock` —
    resource budgets, script host calls, sandbox profiles, settings,
    identifiers and time.
- `tests/` — tests of the library on concrete values.
- `app/` — the runtime around it: sockets, channels, HTTP, page loading up
  to the styled tree, selector matching, float-valued
  styles and transitions, highlight painting, child processes.
