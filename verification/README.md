# cortex-debug-zed

The verified core of a Zed extension that runs the cortex-debug JavaScript
adapter for embedded ARM/Cortex-M debugging.

- `src/` is the library, verified with Verus:
  - `adapter`: the adapter's name and the check of incoming requests;
  - `json`: the configuration document, its view, field operations, and
    reading and printing JSON text through serde_json;
  - `defaults`: the fields that the adapter's VS Code front end would supply,
    filled in where the user's configuration lacks them;
  - `dap`: the kind of a debug request and how the adapter process is started;
  - `scenario`: a new-session request turned into a debug scenario;
  - `text`: character-level helpers (comparison, forward slashes).
- `app/` is the extension itself: it implements Zed's `Extension` trait,
  writes the bundled adapter files into the work directory, converts between
  Zed's types and the library's, and calls the library for every decision. It embeds
  the cortex-debug build output (`cortex-debug/dist`, `cortex-debug/support`),
  which the JavaScript build produces.
- `tests/` runs the library on concrete configurations.
