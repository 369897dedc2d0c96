# Usage widget

A desktop widget that shows a plan's current-session and weekly usage
limits, reading the session cookie from the browser the user is logged in
with.

- `src/` is the verified library (Verus): the cookie jar, the parsers and
  decryption of the browsers' cookie stores (Firefox, Chrome, Brave, Edge
  on every platform; Safari's binary cookie file on macOS), the request builder, the command line,
  the desktop-integration texts and the widget's display and refresh
  rules. Every public function states its result in its contract.
- `app/` is the program around it: file, network and process I/O, the
  SQLite queries, the window (egui) and the window-manager hints.
- `tests/` runs the library on concrete values.
