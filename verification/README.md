# Backstitch

Version control for Godot projects, as a verified library and a thin layer around it.

- `src/` is the library. Everything in it is verified with Verus: settings files, file hashes and
  contents in Automerge documents, checkouts and commits, loading a project, signing in to servers,
  connections, documents in several places, diffs, importers and resource loading.
- `app/` reads, asks, sends and writes: files, the network, the keyring, the file watcher and
  Godot. It decides nothing.
- `tests/` runs the library on concrete values.

Calls into other crates stand behind small functions whose contracts say what is relied on; each
names the function that it calls.
