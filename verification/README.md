# dotnet_plugin

Recognises .NET projects: from the names of a project's files and the content
of some of them it tells the kind of project, its language and target
framework, and the places where its program starts (routes, page handlers,
`Main` methods, background services, application start-up).

- `src/` is the library, written and proved in Verus.
  - `text` and `route`: operations on texts, paths and routes.
  - `pattern`: regular expressions, matched by the `regex` crate.
  - `project_file`: category, target framework and tags of a project.
  - `scan`: the entry points of one source file.
  - `plan`: which files are scanned for what.
  - `identify`: identification step by step; the caller reads the files.
  - `profile`: the result.
  - `outcome` and `laws`: what identification comes to, and what holds of it.
- `app/` is the plugin around it, which talks to the host.
- `tests/` holds the library's tests.
