# hotfix

Hotfix branch and release tooling, verified with Verus.

Releases are tagged `vX.Y.Z`; hotfixes on release `X.Y.Z` are tagged `vX.Y.Z-hotfix.N`.
The tool branches off a release tag, cherry-picks a fix, sets the next hotfix version,
commits, tags and, if asked to, pushes.

- `src/` decides everything: it parses versions, tags and the command line, orders and
  selects tags, numbers hotfixes, and turns a run into a state machine whose actions are
  `git` commands and whose notices are lines for the terminal.
- `app/` drives that machine: it runs the commands and prints the notices.
- `tests/` runs the library on concrete values.

| module | contents |
| --- | --- |
| `text`, `number` | text and decimal numbers over sequences of characters |
| `version` | `HotfixVersion`, release and hotfix tags |
| `tags`, `tag_laws` | order, listing, selection and numbering of tags |
| `options` | the command line |
| `plan`, `plan_laws` | targets and plans |
| `execution`, `execution_laws` | carrying out one plan |
| `session`, `session_laws` | a whole run |
| `course` | where a run is, what it does and what it says, reply by reply |
| `completion_laws` | the releases that a run patches one after another |
| `preview_laws` | what a dry run shows |
| `action`, `notice`, `style` | what a run asks for and what it says |
