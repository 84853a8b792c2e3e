# build-eips

`build_eips` holds the decisions of a build tool for repositories of Ethereum proposals: which
repositories a run takes content from, what a merge of them may change, how proposals become pages,
what a served build keeps in step, and what is linted. Each function states what it returns, and
Verus proves it.

## Layout

- `src/` is the library. It reads and writes no file, repository or socket: it takes what was found
  there and says what is to be done.
  - Texts and paths: `text`, `path`, `path_set`, `table`, `pattern`, `iri`, `urls`, `dates`.
  - Settings: `config`, `cli`, `find_root`, `layout`, `execution`.
  - Repositories: `git`, `status`, `tree`, `sync`, `source`, `workspace`.
  - Proposals and pages: `proposal`, `preamble`, `authors`, `citation`, `csl`, `events`, `links`,
    `transform`, `front_matter`, `page`, `assets`, `walk`, `only`.
  - Runs: `run`, `pipeline`, `zola`, `serve`, `serve_loop`, `preview`, `editorial`.
- `app/` is the program around it: arguments, files, Git, the watcher, the preview server, and calls
  of `zola` and `eipw`.
- `tests/` runs the library, with the crates that it calls.

## What is not proved

Calls into other crates stand behind functions marked `external_body`. The comment above each says
what its contract claims of the call. Where a result is too long to describe, such as the events of a
Markdown text, it has a name without a definition, and contracts speak of that name.

## Limits

Paths are texts as Unix writes them: names between slashes, and a slash at the beginning of an
absolute path. The contracts say what happens to such paths. Drive letters and backslashes of Windows
have no meaning in the library, so it is proved for Unix systems alone; of a URL for a directory it
only says that it may be missing, which holds on every system.
