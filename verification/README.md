# worktrunk

The decision logic of a git-worktree manager, verified with Verus: parsing
git's porcelain output, naming and tracking pull/merge-request branches
across forges (GitHub, GitLab, Gitea, Azure DevOps), classifying CLI
failures, config deprecation and unknown-key diagnostics, template
expansion, diagnostic reports, and choosing which processes to reap from a
removed worktree.

## Layout

- `src/` — the verified library. Every public function states its result
  in an `ensures` clause over spec functions and views; laws relating
  several functions are public `proof fn`s (named `lemma_*`).
  - `git/` — porcelain parsers, git version checks, remote URLs, forge
    detection, PR/MR references and forge responses, repository listings,
    process reaping.
  - `config/` — template filters and expansion, the template syntax tree
    and what a template reads and binds, retired template variables,
    deprecation warnings, unknown-key trees and warnings, project
    matching, config file locations, hooks, and config value checks.
  - `diagnostic.rs` — the diagnostic report (colour stripping, log
    truncation, the report template) and the hint that points at it.
  - `text.rs` — sequence and string helpers with their specifications.
- `tests/` — unit tests run against the compiled library.
- `app/` — the unverified shell: running `git` and the forge CLIs,
  filesystem work, signals, the progress spinner, process-wide state,
  and gathering what a diagnostic report shows.

Calls into outside crates (`regex`, `minijinja`, `shell-escape`, std's
hasher and UTF-8 conversions) go through small `#[verifier::external_body]`
wrappers whose contracts are documented where they are declared.
