# xcp-orchestrator

The decisions of the XCP-HL orchestrator and its agents, as a library whose
contracts are proved with Verus: which component to rebuild, which tag to push,
what a reply of GitHub means, how long a build is watched, what is remembered of
it, and what the dashboard shows.

## Layout

- `src/`: the library. It takes plain values and hands plain values back.
  - `text`, `clock`, `encoding`, `error`, `types`: what the rest stands on.
  - `tags`, `github`, `upstream`, `version_state`: tags, requests and replies,
    versions, and the state that is kept between runs.
  - `status`: what an agent reports, and the status of the pipeline.
  - `iso_agent`, `xoa_agent`, `build_config`: the two agents.
  - `orchestrator`, `pipeline`, `dashboard`, `ollama`: the history of the runs, the
    single run without agents, the pages with their cards and buttons, and the
    diagnosis of failed builds.
  - `api`, `credentials`: the endpoint behind the "Run now" buttons, and secrets.
- `tests/`: tests on concrete values.
- `app/`: the programs around the library: files, network, processes, clocks.

## Programs

    xcp-orchestrator orchestrator
    xcp-orchestrator orchestrator-api
    xcp-orchestrator iso-agent [--force] [--force-xolite] [--force-xoa-proxy] [--force-iso]
    xcp-orchestrator xoa-vm-agent
    xcp-orchestrator pipeline

## What is trusted

Each function that calls another crate, or a part of `std` that `vstd` does not
specify, is marked `external_body` or `assume_specification`. Its doc comment says
what is claimed of the call. Such functions stand in `clock`, `encoding`, `text`,
`github` and `api`.
