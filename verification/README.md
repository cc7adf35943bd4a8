# codex_worktree

Managed git worktrees for a coding session, and what goes with them: the tools by which a model
enters and leaves a worktree, user-attention lifecycles, notification hooks, answers about pending
input, and version texts.

## Layout

- `src/` is the library. Every function has a contract and is proved with Verus, but for the five in
  `encoding` that call `serde_json` and the standard library: their contracts are taken as they are.
  - `text`, `paths`, `json`, `encoding`, `progress`: texts, paths with `/`, JSON objects, the few calls
    into other crates, and procedures that ask for work.
  - `errors`, `operations`, `filters`, `worktree`, `managed`: git, and worktrees under the common
    git directory.
  - `bounds`, `environment`, `metadata`, `session`, `checks`, `output`, `discovery`, `tool_spec`,
    `enter`, `exit`: the two tools.
  - `guarantees`, `replay`, `round_trips`, `runs`: what holds of the tools and of the git procedures
    as a whole, and of two of them one after the other.
  - `attention`, `pending_input`, `rpc`, `notification`, `version`: the rest of the session.
- `tests/` runs the library on concrete values, with git and a session held in memory.
- `app/` is a host around the library: it runs git, touches the file system, reads arguments and
  starts hooks.

## Procedures that ask

A procedure that needs git, the file system or the session is a function of its arguments and of
the replies so far. It gives back the next request, an error, or its result. A driver performs the
request, adds the reply to the list and calls the function again:

```rust
let mut replies = Vec::new();
loop {
    match inspect_worktree(path, HostKind::Unix, &replies, 0) {
        Progress::Ask(request) => replies.push(perform(request)),
        Progress::Failed(error, _) => return Err(error),
        Progress::Done(info, _) => return Ok(info),
    }
}
```

What a procedure asks for, and what it makes of each reply, is stated by a specification function
whose name ends in `_step`.

## Limits

- A path is a text, and is read as Unix writes it: `/` separates, and a path is absolute if it
  begins with `/`. The drives and separators of Windows are not known to the library, so a path like
  `C:\work` counts as relative, and a tool that needs an absolute path ends the turn on it. Of
  Windows only the place is known at which git finds no hooks.
- A path that is not valid UTF-8 cannot be handed to the library. The host reports it as an error.
- The files beside a worktree are parsed by the host. The library states what it writes into them,
  and what it makes of the data that was read.
