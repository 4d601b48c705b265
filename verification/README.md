# task_automation

A small scripting language for automating developer tasks — `git` branches and
worktrees, `tmux` sessions and terminal windows — with its runtime verified by Verus.

Programs declare variables, functions, lists and dictionaries, use `if` and `while`,
and register named tasks with `register_task`; `run` loads the `.dsl` files of a
directory and runs one task by name.

## Layout

- `src/` — the verified library.
  - `lexer/` — two tokenizers, each specified exactly by spec functions over the
    input characters (`lexer::lexer` for statements, `lexer::Lexer` for the language
    the parser reads).
  - `parser/` — recursive descent to statements and expressions; binary operators
    build the tree by precedence (`*` `/` over `+` `-` over comparisons over `&&` over
    `||`), operators of one precedence grouping to the left, and a parenthesised group
    staying one operand. The contracts give the tree of such a chain (groups, `-` and `!`
    operands and list literals included) and the shape of every statement a program
    holds, the bodies of functions, `if` and `while` included.
  - `interpreter/` — values, scopes (`scope.rs`, `store.rs`: lookup through parent
    scopes, with read-after-write laws), operators, lists, dictionaries, argument
    checking and the evaluation of statements and expressions (`plain.rs`: the exact
    meaning of the part of the language that needs no host — strings, booleans,
    `undefined`, variables and the operators on them).
  - `modules/` — the `git`, `tmux` and `shell` modules; the commands they hand to the
    `git` and `tmux` runners are fixed by verified functions.
  - `runner.rs`, `task_management/`, `context.rs` — running source text, tasks and the
    state a run keeps. The context also keeps two ghost records that the contracts
    speak of: what a run handed to its surroundings (text printed, `git` and `tmux`
    commands with their answers, terminals opened), and what it ran (statements,
    blocks and calls, each with its outcome).
  - `host.rs` — what the runtime asks of its surroundings: output, the file system,
    terminals, and arithmetic on the language's numbers.
- `app/` — the command-line program: the host on the real system, processes for `git`
  and `tmux`, the REPL and `run`.
- `tests/` — tests of the library with mock runners and a test host.

## Design notes

- Operators of one precedence group to the left: `1 * 2 * 3` reads `(1 * 2) * 3`, and
  `1 + 2 + (3 * 4)` reads `(1 + 2) + (3 * 4)`. Trees that lean to the right for such
  chains are not produced.
- Scopes and dictionaries are `Entries`: a vector of distinct keys in the order they were
  first written, with the value of each. A map keyed by `String` was not used: Verus
  accepts the calls on such a map but proves nothing of what they return, while the
  vector's contents are a `Seq` the contracts can speak of exactly.
- Lists and dictionaries are shared, as a program expects (`y = x; y[0] = 5` changes `x`):
  every list and dictionary lives in the `Store`, and a value holds its index there. Verus
  does not support `RefCell`, so a shared, mutable cell cannot carry a contract; an index
  into one store can, and the laws on reads after writes are stated over it.
- Numbers are the host's: reading a number literal, arithmetic, comparison and the
  text and index of a number are asked of `Host`, and nothing is proved of their results.
