# matrix

A toolkit for compatibility matrices: zones, release levels, facts, gates, traces and
queries that follow dependencies. The library is verified with Verus: the functions
under `src/` have contracts over mathematical models, and Verus proves them.

## Layout

- `src/` is the library. `src/lib.rs` says what each module is for.
- `app/` is the ordinary Rust around it: the command line, the shell, the service of
  facts and the client of an oracle, with their files, processes, databases and requests.
- `tests/` runs the library on concrete values, with SQLite where SQL is the subject.

## What is proved

Contracts say what each function returns for every input, over the views of its
arguments. Functions named `law_..` state what holds of several of them together, such as:

- an uploaded fact is what a construct answers, the same upload twice is a duplicate, and
  a changed one adds a revision;
- following the cursors of pages gives every fact once and in order, and a fetch gets the first
  facts in their order;
- every fact of every adapter is complete, and a construct accepts it;
- paths that are found connect what was asked for and are ranked, and none is found
  exactly where no chain of up to six edges leads there;
- tokens are not shown by diagnoses and settings;
- SQL packs can only make views, quoted text reads back as it was, and normalizing SQL
  twice is normalizing it once;
- clearing a session leaves no field of its context set.

Calls into other crates stand behind functions marked `external_body`, whose contracts
are believed. Their comments name the outside function and say what is claimed of it.
