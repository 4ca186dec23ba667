# gitcore

The rules behind several parts of a Git implementation, as a library whose behaviour is stated in contracts and
proved with Verus.

| Module | What it decides |
| --- | --- |
| `alternate` | which other object databases a database leads to, and when that is a cycle |
| `store` | how an object store is opened, what it counts, and when it hands out packs |
| `machine` | programs that exercise an object store, and the promises that the store must keep |
| `note`, `notes` | where the note of an object is, which references have notes, and how notes are changed |
| `signature` | what verifier programs are asked about a commit signature, and what their answers mean |
| `merge` | which changes of two sides of a merge belong together |
| `session`, `frame`, `screen`, `keys`, `changes` | an interactive commit graph in a terminal |
| `classify`, `delta` | errors |
| `bytes`, `oid` | byte strings and object ids |
| `foreign` | the calls into other crates, and what is relied on of each |

Where something has to be read, written, waited for or drawn, the library says what is to be done and goes on with
what came of it. `app/` is ordinary Rust that does those things. It is not verified, and it tests what the library
requires before each call.

Proof functions whose names begin with `law_` state what holds of several functions together.

Paths, programs and arguments are byte strings, and times are numbers. Objects are named by SHA-1 or SHA-256 hashes;
the machine exercises a store of the former kind.
