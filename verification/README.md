# quicksupport

The logic of a small remote-support client that speaks the RustDesk protocol,
written in Rust and verified with Verus. The device registers with a rendezvous
server, routes connection attempts to a relay server or accepts them directly,
and lets a controller in that knows its password.

## The library (`src/`)

| Module | What it holds |
| --- | --- |
| `text`, `encoding`, `size` | characters, hexadecimal and UUID text, sizes for humans |
| `baking` | settings that a build script bakes into the binary |
| `config`, `identity_laws` | the identity of an installation, kept in a file |
| `login` | password login by challenge and response |
| `message` | messages between device and controller |
| `transfer`, `transfer_laws` | transfer jobs, the pump for downloads, the progress line |
| `file_ops` | what a controller may do with files, and the answers |
| `session`, `session_laws` | key exchange, login and the session loop as a state machine; input and files count after the login only |
| `rendezvous`, `direct` | registration and relay connections, the direct-IP listener |
| `netinfo`, `host`, `status` | local addresses, the machine, what the window shows |
| `outside` | the calls into `rand`, `hex`, `sha2`, `sodiumoxide` and `uuid` |

Every function states in its contract what it returns or changes. Properties
that span several functions are public proof functions whose names begin with
`law_`. What is relied on without proof stands in `outside`, and in one
specification of a string method in `text`.

## The application (`app/`)

Sockets, threads, files and the shared state around the library. What a build
brings along (wire format, encrypted stream, file system, input devices, screen)
is behind the trait `Platform`, the window system behind the trait `Window`.
`bake` is the part of a build script that bakes the settings in.
