# scriptorium

The decision core of a service that runs commands in throw-away containers on
behalf of language models, verified with Verus, and the program around it.

`src/` decides; it is proved. `app/` does: it talks to the container daemon, the
object store, the network and the file system, and asks the library at every
step what to do and what to answer.

| Module | What it is about |
| --- | --- |
| `text`, `paths`, `clock`, `calendar`, `digest` | texts and numerals, POSIX paths by their text, time, dates, SHA-256 |
| `error`, `config`, `messages` | errors and statuses, settings, requests and answers |
| `workspace` | ids, directories, and which paths stay inside a workspace |
| `runtime` | what a container is made of, and how the events of a run become its outcome |
| `fetch` | which URLs and hosts may be asked, and how much may come |
| `oss`, `multipart` | object keys, content types, uploads at once and in parts |
| `tools` | the tools on offer to models, and where calls of them go |
| `service` | what each request asks for; archives, listings and transfers |

Public proof functions named `law_..` state what holds of the library as a
whole: that a path that is accepted stays in its workspace and that workspaces
never share one, that a watched run tells all its output and then once that it
is finished, that the parts of an upload make up the file, and so on.

Functions marked `external_body`, and the items that start with
`assume_specification`, are believed and not proved. Each says what outside
function it stands for and what it claims of it.
