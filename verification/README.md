# wisprtype

The core of a hold-to-talk dictation tool for Windows: hold a hotkey, speak,
release, and the transcript is cleaned up and typed or pasted into the focused
application.

`src/` is the verified library. Its functions carry `requires` / `ensures`
contracts that Verus checks, and the properties that span several calls are
stated and proved as `law_*` proof functions. Some items are trusted rather than
proved, each with a doc comment saying what it claims: the wrappers around std's
`String::push` and `Path::join`, the wrappers around global-hotkey's
`HotKey::try_from` and `HotKey::id`, and the declaration of global-hotkey's
`HotKey` type. Where an outside result takes more than a few lines to state, it
has a name without a body, and the contracts speak of that name: `joined_path`
(what `Path::join` gives), `hotkey_accepts` and `hotkey_parse_error` (whether
global-hotkey parses a binding, and its error text), `parsed_hotkey_id` (the id
it gives a parsed binding) and `hotkey_id_of` (the id a hotkey carries).
Where the work alternates with the outside world (the dictation flow, start-up,
inserting and pasting text, replacing the hotkey, switching models), the library
offers step functions from a phase and the last outcome to the next phase and
the actions to perform; `app/` performs them.

| module        | what it decides                                                          |
|---------------|--------------------------------------------------------------------------|
| `engine`      | the dictation flow as a state machine, the overlay states it shows       |
| `startup`     | the start-up steps, which failures stop start-up and which fall back     |
| `hotkey`      | normalising and reading hotkey bindings, replacing a registered hotkey   |
| `injection`   | typing versus pasting, the key events sent, the fallback between them    |
| `refinement`  | the cleanup prompt, the generation budget, which model output is kept    |
| `prompting`   | the vocabulary prompt that biases recognition toward dictionary terms    |
| `cloud`       | provider names, credential targets, reading provider replies, WAV files  |
| `dictionary`, `history`, `settings` | normalising what is stored, search plans, error texts |
| `stt`         | backend order, CPU retry, model switching                                |
| `worker`      | the request/reply protocol with the worker processes                     |
| `system`      | the self-checks, the startup registry entry, tray and window decisions   |
| `ui`          | where the overlay pill goes                                              |
| `text`        | the character-level string operations the rest is stated over            |

`app/` is the unverified shell: Tauri commands and windows, the microphone,
the SQLite files, the worker processes, the Windows keyboard, clipboard and
credential APIs, and the speech and language models. It performs the I/O and
hands plain values to the library, which decides what happens next.

`tests/` runs the library on concrete values.
