# ebooksync

Sends books to a wristband reader, chapter by chapter, from a plugin with a small
window: it splits a text into chapters, cuts chapters into chunks, sends a cover and
the book's data along, asks the wristband what it has and reads and writes its
reading settings.

The library under `src/` is verified with Verus. It decides everything and does no
input or output: its handlers change the state of the window and leave what the host
has to do in an outbox.

| Module | What it holds |
|---|---|
| `text` | characters, numbers, pieces of text, UTF-8 lengths |
| `headings` | which lines of a book are headings, one rule per way to split |
| `chapters` | books as chapters, chapters as chunks |
| `base64` | the encoding of covers |
| `json` | JSON values and texts, through `serde_json` |
| `protocol` | the messages to the wristband |
| `inbound` | the messages from the wristband |
| `display` | sizes and times as the window shows them |
| `settings` | the reading settings of the wristband |
| `session` | a session with the wristband: what is sent, in which order |
| `state` | the state of the window, and what it asks of its host |
| `element`, `view` | the window as a tree of elements |
| `transfer`, `queries`, `ui` | transfers, questions, and the events of the host |
| `laws` | what holds of transfers, queries and the window as a whole |

`app/` runs the outbox on a host. `tests/` plays host and wristband.
