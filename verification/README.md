# notype_mini

The core of a push-to-talk dictation tool for the desktop: hold a shortcut,
speak, and the transcript (optionally polished by a language model) is typed
at the cursor; a second shortcut applies a spoken editing instruction to the
selected text.

`src/` is the library, verified with Verus:

- `text`: character-level helpers (trimming, suffix stripping, search).
- `dictionary`: validation of the personal dictionary and its
  left-to-right, longest-match, non-cascading replacement.
- `candidates`: correction pairs from a character diff of a user's edit, and
  the queue of dictionary candidates (counting, refusing, cutting to a limit).
- `shortcut`: parsing of shortcut texts such as "Command+Option+Period".
- `session`: what a shortcut press or release does to the recording session,
  the checks, registration plan and step-by-step application (with rollback)
  of a settings change, input routing.
- `pipeline`: the processing of a finished recording as a state machine of
  stages, events and effects.
- `llm`, `dashscope`: the requests to the language model and the speech
  service, and the decisions of the transcription task polling.
- `history`: the bounded, newest-first history, its Markdown export and
  statistics.
- `audio`: the WAV encoding of recorded samples and the recorder handle.
- `config`: the settings and their defaults.

`app/` is the unverified shell: the settings, history and candidate files,
the HTTP clients, keyboard and clipboard access, and the session controller
that runs the library's decisions. `tests/` exercises the library.
