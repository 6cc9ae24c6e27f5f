# clipygo-plugin-msteams

A [clipygo](https://github.com/it-atelier-gn/clipygo) plugin that sends clipboard
content to Microsoft Teams chats and channels.

- `src/` is the verified library (Verus): the token cache and sign-in decisions
  (`auth`), the browser sign-in address and callback parsing (`oauth`), the
  configuration and its update rules (`config`), chat titles, targets and message
  addresses (`graph`), the answers to each request (`handler`), and text helpers
  (`text`).
- `app/` is the program around it: the stdin/stdout loop, the configuration file,
  the HTTP calls to Microsoft Graph and the sign-in endpoints, the browser and the
  local callback socket, and the JSON forms of the library's types.
- `tests/` runs the library on concrete values.
