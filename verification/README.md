# claude_overlay

The logic of a Windows desktop overlay that shows notifications from coding-assistant
sessions running in terminals (permission prompts, questions, "done" notices) and
routes the user's answer back to the terminal or hook that asked.

- `src/` — the verified library (Verus): the notification store, the registry of
  connected VS Code extensions, turning hook payloads into notifications, routing
  decisions, yes/no prompt detection, window matching, keystroke synthesis plans and
  the auto-start command line. Contracts and laws are stated over mathematical views.
- `tests/` — runtime tests of the library.
- `app/` — the Windows program around it: TCP and WebSocket listeners, Win32 window and
  keyboard calls, the registry Run key, the Tauri windows, tray and commands, and the
  serde forms of the library's types.
