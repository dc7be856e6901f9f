# live_region

Screen reader speech output for wxDragon applications through a live region.

- `src/` is the verified library:
  - `text.rs` cleans announcement text (layout characters to spaces, other control
    characters dropped, whitespace runs collapsed, at most 512 characters) and proves
    what the result looks like;
  - `priority.rs` holds the announcement priorities and their macOS levels;
  - `announce.rs` decides whether there is anything to announce, and what;
  - `uia.rs` maps priorities to UI Automation notification processing modes;
  - `providers.rs` keeps the per-window UI Automation providers used on Windows and
    decides what the announcer window's message hook does.
- `app/` ties the library to wxDragon widgets and to each platform's accessibility
  interface (gdbus/Orca on Linux, VoiceOver through the Objective-C runtime on macOS,
  UI Automation on Windows).
- `tests/` exercises the library, including a comparison of its character classes
  with the standard library's over every Unicode scalar value.
