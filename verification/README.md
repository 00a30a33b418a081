# puppetty

A desktop puppet: an image in a transparent window that rises with the
microphone level. The library (`src/`, verified with Verus) holds the
program's decisions; `app/` wires them to Bevy (windows and UI), cpal (audio
input) and rfd (file dialog).

- `src/microphones.rs` builds the microphone menu from what the audio host
  reports, with laws on the menu (`lemma_menu_sound`, `lemma_menu_complete`).
- `src/capture.rs` drives the start of a microphone, device after device,
  and decides what the level meter shows.
- `src/puppet.rs` keeps track of the puppet window's entities and flags.
- `src/menu.rs` names the entries and the selection of the menu.
- `src/image_dialog.rs` decides about the image file dialog.

Floating-point work (level in dBFS, the puppet's size and motion) stays in
`app/`.
