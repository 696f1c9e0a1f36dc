# apex_voice_switcher

Installs another official voice language of Apex Legends from its Steam
language depot while keeping the text language, and prints the
`+miles_language <code>` launch option that selects it.

- `src/` is the verified library (Verus):
  - `text.rs`: character-level helpers (decimal numbers, ASCII case,
    Unicode white space, searching);
  - `vdf.rs`: reading KeyValues files (`.acf`, `.vdf`) and `reg query` output;
  - `path.rs`: paths as lists of components;
  - `steam.rs`: where Steam, the game and SteamCMD keep their files, the
    library folders and the search for the game in them, the depot build
    record;
  - `language.rs`: the voice languages, launch options, the SteamCMD script;
  - `install.rs`: walking a depot (checked against a model of the directory
    tree), installing its files, the install record and its removal;
  - `search.rs`: whether a directory tree holds any file;
  - `workflow.rs`: the steps of an installation;
  - `ui.rs`: status lines, questions and messages.
- `app/` is a command-line front end that does the file system, registry,
  network and process work the library asks for.
- `tests/` runs the library on concrete values.
