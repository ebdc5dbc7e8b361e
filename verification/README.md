# emufight

Arcade boards (NeoGeo and CPS1) with deterministic save states and rollback netplay, written
in Verus.

- `src/`: the verified library. Buses, video, sound boards, cartridges, ROM assembly, save-state
  framing, replays, and the rules of online and spectator sessions.
- `app/`: the desktop host. CPU cores and FM chips, files, sockets, the rollback engine and the
  SDL2 window.
- `tests/`: tests of the library on concrete values.

ROM images are never part of the project; the host supplies them under `roms/<name>/`, and the
NeoGeo system ROMs under `data/neogeo/` or `roms/neogeo/`.
