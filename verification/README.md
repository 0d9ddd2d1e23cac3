# roguelike

A small dungeon crawler: the player walks a map of rooms and tunnels, fights
orcs and trolls, and picks up and drinks healing potions.

- `src/` is the game's rules, verified with Verus: map geometry and digging
  (`types`, `map`, `dungeon`), combat and death (`combat`, `action`), monster
  turns (`ai`), key handling (`keys`), what the screen shows (`render`), the
  message log and decimal text (`types`, `text`), and the laws that hold across
  these operations (`laws`).
- `app/` is the terminal front end built on `tcod`: the window, input, field of
  view, drawing, and the random choices made when a dungeon is generated.
- `tests/` runs the rules on concrete games.
