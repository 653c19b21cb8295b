# Kloenk

The rules of Kloenk, a small game in which a player walks over a grass
field, picks up swords and a shield, keeps them in an eight by eight
inventory and puts them down again. The rules are written in Verus and
proved against their contracts.

## Layout

- `src/`: the verified library.
  - `input`: key and button states; a press is reported once.
  - `component_map`, `components`, `game_state`: the entities of the world
    and their components, and the world a new game starts with.
  - `storage_manager`, `item_pickup_system`, `item_placement_system`: the
    inventory grid, the search for the first free spot, and picking items up
    and putting them down.
  - `render_batching`: grouping the entities to draw into runs that use the
    same mesh.
  - `ui_state`, `object_selection_system`, `inventory_system`,
    `dialogue_system`, `chat_system`, `game_system`: the menus, dialogues and
    windows, as state machines driven by clicks and keys.
  - `command_handle_system`, `frame_state`, `position_manager`, `names`,
    `dialogue_manager`, `application`: the texts told to the player, what a
    frame has handled, choosing among candidates, entity names, dialogues and
    the start-up states.
- `app/`: the program around the library: the window and event loop, the
  frame update, and the parts of the game that compute with coordinates
  (movement, collisions, the camera, the ray under the cursor, and the
  rectangles of the menus and the inventory window). The program draws
  nothing and plays no sound: it logs the action text told to the player.
  The frame update runs the object, inventory and menu systems; the
  dialogue and chat systems are in the library but no frame calls them.
- `tests/`: tests of the library on concrete values.
