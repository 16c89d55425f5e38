# veloren_logic

The rules of a voxel RPG's client and server, written in Verus and proved
against their contracts:

- `energy`: an energy pool that never exceeds its maximum.
- `item`, `inventory`, `slot`: items, inventory slots and equipment, with
  equipping, unequipping and swapping that never lose or duplicate an item.
- `recipe`, `recipe_book`: crafting (what is taken from the inventory, what is
  missing) and salvaging; the book of recipes keyed by name.
- `inventory_manip`: what picking up, collecting, using, dropping, swapping
  and crafting do to an inventory, and what is left to the world.
- `group`, `group_messages`: group invitations, their limits and their
  timeouts; kick and leader decisions; the messages each outcome sends.
- `channel`: the network handshake as a state machine.
- `sentinel`: entities deleted per region.
- `stage`, `dash_melee`, `basic_aura`, `boost`: character states as
  functions from state and input to the next state.
- `mesh_queue`, `terrain_chunks`: the queue of terrain chunks waiting to be
  meshed, and the set of chunks that have a mesh.
- `pipelines`: packing of vertex and instance data for the GPU.
- `character_states`, `hud`, `text`, `ui_cache`: text and sizes shown by the
  user interface.
- `plugin_hello`: the example plugin's join rule.

`app/` holds what stays outside the proofs: floating-point physics and
geometry, serialisable copies of core types, the asynchronous driver of the
handshake, and the loops that feed world events to the verified decisions.
