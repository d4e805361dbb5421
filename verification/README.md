# steel_recipes

Verified recipe, crafting, furnace and campfire logic of a Minecraft-compatible
server, written in Verus.

- `src/` is the verified library. Every public function states what it returns
  or changes in its `ensures`; the laws that relate several functions stand as
  public proof functions beside them.
  - `items`, `item_stack`, `components`, `ingredient`: item ids with their
    default components (stack limit, durability, dye color), stacks that set
    components on top of those defaults, and recipe ingredients.
  - `recipe/`: recipe types and data, shaped and shapeless matching, the special
    crafting recipes, the recipe registry (keyed, bucketed by type, sorted by
    key when frozen) with its cached lookup, and the construction of recipe
    data from recipe definitions.
  - `recipe_manager`: assembling the crafted stack and the remainders of a grid.
  - `furnace`, `furnace_menu`, `furnace_block`, `fuel_values`: furnace ticking,
    fuel, sided inventory, shift-click routing and saved state.
  - `campfire`: the four cooking positions of a campfire.
  - `mob_effect`, `consume_effect`, `behavior`: when effects act and what they do,
    and the behavior registries.
  - `pos_set`, `bench_support`, `block_pos`: insertion-ordered position sets and
    region reads used by world-generation features.
  - `protocol`, `suggestion`, `playsound`: raw packets, command suggestions and
    the sound command's results.
  - The trusted declarations stand in `key_index` (`rustc_hash` maps),
    `pos_set` (`smallvec` storage) and `suggestion` (`str::to_lowercase`).
- `tests/` runs the library on concrete values.
- `app/` holds what the library leaves to the caller: encrypted streams, the
  displayable packet error, and the floating-point and random parts of effects,
  dyeing and furnace experience.
