use vstd::prelude::*;

use crate::component_map::ComponentMap;
use crate::components::{Entity, Graphics2D, Graphics3D, InStorage, ItemShape, Storable, Storage};
use crate::names::{
    lemma_plane_name_prefix, lemma_plane_names_distinct, lemma_sword_names_distinct, lemma_sword_name_prefix, make_plane_name, make_sword_name, plane_name,
    sword_name,
};

#[allow(unused_imports)]
use vstd::string::StringExecFns;

verus! {

/// The entities of the world and those of their components that hold no
/// coordinates: what is drawn, what can be stored, what stores, and where
/// stored items lie.
pub struct GameState {
    pub entities: Vec<Entity>,
    pub graphics_3d_components: ComponentMap<Graphics3D>,
    pub graphics_2d_components: ComponentMap<Graphics2D>,
    pub surface_components: ComponentMap<()>,
    pub storable_components: ComponentMap<Storable>,
    pub storage_components: ComponentMap<Storage>,
    pub in_storage_components: ComponentMap<InStorage>,
}

/// `entity` lies in the storage named `storage_entity`.
pub open spec fn is_stored_in(gs: GameState, entity: Entity, storage_entity: Seq<char>) -> bool {
    &&& gs.in_storage_components@.dom().contains(entity@)
    &&& gs.in_storage_components@[entity@].storage_entity@ == storage_entity
}


/// Every entity that has a component is in the entity list.
pub open spec fn components_belong_to_entities(gs: GameState) -> bool {
    let names = gs.entities@.map_values(|e: Entity| e@);
    &&& forall|k: Seq<char>| #[trigger] gs.graphics_3d_components@.dom().contains(k) ==> names.contains(k)
    &&& forall|k: Seq<char>| #[trigger] gs.graphics_2d_components@.dom().contains(k) ==> names.contains(k)
    &&& forall|k: Seq<char>| #[trigger] gs.surface_components@.dom().contains(k) ==> names.contains(k)
    &&& forall|k: Seq<char>| #[trigger] gs.storable_components@.dom().contains(k) ==> names.contains(k)
    &&& forall|k: Seq<char>| #[trigger] gs.storage_components@.dom().contains(k) ==> names.contains(k)
    &&& forall|k: Seq<char>| #[trigger] gs.in_storage_components@.dom().contains(k) ==> names.contains(k)
}

/// Number of swords in the world, numbered from 1.
pub const SWORD_COUNT: i32 = 70;

/// The ground tiles cover x and y from `PLANE_MIN` up to, not including, `PLANE_MAX`.
pub const PLANE_MIN: i8 = -10;
pub const PLANE_MAX: i8 = 10;

/// Number of ground tiles: one per (x, y).
pub open spec fn plane_count() -> int {
    (PLANE_MAX - PLANE_MIN) * (PLANE_MAX - PLANE_MIN)
}

/// The name of the `p`-th ground tile loaded: tiles are loaded by x, and for
/// each x by y, both counting up.
pub open spec fn plane_at(p: int) -> Seq<char> {
    plane_name(p / 20 + PLANE_MIN, p % 20 + PLANE_MIN)
}

/// `k` names one of swords 1 to `n`.
pub open spec fn is_sword_upto(k: Seq<char>, n: int) -> bool {
    exists|i: int| 1 <= i <= n && k == #[trigger] sword_name(i)
}

/// `k` names one of the first `n` ground tiles loaded.
pub open spec fn is_plane_upto(k: Seq<char>, n: int) -> bool {
    exists|p: int| 0 <= p < n && k == #[trigger] plane_at(p)
}

/// Each of swords 1 to `n` with `value`.
pub open spec fn for_swords<T>(n: int, value: T) -> Map<Seq<char>, T> {
    Map::new(|k: Seq<char>| is_sword_upto(k, n), |k: Seq<char>| value)
}

/// Each of the first `n` ground tiles with `value`.
pub open spec fn for_planes<T>(n: int, value: T) -> Map<Seq<char>, T> {
    Map::new(|k: Seq<char>| is_plane_upto(k, n), |k: Seq<char>| value)
}

/// The entities of a new world, in the order they are loaded: the player,
/// the shield, the swords, the ground tiles, the tree.
pub open spec fn initial_entities() -> Seq<Seq<char>> {
    seq!["player"@, "shield"@] + Seq::new(SWORD_COUNT as nat, |i: int| sword_name(i + 1)) + Seq::new(
        plane_count() as nat,
        |p: int| plane_at(p),
    ) + seq!["tree"@]
}

/// The world model of each entity of a new world.
pub open spec fn initial_models() -> Map<Seq<char>, Seq<char>> {
    Map::<Seq<char>, Seq<char>>::empty().insert("player"@, "character"@).insert(
        "shield"@,
        "shield"@,
    ).union_prefer_right(for_swords(SWORD_COUNT as int, "sword"@)).union_prefer_right(
        for_planes(plane_count(), "grass"@),
    ).insert("tree"@, "tree"@)
}

/// The inventory image of each entity of a new world that has one.
pub open spec fn initial_inventory_models() -> Map<Seq<char>, Seq<char>> {
    Map::<Seq<char>, Seq<char>>::empty().insert("shield"@, "shield_inventory"@).union_prefer_right(
        for_swords(SWORD_COUNT as int, "sword_inventory"@),
    )
}

/// The storable entities of a new world with their shapes: the shield takes
/// one by two cells, each sword one cell.
pub open spec fn initial_storables() -> Map<Seq<char>, Storable> {
    Map::<Seq<char>, Storable>::empty().insert(
        "shield"@,
        Storable { shape: ItemShape { width: 1, height: 2 } },
    ).union_prefer_right(
        for_swords(SWORD_COUNT as int, Storable { shape: ItemShape { width: 1, height: 1 } }),
    )
}

/// The storages of a new world: the player's inventory of eight by eight cells.
pub open spec fn initial_storages() -> Map<Seq<char>, Storage> {
    Map::<Seq<char>, Storage>::empty().insert(
        "player"@,
        Storage { number_of_rows: 8, number_of_columns: 8 },
    )
}

/// The names of a map's entities with the view of each value.
pub open spec fn model_ids(m: Map<Seq<char>, Graphics3D>) -> Map<Seq<char>, Seq<char>> {
    m.map_values(|g: Graphics3D| g.model_id@)
}

/// The names of a map's entities with the view of each value.
pub open spec fn inventory_model_ids(m: Map<Seq<char>, Graphics2D>) -> Map<Seq<char>, Seq<char>> {
    m.map_values(|g: Graphics2D| g.model_id@)
}


proof fn lemma_for_swords_step<T>(base: Map<Seq<char>, T>, n: int, value: T)
    requires
        0 <= n,
    ensures
        base.union_prefer_right(for_swords(n, value)).insert(sword_name(n + 1), value)
            == base.union_prefer_right(for_swords(n + 1, value)),
{
    assert forall|k: Seq<char>| is_sword_upto(k, n + 1) == (is_sword_upto(k, n) || k == sword_name(n + 1)) by {
        if is_sword_upto(k, n + 1) {
            let i = choose|i: int| 1 <= i <= n + 1 && k == #[trigger] sword_name(i);
            if i <= n {
                assert(is_sword_upto(k, n));
            }
        }
        if k == sword_name(n + 1) {
            assert(is_sword_upto(k, n + 1));
        }
        if is_sword_upto(k, n) {
            let i = choose|i: int| 1 <= i <= n && k == #[trigger] sword_name(i);
            assert(is_sword_upto(k, n + 1));
        }
    }
    assert(base.union_prefer_right(for_swords(n, value)).insert(sword_name(n + 1), value)
        =~= base.union_prefer_right(for_swords(n + 1, value)));
}

proof fn lemma_for_planes_step<T>(base: Map<Seq<char>, T>, n: int, value: T)
    requires
        0 <= n,
    ensures
        base.union_prefer_right(for_planes(n, value)).insert(plane_at(n), value)
            == base.union_prefer_right(for_planes(n + 1, value)),
{
    assert forall|k: Seq<char>| is_plane_upto(k, n + 1) == (is_plane_upto(k, n) || k == plane_at(n)) by {
        if is_plane_upto(k, n + 1) {
            let p = choose|p: int| 0 <= p < n + 1 && k == #[trigger] plane_at(p);
            if p < n {
                assert(is_plane_upto(k, n));
            }
        }
        if k == plane_at(n) {
            assert(is_plane_upto(k, n + 1));
        }
        if is_plane_upto(k, n) {
            let p = choose|p: int| 0 <= p < n && k == #[trigger] plane_at(p);
            assert(is_plane_upto(k, n + 1));
        }
    }
    assert(base.union_prefer_right(for_planes(n, value)).insert(plane_at(n), value)
        =~= base.union_prefer_right(for_planes(n + 1, value)));
}

proof fn lemma_plane_at(x: int, y: int)
    requires
        PLANE_MIN <= x < PLANE_MAX,
        PLANE_MIN <= y < PLANE_MAX,
    ensures
        plane_at((x - PLANE_MIN) * 20 + (y - PLANE_MIN)) == plane_name(x, y),
{
    let p = (x - PLANE_MIN) * 20 + (y - PLANE_MIN);
    assert(p / 20 == x - PLANE_MIN && p % 20 == y - PLANE_MIN) by (nonlinear_arith)
        requires
            p == (x - PLANE_MIN) * 20 + (y - PLANE_MIN),
            0 <= y - PLANE_MIN < 20,
    ;
}


/// What a new world holds, entity by entity: the player has an eight by
/// eight storage and the character model and is not storable; the shield is
/// storable on one by two cells; each sword is storable on one cell; each
/// ground tile is grass and a surface; the tree has the tree model.
pub proof fn lemma_initial_world()
    ensures
        initial_storages().dom().contains("player"@),
        initial_storages()["player"@] == (Storage { number_of_rows: 8, number_of_columns: 8 }),
        !initial_storables().dom().contains("player"@),
        !initial_storables().dom().contains("tree"@),
        initial_storables().dom().contains("shield"@),
        initial_storables()["shield"@].shape == (ItemShape { width: 1, height: 2 }),
        forall|i: int|
            1 <= i <= SWORD_COUNT ==> #[trigger] initial_storables().dom().contains(sword_name(i))
                && initial_storables()[sword_name(i)].shape == (ItemShape { width: 1, height: 1 }),
        initial_models()["player"@] == "character"@,
        initial_models()["shield"@] == "shield"@,
        initial_models()["tree"@] == "tree"@,
        forall|i: int|
            1 <= i <= SWORD_COUNT ==> #[trigger] initial_models()[sword_name(i)] == "sword"@,
        forall|x: int, y: int|
            PLANE_MIN <= x < PLANE_MAX && PLANE_MIN <= y < PLANE_MAX ==> #[trigger] initial_models()[plane_name(x, y)]
                == "grass"@ && for_planes(plane_count(), ()).dom().contains(plane_name(x, y)),
        initial_inventory_models()["shield"@] == "shield_inventory"@,
        forall|i: int|
            1 <= i <= SWORD_COUNT ==> #[trigger] initial_inventory_models()[sword_name(i)]
                == "sword_inventory"@,
{
    reveal_strlit("player");
    reveal_strlit("shield");
    reveal_strlit("tree");
    assert("player"@[0] == 'p' && "shield"@[0] == 's' && "tree"@[0] == 't');
    assert("player"@ != "shield"@ && "player"@ != "tree"@ && "shield"@ != "tree"@);
    assert forall|k: Seq<char>| #[trigger] is_sword_upto(k, SWORD_COUNT as int) implies k[0] == 's' && k[1] == 'w' && k.len() >= 5 by {
        let i = choose|i: int| 1 <= i <= SWORD_COUNT && k == #[trigger] sword_name(i);
        lemma_sword_name_prefix(i);
    }
    assert forall|k: Seq<char>| #[trigger] is_plane_upto(k, plane_count()) implies k[0] == 'p' && k[3] == 'n' && k.len() >= 5 by {
        let p = choose|p: int| 0 <= p < plane_count() && k == #[trigger] plane_at(p);
        lemma_plane_name_prefix(p / 20 + PLANE_MIN, p % 20 + PLANE_MIN);
    }
    assert(!is_sword_upto("player"@, SWORD_COUNT as int));
    assert(!is_sword_upto("shield"@, SWORD_COUNT as int));
    assert(!is_sword_upto("tree"@, SWORD_COUNT as int));
    assert(!is_plane_upto("player"@, plane_count()));
    assert(!is_plane_upto("shield"@, plane_count()));
    assert(!is_plane_upto("tree"@, plane_count()));
    assert forall|i: int| 1 <= i <= SWORD_COUNT implies #[trigger] initial_storables().dom().contains(sword_name(i))
        && initial_storables()[sword_name(i)].shape == (ItemShape { width: 1, height: 1 })
        && initial_models()[sword_name(i)] == "sword"@
        && initial_inventory_models()[sword_name(i)] == "sword_inventory"@ by {
        assert(is_sword_upto(sword_name(i), SWORD_COUNT as int));
        lemma_sword_name_prefix(i);
        assert(!is_plane_upto(sword_name(i), plane_count()));
        assert(sword_name(i) != "tree"@);
    }
    assert forall|x: int, y: int|
        PLANE_MIN <= x < PLANE_MAX && PLANE_MIN <= y < PLANE_MAX implies #[trigger] initial_models()[plane_name(x, y)]
            == "grass"@ && for_planes(plane_count(), ()).dom().contains(plane_name(x, y)) by {
        lemma_plane_at(x, y);
        let p = (x - PLANE_MIN) * 20 + (y - PLANE_MIN);
        assert(plane_at(p) == plane_name(x, y));
        assert(is_plane_upto(plane_name(x, y), plane_count()));
        lemma_plane_name_prefix(x, y);
        assert(plane_name(x, y) != "tree"@);
    }
}


/// The names of the swords, in the order they are loaded.
pub open spec fn sword_names() -> Seq<Seq<char>> {
    Seq::new(SWORD_COUNT as nat, |i: int| sword_name(i + 1))
}

/// The names of the ground tiles, in the order they are loaded.
pub open spec fn plane_names() -> Seq<Seq<char>> {
    Seq::new(plane_count() as nat, |p: int| plane_at(p))
}

/// The entity at position `i` of a new world's entity list.
spec fn initial_entity_at(i: int) -> Seq<char> {
    if i == 0 {
        "player"@
    } else if i == 1 {
        "shield"@
    } else if i < 72 {
        sword_name(i - 1)
    } else if i < 472 {
        plane_at(i - 72)
    } else {
        "tree"@
    }
}

proof fn lemma_plane_at_distinct(p: int, q: int)
    requires
        0 <= p < plane_count(),
        0 <= q < plane_count(),
        p != q,
    ensures
        plane_at(p) != plane_at(q),
{
    assert(p == 20 * (p / 20) + p % 20);
    assert(q == 20 * (q / 20) + q % 20);
    lemma_plane_names_distinct(p / 20 + PLANE_MIN, p % 20 + PLANE_MIN, q / 20 + PLANE_MIN, q % 20 + PLANE_MIN);
}

/// The first letters that tell the kinds of entities of a new world apart.
proof fn lemma_initial_name_letters(i: int)
    requires
        0 <= i < initial_entities().len(),
    ensures
        initial_entities()[i] == initial_entity_at(i),
        initial_entity_at(i).len() >= 4,
        i == 0 ==> initial_entity_at(i)[0] == 'p' && initial_entity_at(i)[3] == 'y',
        i == 1 ==> initial_entity_at(i)[0] == 's' && initial_entity_at(i)[1] == 'h',
        2 <= i < 72 ==> initial_entity_at(i)[0] == 's' && initial_entity_at(i)[1] == 'w',
        72 <= i < 472 ==> initial_entity_at(i)[0] == 'p' && initial_entity_at(i)[3] == 'n',
        i == 472 ==> initial_entity_at(i)[0] == 't',
{
    reveal_strlit("player");
    reveal_strlit("shield");
    reveal_strlit("tree");
    if 2 <= i < 72 {
        lemma_sword_name_prefix(i - 1);
    } else if 72 <= i < 472 {
        lemma_plane_name_prefix((i - 72) / 20 + PLANE_MIN, (i - 72) % 20 + PLANE_MIN);
    }
}

/// The counts of a new world: its entities are all distinct, there are
/// four hundred ground tiles and seventy-one storable items (the shield and
/// the swords), and every entity that has a component is in the entity list.
pub proof fn lemma_initial_world_counts()
    ensures
        initial_entities().no_duplicates(),
        for_planes(plane_count(), ()).dom().finite(),
        for_planes(plane_count(), ()).dom().len() == 400,
        initial_storables().dom().finite(),
        initial_storables().dom().len() == 71,
        forall|k: Seq<char>| #[trigger] initial_models().dom().contains(k) ==> initial_entities().contains(k),
        forall|k: Seq<char>|
            #[trigger] initial_inventory_models().dom().contains(k) ==> initial_entities().contains(k),
        forall|k: Seq<char>| #[trigger] initial_storables().dom().contains(k) ==> initial_entities().contains(k),
        forall|k: Seq<char>| #[trigger] initial_storages().dom().contains(k) ==> initial_entities().contains(k),
        forall|k: Seq<char>|
            #[trigger] for_planes(plane_count(), ()).dom().contains(k) ==> initial_entities().contains(k),
{
    let e = initial_entities();
    assert(e.len() == 473);
    assert forall|i: int, j: int| 0 <= i < e.len() && 0 <= j < e.len() && i != j implies e[i] != e[j] by {
        lemma_initial_name_letters(i);
        lemma_initial_name_letters(j);
        if 2 <= i < 72 && 2 <= j < 72 {
            lemma_sword_names_distinct(i - 1, j - 1);
        } else if 72 <= i < 472 && 72 <= j < 472 {
            lemma_plane_at_distinct(i - 72, j - 72);
        }
    }
    // Every sword and every tile is in the entity list.
    assert forall|i: int| 1 <= i <= SWORD_COUNT implies e.contains(#[trigger] sword_name(i)) by {
        lemma_initial_name_letters(i + 1);
        assert(e[i + 1] == sword_name(i));
    }
    assert forall|p: int| 0 <= p < plane_count() implies e.contains(#[trigger] plane_at(p)) by {
        lemma_initial_name_letters(p + 72);
        assert(e[p + 72] == plane_at(p));
    }
    lemma_initial_name_letters(0);
    lemma_initial_name_letters(1);
    lemma_initial_name_letters(472);
    assert(e.contains("player"@) && e.contains("shield"@) && e.contains("tree"@));

    // Four hundred ground tiles.
    let planes = plane_names();
    assert(planes.no_duplicates()) by {
        assert forall|p: int, q: int| 0 <= p < planes.len() && 0 <= q < planes.len() && p != q implies planes[p]
            != planes[q] by {
            lemma_plane_at_distinct(p, q);
        }
    }
    assert(for_planes(plane_count(), ()).dom() =~= planes.to_set()) by {
        assert forall|k: Seq<char>| #[trigger] is_plane_upto(k, plane_count()) implies planes.contains(k) by {
            let p = choose|p: int| 0 <= p < plane_count() && k == #[trigger] plane_at(p);
            assert(planes[p] == k);
        }
        assert forall|k: Seq<char>| planes.contains(k) implies #[trigger] is_plane_upto(k, plane_count()) by {
            let p = choose|p: int| 0 <= p < planes.len() && planes[p] == k;
            assert(k == plane_at(p));
        }
    }
    planes.unique_seq_to_set();
    vstd::seq_lib::seq_to_set_is_finite(planes);

    // Seventy-one storable items.
    let storables = seq!["shield"@] + sword_names();
    assert(storables.no_duplicates()) by {
        assert forall|a: int, b: int| 0 <= a < storables.len() && 0 <= b < storables.len() && a != b implies storables[a]
            != storables[b] by {
            lemma_initial_name_letters(a + 1);
            lemma_initial_name_letters(b + 1);
            assert(storables[a] == e[a + 1]);
            assert(storables[b] == e[b + 1]);
        }
    }
    assert(initial_storables().dom() =~= storables.to_set()) by {
        assert forall|k: Seq<char>| #[trigger] initial_storables().dom().contains(k) implies storables.contains(k) by {
            if k == "shield"@ {
                assert(storables[0] == k);
            } else {
                assert(is_sword_upto(k, SWORD_COUNT as int));
                let i = choose|i: int| 1 <= i <= SWORD_COUNT && k == #[trigger] sword_name(i);
                assert(storables[i] == k);
            }
        }
        assert forall|k: Seq<char>| storables.contains(k) implies #[trigger] initial_storables().dom().contains(k) by {
            let a = choose|a: int| 0 <= a < storables.len() && storables[a] == k;
            if a > 0 {
                assert(k == sword_name(a));
                assert(is_sword_upto(k, SWORD_COUNT as int));
            }
        }
    }
    storables.unique_seq_to_set();
    vstd::seq_lib::seq_to_set_is_finite(storables);

    // Every entity with a component is in the entity list.
    assert forall|k: Seq<char>| #[trigger] initial_models().dom().contains(k) implies e.contains(k) by {
        if is_sword_upto(k, SWORD_COUNT as int) {
            let i = choose|i: int| 1 <= i <= SWORD_COUNT && k == #[trigger] sword_name(i);
            assert(e.contains(sword_name(i)));
        } else if is_plane_upto(k, plane_count()) {
            let p = choose|p: int| 0 <= p < plane_count() && k == #[trigger] plane_at(p);
            assert(e.contains(plane_at(p)));
        }
    }
    assert forall|k: Seq<char>| #[trigger] initial_inventory_models().dom().contains(k) implies e.contains(k) by {
        if is_sword_upto(k, SWORD_COUNT as int) {
            let i = choose|i: int| 1 <= i <= SWORD_COUNT && k == #[trigger] sword_name(i);
            assert(e.contains(sword_name(i)));
        }
    }
    assert forall|k: Seq<char>| #[trigger] initial_storables().dom().contains(k) implies e.contains(k) by {
        if is_sword_upto(k, SWORD_COUNT as int) {
            let i = choose|i: int| 1 <= i <= SWORD_COUNT && k == #[trigger] sword_name(i);
            assert(e.contains(sword_name(i)));
        }
    }
    assert forall|k: Seq<char>| #[trigger] for_planes(plane_count(), ()).dom().contains(k) implies e.contains(k) by {
        let p = choose|p: int| 0 <= p < plane_count() && k == #[trigger] plane_at(p);
        assert(e.contains(plane_at(p)));
    }
}

/// What is recorded in a storage is listed among the items of that storage,
/// where it was recorded, and what is taken out is not listed any more.
pub proof fn lemma_in_storage_read_after_write(
    in_storage: Map<Seq<char>, InStorage>,
    storage_entity: Entity,
    to_store: Entity,
    spot: (u8, u8),
)
    ensures
        ({
            let recorded = in_storage.insert(
                to_store@,
                InStorage { storage_entity, position_x: spot.0, position_y: spot.1 },
            );
            &&& recorded.dom().contains(to_store@)
            &&& recorded[to_store@].storage_entity@ == storage_entity@
            &&& recorded[to_store@].position_x == spot.0
            &&& recorded[to_store@].position_y == spot.1
            &&& !recorded.remove(to_store@).dom().contains(to_store@)
            &&& recorded.remove(to_store@) == in_storage.remove(to_store@)
        }),
{
    let recorded = in_storage.insert(
        to_store@,
        InStorage { storage_entity, position_x: spot.0, position_y: spot.1 },
    );
    assert(recorded.remove(to_store@) =~= in_storage.remove(to_store@));
}

impl GameState {
    /// A new world: the player with an eight by eight inventory, a shield,
    /// seventy swords, twenty by twenty ground tiles and a tree, and nothing
    /// in any storage yet.
    pub fn new() -> (game_state: Self)
        ensures
            game_state.wf(),
            game_state.entities@.map_values(|e: Entity| e@) == initial_entities(),
            model_ids(game_state.graphics_3d_components@) == initial_models(),
            inventory_model_ids(game_state.graphics_2d_components@) == initial_inventory_models(),
            game_state.surface_components@ == for_planes(plane_count(), ()),
            game_state.storable_components@ == initial_storables(),
            game_state.storage_components@ == initial_storages(),
            game_state.in_storage_components@ == Map::<Seq<char>, InStorage>::empty(),
            game_state.entities@.map_values(|e: Entity| e@).no_duplicates(),
            game_state.surface_components@.dom().finite(),
            game_state.surface_components@.dom().len() == 400,
            game_state.storable_components@.dom().finite(),
            game_state.storable_components@.dom().len() == 71,
            components_belong_to_entities(game_state),
    {
        let mut entities: Vec<Entity> = Vec::new();
        let mut graphics_3d_components: ComponentMap<Graphics3D> = ComponentMap::new();
        let mut graphics_2d_components: ComponentMap<Graphics2D> = ComponentMap::new();
        let mut surface_components: ComponentMap<()> = ComponentMap::new();
        let mut storable_components: ComponentMap<Storable> = ComponentMap::new();
        let mut storage_components: ComponentMap<Storage> = ComponentMap::new();
        let in_storage_components: ComponentMap<InStorage> = ComponentMap::new();

        Self::load_player(&mut entities, &mut graphics_3d_components, &mut storage_components);
        Self::load_shield(
            &mut entities,
            &mut graphics_3d_components,
            &mut graphics_2d_components,
            &mut storable_components,
        );
        Self::load_swords(
            &mut entities,
            &mut graphics_3d_components,
            &mut graphics_2d_components,
            &mut storable_components,
        );
        Self::load_tiles(&mut entities, &mut graphics_3d_components, &mut surface_components);
        Self::load_tree(&mut entities, &mut graphics_3d_components);

        proof {
            assert(entities@.map_values(|e: Entity| e@) =~= initial_entities());
            assert(model_ids(graphics_3d_components@) =~= initial_models());
            assert(inventory_model_ids(graphics_2d_components@) =~= initial_inventory_models());
            assert(storable_components@ =~= initial_storables());
            assert(storage_components@ =~= initial_storages());
            assert(surface_components@ =~= for_planes(plane_count(), ()));
            lemma_initial_world_counts();
            assert(model_ids(graphics_3d_components@).dom() =~= graphics_3d_components@.dom());
            assert(inventory_model_ids(graphics_2d_components@).dom() =~= graphics_2d_components@.dom());
        }
        Self {
            entities,
            graphics_3d_components,
            graphics_2d_components,
            surface_components,
            storable_components,
            storage_components,
            in_storage_components,
        }
    }

    fn load_tree(entities: &mut Vec<Entity>, graphics_3d_components: &mut ComponentMap<Graphics3D>)
        requires
            old(graphics_3d_components).wf(),
        ensures
            final(graphics_3d_components).wf(),
            final(entities)@.map_values(|e: Entity| e@) == old(entities)@.map_values(|e: Entity| e@).push("tree"@),
            model_ids(final(graphics_3d_components)@) == model_ids(old(graphics_3d_components)@).insert("tree"@, "tree"@),
    {
        let tree = String::from_str("tree");
        entities.push(tree.clone());
        let tree_graphics = Graphics3D { model_id: String::from_str("tree") };
        graphics_3d_components.insert(tree.clone(), tree_graphics);
        proof {
            assert(entities@.map_values(|e: Entity| e@) =~= old(entities)@.map_values(|e: Entity| e@).push("tree"@));
            assert(model_ids(graphics_3d_components@) =~= model_ids(old(graphics_3d_components)@).insert("tree"@, "tree"@));
        }
    }

    fn load_player(
        entities: &mut Vec<Entity>,
        graphics_3d_components: &mut ComponentMap<Graphics3D>,
        storage_components: &mut ComponentMap<Storage>,
    )
        requires
            old(graphics_3d_components).wf(),
            old(storage_components).wf(),
        ensures
            final(graphics_3d_components).wf(),
            final(storage_components).wf(),
            final(entities)@.map_values(|e: Entity| e@) == old(entities)@.map_values(|e: Entity| e@).push("player"@),
            model_ids(final(graphics_3d_components)@) == model_ids(old(graphics_3d_components)@).insert("player"@, "character"@),
            final(storage_components)@ == old(storage_components)@.insert(
                "player"@,
                Storage { number_of_rows: 8, number_of_columns: 8 },
            ),
    {
        let player = String::from_str("player");
        entities.push(player.clone());
        let player_graphics = Graphics3D { model_id: String::from_str("character") };
        graphics_3d_components.insert(player.clone(), player_graphics);
        let player_storage = Storage { number_of_rows: 8, number_of_columns: 8 };
        storage_components.insert(player.clone(), player_storage);
        proof {
            assert(entities@.map_values(|e: Entity| e@) =~= old(entities)@.map_values(|e: Entity| e@).push("player"@));
            assert(model_ids(graphics_3d_components@) =~= model_ids(old(graphics_3d_components)@).insert("player"@, "character"@));
        }
    }

    fn load_shield(
        entities: &mut Vec<Entity>,
        graphics_3d_components: &mut ComponentMap<Graphics3D>,
        graphics_2d_components: &mut ComponentMap<Graphics2D>,
        storable_components: &mut ComponentMap<Storable>,
    )
        requires
            old(graphics_3d_components).wf(),
            old(graphics_2d_components).wf(),
            old(storable_components).wf(),
        ensures
            final(graphics_3d_components).wf(),
            final(graphics_2d_components).wf(),
            final(storable_components).wf(),
            final(entities)@.map_values(|e: Entity| e@) == old(entities)@.map_values(|e: Entity| e@).push("shield"@),
            model_ids(final(graphics_3d_components)@) == model_ids(old(graphics_3d_components)@).insert("shield"@, "shield"@),
            inventory_model_ids(final(graphics_2d_components)@) == inventory_model_ids(old(graphics_2d_components)@).insert("shield"@, "shield_inventory"@),
            final(storable_components)@ == old(storable_components)@.insert(
                "shield"@,
                Storable { shape: ItemShape { width: 1, height: 2 } },
            ),
    {
        let shield = String::from_str("shield");
        entities.push(shield.clone());
        let shield_graphics = Graphics3D { model_id: String::from_str("shield") };
        graphics_3d_components.insert(shield.clone(), shield_graphics);
        let shield_graphics_inventory = Graphics2D { model_id: String::from_str("shield_inventory") };
        graphics_2d_components.insert(shield.clone(), shield_graphics_inventory);
        let shield_storable = Storable { shape: ItemShape { width: 1, height: 2 } };
        storable_components.insert(shield.clone(), shield_storable);
        proof {
            assert(entities@.map_values(|e: Entity| e@) =~= old(entities)@.map_values(|e: Entity| e@).push("shield"@));
            assert(model_ids(graphics_3d_components@) =~= model_ids(old(graphics_3d_components)@).insert("shield"@, "shield"@));
            assert(inventory_model_ids(graphics_2d_components@) =~= inventory_model_ids(old(graphics_2d_components)@).insert("shield"@, "shield_inventory"@));
        }
    }

    fn load_swords(
        entities: &mut Vec<Entity>,
        graphics_3d_components: &mut ComponentMap<Graphics3D>,
        graphics_2d_components: &mut ComponentMap<Graphics2D>,
        storable_components: &mut ComponentMap<Storable>,
    )
        requires
            old(graphics_3d_components).wf(),
            old(graphics_2d_components).wf(),
            old(storable_components).wf(),
        ensures
            final(graphics_3d_components).wf(),
            final(graphics_2d_components).wf(),
            final(storable_components).wf(),
            final(entities)@.map_values(|e: Entity| e@) == old(entities)@.map_values(|e: Entity| e@) + Seq::new(SWORD_COUNT as nat, |i: int| sword_name(i + 1)),
            model_ids(final(graphics_3d_components)@) == model_ids(old(graphics_3d_components)@).union_prefer_right(for_swords(SWORD_COUNT as int, "sword"@)),
            inventory_model_ids(final(graphics_2d_components)@) == inventory_model_ids(old(graphics_2d_components)@).union_prefer_right(for_swords(SWORD_COUNT as int, "sword_inventory"@)),
            final(storable_components)@ == old(storable_components)@.union_prefer_right(
                for_swords(SWORD_COUNT as int, Storable { shape: ItemShape { width: 1, height: 1 } }),
            ),
    {
        let ghost entities0 = old(entities)@.map_values(|e: Entity| e@);
        let ghost models0 = model_ids(old(graphics_3d_components)@);
        let ghost inventory0 = inventory_model_ids(old(graphics_2d_components)@);
        let ghost storables0 = old(storable_components)@;
        let ghost one_cell = Storable { shape: ItemShape { width: 1, height: 1 } };
        let mut i: i32 = 1;
        while i <= SWORD_COUNT
            invariant
                1 <= i <= SWORD_COUNT + 1,
                one_cell == (Storable { shape: ItemShape { width: 1, height: 1 } }),
                graphics_3d_components.wf(),
                graphics_2d_components.wf(),
                storable_components.wf(),
                entities@.map_values(|e: Entity| e@) == entities0 + Seq::new((i - 1) as nat, |j: int| sword_name(j + 1)),
                model_ids(graphics_3d_components@) == models0.union_prefer_right(for_swords(i - 1, "sword"@)),
                inventory_model_ids(graphics_2d_components@) == inventory0.union_prefer_right(for_swords(i - 1, "sword_inventory"@)),
                storable_components@ == storables0.union_prefer_right(for_swords(i - 1, one_cell)),
            decreases SWORD_COUNT + 1 - i,
        {
            let sword = make_sword_name(i);
            let ghost before = entities@.map_values(|e: Entity| e@);
            let ghost models_before = model_ids(graphics_3d_components@);
            let ghost inventory_before = inventory_model_ids(graphics_2d_components@);
            let ghost storables_before = storable_components@;
            entities.push(sword.clone());
            let sword_graphics = Graphics3D { model_id: String::from_str("sword") };
            graphics_3d_components.insert(sword.clone(), sword_graphics);
            let sword_graphics_inventory = Graphics2D { model_id: String::from_str("sword_inventory") };
            graphics_2d_components.insert(sword.clone(), sword_graphics_inventory);
            let sword_storable = Storable { shape: ItemShape { width: 1, height: 1 } };
            storable_components.insert(sword.clone(), sword_storable);
            proof {
                assert(entities@.map_values(|e: Entity| e@) =~= before.push(sword_name(i as int)));
                assert(entities@.map_values(|e: Entity| e@) =~= entities0 + Seq::new(i as nat, |j: int| sword_name(j + 1)));
                assert(model_ids(graphics_3d_components@) =~= models_before.insert(sword_name(i as int), "sword"@));
                assert(inventory_model_ids(graphics_2d_components@) =~= inventory_before.insert(sword_name(i as int), "sword_inventory"@));
                lemma_for_swords_step(models0, i - 1, "sword"@);
                lemma_for_swords_step(inventory0, i - 1, "sword_inventory"@);
                assert(sword_storable == one_cell);
                assert(storable_components@ == storables_before.insert(sword_name(i as int), one_cell));
                lemma_for_swords_step(storables0, i - 1, one_cell);
            }
            i = i + 1;
        }
    }

    fn load_tiles(
        entities: &mut Vec<Entity>,
        graphics_3d_components: &mut ComponentMap<Graphics3D>,
        surface_components: &mut ComponentMap<()>,
    )
        requires
            old(graphics_3d_components).wf(),
            old(surface_components).wf(),
        ensures
            final(graphics_3d_components).wf(),
            final(surface_components).wf(),
            final(entities)@.map_values(|e: Entity| e@) == old(entities)@.map_values(|e: Entity| e@) + Seq::new(plane_count() as nat, |p: int| plane_at(p)),
            model_ids(final(graphics_3d_components)@) == model_ids(old(graphics_3d_components)@).union_prefer_right(for_planes(plane_count(), "grass"@)),
            final(surface_components)@ == old(surface_components)@.union_prefer_right(for_planes(plane_count(), ())),
    {
        let ghost entities0 = old(entities)@.map_values(|e: Entity| e@);
        let ghost models0 = model_ids(old(graphics_3d_components)@);
        let ghost surfaces0 = old(surface_components)@;
        let mut x: i8 = PLANE_MIN;
        while x < PLANE_MAX
            invariant
                PLANE_MIN <= x <= PLANE_MAX,
                graphics_3d_components.wf(),
                surface_components.wf(),
                entities@.map_values(|e: Entity| e@) == entities0 + Seq::new(((x - PLANE_MIN) * 20) as nat, |p: int| plane_at(p)),
                model_ids(graphics_3d_components@) == models0.union_prefer_right(for_planes((x - PLANE_MIN) * 20, "grass"@)),
                surface_components@ == surfaces0.union_prefer_right(for_planes((x - PLANE_MIN) * 20, ())),
            decreases PLANE_MAX - x,
        {
            let mut y: i8 = PLANE_MIN;
            while y < PLANE_MAX
                invariant
                    PLANE_MIN <= x < PLANE_MAX,
                    PLANE_MIN <= y <= PLANE_MAX,
                    graphics_3d_components.wf(),
                    surface_components.wf(),
                    entities@.map_values(|e: Entity| e@) == entities0 + Seq::new(((x - PLANE_MIN) * 20 + (y - PLANE_MIN)) as nat, |p: int| plane_at(p)),
                    model_ids(graphics_3d_components@) == models0.union_prefer_right(for_planes((x - PLANE_MIN) * 20 + (y - PLANE_MIN), "grass"@)),
                    surface_components@ == surfaces0.union_prefer_right(for_planes((x - PLANE_MIN) * 20 + (y - PLANE_MIN), ())),
                decreases PLANE_MAX - y,
            {
                let ghost p = (x - PLANE_MIN) * 20 + (y - PLANE_MIN);
                proof {
                    lemma_plane_at(x as int, y as int);
                }
                let plane = make_plane_name(x, y);
                let ghost before = entities@.map_values(|e: Entity| e@);
                let ghost models_before = model_ids(graphics_3d_components@);
                entities.push(plane.clone());
                let plane_graphics = Graphics3D { model_id: String::from_str("grass") };
                graphics_3d_components.insert(plane.clone(), plane_graphics);
                surface_components.insert(plane.clone(), ());
                proof {
                    assert(entities@.map_values(|e: Entity| e@) =~= before.push(plane_at(p)));
                    assert(entities@.map_values(|e: Entity| e@) =~= entities0 + Seq::new((p + 1) as nat, |q: int| plane_at(q)));
                    assert(model_ids(graphics_3d_components@) =~= models_before.insert(plane_at(p), "grass"@));
                    lemma_for_planes_step(models0, p, "grass"@);
                    lemma_for_planes_step(surfaces0, p, ());
                }
                y = y + 1;
            }
            x = x + 1;
        }
    }

    /// Each component map holds each entity at most once.
    pub open spec fn wf(&self) -> bool {
        &&& self.graphics_3d_components.wf()
        &&& self.graphics_2d_components.wf()
        &&& self.surface_components.wf()
        &&& self.storable_components.wf()
        &&& self.storage_components.wf()
        &&& self.in_storage_components.wf()
    }


    /// Whether each component map holds each entity at most once.
    pub fn is_wf(&self) -> (ok: bool)
        ensures
            ok == self.wf(),
    {
        self.graphics_3d_components.is_wf() && self.graphics_2d_components.is_wf()
            && self.surface_components.is_wf() && self.storable_components.is_wf()
            && self.storage_components.is_wf() && self.in_storage_components.is_wf()
    }

    pub fn get_graphics(&self, entity: &Entity) -> (graphics: Option<&Graphics3D>)
        requires
            self.wf(),
        ensures
            match graphics {
                Some(g) => self.graphics_3d_components@.dom().contains(entity@) && *g
                    == self.graphics_3d_components@[entity@],
                None => !self.graphics_3d_components@.dom().contains(entity@),
            },
    {
        self.graphics_3d_components.get(entity)
    }

    pub fn get_graphics_inventory(&self, entity: &Entity) -> (graphics: Option<&Graphics2D>)
        requires
            self.wf(),
        ensures
            match graphics {
                Some(g) => self.graphics_2d_components@.dom().contains(entity@) && *g
                    == self.graphics_2d_components@[entity@],
                None => !self.graphics_2d_components@.dom().contains(entity@),
            },
    {
        self.graphics_2d_components.get(entity)
    }

    pub fn get_storage(&self, entity: &Entity) -> (storage: Option<&Storage>)
        requires
            self.wf(),
        ensures
            match storage {
                Some(s) => self.storage_components@.dom().contains(entity@) && *s
                    == self.storage_components@[entity@],
                None => !self.storage_components@.dom().contains(entity@),
            },
    {
        self.storage_components.get(entity)
    }

    /// Records that `to_store` lies in `storage_entity`, its top-left corner at
    /// cell `spot` = (x, y).
    pub fn create_in_storage(&mut self, storage_entity: &Entity, to_store: Entity, spot: (u8, u8))
        requires
            old(self).wf(),
        ensures
            final(self).wf(),
            final(self).in_storage_components@ == old(self).in_storage_components@.insert(
                to_store@,
                InStorage { storage_entity: *storage_entity, position_x: spot.0, position_y: spot.1 },
            ),
            final(self).entities == old(self).entities,
            final(self).graphics_3d_components == old(self).graphics_3d_components,
            final(self).graphics_2d_components == old(self).graphics_2d_components,
            final(self).surface_components == old(self).surface_components,
            final(self).storable_components == old(self).storable_components,
            final(self).storage_components == old(self).storage_components,
    {
        let in_storage_component = InStorage {
            storage_entity: storage_entity.clone(),
            position_x: spot.0,
            position_y: spot.1,
        };
        self.in_storage_components.insert(to_store, in_storage_component);
    }

    /// Takes `entity` out of whatever storage it lies in.
    pub fn remove_in_storage(&mut self, entity: &Entity)
        requires
            old(self).wf(),
        ensures
            final(self).wf(),
            final(self).in_storage_components@ == old(self).in_storage_components@.remove(entity@),
            final(self).entities == old(self).entities,
            final(self).graphics_3d_components == old(self).graphics_3d_components,
            final(self).graphics_2d_components == old(self).graphics_2d_components,
            final(self).surface_components == old(self).surface_components,
            final(self).storable_components == old(self).storable_components,
            final(self).storage_components == old(self).storage_components,
    {
        self.in_storage_components.remove(entity);
    }

    /// The entities that lie in `storage_entity`, each with where it lies.
    pub fn get_in_storages<'a>(&'a self, storage_entity: &Entity) -> (items: ComponentMap<
        &'a InStorage,
    >)
        requires
            self.wf(),
        ensures
            items.wf(),
            forall|k: Seq<char>|
                #![trigger items@.dom().contains(k)]
                items@.dom().contains(k) == (self.in_storage_components@.dom().contains(k)
                    && self.in_storage_components@[k].storage_entity@ == storage_entity@),
            forall|k: Seq<char>|
                #![trigger items@[k]]
                items@.dom().contains(k) ==> *items@[k] == self.in_storage_components@[k],
    {
        let mut items: ComponentMap<&'a InStorage> = ComponentMap::new();
        let n = self.in_storage_components.len();
        let mut i: usize = 0;
        while i < n
            invariant
                n == self.in_storage_components.entry_seq().len(),
                i <= n,
                self.wf(),
                items.wf(),
                forall|k: Seq<char>|
                    #![trigger items@.dom().contains(k)]
                    items@.dom().contains(k) == (exists|j: int|
                        0 <= j < i && #[trigger] self.in_storage_components.entry_seq()[j].0@ == k
                            && self.in_storage_components.entry_seq()[j].1.storage_entity@
                            == storage_entity@),
                forall|k: Seq<char>|
                    #![trigger items@[k]]
                    items@.dom().contains(k) ==> *items@[k] == self.in_storage_components@[k],
            decreases n - i,
        {
            let (entity, in_storage) = self.in_storage_components.entry(i);
            proof {
                self.in_storage_components.lemma_entry_in_map(i as int);
            }
            if in_storage.storage_entity == *storage_entity {
                items.insert(entity.clone(), in_storage);
            }
            i = i + 1;
        }
        assert forall|k: Seq<char>|
            #![trigger items@.dom().contains(k)]
            items@.dom().contains(k) == (self.in_storage_components@.dom().contains(k)
                && self.in_storage_components@[k].storage_entity@ == storage_entity@) by {
            if self.in_storage_components@.dom().contains(k) {
                self.in_storage_components.lemma_map_has_entry(k);
                let j = choose|j: int|
                    0 <= j < self.in_storage_components.entry_seq().len()
                        && #[trigger] self.in_storage_components.entry_seq()[j].0@ == k;
                self.in_storage_components.lemma_entry_in_map(j);
            }
            if items@.dom().contains(k) {
                let j = choose|j: int|
                    0 <= j < n && #[trigger] self.in_storage_components.entry_seq()[j].0@ == k
                        && self.in_storage_components.entry_seq()[j].1.storage_entity@
                        == storage_entity@;
                self.in_storage_components.lemma_entry_in_map(j);
            }
        }
        items
    }
}

} // verus!
