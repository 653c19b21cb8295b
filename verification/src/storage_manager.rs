use vstd::prelude::*;

use crate::components::{Entity, InStorage, ItemShape, Storage};
use crate::game_state::{is_stored_in, GameState};

verus! {

/// Size of the padded grid that item shapes are checked against: cells
/// beyond the storage, up to this size, count as taken.
pub const PADDED_STORAGE_SIZE: usize = 12;

/// Finds room for items in storages.
pub struct StorageManager {}

/// The item placed at `placement` with `shape` takes cell (x, y).
pub open spec fn covers(placement: InStorage, shape: ItemShape, x: int, y: int) -> bool {
    &&& placement.position_x <= x < placement.position_x + shape.width
    &&& placement.position_y <= y < placement.position_y + shape.height
}

/// Some item of `items` takes cell (x, y).
pub open spec fn is_occupied(items: Seq<(InStorage, ItemShape)>, x: int, y: int) -> bool {
    exists|i: int| 0 <= i < items.len() && #[trigger] covers(items[i].0, items[i].1, x, y)
}

/// Where each listed entity lies and the shape it has, as the game state records them.
pub open spec fn stored_items(gs: GameState, entities: Seq<Entity>) -> Seq<(InStorage, ItemShape)> {
    entities.map_values(
        |e: Entity|
            (gs.in_storage_components@[e@], gs.storable_components@[e@].shape),
    )
}

/// Writing the cells of an item placed at `placement` stays inside the grid
/// of `storage`, and its bounds fit in a `u8`. The grid has
/// `number_of_columns` lines of `number_of_rows` cells, indexed `[y][x]`.
pub open spec fn placement_in_grid(storage: Storage, placement: InStorage, shape: ItemShape) -> bool {
    &&& placement.position_x + shape.width <= u8::MAX
    &&& shape.width == 0 || placement.position_y + shape.height <= u8::MAX
    &&& shape.width == 0 || shape.height == 0 || (placement.position_x + shape.width
        <= storage.number_of_rows && placement.position_y + shape.height
        <= storage.number_of_columns)
}

/// The entities a list of references points to.
pub open spec fn entity_names(list: Seq<&Entity>) -> Seq<Entity> {
    list.map_values(|e: &Entity| *e)
}

/// Each listed entity lies in some storage and is storable, and its cells
/// lie in the grid of `storage`.
pub open spec fn items_in_grid(gs: GameState, storage: Storage, entities: Seq<Entity>) -> bool {
    forall|i: int|
        #![trigger entities[i]]
        0 <= i < entities.len() ==> {
            &&& gs.in_storage_components@.dom().contains(entities[i]@)
            &&& gs.storable_components@.dom().contains(entities[i]@)
            &&& placement_in_grid(
                storage,
                gs.in_storage_components@[entities[i]@],
                gs.storable_components@[entities[i]@].shape,
            )
        }
}

/// A grid of cells, seen as lines of cell values.
pub open spec fn grid_view(grid: Seq<Vec<bool>>) -> Seq<Seq<bool>> {
    grid.map_values(|line: Vec<bool>| line@)
}

/// The cell (x, y), indexed `grid[y][x]`, exists.
pub open spec fn in_grid(grid: Seq<Seq<bool>>, x: int, y: int) -> bool {
    0 <= y < grid.len() && 0 <= x < grid[y].len()
}

/// The cell (x, y) does not exist or is taken.
pub open spec fn blocked(grid: Seq<Seq<bool>>, x: int, y: int) -> bool {
    !in_grid(grid, x, y) || grid[y][x]
}

/// The cell at offset (dx, dy) from the corner (column, row) is blocked.
pub open spec fn offset_blocked(grid: Seq<Seq<bool>>, row: int, column: int, dx: int, dy: int) -> bool {
    blocked(grid, column + dx, row + dy)
}

/// The cell at offset (dx, dy) from the corner (column, row) exists.
pub open spec fn offset_in_grid(grid: Seq<Seq<bool>>, row: int, column: int, dx: int, dy: int) -> bool {
    in_grid(grid, column + dx, row + dy)
}

/// Every cell that `shape` takes with its top-left corner at (column, row) exists and is free.
pub open spec fn spot_fits(grid: Seq<Seq<bool>>, row: int, column: int, shape: ItemShape) -> bool {
    forall|dx: int, dy: int|
        0 <= dx < shape.width && 0 <= dy < shape.height ==> !#[trigger] offset_blocked(
            grid,
            row,
            column,
            dx,
            dy,
        )
}

/// Cells of a shape are checked column by column, each column top to bottom:
/// offset (dx1, dy1) is checked before offset (dx2, dy2).
pub open spec fn checked_before(dx1: int, dy1: int, dx2: int, dy2: int) -> bool {
    dx1 < dx2 || (dx1 == dx2 && dy1 < dy2)
}

/// Every cell checked before offset (dx, dy) exists and is free, so the
/// check of the spot reads the cell at (dx, dy).
pub open spec fn check_reaches(
    grid: Seq<Seq<bool>>,
    row: int,
    column: int,
    shape: ItemShape,
    dx: int,
    dy: int,
) -> bool {
    forall|dx2: int, dy2: int|
        0 <= dx2 < shape.width && 0 <= dy2 < shape.height && checked_before(dx2, dy2, dx, dy)
            ==> !#[trigger] offset_blocked(grid, row, column, dx2, dy2)
}

/// Checking the spot (column, row) for `shape` computes no bound past
/// `u8::MAX` and reads no cell outside the grid.
pub open spec fn spot_check_safe(grid: Seq<Seq<bool>>, row: u8, column: u8, shape: ItemShape) -> bool {
    &&& column + shape.width <= u8::MAX
    &&& shape.width == 0 || row + shape.height <= u8::MAX
    &&& forall|dx: int, dy: int|
        0 <= dx < shape.width && 0 <= dy < shape.height && #[trigger] check_reaches(
            grid,
            row as int,
            column as int,
            shape,
            dx,
            dy,
        ) ==> offset_in_grid(grid, row as int, column as int, dx, dy)
}


/// Cell (x, y) belongs to the storage space and no item takes it. Only the
/// square of side `number_of_columns` counts as storage space.
pub open spec fn cell_free(storage: Storage, items: Seq<(InStorage, ItemShape)>, x: int, y: int) -> bool {
    &&& 0 <= x < storage.number_of_columns
    &&& 0 <= y < storage.number_of_columns
    &&& !is_occupied(items, x, y)
}

/// The cell at offset (dx, dy) from the corner (column, row) is free.
pub open spec fn offset_free(
    storage: Storage,
    items: Seq<(InStorage, ItemShape)>,
    row: int,
    column: int,
    dx: int,
    dy: int,
) -> bool {
    cell_free(storage, items, column + dx, row + dy)
}

/// An item of `shape` fits with its top-left corner at (column, row): every
/// cell it would take is free.
pub open spec fn spot_is_free(
    storage: Storage,
    items: Seq<(InStorage, ItemShape)>,
    shape: ItemShape,
    row: int,
    column: int,
) -> bool {
    forall|dx: int, dy: int|
        0 <= dx < shape.width && 0 <= dy < shape.height ==> #[trigger] offset_free(
            storage,
            items,
            row,
            column,
            dx,
            dy,
        )
}

/// No spot that comes before (column, row) in the search fits: the search
/// goes row by row, each row from column 0 up, over `number_of_rows` rows
/// of `number_of_columns` columns.
pub open spec fn no_free_spot_before(
    storage: Storage,
    items: Seq<(InStorage, ItemShape)>,
    shape: ItemShape,
    row: int,
    column: int,
) -> bool {
    forall|r: int, c: int|
        0 <= r < storage.number_of_rows && 0 <= c < storage.number_of_columns && (r < row || (r
            == row && c < column)) ==> !#[trigger] spot_is_free(storage, items, shape, r, c)
}

/// The grid that shapes are checked against: `PADDED_STORAGE_SIZE` lines of
/// as many cells, where a cell of the storage square is taken as the items
/// take it, and every other cell is taken.
pub open spec fn padded_grid(storage: Storage, items: Seq<(InStorage, ItemShape)>) -> Seq<Seq<bool>> {
    Seq::new(
        PADDED_STORAGE_SIZE as nat,
        |y: int|
            Seq::new(
                PADDED_STORAGE_SIZE as nat,
                |x: int|
                    if x < storage.number_of_columns && y < storage.number_of_columns {
                        is_occupied(items, x, y)
                    } else {
                        true
                    },
            ),
    )
}

/// Every spot that the search reaches can be checked safely in the padded grid.
pub open spec fn spot_search_safe(
    storage: Storage,
    items: Seq<(InStorage, ItemShape)>,
    shape: ItemShape,
) -> bool {
    forall|r: int, c: int|
        0 <= r < storage.number_of_rows && 0 <= c < storage.number_of_columns
            && #[trigger] no_free_spot_before(storage, items, shape, r, c) ==> spot_check_safe(
            padded_grid(storage, items),
            r as u8,
            c as u8,
            shape,
        )
}

/// Finding room for `near_pickup` among the listed entities of `storage`
/// does not fail: the entities are recorded and lie in the grid, the item is
/// storable, the storage square fits in the padded grid, and every check
/// the search makes stays inside it.
pub open spec fn find_empty_spot_requires(
    game_state: GameState,
    storage: Storage,
    in_storage_entities: Seq<Entity>,
    near_pickup: Entity,
) -> bool {
    &&& game_state.wf()
    &&& items_in_grid(game_state, storage, in_storage_entities)
    &&& game_state.storable_components@.dom().contains(near_pickup@)
    &&& storage.number_of_columns <= storage.number_of_rows
    &&& storage.number_of_columns <= PADDED_STORAGE_SIZE
    &&& spot_search_safe(
        storage,
        stored_items(game_state, in_storage_entities),
        game_state.storable_components@[near_pickup@].shape,
    )
}

proof fn lemma_padded_fits(storage: Storage, items: Seq<(InStorage, ItemShape)>, shape: ItemShape, row: int, column: int)
    requires
        storage.number_of_columns <= PADDED_STORAGE_SIZE,
        0 <= row,
        0 <= column,
    ensures
        spot_fits(padded_grid(storage, items), row, column, shape) == spot_is_free(storage, items, shape, row, column),
{
    let g = padded_grid(storage, items);
    assert forall|dx: int, dy: int| 0 <= dx < shape.width && 0 <= dy < shape.height implies
        (!offset_blocked(g, row, column, dx, dy)) == #[trigger] offset_free(storage, items, row, column, dx, dy) by {
        let x = column + dx;
        let y = row + dy;
        if x < storage.number_of_columns && y < storage.number_of_columns {
            assert(in_grid(g, x, y));
            assert(g[y][x] == is_occupied(items, x, y));
        } else if in_grid(g, x, y) {
            assert(g[y][x]);
        }
    }
    if spot_fits(g, row, column, shape) {
        assert forall|dx: int, dy: int| 0 <= dx < shape.width && 0 <= dy < shape.height implies
            #[trigger] offset_free(storage, items, row, column, dx, dy) by {
            assert(!offset_blocked(g, row, column, dx, dy));
        }
    }
    if spot_is_free(storage, items, shape, row, column) {
        assert forall|dx: int, dy: int| 0 <= dx < shape.width && 0 <= dy < shape.height implies
            !#[trigger] offset_blocked(g, row, column, dx, dy) by {
            assert(offset_free(storage, items, row, column, dx, dy));
        }
    }
}


/// The entities of the world that lie in the storage named `storage_entity`,
/// in the order of the entity list.
pub open spec fn entities_in_storage(game_state: GameState, storage_entity: Seq<char>) -> Seq<Entity> {
    game_state.entities@.filter(|e: Entity| is_stored_in(game_state, e, storage_entity))
}


/// No cell is taken by two of the items.
pub open spec fn items_apart(items: Seq<(InStorage, ItemShape)>) -> bool {
    forall|i: int, j: int, x: int, y: int|
        0 <= i < items.len() && 0 <= j < items.len() && i != j && #[trigger] covers(
            items[i].0,
            items[i].1,
            x,
            y,
        ) ==> !#[trigger] covers(items[j].0, items[j].1, x, y)
}

/// Every cell an item takes belongs to the storage space of `storage`.
pub open spec fn items_inside(storage: Storage, items: Seq<(InStorage, ItemShape)>) -> bool {
    forall|i: int, x: int, y: int|
        0 <= i < items.len() && #[trigger] covers(items[i].0, items[i].1, x, y) ==> 0 <= x
            < storage.number_of_columns && 0 <= y < storage.number_of_columns
}

/// An item put with its corner on a free spot takes no cell that another
/// item takes and no cell outside the storage space, and, when it takes at
/// least one cell, writing its cells into the occupancy grid stays inside
/// that grid: storing picked-up items where `find_empty_spot` says keeps a
/// storage consistent.
pub proof fn lemma_free_spot_keeps_storage_consistent(
    storage: Storage,
    items: Seq<(InStorage, ItemShape)>,
    shape: ItemShape,
    placement: InStorage,
)
    requires
        spot_is_free(storage, items, shape, placement.position_y as int, placement.position_x as int),
    ensures
        items_apart(items) ==> items_apart(items.push((placement, shape))),
        items_inside(storage, items) ==> items_inside(storage, items.push((placement, shape))),
        storage.number_of_columns <= storage.number_of_rows && shape.width > 0 && shape.height > 0
            ==> placement_in_grid(storage, placement, shape),
{
    let row = placement.position_y as int;
    let column = placement.position_x as int;
    let all = items.push((placement, shape));
    assert forall|x: int, y: int| #[trigger] covers(placement, shape, x, y) implies cell_free(storage, items, x, y) by {
        assert(offset_free(storage, items, row, column, x - column, y - row));
    }
    if items_apart(items) {
        assert forall|i: int, j: int, x: int, y: int|
            0 <= i < all.len() && 0 <= j < all.len() && i != j && #[trigger] covers(all[i].0, all[i].1, x, y)
                implies !#[trigger] covers(all[j].0, all[j].1, x, y) by {
            if i == items.len() {
                assert(cell_free(storage, items, x, y));
                assert(all[j] == items[j]);
            } else if j == items.len() {
                assert(all[i] == items[i]);
                if covers(all[j].0, all[j].1, x, y) {
                    assert(cell_free(storage, items, x, y));
                }
            } else {
                assert(all[i] == items[i]);
                assert(all[j] == items[j]);
            }
        }
    }
    if items_inside(storage, items) {
        assert forall|i: int, x: int, y: int|
            0 <= i < all.len() && #[trigger] covers(all[i].0, all[i].1, x, y) implies 0 <= x
                < storage.number_of_columns && 0 <= y < storage.number_of_columns by {
            if i == items.len() {
                assert(cell_free(storage, items, x, y));
            } else {
                assert(all[i] == items[i]);
            }
        }
    }
    if storage.number_of_columns <= storage.number_of_rows && shape.width > 0 && shape.height > 0 {
        assert(offset_free(storage, items, row, column, shape.width - 1, shape.height - 1));
    }
}

/// A spot is found exactly when some spot is free: `has_space` and
/// `find_empty_spot` agree, and the search misses no free spot.
pub proof fn lemma_search_complete(
    storage: Storage,
    items: Seq<(InStorage, ItemShape)>,
    shape: ItemShape,
)
    ensures
        no_free_spot_before(storage, items, shape, storage.number_of_rows as int, 0) == !exists|r: int, c: int|
            0 <= r < storage.number_of_rows && 0 <= c < storage.number_of_columns
                && #[trigger] spot_is_free(storage, items, shape, r, c),
{
}


/// Storages of at most eleven columns and twelve rows, with no more columns
/// than rows, can always be searched: every check stays inside the padded
/// grid, because the padding blocks a check before it leaves the grid.
pub proof fn lemma_small_storage_search_safe(
    storage: Storage,
    items: Seq<(InStorage, ItemShape)>,
    shape: ItemShape,
)
    requires
        storage.number_of_columns < PADDED_STORAGE_SIZE,
        storage.number_of_rows <= PADDED_STORAGE_SIZE,
        storage.number_of_columns <= storage.number_of_rows,
        shape.width <= 244,
        shape.height <= 244,
    ensures
        spot_search_safe(storage, items, shape),
{
    let g = padded_grid(storage, items);
    let columns = storage.number_of_columns as int;
    assert forall|r: int, c: int|
        0 <= r < storage.number_of_rows && 0 <= c < storage.number_of_columns
            && #[trigger] no_free_spot_before(storage, items, shape, r, c) implies spot_check_safe(
        g,
        r as u8,
        c as u8,
        shape,
    ) by {
        assert forall|dx: int, dy: int|
            0 <= dx < shape.width && 0 <= dy < shape.height && #[trigger] check_reaches(
                g,
                r,
                c,
                shape,
                dx,
                dy,
            ) implies offset_in_grid(g, r, c, dx, dy) by {
            if c + dx >= PADDED_STORAGE_SIZE {
                assert(checked_before(columns - c, 0, dx, dy));
                assert(offset_blocked(g, r, c, columns - c, 0));
            } else if r + dy >= PADDED_STORAGE_SIZE {
                let dy2 = if r >= columns {
                    0
                } else {
                    columns - r
                };
                assert(checked_before(dx, dy2, dx, dy));
                assert(offset_blocked(g, r, c, dx, dy2));
            }
        }
    }
}

impl StorageManager {
    /// The entities that lie in `entity`, in the order of the entity list.
    pub fn get_in_storage<'a>(game_state: &'a GameState, entity: &Entity) -> (items: Vec<&'a Entity>)
        requires
            game_state.wf(),
        ensures
            entity_names(items@) == entities_in_storage(*game_state, entity@),
    {
        let ghost pred = |e: Entity| is_stored_in(*game_state, e, entity@);
        let mut items: Vec<&'a Entity> = Vec::new();
        let mut i: usize = 0;
        while i < game_state.entities.len()
            invariant
                game_state.wf(),
                pred == (|e: Entity| is_stored_in(*game_state, e, entity@)),
                i <= game_state.entities@.len(),
                entity_names(items@) == game_state.entities@.take(i as int).filter(pred),
            decreases game_state.entities@.len() - i,
        {
            let e: &Entity = &game_state.entities[i];
            let stored_here = match game_state.in_storage_components.get(e) {
                Some(in_storage) => in_storage.storage_entity == *entity,
                None => false,
            };
            proof {
                reveal_with_fuel(Seq::filter, 1);
                assert(game_state.entities@.take(i + 1).drop_last() =~= game_state.entities@.take(
                    i as int,
                ));
                assert(stored_here == pred(game_state.entities@[i as int]));
            }
            let ghost before = items@;
            if stored_here {
                items.push(e);
                assert(entity_names(items@) =~= before.map_values(|e: &Entity| *e).push(*e));
            }
            i = i + 1;
        }
        assert(game_state.entities@.take(game_state.entities@.len() as int) =~= game_state.entities@);
        items
    }

    /// The same list as `get_in_storage`.
    pub fn get_in_storage_entities<'a>(game_state: &'a GameState, entity: &Entity) -> (items: Vec<&'a Entity>)
        requires
            game_state.wf(),
        ensures
            entity_names(items@) == entities_in_storage(*game_state, entity@),
    {
        Self::get_in_storage(game_state, entity)
    }

    /// The first entity, in the order of the entity list, that lies in `entity`.
    pub fn find_in_storage<'a>(game_state: &'a GameState, entity: &Entity) -> (item: Option<&'a Entity>)
        requires
            game_state.wf(),
        ensures
            match item {
                Some(e) => entities_in_storage(*game_state, entity@).len() > 0 && *e
                    == entities_in_storage(*game_state, entity@)[0],
                None => entities_in_storage(*game_state, entity@).len() == 0,
            },
    {
        let storage_entities = Self::get_in_storage_entities(game_state, entity);
        if storage_entities.len() > 0 {
            let first: &'a Entity = storage_entities[0];
            assert(storage_entities@.map_values(|e: &Entity| *e)[0] == *first);
            Some(first)
        } else {
            None
        }
    }

    /// The first spot, searching row by row and each row from column 0 up,
    /// where `near_pickup` fits among the listed entities, as (column, row).
    pub fn find_empty_spot(
        game_state: &GameState,
        storage: &Storage,
        in_storage_entities: &Vec<&Entity>,
        near_pickup: &Entity,
    ) -> (spot: Option<(u8, u8)>)
        requires
            find_empty_spot_requires(*game_state, *storage, entity_names(in_storage_entities@), *near_pickup),
        ensures
            ({
                let items = stored_items(*game_state, entity_names(in_storage_entities@));
                let shape = game_state.storable_components@[near_pickup@].shape;
                match spot {
                    Some((column, row)) => {
                        &&& row < storage.number_of_rows
                        &&& column < storage.number_of_columns
                        &&& spot_is_free(*storage, items, shape, row as int, column as int)
                        &&& no_free_spot_before(*storage, items, shape, row as int, column as int)
                    },
                    None => no_free_spot_before(
                        *storage,
                        items,
                        shape,
                        storage.number_of_rows as int,
                        0,
                    ),
                }
            }),
    {
        let ghost items = stored_items(*game_state, entity_names(in_storage_entities@));
        let dynamic_storage = Self::generate_dynamic_storage_space(
            game_state,
            storage,
            in_storage_entities,
        );
        let item_shape = &game_state.storable_components.get(near_pickup).unwrap().shape;
        let ghost shape = *item_shape;
        let ghost padded = padded_grid(*storage, items);

        let mut padded_storage: Vec<Vec<bool>> = Vec::new();
        let mut i: usize = 0;
        while i < PADDED_STORAGE_SIZE
            invariant
                i <= PADDED_STORAGE_SIZE,
                padded_storage@.len() == i,
                forall|y: int|
                    0 <= y < i ==> #[trigger] padded_storage@[y]@.len() == PADDED_STORAGE_SIZE,
                forall|y: int, x: int|
                    0 <= y < i && 0 <= x < PADDED_STORAGE_SIZE ==> #[trigger] padded_storage@[y]@[x],
            decreases PADDED_STORAGE_SIZE - i,
        {
            let mut line: Vec<bool> = Vec::new();
            let mut j: usize = 0;
            while j < PADDED_STORAGE_SIZE
                invariant
                    j <= PADDED_STORAGE_SIZE,
                    line@.len() == j,
                    forall|x: int| 0 <= x < j ==> #[trigger] line@[x],
                decreases PADDED_STORAGE_SIZE - j,
            {
                line.push(true);
                j = j + 1;
            }
            padded_storage.push(line);
            i = i + 1;
        }

        let n = dynamic_storage.len();
        let mut x: usize = 0;
        while x < n
            invariant
                n == dynamic_storage@.len(),
                n == storage.number_of_columns,
                storage.number_of_columns <= storage.number_of_rows,
                storage.number_of_columns <= PADDED_STORAGE_SIZE,
                forall|y: int|
                    0 <= y < storage.number_of_columns ==> #[trigger] dynamic_storage@[y]@.len()
                        == storage.number_of_rows,
                forall|y: int, x2: int|
                    0 <= y < storage.number_of_columns && 0 <= x2 < storage.number_of_rows
                        ==> #[trigger] dynamic_storage@[y]@[x2] == is_occupied(items, x2, y),
                x <= n,
                padded_storage@.len() == PADDED_STORAGE_SIZE,
                forall|y: int|
                    0 <= y < PADDED_STORAGE_SIZE ==> #[trigger] padded_storage@[y]@.len()
                        == PADDED_STORAGE_SIZE,
                forall|y: int, x2: int|
                    0 <= y < PADDED_STORAGE_SIZE && 0 <= x2 < PADDED_STORAGE_SIZE
                        ==> #[trigger] padded_storage@[y]@[x2] == (if x2 < x && y < n {
                        is_occupied(items, x2, y)
                    } else {
                        true
                    }),
            decreases n - x,
        {
            let mut y: usize = 0;
            while y < n
                invariant
                    n == dynamic_storage@.len(),
                    n == storage.number_of_columns,
                    storage.number_of_columns <= storage.number_of_rows,
                    storage.number_of_columns <= PADDED_STORAGE_SIZE,
                    forall|y2: int|
                        0 <= y2 < storage.number_of_columns ==> #[trigger] dynamic_storage@[y2]@.len()
                            == storage.number_of_rows,
                    forall|y2: int, x2: int|
                        0 <= y2 < storage.number_of_columns && 0 <= x2 < storage.number_of_rows
                            ==> #[trigger] dynamic_storage@[y2]@[x2] == is_occupied(items, x2, y2),
                    x < n,
                    y <= n,
                    padded_storage@.len() == PADDED_STORAGE_SIZE,
                    forall|y2: int|
                        0 <= y2 < PADDED_STORAGE_SIZE ==> #[trigger] padded_storage@[y2]@.len()
                            == PADDED_STORAGE_SIZE,
                    forall|y2: int, x2: int|
                        0 <= y2 < PADDED_STORAGE_SIZE && 0 <= x2 < PADDED_STORAGE_SIZE
                            ==> #[trigger] padded_storage@[y2]@[x2] == (if (x2 < x && y2 < n) || (x2
                            == x && y2 < y) {
                            is_occupied(items, x2, y2)
                        } else {
                            true
                        }),
                decreases n - y,
            {
                let cell = dynamic_storage[y][x];
                padded_storage[y][x] = cell;
                y = y + 1;
            }
            x = x + 1;
        }
        assert(grid_view(padded_storage@) =~= padded) by {
            assert forall|y: int| 0 <= y < PADDED_STORAGE_SIZE implies #[trigger] grid_view(
                padded_storage@,
            )[y] =~= padded[y] by {}
        }

        let mut row: u8 = 0;
        while row < storage.number_of_rows
            invariant
                grid_view(padded_storage@) == padded,
                padded == padded_grid(*storage, items),
                shape == *item_shape,
                shape == game_state.storable_components@[near_pickup@].shape,
                items == stored_items(*game_state, entity_names(in_storage_entities@)),
                storage.number_of_columns <= PADDED_STORAGE_SIZE,
                spot_search_safe(*storage, items, shape),
                row <= storage.number_of_rows,
                no_free_spot_before(*storage, items, shape, row as int, 0),
            decreases storage.number_of_rows - row,
        {
            let mut column: u8 = 0;
            while column < storage.number_of_columns
                invariant
                    grid_view(padded_storage@) == padded,
                    padded == padded_grid(*storage, items),
                    shape == *item_shape,
                    shape == game_state.storable_components@[near_pickup@].shape,
                    items == stored_items(*game_state, entity_names(in_storage_entities@)),
                    storage.number_of_columns <= PADDED_STORAGE_SIZE,
                    spot_search_safe(*storage, items, shape),
                    row < storage.number_of_rows,
                    column <= storage.number_of_columns,
                    no_free_spot_before(*storage, items, shape, row as int, column as int),
                decreases storage.number_of_columns - column,
            {
                assert(spot_check_safe(padded, row, column, shape));
                let fits = Self::check_empty_spot(padded_storage.as_slice(), row, column, item_shape);
                proof {
                    lemma_padded_fits(*storage, items, shape, row as int, column as int);
                }
                if fits {
                    return Some((column, row));
                }
                assert(no_free_spot_before(*storage, items, shape, row as int, column + 1)) by {
                    assert forall|r: int, c: int|
                        0 <= r < storage.number_of_rows && 0 <= c < storage.number_of_columns && (r
                            < row || (r == row && c < column + 1)) implies !#[trigger] spot_is_free(
                        *storage,
                        items,
                        shape,
                        r,
                        c,
                    ) by {
                        if r == row && c == column {
                        } else {
                            assert(no_free_spot_before(*storage, items, shape, row as int, column as int));
                        }
                    }
                }
                column = column + 1;
            }
            assert(no_free_spot_before(*storage, items, shape, row + 1, 0)) by {
                assert forall|r: int, c: int|
                    0 <= r < storage.number_of_rows && 0 <= c < storage.number_of_columns && (r < row
                        + 1 || (r == row + 1 && c < 0)) implies !#[trigger] spot_is_free(
                    *storage,
                    items,
                    shape,
                    r,
                    c,
                ) by {
                    assert(no_free_spot_before(*storage, items, shape, row as int, column as int));
                }
            }
            row = row + 1;
        }
        None
    }

    /// Whether `near_pickup` fits anywhere among the listed entities.
    pub fn has_space(
        game_state: &GameState,
        storage: &Storage,
        in_storage_entities: &Vec<&Entity>,
        near_pickup: &Entity,
    ) -> (space: bool)
        requires
            find_empty_spot_requires(*game_state, *storage, entity_names(in_storage_entities@), *near_pickup),
        ensures
            space == exists|r: int, c: int|
                0 <= r < storage.number_of_rows && 0 <= c < storage.number_of_columns
                    && #[trigger] spot_is_free(
                    *storage,
                    stored_items(*game_state, entity_names(in_storage_entities@)),
                    game_state.storable_components@[near_pickup@].shape,
                    r,
                    c,
                ),
    {
        let spot = Self::find_empty_spot(game_state, storage, in_storage_entities, near_pickup);
        proof {
            let items = stored_items(*game_state, entity_names(in_storage_entities@));
            let shape = game_state.storable_components@[near_pickup@].shape;
            if let Some((column, row)) = spot {
                assert(spot_is_free(*storage, items, shape, row as int, column as int));
            }
        }
        spot.is_some()
    }

    /// The occupancy grid of `storage`: `number_of_columns` lines of
    /// `number_of_rows` cells, indexed `[y][x]`, where a cell is true when one
    /// of the listed entities takes it.
    pub fn generate_dynamic_storage_space(
        game_state: &GameState,
        storage: &Storage,
        in_storage_entities: &Vec<&Entity>,
    ) -> (storage_spots: Vec<Vec<bool>>)
        requires
            game_state.wf(),
            items_in_grid(*game_state, *storage, entity_names(in_storage_entities@)),
        ensures
            storage_spots@.len() == storage.number_of_columns,
            forall|y: int|
                0 <= y < storage.number_of_columns ==> #[trigger] storage_spots@[y]@.len()
                    == storage.number_of_rows,
            forall|y: int, x: int|
                0 <= y < storage.number_of_columns && 0 <= x < storage.number_of_rows
                    ==> #[trigger] storage_spots@[y]@[x] == is_occupied(
                    stored_items(*game_state, entity_names(in_storage_entities@)),
                    x,
                    y,
                ),
    {
        let ghost items = stored_items(*game_state, entity_names(in_storage_entities@));
        let rows = storage.number_of_rows;
        let columns = storage.number_of_columns;
        let mut storage_spots: Vec<Vec<bool>> = Vec::new();
        let mut c: u8 = 0;
        while c < columns
            invariant
                c <= columns,
                storage_spots@.len() == c,
                forall|y: int| 0 <= y < c ==> #[trigger] storage_spots@[y]@.len() == rows,
                forall|y: int, x: int|
                    0 <= y < c && 0 <= x < rows ==> !#[trigger] storage_spots@[y]@[x],
            decreases columns - c,
        {
            let mut line: Vec<bool> = Vec::new();
            let mut r: u8 = 0;
            while r < rows
                invariant
                    r <= rows,
                    line@.len() == r,
                    forall|x: int| 0 <= x < r ==> !#[trigger] line@[x],
                decreases rows - r,
            {
                line.push(false);
                r = r + 1;
            }
            storage_spots.push(line);
            c = c + 1;
        }
        let mut k: usize = 0;
        while k < in_storage_entities.len()
            invariant
                game_state.wf(),
                items_in_grid(*game_state, *storage, entity_names(in_storage_entities@)),
                items == stored_items(*game_state, entity_names(in_storage_entities@)),
                rows == storage.number_of_rows,
                columns == storage.number_of_columns,
                k <= in_storage_entities@.len(),
                storage_spots@.len() == columns,
                forall|y: int| 0 <= y < columns ==> #[trigger] storage_spots@[y]@.len() == rows,
                forall|y: int, x: int|
                    0 <= y < columns && 0 <= x < rows ==> #[trigger] storage_spots@[y]@[x]
                        == is_occupied(items.take(k as int), x, y),
            decreases in_storage_entities@.len() - k,
        {
            let entity: &Entity = in_storage_entities[k];
            assert(entity_names(in_storage_entities@)[k as int] == *entity);
            let in_storage = game_state.in_storage_components.get(entity).unwrap();
            let storable = game_state.storable_components.get(entity).unwrap();
            let ghost item = items[k as int];
            assert(item == (*in_storage, storable.shape));
            assert(placement_in_grid(*storage, *in_storage, storable.shape));
            let end_x: u8 = in_storage.position_x + storable.shape.width;
            let mut x: u8 = in_storage.position_x;
            while x < end_x
                invariant
                    rows == storage.number_of_rows,
                    columns == storage.number_of_columns,
                    item == (*in_storage, storable.shape),
                    placement_in_grid(*storage, *in_storage, storable.shape),
                    end_x == in_storage.position_x + storable.shape.width,
                    in_storage.position_x <= x <= end_x,
                    storage_spots@.len() == columns,
                    forall|y: int| 0 <= y < columns ==> #[trigger] storage_spots@[y]@.len() == rows,
                    forall|y: int, x2: int|
                        0 <= y < columns && 0 <= x2 < rows ==> #[trigger] storage_spots@[y]@[x2]
                            == (is_occupied(items.take(k as int), x2, y) || (covers(
                            item.0,
                            item.1,
                            x2,
                            y,
                        ) && x2 < x)),
                decreases end_x - x,
            {
                let end_y: u8 = in_storage.position_y + storable.shape.height;
                let mut y: u8 = in_storage.position_y;
                while y < end_y
                    invariant
                        rows == storage.number_of_rows,
                        columns == storage.number_of_columns,
                        item == (*in_storage, storable.shape),
                        placement_in_grid(*storage, *in_storage, storable.shape),
                        end_x == in_storage.position_x + storable.shape.width,
                        end_y == in_storage.position_y + storable.shape.height,
                        in_storage.position_x <= x < end_x,
                        in_storage.position_y <= y <= end_y,
                        storage_spots@.len() == columns,
                        forall|y2: int|
                            0 <= y2 < columns ==> #[trigger] storage_spots@[y2]@.len() == rows,
                        forall|y2: int, x2: int|
                            0 <= y2 < columns && 0 <= x2 < rows ==> #[trigger] storage_spots@[y2]@[x2]
                                == (is_occupied(items.take(k as int), x2, y2) || (covers(
                                item.0,
                                item.1,
                                x2,
                                y2,
                            ) && (x2 < x || (x2 == x && y2 < y)))),
                    decreases end_y - y,
                {
                    storage_spots[y as usize][x as usize] = true;
                    y = y + 1;
                }
                x = x + 1;
            }
            assert forall|y: int, x2: int|
                0 <= y < columns && 0 <= x2 < rows implies #[trigger] storage_spots@[y]@[x2]
                == is_occupied(items.take(k + 1), x2, y) by {
                let before = items.take(k as int);
                let after = items.take(k + 1);
                if is_occupied(before, x2, y) {
                    let i = choose|i: int|
                        0 <= i < before.len() && #[trigger] covers(before[i].0, before[i].1, x2, y);
                    assert(after[i] == before[i]);
                }
                if covers(item.0, item.1, x2, y) {
                    assert(after[k as int] == item);
                }
                if is_occupied(after, x2, y) {
                    let i = choose|i: int|
                        0 <= i < after.len() && #[trigger] covers(after[i].0, after[i].1, x2, y);
                    if i < k {
                        assert(after[i] == before[i]);
                    } else {
                        assert(after[i] == item);
                    }
                }
            }
            k = k + 1;
        }
        assert(items.take(in_storage_entities@.len() as int) == items);
        storage_spots
    }

    /// Whether `shape`, with its top-left corner at cell (column, row), takes
    /// only cells of `padded_storage` that exist and are free (false).
    pub fn check_empty_spot(padded_storage: &[Vec<bool>], row: u8, column: u8, shape: &ItemShape) -> (fits: bool)
        requires
            spot_check_safe(grid_view(padded_storage@), row, column, *shape),
        ensures
            fits == spot_fits(grid_view(padded_storage@), row as int, column as int, *shape),
    {
        let ghost g = grid_view(padded_storage@);
        let end_x: u8 = column + shape.width;
        let mut x: u8 = column;
        while x < end_x
            invariant
                g == grid_view(padded_storage@),
                spot_check_safe(g, row, column, *shape),
                end_x == column + shape.width,
                column <= x <= end_x,
                forall|dx: int, dy: int|
                    0 <= dx < x - column && 0 <= dy < shape.height ==> !#[trigger] offset_blocked(
                        g,
                        row as int,
                        column as int,
                        dx,
                        dy,
                    ),
            decreases end_x - x,
        {
            let end_y: u8 = row + shape.height;
            let mut y: u8 = row;
            while y < end_y
                invariant
                    g == grid_view(padded_storage@),
                    spot_check_safe(g, row, column, *shape),
                    end_x == column + shape.width,
                    end_y == row + shape.height,
                    column <= x < end_x,
                    row <= y <= end_y,
                    forall|dx: int, dy: int|
                        0 <= dx < x - column && 0 <= dy < shape.height ==> !#[trigger] offset_blocked(
                            g,
                            row as int,
                            column as int,
                            dx,
                            dy,
                        ),
                    forall|dy: int|
                        0 <= dy < y - row ==> !#[trigger] offset_blocked(
                            g,
                            row as int,
                            column as int,
                            x - column,
                            dy,
                        ),
                decreases end_y - y,
            {
                let ghost dx = x - column;
                let ghost dy = y - row;
                assert(check_reaches(g, row as int, column as int, *shape, dx, dy)) by {
                    assert forall|dx2: int, dy2: int|
                        0 <= dx2 < shape.width && 0 <= dy2 < shape.height && checked_before(
                            dx2,
                            dy2,
                            dx,
                            dy,
                        ) implies !#[trigger] offset_blocked(
                        g,
                        row as int,
                        column as int,
                        dx2,
                        dy2,
                    ) by {
                        if dx2 < dx {
                        } else {
                            assert(dx2 == dx);
                        }
                    }
                }
                assert(offset_in_grid(g, row as int, column as int, dx, dy));
                assert(g[y as int] == padded_storage@[y as int]@);
                if padded_storage[y as usize][x as usize] {
                    assert(offset_blocked(g, row as int, column as int, dx, dy));
                    return false;
                }
                y = y + 1;
            }
            x = x + 1;
        }
        true
    }
}

} // verus!
