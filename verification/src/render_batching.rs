use vstd::prelude::*;

verus! {

/// `count` copies of `mesh_id`.
pub open spec fn repeated(mesh_id: Seq<char>, count: nat) -> Seq<Seq<char>> {
    Seq::new(count, |i: int| mesh_id)
}

/// The mesh names that a list of batches draws, batch after batch.
pub open spec fn batched_meshes(batches: Seq<(String, usize)>) -> Seq<Seq<char>>
    decreases batches.len(),
{
    if batches.len() == 0 {
        Seq::empty()
    } else {
        batched_meshes(batches.drop_last()) + repeated(batches.last().0@, batches.last().1 as nat)
    }
}

/// Batches of consecutive entities: each holds at least one entity, and
/// two neighbouring batches draw different meshes.
pub open spec fn runs_are_maximal(batches: Seq<(String, usize)>) -> bool {
    &&& forall|i: int| 0 <= i < batches.len() ==> #[trigger] batches[i].1 > 0
    &&& forall|i: int| 0 <= i < batches.len() - 1 ==> #[trigger] batches[i].0@ != batches[i + 1].0@
}

proof fn lemma_extend_last(batches: Seq<(String, usize)>, count: usize)
    requires
        batches.len() > 0,
        count == batches.last().1 + 1,
    ensures
        batched_meshes(batches.drop_last().push((batches.last().0, count))) == batched_meshes(
            batches,
        ).push(batches.last().0@),
{
    let extended = batches.drop_last().push((batches.last().0, count));
    assert(extended.drop_last() =~= batches.drop_last());
    assert(repeated(batches.last().0@, count as nat) =~= repeated(
        batches.last().0@,
        batches.last().1 as nat,
    ).push(batches.last().0@));
    assert(batched_meshes(extended) =~= batched_meshes(batches).push(batches.last().0@));
}

/// Groups the mesh names of the entities to draw, in their order, into
/// batches of consecutive entities with the same mesh: one (mesh, number
/// of entities) pair per run of equal names.
pub fn group_by_mesh(mesh_ids: &Vec<String>) -> (batches: Vec<(String, usize)>)
    ensures
        batched_meshes(batches@) == mesh_ids@.map_values(|m: String| m@),
        runs_are_maximal(batches@),
{
    let mut batches: Vec<(String, usize)> = Vec::new();
    let mut i: usize = 0;
    while i < mesh_ids.len()
        invariant
            i <= mesh_ids@.len(),
            batched_meshes(batches@) == mesh_ids@.take(i as int).map_values(|m: String| m@),
            runs_are_maximal(batches@),
            i > 0 ==> batches@.len() > 0 && batches@.last().0@ == mesh_ids@[i - 1]@,
            batches@.len() <= i,
            forall|j: int| 0 <= j < batches@.len() ==> #[trigger] batches@[j].1 <= i,
        decreases mesh_ids@.len() - i,
    {
        let mesh_id = &mesh_ids[i];
        let ghost before = batches@;
        assert(mesh_ids@.take(i + 1).map_values(|m: String| m@) =~= mesh_ids@.take(i as int).map_values(
            |m: String| m@,
        ).push(mesh_id@));
        let n = batches.len();
        if n > 0 && batches[n - 1].0 == *mesh_id {
            let count = batches[n - 1].1 + 1;
            let last_id = batches[n - 1].0.clone();
            batches.set(n - 1, (last_id, count));
            proof {
                lemma_extend_last(before, count);
                assert(batches@ =~= before.drop_last().push((before.last().0, count)));
            }
        } else {
            batches.push((mesh_id.clone(), 1));
            proof {
                assert(batches@.drop_last() =~= before);
                assert(repeated(mesh_id@, 1) =~= seq![mesh_id@]);
            }
        }
        i = i + 1;
    }
    assert(mesh_ids@.take(mesh_ids@.len() as int) =~= mesh_ids@);
    batches
}

} // verus!
