//! Which Bluetooth adapter serves which drum.
//!
//! Each drum gets an adapter of its own. Adapters that are free wait in a
//! stack; drums that are being served are remembered, so that finding them
//! again on the next poll does not start them twice.
use vstd::prelude::*;

verus! {

/// The free adapters, the top of the stack last, and the drums being served.
#[verifier::ext_equal]
pub struct PoolModel {
    pub free: Seq<Seq<char>>,
    pub active: Set<Seq<char>>,
}

/// What becomes of a drum that was found.
#[derive(Debug)]
pub enum Placement {
    /// It is being served already.
    AlreadyActive,
    /// There is no free adapter for it.
    NoAdapter,
    /// It is served by this adapter from now on.
    Assigned(String),
}

/// A placement, with the adapter's name as text.
pub enum PlacementModel {
    AlreadyActive,
    NoAdapter,
    Assigned(Seq<char>),
}

impl View for Placement {
    type V = PlacementModel;

    open spec fn view(&self) -> PlacementModel {
        match self {
            Placement::AlreadyActive => PlacementModel::AlreadyActive,
            Placement::NoAdapter => PlacementModel::NoAdapter,
            Placement::Assigned(name) => PlacementModel::Assigned(name@),
        }
    }
}

impl PoolModel {
    /// What becomes of the drum at `path`.
    pub open spec fn placement(self, path: Seq<char>) -> PlacementModel {
        if self.active.contains(path) {
            PlacementModel::AlreadyActive
        } else if self.free.len() == 0 {
            PlacementModel::NoAdapter
        } else {
            PlacementModel::Assigned(self.free.last())
        }
    }

    /// The pool once the drum at `path` has been looked at.
    pub open spec fn placed(self, path: Seq<char>) -> PoolModel {
        if self.placement(path) is Assigned {
            PoolModel { free: self.free.drop_last(), active: self.active.insert(path) }
        } else {
            self
        }
    }

    /// The pool once these drums have been looked at, one after the other.
    pub open spec fn polled(self, paths: Seq<Seq<char>>) -> PoolModel
        decreases paths.len(),
    {
        if paths.len() == 0 {
            self
        } else {
            self.polled(paths.drop_last()).placed(paths.last())
        }
    }

    /// What becomes of each of these drums.
    pub open spec fn placements(self, paths: Seq<Seq<char>>) -> Seq<PlacementModel>
        decreases paths.len(),
    {
        if paths.len() == 0 {
            Seq::empty()
        } else {
            self.placements(paths.drop_last()).push(
                self.polled(paths.drop_last()).placement(paths.last()),
            )
        }
    }

    /// The pool once a drum is done with its adapter.
    pub open spec fn released(self, adapter: Seq<char>, path: Seq<char>) -> PoolModel {
        PoolModel { free: self.free.push(adapter), active: self.active.remove(path) }
    }
}

/// The adapter pool.
pub struct AdapterPool {
    free: Vec<String>,
    active: Vec<String>,
}

impl View for AdapterPool {
    type V = PoolModel;

    closed spec fn view(&self) -> PoolModel {
        PoolModel { free: crate::text::texts(self.free@), active: crate::text::texts(self.active@).to_set() }
    }
}

impl AdapterPool {
    /// No drum is listed twice.
    pub closed spec fn wf(&self) -> bool {
        crate::text::texts(self.active@).no_duplicates()
    }

    /// A pool in which all adapters are free.
    pub fn new(adapters: Vec<String>) -> (pool: AdapterPool)
        ensures
            pool.wf(),
            pool@ == (PoolModel { free: crate::text::texts(adapters@), active: Set::empty() }),
    {
        let pool = AdapterPool { free: adapters, active: Vec::new() };
        assert(crate::text::texts(pool.active@) =~= Seq::empty());
        assert(pool@.active =~= Set::empty());
        pool
    }

    /// Where a drum stands in the list of those being served.
    fn index_of(&self, path: &String) -> (at: Option<usize>)
        ensures
            match at {
                Some(i) => i < self.active@.len() && self.active@[i as int]@ == path@,
                None => !self@.active.contains(path@),
            },
            at is Some ==> self@.active.contains(path@),
    {
        let mut i: usize = 0;
        while i < self.active.len()
            invariant
                i <= self.active@.len(),
                forall|j: int| 0 <= j < i ==> self.active@[j]@ != path@,
            decreases self.active@.len() - i,
        {
            if self.active[i] == *path {
                assert(crate::text::texts(self.active@)[i as int] == path@);
                return Some(i);
            }
            i = i + 1;
        }
        assert forall|j: int| 0 <= j < crate::text::texts(self.active@).len() implies crate::text::texts(self.active@)[j]
            != path@ by {
            assert(self.active@[j]@ != path@);
        }
        None
    }

    /// Looks at a drum that was found, and starts to serve it if it is new and
    /// an adapter is free.
    pub fn place(&mut self, path: &String) -> (placement: Placement)
        requires
            old(self).wf(),
        ensures
            final(self).wf(),
            placement@ == old(self)@.placement(path@),
            final(self)@ == old(self)@.placed(path@),
    {
        if self.index_of(path).is_some() {
            return Placement::AlreadyActive;
        }
        let ghost free = crate::text::texts(self.free@);
        let ghost active = crate::text::texts(self.active@);
        match self.free.pop() {
            None => Placement::NoAdapter,
            Some(name) => {
                assert(crate::text::texts(self.free@) =~= free.drop_last());
                self.active.push(path.clone());
                proof {
                    assert(crate::text::texts(self.active@) =~= active.push(path@));
                    assert(!active.contains(path@));
                    assert(active.push(path@).to_set() =~= active.to_set().insert(path@)) by {
                        assert forall|x: Seq<char>| active.push(path@).contains(x) == (active.contains(
                            x,
                        ) || x == path@) by {
                            if active.contains(x) {
                                let k = choose|k: int| 0 <= k < active.len() && active[k] == x;
                                assert(active.push(path@)[k] == x);
                            }
                            assert(active.push(path@)[active.len() as int] == path@);
                        }
                    }
                }
                Placement::Assigned(name)
            },
        }
    }

    /// Looks at all drums that a poll has found.
    pub fn poll(&mut self, drums: &Vec<String>) -> (placements: Vec<Placement>)
        requires
            old(self).wf(),
        ensures
            final(self).wf(),
            final(self)@ == old(self)@.polled(crate::text::texts(drums@)),
            placements@.map_values(|p: Placement| p@) == old(self)@.placements(crate::text::texts(drums@)),
    {
        let mut placements: Vec<Placement> = Vec::new();
        let ghost view = |p: Placement| p@;
        let ghost start = self@;
        let mut i: usize = 0;
        assert(placements@.map_values(view) =~= Seq::empty());
        while i < drums.len()
            invariant
                i <= drums@.len(),
                self.wf(),
                view == (|p: Placement| p@),
                self@ == start.polled(crate::text::texts(drums@).take(i as int)),
                placements@.map_values(view) == start.placements(crate::text::texts(drums@).take(i as int)),
            decreases drums@.len() - i,
        {
            let ghost before = placements@.map_values(view);
            let ghost head = crate::text::texts(drums@).take(i + 1);
            assert(head.drop_last() =~= crate::text::texts(drums@).take(i as int));
            assert(head.last() == drums@[i as int]@);
            let placement = self.place(&drums[i]);
            placements.push(placement);
            assert(placements@.map_values(view) =~= before.push(placement@));
            i = i + 1;
        }
        assert(crate::text::texts(drums@).take(i as int) =~= crate::text::texts(drums@));
        placements
    }

    /// Takes back the adapter of a drum that is done with it.
    pub fn release(&mut self, adapter: String, path: &String)
        requires
            old(self).wf(),
        ensures
            final(self).wf(),
            final(self)@ == old(self)@.released(adapter@, path@),
    {
        let ghost free = crate::text::texts(self.free@);
        let ghost active = crate::text::texts(self.active@);
        self.free.push(adapter);
        assert(crate::text::texts(self.free@) =~= free.push(adapter@));
        match self.index_of(path) {
            Some(i) => {
                self.active.remove(i);
                proof {
                    assert(crate::text::texts(self.active@) =~= active.remove(i as int));
                    lemma_remove_unique(active, i as int);
                }
            },
            None => {
                assert(active.to_set().remove(path@) =~= active.to_set());
            },
        }
    }
}

/// Taking an element out of a list without duplicates.
proof fn lemma_remove_unique(list: Seq<Seq<char>>, i: int)
    requires
        list.no_duplicates(),
        0 <= i < list.len(),
    ensures
        list.remove(i).no_duplicates(),
        list.remove(i).to_set() == list.to_set().remove(list[i]),
{
    let rest = list.remove(i);
    assert forall|x: Seq<char>| rest.contains(x) == (list.contains(x) && x != list[i]) by {
        if rest.contains(x) {
            let k = choose|k: int| 0 <= k < rest.len() && rest[k] == x;
            if k < i {
                assert(list[k] == x);
            } else {
                assert(list[k + 1] == x);
            }
        }
        if list.contains(x) && x != list[i] {
            let k = choose|k: int| 0 <= k < list.len() && list[k] == x;
            if k < i {
                assert(rest[k] == x);
            } else {
                assert(rest[k - 1] == x);
            }
        }
    }
    assert(rest.to_set() =~= list.to_set().remove(list[i]));
}

/// Releasing a drum right after it was placed brings the pool back to what it
/// was.
pub proof fn law_release_undoes_place(pool: PoolModel, path: Seq<char>)
    requires
        pool.placement(path) is Assigned,
    ensures
        pool.placed(path).released(pool.placement(path)->Assigned_0, path) == pool,
{
    assert(pool.placed(path).released(pool.placement(path)->Assigned_0, path) =~= pool);
}

/// After a release the adapter serves the next new drum, and the drum that was
/// released counts as new.
pub proof fn law_released_adapter_is_reused(
    pool: PoolModel,
    adapter: Seq<char>,
    path: Seq<char>,
    next: Seq<char>,
)
    requires
        next == path || !pool.active.contains(next),
    ensures
        pool.released(adapter, path).placement(next) == PlacementModel::Assigned(adapter),
{
}

/// The adapters that a poll has handed out, in order.
pub open spec fn handed_out(placements: Seq<PlacementModel>) -> Seq<Seq<char>>
    decreases placements.len(),
{
    if placements.len() == 0 {
        Seq::empty()
    } else {
        match placements.last() {
            PlacementModel::Assigned(name) => handed_out(placements.drop_last()).push(name),
            _ => handed_out(placements.drop_last()),
        }
    }
}

/// No adapter gets lost and none is made up: those that a poll hands out are
/// the ones that are then missing from the top of the stack.
pub proof fn law_adapters_conserved(pool: PoolModel, paths: Seq<Seq<char>>)
    ensures
        pool.free == pool.polled(paths).free + handed_out(pool.placements(paths)).reverse(),
    decreases paths.len(),
{
    if paths.len() == 0 {
        assert(pool.free =~= pool.free + Seq::<Seq<char>>::empty().reverse());
    } else {
        let init = paths.drop_last();
        law_adapters_conserved(pool, init);
        let mid = pool.polled(init);
        let before = handed_out(pool.placements(init));
        assert(pool.placements(paths).drop_last() =~= pool.placements(init));
        if mid.placement(paths.last()) is Assigned {
            let name = mid.free.last();
            assert(before.push(name).reverse() =~= seq![name] + before.reverse());
            assert(mid.free =~= mid.free.drop_last().push(name));
            assert(mid.free + before.reverse() =~= mid.free.drop_last() + before.push(
                name,
            ).reverse());
        }
    }
}

/// Each drum gets an adapter of its own: where the adapters have different
/// names, a poll hands none out twice, and none that is still free.
pub proof fn law_one_drum_per_adapter(pool: PoolModel, paths: Seq<Seq<char>>)
    requires
        pool.free.no_duplicates(),
    ensures
        handed_out(pool.placements(paths)).no_duplicates(),
        forall|name: Seq<char>|
            handed_out(pool.placements(paths)).contains(name) ==> !(#[trigger] pool.polled(
                paths,
            ).free.contains(name)),
        pool.polled(paths).free.no_duplicates(),
{
    law_adapters_conserved(pool, paths);
    let out = handed_out(pool.placements(paths));
    let left = pool.polled(paths).free;
    assert forall|i: int, j: int| 0 <= i < out.len() && 0 <= j < out.len() && i != j implies out[i]
        != out[j] by {
        assert(pool.free[left.len() + (out.len() - 1 - i)] == out[i]);
        assert(pool.free[left.len() + (out.len() - 1 - j)] == out[j]);
    }
    assert forall|name: Seq<char>| out.contains(name) implies !(#[trigger] left.contains(name)) by {
        let i = choose|i: int| 0 <= i < out.len() && out[i] == name;
        assert(pool.free[left.len() + (out.len() - 1 - i)] == name);
        if left.contains(name) {
            let k = choose|k: int| 0 <= k < left.len() && left[k] == name;
            assert(pool.free[k] == name);
        }
    }
    assert forall|i: int, j: int| 0 <= i < left.len() && 0 <= j < left.len() && i != j implies left[i]
        != left[j] by {
        assert(pool.free[i] == left[i]);
        assert(pool.free[j] == left[j]);
    }
}

/// Every drum being served ties up one adapter: a poll changes neither the
/// number of adapters nor the balance between the two.
pub proof fn law_one_adapter_per_drum(pool: PoolModel, paths: Seq<Seq<char>>)
    requires
        pool.active.finite(),
    ensures
        pool.polled(paths).active.finite(),
        pool.polled(paths).free.len() + pool.polled(paths).active.len() == pool.free.len()
            + pool.active.len(),
    decreases paths.len(),
{
    if paths.len() > 0 {
        law_one_adapter_per_drum(pool, paths.drop_last());
    }
}

/// After a poll each drum that it saw is active, unless the adapters ran out.
proof fn lemma_polled_settles(pool: PoolModel, paths: Seq<Seq<char>>, i: int)
    requires
        0 <= i < paths.len(),
    ensures
        pool.polled(paths).active.contains(paths[i]) || pool.polled(paths).free.len() == 0,
    decreases paths.len(),
{
    if i < paths.len() - 1 {
        lemma_polled_settles(pool, paths.drop_last(), i);
    }
}

/// A poll that finds the same drums again changes nothing: no drum is started
/// twice.
pub proof fn law_same_drums_nothing_new(pool: PoolModel, paths: Seq<Seq<char>>)
    ensures
        pool.polled(paths).polled(paths) == pool.polled(paths),
        handed_out(pool.polled(paths).placements(paths)) == Seq::<Seq<char>>::empty(),
{
    assert(paths =~= paths.take(paths.len() as int));
    lemma_nothing_new(pool.polled(paths), paths, pool, paths);
}

/// The same for the first few of the drums.
proof fn lemma_nothing_new(
    settled: PoolModel,
    part: Seq<Seq<char>>,
    pool: PoolModel,
    paths: Seq<Seq<char>>,
)
    requires
        settled == pool.polled(paths),
        part.len() <= paths.len(),
        part == paths.take(part.len() as int),
    ensures
        settled.polled(part) == settled,
        handed_out(settled.placements(part)) == Seq::<Seq<char>>::empty(),
    decreases part.len(),
{
    if part.len() > 0 {
        let init = part.drop_last();
        assert(init =~= paths.take(init.len() as int));
        lemma_nothing_new(settled, init, pool, paths);
        lemma_polled_settles(pool, paths, part.len() - 1);
        assert(part.last() == paths[part.len() - 1]);
        assert(settled.placements(part).drop_last() =~= settled.placements(init));
    }
}

/// Which adapter serves which drum agrees with the pool: exactly the active
/// drums are served, and no adapter is free twice, free while it serves, or
/// serving two drums.
pub open spec fn exclusive(pool: PoolModel, serving: Map<Seq<char>, Seq<char>>) -> bool {
    &&& serving.dom() == pool.active
    &&& pool.free.no_duplicates()
    &&& forall|path: Seq<char>|
        serving.contains_key(path) ==> !pool.free.contains(#[trigger] serving[path])
    &&& forall|p: Seq<char>, q: Seq<char>|
        serving.contains_key(p) && serving.contains_key(q) && p != q ==> #[trigger] serving[p]
            != #[trigger] serving[q]
}

/// Who serves whom once the drum at `path` has been looked at.
pub open spec fn serving_after(
    pool: PoolModel,
    serving: Map<Seq<char>, Seq<char>>,
    path: Seq<char>,
) -> Map<Seq<char>, Seq<char>> {
    match pool.placement(path) {
        PlacementModel::Assigned(name) => serving.insert(path, name),
        _ => serving,
    }
}

/// A new pool of differently named adapters serves nobody.
pub proof fn law_new_pool_exclusive(names: Seq<Seq<char>>)
    requires
        names.no_duplicates(),
    ensures
        exclusive(PoolModel { free: names, active: Set::empty() }, Map::empty()),
{
    assert(Map::<Seq<char>, Seq<char>>::empty().dom() =~= Set::empty());
}

/// Looking at a drum keeps adapters exclusive, whatever went before.
pub proof fn law_place_keeps_exclusive(
    pool: PoolModel,
    serving: Map<Seq<char>, Seq<char>>,
    path: Seq<char>,
)
    requires
        exclusive(pool, serving),
    ensures
        exclusive(pool.placed(path), serving_after(pool, serving, path)),
{
    if pool.placement(path) is Assigned {
        let name = pool.free.last();
        let rest = pool.free.drop_last();
        assert(pool.free[pool.free.len() - 1] == name);
        assert forall|x: Seq<char>| rest.contains(x) implies pool.free.contains(x) && x != name by {
            let k = choose|k: int| 0 <= k < rest.len() && rest[k] == x;
            assert(pool.free[k] == x);
        }
        assert(pool.free.contains(name));
        assert(serving.insert(path, name).dom() =~= pool.active.insert(path));
    }
}

/// Taking back the adapter of a drum keeps adapters exclusive, whatever went
/// before.
pub proof fn law_release_keeps_exclusive(
    pool: PoolModel,
    serving: Map<Seq<char>, Seq<char>>,
    path: Seq<char>,
)
    requires
        exclusive(pool, serving),
        serving.contains_key(path),
    ensures
        exclusive(pool.released(serving[path], path), serving.remove(path)),
{
    let name = serving[path];
    let free = pool.free.push(name);
    assert(!pool.free.contains(name));
    assert forall|x: Seq<char>| free.contains(x) implies pool.free.contains(x) || x == name by {
        let k = choose|k: int| 0 <= k < free.len() && free[k] == x;
        if k < pool.free.len() {
            assert(pool.free[k] == x);
        }
    }
    assert(serving.remove(path).dom() =~= pool.active.remove(path));
}

/// What becomes of any drum, and what that does to the pool: one that is being
/// served, or for which no adapter is left, changes nothing; any other gets the
/// adapter on top of the stack, which leaves the stack, and counts as served.
pub proof fn law_what_becomes_of_a_drum(pool: PoolModel, path: Seq<char>)
    ensures
        pool.placement(path) is AlreadyActive <==> pool.active.contains(path),
        pool.placement(path) is NoAdapter <==> !pool.active.contains(path) && pool.free.len() == 0,
        pool.placement(path) is Assigned <==> !pool.active.contains(path) && pool.free.len() > 0,
        pool.placement(path) is Assigned ==> pool.free == pool.placed(path).free.push(
            pool.placement(path)->Assigned_0,
        ),
        pool.placement(path) is Assigned ==> forall|other: Seq<char>|
            pool.placed(path).active.contains(other) <==> other == path || pool.active.contains(
                other,
            ),
        !(pool.placement(path) is Assigned) ==> pool.placed(path) == pool,
{
    if pool.placement(path) is Assigned {
        assert(pool.free =~= pool.free.drop_last().push(pool.free.last()));
    }
}

/// A poll looks at the drums one after the other: looking at two groups of drums
/// in one poll is the same as polling twice, and a poll of one drum is looking at
/// it. A poll that finds nothing changes nothing.
pub proof fn law_poll_one_after_the_other(
    pool: PoolModel,
    first: Seq<Seq<char>>,
    second: Seq<Seq<char>>,
    path: Seq<char>,
)
    ensures
        pool.polled(first + second) == pool.polled(first).polled(second),
        pool.placements(first + second) == pool.placements(first) + pool.polled(first).placements(
            second,
        ),
        pool.polled(seq![path]) == pool.placed(path),
        pool.placements(seq![path]) == seq![pool.placement(path)],
        pool.polled(Seq::empty()) == pool,
        pool.placements(Seq::empty()) == Seq::<PlacementModel>::empty(),
    decreases second.len(),
{
    if second.len() == 0 {
        assert(first + second =~= first);
        assert(pool.placements(first) + pool.polled(first).placements(second)
            =~= pool.placements(first));
    } else {
        let init = second.drop_last();
        law_poll_one_after_the_other(pool, first, init, path);
        assert((first + second).drop_last() =~= first + init);
        assert((first + second).last() == second.last());
        assert(pool.placements(first + second) =~= pool.placements(first) + pool.polled(
            first,
        ).placements(second));
    }
    assert(seq![path].drop_last() =~= Seq::<Seq<char>>::empty());
    assert(pool.polled(Seq::empty()) == pool);
    assert(pool.polled(seq![path]) == pool.placed(path));
    assert(pool.placements(seq![path].drop_last()) == Seq::<PlacementModel>::empty());
    assert(seq![path].last() == path);
    assert(pool.placements(seq![path]) =~= seq![pool.placement(path)]);
}

/// A release puts the adapter on top of the stack and takes the drum, and no
/// other, out of those being served.
pub proof fn law_what_a_release_does(
    pool: PoolModel,
    adapter: Seq<char>,
    path: Seq<char>,
    other: Seq<char>,
)
    ensures
        pool.released(adapter, path).free == pool.free.push(adapter),
        !pool.released(adapter, path).active.contains(path),
        other != path ==> (pool.released(adapter, path).active.contains(other)
            <==> pool.active.contains(other)),
{
}

/// A placement says what it says: its model is of the same kind, and names the
/// same adapter.
pub proof fn law_placement_says_what_it_says(placement: Placement)
    ensures
        placement is AlreadyActive <==> placement@ is AlreadyActive,
        placement is NoAdapter <==> placement@ is NoAdapter,
        placement matches Placement::Assigned(name) ==> placement@ == PlacementModel::Assigned(
            name@,
        ),
{
}

} // verus!
