//! The combat state: the mutable world one trial runs in.
//!
//! A state is only ever mutated through [`crate::transition::Transition`]
//! edits once simulation starts; the methods here construct the initial
//! state and answer read-only questions about it.

use vstd::prelude::*;

use crate::actor::{spec_is_alive, Actor, ActorId, ActorView};
use crate::items::{item_wf, Item, ItemId, ItemType, ItemView};

verus! {

/// The mathematical value of a [`State`].
pub ghost struct StateView {
    pub turn: u64,
    pub actors: Seq<ActorView>,
    pub next_actor_id: u32,
    pub items: Seq<ItemView>,
    pub next_item_id: u32,
    pub allied_groups: Seq<Seq<ActorId>>,
    pub initiative_order: Seq<ActorId>,
    pub current_turn_index: Option<usize>,
}

/// The index of the first actor with identifier `id`, if any.
pub open spec fn spec_find_actor(actors: Seq<ActorView>, id: ActorId) -> Option<int>
    decreases actors.len(),
{
    if actors.len() == 0 {
        None
    } else if actors.first().id == id {
        Some(0int)
    } else {
        match spec_find_actor(actors.drop_first(), id) {
            Some(i) => Some(i + 1),
            None => None,
        }
    }
}

/// The index of the first item with identifier `id`, if any.
pub open spec fn spec_find_item(items: Seq<ItemView>, id: ItemId) -> Option<int>
    decreases items.len(),
{
    if items.len() == 0 {
        None
    } else if items.first().id == id {
        Some(0int)
    } else {
        match spec_find_item(items.drop_first(), id) {
            Some(i) => Some(i + 1),
            None => None,
        }
    }
}

/// Whether the actor called `id` exists and is alive.
pub open spec fn spec_actor_alive(s: StateView, id: ActorId) -> bool {
    match spec_find_actor(s.actors, id) {
        Some(i) => spec_is_alive(s.actors[i]),
        None => false,
    }
}

/// Whether `group` names at least one living actor.
pub open spec fn spec_group_has_living(s: StateView, group: Seq<ActorId>) -> bool {
    exists|k: int| 0 <= k < group.len() && spec_actor_alive(s, #[trigger] group[k])
}

/// How many of `groups` still have a living member.
pub open spec fn spec_living_group_count(s: StateView, groups: Seq<Seq<ActorId>>) -> int
    decreases groups.len(),
{
    if groups.len() == 0 {
        0
    } else {
        spec_living_group_count(s, groups.drop_last()) + if spec_group_has_living(
            s,
            groups.last(),
        ) {
            1int
        } else {
            0int
        }
    }
}

/// Combat is over when at most one allied group still has a living
/// member.
pub open spec fn spec_is_combat_over(s: StateView) -> bool {
    spec_living_group_count(s, s.allied_groups) <= 1
}

/// The index of the first allied group containing `id`, if any.
pub open spec fn spec_find_group(groups: Seq<Seq<ActorId>>, id: ActorId) -> Option<int>
    decreases groups.len(),
{
    if groups.len() == 0 {
        None
    } else if groups.first().contains(id) {
        Some(0int)
    } else {
        match spec_find_group(groups.drop_first(), id) {
            Some(i) => Some(i + 1),
            None => None,
        }
    }
}

/// The allied group `id` belongs to, if any.
pub open spec fn spec_allies_of(s: StateView, id: ActorId) -> Option<Seq<ActorId>> {
    match spec_find_group(s.allied_groups, id) {
        Some(i) => Some(s.allied_groups[i]),
        None => None,
    }
}

/// Whether `a2` stands in `a1`'s allied group.
pub open spec fn spec_are_allies(s: StateView, a1: ActorId, a2: ActorId) -> bool {
    match spec_allies_of(s, a1) {
        Some(group) => group.contains(a2),
        None => false,
    }
}

/// Whether `other` is an enemy of `id`: neither `id` itself nor one of
/// its allies.
pub open spec fn spec_is_enemy(s: StateView, id: ActorId, other: ActorId) -> bool {
    other != id && !spec_are_allies(s, id, other)
}

/// The enemy identifiers among `actors`, in order.
pub open spec fn spec_enemies_from(s: StateView, actors: Seq<ActorView>, id: ActorId) -> Seq<
    ActorId,
>
    decreases actors.len(),
{
    if actors.len() == 0 {
        Seq::empty()
    } else {
        let rest = spec_enemies_from(s, actors.drop_last(), id);
        if spec_is_enemy(s, id, actors.last().id) {
            rest.push(actors.last().id)
        } else {
            rest
        }
    }
}

/// The identifiers of everyone who is neither `id` itself nor one of
/// its allies, in state order.
pub open spec fn spec_enemies_of(s: StateView, id: ActorId) -> Seq<ActorId> {
    spec_enemies_from(s, s.actors, id)
}

/// The bounds every state handed to the executor satisfies: all actors
/// and items stay within the ranges that keep 32-bit roll arithmetic
/// exact.
pub open spec fn state_wf(s: StateView) -> bool {
    &&& forall|i: int| 0 <= i < s.actors.len() ==> crate::actor::actor_wf(#[trigger] s.actors[i])
    &&& forall|i: int| 0 <= i < s.items.len() ==> item_wf(#[trigger] s.items[i])
    // identifiers are unique, so a lookup names one record
    &&& forall|i: int, j: int|
        0 <= i < j < s.actors.len() ==> (#[trigger] s.actors[i]).id != (#[trigger] s.actors[j]).id
    &&& forall|i: int, j: int|
        0 <= i < j < s.items.len() ==> (#[trigger] s.items[i]).id != (#[trigger] s.items[j]).id
}

/// The simulation's mutable world: the turn counter, the actors and
/// items by identifier, the allied groups, and the initiative
/// bookkeeping.
#[derive(PartialEq, Eq, Debug, Hash)]
pub struct State {
    pub turn: u64,
    pub actors: Vec<Actor>,
    pub next_actor_id: u32,
    pub items: Vec<Item>,
    pub next_item_id: u32,
    pub allied_groups: Vec<Vec<ActorId>>,
    pub initiative_order: Vec<ActorId>,
    pub current_turn_index: Option<usize>,
}

impl View for State {
    type V = StateView;

    open spec fn view(&self) -> StateView {
        StateView {
            turn: self.turn,
            actors: self.actors@.map_values(|a: Actor| a@),
            next_actor_id: self.next_actor_id,
            items: self.items@.map_values(|i: Item| i@),
            next_item_id: self.next_item_id,
            allied_groups: self.allied_groups@.map_values(|g: Vec<ActorId>| g@),
            initiative_order: self.initiative_order@,
            current_turn_index: self.current_turn_index,
        }
    }
}

impl Clone for State {
    fn clone(&self) -> (r: Self)
        ensures
            r@ == self@,
    {
        let mut actors: Vec<Actor> = Vec::new();
        let mut i: usize = 0;
        let n_actors: usize = self.actors.len();
        while i < n_actors
            invariant
                n_actors == self.actors.len(),
                i <= n_actors,
                actors@.map_values(|a: Actor| a@) =~= self.actors@.map_values(|a: Actor| a@).take(
                    i as int,
                ),
            decreases n_actors - i,
        {
            let ghost prev = actors@;
            actors.push(self.actors[i].clone());
            proof {
                assert(actors@.map_values(|a: Actor| a@) =~= prev.map_values(|a: Actor| a@).push(
                    actors@.last()@,
                ));
                assert(self.actors@.map_values(|a: Actor| a@).take(i + 1) =~= self.actors@.map_values(
                    |a: Actor| a@,
                ).take(i as int).push(self.actors@[i as int]@));
            }
            i = i + 1;
        }

        let mut items: Vec<Item> = Vec::new();
        let mut j: usize = 0;
        let n_items: usize = self.items.len();
        while j < n_items
            invariant
                n_items == self.items.len(),
                j <= n_items,
                items@.map_values(|it: Item| it@) =~= self.items@.map_values(|it: Item| it@).take(
                    j as int,
                ),
            decreases n_items - j,
        {
            let ghost prev = items@;
            items.push(self.items[j].clone());
            proof {
                assert(items@.map_values(|it: Item| it@) =~= prev.map_values(|it: Item| it@).push(
                    items@.last()@,
                ));
                assert(self.items@.map_values(|it: Item| it@).take(j + 1) =~= self.items@.map_values(
                    |it: Item| it@,
                ).take(j as int).push(self.items@[j as int]@));
            }
            j = j + 1;
        }

        let mut allied_groups: Vec<Vec<ActorId>> = Vec::new();
        let mut k: usize = 0;
        let n_groups: usize = self.allied_groups.len();
        while k < n_groups
            invariant
                n_groups == self.allied_groups.len(),
                k <= n_groups,
                allied_groups@.map_values(|g: Vec<ActorId>| g@) =~= self.allied_groups@.map_values(
                    |g: Vec<ActorId>| g@,
                ).take(k as int),
            decreases n_groups - k,
        {
            let ghost prev = allied_groups@;
            allied_groups.push(crate::utils::copy_vec(&self.allied_groups[k]));
            proof {
                assert(allied_groups@.map_values(|g: Vec<ActorId>| g@) =~= prev.map_values(
                    |g: Vec<ActorId>| g@,
                ).push(allied_groups@.last()@));
                assert(self.allied_groups@.map_values(|g: Vec<ActorId>| g@).take(k + 1)
                    =~= self.allied_groups@.map_values(|g: Vec<ActorId>| g@).take(k as int).push(
                    self.allied_groups@[k as int]@,
                ));
            }
            k = k + 1;
        }

        let r = State {
            turn: self.turn,
            actors,
            next_actor_id: self.next_actor_id,
            items,
            next_item_id: self.next_item_id,
            allied_groups,
            initiative_order: crate::utils::copy_vec(&self.initiative_order),
            current_turn_index: self.current_turn_index,
        };
        proof {
            assert(r@.actors =~= self@.actors);
            assert(r@.items =~= self@.items);
            assert(r@.allied_groups =~= self@.allied_groups);
        }
        r
    }
}

impl State {
    /// An empty world: no actors, no items, no groups, nothing rolled.
    pub fn new() -> (r: Self)
        ensures
            r@.turn == 0,
            r@.actors.len() == 0,
            r@.next_actor_id == 1,
            r@.items.len() == 0,
            r@.next_item_id == 1,
            r@.allied_groups.len() == 0,
            r@.initiative_order.len() == 0,
            r@.current_turn_index is None,
    {
        State {
            turn: 0,
            actors: Vec::new(),
            next_actor_id: 1,
            items: Vec::new(),
            next_item_id: 1,
            allied_groups: Vec::new(),
            initiative_order: Vec::new(),
            current_turn_index: None,
        }
    }

    /// Register `actor` under the next free identifier and return it.
    pub fn add_actor(&mut self, actor: Actor) -> (r: ActorId)
        requires
            old(self)@.next_actor_id < u32::MAX,
        ensures
            r == ActorId(old(self)@.next_actor_id),
            final(self)@ == (StateView {
                actors: old(self)@.actors.push(ActorView { id: r, ..actor@ }),
                next_actor_id: (old(self)@.next_actor_id + 1) as u32,
                ..old(self)@
            }),
    {
        let actor_id = ActorId(self.next_actor_id);
        self.next_actor_id = self.next_actor_id + 1;
        let mut actor = actor;
        actor.id = actor_id;
        let ghost prev = self.actors@;
        self.actors.push(actor);
        proof {
            assert(self@.actors =~= prev.map_values(|a: Actor| a@).push(self.actors@.last()@));
        }
        actor_id
    }

    /// Register an item of kind `item` called `name` under the next free
    /// identifier and return it.
    pub fn add_item(&mut self, name: &str, item: ItemType) -> (r: Item)
        requires
            old(self)@.next_item_id < u32::MAX,
        ensures
            r@ == (ItemView { id: ItemId(old(self)@.next_item_id), name: name@, item_type: item }),
            final(self)@ == (StateView {
                items: old(self)@.items.push(r@),
                next_item_id: (old(self)@.next_item_id + 1) as u32,
                ..old(self)@
            }),
    {
        let item_id = ItemId(self.next_item_id);
        self.next_item_id = self.next_item_id + 1;
        let new_item = Item { id: item_id, name: name.to_owned(), item_type: item };
        let copy = new_item.clone();
        let ghost prev = self.items@;
        self.items.push(new_item);
        proof {
            assert(self@.items =~= prev.map_values(|i: Item| i@).push(self.items@.last()@));
        }
        copy
    }

    /// The position of the actor called `id` in the actor list, if any.
    pub(crate) fn find_actor_index(&self, id: ActorId) -> (r: Option<usize>)
        ensures
            match r {
                Some(i) => spec_find_actor(self@.actors, id) == Some(i as int) && i
                    < self@.actors.len() && self@.actors[i as int].id == id,
                None => spec_find_actor(self@.actors, id) is None,
            },
    {
        let n: usize = self.actors.len();
        let mut i: usize = 0;
        while i < n
            invariant
                n == self.actors.len(),
                i <= n,
                forall|j: int| 0 <= j < i ==> (#[trigger] self@.actors[j]).id != id,
            decreases n - i,
        {
            proof {
                assert(self@.actors[i as int] == self.actors@[i as int]@);
            }
            if self.actors[i].id == id {
                proof {
                    lemma_find_actor_at(self@.actors, id, i as int);
                }
                return Some(i);
            }
            i = i + 1;
        }
        proof {
            lemma_find_actor_absent(self@.actors, id);
        }
        None
    }

    /// The actor called `id`, if any.
    pub fn get_actor(&self, id: ActorId) -> (r: Option<&Actor>)
        ensures
            match r {
                Some(actor) => {
                    &&& spec_find_actor(self@.actors, id) is Some
                    &&& actor@ == self@.actors[spec_find_actor(self@.actors, id).unwrap()]
                    &&& actor@.id == id
                },
                None => spec_find_actor(self@.actors, id) is None,
            },
    {
        match self.find_actor_index(id) {
            Some(i) => Some(&self.actors[i]),
            None => None,
        }
    }

    /// The position of the item called `id` in the item list, if any.
    pub(crate) fn find_item_index(&self, id: ItemId) -> (r: Option<usize>)
        ensures
            match r {
                Some(i) => spec_find_item(self@.items, id) == Some(i as int) && i
                    < self@.items.len() && self@.items[i as int].id == id,
                None => spec_find_item(self@.items, id) is None,
            },
    {
        let n: usize = self.items.len();
        let mut i: usize = 0;
        while i < n
            invariant
                n == self.items.len(),
                i <= n,
                forall|j: int| 0 <= j < i ==> (#[trigger] self@.items[j]).id != id,
            decreases n - i,
        {
            proof {
                assert(self@.items[i as int] == self.items@[i as int]@);
            }
            if self.items[i].id == id {
                proof {
                    lemma_find_item_at(self@.items, id, i as int);
                }
                return Some(i);
            }
            i = i + 1;
        }
        proof {
            lemma_find_item_absent(self@.items, id);
        }
        None
    }

    /// The item called `id`, if any.
    pub fn get_item(&self, id: ItemId) -> (r: Option<&Item>)
        ensures
            match r {
                Some(item) => {
                    &&& spec_find_item(self@.items, id) is Some
                    &&& item@ == self@.items[spec_find_item(self@.items, id).unwrap()]
                    &&& item@.id == id
                },
                None => spec_find_item(self@.items, id) is None,
            },
    {
        match self.find_item_index(id) {
            Some(i) => Some(&self.items[i]),
            None => None,
        }
    }

    /// Record a new allied group; a group already present is not
    /// recorded twice.
    pub fn add_ally_group(&mut self, group: Vec<ActorId>)
        ensures
            final(self)@ == (StateView {
                allied_groups: if old(self)@.allied_groups.contains(group@) {
                    old(self)@.allied_groups
                } else {
                    old(self)@.allied_groups.push(group@)
                },
                ..old(self)@
            }),
    {
        let n: usize = self.allied_groups.len();
        let mut i: usize = 0;
        while i < n
            invariant
                n == self.allied_groups.len(),
                i <= n,
                forall|j: int| 0 <= j < i ==> (#[trigger] self@.allied_groups[j]) != group@,
            decreases n - i,
        {
            proof {
                assert(self@.allied_groups[i as int] == self.allied_groups@[i as int]@);
            }
            if vec_ids_equal(&self.allied_groups[i], &group) {
                proof {
                    assert(self@.allied_groups.contains(group@));
                }
                return ;
            }
            i = i + 1;
        }
        let ghost prev = self.allied_groups@;
        proof {
            assert(!self@.allied_groups.contains(group@));
        }
        self.allied_groups.push(group);
        proof {
            assert(self@.allied_groups =~= prev.map_values(|g: Vec<ActorId>| g@).push(
                self.allied_groups@.last()@,
            ));
        }
    }

    /// The allied group `id` belongs to, if any, as a fresh vector.
    pub fn allies_of(&self, id: ActorId) -> (r: Option<Vec<ActorId>>)
        ensures
            match r {
                Some(group) => spec_allies_of(self@, id) == Some(group@),
                None => spec_allies_of(self@, id) is None,
            },
    {
        let n: usize = self.allied_groups.len();
        let mut i: usize = 0;
        proof {
            assert(self@.allied_groups.skip(0) =~= self@.allied_groups);
        }
        while i < n
            invariant
                n == self.allied_groups.len(),
                i <= n,
                spec_find_group(self@.allied_groups, id) == match spec_find_group(
                    self@.allied_groups.skip(i as int),
                    id,
                ) {
                    Some(x) => Some(x + i),
                    None => None,
                },
            decreases n - i,
        {
            proof {
                assert(self@.allied_groups.skip(i as int).first() == self@.allied_groups[i as int]);
                assert(self@.allied_groups.skip(i as int).drop_first() =~= self@.allied_groups.skip(
                    i + 1,
                ));
                assert(self@.allied_groups[i as int] == self.allied_groups@[i as int]@);
            }
            if vec_contains_id(&self.allied_groups[i], id) {
                return Some(crate::utils::copy_vec(&self.allied_groups[i]));
            }
            i = i + 1;
        }
        proof {
            assert(self@.allied_groups.skip(n as int).len() == 0);
        }
        None
    }

    /// Whether `a2` stands in `a1`'s allied group.
    pub fn are_allies(&self, a1: ActorId, a2: ActorId) -> (r: bool)
        ensures
            r == spec_are_allies(self@, a1, a2),
    {
        match self.allies_of(a1) {
            Some(group) => vec_contains_id(&group, a2),
            None => false,
        }
    }

    /// Whether `a2` stands outside `a1`'s allied group.
    pub fn are_enemies(&self, a1: ActorId, a2: ActorId) -> (r: bool)
        ensures
            r == !spec_are_allies(self@, a1, a2),
    {
        !self.are_allies(a1, a2)
    }

    /// Everyone who is neither `id` itself nor one of its allies, in
    /// state order.
    pub fn enemies_of(&self, id: ActorId) -> (r: Vec<ActorId>)
        ensures
            r@ == spec_enemies_of(self@, id),
    {
        let mut out: Vec<ActorId> = Vec::new();
        let n: usize = self.actors.len();
        let mut i: usize = 0;
        while i < n
            invariant
                n == self.actors.len(),
                i <= n,
                out@ =~= spec_enemies_from(self@, self@.actors.take(i as int), id),
            decreases n - i,
        {
            let candidate: ActorId = self.actors[i].id;
            proof {
                assert(self@.actors[i as int] == self.actors@[i as int]@);
                assert(self@.actors.take(i + 1).drop_last() =~= self@.actors.take(i as int));
                assert(self@.actors.take(i + 1).last() == self@.actors[i as int]);
            }
            if candidate.0 != id.0 && !self.are_allies(id, candidate) {
                out.push(candidate);
                proof {
                    assert(spec_is_enemy(self@, id, candidate));
                }
            } else {
                proof {
                    assert(!spec_is_enemy(self@, id, candidate));
                }
            }
            i = i + 1;
        }
        proof {
            assert(self@.actors.take(n as int) =~= self@.actors);
        }
        out
    }

    /// Whether at most one allied group still has a living member.
    pub fn is_combat_over(&self) -> (r: bool)
        ensures
            r == spec_is_combat_over(self@),
    {
        let n: usize = self.allied_groups.len();
        let mut remaining: usize = 0;
        let mut i: usize = 0;
        while i < n
            invariant
                n == self.allied_groups.len(),
                i <= n,
                remaining == spec_living_group_count(self@, self@.allied_groups.take(i as int)),
                0 <= remaining <= i,
            decreases n - i,
        {
            proof {
                assert(self@.allied_groups.take(i + 1).drop_last() =~= self@.allied_groups.take(
                    i as int,
                ));
                assert(self@.allied_groups.take(i + 1).last() == self@.allied_groups[i as int]);
                assert(self@.allied_groups[i as int] == self.allied_groups@[i as int]@);
            }
            if self.group_has_living(&self.allied_groups[i]) {
                remaining = remaining + 1;
            }
            i = i + 1;
        }
        proof {
            assert(self@.allied_groups.take(n as int) =~= self@.allied_groups);
        }
        remaining <= 1
    }

    /// Whether `group` names at least one living actor.
    fn group_has_living(&self, group: &Vec<ActorId>) -> (r: bool)
        ensures
            r == spec_group_has_living(self@, group@),
    {
        let n: usize = group.len();
        let mut i: usize = 0;
        while i < n
            invariant
                n == group.len(),
                i <= n,
                forall|j: int| 0 <= j < i ==> !spec_actor_alive(self@, #[trigger] group@[j]),
            decreases n - i,
        {
            match self.get_actor(group[i]) {
                Some(actor) => {
                    if actor.is_alive() {
                        proof {
                            assert(spec_actor_alive(self@, group@[i as int]));
                        }
                        return true;
                    }
                },
                None => {},
            }
            i = i + 1;
        }
        false
    }
}

/// Whether two identifier vectors hold the same identifiers in the same
/// order.
fn vec_ids_equal(a: &Vec<ActorId>, b: &Vec<ActorId>) -> (r: bool)
    ensures
        r == (a@ == b@),
{
    if a.len() != b.len() {
        proof {
            assert(a@.len() != b@.len());
        }
        return false;
    }
    let n: usize = a.len();
    let mut i: usize = 0;
    while i < n
        invariant
            n == a.len() == b.len(),
            i <= n,
            forall|j: int| 0 <= j < i ==> a@[j] == b@[j],
        decreases n - i,
    {
        if a[i].0 != b[i].0 {
            return false;
        }
        i = i + 1;
    }
    proof {
        assert(a@ =~= b@);
    }
    true
}

/// Whether `v` holds `id`.
fn vec_contains_id(v: &Vec<ActorId>, id: ActorId) -> (r: bool)
    ensures
        r == v@.contains(id),
{
    let n: usize = v.len();
    let mut i: usize = 0;
    while i < n
        invariant
            n == v.len(),
            i <= n,
            forall|j: int| 0 <= j < i ==> v@[j] != id,
        decreases n - i,
    {
        if v[i].0 == id.0 {
            proof {
                assert(v@.contains(id));
            }
            return true;
        }
        i = i + 1;
    }
    false
}

/// If positions before `i` miss `id` and position `i` holds it, the
/// find lands on `i`.
proof fn lemma_find_actor_at(actors: Seq<ActorView>, id: ActorId, i: int)
    requires
        0 <= i < actors.len(),
        actors[i].id == id,
        forall|j: int| 0 <= j < i ==> (#[trigger] actors[j]).id != id,
    ensures
        spec_find_actor(actors, id) == Some(i),
    decreases actors.len(),
{
    if i > 0 {
        assert(actors.drop_first()[i - 1] == actors[i]);
        assert(forall|j: int| 0 <= j < i - 1 ==> (#[trigger] actors.drop_first()[j]) == actors[j + 1]);
        lemma_find_actor_at(actors.drop_first(), id, i - 1);
    }
}

/// If no position holds `id`, the find comes back empty.
proof fn lemma_find_actor_absent(actors: Seq<ActorView>, id: ActorId)
    requires
        forall|j: int| 0 <= j < actors.len() ==> (#[trigger] actors[j]).id != id,
    ensures
        spec_find_actor(actors, id) is None,
    decreases actors.len(),
{
    if actors.len() > 0 {
        assert(forall|j: int|
            0 <= j < actors.len() - 1 ==> (#[trigger] actors.drop_first()[j]) == actors[j + 1]);
        lemma_find_actor_absent(actors.drop_first(), id);
    }
}

/// If positions before `i` miss `id` and position `i` holds it, the
/// find lands on `i`.
proof fn lemma_find_item_at(items: Seq<ItemView>, id: ItemId, i: int)
    requires
        0 <= i < items.len(),
        items[i].id == id,
        forall|j: int| 0 <= j < i ==> (#[trigger] items[j]).id != id,
    ensures
        spec_find_item(items, id) == Some(i),
    decreases items.len(),
{
    if i > 0 {
        assert(items.drop_first()[i - 1] == items[i]);
        assert(forall|j: int| 0 <= j < i - 1 ==> (#[trigger] items.drop_first()[j]) == items[j + 1]);
        lemma_find_item_at(items.drop_first(), id, i - 1);
    }
}

/// If no position holds `id`, the find comes back empty.
proof fn lemma_find_item_absent(items: Seq<ItemView>, id: ItemId)
    requires
        forall|j: int| 0 <= j < items.len() ==> (#[trigger] items[j]).id != id,
    ensures
        spec_find_item(items, id) is None,
    decreases items.len(),
{
    if items.len() > 0 {
        assert(forall|j: int|
            0 <= j < items.len() - 1 ==> (#[trigger] items.drop_first()[j]) == items[j + 1]);
        lemma_find_item_absent(items.drop_first(), id);
    }
}

} // verus!
