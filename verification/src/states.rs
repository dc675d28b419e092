//! The first turn system: playing entities take their turns in order of
//! speed, fastest first.

use vstd::prelude::*;

use crate::Entity;

verus! {

/// A request to start a combat.
#[derive(Debug, Clone, Copy, PartialEq, Eq, Structural)]
pub struct StartCombat;

/// The turn of an entity starts.
#[derive(Debug, Clone, Copy, PartialEq, Eq, Structural)]
pub struct StartTurn {
    pub entity: Entity,
}

/// The turn of an entity ends.
#[derive(Debug, Clone, Copy, PartialEq, Eq, Structural)]
pub struct EndTurn {
    pub entity: Entity,
}

/// An entity draws a card.
#[derive(Debug, Clone, Copy, PartialEq, Eq, Structural)]
pub struct DrawCard {
    pub entity: Entity,
}

/// Whose turn it is in a combat.
#[derive(Debug, Clone, Copy, PartialEq, Eq, Hash, Structural)]
pub enum CombatState {
    DeterminePlayOrder,
    PlayerTurn(i32),
    EnemyTurn(i32),
    EnvironmentTurn(i32),
}

/// Membership of a playing entity in the team numbered `ID`.
pub struct MemberOf<const ID: u32>;

/// Marks an entity that takes part in combat.
#[derive(Debug, Clone, Copy, PartialEq, Eq, Default, Structural)]
pub struct PlayingEntity;

/// How fast an entity acts.
#[derive(Debug, Clone, Copy, PartialEq, Eq, Default, Structural)]
pub struct Speed(pub i32);

/// How hard an entity hits.
#[derive(Debug, Clone, Copy, PartialEq, Eq, Default, Structural)]
pub struct Strength(pub i32);

/// How far an entity reaches in melee.
#[derive(Debug, Clone, Copy, PartialEq, Eq, Default, Structural)]
pub struct MeleeRange(pub i32);

/// The place of an entity in the turn order, 0 playing first.
#[derive(Debug, Clone, Copy, PartialEq, Eq, Default, Structural)]
pub struct TurnOrder(pub i32);

/// Marks a creature.
#[derive(Debug, Clone, Copy, PartialEq, Eq, Structural)]
pub struct Creature;

/// The entity whose turn it is.
#[derive(Debug, Clone, Copy, PartialEq, Eq, Structural)]
pub struct CurrentPlayingEntity(pub Entity);

/// `t` with `x` inserted after every entity at least as fast as `x`.
pub open spec fn insert_by_speed(t: Seq<(Entity, Speed)>, x: (Entity, Speed)) -> Seq<(Entity, Speed)>
    decreases t.len(),
{
    if t.len() == 0 || t.last().1.0 >= x.1.0 {
        t.push(x)
    } else {
        insert_by_speed(t.drop_last(), x).push(t.last())
    }
}

/// The entities sorted by speed, fastest first, entities of equal speed
/// keeping their order.
pub open spec fn sort_by_speed(s: Seq<(Entity, Speed)>) -> Seq<(Entity, Speed)>
    decreases s.len(),
{
    if s.len() == 0 {
        s
    } else {
        insert_by_speed(sort_by_speed(s.drop_last()), s.last())
    }
}

/// Whether the entities are in non-increasing order of speed.
pub open spec fn fastest_first(s: Seq<(Entity, Speed)>) -> bool {
    forall|i: int, j: int| 0 <= i < j < s.len() ==> s[i].1.0 >= s[j].1.0
}

/// Sorts the entities by speed, fastest first; entities of equal speed keep
/// their order.
pub fn sort_by_speed_desc(v: &mut Vec<(Entity, Speed)>)
    ensures
        final(v)@ == sort_by_speed(old(v)@),
{
    let ghost orig = v@;
    let n = v.len();
    let mut i: usize = 0;
    while i < n
        invariant
            n == v@.len(),
            n == orig.len(),
            0 <= i <= n,
            v@.subrange(0, i as int) == sort_by_speed(orig.subrange(0, i as int)),
            v@.subrange(i as int, n as int) == orig.subrange(i as int, n as int),
        decreases n - i,
    {
        let ghost t = v@.subrange(0, i as int);
        let ghost x = orig[i as int];
        assert(v@[i as int] == x) by {
            assert(v@.subrange(i as int, n as int)[0] == orig.subrange(i as int, n as int)[0]);
        }
        proof {
            assert(v@.subrange(i + 1, n as int) =~= v@.subrange(i as int, n as int).subrange(1, n - i));
            assert(orig.subrange(i + 1, n as int) =~= orig.subrange(i as int, n as int).subrange(1, n - i));
            assert(t.subrange(0, i as int) =~= t);
            assert(insert_by_speed(t, x) + t.subrange(i as int, i as int) =~= insert_by_speed(t, x));
            assert(v@.subrange(i + 1, i + 1) =~= t.subrange(i as int, i as int));
        }
        let mut j: usize = i;
        while j > 0 && v[j - 1].1.0 < v[j].1.0
            invariant
                n == v@.len(),
                0 <= j <= i < n,
                v@[j as int] == x,
                t.len() == i,
                v@.subrange(0, j as int) == t.subrange(0, j as int),
                v@.subrange(j + 1, i + 1) == t.subrange(j as int, i as int),
                v@.subrange(i + 1, n as int) == orig.subrange(i + 1, n as int),
                insert_by_speed(t, x) == insert_by_speed(t.subrange(0, j as int), x) + t.subrange(j as int, i as int),
            decreases j,
        {
            let a = v[j - 1];
            let b = v[j];
            let ghost before = v@;
            proof {
                assert(a == t[j - 1]) by {
                    assert(v@.subrange(0, j as int)[j - 1] == t.subrange(0, j as int)[j - 1]);
                }
                let tj = t.subrange(0, j as int);
                assert(tj.drop_last() =~= t.subrange(0, j - 1));
                assert(insert_by_speed(tj, x) == insert_by_speed(t.subrange(0, j - 1), x).push(a));
                assert(insert_by_speed(t.subrange(0, j - 1), x).push(a) + t.subrange(j as int, i as int)
                    =~= insert_by_speed(t.subrange(0, j - 1), x) + t.subrange(j - 1, i as int));
            }
            v.set(j - 1, b);
            v.set(j, a);
            proof {
                assert(v@.subrange(0, j - 1) =~= t.subrange(0, j - 1)) by {
                    assert(v@.subrange(0, j - 1) =~= before.subrange(0, j as int).subrange(0, j - 1));
                }
                assert(v@.subrange(i + 1, n as int) =~= before.subrange(i + 1, n as int));
                assert(v@.subrange(j as int, i + 1) =~= t.subrange(j - 1, i as int)) by {
                    assert(before.subrange(j + 1, i + 1) == t.subrange(j as int, i as int));
                    assert(v@.subrange(j as int, i + 1) =~= seq![a] + before.subrange(j + 1, i + 1));
                    assert(t.subrange(j - 1, i as int) =~= seq![t[j - 1]] + t.subrange(j as int, i as int));
                }
            }
            j = j - 1;
        }
        proof {
            let tj = t.subrange(0, j as int);
            if j > 0 {
                assert(v@[j - 1] == t[j - 1]) by {
                    assert(v@.subrange(0, j as int)[j - 1] == t.subrange(0, j as int)[j - 1]);
                }
                assert(tj.last() == t[j - 1]);
            }
            assert(insert_by_speed(tj, x) == tj.push(x));
            assert(v@.subrange(0, i + 1) =~= tj.push(x) + t.subrange(j as int, i as int)) by {
                assert(v@.subrange(0, i + 1) =~= v@.subrange(0, j as int) + seq![x] + v@.subrange(j + 1, i + 1));
            }
            assert(orig.subrange(0, i + 1).drop_last() =~= orig.subrange(0, i as int));
            assert(orig.subrange(0, i + 1).last() == x);
        }
        i = i + 1;
    }
    assert(v@ =~= v@.subrange(0, n as int));
    assert(orig =~= orig.subrange(0, n as int));
}

/// The turn order of a combat: the entities sorted fastest first, each with
/// its place in the order. The entity at place 0 starts its turn.
pub fn turn_order(entities: &Vec<(Entity, Speed)>) -> (order: Vec<(Entity, TurnOrder)>)
    requires
        entities@.len() <= i32::MAX,
    ensures
        order@.len() == entities@.len(),
        forall|k: int| 0 <= k < order@.len() ==> #[trigger] order@[k] == (sort_by_speed(entities@)[k].0, TurnOrder(k as i32)),
{
    let mut sorted: Vec<(Entity, Speed)> = Vec::new();
    let mut c: usize = 0;
    while c < entities.len()
        invariant
            0 <= c <= entities@.len(),
            sorted@ == entities@.subrange(0, c as int),
        decreases entities@.len() - c,
    {
        sorted.push(entities[c]);
        c = c + 1;
        assert(sorted@ =~= entities@.subrange(0, c as int));
    }
    assert(sorted@ =~= entities@);
    sort_by_speed_desc(&mut sorted);
    proof {
        lemma_sort_by_speed(entities@);
    }
    let mut order: Vec<(Entity, TurnOrder)> = Vec::new();
    let mut k: usize = 0;
    while k < sorted.len()
        invariant
            sorted@ == sort_by_speed(entities@),
            sorted@.len() == entities@.len(),
            entities@.len() <= i32::MAX,
            0 <= k <= sorted@.len(),
            order@.len() == k,
            forall|q: int| 0 <= q < k ==> #[trigger] order@[q] == (sorted@[q].0, TurnOrder(q as i32)),
        decreases sorted@.len() - k,
    {
        order.push((sorted[k].0, TurnOrder(k as i32)));
        k = k + 1;
    }
    order
}

/// Inserting keeps the number of entities.
pub proof fn lemma_insert_by_speed_len(t: Seq<(Entity, Speed)>, x: (Entity, Speed))
    ensures
        insert_by_speed(t, x).len() == t.len() + 1,
    decreases t.len(),
{
    if !(t.len() == 0 || t.last().1.0 >= x.1.0) {
        lemma_insert_by_speed_len(t.drop_last(), x);
    }
}

/// Inserting into a fastest-first order keeps it fastest first, under any
/// lower bound on speed that holds of all entities.
pub proof fn lemma_insert_by_speed_sorted(t: Seq<(Entity, Speed)>, x: (Entity, Speed), bound: i32)
    requires
        fastest_first(t),
        forall|i: int| 0 <= i < t.len() ==> t[i].1.0 >= bound,
        x.1.0 >= bound,
    ensures
        fastest_first(insert_by_speed(t, x)),
        forall|i: int| 0 <= i < insert_by_speed(t, x).len() ==> insert_by_speed(t, x)[i].1.0 >= bound,
    decreases t.len(),
{
    lemma_insert_by_speed_len(t, x);
    if t.len() == 0 || t.last().1.0 >= x.1.0 {
        assert forall|i: int| 0 <= i < t.len() implies t[i].1.0 >= x.1.0 by {
            if i < t.len() - 1 {
                assert(t[i].1.0 >= t[t.len() - 1].1.0);
            }
        }
    } else {
        let t2 = t.drop_last();
        lemma_insert_by_speed_sorted(t2, x, t.last().1.0);
        lemma_insert_by_speed_len(t2, x);
    }
}

/// Inserting adds exactly the inserted entity.
pub proof fn lemma_insert_by_speed_multiset(t: Seq<(Entity, Speed)>, x: (Entity, Speed))
    ensures
        insert_by_speed(t, x).to_multiset() == t.to_multiset().insert(x),
    decreases t.len(),
{
    broadcast use vstd::seq_lib::group_to_multiset_ensures;
    broadcast use vstd::multiset::group_multiset_axioms;
    if !(t.len() == 0 || t.last().1.0 >= x.1.0) {
        let t2 = t.drop_last();
        lemma_insert_by_speed_multiset(t2, x);
        assert(t =~= t2.push(t.last()));
        assert(insert_by_speed(t, x).to_multiset() =~= t.to_multiset().insert(x));
    }
}

/// Sorting by speed yields the same entities, fastest first.
pub proof fn lemma_sort_by_speed(s: Seq<(Entity, Speed)>)
    ensures
        fastest_first(sort_by_speed(s)),
        sort_by_speed(s).to_multiset() == s.to_multiset(),
        sort_by_speed(s).len() == s.len(),
    decreases s.len(),
{
    broadcast use vstd::seq_lib::group_to_multiset_ensures;
    if s.len() > 0 {
        let rest = s.drop_last();
        lemma_sort_by_speed(rest);
        lemma_insert_by_speed_sorted(sort_by_speed(rest), s.last(), i32::MIN);
        lemma_insert_by_speed_multiset(sort_by_speed(rest), s.last());
        lemma_insert_by_speed_len(sort_by_speed(rest), s.last());
        assert(s =~= rest.push(s.last()));
    }
}

/// Every entity gets exactly one place in the turn order, and no entity
/// plays after a slower one.
pub proof fn law_turn_order_fastest_first(s: Seq<(Entity, Speed)>)
    ensures
        fastest_first(sort_by_speed(s)),
        sort_by_speed(s).to_multiset() == s.to_multiset(),
{
    lemma_sort_by_speed(s);
}

} // verus!
