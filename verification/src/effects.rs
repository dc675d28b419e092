//! Elemental effects on the board and the reactions between them: heat and
//! humidity make steam, cold and humidity make ice, heat melts ice.

use vstd::prelude::*;

verus! {

/// An elemental effect.
pub trait StatusEffect {}

/// The entity burns, with a strength.
#[derive(Debug, Clone, Copy, PartialEq, Eq, Structural)]
pub struct Burning(pub i32);
impl StatusEffect for Burning {}

/// The entity is hot.
#[derive(Debug, Clone, Copy, PartialEq, Eq, Default, Structural)]
pub struct Heat;
impl StatusEffect for Heat {}

/// The entity steams.
#[derive(Debug, Clone, Copy, PartialEq, Eq, Default, Structural)]
pub struct Steam;
impl StatusEffect for Steam {}

/// The entity is humid.
#[derive(Debug, Clone, Copy, PartialEq, Eq, Default, Structural)]
pub struct Humid;
impl StatusEffect for Humid {}

/// The entity is iced.
#[derive(Debug, Clone, Copy, PartialEq, Eq, Default, Structural)]
pub struct Iced;
impl StatusEffect for Iced {}

/// The entity is cold.
#[derive(Debug, Clone, Copy, PartialEq, Eq, Default, Structural)]
pub struct Cold;
impl StatusEffect for Cold {}

/// Marks the entity used to try the reactions out.
#[derive(Debug, Clone, Copy, PartialEq, Eq, Structural)]
pub struct TempFilterC;

/// One of the elemental effects, by kind.
#[derive(Debug, Clone, Copy, PartialEq, Eq, Structural)]
pub enum EffectComponent {
    Humid,
    Heat,
    Cold,
    Iced,
    Burning,
    Steam,
}

/// The elemental effects present on an entity; a burning entity carries the
/// strength of its burn.
#[derive(Debug, Clone, Copy, PartialEq, Eq, Structural)]
pub struct EffectSet {
    pub humid: bool,
    pub heat: bool,
    pub cold: bool,
    pub iced: bool,
    pub burning: Option<i32>,
    pub steam: bool,
}

impl EffectSet {
    /// The kinds present, in the order Humid, Heat, Cold, Iced, Burning,
    /// Steam.
    pub open spec fn kinds(self) -> Seq<EffectComponent> {
        (if self.humid { seq![EffectComponent::Humid] } else { seq![] })
        + (if self.heat { seq![EffectComponent::Heat] } else { seq![] })
        + (if self.cold { seq![EffectComponent::Cold] } else { seq![] })
        + (if self.iced { seq![EffectComponent::Iced] } else { seq![] })
        + (if self.burning is Some { seq![EffectComponent::Burning] } else { seq![] })
        + (if self.steam { seq![EffectComponent::Steam] } else { seq![] })
    }

    /// The set with one kind removed.
    pub open spec fn without(self, k: EffectComponent) -> EffectSet {
        match k {
            EffectComponent::Humid => EffectSet { humid: false, ..self },
            EffectComponent::Heat => EffectSet { heat: false, ..self },
            EffectComponent::Cold => EffectSet { cold: false, ..self },
            EffectComponent::Iced => EffectSet { iced: false, ..self },
            EffectComponent::Burning => EffectSet { burning: None, ..self },
            EffectComponent::Steam => EffectSet { steam: false, ..self },
        }
    }

    /// The set with one kind added; an added burn has strength 1.
    pub open spec fn with(self, k: EffectComponent) -> EffectSet {
        match k {
            EffectComponent::Humid => EffectSet { humid: true, ..self },
            EffectComponent::Heat => EffectSet { heat: true, ..self },
            EffectComponent::Cold => EffectSet { cold: true, ..self },
            EffectComponent::Iced => EffectSet { iced: true, ..self },
            EffectComponent::Burning => EffectSet { burning: Some(1), ..self },
            EffectComponent::Steam => EffectSet { steam: true, ..self },
        }
    }

    /// The kinds present, in the order Humid, Heat, Cold, Iced, Burning,
    /// Steam.
    pub fn kind_list(&self) -> (v: Vec<EffectComponent>)
        ensures
            v@ == self.kinds(),
    {
        let mut v: Vec<EffectComponent> = Vec::new();
        if self.humid {
            v.push(EffectComponent::Humid);
        }
        if self.heat {
            v.push(EffectComponent::Heat);
        }
        if self.cold {
            v.push(EffectComponent::Cold);
        }
        if self.iced {
            v.push(EffectComponent::Iced);
        }
        if self.burning.is_some() {
            v.push(EffectComponent::Burning);
        }
        if self.steam {
            v.push(EffectComponent::Steam);
        }
        assert(v@ =~= self.kinds());
        v
    }

    pub fn remove(&mut self, k: EffectComponent)
        ensures
            *final(self) == old(self).without(k),
    {
        match k {
            EffectComponent::Humid => self.humid = false,
            EffectComponent::Heat => self.heat = false,
            EffectComponent::Cold => self.cold = false,
            EffectComponent::Iced => self.iced = false,
            EffectComponent::Burning => self.burning = None,
            EffectComponent::Steam => self.steam = false,
        }
    }

    pub fn insert(&mut self, k: EffectComponent)
        ensures
            *final(self) == old(self).with(k),
    {
        match k {
            EffectComponent::Humid => self.humid = true,
            EffectComponent::Heat => self.heat = true,
            EffectComponent::Cold => self.cold = true,
            EffectComponent::Iced => self.iced = true,
            EffectComponent::Burning => self.burning = Some(1),
            EffectComponent::Steam => self.steam = true,
        }
    }
}

/// A reaction: when an entity carries exactly the inputs, the removed kinds
/// go and the spawned kinds come.
pub struct Reaction {
    pub inputs: Vec<EffectComponent>,
    pub removes: Vec<EffectComponent>,
    pub spawns: Vec<EffectComponent>,
}

impl Reaction {
    /// A reaction with no inputs and no results.
    pub fn new_empty() -> (r: Self)
        ensures
            r.inputs@.len() == 0,
            r.removes@.len() == 0,
            r.spawns@.len() == 0,
    {
        Self { inputs: Vec::new(), removes: Vec::new(), spawns: Vec::new() }
    }

    pub fn with_inputs(self, inputs: Vec<EffectComponent>) -> (r: Self)
        ensures
            r.inputs@ == inputs@,
            r.removes@ == self.removes@,
            r.spawns@ == self.spawns@,
    {
        let mut s = self;
        s.inputs = inputs;
        s
    }

    pub fn with_removes(self, removes: Vec<EffectComponent>) -> (r: Self)
        ensures
            r.inputs@ == self.inputs@,
            r.removes@ == removes@,
            r.spawns@ == self.spawns@,
    {
        let mut s = self;
        s.removes = removes;
        s
    }

    pub fn with_added_components(self, spawns: Vec<EffectComponent>) -> (r: Self)
        ensures
            r.inputs@ == self.inputs@,
            r.removes@ == self.removes@,
            r.spawns@ == spawns@,
    {
        let mut s = self;
        s.spawns = spawns;
        s
    }

    /// Whether the reaction applies to an entity carrying `kinds`: the
    /// inputs and the kinds are the same kinds, each as often.
    pub open spec fn applies_to(self, kinds: Seq<EffectComponent>) -> bool {
        self.inputs@.to_multiset() == kinds.to_multiset()
    }

    /// Whether the reaction applies to an entity carrying `kinds`.
    pub fn matches_kinds(&self, kinds: &Vec<EffectComponent>) -> (b: bool)
        ensures
            b == self.applies_to(kinds@),
    {
        broadcast use vstd::multiset::group_multiset_axioms;
        let a = count_kinds(&self.inputs);
        let b = count_kinds(kinds);
        let eq = a.0 == b.0 && a.1 == b.1 && a.2 == b.2 && a.3 == b.3 && a.4 == b.4 && a.5 == b.5;
        proof {
            if eq {
                assert forall|x: EffectComponent| self.inputs@.to_multiset().count(x) == kinds@.to_multiset().count(x) by {
                    match x {
                        EffectComponent::Humid => {},
                        EffectComponent::Heat => {},
                        EffectComponent::Cold => {},
                        EffectComponent::Iced => {},
                        EffectComponent::Burning => {},
                        EffectComponent::Steam => {},
                    }
                }
                assert(self.inputs@.to_multiset() =~= kinds@.to_multiset());
            }
        }
        eq
    }
}

/// How many times each kind occurs, in the order Humid, Heat, Cold, Iced,
/// Burning, Steam.
pub fn count_kinds(v: &Vec<EffectComponent>) -> (c: (usize, usize, usize, usize, usize, usize))
    ensures
        c.0 == v@.to_multiset().count(EffectComponent::Humid),
        c.1 == v@.to_multiset().count(EffectComponent::Heat),
        c.2 == v@.to_multiset().count(EffectComponent::Cold),
        c.3 == v@.to_multiset().count(EffectComponent::Iced),
        c.4 == v@.to_multiset().count(EffectComponent::Burning),
        c.5 == v@.to_multiset().count(EffectComponent::Steam),
{
    broadcast use vstd::seq_lib::group_to_multiset_ensures;
    broadcast use vstd::multiset::group_multiset_axioms;
    let mut c: (usize, usize, usize, usize, usize, usize) = (0, 0, 0, 0, 0, 0);
    let mut i: usize = 0;
    while i < v.len()
        invariant
            0 <= i <= v@.len(),
            c.0 == v@.take(i as int).to_multiset().count(EffectComponent::Humid),
            c.1 == v@.take(i as int).to_multiset().count(EffectComponent::Heat),
            c.2 == v@.take(i as int).to_multiset().count(EffectComponent::Cold),
            c.3 == v@.take(i as int).to_multiset().count(EffectComponent::Iced),
            c.4 == v@.take(i as int).to_multiset().count(EffectComponent::Burning),
            c.5 == v@.take(i as int).to_multiset().count(EffectComponent::Steam),
            c.0 + c.1 + c.2 + c.3 + c.4 + c.5 == i,
        decreases v@.len() - i,
    {
        proof {
            assert(v@.take(i + 1) =~= v@.take(i as int).push(v@[i as int]));
            vstd::seq_lib::to_multiset_build(v@.take(i as int), v@[i as int]);
            assert(v@.take(i + 1).to_multiset() == v@.take(i as int).to_multiset().insert(v@[i as int]));
        }
        match v[i] {
            EffectComponent::Humid => c.0 = c.0 + 1,
            EffectComponent::Heat => c.1 = c.1 + 1,
            EffectComponent::Cold => c.2 = c.2 + 1,
            EffectComponent::Iced => c.3 = c.3 + 1,
            EffectComponent::Burning => c.4 = c.4 + 1,
            EffectComponent::Steam => c.5 = c.5 + 1,
        }
        i = i + 1;
    }
    assert(v@.take(v@.len() as int) =~= v@);
    c
}

/// The set after each kind of `ks` is removed in turn.
pub open spec fn remove_all(set: EffectSet, ks: Seq<EffectComponent>) -> EffectSet
    decreases ks.len(),
{
    if ks.len() == 0 { set } else { remove_all(set.without(ks[0]), ks.drop_first()) }
}

/// The set after each kind of `ks` is added in turn.
pub open spec fn add_all(set: EffectSet, ks: Seq<EffectComponent>) -> EffectSet
    decreases ks.len(),
{
    if ks.len() == 0 { set } else { add_all(set.with(ks[0]), ks.drop_first()) }
}

/// The effects of an entity after the reactions, tried in order against the
/// kinds the entity carried at the start: each reaction that applies takes
/// away its removed kinds, then adds its spawned kinds.
pub open spec fn resolve_spec(set: EffectSet, kinds: Seq<EffectComponent>, reactions: Seq<Reaction>) -> EffectSet
    decreases reactions.len(),
{
    if reactions.len() == 0 {
        set
    } else {
        let r = reactions[0];
        let next = if r.applies_to(kinds) { add_all(remove_all(set, r.removes@), r.spawns@) } else { set };
        resolve_spec(next, kinds, reactions.drop_first())
    }
}

/// Applies the reactions that match the effects an entity carries.
pub fn resolve_effects(effects: &mut EffectSet, reactions: &Vec<Reaction>)
    ensures
        *final(effects) == resolve_spec(*old(effects), old(effects).kinds(), reactions@),
{
    let ids = effects.kind_list();
    let ghost kinds = ids@;
    let ghost orig = *effects;
    assert(reactions@.skip(0) =~= reactions@);
    let mut i: usize = 0;
    while i < reactions.len()
        invariant
            0 <= i <= reactions@.len(),
            kinds == ids@,
            resolve_spec(orig, kinds, reactions@) == resolve_spec(*effects, kinds, reactions@.skip(i as int)),
        decreases reactions@.len() - i,
    {
        let reaction = &reactions[i];
        let ghost start = *effects;
        proof {
            assert(reactions@.skip(i as int)[0] == reactions@[i as int]);
            assert(reactions@.skip(i as int).drop_first() =~= reactions@.skip(i + 1));
        }
        if reaction.matches_kinds(&ids) {
            assert(reaction.removes@.skip(0) =~= reaction.removes@);
            let mut k: usize = 0;
            while k < reaction.removes.len()
                invariant
                    0 <= k <= reaction.removes@.len(),
                    remove_all(start, reaction.removes@) == remove_all(*effects, reaction.removes@.skip(k as int)),
                decreases reaction.removes@.len() - k,
            {
                proof {
                    assert(reaction.removes@.skip(k as int)[0] == reaction.removes@[k as int]);
                    assert(reaction.removes@.skip(k as int).drop_first() =~= reaction.removes@.skip(k + 1));
                }
                effects.remove(reaction.removes[k]);
                k = k + 1;
            }
            assert(reaction.removes@.skip(k as int) =~= Seq::<EffectComponent>::empty());
            let ghost removed = *effects;
            assert(reaction.spawns@.skip(0) =~= reaction.spawns@);
            let mut k: usize = 0;
            while k < reaction.spawns.len()
                invariant
                    0 <= k <= reaction.spawns@.len(),
                    add_all(removed, reaction.spawns@) == add_all(*effects, reaction.spawns@.skip(k as int)),
                decreases reaction.spawns@.len() - k,
            {
                proof {
                    assert(reaction.spawns@.skip(k as int)[0] == reaction.spawns@[k as int]);
                    assert(reaction.spawns@.skip(k as int).drop_first() =~= reaction.spawns@.skip(k + 1));
                }
                effects.insert(reaction.spawns[k]);
                k = k + 1;
            }
            assert(reaction.spawns@.skip(k as int) =~= Seq::<EffectComponent>::empty());
        }
        i = i + 1;
    }
    assert(reactions@.skip(i as int) =~= Seq::<Reaction>::empty());
}

/// When no reaction applies to what an entity carries, its effects stay as
/// they are.
pub proof fn law_no_reaction_no_change(set: EffectSet, reactions: Seq<Reaction>)
    requires
        forall|k: int| 0 <= k < reactions.len() ==> !(#[trigger] reactions[k]).applies_to(set.kinds()),
    ensures
        resolve_spec(set, set.kinds(), reactions) == set,
    decreases reactions.len(),
{
    if reactions.len() > 0 {
        assert(!reactions[0].applies_to(set.kinds()));
        assert forall|k: int| 0 <= k < reactions.drop_first().len() implies !(#[trigger] reactions.drop_first()[k]).applies_to(set.kinds()) by {
            assert(reactions.drop_first()[k] == reactions[k + 1]);
        }
        law_no_reaction_no_change(set, reactions.drop_first());
    }
}

/// The reactions of the game: heat and humidity make steam (the humidity
/// goes), cold and humidity make ice (the humidity goes), heat and ice make
/// humidity (both go).
pub fn default_reactions() -> (v: Vec<Reaction>)
    ensures
        v@.len() == 3,
        v@[0].inputs@ == seq![EffectComponent::Humid, EffectComponent::Heat],
        v@[0].removes@ == seq![EffectComponent::Humid],
        v@[0].spawns@ == seq![EffectComponent::Steam],
        v@[1].inputs@ == seq![EffectComponent::Cold, EffectComponent::Humid],
        v@[1].removes@ == seq![EffectComponent::Humid],
        v@[1].spawns@ == seq![EffectComponent::Iced],
        v@[2].inputs@ == seq![EffectComponent::Heat, EffectComponent::Iced],
        v@[2].removes@ == seq![EffectComponent::Heat, EffectComponent::Iced],
        v@[2].spawns@ == seq![EffectComponent::Humid],
{
    let steam = Reaction::new_empty()
        .with_inputs(vec![EffectComponent::Humid, EffectComponent::Heat])
        .with_removes(vec![EffectComponent::Humid])
        .with_added_components(vec![EffectComponent::Steam]);
    let ice = Reaction::new_empty()
        .with_inputs(vec![EffectComponent::Cold, EffectComponent::Humid])
        .with_removes(vec![EffectComponent::Humid])
        .with_added_components(vec![EffectComponent::Iced]);
    let melt = Reaction::new_empty()
        .with_inputs(vec![EffectComponent::Heat, EffectComponent::Iced])
        .with_removes(vec![EffectComponent::Heat, EffectComponent::Iced])
        .with_added_components(vec![EffectComponent::Humid]);
    proof {
        assert(steam.inputs@ =~= seq![EffectComponent::Humid, EffectComponent::Heat]);
        assert(steam.removes@ =~= seq![EffectComponent::Humid]);
        assert(steam.spawns@ =~= seq![EffectComponent::Steam]);
        assert(ice.inputs@ =~= seq![EffectComponent::Cold, EffectComponent::Humid]);
        assert(ice.removes@ =~= seq![EffectComponent::Humid]);
        assert(ice.spawns@ =~= seq![EffectComponent::Iced]);
        assert(melt.inputs@ =~= seq![EffectComponent::Heat, EffectComponent::Iced]);
        assert(melt.removes@ =~= seq![EffectComponent::Heat, EffectComponent::Iced]);
        assert(melt.spawns@ =~= seq![EffectComponent::Humid]);
    }
    vec![steam, ice, melt]
}

/// Which kinds count as which others: burning counts as heat, steam as heat
/// and humidity, ice as cold.
pub struct EffectsEquivalence(pub Vec<(EffectComponent, Vec<EffectComponent>)>);

/// The kinds that `key` counts as, from the last entry for it, if any.
pub open spec fn equivalents_of(entries: Seq<(EffectComponent, Vec<EffectComponent>)>, key: EffectComponent) -> Seq<EffectComponent>
    decreases entries.len(),
{
    if entries.len() == 0 {
        Seq::empty()
    } else if entries.last().0 == key {
        entries.last().1@
    } else {
        equivalents_of(entries.drop_last(), key)
    }
}

impl EffectsEquivalence {
    /// The game's equivalences.
    pub fn game_equivalences() -> (e: Self)
        ensures
            equivalents_of(e.0@, EffectComponent::Burning) == seq![EffectComponent::Heat],
            equivalents_of(e.0@, EffectComponent::Steam) == seq![EffectComponent::Heat, EffectComponent::Humid],
            equivalents_of(e.0@, EffectComponent::Iced) == seq![EffectComponent::Cold],
            equivalents_of(e.0@, EffectComponent::Humid).len() == 0,
    {
        let b = vec![EffectComponent::Heat];
        let s = vec![EffectComponent::Heat, EffectComponent::Humid];
        let i = vec![EffectComponent::Cold];
        proof {
            assert(b@ =~= seq![EffectComponent::Heat]);
            assert(s@ =~= seq![EffectComponent::Heat, EffectComponent::Humid]);
            assert(i@ =~= seq![EffectComponent::Cold]);
        }
        let e = EffectsEquivalence(vec![(EffectComponent::Burning, b), (EffectComponent::Steam, s), (EffectComponent::Iced, i)]);
        proof {
            let en = e.0@;
            assert(en.drop_last().drop_last().drop_last() =~= Seq::<(EffectComponent, Vec<EffectComponent>)>::empty());
            assert(en.drop_last().last() == en[1]);
            assert(en.drop_last().drop_last().last() == en[0]);
            reveal_with_fuel(equivalents_of, 4);
        }
        e
    }

    /// `key` followed by the kinds it counts as.
    pub fn get_combined_effects(self, key: EffectComponent) -> (v: Vec<EffectComponent>)
        ensures
            v@ == seq![key] + equivalents_of(self.0@, key),
    {
        let mut results = vec![key];
        let mut i: usize = self.0.len();
        assert(self.0@.take(i as int) =~= self.0@);
        while i > 0
            invariant
                0 <= i <= self.0@.len(),
                results@ == seq![key],
                equivalents_of(self.0@, key) == equivalents_of(self.0@.take(i as int), key),
            decreases i,
        {
            let ghost pre = self.0@.take(i as int);
            assert(pre.drop_last() =~= self.0@.take(i - 1));
            if self.0[i - 1].0 == key {
                let eqs = &self.0[i - 1].1;
                let mut k: usize = 0;
                while k < eqs.len()
                    invariant
                        0 <= k <= eqs@.len(),
                        results@ == seq![key] + eqs@.take(k as int),
                    decreases eqs@.len() - k,
                {
                    results.push(eqs[k]);
                    k = k + 1;
                    assert(results@ =~= seq![key] + eqs@.take(k as int));
                }
                assert(eqs@.take(k as int) =~= eqs@);
                return results;
            }
            i = i - 1;
        }
        assert(self.0@.take(0) =~= Seq::<(EffectComponent, Vec<EffectComponent>)>::empty());
        assert(results@ =~= seq![key] + Seq::<EffectComponent>::empty());
        results
    }
}

} // verus!
