//! The data representations for the list of trainers and their Pokemon
//! parties: the intermediate form that stands between the configuration and
//! the game specific text files.

use crate::parties::party::{Pokemon, PokemonView};
use crate::text::opt_text;
use vstd::hash_map::StringHashMap;
use vstd::prelude::*;

pub mod emerald_expansion;
pub mod error;
pub mod party;

verus! {

/// A trainer and the party of up to six members that the trainer leads into
/// battle. The order of the six slots is the order of battle.
#[derive(Debug)]
pub struct Trainer {
    pub id: String,
    pub name: String,
    pub pic: String,
    pub class: Option<String>,
    pub gender: Option<String>,
    pub music: Option<String>,
    pub items: Option<String>,
    pub double_battle: bool,
    pub ai: Option<String>,
    pub mugshot: Option<String>,
    pub starting_status: Option<String>,
    pub party: [Option<Pokemon>; 6],
}

/// What a [`Trainer`] holds, as mathematical values.
pub ghost struct TrainerView {
    pub id: Seq<char>,
    pub name: Seq<char>,
    pub pic: Seq<char>,
    pub class: Option<Seq<char>>,
    pub gender: Option<Seq<char>>,
    pub music: Option<Seq<char>>,
    pub items: Option<Seq<char>>,
    pub double_battle: bool,
    pub ai: Option<Seq<char>>,
    pub mugshot: Option<Seq<char>>,
    pub starting_status: Option<Seq<char>>,
    pub party: Seq<Option<PokemonView>>,
}

/// What an optional party member holds.
pub open spec fn opt_pokemon(o: Option<Pokemon>) -> Option<PokemonView> {
    match o {
        Some(p) => Some(p@),
        None => None,
    }
}

/// What the slots of a party hold.
pub open spec fn party_view(slots: Seq<Option<Pokemon>>) -> Seq<Option<PokemonView>> {
    slots.map_values(|o: Option<Pokemon>| opt_pokemon(o))
}

/// The six slots of a party are well formed when no member stands behind an
/// empty slot and every member has a species.
pub open spec fn party_well_formed(party: Seq<Option<PokemonView>>) -> bool {
    &&& party.len() == 6
    &&& forall|i: int, j: int| 0 <= i < j < 6 && party[j] is Some ==> party[i] is Some
    &&& forall|i: int| 0 <= i < 6 && party[i] is Some ==> (#[trigger] party[i])->0.species.len() > 0
}

impl TrainerView {
    /// The trainer's party is well formed.
    pub open spec fn well_formed(self) -> bool {
        party_well_formed(self.party)
    }

    /// The trainer that has nothing set.
    pub open spec fn unset() -> TrainerView {
        TrainerView {
            id: Seq::empty(),
            name: Seq::empty(),
            pic: Seq::empty(),
            class: None,
            gender: None,
            music: None,
            items: None,
            double_battle: false,
            ai: None,
            mugshot: None,
            starting_status: None,
            party: Seq::new(6, |i: int| None),
        }
    }
}

impl View for Trainer {
    type V = TrainerView;

    open spec fn view(&self) -> TrainerView {
        TrainerView {
            id: self.id@,
            name: self.name@,
            pic: self.pic@,
            class: opt_text(self.class),
            gender: opt_text(self.gender),
            music: opt_text(self.music),
            items: opt_text(self.items),
            double_battle: self.double_battle,
            ai: opt_text(self.ai),
            mugshot: opt_text(self.mugshot),
            starting_status: opt_text(self.starting_status),
            party: party_view(self.party@),
        }
    }
}

impl Default for Parties {
    fn default() -> (res: Self)
        ensures
            res.wf(),
            res.trainers() == Seq::<Trainer>::empty(),
            res.index() == Map::<Seq<char>, usize>::empty(),
    {
        Parties::empty()
    }
}

impl Default for Trainer {
    fn default() -> (r: Self)
        ensures
            r@ == TrainerView::unset(),
    {
        let r = Trainer {
            id: String::new(),
            name: String::new(),
            pic: String::new(),
            class: None,
            gender: None,
            music: None,
            items: None,
            double_battle: false,
            ai: None,
            mugshot: None,
            starting_status: None,
            party: [None, None, None, None, None, None],
        };
        assert(r@.party =~= TrainerView::unset().party);
        r
    }
}

/// The ids of a sequence of trainers, in its order.
pub open spec fn ids_of(trainers: Seq<Trainer>) -> Seq<Seq<char>> {
    trainers.map_values(|t: Trainer| t.id@)
}

/// What a sequence of trainers holds.
pub open spec fn trainers_view(trainers: Seq<Trainer>) -> Seq<TrainerView> {
    trainers.map_values(|t: Trainer| t@)
}

/// The index of a sequence of ids: each id found in it, with the position at
/// which it stands. Of an id that stands at several positions the last one
/// counts.
pub open spec fn index_of(ids: Seq<Seq<char>>) -> Map<Seq<char>, usize>
    decreases ids.len(),
{
    if ids.len() == 0 {
        Map::empty()
    } else {
        index_of(ids.drop_last()).insert(ids.last(), (ids.len() - 1) as usize)
    }
}

/// The trainers of a file in its order, with an index from a trainer's id to
/// the position of the trainer.
///
/// The index is made when the collection is made. A caller who changes the
/// id of a trainer afterwards leaves the index as it was.
pub struct Parties {
    parties: Vec<Trainer>,
    name_map: StringHashMap<usize>,
}

impl View for Parties {
    type V = Seq<TrainerView>;

    open spec fn view(&self) -> Seq<TrainerView> {
        trainers_view(self.trainers())
    }
}

impl Parties {
    /// The trainers in their order.
    pub closed spec fn trainers(&self) -> Seq<Trainer> {
        self.parties@
    }

    /// The index: the position that is kept for an id.
    pub closed spec fn index(&self) -> Map<Seq<char>, usize> {
        self.name_map@
    }

    /// Every position that the index holds is the position of a trainer.
    pub open spec fn wf(&self) -> bool {
        forall|id: Seq<char>| #[trigger]
            self.index().contains_key(id) ==> self.index()[id] < self.trainers().len()
    }

    /// Makes the collection of the given trainers, in their order, and the
    /// index of their ids.
    pub fn new(trainers: Vec<Trainer>) -> (res: Self)
        ensures
            res.wf(),
            res.trainers() == trainers@,
            res.index() == index_of(ids_of(trainers@)),
    {
        let mut name_map: StringHashMap<usize> = StringHashMap::new();
        let mut i: usize = 0;
        assert(ids_of(trainers@).take(0) =~= Seq::empty());
        while i < trainers.len()
            invariant
                i <= trainers.len(),
                name_map@ == index_of(ids_of(trainers@).take(i as int)),
                forall|id: Seq<char>| #[trigger] name_map@.contains_key(id) ==> name_map@[id] < i,
            decreases trainers.len() - i,
        {
            let ghost ids = ids_of(trainers@);
            assert(ids.take(i as int + 1).drop_last() =~= ids.take(i as int));
            assert(ids.take(i as int + 1).last() == trainers@[i as int].id@);
            name_map.insert(trainers[i].id.clone(), i);
            i += 1;
        }
        assert(ids_of(trainers@).take(i as int) =~= ids_of(trainers@));
        Parties { parties: trainers, name_map }
    }

    /// The collection without trainers.
    pub fn empty() -> (res: Self)
        ensures
            res.wf(),
            res.trainers() == Seq::<Trainer>::empty(),
            res.index() == Map::<Seq<char>, usize>::empty(),
    {
        Parties { parties: Vec::new(), name_map: StringHashMap::new() }
    }

    /// The number of trainers.
    pub fn len(&self) -> (n: usize)
        ensures
            n == self.trainers().len(),
    {
        self.parties.len()
    }

    /// The trainers in their order, for reading.
    pub fn as_vec(&self) -> (v: &Vec<Trainer>)
        ensures
            v@ == self.trainers(),
    {
        &self.parties
    }

    /// The trainer that is found under a key: the one at the position that the
    /// index keeps for the key, if it keeps one and a trainer stands there.
    pub open spec fn lookup(&self, key: Seq<char>) -> Option<Trainer> {
        if self.index().contains_key(key) && self.index()[key] < self.trainers().len() {
            Some(self.trainers()[self.index()[key] as int])
        } else {
            None
        }
    }

    /// The trainer that is found under `key`, if there is one.
    pub fn get(&self, key: &str) -> (r: Option<&Trainer>)
        ensures
            match r {
                Some(t) => self.lookup(key@) == Some(*t),
                None => self.lookup(key@) is None,
            },
    {
        match self.name_map.get(key) {
            Some(i) => {
                if *i < self.parties.len() {
                    Some(&self.parties[*i])
                } else {
                    None
                }
            },
            None => None,
        }
    }

    /// The trainer that is found under `key`, if there is one, for changing
    /// it in place. Only that trainer can change, and the index stays as it
    /// is.
    pub fn get_mut(&mut self, key: &str) -> (r: Option<&mut Trainer>)
        ensures
            final(self).index() == old(self).index(),
            old(self).wf() ==> final(self).wf(),
            match r {
                Some(t) => old(self).lookup(key@) == Some(*t) && final(self).trainers() == old(
                    self,
                ).trainers().update(old(self).index()[key@] as int, *final(t)),
                None => old(self).lookup(key@) is None && final(self).trainers() == old(
                    self,
                ).trainers(),
            },
    {
        let found = match self.name_map.get(key) {
            Some(i) => Some(*i),
            None => None,
        };
        match found {
            Some(i) => {
                if i < self.parties.len() {
                    Some(&mut self.parties[i])
                } else {
                    None
                }
            },
            None => None,
        }
    }

    /// The trainer that is found under `key`, for a caller who knows that
    /// there is one.
    pub fn index_by(&self, key: &str) -> (r: &Trainer)
        requires
            self.lookup(key@) is Some,
        ensures
            self.lookup(key@) == Some(*r),
    {
        match self.name_map.get(key) {
            Some(i) => &self.parties[*i],
            None => &self.parties[0],
        }
    }

    /// The trainer that is found under `key`, for changing it in place, for
    /// a caller who knows that there is one.
    pub fn index_mut_by(&mut self, key: &str) -> (r: &mut Trainer)
        requires
            old(self).lookup(key@) is Some,
        ensures
            final(self).index() == old(self).index(),
            old(self).wf() ==> final(self).wf(),
            old(self).lookup(key@) == Some(*r),
            final(self).trainers() == old(self).trainers().update(
                old(self).index()[key@] as int,
                *final(r),
            ),
    {
        let i = match self.name_map.get(key) {
            Some(i) => *i,
            None => 0,
        };
        &mut self.parties[i]
    }

    /// The trainer at a position, for changing it in place. Only that
    /// trainer can change, and the index stays as it is.
    pub fn trainer_mut(&mut self, i: usize) -> (r: &mut Trainer)
        requires
            i < old(self).trainers().len(),
        ensures
            final(self).index() == old(self).index(),
            old(self).wf() ==> final(self).wf(),
            *r == old(self).trainers()[i as int],
            final(self).trainers() == old(self).trainers().update(i as int, *final(r)),
    {
        assert(old(self).wf() ==> forall|id: Seq<char>| #[trigger]
            self.index().contains_key(id) ==> self.index()[id] < self.parties@.len());
        &mut self.parties[i]
    }
}

/// The index holds the ids of the sequence and no others, and keeps for
/// each the last position at which it stands.
pub proof fn lemma_index_of(ids: Seq<Seq<char>>)
    requires
        ids.len() <= usize::MAX,
    ensures
        forall|id: Seq<char>| #[trigger] index_of(ids).contains_key(id) <==> ids.contains(id),
        forall|id: Seq<char>| #[trigger]
            index_of(ids).contains_key(id) ==> index_of(ids)[id] < ids.len() && ids[index_of(
                ids,
            )[id] as int] == id,
        forall|j: int| 0 <= j < ids.len() ==> j <= index_of(ids)[#[trigger] ids[j]],
    decreases ids.len(),
{
    if ids.len() > 0 {
        let init = ids.drop_last();
        lemma_index_of(init);
        assert forall|id: Seq<char>| #[trigger] index_of(ids).contains_key(id) <==> ids.contains(
            id,
        ) by {
            if ids.contains(id) {
                let j = choose|j: int| 0 <= j < ids.len() && ids[j] == id;
                if j < init.len() {
                    assert(init[j] == id);
                }
            }
            if index_of(init).contains_key(id) {
                let j = choose|j: int| 0 <= j < init.len() && init[j] == id;
                assert(ids[j] == id);
            }
            if id == ids.last() {
                assert(ids[ids.len() - 1] == id);
            }
        }
        assert forall|id: Seq<char>| #[trigger] index_of(ids).contains_key(id) implies index_of(
            ids,
        )[id] < ids.len() && ids[index_of(ids)[id] as int] == id by {
            assert(ids[ids.len() - 1] == ids.last());
            if id != ids.last() {
                assert(index_of(init).contains_key(id));
                assert(index_of(ids)[id] == index_of(init)[id]);
                assert(init[index_of(init)[id] as int] == ids[index_of(init)[id] as int]);
            }
        }
        assert forall|j: int| 0 <= j < ids.len() implies j <= index_of(ids)[#[trigger] ids[j]] by {
            assert(ids[ids.len() - 1] == ids.last());
            if ids[j] != ids.last() {
                assert(init[j] == ids[j]);
                assert(init.contains(init[j]));
                assert(index_of(init).contains_key(init[j]));
                assert(index_of(ids)[ids[j]] == index_of(init)[init[j]]);
            }
        }
    }
}

/// In a collection that was made of trainers with ids that differ from
/// each other, each trainer is found under its id, and nothing is found
/// under a key that is no trainer's id.
pub proof fn trainers_are_found_by_id(parties: Parties, i: int, key: Seq<char>)
    requires
        parties.index() == index_of(ids_of(parties.trainers())),
        ids_of(parties.trainers()).no_duplicates(),
    ensures
        0 <= i < parties.trainers().len() ==> parties.lookup(parties.trainers()[i].id@) == Some(
            parties.trainers()[i],
        ),
        !ids_of(parties.trainers()).contains(key) ==> parties.lookup(key) is None,
{
    let ids = ids_of(parties.trainers());
    assert(parties.parties.len() == parties.parties@.len());
    lemma_index_of(ids);
    if 0 <= i < parties.trainers().len() {
        let id = parties.trainers()[i].id@;
        assert(ids[i] == id);
        assert(ids.contains(id));
        assert(index_of(ids).contains_key(id));
        let j = index_of(ids)[id] as int;
        assert(ids[j] == id);
    }
}

} // verus!
