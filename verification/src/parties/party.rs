//! One party member and the small types it is made of.

use crate::parties::error::PartyError;
use crate::text::opt_text;
use vstd::prelude::*;
use vstd::string::StringExecFns;

verus! {

/// The gender of a party member. `Unspecified` is what a member has when the
/// text does not state one.
#[derive(Debug, Clone, Copy, PartialEq, Eq, Structural)]
pub enum PokemonGender {
    Unspecified,
    Male,
    Female,
}

impl Default for PokemonGender {
    fn default() -> (r: Self)
        ensures
            r == PokemonGender::Unspecified,
    {
        PokemonGender::Unspecified
    }
}

impl PokemonGender {
    /// The gender that a code stands for: the empty code, `M` or `F`.
    pub open spec fn of_code(code: Seq<char>) -> Option<PokemonGender> {
        if code == Seq::<char>::empty() {
            Some(PokemonGender::Unspecified)
        } else if code == seq!['M'] {
            Some(PokemonGender::Male)
        } else if code == seq!['F'] {
            Some(PokemonGender::Female)
        } else {
            None
        }
    }

    /// The code of a gender: what stands between the parentheses of a
    /// member's first line, empty for `Unspecified`.
    pub open spec fn code(self) -> Seq<char> {
        match self {
            PokemonGender::Unspecified => Seq::<char>::empty(),
            PokemonGender::Male => seq!['M'],
            PokemonGender::Female => seq!['F'],
        }
    }

    /// Converts a code to a gender. Every code but the empty one, `M` and `F`
    /// is rejected, and the error carries the rejected code.
    pub fn try_from(value: &str) -> (r: Result<PokemonGender, PartyError>)
        ensures
            match r {
                Ok(g) => PokemonGender::of_code(value@) == Some(g),
                Err(e) => PokemonGender::of_code(value@) is None
                    && e@ == crate::parties::error::PartyErrorView::GenderConversionError(value@),
            },
    {
        let mut chars = value.chars();
        let first = chars.next();
        let second = chars.next();
        proof {
            vstd::string::axiom_spec_iter(value);
        }
        match (first, second) {
            (None, _) => {
                assert(value@ =~= Seq::<char>::empty());
                Ok(PokemonGender::Unspecified)
            },
            (Some(c), None) => {
                assert(value@ =~= seq![c]);
                if c == 'M' {
                    Ok(PokemonGender::Male)
                } else if c == 'F' {
                    Ok(PokemonGender::Female)
                } else {
                    assert(seq![c][0] == c);
                    Err(PartyError::GenderConversionError(String::from_str(value)))
                }
            },
            (Some(_), Some(_)) => {
                assert(value@.len() >= 2);
                Err(PartyError::GenderConversionError(String::from_str(value)))
            },
        }
    }

    /// The code of a gender as a string.
    pub fn to_code(self) -> (r: String)
        ensures
            r@ == self.code(),
    {
        proof {
            reveal_strlit("");
            reveal_strlit("M");
            reveal_strlit("F");
        }
        let r = match self {
            PokemonGender::Unspecified => String::from_str(""),
            PokemonGender::Male => String::from_str("M"),
            PokemonGender::Female => String::from_str("F"),
        };
        assert(r@ =~= self.code());
        r
    }
}

/// Individual values of a party member, one per stat. A value that is not
/// set counts as 31.
#[derive(Default, Debug)]
pub struct PokemonIVs {
    health: Option<u8>,
    attack: Option<u8>,
    defense: Option<u8>,
    sp_attack: Option<u8>,
    sp_defense: Option<u8>,
    speed: Option<u8>,
}

/// Effort values of a party member, one per stat. A value that is not set
/// counts as 0.
#[derive(Default, Debug)]
pub struct PokemonEVs {
    health: Option<u8>,
    attack: Option<u8>,
    defense: Option<u8>,
    sp_attack: Option<u8>,
    sp_defense: Option<u8>,
    speed: Option<u8>,
}

/// One party member. Fields that the text may leave out are optional; what
/// counts in their place is decided where the member is used (a level that is
/// not set counts as 100).
#[derive(Debug)]
pub struct Pokemon {
    pub species: String,
    pub gender: PokemonGender,
    pub held_item: Option<String>,
    pub level: Option<u8>,
    /// Individual values, kept as the text has them.
    pub ivs: Option<String>,
    /// Effort values, kept as the text has them.
    pub evs: Option<String>,
    pub ball: Option<String>,
    pub happiness: Option<u8>,
    pub nature: Option<String>,
    pub shiny: bool,
    pub dynamax_level: Option<u8>,
    pub gigantamax: bool,
    pub tera_type: Option<String>,
    pub move_1: Option<String>,
    pub move_2: Option<String>,
    pub move_3: Option<String>,
    pub move_4: Option<String>,
}

/// What a [`Pokemon`] holds, as mathematical values.
pub ghost struct PokemonView {
    pub species: Seq<char>,
    pub gender: PokemonGender,
    pub held_item: Option<Seq<char>>,
    pub level: Option<u8>,
    pub ivs: Option<Seq<char>>,
    pub evs: Option<Seq<char>>,
    pub ball: Option<Seq<char>>,
    pub happiness: Option<u8>,
    pub nature: Option<Seq<char>>,
    pub shiny: bool,
    pub dynamax_level: Option<u8>,
    pub gigantamax: bool,
    pub tera_type: Option<Seq<char>>,
    pub move_1: Option<Seq<char>>,
    pub move_2: Option<Seq<char>>,
    pub move_3: Option<Seq<char>>,
    pub move_4: Option<Seq<char>>,
}

impl PokemonView {
    /// The member that has nothing set.
    pub open spec fn unset() -> PokemonView {
        PokemonView {
            species: Seq::empty(),
            gender: PokemonGender::Unspecified,
            held_item: None,
            level: None,
            ivs: None,
            evs: None,
            ball: None,
            happiness: None,
            nature: None,
            shiny: false,
            dynamax_level: None,
            gigantamax: false,
            tera_type: None,
            move_1: None,
            move_2: None,
            move_3: None,
            move_4: None,
        }
    }
}

impl View for Pokemon {
    type V = PokemonView;

    open spec fn view(&self) -> PokemonView {
        PokemonView {
            species: self.species@,
            gender: self.gender,
            held_item: opt_text(self.held_item),
            level: self.level,
            ivs: opt_text(self.ivs),
            evs: opt_text(self.evs),
            ball: opt_text(self.ball),
            happiness: self.happiness,
            nature: opt_text(self.nature),
            shiny: self.shiny,
            dynamax_level: self.dynamax_level,
            gigantamax: self.gigantamax,
            tera_type: opt_text(self.tera_type),
            move_1: opt_text(self.move_1),
            move_2: opt_text(self.move_2),
            move_3: opt_text(self.move_3),
            move_4: opt_text(self.move_4),
        }
    }
}

impl Default for Pokemon {
    fn default() -> (r: Self)
        ensures
            r@ == PokemonView::unset(),
    {
        Pokemon {
            species: String::new(),
            gender: PokemonGender::Unspecified,
            held_item: None,
            level: None,
            ivs: None,
            evs: None,
            ball: None,
            happiness: None,
            nature: None,
            shiny: false,
            dynamax_level: None,
            gigantamax: false,
            tera_type: None,
            move_1: None,
            move_2: None,
            move_3: None,
            move_4: None,
        }
    }
}

} // verus!
