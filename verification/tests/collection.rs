use nge::parties::party::{Pokemon, PokemonGender};
use nge::parties::{Parties, Trainer};

fn trainer(id: &str, name: &str) -> Trainer {
    let mut t = Trainer::default();
    t.id = id.to_owned();
    t.name = name.to_owned();
    t
}

fn three() -> Parties {
    Parties::new(vec![trainer("A", "first"), trainer("B", "second"), trainer("C", "third")])
}

#[test]
fn each_trainer_is_found_under_its_id() {
    let parties = three();
    assert_eq!(parties.len(), 3);
    assert_eq!(parties.get("A").unwrap().name, "first");
    assert_eq!(parties.get("B").unwrap().name, "second");
    assert_eq!(parties.get("C").unwrap().name, "third");
    assert_eq!(parties.index_by("B").name, "second");
}

#[test]
fn nothing_is_found_under_an_unknown_id() {
    let mut parties = three();
    assert!(parties.get("D").is_none());
    assert!(parties.get("").is_none());
    assert!(parties.get("a").is_none());
    assert!(parties.get_mut("D").is_none());
    assert!(Parties::default().get("A").is_none());
    assert_eq!(Parties::empty().len(), 0);
}

#[test]
fn order_is_kept() {
    let parties = three();
    let ids: Vec<&str> = parties.as_vec().iter().map(|t| t.id.as_str()).collect();
    assert_eq!(ids, vec!["A", "B", "C"]);
}

#[test]
fn of_two_trainers_with_one_id_the_last_is_found() {
    let parties = Parties::new(vec![trainer("A", "first"), trainer("B", "x"), trainer("A", "last")]);
    assert_eq!(parties.get("A").unwrap().name, "last");
    assert_eq!(parties.len(), 3);
}

#[test]
fn trainers_are_changed_in_place() {
    let mut parties = three();
    parties.get_mut("B").unwrap().name = "changed".to_owned();
    parties.index_mut_by("C").double_battle = true;
    parties.trainer_mut(0).party[0] = Some(Pokemon::default());
    assert_eq!(parties.get("B").unwrap().name, "changed");
    assert_eq!(parties.as_vec()[1].name, "changed");
    assert!(parties.get("C").unwrap().double_battle);
    assert!(parties.as_vec()[0].party[0].is_some());
    assert_eq!(parties.get("A").unwrap().name, "first");
    for i in 0..parties.len() {
        parties.trainer_mut(i).pic = "same".to_owned();
    }
    assert!(parties.as_vec().iter().all(|t| t.pic == "same"));
}

#[test]
fn the_index_is_not_remade_when_an_id_changes() {
    let mut parties = three();
    parties.get_mut("A").unwrap().id = "Z".to_owned();
    assert_eq!(parties.get("A").unwrap().id, "Z");
    assert!(parties.get("Z").is_none());
}

#[test]
fn gender_codes() {
    assert_eq!(PokemonGender::try_from("").unwrap(), PokemonGender::Unspecified);
    assert_eq!(PokemonGender::try_from("M").unwrap(), PokemonGender::Male);
    assert_eq!(PokemonGender::try_from("F").unwrap(), PokemonGender::Female);
    for code in ["m", "f", "X", "MF", " M", "Male", "\n"] {
        match PokemonGender::try_from(code) {
            Err(nge::parties::error::PartyError::GenderConversionError(c)) => assert_eq!(c, code),
            other => panic!("unexpected for {:?}: {:?}", code, other),
        }
    }
    assert_eq!(PokemonGender::Unspecified.to_code(), "");
    assert_eq!(PokemonGender::Male.to_code(), "M");
    assert_eq!(PokemonGender::Female.to_code(), "F");
    assert_eq!(PokemonGender::default(), PokemonGender::Unspecified);
}

#[test]
fn defaults_have_nothing_set() {
    let t = Trainer::default();
    assert_eq!(t.id, "");
    assert!(!t.double_battle);
    assert!(t.party.iter().all(|s| s.is_none()));
    let m = Pokemon::default();
    assert_eq!(m.species, "");
    assert_eq!(m.level, None);
    assert_eq!(m.gender, PokemonGender::Unspecified);
    assert!(!m.shiny && !m.gigantamax);
}
