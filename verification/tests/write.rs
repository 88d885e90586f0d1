use nge::parties::emerald_expansion::writer::{write_mons_field, write_trainer_fields, PushLn};
use nge::parties::emerald_expansion::{from_emerald_expansion_format, to_emerald_expansion_format};
use nge::parties::error::PartyError;
use nge::parties::party::{Pokemon, PokemonGender};
use nge::parties::{Parties, Trainer};

fn mon(species: &str) -> Pokemon {
    let mut m = Pokemon::default();
    m.species = species.to_owned();
    m
}

fn full_trainer() -> Trainer {
    let mut t = Trainer::default();
    t.id = "LEADER_2".to_owned();
    t.name = "Roxanne".to_owned();
    t.pic = "Roxanne Pic".to_owned();
    t.class = Some("Leader".to_owned());
    t.gender = Some("Female".to_owned());
    t.music = Some("Gym".to_owned());
    t.items = Some("Potion / Full Heal".to_owned());
    t.double_battle = true;
    t.ai = Some("Smart".to_owned());
    t.mugshot = Some("Purple".to_owned());
    t.starting_status = Some("Tailwind".to_owned());
    let mut m = mon("Nosepass");
    m.gender = PokemonGender::Female;
    m.held_item = Some("Oran Berry".to_owned());
    m.level = Some(105);
    m.ivs = Some("31 HP".to_owned());
    m.evs = Some("252 HP / 4 Def".to_owned());
    m.ball = Some("Great".to_owned());
    m.happiness = Some(7);
    m.nature = Some("Hardy".to_owned());
    m.tera_type = Some("Rock".to_owned());
    m.move_1 = Some("Tackle".to_owned());
    m.move_2 = Some("Rock Tomb".to_owned());
    m.move_3 = Some("Harden".to_owned());
    m.move_4 = Some("Block".to_owned());
    let mut second = mon("Geodude");
    second.gender = PokemonGender::Male;
    second.level = Some(42);
    t.party[0] = Some(m);
    t.party[1] = Some(second);
    t
}

#[test]
fn push_ln_appends_a_line_feed() {
    let mut s = String::from("a");
    s.push_ln("bc");
    s.push_ln("");
    assert_eq!(s, "abc\n\n");
}

#[test]
fn rival_scenario_writes_and_reads_back() {
    let text =
        "=== RIVAL1 ===\nName: Rival\nPic: Rival\nDouble Battle: No\n\nTorchic\nLevel: 5\n- Scratch\n";
    let parties = from_emerald_expansion_format(text).unwrap();
    let written = to_emerald_expansion_format(&parties).unwrap();
    assert_eq!(
        written,
        "=== RIVAL1 ===\nName: Rival\nPic: Rival\nDouble Battle: No\n\nTorchic\nLevel: 5\n- Scratch\n\n\n"
    );
    let again = from_emerald_expansion_format(&written).unwrap();
    assert_eq!(format!("{:?}", again.as_vec()), format!("{:?}", parties.as_vec()));
}

#[test]
fn trainer_fields_are_written_in_their_order() {
    let t = full_trainer();
    assert_eq!(
        write_trainer_fields(&t).unwrap(),
        "Name: Roxanne\nPic: Roxanne Pic\nClass: Leader\nGender: Female\nMusic: Gym\nItems: Potion / Full Heal\nDouble Battle: Yes\nAI: Smart\nMugshot: Purple\nStarting Status: Tailwind\n"
    );
    let bare = Trainer::default();
    assert_eq!(write_trainer_fields(&bare).unwrap(), "Name: \nPic: \nDouble Battle: No\n");
}

#[test]
fn members_are_written_in_their_order() {
    let t = full_trainer();
    assert_eq!(
        write_mons_field(&t.party).unwrap(),
        "Nosepass (F) @ Oran Berry\nLevel: 105\nIVs: 31 HP\nEVs: 252 HP / 4 Def\nBall: Great\nHappiness: 7\nHardy Nature\nTera Type: Rock\n- Tackle\n- Rock Tomb\n- Harden\n- Block\n\nGeodude (M)\nLevel: 42\n\n"
    );
    assert_eq!(write_mons_field(&Trainer::default().party).unwrap(), "");
}

#[test]
fn numbers_are_written_as_decimal_numerals() {
    for (n, text) in [(0u8, "0"), (9, "9"), (10, "10"), (99, "99"), (100, "100"), (255, "255")] {
        let mut t = Trainer::default();
        let mut m = mon("Abra");
        m.level = Some(n);
        t.party[0] = Some(m);
        assert_eq!(write_mons_field(&t.party).unwrap(), format!("Abra\nLevel: {}\n\n", text));
    }
}

#[test]
fn whole_file_is_written_block_by_block() {
    let mut second = Trainer::default();
    second.id = "B".to_owned();
    let parties = Parties::new(vec![full_trainer(), second]);
    let text = to_emerald_expansion_format(&parties).unwrap();
    assert_eq!(
        text,
        "=== LEADER_2 ===\nName: Roxanne\nPic: Roxanne Pic\nClass: Leader\nGender: Female\nMusic: Gym\nItems: Potion / Full Heal\nDouble Battle: Yes\nAI: Smart\nMugshot: Purple\nStarting Status: Tailwind\n\nNosepass (F) @ Oran Berry\nLevel: 105\nIVs: 31 HP\nEVs: 252 HP / 4 Def\nBall: Great\nHappiness: 7\nHardy Nature\nTera Type: Rock\n- Tackle\n- Rock Tomb\n- Harden\n- Block\n\nGeodude (M)\nLevel: 42\n\n\n=== B ===\nName: \nPic: \nDouble Battle: No\n\n\n"
    );
    let again = from_emerald_expansion_format(&text).unwrap();
    assert_eq!(format!("{:?}", again.as_vec()), format!("{:?}", parties.as_vec()));
    assert_eq!(to_emerald_expansion_format(&again).unwrap(), text);
}

#[test]
fn empty_collection_is_written_as_empty_text() {
    assert_eq!(to_emerald_expansion_format(&Parties::new(vec![])).unwrap(), "");
}

#[test]
fn double_battle_flag_survives_writing_and_reading() {
    let mut t = Trainer::default();
    t.id = "TWINS".to_owned();
    t.double_battle = true;
    let text = to_emerald_expansion_format(&Parties::new(vec![t])).unwrap();
    assert!(text.lines().any(|l| l == "Double Battle: Yes"));
    let again = from_emerald_expansion_format(&text).unwrap();
    assert!(again.as_vec()[0].double_battle);
}

#[test]
fn member_behind_an_empty_slot_is_not_written() {
    let mut t = Trainer::default();
    t.id = "A".to_owned();
    t.party[1] = Some(mon("Abra"));
    match write_mons_field(&t.party) {
        Err(PartyError::ParsingError(m)) => assert_eq!(
            m,
            "Party has a member behind an empty slot or a member without species"
        ),
        other => panic!("unexpected: {:?}", other),
    }
    assert!(matches!(
        to_emerald_expansion_format(&Parties::new(vec![t])),
        Err(PartyError::ParsingError(_))
    ));
}

#[test]
fn member_without_species_is_not_written() {
    let mut t = Trainer::default();
    t.party[0] = Some(Pokemon::default());
    assert!(matches!(write_mons_field(&t.party), Err(PartyError::ParsingError(_))));
}

#[test]
fn reading_writing_and_reading_again_changes_nothing() {
    let text = "junk\n=== A ===\nName:X\nPic:  spaced \nDouble Battle: yes\nUnknown: 1\n\n\nAbra (M) @ Twisted Spoon\nLevel: +007\nTimid Nature\n- Psychic\nEVs: 1\n- Recover\n\n\nKadabra\nHappiness: 12\n=== B ===\nMusic: \n";
    let first = from_emerald_expansion_format(text).unwrap();
    let written = to_emerald_expansion_format(&first).unwrap();
    let second = from_emerald_expansion_format(&written).unwrap();
    assert_eq!(format!("{:?}", second.as_vec()), format!("{:?}", first.as_vec()));
    assert_eq!(first.as_vec()[0].pic, " spaced ");
    assert_eq!(first.as_vec()[0].party[0].as_ref().unwrap().level, Some(7));
    assert_eq!(first.as_vec()[1].music.as_deref(), Some(""));
}

#[test]
fn large_file_is_read_and_written() {
    let mut text = String::new();
    for i in 0..400 {
        text.push_str(&format!(
            "=== TRAINER_{} ===\nName: Trainer {}\nPic: Pic {}\nClass: Youngster\nDouble Battle: {}\n\n",
            i,
            i,
            i,
            if i % 2 == 0 { "Yes" } else { "No" }
        ));
        for m in 0..(i % 7).min(6) {
            text.push_str(&format!(
                "Species-{} (F) @ Item {}\nLevel: {}\nIVs: 31 HP / 0 Atk\nJolly Nature\n- Move A\n- Move B\n\n",
                m,
                m,
                (i + m) % 256
            ));
        }
        text.push('\n');
    }
    let first = from_emerald_expansion_format(&text).unwrap();
    assert_eq!(first.len(), 400);
    let written = to_emerald_expansion_format(&first).unwrap();
    assert_eq!(written, text);
    let second = from_emerald_expansion_format(&written).unwrap();
    assert_eq!(format!("{:?}", second.as_vec()), format!("{:?}", first.as_vec()));
    assert_eq!(second.get("TRAINER_399").unwrap().name, "Trainer 399");
}
