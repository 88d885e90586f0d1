use nge::parties::emerald_expansion::from_emerald_expansion_format;
use nge::parties::error::PartyError;
use nge::parties::party::PokemonGender;

const RIVAL: &str =
    "=== RIVAL1 ===\nName: Rival\nPic: Rival\nDouble Battle: No\n\nTorchic\nLevel: 5\n- Scratch\n";

#[test]
fn rival_scenario_parses() {
    let parties = from_emerald_expansion_format(RIVAL).unwrap();
    assert_eq!(parties.len(), 1);
    let trainer = &parties.as_vec()[0];
    assert_eq!(trainer.id, "RIVAL1");
    assert_eq!(trainer.name, "Rival");
    assert_eq!(trainer.pic, "Rival");
    assert!(!trainer.double_battle);
    assert_eq!(trainer.class, None);
    assert_eq!(trainer.gender, None);
    assert_eq!(trainer.music, None);
    assert_eq!(trainer.items, None);
    assert_eq!(trainer.ai, None);
    assert_eq!(trainer.mugshot, None);
    assert_eq!(trainer.starting_status, None);
    let mon = trainer.party[0].as_ref().unwrap();
    assert_eq!(mon.species, "Torchic");
    assert_eq!(mon.level, Some(5));
    assert_eq!(mon.move_1.as_deref(), Some("Scratch"));
    assert_eq!(mon.move_2, None);
    assert_eq!(mon.move_3, None);
    assert_eq!(mon.move_4, None);
    assert_eq!(mon.gender, PokemonGender::Unspecified);
    assert_eq!(mon.held_item, None);
    assert_eq!(mon.happiness, None);
    assert!(!mon.shiny);
    for slot in 1..6 {
        assert!(trainer.party[slot].is_none());
    }
}

#[test]
fn rival_scenario_parses_without_last_line_feed() {
    let text = RIVAL.trim_end();
    let parties = from_emerald_expansion_format(text).unwrap();
    let mon = parties.as_vec()[0].party[0].as_ref().unwrap();
    assert_eq!(mon.move_1.as_deref(), Some("Scratch"));
}

#[test]
fn empty_text_has_no_trainers() {
    assert_eq!(from_emerald_expansion_format("").unwrap().len(), 0);
    assert_eq!(from_emerald_expansion_format("\n\nsome words\n").unwrap().len(), 0);
}

#[test]
fn all_fields_are_read_in_any_order() {
    let text = "=== LEADER_2 ===\nStarting Status: Tailwind\nMugshot: Purple\nAI: Smart Switching\nDouble Battle: Yes\nItems: Potion / Full Heal\nMusic: Gym\nGender: Female\nClass: Leader\nPic: Roxanne\nName: Roxanne\n\nNosepass (F) @ Oran Berry\n- Tackle\nTera Type: Rock\nHardy Nature\nHappiness: 255\nBall: Great\nEVs: 252 HP / 4 Def\nIVs: 31 HP\nLevel: 15\n- Rock Tomb\n- Harden\n- Block\n- Extra\n";
    let parties = from_emerald_expansion_format(text).unwrap();
    let t = &parties.as_vec()[0];
    assert_eq!(t.id, "LEADER_2");
    assert_eq!(t.name, "Roxanne");
    assert_eq!(t.pic, "Roxanne");
    assert_eq!(t.class.as_deref(), Some("Leader"));
    assert_eq!(t.gender.as_deref(), Some("Female"));
    assert_eq!(t.music.as_deref(), Some("Gym"));
    assert_eq!(t.items.as_deref(), Some("Potion / Full Heal"));
    assert!(t.double_battle);
    assert_eq!(t.ai.as_deref(), Some("Smart Switching"));
    assert_eq!(t.mugshot.as_deref(), Some("Purple"));
    assert_eq!(t.starting_status.as_deref(), Some("Tailwind"));
    let m = t.party[0].as_ref().unwrap();
    assert_eq!(m.species, "Nosepass");
    assert_eq!(m.gender, PokemonGender::Female);
    assert_eq!(m.held_item.as_deref(), Some("Oran Berry"));
    assert_eq!(m.level, Some(15));
    assert_eq!(m.ivs.as_deref(), Some("31 HP"));
    assert_eq!(m.evs.as_deref(), Some("252 HP / 4 Def"));
    assert_eq!(m.ball.as_deref(), Some("Great"));
    assert_eq!(m.happiness, Some(255));
    assert_eq!(m.nature.as_deref(), Some("Hardy"));
    assert_eq!(m.tera_type.as_deref(), Some("Rock"));
    assert_eq!(m.move_1.as_deref(), Some("Tackle"));
    assert_eq!(m.move_2.as_deref(), Some("Rock Tomb"));
    assert_eq!(m.move_3.as_deref(), Some("Harden"));
    assert_eq!(m.move_4.as_deref(), Some("Block"));
    assert_eq!(m.dynamax_level, None);
    assert!(!m.gigantamax);
}

#[test]
fn male_member_without_item() {
    let text = "=== A ===\nName: A\n\nPorygon-Z (M)\n";
    let parties = from_emerald_expansion_format(text).unwrap();
    let m = parties.as_vec()[0].party[0].as_ref().unwrap();
    assert_eq!(m.species, "Porygon-Z");
    assert_eq!(m.gender, PokemonGender::Male);
    assert_eq!(m.held_item, None);
}

#[test]
fn member_with_item_and_no_gender() {
    let text = "=== A ===\nName: A\n\nRalts @ (M) @ x\n";
    let parties = from_emerald_expansion_format(text).unwrap();
    let m = parties.as_vec()[0].party[0].as_ref().unwrap();
    assert_eq!(m.species, "Ralts");
    assert_eq!(m.gender, PokemonGender::Unspecified);
    assert_eq!(m.held_item.as_deref(), Some("(M) @ x"));
}

#[test]
fn species_alone_has_nothing_else_set() {
    let text = "=== A ===\nPic: A\n\nMudkip\n";
    let parties = from_emerald_expansion_format(text).unwrap();
    let t = &parties.as_vec()[0];
    assert_eq!(t.name, "");
    let m = t.party[0].as_ref().unwrap();
    assert_eq!(m.species, "Mudkip");
    assert_eq!(m.gender, PokemonGender::Unspecified);
    assert_eq!(m.held_item, None);
    assert_eq!(m.level, None);
    assert_eq!(m.ivs, None);
    assert_eq!(m.evs, None);
    assert_eq!(m.ball, None);
    assert_eq!(m.happiness, None);
    assert_eq!(m.nature, None);
    assert!(!m.shiny);
    assert_eq!(m.tera_type, None);
    assert_eq!(m.move_1, None);
    assert!(t.party[1].is_none());
}

#[test]
fn empty_values_are_present_and_unknown_lines_are_passed_over() {
    let text = "=== A ===\nName:\nClass: \nSomething: else\nwhatever\n\nZubat\nAbility: Inner Focus\nShiny: Yes\nLevel: +7\n";
    let parties = from_emerald_expansion_format(text).unwrap();
    let t = &parties.as_vec()[0];
    assert_eq!(t.name, "");
    assert_eq!(t.class.as_deref(), Some(""));
    assert_eq!(t.music, None);
    let m = t.party[0].as_ref().unwrap();
    assert_eq!(m.level, Some(7));
    assert!(!m.shiny);
}

#[test]
fn the_last_of_two_lines_with_one_label_counts() {
    let text = "=== A ===\nName: First\nName:  Second\n";
    let parties = from_emerald_expansion_format(text).unwrap();
    assert_eq!(parties.as_vec()[0].name, " Second");
}

#[test]
fn trainers_come_in_the_order_of_the_text() {
    let text = "preamble\n=== A ===\nName: a\n\n\n=== B_2 ===\nName: b\n\nAbra\n\nKadabra\n\n\n=== C ===\nName: c\n=== not an id ===\n";
    let parties = from_emerald_expansion_format(text).unwrap();
    assert_eq!(parties.len(), 3);
    let v = parties.as_vec();
    assert_eq!(v[0].id, "A");
    assert_eq!(v[1].id, "B_2");
    assert_eq!(v[2].id, "C");
    assert!(v[0].party[0].is_none());
    assert_eq!(v[1].party[0].as_ref().unwrap().species, "Abra");
    assert_eq!(v[1].party[1].as_ref().unwrap().species, "Kadabra");
    assert!(v[1].party[2].is_none());
    assert!(v[2].party[0].is_none());
    assert_eq!(parties.get("B_2").unwrap().name, "b");
}

#[test]
fn six_members_fill_the_party() {
    let mut text = String::from("=== A ===\nName: A\nPic: A\n\n");
    for i in 0..6 {
        text.push_str(&format!("Zigzagoon\nLevel: {}\n\n", i + 1));
    }
    let parties = from_emerald_expansion_format(&text).unwrap();
    let t = &parties.as_vec()[0];
    for i in 0..6 {
        assert_eq!(t.party[i].as_ref().unwrap().level, Some(i as u8 + 1));
    }
}

#[test]
fn seven_members_are_too_many() {
    let mut text = String::from("=== A ===\nName: A\nPic: A\n\n");
    for _ in 0..7 {
        text.push_str("Zigzagoon\nLevel: 3\n\n");
    }
    match from_emerald_expansion_format(&text) {
        Err(PartyError::ParsingError(m)) => assert_eq!(m, "More than 6 pokemon found in party"),
        other => panic!("unexpected: {:?}", other.map(|p| p.len())),
    }
}

#[test]
fn a_fault_among_the_first_six_comes_before_their_number() {
    let mut text = String::from("=== A ===\nName: A\n\nAbra\nLevel: x\n\n");
    for _ in 0..6 {
        text.push_str("Zigzagoon\n\n");
    }
    match from_emerald_expansion_format(&text) {
        Err(PartyError::ParseIntError(t)) => assert_eq!(t, "x"),
        other => panic!("unexpected: {:?}", other.map(|p| p.len())),
    }
}

#[test]
fn member_without_species_is_refused() {
    for first in ["Level: 5", "- Tackle", " @ Leftovers", "(M)", "Mr. Mime", "Abra (MF)", "Abra @"] {
        let text = format!("=== A ===\nName: A\n\n{}\nLevel: 5\n", first);
        match from_emerald_expansion_format(&text) {
            Err(PartyError::ParsingError(m)) => assert_eq!(m, "Error parsing Pokemon species."),
            other => panic!("unexpected for {:?}: {:?}", first, other.map(|p| p.len())),
        }
    }
}

#[test]
fn block_without_fields_is_refused_with_its_id() {
    let text = "=== OK ===\nName: fine\n\n=== LOST_1 ===\nnothing here\n\nAbra\n";
    match from_emerald_expansion_format(text) {
        Err(PartyError::ParsingError(m)) => {
            assert_eq!(m, "Could not parse trainer fields of LOST_1")
        }
        other => panic!("unexpected: {:?}", other.map(|p| p.len())),
    }
}

#[test]
fn unknown_gender_code_is_refused() {
    let text = "=== A ===\nName: A\n\nAbra (X) @ Stick\n";
    match from_emerald_expansion_format(text) {
        Err(PartyError::GenderConversionError(c)) => assert_eq!(c, "X"),
        other => panic!("unexpected: {:?}", other.map(|p| p.len())),
    }
}

#[test]
fn level_and_happiness_must_be_small_numbers() {
    for (line, found) in [
        ("Level: 256", "256"),
        ("Level: ", ""),
        ("Level: 5 ", "5 "),
        ("Level: -1", "-1"),
        ("Happiness: 1000", "1000"),
        ("Happiness: ten", "ten"),
        ("Level: +", "+"),
    ] {
        let text = format!("=== A ===\nName: A\n\nAbra\n{}\n", line);
        match from_emerald_expansion_format(&text) {
            Err(PartyError::ParseIntError(t)) => assert_eq!(t, found),
            other => panic!("unexpected for {:?}: {:?}", line, other.map(|p| p.len())),
        }
    }
    let text = "=== A ===\nName: A\n\nAbra\nLevel: 000255\nHappiness: 0\n";
    let parties = from_emerald_expansion_format(text).unwrap();
    let m = parties.as_vec()[0].party[0].as_ref().unwrap();
    assert_eq!(m.level, Some(255));
    assert_eq!(m.happiness, Some(0));
}

#[test]
fn first_fault_in_the_text_is_reported() {
    let text = "=== A ===\nName: A\n\nAbra (Q)\nLevel: x\n\n=== B ===\nnothing\n";
    assert!(matches!(
        from_emerald_expansion_format(text),
        Err(PartyError::GenderConversionError(_))
    ));
}
