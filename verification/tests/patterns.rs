use nge::parties::emerald_expansion::{
    from_emerald_expansion_format, from_emerald_expansion_format_config, ParsingConfig,
};
use nge::parties::error::PartyError;
use nge::parties::party::PokemonGender;

const TRAINER: &str =
    r"=== (?<name>[A-Z0-9_]+) ===\n(?<details>(?:[\w: /]+\n)+)\n+(?<mons>(?:[\w: /@\-\n()]+)*)";

const FIELDS: &str = r"(?:(?:Name: ?(?<name>[\w ]+)?\n?)|(?:Class: (?<class>[\w ]+)\n?)|(?:Pic: (?<pic>[\w ]+)\n?)|(?:Gender: (?<gender>[\w ]+)\n?)|(?:Music: (?<music>[\w ]+)\n?)|(?:Items: (?<items>[\w /]+)\n?)|(?:Double Battle: (?<double_battle>[\w ]+)\n?)|(?:AI: (?<ai>[\w ]+)\n?)|(?:Mugshot: (?<mugshot>[\w ]+)\n?)|(?:Starting Status: (?<starting_status>[\w ]+)\n?))+";

const POKEMON: &str = r"(?<species>[\w-]+)(?: (?:\((?<gender>[MFX])\))? ?(?:@ (?<held_item>[\w ]+))?)?\n(?:(?:Level+: (?<level>[0-9a-z]+))\n|(?:Tera Type: (?<tera_type>[\w]+))\n|(?:EVs: (?<effort_values>[\w/ ]+))\n|(?:IVs: (?<individual_values>[\w/ ]+))\n|(?:Shiny: (?<shiny>[\w]+))\n|(?:Ball: (?<ball>[\w]+))\n|(?:Happiness: (?<happiness>[0-9]+))\n|(?:(?<nature>[\w]+) Nature\n))+(?:- (?<move_1>[\w ]+)\n?)?(?:- (?<move_2>[\w ]+)\n?)?(?:- (?<move_3>[\w ]+)\n?)?(?:- (?<move_4>[\w ]+)\n?)?";

const RIVAL: &str =
    "=== RIVAL1 ===\nName: Rival\nPic: Rival\nDouble Battle: No\n\nTorchic\nLevel: 5\n- Scratch\n";

fn config() -> ParsingConfig {
    ParsingConfig::with_patterns(TRAINER, FIELDS, POKEMON)
}

#[test]
fn default_grammar_is_the_grammar_of_the_library() {
    let by_config =
        from_emerald_expansion_format_config(RIVAL, &ParsingConfig::default()).unwrap();
    let direct = from_emerald_expansion_format(RIVAL).unwrap();
    assert_eq!(format!("{:?}", by_config.as_vec()), format!("{:?}", direct.as_vec()));
    assert!(matches!(
        from_emerald_expansion_format_config("=== A ===\nx\n", &ParsingConfig::default()),
        Err(PartyError::ParsingError(_))
    ));
}

#[test]
fn patterns_read_the_rival_scenario() {
    let parties = from_emerald_expansion_format_config(RIVAL, &config()).unwrap();
    let direct = from_emerald_expansion_format(RIVAL).unwrap();
    assert_eq!(parties.len(), 1);
    assert_eq!(format!("{:?}", parties.as_vec()), format!("{:?}", direct.as_vec()));
    assert_eq!(parties.get("RIVAL1").unwrap().name, "Rival");
}

#[test]
fn patterns_capture_every_field() {
    let text = "=== LEADER_2 ===\nName: Roxanne\nPic: Rox\nClass: Leader\nGender: Female\nMusic: Gym\nItems: Potion / Full Heal\nDouble Battle: Yes\nAI: Smart\nMugshot: Purple\nStarting Status: Tailwind\n\nNosepass (F) @ Oran Berry\nLevel: 15\nIVs: 31 HP\nEVs: 252 HP / 4 Def\nBall: Great\nHappiness: 200\nHardy Nature\nShiny: Yes\nTera Type: Rock\n- Tackle\n- Rock Tomb\n- Harden\n- Block\n\nGeodude\nLevel: 3\n\n=== B ===\nName: b\n\n";
    let parties = from_emerald_expansion_format_config(text, &config()).unwrap();
    assert_eq!(parties.len(), 2);
    let t = &parties.as_vec()[0];
    assert_eq!(t.id, "LEADER_2");
    assert_eq!(t.name, "Roxanne");
    assert_eq!(t.pic, "Rox");
    assert_eq!(t.class.as_deref(), Some("Leader"));
    assert_eq!(t.gender.as_deref(), Some("Female"));
    assert_eq!(t.music.as_deref(), Some("Gym"));
    assert_eq!(t.items.as_deref(), Some("Potion / Full Heal"));
    assert!(t.double_battle);
    assert_eq!(t.ai.as_deref(), Some("Smart"));
    assert_eq!(t.mugshot.as_deref(), Some("Purple"));
    assert_eq!(t.starting_status.as_deref(), Some("Tailwind"));
    let m = t.party[0].as_ref().unwrap();
    assert_eq!(m.species, "Nosepass");
    assert_eq!(m.gender, PokemonGender::Female);
    assert_eq!(m.held_item.as_deref(), Some("Oran Berry"));
    assert_eq!(m.level, Some(15));
    assert_eq!(m.ivs.as_deref(), Some("31 HP"));
    assert_eq!(m.evs.as_deref(), Some("252 HP / 4 Def"));
    assert_eq!(m.ball.as_deref(), Some("Great"));
    assert_eq!(m.happiness, Some(200));
    assert_eq!(m.nature.as_deref(), Some("Hardy"));
    assert!(m.shiny);
    assert_eq!(m.tera_type.as_deref(), Some("Rock"));
    assert_eq!(m.move_1.as_deref(), Some("Tackle"));
    assert_eq!(m.move_2.as_deref(), Some("Rock Tomb"));
    assert_eq!(m.move_3.as_deref(), Some("Harden"));
    assert_eq!(m.move_4.as_deref(), Some("Block"));
    let g = t.party[1].as_ref().unwrap();
    assert_eq!(g.species, "Geodude");
    assert_eq!(g.level, Some(3));
    assert!(!g.shiny);
    assert!(t.party[2].is_none());
    assert_eq!(parties.as_vec()[1].id, "B");
    assert!(parties.as_vec()[1].party[0].is_none());
}

#[test]
fn pattern_that_is_no_regular_expression_is_reported() {
    let text = "=== A ===\nName: a\n\n";
    for (cfg, bad) in [
        (ParsingConfig::with_patterns("(", FIELDS, POKEMON), "("),
        (ParsingConfig::with_patterns(TRAINER, "[a", POKEMON), "[a"),
        (ParsingConfig::with_patterns(TRAINER, FIELDS, "(?<x"), "(?<x"),
        (ParsingConfig::with_patterns("(", "[a", "(?<x"), "("),
    ] {
        match from_emerald_expansion_format_config(text, &cfg) {
            Err(PartyError::GrammarCompileError(p)) => assert_eq!(p, bad),
            other => panic!("unexpected: {:?}", other.map(|p| p.len())),
        }
        match from_emerald_expansion_format_config("", &cfg) {
            Err(PartyError::GrammarCompileError(p)) => assert_eq!(p, bad),
            other => panic!("unexpected: {:?}", other.map(|p| p.len())),
        }
    }
}

#[test]
fn first_pattern_without_its_groups_is_reported() {
    let pattern = r"=== (?<name>[A-Z]+) ===\n(?<details>[^=]*)";
    let cfg = ParsingConfig::with_patterns(pattern, FIELDS, POKEMON);
    match from_emerald_expansion_format_config("=== A ===\nName: a\n", &cfg) {
        Err(PartyError::GrammarCompileError(p)) => assert_eq!(p, pattern),
        other => panic!("unexpected: {:?}", other.map(|p| p.len())),
    }
    assert_eq!(from_emerald_expansion_format_config("nothing", &cfg).unwrap().len(), 0);
}

#[test]
fn faults_of_the_text_are_the_same_under_patterns() {
    let cfg = config();
    let header = "=== A ===\nName: a\n\n";
    match from_emerald_expansion_format_config(&format!("{}Abra\nLevel: 999\n", header), &cfg) {
        Err(PartyError::ParseIntError(t)) => assert_eq!(t, "999"),
        other => panic!("unexpected: {:?}", other.map(|p| p.len())),
    }
    match from_emerald_expansion_format_config(&format!("{}Abra\nLevel: abc\n", header), &cfg) {
        Err(PartyError::ParseIntError(t)) => assert_eq!(t, "abc"),
        other => panic!("unexpected: {:?}", other.map(|p| p.len())),
    }
    match from_emerald_expansion_format_config(&format!("{}Abra (X)\nLevel: 1\n", header), &cfg) {
        Err(PartyError::GenderConversionError(c)) => assert_eq!(c, "X"),
        other => panic!("unexpected: {:?}", other.map(|p| p.len())),
    }
    let mut many = String::from(header);
    for _ in 0..7 {
        many.push_str("Abra\nLevel: 1\n\n");
    }
    match from_emerald_expansion_format_config(&many, &cfg) {
        Err(PartyError::ParsingError(m)) => assert_eq!(m, "More than 6 pokemon found in party"),
        other => panic!("unexpected: {:?}", other.map(|p| p.len())),
    }
    let no_species = ParsingConfig::with_patterns(TRAINER, FIELDS, r"Level: (?<level>[0-9]+)");
    match from_emerald_expansion_format_config(&format!("{}Abra\nLevel: 1\n", header), &no_species)
    {
        Err(PartyError::ParsingError(m)) => assert_eq!(m, "Error parsing Pokemon species."),
        other => panic!("unexpected: {:?}", other.map(|p| p.len())),
    }
    let no_fields = ParsingConfig::with_patterns(TRAINER, r"Nothing: (?<name>x)", POKEMON);
    match from_emerald_expansion_format_config(&format!("{}Abra\nLevel: 1\n", header), &no_fields)
    {
        Err(PartyError::ParsingError(m)) => assert_eq!(m, "Could not parse trainer fields of A"),
        other => panic!("unexpected: {:?}", other.map(|p| p.len())),
    }
}
