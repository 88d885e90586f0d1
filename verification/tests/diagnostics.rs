use nge::parties::emerald_expansion::diagnostics::lines_passed_over;

#[test]
fn nothing_is_passed_over_in_the_rival_scenario() {
    let text =
        "=== RIVAL1 ===\nName: Rival\nPic: Rival\nDouble Battle: No\n\nTorchic\nLevel: 5\n- Scratch\n";
    assert!(lines_passed_over(text).is_empty());
    assert!(lines_passed_over("").is_empty());
}

#[test]
fn unknown_lines_within_blocks_are_found_in_their_order() {
    let text = "before any block\n=== A ===\nName: a\nNickname: x\nwhat\n\nAbra\nAbility: Inner Focus\nLevel: 5\nShiny: Yes\nTimid Nature\nVery Timid Nature\n- Psychic\n\n\nZubat @ Stick\nnothing known\n=== B ===\n name: b\nPic: b\n";
    assert_eq!(
        lines_passed_over(text),
        vec![
            "Nickname: x",
            "what",
            "Ability: Inner Focus",
            "Shiny: Yes",
            "Very Timid Nature",
            "nothing known",
            " name: b",
        ]
    );
}

#[test]
fn first_lines_of_members_are_not_counted() {
    let text = "=== A ===\nName: a\n\n???\nLevel: 1\n";
    assert!(lines_passed_over(text).is_empty());
}
