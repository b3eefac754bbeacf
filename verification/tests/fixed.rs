use hunt_summary::attributes::{AttributeEntry, AttributeIndex};
use hunt_summary::error::ExtractError;
use hunt_summary::fixed::{
    assemble_fixed, build_fixed_record, resolve_team_count, resolve_team_slots,
};
use hunt_summary::keys::{fixed_header, player_field_key, team_size_key};
use hunt_summary::records::TeamSlot;

fn player(dump: &mut Vec<AttributeEntry>, team: u32, player: u32) {
    for i in 0..17 {
        let key = player_field_key(team, player, fixed_header(i));
        let value = format!("v{}_{}_{}", team, player, i);
        dump.push(AttributeEntry::new(&key, &value));
    }
}

fn match_dump() -> Vec<AttributeEntry> {
    let mut dump = vec![
        AttributeEntry::new("MissionBagNumTeams", "2"),
        AttributeEntry::new("MissionBagTeam_0_numplayers", "1"),
        AttributeEntry::new("MissionBagTeam_1_numplayers", "2"),
    ];
    player(&mut dump, 0, 0);
    player(&mut dump, 1, 0);
    player(&mut dump, 1, 1);
    dump
}

#[test]
fn team_count_is_read_from_its_attribute() {
    let index = AttributeIndex::build(&match_dump());
    assert_eq!(resolve_team_count(&index).unwrap(), Some(2));
}

#[test]
fn a_dump_without_team_count_has_no_match_data() {
    let index = AttributeIndex::build(&vec![AttributeEntry::new("Other", "1")]);
    assert_eq!(resolve_team_count(&index).unwrap(), None);
}

#[test]
fn a_team_count_that_is_no_number_is_malformed() {
    for bad in ["", "two", "-1", "4294967296", "1.0"] {
        let index = AttributeIndex::build(&vec![AttributeEntry::new("MissionBagNumTeams", bad)]);
        match resolve_team_count(&index) {
            Err(ExtractError::MalformedInput { key }) => assert_eq!(key, "MissionBagNumTeams"),
            other => panic!("unexpected {:?}", other),
        }
    }
}

#[test]
fn team_slots_are_numbered_from_zero() {
    let index = AttributeIndex::build(&match_dump());
    let slots = resolve_team_slots(&index, 2).unwrap();
    assert_eq!(
        slots,
        vec![
            TeamSlot { team_index: 0, player_count: 1 },
            TeamSlot { team_index: 1, player_count: 2 }
        ]
    );
    assert!(resolve_team_slots(&index, 0).unwrap().is_empty());
}

#[test]
fn an_absent_team_size_is_malformed() {
    let index = AttributeIndex::build(&match_dump());
    match resolve_team_slots(&index, 3) {
        Err(ExtractError::MalformedInput { key }) => assert_eq!(key, team_size_key(2)),
        other => panic!("unexpected {:?}", other),
    }
}

#[test]
fn a_team_size_that_is_no_number_is_malformed() {
    let mut dump = match_dump();
    dump.push(AttributeEntry::new("MissionBagTeam_0_numplayers", "many"));
    let index = AttributeIndex::build(&dump);
    match resolve_team_slots(&index, 2) {
        Err(ExtractError::MalformedInput { key }) => assert_eq!(key, "MissionBagTeam_0_numplayers"),
        other => panic!("unexpected {:?}", other),
    }
}

#[test]
fn fixed_schema_yields_every_declared_player_in_order() {
    let index = AttributeIndex::build(&match_dump());
    let slots = resolve_team_slots(&index, 2).unwrap();
    let rows = assemble_fixed(&index, &slots).unwrap();
    let places: Vec<(u32, u32)> = rows.iter().map(|r| (r.team_index, r.player_index)).collect();
    assert_eq!(places, vec![(0, 0), (1, 0), (1, 1)]);
    for row in &rows {
        assert_eq!(row.fields.len(), 17);
        for i in 0..17 {
            assert_eq!(row.fields[i].0, fixed_header(i));
            assert_eq!(row.fields[i].1, format!("v{}_{}_{}", row.team_index, row.player_index, i));
        }
    }
}

#[test]
fn fixed_schema_does_not_skip_empty_players() {
    let mut dump = match_dump();
    dump.push(AttributeEntry::new("MissionBagPlayer_1_0_blood_line_name", ""));
    let index = AttributeIndex::build(&dump);
    let slots = resolve_team_slots(&index, 2).unwrap();
    let rows = assemble_fixed(&index, &slots).unwrap();
    assert_eq!(rows.len(), 3);
    assert_eq!(rows[1].fields[0].1, "");
}

#[test]
fn any_absent_field_fails_with_missing_field() {
    for (team, player_index) in [(0u32, 0u32), (1, 0), (1, 1)] {
        for i in 0..17 {
            let absent = player_field_key(team, player_index, fixed_header(i));
            let dump: Vec<AttributeEntry> =
                match_dump().into_iter().filter(|e| e.name != absent).collect();
            let index = AttributeIndex::build(&dump);
            let slots = resolve_team_slots(&index, 2).unwrap();
            match assemble_fixed(&index, &slots) {
                Err(ExtractError::MissingField { key }) => assert_eq!(key, absent),
                other => panic!("unexpected {:?}", other),
            }
        }
    }
}

#[test]
fn the_first_absent_field_is_named() {
    let dump: Vec<AttributeEntry> = match_dump()
        .into_iter()
        .filter(|e| e.name != "MissionBagPlayer_1_1_mmr" && e.name != "MissionBagPlayer_1_0_profileid")
        .collect();
    let index = AttributeIndex::build(&dump);
    let slots = resolve_team_slots(&index, 2).unwrap();
    match assemble_fixed(&index, &slots) {
        Err(ExtractError::MissingField { key }) => assert_eq!(key, "MissionBagPlayer_1_0_profileid"),
        other => panic!("unexpected {:?}", other),
    }
}

#[test]
fn slots_are_read_as_given() {
    let index = AttributeIndex::build(&match_dump());
    let slots = vec![TeamSlot { team_index: 1, player_count: 1 }];
    let rows = assemble_fixed(&index, &slots).unwrap();
    assert_eq!(rows.len(), 1);
    assert_eq!((rows[0].team_index, rows[0].player_index), (1, 0));
    assert!(assemble_fixed(&index, &Vec::new()).unwrap().is_empty());
}

#[test]
fn one_record_holds_the_fields_of_one_player() {
    let index = AttributeIndex::build(&match_dump());
    let record = build_fixed_record(&index, 1, 1).unwrap();
    assert_eq!((record.team_index, record.player_index), (1, 1));
    assert_eq!(record.fields[16], ("profileid".to_string(), "v1_1_16".to_string()));
    match build_fixed_record(&index, 0, 1) {
        Err(ExtractError::MissingField { key }) => {
            assert_eq!(key, "MissionBagPlayer_0_1_blood_line_name")
        }
        other => panic!("unexpected {:?}", other),
    }
}
