use hunt_summary::attributes::AttributeEntry;
use hunt_summary::error::ExtractError;
use hunt_summary::pattern::{key_parts_from_groups, KeyParts, PlayerKeyPattern};
use hunt_summary::records::{PlayerField, PlayerRecord};
use hunt_summary::scan::{
    assemble_scanned, classify_key_parts, scan_player_fields, scanned_header_names, KeyVerdict,
};

fn entries(pairs: &[(&str, &str)]) -> Vec<AttributeEntry> {
    pairs.iter().map(|(n, v)| AttributeEntry::new(n, v)).collect()
}

fn field(team: u32, player: u32, name: &str, value: &str) -> PlayerField {
    PlayerField { team, player, field: name.to_string(), value: value.to_string() }
}

fn parts(team: &str, player: &str, name: &str) -> Option<KeyParts> {
    Some(KeyParts { team: team.to_string(), player: player.to_string(), field: name.to_string() })
}

fn captured(pattern: &PlayerKeyPattern, name: &str) -> Option<(String, String, String)> {
    pattern.captures(name).map(|p| (p.team, p.player, p.field))
}

fn triple(a: &str, b: &str, c: &str) -> Option<(String, String, String)> {
    Some((a.to_string(), b.to_string(), c.to_string()))
}

fn places(rows: &[PlayerRecord]) -> Vec<(u32, u32)> {
    rows.iter().map(|r| (r.team_index, r.player_index)).collect()
}

fn values(row: &PlayerRecord) -> Vec<(&str, &str)> {
    row.fields.iter().map(|(h, v)| (h.as_str(), v.as_str())).collect()
}

#[test]
fn pattern_takes_a_player_key_apart() {
    let pattern = PlayerKeyPattern::new().unwrap();
    assert_eq!(captured(&pattern, "MissionBagPlayer_0_0_mmr"), triple("0", "0", "mmr"));
    assert_eq!(
        captured(&pattern, "MissionBagPlayer_12_3_blood_line_name"),
        triple("12", "3", "blood_line_name")
    );
    assert_eq!(captured(&pattern, "MissionBagPlayer_007_1_x9"), triple("007", "1", "x9"));
}

#[test]
fn pattern_ignores_other_keys() {
    let pattern = PlayerKeyPattern::new().unwrap();
    assert_eq!(captured(&pattern, "MissionBagNumTeams"), None);
    assert_eq!(captured(&pattern, "MissionBagTeam_0_numplayers"), None);
    assert_eq!(captured(&pattern, "MissionBagPlayer_0_mmr"), None);
    assert_eq!(captured(&pattern, "MissionBagPlayer_0_0_"), None);
    assert_eq!(captured(&pattern, "MissionBagPlayer_a_0_mmr"), None);
    assert_eq!(captured(&pattern, "missionbagplayer_0_0_mmr"), None);
    assert_eq!(captured(&pattern, ""), None);
}

#[test]
fn pattern_is_searched_anywhere_in_the_name() {
    let pattern = PlayerKeyPattern::new().unwrap();
    assert_eq!(captured(&pattern, "Old/MissionBagPlayer_1_2_mmr value"), triple("1", "2", "mmr"));
}

#[test]
fn groups_of_another_shape_give_no_parts() {
    assert!(key_parts_from_groups(None).is_none());
    assert!(key_parts_from_groups(Some(vec![Some("whole".to_string())])).is_none());
    let missing = vec![Some("w".to_string()), Some("1".to_string()), None, Some("f".to_string())];
    assert!(key_parts_from_groups(Some(missing)).is_none());
    let full = vec![
        Some("w".to_string()),
        Some("1".to_string()),
        Some("2".to_string()),
        Some("f".to_string()),
    ];
    let got = key_parts_from_groups(Some(full)).unwrap();
    assert_eq!((got.team.as_str(), got.player.as_str(), got.field.as_str()), ("1", "2", "f"));
}

#[test]
fn classification_follows_team_and_player() {
    assert!(matches!(classify_key_parts(None, 5), KeyVerdict::Other));
    match classify_key_parts(parts("1", "2", "mmr"), 2) {
        KeyVerdict::Field { team, player, field } => {
            assert_eq!((team, player, field.as_str()), (1, 2, "mmr"))
        }
        other => panic!("unexpected {:?}", other),
    }
    assert!(matches!(classify_key_parts(parts("2", "0", "mmr"), 2), KeyVerdict::Other));
    assert!(matches!(classify_key_parts(parts("0", "0", "mmr"), 0), KeyVerdict::Other));
    assert!(matches!(classify_key_parts(parts("99999999999", "0", "mmr"), 2), KeyVerdict::Malformed));
    assert!(matches!(classify_key_parts(parts("\u{0663}", "0", "mmr"), 2), KeyVerdict::Malformed));
    assert!(matches!(classify_key_parts(parts("1", "99999999999", "mmr"), 2), KeyVerdict::Malformed));
    // the player of a team beyond the match is not looked at
    assert!(matches!(classify_key_parts(parts("2", "99999999999", "mmr"), 2), KeyVerdict::Other));
}

#[test]
fn scan_keeps_the_fields_of_the_declared_teams_in_order() {
    let pattern = PlayerKeyPattern::new().unwrap();
    let dump = entries(&[
        ("MissionBagNumTeams", "2"),
        ("MissionBagPlayer_0_0_mmr", "2700"),
        ("Unrelated", "x"),
        ("MissionBagPlayer_1_0_mmr", "2500"),
        ("MissionBagPlayer_2_0_mmr", "2400"),
        ("MissionBagPlayer_0_1_mmr", "2300"),
    ]);
    let fields = scan_player_fields(&pattern, &dump, 2).unwrap();
    let got: Vec<(u32, u32, &str, &str)> =
        fields.iter().map(|f| (f.team, f.player, f.field.as_str(), f.value.as_str())).collect();
    assert_eq!(got, vec![(0, 0, "mmr", "2700"), (1, 0, "mmr", "2500"), (0, 1, "mmr", "2300")]);
    assert!(scan_player_fields(&pattern, &dump, 0).unwrap().is_empty());
}

#[test]
fn scan_fails_on_the_first_malformed_key() {
    let pattern = PlayerKeyPattern::new().unwrap();
    let dump = entries(&[
        ("MissionBagPlayer_0_0_mmr", "1"),
        ("MissionBagPlayer_0_4294967296_mmr", "2"),
        ("MissionBagPlayer_4294967296_0_mmr", "3"),
    ]);
    match scan_player_fields(&pattern, &dump, 1) {
        Err(ExtractError::MalformedInput { key }) => {
            assert_eq!(key, "MissionBagPlayer_0_4294967296_mmr")
        }
        other => panic!("unexpected {:?}", other),
    }
}

#[test]
fn headers_come_from_the_first_slot_only() {
    let fields = vec![
        field(0, 0, "name", "a"),
        field(0, 0, "mmr", "1"),
        field(0, 1, "name", "b"),
        field(0, 0, "late", "x"),
    ];
    assert_eq!(scanned_header_names(&fields), vec!["name", "mmr"]);
    assert!(scanned_header_names(&[field(1, 0, "name", "a")].into_iter().collect()).is_empty());
    assert!(scanned_header_names(&Vec::new()).is_empty());
}

#[test]
fn rows_start_where_the_slot_changes() {
    let fields = vec![
        field(0, 0, "name", "a"),
        field(0, 0, "mmr", "1"),
        field(0, 1, "name", "b"),
        field(0, 1, "mmr", "2"),
        field(1, 0, "name", "c"),
        field(1, 0, "mmr", ""),
    ];
    let rows = assemble_scanned(&fields);
    assert_eq!(places(&rows), vec![(0, 0), (0, 1), (1, 0)]);
    assert_eq!(values(&rows[0]), vec![("name", "a"), ("mmr", "1")]);
    assert_eq!(values(&rows[1]), vec![("name", "b"), ("mmr", "2")]);
    assert_eq!(values(&rows[2]), vec![("name", "c"), ("mmr", "")]);
    assert!(assemble_scanned(&Vec::new()).is_empty());
}

#[test]
fn an_empty_first_field_hides_the_team_and_all_later_teams() {
    let fields = vec![
        field(0, 0, "name", "a"),
        field(0, 0, "mmr", "1"),
        field(1, 0, "name", ""),
        field(1, 0, "mmr", "7"),
        field(1, 1, "name", "ghost"),
        field(2, 0, "name", "c"),
        field(2, 0, "mmr", "3"),
        field(2, 1, "name", "d"),
    ];
    let rows = assemble_scanned(&fields);
    assert_eq!(places(&rows), vec![(0, 0)]);
    assert_eq!(values(&rows[0]), vec![("name", "a"), ("mmr", "1")]);
}

#[test]
fn an_empty_slot_of_a_later_player_ends_the_team_there() {
    let fields = vec![
        field(0, 0, "name", "a"),
        field(0, 1, "name", ""),
        field(0, 2, "name", "c"),
        field(1, 0, "name", "d"),
    ];
    assert_eq!(places(&assemble_scanned(&fields)), vec![(0, 0)]);
}

#[test]
fn an_empty_value_inside_a_slot_is_an_ordinary_value() {
    let fields = vec![field(0, 0, "name", "a"), field(0, 0, "mmr", ""), field(0, 1, "name", "b")];
    let rows = assemble_scanned(&fields);
    assert_eq!(places(&rows), vec![(0, 0), (0, 1)]);
    assert_eq!(values(&rows[0]), vec![("name", "a"), ("mmr", "")]);
}

#[test]
fn teams_below_a_hidden_team_are_still_read() {
    let fields = vec![
        field(1, 0, "name", ""),
        field(0, 0, "name", "a"),
        field(1, 1, "name", "b"),
        field(0, 1, "name", "c"),
    ];
    assert_eq!(places(&assemble_scanned(&fields)), vec![(0, 0), (0, 1)]);
}

#[test]
fn slots_are_told_apart_by_three_times_team_plus_player() {
    // player 3 of team 0 and player 0 of team 1 share a slot
    let fields = vec![field(0, 3, "name", "a"), field(1, 0, "name", "b")];
    let rows = assemble_scanned(&fields);
    assert_eq!(places(&rows), vec![(0, 3)]);
    assert_eq!(values(&rows[0]), vec![("name", "a"), ("name", "b")]);
}

#[test]
fn large_numbers_do_not_wrap() {
    let big = u32::MAX;
    let fields = vec![field(big - 1, big, "name", "a"), field(0, 0, "name", "b")];
    assert_eq!(places(&assemble_scanned(&fields)), vec![(big - 1, big), (0, 0)]);
}
