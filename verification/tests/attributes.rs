use hunt_summary::attributes::{AttributeEntry, AttributeIndex};
use hunt_summary::keys::{
    fixed_header, fixed_header_names, player_field_key, team_count_key, team_size_key,
    FIXED_HEADER_COUNT,
};

fn entries(pairs: &[(&str, &str)]) -> Vec<AttributeEntry> {
    pairs.iter().map(|(n, v)| AttributeEntry::new(n, v)).collect()
}

#[test]
fn index_finds_each_name() {
    let index = AttributeIndex::build(&entries(&[("a", "1"), ("b", "2"), ("c", "")]));
    assert_eq!(index.get("a").map(|s| s.as_str()), Some("1"));
    assert_eq!(index.get("b").map(|s| s.as_str()), Some("2"));
    assert_eq!(index.get("c").map(|s| s.as_str()), Some(""));
    assert_eq!(index.get("d"), None);
    assert!(index.contains("a"));
    assert!(!index.contains("A"));
}

#[test]
fn index_keeps_the_last_value_of_a_repeated_name() {
    let index = AttributeIndex::build(&entries(&[("a", "first"), ("b", "x"), ("a", "last")]));
    assert_eq!(index.get("a").map(|s| s.as_str()), Some("last"));
    assert_eq!(index.get("b").map(|s| s.as_str()), Some("x"));
}

#[test]
fn index_of_an_empty_dump_is_empty() {
    let index = AttributeIndex::build(&Vec::new());
    assert_eq!(index.get(""), None);
    assert!(!index.contains("MissionBagNumTeams"));
}

#[test]
fn entry_holds_name_and_value() {
    let e = AttributeEntry::new("name", "value");
    assert_eq!(e.name, "name");
    assert_eq!(e.value, "value");
}

#[test]
fn key_names_are_exact() {
    assert_eq!(team_count_key(), "MissionBagNumTeams");
    assert_eq!(team_size_key(0), "MissionBagTeam_0_numplayers");
    assert_eq!(team_size_key(12), "MissionBagTeam_12_numplayers");
    assert_eq!(team_size_key(u32::MAX), "MissionBagTeam_4294967295_numplayers");
    assert_eq!(player_field_key(0, 0, "mmr"), "MissionBagPlayer_0_0_mmr");
    assert_eq!(player_field_key(3, 10, "profileid"), "MissionBagPlayer_3_10_profileid");
    assert_eq!(player_field_key(1, 2, ""), "MissionBagPlayer_1_2_");
}

#[test]
fn fixed_schema_has_its_seventeen_fields_in_order() {
    let expected = [
        "blood_line_name",
        "mmr",
        "skillbased",
        "downedbyme",
        "killedbyme",
        "downedbyteammate",
        "killedbyteammate",
        "downedme",
        "killedme",
        "downedteammate",
        "killedteammate",
        "proximitytome",
        "proximitytoteammate",
        "bountypickedup",
        "bountyextracted",
        "teamextraction",
        "profileid",
    ];
    assert_eq!(FIXED_HEADER_COUNT, 17);
    let names = fixed_header_names();
    assert_eq!(names.len(), 17);
    for i in 0..17 {
        assert_eq!(fixed_header(i), expected[i]);
        assert_eq!(names[i], expected[i]);
    }
}
