use hunt_summary::attributes::AttributeEntry;
use hunt_summary::error::ExtractError;
use hunt_summary::extract::{extract, extract_fixed, extract_scanned, Extraction, Strategy};
use hunt_summary::keys::{fixed_header, player_field_key};
use hunt_summary::pattern::PlayerKeyPattern;
use hunt_summary::records::PlayerRecord;
use hunt_summary::render::{render_header_line, render_row_line, render_snapshot};

fn entries(pairs: &[(&str, &str)]) -> Vec<AttributeEntry> {
    pairs.iter().map(|(n, v)| AttributeEntry::new(n, v)).collect()
}

fn text_of(r: Result<Extraction, ExtractError>) -> String {
    match r {
        Ok(Extraction::Snapshot(text)) => text,
        other => panic!("unexpected {:?}", other),
    }
}

fn record(team: u32, player: u32, values: &[&str]) -> PlayerRecord {
    PlayerRecord {
        team_index: team,
        player_index: player,
        fields: values.iter().map(|v| ("h".to_string(), v.to_string())).collect(),
    }
}

fn fixed_dump() -> Vec<AttributeEntry> {
    let mut dump = entries(&[
        ("MissionBagNumTeams", "2"),
        ("MissionBagTeam_0_numplayers", "1"),
        ("MissionBagTeam_1_numplayers", "2"),
    ]);
    for (team, player) in [(0u32, 0u32), (1, 0), (1, 1)] {
        for i in 0..17 {
            let key = player_field_key(team, player, fixed_header(i));
            dump.push(AttributeEntry::new(&key, &format!("{}{}{}", team, player, i)));
        }
    }
    dump
}

fn scanned_dump() -> Vec<AttributeEntry> {
    entries(&[
        ("MissionBagNumTeams", "3"),
        ("MissionBagPlayer_0_0_blood_line_name", "Ann"),
        ("MissionBagPlayer_0_0_mmr", "2700"),
        ("MissionBagPlayer_0_1_blood_line_name", "Bob"),
        ("MissionBagPlayer_0_1_mmr", "2600"),
        ("MissionBagPlayer_1_0_blood_line_name", ""),
        ("MissionBagPlayer_1_0_mmr", "0"),
        ("MissionBagPlayer_2_0_blood_line_name", "Cid"),
        ("MissionBagPlayer_2_0_mmr", "2500"),
        ("MissionBagPlayer_3_0_blood_line_name", "Dan"),
        ("MissionBagTeam_0_numplayers", "2"),
    ])
}

fn columns(text: &str) -> Vec<(u64, u64, String)> {
    text.lines()
        .skip(1)
        .map(|line| {
            let mut cells = line.splitn(3, ',');
            let team = cells.next().unwrap().parse().unwrap();
            let player = cells.next().unwrap().parse().unwrap();
            (team, player, cells.next().unwrap_or("").to_string())
        })
        .collect()
}

#[test]
fn header_line_names_the_columns() {
    assert_eq!(render_header_line(&Vec::new()), "Team,Player");
    assert_eq!(
        render_header_line(&vec!["name".to_string(), "mmr".to_string()]),
        "Team,Player,name,mmr"
    );
}

#[test]
fn row_line_counts_from_one_or_from_zero() {
    let row = record(0, 2, &["Ann", "2700"]);
    assert_eq!(render_row_line(&row, false), "1,3,Ann,2700");
    assert_eq!(render_row_line(&row, true), "0,2,Ann,2700");
    assert_eq!(render_row_line(&record(4, 0, &[]), false), "5,1");
    let last = record(u32::MAX, u32::MAX, &["x"]);
    assert_eq!(render_row_line(&last, false), "4294967296,4294967296,x");
}

#[test]
fn values_are_written_as_they_are() {
    let row = record(0, 0, &["a,b", "", "line\nbreak", "\"q\""]);
    assert_eq!(render_row_line(&row, true), "0,0,a,b,,line\nbreak,\"q\"");
}

#[test]
fn snapshot_has_no_trailing_newline() {
    let headers = vec!["name".to_string()];
    let rows = vec![record(0, 0, &["Ann"]), record(0, 1, &["Bob"])];
    assert_eq!(render_snapshot(&headers, &rows, false), "Team,Player,name\n1,1,Ann\n1,2,Bob");
    assert_eq!(render_snapshot(&headers, &Vec::new(), false), "Team,Player,name");
}

#[test]
fn fixed_extraction_renders_the_whole_table() {
    let text = text_of(extract_fixed(&fixed_dump(), true));
    let lines: Vec<&str> = text.lines().collect();
    assert_eq!(lines.len(), 4);
    assert_eq!(
        lines[0],
        "Team,Player,blood_line_name,mmr,skillbased,downedbyme,killedbyme,downedbyteammate,\
         killedbyteammate,downedme,killedme,downedteammate,killedteammate,proximitytome,\
         proximitytoteammate,bountypickedup,bountyextracted,teamextraction,profileid"
    );
    assert_eq!(lines[1], "0,0,000,001,002,003,004,005,006,007,008,009,0010,0011,0012,0013,0014,0015,0016");
    assert!(lines[2].starts_with("1,0,100,101,"));
    assert!(lines[3].starts_with("1,1,110,111,"));
    assert!(!text.ends_with('\n'));
}

#[test]
fn fixed_extraction_of_no_teams_is_the_header_alone() {
    let text = text_of(extract_fixed(&entries(&[("MissionBagNumTeams", "0")]), false));
    assert_eq!(text.lines().count(), 1);
    assert!(text.starts_with("Team,Player,blood_line_name,"));
}

#[test]
fn one_based_columns_are_one_more_than_zero_based() {
    let pattern = PlayerKeyPattern::new().unwrap();
    let pairs = [
        (text_of(extract_fixed(&fixed_dump(), false)), text_of(extract_fixed(&fixed_dump(), true))),
        (
            text_of(extract_scanned(&pattern, &scanned_dump(), false)),
            text_of(extract_scanned(&pattern, &scanned_dump(), true)),
        ),
    ];
    for (one, zero) in pairs {
        assert_eq!(one.lines().next(), zero.lines().next());
        let (one, zero) = (columns(&one), columns(&zero));
        assert_eq!(one.len(), zero.len());
        assert!(!one.is_empty());
        for (a, b) in one.iter().zip(zero.iter()) {
            assert_eq!(a.0, b.0 + 1);
            assert_eq!(a.1, b.1 + 1);
            assert_eq!(a.2, b.2);
        }
    }
}

#[test]
fn a_dump_without_team_count_yields_no_match_data() {
    let pattern = PlayerKeyPattern::new().unwrap();
    let dump = entries(&[("MissionBagPlayer_0_0_mmr", "1"), ("MissionBagTeam_0_numplayers", "1")]);
    assert!(matches!(extract_fixed(&dump, false), Ok(Extraction::NoMatchData)));
    assert!(matches!(extract_scanned(&pattern, &dump, false), Ok(Extraction::NoMatchData)));
    assert!(matches!(extract(Strategy::ExplicitCount, &dump, true), Ok(Extraction::NoMatchData)));
    assert!(matches!(extract(Strategy::PatternScanned, &dump, true), Ok(Extraction::NoMatchData)));
    assert!(matches!(extract_fixed(&Vec::new(), false), Ok(Extraction::NoMatchData)));
}

#[test]
fn scanned_extraction_hides_the_empty_team_and_those_after_it() {
    let pattern = PlayerKeyPattern::new().unwrap();
    let text = text_of(extract_scanned(&pattern, &scanned_dump(), false));
    assert_eq!(text, "Team,Player,blood_line_name,mmr\n1,1,Ann,2700\n1,2,Bob,2600");
    let zero = text_of(extract(Strategy::PatternScanned, &scanned_dump(), true));
    assert_eq!(zero, "Team,Player,blood_line_name,mmr\n0,0,Ann,2700\n0,1,Bob,2600");
}

#[test]
fn scanned_extraction_reads_the_last_team_count() {
    let pattern = PlayerKeyPattern::new().unwrap();
    let dump = entries(&[
        ("MissionBagNumTeams", "1"),
        ("MissionBagPlayer_0_0_n", "a"),
        ("MissionBagPlayer_1_0_n", "b"),
        ("MissionBagNumTeams", "2"),
    ]);
    assert_eq!(text_of(extract_scanned(&pattern, &dump, true)), "Team,Player,n\n0,0,a\n1,0,b");
}

#[test]
fn malformed_counts_fail_with_their_key() {
    let pattern = PlayerKeyPattern::new().unwrap();
    let dump = entries(&[("MissionBagNumTeams", "x")]);
    for r in [extract_fixed(&dump, false), extract_scanned(&pattern, &dump, false)] {
        match r {
            Err(e) => {
                assert!(matches!(e, ExtractError::MalformedInput { .. }));
                assert_eq!(e.key(), "MissionBagNumTeams");
            }
            other => panic!("unexpected {:?}", other),
        }
    }
    let dump = entries(&[("MissionBagNumTeams", "1"), ("MissionBagTeam_0_numplayers", "-")]);
    match extract_fixed(&dump, false) {
        Err(ExtractError::MalformedInput { key }) => assert_eq!(key, "MissionBagTeam_0_numplayers"),
        other => panic!("unexpected {:?}", other),
    }
}

#[test]
fn an_absent_field_fails_the_whole_extraction() {
    let dump: Vec<AttributeEntry> =
        fixed_dump().into_iter().filter(|e| e.name != "MissionBagPlayer_1_1_killedme").collect();
    match extract(Strategy::ExplicitCount, &dump, false) {
        Err(e) => {
            assert!(matches!(e, ExtractError::MissingField { .. }));
            assert_eq!(e.key(), "MissionBagPlayer_1_1_killedme");
        }
        other => panic!("unexpected {:?}", other),
    }
}

#[test]
fn extraction_is_the_same_for_the_same_dump() {
    assert_eq!(text_of(extract_fixed(&fixed_dump(), false)), text_of(extract_fixed(&fixed_dump(), false)));
    let a = text_of(extract(Strategy::PatternScanned, &scanned_dump(), false));
    let b = text_of(extract(Strategy::PatternScanned, &scanned_dump(), false));
    assert_eq!(a, b);
}

#[test]
fn error_without_a_key_has_the_empty_key() {
    assert_eq!(ExtractError::PatternRejected.key(), "");
}
