use roleman::history::{build_stats, format_entry, new_entry, ranking_applies, recent_entries};
use roleman::{HistoryEntry, RoleChoice};

fn entry(at: i64, account: &str, role: &str, cwd: Option<&str>) -> HistoryEntry {
    HistoryEntry {
        selected_at_unix: at,
        identity: "work".into(),
        account_id: account.into(),
        account_name: "A".into(),
        role_name: role.into(),
        cwd: cwd.map(|c| c.to_string()),
    }
}

#[test]
fn stats_for_context_example() {
    let now = 1_700_000_000;
    let entries = vec![
        entry(now - 10 * 86_400, "111", "Admin", Some("/tmp/cwd-a")),
        entry(now - 8 * 86_400, "222", "Admin", Some("/tmp/cwd-b")),
    ];
    let stats = build_stats(&entries, "work", now, Some("/tmp/cwd-a"));
    assert_eq!(stats.len(), 2);
    assert_eq!(stats[0].account_id, "111");
    assert_eq!(stats[0].min_age_secs, 10 * 86_400);
    assert!(stats[0].cwd_matches);
    assert_eq!(stats[1].min_age_secs, 8 * 86_400);
    assert!(!stats[1].cwd_matches);

    let score = |age_secs: i64, count: u32, here: bool| {
        let recency = (-(age_secs as f64 / 86_400.0) / 14.0).exp();
        let frequency = ((count as f64) + 1.0).ln() / 31.0_f64.ln();
        0.60 * recency + 0.30 * frequency + if here { 0.10 } else { 0.0 }
    };
    let first = score(stats[0].min_age_secs, stats[0].frequency_30d, stats[0].cwd_matches);
    let second = score(stats[1].min_age_secs, stats[1].frequency_30d, stats[1].cwd_matches);
    assert!(first > second);
}

#[test]
fn stats_aggregate_per_pair_and_identity() {
    let now = 1_700_000_000;
    let mut other = entry(now, "111", "Admin", None);
    other.identity = "home".into();
    let entries = vec![
        entry(now - 40 * 86_400, "111", "Admin", None),
        entry(now - 5, "111", "Admin", None),
        entry(now - 100, "111", "Admin", None),
        other,
    ];
    let stats = build_stats(&entries, "work", now, None);
    assert_eq!(stats.len(), 1);
    assert_eq!(stats[0].min_age_secs, 5);
    assert_eq!(stats[0].frequency_30d, 2);
    assert!(!stats[0].cwd_matches);
}

#[test]
fn recent_entries_newest_first() {
    let entries = vec![entry(1, "a", "r", None), entry(3, "b", "r", None), entry(2, "c", "r", None)];
    let recent = recent_entries(entries.clone(), 2);
    assert_eq!(recent.len(), 2);
    assert_eq!(recent[0].account_id, "b");
    assert_eq!(recent[1].account_id, "c");
    assert_eq!(recent_entries(entries, 10).len(), 3);
}

#[test]
fn formats_entries() {
    let e = entry(0, "111", "Admin", None);
    assert_eq!(format_entry(&e), "1970-01-01T00:00:00Z\twork\t111\tAdmin\t-");
    let choice = RoleChoice { account_id: "9".into(), account_name: "N".into(), role_name: "R".into() };
    let made = new_entry("work", &choice, 5, Some("/x".into()));
    assert_eq!(made.cwd.as_deref(), Some("/x"));
    assert_eq!(made.selected_at_unix, 5);
}

#[test]
fn query_disables_ranking() {
    assert!(ranking_applies(None));
    assert!(ranking_applies(Some("   ")));
    assert!(!ranking_applies(Some(" admin ")));
}

#[test]
fn recent_entries_keep_order_within_a_second() {
    let entries = vec![entry(7, "first", "r", None), entry(9, "newest", "r", None), entry(7, "second", "r", None)];
    let recent = recent_entries(entries, 3);
    let ids: Vec<&str> = recent.iter().map(|e| e.account_id.as_str()).collect();
    assert_eq!(ids, vec!["newest", "first", "second"]);
}
