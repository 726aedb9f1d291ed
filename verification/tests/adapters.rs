use find_similar::ext::{
    records_from_rows, rows_from_records, DbBackend, DbOptions, RawIssueFeaturesRecord,
};
use find_similar::feature::{IssueFeatures, IssueFeaturesRecord};
use find_similar::store::IssueFeatureStore;

fn options(url: &str) -> DbOptions {
    DbOptions { url: url.to_string(), table: "issue_features".to_string() }
}

fn row(id: &str, operation: Option<&str>, phenomenon: Option<&str>) -> RawIssueFeaturesRecord {
    RawIssueFeaturesRecord {
        issue_id: id.to_string(),
        operation: operation.map(|s| s.to_string()),
        phenomenon: phenomenon.map(|s| s.to_string()),
        expected_behavior: None,
        actual_behavior: None,
    }
}

#[test]
fn select_statement_names_the_table() {
    assert_eq!(
        options("sqlite:./assets/issue_mgr.db").select_statement(),
        "select issue_id, operation, phenomenon, expected_behavior, actual_behavior from issue_features"
    );
}

#[test]
fn backend_goes_by_the_beginning_of_the_url() {
    assert_eq!(options("mysql://root@localhost/db").backend(), Ok(DbBackend::MySql));
    assert_eq!(options("postgres://localhost/db").backend(), Ok(DbBackend::Postgres));
    assert_eq!(options("sqlite:./assets/issue_mgr.db").backend(), Ok(DbBackend::Sqlite));
    assert_eq!(options("sqlite:").backend(), Ok(DbBackend::Sqlite));
}

#[test]
fn unsupported_url_is_refused_with_its_scheme() {
    assert_eq!(options("oracle://localhost/db").backend(), Err("oracle".to_string()));
    assert_eq!(options("mysql").backend(), Err(String::new()));
    assert_eq!(options("").backend(), Err(String::new()));
    assert_eq!(options(":memory:").backend(), Err(String::new()));
    assert_eq!(options("postgresql://localhost").backend(), Err("postgresql".to_string()));
    assert_eq!(options("MySQL:db").backend(), Err("MySQL".to_string()));
    assert_eq!(options("süß:db:x").backend(), Err("süß".to_string()));
}

#[test]
fn row_becomes_record_and_back() {
    let raw = RawIssueFeaturesRecord {
        issue_id: "1".to_string(),
        operation: Some("Turn on the switch".to_string()),
        phenomenon: None,
        expected_behavior: Some("The device is turned on".to_string()),
        actual_behavior: Some("The device is not turned on".to_string()),
    };
    let record = raw.into_record();
    assert_eq!(
        record,
        IssueFeaturesRecord {
            issue_id: "1".to_string(),
            features: IssueFeatures {
                operation: Some("Turn on the switch".to_string()),
                phenomenon: None,
                expected_behavior: Some("The device is turned on".to_string()),
                actual_behavior: Some("The device is not turned on".to_string()),
            },
        }
    );
    let back = RawIssueFeaturesRecord::from_record(&record);
    assert_eq!(back.issue_id, "1");
    assert_eq!(back.operation.as_deref(), Some("Turn on the switch"));
    assert_eq!(back.phenomenon, None);
    assert_eq!(back.expected_behavior.as_deref(), Some("The device is turned on"));
    assert_eq!(back.actual_behavior.as_deref(), Some("The device is not turned on"));
}

#[test]
fn rows_keep_their_order() {
    let rows = vec![row("a", Some("x"), None), row("b", None, Some("y")), row("c", None, None)];
    let records = records_from_rows(rows);
    let ids: Vec<&str> = records.iter().map(|r| r.issue_id.as_str()).collect();
    assert_eq!(ids, vec!["a", "b", "c"]);
    assert_eq!(records[1].features.phenomenon.as_deref(), Some("y"));
    let rows = rows_from_records(&records);
    let ids: Vec<&str> = rows.iter().map(|r| r.issue_id.as_str()).collect();
    assert_eq!(ids, vec!["a", "b", "c"]);
    assert_eq!(rows[0].operation.as_deref(), Some("x"));
}

#[test]
fn store_from_rows_holds_the_valid_ones() {
    let store = IssueFeatureStore::from_rows(vec![
        row("1", Some("Turn on the switch"), None),
        row("", Some("Turn on the switch"), None),
        row("3", None, None),
        row("2", None, Some("It hums")),
    ]);
    assert_eq!(store.records().len(), 2);
    assert!(store.get_record("1".to_string()).is_some());
    assert!(store.get_record("2".to_string()).is_some());
    assert!(store.get_record("3".to_string()).is_none());
    let mut ids: Vec<String> = store.to_rows().into_iter().map(|r| r.issue_id).collect();
    ids.sort();
    assert_eq!(ids, vec!["1".to_string(), "2".to_string()]);
}
