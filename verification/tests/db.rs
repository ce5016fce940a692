use le_resampler::db::{list_samples_query, split_tag_list, LIST_SAMPLES_BASE};

#[test]
fn list_query_without_filters() {
    let q = list_samples_query(None, None, None);
    assert_eq!(q.sql, format!("{} GROUP BY s.id ORDER BY s.date_added DESC", LIST_SAMPLES_BASE));
    assert!(q.params.is_empty());
}

#[test]
fn list_query_with_all_filters() {
    let q = list_samples_query(Some("kick"), Some("punchy"), Some("%kick%"));
    assert_eq!(
        q.sql,
        format!(
            "{} AND s.category = ? AND s.filename LIKE ? GROUP BY s.id HAVING tag_list LIKE ? ORDER BY s.date_added DESC",
            LIST_SAMPLES_BASE
        )
    );
    assert_eq!(q.params, vec!["kick".to_string(), "%kick%".to_string(), "%punchy%".to_string()]);
}

#[test]
fn list_query_tag_only() {
    let q = list_samples_query(None, Some("groovy"), None);
    assert_eq!(
        q.sql,
        format!("{} GROUP BY s.id HAVING tag_list LIKE ? ORDER BY s.date_added DESC", LIST_SAMPLES_BASE)
    );
    assert_eq!(q.params, vec!["%groovy%".to_string()]);
}

#[test]
fn list_query_keeps_values_out_of_sql() {
    let q = list_samples_query(Some("x' OR 1=1 --"), None, None);
    assert!(!q.sql.contains("OR 1=1"));
    assert_eq!(q.params, vec!["x' OR 1=1 --".to_string()]);
}

#[test]
fn tag_list_split() {
    assert_eq!(split_tag_list(None), Vec::<String>::new());
    assert_eq!(split_tag_list(Some("")), Vec::<String>::new());
    assert_eq!(split_tag_list(Some("chill")), vec!["chill".to_string()]);
    assert_eq!(
        split_tag_list(Some("zebra,apple,,mango,")),
        vec!["zebra".to_string(), "apple".to_string(), "mango".to_string()]
    );
}
