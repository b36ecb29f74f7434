use memedb::folders::FolderMap;
use memedb::query::{append_tags_clause, render_name_for_sql_like_clause, FileQuery, SqlParam};
use memedb::api::ErrorType;

const SELECT: &str = "SELECT DISTINCT image.id FROM image\n        JOIN tag_records ON image.id=tag_records.image_id\n        WHERE ";

fn query(
    tags: Option<Vec<usize>>,
    strong: Option<bool>,
    folders: Option<Vec<usize>>,
    names: Option<Vec<&str>>,
    limit: Option<usize>,
    start: Option<usize>,
) -> FileQuery {
    FileQuery {
        tags_include: tags,
        include_strong: strong,
        folders_include: folders,
        names: names.map(|ns| ns.into_iter().map(|s| s.to_string()).collect()),
        limit,
        start,
    }
}

fn folder_map() -> FolderMap {
    FolderMap::new_populated(&vec![(1, "C:/pics".to_string()), (2, "D:/memes".to_string())])
}

#[test]
fn test1_render_name_for_sql_like_clause() {
    assert_eq!("%/%dog%.%", render_name_for_sql_like_clause("dog".to_string()));
}

#[test]
fn render_name_single_letter_and_empty() {
    assert_eq!("%/%x%.%", render_name_for_sql_like_clause("x".to_string()));
    assert_eq!("%/%%.%", render_name_for_sql_like_clause("".to_string()));
}

#[test]
fn tags_clause_for_several_tags() {
    let mut params = vec![SqlParam::Integer(99)];
    let sql = append_tags_clause(&vec![4, 8, 15], &mut params);
    assert_eq!(sql, "tag_records.tag_id IN(?,?,?)");
    assert_eq!(params, vec![SqlParam::Integer(99), SqlParam::Integer(4), SqlParam::Integer(8), SqlParam::Integer(15)]);
}

#[test]
fn tags_clause_for_one_tag() {
    let mut params = Vec::new();
    assert_eq!(append_tags_clause(&vec![7], &mut params), "tag_records.tag_id IN(?)");
    assert_eq!(params, vec![SqlParam::Integer(7)]);
}

#[test]
fn tags_clause_for_no_tags_has_empty_brackets() {
    let mut params = Vec::new();
    assert_eq!(append_tags_clause(&vec![], &mut params), "tag_records.tag_id IN()");
    assert!(params.is_empty());
}

#[test]
fn validity_rules() {
    assert!(query(Some(vec![1]), None, None, None, None, None).is_valid());
    assert!(!query(Some(vec![]), None, None, None, None, None).is_valid());
    assert!(!query(None, None, Some(vec![]), None, None, None).is_valid());
    assert!(!query(None, None, None, Some(vec![]), None, None).is_valid());
    assert!(!query(None, Some(true), Some(vec![1]), None, None, None).is_valid());
    assert!(query(None, Some(false), Some(vec![1]), None, None, None).is_valid());
    assert!(query(None, None, None, Some(vec!["a"]), None, None).is_valid());
    assert!(!query(None, None, None, None, Some(3), None).is_valid());
    assert!(!query(None, Some(false), None, None, None, None).is_valid());
}

#[test]
fn remove_limits_drops_limit_and_start() {
    let mut q = query(Some(vec![1]), None, None, None, Some(50), Some(100));
    q.remove_limits();
    assert_eq!(q.limit, None);
    assert_eq!(q.start, None);
    assert_eq!(q.tags_include, Some(vec![1]));
    assert!(q.is_valid());
    let (sql, params) = q.query_to_sql_and_params(&folder_map()).unwrap();
    assert!(!sql.contains("LIMIT"));
    assert!(!sql.contains("OFFSET"));
    assert_eq!(params, vec![SqlParam::Integer(1)]);
}

#[test]
fn query_without_conditions_is_refused() {
    let err = query(None, None, None, None, Some(5), None).query_to_sql_and_params(&folder_map()).unwrap_err();
    assert_eq!(err.gui_msg, "Recieved a malformed SQL query.");
}

#[test]
fn every_folder_and_name_is_bound_as_a_pattern() {
    let fm = FolderMap::new_populated(&vec![(0, "C://dogs/shibas".to_string()), (1, "C://cats".to_string())]);
    let q = query(Some(vec![2]), None, Some(vec![0, 1]), Some(vec!["dog", "cat"]), None, None);
    let (_, params) = q.query_to_sql_and_params(&fm).unwrap();
    assert_eq!(
        params,
        vec![
            SqlParam::Text("C://dogs/shibas/%".to_string()),
            SqlParam::Text("C://cats/%".to_string()),
            SqlParam::Text("%/%dog%.%".to_string()),
            SqlParam::Text("%/%cat%.%".to_string()),
            SqlParam::Integer(2),
        ]
    );
}

#[test]
fn invalid_query_is_refused() {
    let err = query(Some(vec![]), None, None, None, None, None).query_to_sql_and_params(&folder_map()).unwrap_err();
    assert_eq!(err.gui_msg, "Recieved a malformed SQL query.");
    assert_eq!(err.err_type, ErrorType::Basic);
}

#[test]
fn tags_only_query() {
    let (sql, params) = query(Some(vec![3, 9]), None, None, None, None, None).query_to_sql_and_params(&folder_map()).unwrap();
    assert_eq!(sql, format!("{}tag_records.tag_id IN(?,?)", SELECT));
    assert_eq!(params, vec![SqlParam::Integer(3), SqlParam::Integer(9)]);
}

#[test]
fn full_query_text_and_params() {
    let q = query(Some(vec![5, 6]), Some(true), Some(vec![1, 2]), Some(vec!["dog", "cat"]), Some(10), Some(20));
    let (sql, params) = q.query_to_sql_and_params(&folder_map()).unwrap();
    let expected = format!(
        "{}image.path LIKE ?OR image.path LIKE ? AND path LIKE ?OR image.path LIKE ? AND tag_records.tag_id IN(?,?) GROUP BY tag_records.image_id HAVING COUNT (image_id) = 2 LIMIT ? OFFSET ?",
        SELECT
    );
    assert_eq!(sql, expected);
    assert_eq!(
        params,
        vec![
            SqlParam::Text("C:/pics/%".to_string()),
            SqlParam::Text("D:/memes/%".to_string()),
            SqlParam::Text("%/%dog%.%".to_string()),
            SqlParam::Text("%/%cat%.%".to_string()),
            SqlParam::Integer(5),
            SqlParam::Integer(6),
            SqlParam::Integer(10),
            SqlParam::Integer(20),
        ]
    );
    // as many placeholders as parameters
    assert_eq!(sql.matches('?').count(), params.len());
}

#[test]
fn offset_without_limit_is_not_written() {
    let (sql, params) = query(None, None, Some(vec![2]), None, None, Some(4)).query_to_sql_and_params(&folder_map()).unwrap();
    assert_eq!(sql, format!("{}image.path LIKE ?", SELECT));
    assert_eq!(params, vec![SqlParam::Text("D:/memes/%".to_string())]);
}

#[test]
fn names_query_with_limit() {
    let (sql, params) = query(None, None, None, Some(vec!["shiba"]), Some(3), None).query_to_sql_and_params(&folder_map()).unwrap();
    assert_eq!(sql, format!("{}path LIKE ? LIMIT ?", SELECT));
    assert_eq!(params, vec![SqlParam::Text("%/%shiba%.%".to_string()), SqlParam::Integer(3)]);
    assert_eq!(sql.matches('?').count(), params.len());
}

#[test]
fn strong_count_uses_decimal_of_tag_count() {
    let tags: Vec<usize> = (0..12).collect();
    let (sql, params) = query(Some(tags), Some(true), None, None, None, None).query_to_sql_and_params(&folder_map()).unwrap();
    assert!(sql.ends_with(" GROUP BY tag_records.image_id HAVING COUNT (image_id) = 12"));
    assert_eq!(params.len(), 12);
    assert_eq!(sql.matches('?').count(), 12);
}
