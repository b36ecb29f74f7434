use memedb::api::{Error, ErrorType, FileType, get_binary_config, LoadedImage};
use memedb::cache::QuerySizeCache;
use memedb::context::{get_databases, Context, Database, DatabaseMap, SizeStep};
use memedb::encoding::encode_image;
use memedb::folders::FolderMap;
use memedb::query::FileQuery;
use memedb::tags::TagGraph;
use memedb::api::TagDetails;
use memedb::text::append_decimal;

fn q(tags: Vec<usize>, limit: Option<usize>) -> FileQuery {
    FileQuery { tags_include: Some(tags), include_strong: None, folders_include: None, names: None, limit, start: None }
}

fn database() -> Database {
    let mut taggraph = TagGraph::new();
    taggraph.insert(TagDetails { id: 0, name: "TagA".to_string(), parents: vec![] });
    taggraph.insert(TagDetails { id: 1, name: "TagB".to_string(), parents: vec![0] });
    taggraph.insert(TagDetails { id: 2, name: "TagC".to_string(), parents: vec![1] });
    Database { taggraph, folder_map: FolderMap::new_populated(&vec![(0, "C:/x".to_string())]) }
}

#[test]
fn cache_reads_back_what_was_written() {
    let mut cache = QuerySizeCache::default();
    let a = q(vec![1], None);
    let b = q(vec![1], Some(5));
    assert!(!cache.contains_key(&a));
    cache.insert(a.clone(), 12);
    assert!(cache.contains_key(&a));
    assert!(!cache.contains_key(&b));
    assert_eq!(cache.get(&a), 12);
    cache.insert(b.clone(), 3);
    cache.insert(a.clone(), 40);
    assert_eq!(cache.get(&a), 40);
    assert_eq!(cache.get(&b), 3);
}

#[test]
fn cache_tells_names_apart() {
    let mut cache = QuerySizeCache::default();
    let mut a = q(vec![1], None);
    a.names = Some(vec!["dog".to_string()]);
    let mut b = a.clone();
    b.names = Some(vec!["cat".to_string()]);
    cache.insert(a.clone(), 1);
    assert!(!cache.contains_key(&b));
    cache.insert(b.clone(), 2);
    assert_eq!(cache.get(&a), 1);
    assert_eq!(cache.get(&b), 2);
}

#[test]
fn folder_map_pattern_and_last_row_wins() {
    let m = FolderMap::new_populated(&vec![(3, "C:/dogs/shibas".to_string()), (4, "E:/x".to_string()), (3, "C://dogs/shibas".to_string())]);
    assert_eq!(m.map.len(), 2);
    assert_eq!(m.get_folder_for_sql_like_clause(3), "C://dogs/shibas/%");
    assert_eq!(m.get_folder_for_sql_like_clause(4), "E:/x/%");
    assert!(FolderMap::new().map.is_empty());
}

#[test]
fn database_map_tracks_largest_id() {
    let m = DatabaseMap::new_populated(vec![(4, database()), (9, database()), (2, database())]);
    assert_eq!(m.largest_id, 9);
    assert_eq!(m.map.len(), 3);
    assert!(m.get(2).is_some());
    assert!(m.get(3).is_none());
    let empty = DatabaseMap::new_populated(vec![]);
    assert_eq!(empty.largest_id, 0);
    assert_eq!(DatabaseMap::new().largest_id, 0);
}

#[test]
fn database_map_get_mut_changes_in_place() {
    let mut m = DatabaseMap::new_populated(vec![(1, database())]);
    m.get_mut(1).unwrap().taggraph.insert(TagDetails { id: 7, name: "n".to_string(), parents: vec![2] });
    assert_eq!(m.get(1).unwrap().taggraph.get_parent_ids(7), vec![2]);
    assert!(m.get_mut(5).is_none());
}

fn context() -> Context {
    let mut ctx = Context::setup();
    ctx.dbmap = DatabaseMap::new_populated(vec![(0, database())]);
    ctx
}

#[test]
fn unknown_database_is_named_in_the_error() {
    let ctx = context();
    let err = ctx.database(17).err().unwrap();
    assert_eq!(err.gui_msg, "Database ID 17 not recognised");
    assert_eq!(err.err_type, ErrorType::Basic);
    assert!(ctx.database(0).is_ok());
}

#[test]
fn mod_tag_changes_only_that_tag() {
    let mut ctx = context();
    ctx.mod_tag_by_tag(0, TagDetails { id: 2, name: "Changed".to_string(), parents: vec![0] }).unwrap();
    let db = ctx.database(0).unwrap();
    assert_eq!(db.taggraph.get_parent_ids(2), vec![0]);
    assert_eq!(db.taggraph.graph[&2].name, "Changed");
    assert_eq!(db.taggraph.graph[&2].id, 2);
    assert_eq!(db.taggraph.get_parent_ids(1), vec![0]);
    let err = ctx.mod_tag_by_tag(3, TagDetails { id: 2, name: "x".to_string(), parents: vec![] }).unwrap_err();
    assert_eq!(err.gui_msg, "Database ID 3 not recognised");
}

#[test]
fn tagging_a_file_records_the_tag_and_its_ancestors() {
    let ctx = context();
    let records = ctx.add_tag_to_file(0, 42, 2).unwrap();
    assert_eq!(records.len(), 3);
    assert_eq!(*records.last().unwrap(), (42, 2));
    let mut tags: Vec<usize> = records.iter().map(|r| r.1).collect();
    tags.sort();
    assert_eq!(tags, vec![0, 1, 2]);
    assert!(records.iter().all(|r| r.0 == 42));
    assert_eq!(ctx.add_tag_to_file(8, 42, 2).unwrap_err().gui_msg, "Database ID 8 not recognised");
}

#[test]
fn file_details_carry_ancestors() {
    let db = database();
    let d = db.get_details_on_file(2, "C:/x/a.jpg".to_string());
    assert_eq!(d.id, 2);
    assert_eq!(d.name, "C:/x/a.jpg");
    assert_eq!(d.folder, 0);
    assert_eq!(d.file_type, FileType::Image);
    let mut t = d.tags.clone();
    t.sort();
    assert_eq!(t, vec![0, 1]);
}

#[test]
fn placeholder_answers() {
    let ctx = context();
    let files = ctx.get_files_by_folder(0, 0, 0, 10).unwrap();
    assert_eq!(files.len(), 4);
    assert_eq!(files[0].name, "meme1.jpg");
    assert_eq!(files[0].tags, vec![0, 1]);
    assert_eq!(files[3].name, "meme4.jpg");
    assert_eq!(files[3].tags, vec![2]);
    let folders = ctx.get_folders(0).unwrap();
    assert_eq!(folders.len(), 2);
    assert_eq!(folders[1].path, "G:/Users/Ben/Pictures/");
    let tags = ctx.get_tags(0).unwrap();
    assert_eq!(tags.len(), 7);
    assert_eq!(tags[2].parents, vec![1, 0]);
    assert_eq!(tags[6].name, "TagC31");
    for e in [ctx.add_folder(0, "C:/y").err().unwrap(), ctx.add_tag(0, TagDetails { id: 9, name: "n".to_string(), parents: vec![] }).err().unwrap()] {
        assert_eq!(e.gui_msg, "Not implemented!");
        assert_eq!(e.err_type, ErrorType::Basic);
    }
    assert_eq!(ctx.del_folder(0, 1).unwrap_err().gui_msg, "Not implemented!");
    let dbs = get_databases();
    assert_eq!(dbs.len(), 1);
    assert_eq!(dbs[0].id, 0);
    assert_eq!(dbs[0].name, "Built-in");
    let _ = get_binary_config();
}

#[test]
fn file_paths_by_id() {
    let ctx = context();
    assert_eq!(ctx.get_file_by_id(0, 0).unwrap(), "C:/Users/Ben/Pictures/meme1.jpg");
    assert_eq!(ctx.get_file_by_id(0, 3).unwrap(), "C:/Users/Ben/Pictures/meme4.jpg");
    let err = ctx.get_file_by_id(0, 4).unwrap_err();
    assert_eq!(err.gui_msg, "Bad ID!");
}

#[test]
fn errors_of_each_kind() {
    let b = Error::basic("boom");
    assert_eq!(b.gui_msg, "boom");
    assert_eq!(b.err_type, ErrorType::Basic);
    let f = Error::filesystem("Failed to read the selected file");
    assert_eq!(f.gui_msg, "Failed to read the selected file");
    assert_eq!(f.err_type, ErrorType::Filesystem);
}

#[test]
fn decimal_text() {
    for (n, s) in [(0usize, "0"), (7, "7"), (10, "10"), (1234567, "1234567"), (usize::MAX, &*usize::MAX.to_string())] {
        let mut out = "n=".to_string();
        append_decimal(&mut out, n);
        assert_eq!(out, format!("n={}", s));
    }
}

#[test]
fn images_are_base64_encoded() {
    let img: LoadedImage = encode_image(5, b"hello world".to_vec());
    assert_eq!(img.id, 5);
    assert_eq!(img.b64_data, "aGVsbG8gd29ybGQ=");
    assert_eq!(img.format, "jpg");
    assert_eq!(encode_image(0, vec![]).b64_data, "");
    assert_eq!(encode_image(0, vec![0xff]).b64_data, "/w==");
    assert_eq!(encode_image(0, vec![0xfb, 0xef, 0xbe]).b64_data, "++++");
    assert_eq!(encode_image(0, b"Ma".to_vec()).b64_data, "TWE=");
    // four characters for every three bytes, rounded up
    assert_eq!(encode_image(0, vec![1; 10]).b64_data.len(), 16);
}

#[test]
fn pages_continue_after_their_data() {
    let mut query = q(vec![1], Some(2));
    query.start = Some(6);
    let page = memedb::api::DBViewResponse::new_page(&query, vec![], 30);
    assert_eq!(page.new_start, 6);
    assert_eq!(page.total_size, 30);
    let db = database();
    let files = vec![db.get_details_on_file(1, "a".to_string()), db.get_details_on_file(2, "b".to_string())];
    query.start = None;
    let page = memedb::api::DBViewResponse::new_page(&query, files, 30);
    assert_eq!(page.new_start, 2);
    assert_eq!(page.data.len(), 2);
}

#[test]
fn size_steps_reuse_cached_sizes() {
    let mut ctx = context();
    let mut query = q(vec![1], Some(2));
    query.start = Some(4);
    match ctx.size_step(&query).unwrap() {
        SizeStep::Count(u) => {
            assert_eq!(u.limit, None);
            assert_eq!(u.start, None);
            assert_eq!(u.tags_include, Some(vec![1]));
        }
        SizeStep::Cached(_) => panic!("nothing is cached yet"),
    }
    ctx.query_cache.insert(query.clone(), 17);
    match ctx.size_step(&query).unwrap() {
        SizeStep::Cached(n) => assert_eq!(n, 17),
        SizeStep::Count(_) => panic!("the size is cached"),
    }
    let bad = q(vec![], None);
    assert_eq!(ctx.size_step(&bad).err().unwrap().gui_msg, "Recieved a malformed SQL query.");
    ctx.invalidate_sizes();
    assert!(!ctx.query_cache.contains_key(&query));
    assert!(ctx.database(0).is_ok());
}
