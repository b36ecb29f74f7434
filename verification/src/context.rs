//! The databases that the program has open and the commands that the GUI sends to them.
use std::collections::HashMap;
use vstd::prelude::*;
use vstd::std_specs::hash::group_hash_axioms;
use vstd::string::*;
use crate::api::{DBViewResponse, DatabaseDetails, DatabaseID, Error, ErrorType, FileDetails, FileID, FileType, FolderDetails, GUIResult, TagDetails, TagID};
use crate::cache::QuerySizeCache;
use crate::folders::FolderMap;
use crate::query::{FileQuery, QueryView, query_is_valid, unlimited, ids_view, names_view, strings_view};
use crate::tags::{TagGraph, TagNodeView, is_ancestor, lemma_view_insert, lemma_view_remove};
use crate::text::{append_decimal, decimal};

verus! {

broadcast use group_hash_axioms;

/// What the program keeps in memory of one database: its tag graph and its folder map.
pub struct Database {
    pub taggraph: TagGraph,
    pub folder_map: FolderMap,
}

/// `std::collections::HashMap::get_mut`: the reference it returns points at the value stored
/// for `k`, and whatever is written through it is what the map holds for `k` afterwards;
/// it returns `None`, leaving the map alone, when `k` has no value.
#[verifier::external_body]
fn map_get_mut<'a, V>(m: &'a mut HashMap<usize, V>, k: usize) -> (r: Option<&'a mut V>)
    ensures
        match r {
            Some(v) => {
                &&& old(m)@.contains_key(k)
                &&& *v == old(m)@[k]
                &&& final(m)@ == old(m)@.insert(k, *final(v))
            },
            None => !old(m)@.contains_key(k) && final(m)@ == old(m)@,
        },
{
    m.get_mut(&k)
}

/// The databases read in order from `rows`; a later row for an id replaces an earlier one.
pub open spec fn database_rows_map(rows: Seq<(DatabaseID, Database)>) -> Map<DatabaseID, Database>
    decreases rows.len(),
{
    if rows.len() == 0 {
        Map::empty()
    } else {
        database_rows_map(rows.drop_last()).insert(rows.last().0, rows.last().1)
    }
}

/// The greatest id among `rows`, or 0 when there are none.
pub open spec fn largest_row_id(rows: Seq<(DatabaseID, Database)>) -> DatabaseID
    decreases rows.len(),
{
    if rows.len() == 0 {
        0
    } else {
        let accum = largest_row_id(rows.drop_last());
        if accum > rows.last().0 {
            accum
        } else {
            rows.last().0
        }
    }
}

/// All open databases by id, and the greatest id in use.
pub struct DatabaseMap {
    pub map: HashMap<DatabaseID, Database>,
    pub largest_id: usize,
}

impl DatabaseMap {
    /// No databases.
    pub fn new() -> (r: DatabaseMap)
        ensures
            r.map@ == Map::<DatabaseID, Database>::empty(),
            r.largest_id == 0,
    {
        DatabaseMap { map: HashMap::new(), largest_id: 0 }
    }

    /// The map of the databases in `rows`, each an id with the database opened for it, and
    /// the greatest of those ids.
    pub fn new_populated(rows: Vec<(DatabaseID, Database)>) -> (r: DatabaseMap)
        ensures
            r.map@ == database_rows_map(rows@),
            r.largest_id == largest_row_id(rows@),
    {
        let ghost all = rows@;
        let mut rest = rows;
        let mut dbmap = DatabaseMap::new();
        let mut largest_id: usize = 0;
        let mut i: usize = 0;
        assert(all.len() == rest.len());
        while rest.len() > 0
            invariant
                i + rest@.len() == all.len(),
                all.len() <= usize::MAX,
                rest@ == all.subrange(i as int, all.len() as int),
                dbmap.map@ == database_rows_map(all.take(i as int)),
                largest_id == largest_row_id(all.take(i as int)),
            decreases rest.len(),
        {
            let (key, db) = rest.remove(0);
            assert(all[i as int] == (key, db));
            dbmap.map.insert(key, db);
            if !(largest_id > key) {
                largest_id = key;
            }
            assert(all.take(i + 1).drop_last() =~= all.take(i as int));
            assert(rest@ =~= all.subrange(i + 1, all.len() as int));
            i = i + 1;
        }
        assert(all.take(all.len() as int) =~= all);
        dbmap.largest_id = largest_id;
        dbmap
    }

    /// The database with id `id`, if it is open.
    pub fn get(&self, id: DatabaseID) -> (r: Option<&Database>)
        ensures
            match r {
                Some(db) => self.map@.contains_key(id) && *db == self.map@[id],
                None => !self.map@.contains_key(id),
            },
    {
        self.map.get(&id)
    }

    /// The database with id `id`, for changing it, if it is open.
    pub fn get_mut(&mut self, id: DatabaseID) -> (r: Option<&mut Database>)
        ensures
            final(self).largest_id == old(self).largest_id,
            match r {
                Some(db) => {
                    &&& old(self).map@.contains_key(id)
                    &&& *db == old(self).map@[id]
                    &&& final(self).map@ == old(self).map@.insert(id, *final(db))
                },
                None => !old(self).map@.contains_key(id) && final(self).map@ == old(self).map@,
            },
    {
        map_get_mut(&mut self.map, id)
    }
}


impl Database {
    /// The details of file `id` stored at `path`: its tags are the ancestors of the tag with
    /// the same id, its folder is 0 and it is taken to be an image.
    pub fn get_details_on_file(&self, id: FileID, path: String) -> (r: FileDetails)
        requires
            self.taggraph@.contains_key(id),
        ensures
            r.id == id,
            r.name@ == path@,
            r.folder == 0,
            r.tags@.no_duplicates(),
            forall|a: TagID| r.tags@.contains(a) <==> is_ancestor(self.taggraph@, id, a),
            r.file_type == FileType::Image,
    {
        let tags = self.taggraph.get_ancestor_ids(id);
        FileDetails { id: id, name: path, file_type: FileType::Image, folder: 0, tags: tags }
    }
}

impl DBViewResponse {
    /// The page holding `data`, the results of `query` from its start on, for a query that
    /// has `total_size` results in all; the next page starts right after this one.
    pub fn new_page(query: &FileQuery, data: Vec<FileDetails>, total_size: usize) -> (r: DBViewResponse)
        requires
            query_start(query@.start) + data@.len() <= usize::MAX,
        ensures
            r.data@ == data@,
            r.new_start == query_start(query@.start) + data@.len(),
            query.start matches Some(s) ==> r.new_start == s + data@.len(),
            query.start is None ==> r.new_start == data@.len(),
            r.total_size == total_size,
    {
        let start = match query.start {
            Some(s) => s,
            None => 0,
        };
        let new_start = start + data.len();
        DBViewResponse { total_size: total_size, data: data, new_start: new_start }
    }
}

/// Where a query's results begin: its start, or 0 when it has none.
pub open spec fn query_start(start: Option<FileID>) -> nat {
    match start {
        Some(s) => s as nat,
        None => 0,
    }
}

/// The databases that the GUI can choose from: only the built-in one.
pub fn get_databases() -> (r: Vec<DatabaseDetails>)
    ensures
        r@.len() == 1,
        r@[0].id == 0,
        r@[0].name@ == "Built-in"@,
{
    vec![DatabaseDetails { id: 0, name: String::from_str("Built-in") }]
}

/// The message of the error for an unknown database id.
pub open spec fn unknown_database_message(id: DatabaseID) -> Seq<char> {
    "Database ID "@ + decimal(id as nat) + " not recognised"@
}

fn unknown_database(id: DatabaseID) -> (e: Error)
    ensures
        e.gui_msg@ == unknown_database_message(id),
        e.err_type == ErrorType::Basic,
{
    let mut msg = String::from_str("Database ID ");
    append_decimal(&mut msg, id);
    msg.append(" not recognised");
    Error { gui_msg: msg, err_type: ErrorType::Basic }
}

/// The placeholder file listed at position `id` of a folder.
pub open spec fn is_sample_file(f: FileDetails, id: FileID, name: Seq<char>, tags: Seq<TagID>) -> bool {
    &&& f.id == id
    &&& f.name@ == name
    &&& f.folder == 0
    &&& f.tags@ == tags
    &&& f.file_type == FileType::Image
}

/// A tag with the given id, name and parents.
pub open spec fn is_tag(t: TagDetails, id: TagID, name: Seq<char>, parents: Seq<TagID>) -> bool {
    &&& t.id == id
    &&& t.name@ == name
    &&& t.parents@ == parents
}

/// The path of placeholder file `n`, counting from 1.
pub open spec fn sample_path(n: nat) -> Seq<char> {
    "C:/Users/Ben/Pictures/meme"@ + decimal(n) + ".jpg"@
}

/// The not-yet-implemented answer.
pub open spec fn is_not_implemented<T>(r: GUIResult<T>) -> bool {
    match r {
        Ok(_) => false,
        Err(e) => e.gui_msg@ == "Not implemented!"@ && e.err_type == ErrorType::Basic,
    }
}

/// What finding the total size of a query takes.
#[derive(Debug)]
pub enum SizeStep {
    /// The size is already known.
    Cached(usize),
    /// The size is unknown: run this query, which has no limits, and count its rows.
    Count(FileQuery),
}

fn copy_ids(v: &Option<Vec<usize>>) -> (r: Option<Vec<usize>>)
    ensures
        ids_view(r) == ids_view(*v),
{
    match v {
        Some(ids) => {
            let c = ids.clone();
            assert(c@ =~= ids@);
            Some(c)
        },
        None => None,
    }
}

fn copy_names(v: &Option<Vec<String>>) -> (r: Option<Vec<String>>)
    ensures
        names_view(r) == names_view(*v),
{
    match v {
        Some(names) => {
            let mut c: Vec<String> = Vec::new();
            let mut k: usize = 0;
            while k < names.len()
                invariant
                    k <= names@.len(),
                    c@.len() == k,
                    forall|i: int| 0 <= i < k ==> (#[trigger] c@[i])@ == names@[i]@,
                decreases names.len() - k,
            {
                c.push(names[k].clone());
                k = k + 1;
            }
            assert(strings_view(c@) =~= strings_view(names@));
            Some(c)
        },
        None => None,
    }
}

/// `query` with its limit and start removed.
fn unlimited_copy(query: &FileQuery) -> (r: FileQuery)
    ensures
        r@ == unlimited(query@),
{
    let mut r = FileQuery {
        tags_include: copy_ids(&query.tags_include),
        include_strong: query.include_strong,
        folders_include: copy_ids(&query.folders_include),
        names: copy_names(&query.names),
        limit: query.limit,
        start: query.start,
    };
    r.remove_limits();
    r
}

/// Everything the GUI commands work on: the open databases and the query-size cache.
pub struct Context {
    pub dbmap: DatabaseMap,
    pub query_cache: QuerySizeCache,
}

impl Context {
    pub open spec fn wf(&self) -> bool {
        self.query_cache.wf()
    }

    /// A context with no databases and an empty cache.
    pub fn setup() -> (r: Context)
        ensures
            r.wf(),
            r.dbmap.map@ == Map::<DatabaseID, Database>::empty(),
            r.dbmap.largest_id == 0,
            r.query_cache@ == Map::<crate::query::QueryView, usize>::empty(),
    {
        Context { dbmap: DatabaseMap::new(), query_cache: QuerySizeCache::default() }
    }

    /// How to find the total size of `query`: the cached size when the cache knows it; else,
    /// for a valid query, the query with its limits removed, whose rows are to be counted;
    /// else the error for a malformed query.
    pub fn size_step(&self, query: &FileQuery) -> (r: GUIResult<SizeStep>)
        requires
            self.wf(),
        ensures
            match r {
                Ok(SizeStep::Cached(n)) => self.query_cache@.contains_key(query@) && n == self.query_cache@[query@],
                Ok(SizeStep::Count(u)) => {
                    &&& !self.query_cache@.contains_key(query@)
                    &&& query_is_valid(query@)
                    &&& u@ == unlimited(query@)
                },
                Err(e) => {
                    &&& !self.query_cache@.contains_key(query@)
                    &&& !query_is_valid(query@)
                    &&& e.gui_msg@ == "Recieved a malformed SQL query."@
                    &&& e.err_type == ErrorType::Basic
                },
            },
    {
        if self.query_cache.contains_key(query) {
            return Ok(SizeStep::Cached(self.query_cache.get(query)));
        }
        if !query.is_valid() {
            return Err(Error::basic("Recieved a malformed SQL query."));
        }
        Ok(SizeStep::Count(unlimited_copy(query)))
    }

    /// Forgets every cached size; called whenever the data of a database changes, since
    /// the sizes may no longer be current.
    pub fn invalidate_sizes(&mut self)
        ensures
            final(self).wf(),
            final(self).query_cache@ == Map::<QueryView, usize>::empty(),
            final(self).dbmap == old(self).dbmap,
    {
        self.query_cache = QuerySizeCache::default();
    }

    /// The open database `database`, or the error that names an unknown id.
    pub fn database(&self, database: DatabaseID) -> (r: GUIResult<&Database>)
        ensures
            match r {
                Ok(db) => self.dbmap.map@.contains_key(database) && *db == self.dbmap.map@[database],
                Err(e) => {
                    &&& !self.dbmap.map@.contains_key(database)
                    &&& e.gui_msg@ == unknown_database_message(database)
                    &&& e.err_type == ErrorType::Basic
                },
            },
    {
        match self.dbmap.get(database) {
            Some(db) => Ok(db),
            None => Err(unknown_database(database)),
        }
    }

    /// The files of a folder, one page at a time; for now a fixed list of four images.
    pub fn get_files_by_folder(&self, database: DatabaseID, folder: FileID, start: FileID, limit: usize) -> (r: GUIResult<Vec<FileDetails>>)
        ensures
            match r {
                Ok(files) => {
                    &&& files@.len() == 4
                    &&& is_sample_file(files@[0], 0, "meme1.jpg"@, seq![0, 1])
                    &&& is_sample_file(files@[1], 1, "meme2.jpg"@, seq![1])
                    &&& is_sample_file(files@[2], 2, "meme3.jpg"@, seq![0])
                    &&& is_sample_file(files@[3], 3, "meme4.jpg"@, seq![2])
                },
                Err(_) => false,
            },
    {
        let files = vec![
            FileDetails { id: 0, name: String::from_str("meme1.jpg"), folder: 0, tags: vec![0, 1], file_type: FileType::Image },
            FileDetails { id: 1, name: String::from_str("meme2.jpg"), folder: 0, tags: vec![1], file_type: FileType::Image },
            FileDetails { id: 2, name: String::from_str("meme3.jpg"), folder: 0, tags: vec![0], file_type: FileType::Image },
            FileDetails { id: 3, name: String::from_str("meme4.jpg"), folder: 0, tags: vec![2], file_type: FileType::Image },
        ];
        assert(files@[0].tags@ =~= seq![0usize, 1]);
        assert(files@[1].tags@ =~= seq![1usize]);
        assert(files@[2].tags@ =~= seq![0usize]);
        assert(files@[3].tags@ =~= seq![2usize]);
        Ok(files)
    }

    /// The path of file `file`; for now files 0 to 3 are the placeholder images.
    pub fn get_file_by_id(&self, database: DatabaseID, file: FileID) -> (r: GUIResult<String>)
        ensures
            match r {
                Ok(path) => file <= 3 && path@ == sample_path((file + 1) as nat),
                Err(e) => file > 3 && e.gui_msg@ == "Bad ID!"@ && e.err_type == ErrorType::Basic,
            },
    {
        if file <= 3 {
            let mut path = String::from_str("C:/Users/Ben/Pictures/meme");
            append_decimal(&mut path, file + 1);
            path.append(".jpg");
            Ok(path)
        } else {
            Err(Error::basic("Bad ID!"))
        }
    }

    /// The watched folders; for now a fixed list of two.
    pub fn get_folders(&self, database: DatabaseID) -> (r: GUIResult<Vec<FolderDetails>>)
        ensures
            match r {
                Ok(folders) => {
                    &&& folders@.len() == 2
                    &&& folders@[0].id == 0
                    &&& folders@[0].path@ == "C:/Users/Ben/Pictures/"@
                    &&& folders@[1].id == 1
                    &&& folders@[1].path@ == "G:/Users/Ben/Pictures/"@
                },
                Err(_) => false,
            },
    {
        Ok(vec![
            FolderDetails { id: 0, path: String::from_str("C:/Users/Ben/Pictures/") },
            FolderDetails { id: 1, path: String::from_str("G:/Users/Ben/Pictures/") },
        ])
    }

    /// Adding a folder is not implemented yet.
    pub fn add_folder(&self, database: DatabaseID, location: &str) -> (r: GUIResult<FolderDetails>)
        ensures
            is_not_implemented(r),
    {
        Err(Error::basic("Not implemented!"))
    }

    /// Removing a folder is not implemented yet.
    pub fn del_folder(&self, database: DatabaseID, folder: FileID) -> (r: GUIResult<()>)
        ensures
            is_not_implemented(r),
    {
        Err(Error::basic("Not implemented!"))
    }

    /// The tags of a database; for now a fixed tree of seven.
    pub fn get_tags(&self, database: DatabaseID) -> (r: GUIResult<Vec<TagDetails>>)
        ensures
            match r {
                Ok(tags) => {
                    &&& tags@.len() == 7
                    &&& is_tag(tags@[0], 0, "TagA"@, seq![])
                    &&& is_tag(tags@[1], 1, "TagB"@, seq![])
                    &&& is_tag(tags@[2], 2, "TagC"@, seq![1, 0])
                    &&& is_tag(tags@[3], 3, "TagC1"@, seq![2])
                    &&& is_tag(tags@[4], 4, "TagC2"@, seq![2])
                    &&& is_tag(tags@[5], 5, "TagC3"@, seq![2])
                    &&& is_tag(tags@[6], 6, "TagC31"@, seq![5])
                },
                Err(_) => false,
            },
    {
        let tags = vec![
            TagDetails { id: 0, name: String::from_str("TagA"), parents: vec![] },
            TagDetails { id: 1, name: String::from_str("TagB"), parents: vec![] },
            TagDetails { id: 2, name: String::from_str("TagC"), parents: vec![1, 0] },
            TagDetails { id: 3, name: String::from_str("TagC1"), parents: vec![2] },
            TagDetails { id: 4, name: String::from_str("TagC2"), parents: vec![2] },
            TagDetails { id: 5, name: String::from_str("TagC3"), parents: vec![2] },
            TagDetails { id: 6, name: String::from_str("TagC31"), parents: vec![5] },
        ];
        assert(tags@[0].parents@ =~= seq![]);
        assert(tags@[1].parents@ =~= seq![]);
        assert(tags@[2].parents@ =~= seq![1usize, 0]);
        assert(tags@[3].parents@ =~= seq![2usize]);
        assert(tags@[4].parents@ =~= seq![2usize]);
        assert(tags@[5].parents@ =~= seq![2usize]);
        assert(tags@[6].parents@ =~= seq![5usize]);
        Ok(tags)
    }

    /// Without changing the tag's id, updates a tag to have the name and parents supplied in
    /// `tag`. Does not change any tags other than the one supplied.
    pub fn mod_tag_by_tag(&mut self, database: DatabaseID, tag: TagDetails) -> (r: GUIResult<()>)
        requires
            old(self).dbmap.map@.contains_key(database) ==> old(self).dbmap.map@[database].taggraph@.contains_key(tag.id),
        ensures
            final(self).query_cache == old(self).query_cache,
            final(self).dbmap.largest_id == old(self).dbmap.largest_id,
            match r {
                Ok(()) => {
                    let before = old(self).dbmap.map@[database];
                    let after = final(self).dbmap.map@[database];
                    let node = before.taggraph@[tag.id];
                    &&& old(self).dbmap.map@.contains_key(database)
                    &&& final(self).dbmap.map@ == old(self).dbmap.map@.insert(database, after)
                    &&& after.folder_map == before.folder_map
                    &&& after.taggraph@ == before.taggraph@.insert(
                        tag.id,
                        TagNodeView { id: node.id, parents: tag.parents@, name: tag.name@, colour: node.colour },
                    )
                },
                Err(e) => {
                    &&& !old(self).dbmap.map@.contains_key(database)
                    &&& final(self).dbmap.map@ == old(self).dbmap.map@
                    &&& e.gui_msg@ == unknown_database_message(database)
                    &&& e.err_type == ErrorType::Basic
                },
            },
    {
        match self.dbmap.get_mut(database) {
            None => Err(unknown_database(database)),
            Some(db) => {
                let id = tag.id;
                let ghost graph_before = db.taggraph.graph@;
                let mut node = db.taggraph.graph.remove(&id).unwrap();
                proof { lemma_view_remove(graph_before, id); }
                node.parents = tag.parents;
                node.name = tag.name;
                proof { lemma_view_insert(db.taggraph.graph@, id, node); }
                db.taggraph.graph.insert(id, node);
                assert(db.taggraph@ =~= graph_before.map_values(|n: crate::tags::TagNode| n@).insert(id, node@));
                Ok(())
            },
        }
    }

    /// Adding a tag is not implemented yet.
    pub fn add_tag(&self, database: DatabaseID, new_tag: TagDetails) -> (r: GUIResult<()>)
        ensures
            is_not_implemented(r),
    {
        Err(Error::basic("Not implemented!"))
    }

    /// The tag records that tagging `file` with `tag` writes: one for every ancestor of
    /// `tag`, then one for `tag` itself, since inserting a tag inserts all its parents as well.
    pub fn add_tag_to_file(&self, database: DatabaseID, file: FileID, tag: TagID) -> (r: GUIResult<Vec<(FileID, TagID)>>)
        requires
            self.dbmap.map@.contains_key(database) ==> self.dbmap.map@[database].taggraph@.contains_key(tag),
        ensures
            match r {
                Ok(records) => {
                    let g = self.dbmap.map@[database].taggraph@;
                    let ancestors = records@.drop_last().map_values(|rec: (FileID, TagID)| rec.1);
                    &&& self.dbmap.map@.contains_key(database)
                    &&& records@.len() >= 1
                    &&& records@.last() == (file, tag)
                    &&& forall|i: int| 0 <= i < records@.len() ==> (#[trigger] records@[i]).0 == file
                    &&& ancestors.no_duplicates()
                    &&& forall|a: TagID| ancestors.contains(a) <==> is_ancestor(g, tag, a)
                },
                Err(e) => {
                    &&& !self.dbmap.map@.contains_key(database)
                    &&& e.gui_msg@ == unknown_database_message(database)
                    &&& e.err_type == ErrorType::Basic
                },
            },
    {
        let db = match self.database(database) {
            Ok(db) => db,
            Err(e) => return Err(e),
        };
        let ancestors = db.taggraph.get_ancestor_ids(tag);
        let mut records: Vec<(FileID, TagID)> = Vec::new();
        let mut k: usize = 0;
        while k < ancestors.len()
            invariant
                k <= ancestors@.len(),
                records@.len() == k,
                forall|i: int| 0 <= i < k ==> #[trigger] records@[i] == (file, ancestors@[i]),
            decreases ancestors.len() - k,
        {
            records.push((file, ancestors[k]));
            k = k + 1;
        }
        let ghost before = records@;
        records.push((file, tag));
        assert(records@.drop_last() =~= before);
        assert(before.map_values(|rec: (FileID, TagID)| rec.1) =~= ancestors@);
        Ok(records)
    }
}

} // verus!
