//! The folder map: where on disk each watched folder lives.
use std::collections::HashMap;
use vstd::prelude::*;
use vstd::std_specs::hash::group_hash_axioms;
use vstd::string::*;
use crate::api::FileID;

verus! {

broadcast use group_hash_axioms;

/// Maps folder ids to their paths.
#[derive(Debug)]
pub struct FolderMap {
    pub map: HashMap<FileID, String>,
}

impl View for FolderMap {
    type V = Map<FileID, Seq<char>>;

    open spec fn view(&self) -> Map<FileID, Seq<char>> {
        self.map@.map_values(|s: String| s@)
    }
}

/// The map read from `(id, path)` rows in order; a later row for an id replaces an earlier one.
pub open spec fn folder_rows_map(rows: Seq<(FileID, String)>) -> Map<FileID, Seq<char>>
    decreases rows.len(),
{
    if rows.len() == 0 {
        Map::empty()
    } else {
        folder_rows_map(rows.drop_last()).insert(rows.last().0, rows.last().1@)
    }
}

/// The SQL `LIKE` pattern that matches every file below the folder at `path`.
pub open spec fn folder_like_pattern(path: Seq<char>) -> Seq<char> {
    path + "/%"@
}

impl FolderMap {
    /// A map with no folders.
    pub fn new() -> (r: FolderMap)
        ensures
            r@ == Map::<FileID, Seq<char>>::empty(),
    {
        let r = FolderMap { map: HashMap::new() };
        assert(r@ =~= Map::<FileID, Seq<char>>::empty());
        r
    }

    /// Builds the map from the rows of the folder table, each an `(id, path)` pair.
    pub fn new_populated(rows: &Vec<(FileID, String)>) -> (r: FolderMap)
        ensures
            r@ == folder_rows_map(rows@),
    {
        let mut ret = FolderMap::new();
        let mut i: usize = 0;
        while i < rows.len()
            invariant
                i <= rows@.len(),
                ret@ == folder_rows_map(rows@.take(i as int)),
            decreases rows.len() - i,
        {
            let id = rows[i].0;
            let path = rows[i].1.clone();
            ret.map.insert(id, path);
            assert(rows@.take(i + 1).drop_last() =~= rows@.take(i as int));
            assert(ret@ =~= folder_rows_map(rows@.take(i + 1)));
            i = i + 1;
        }
        assert(rows@.take(rows@.len() as int) =~= rows@);
        ret
    }

    /// Returns the path of the folder that will match all files inside it if used in an SQL
    /// `LIKE` clause: `C://dogs/shibas` gives `C://dogs/shibas/%`.
    pub fn get_folder_for_sql_like_clause(&self, id: FileID) -> (r: String)
        requires
            self@.contains_key(id),
        ensures
            r@ == folder_like_pattern(self@[id]),
            r@.len() == self@[id].len() + 2,
            r@.subrange(0, self@[id].len() as int) == self@[id],
            r@[self@[id].len() as int] == '/',
            r@[self@[id].len() as int + 1] == '%',
    {
        let mut path = self.map.get(&id).unwrap().clone();
        path.append("/%");
        proof {
            reveal_strlit("/%");
            assert(path@.subrange(0, self@[id].len() as int) =~= self@[id]);
        }
        path
    }
}

} // verus!
