//! File queries from the GUI and the SQL text and parameters they become.
use vstd::prelude::*;
use vstd::string::*;
use crate::api::{Error, ErrorType, FileID, TagID};
use crate::folders::{FolderMap, folder_like_pattern};
use crate::text::{append_decimal, decimal};

verus! {

/// A request for the files that match some tags, folders and names, one page at a time.
#[derive(Debug, Clone, PartialEq, Eq, Hash)]
pub struct FileQuery {
    /// Include rows WHERE tag_id IN (?,?,?,...)
    pub tags_include: Option<Vec<TagID>>,
    /// GROUP BY image_id HAVING COUNT(image_id) = ?
    pub include_strong: Option<bool>,
    /// Include rows WHERE folder IN (?,?,?,...)
    pub folders_include: Option<Vec<FileID>>,
    /// Include rows WHERE name IN (?,?,?,...)
    pub names: Option<Vec<String>>,
    /// LIMIT ?
    pub limit: Option<usize>,
    /// OFFSET ?
    pub start: Option<FileID>,
}

/// The mathematical value of a [`FileQuery`].
pub struct QueryView {
    pub tags_include: Option<Seq<TagID>>,
    pub include_strong: Option<bool>,
    pub folders_include: Option<Seq<FileID>>,
    pub names: Option<Seq<Seq<char>>>,
    pub limit: Option<usize>,
    pub start: Option<FileID>,
}

pub open spec fn ids_view(o: Option<Vec<usize>>) -> Option<Seq<usize>> {
    match o {
        Some(v) => Some(v@),
        None => None,
    }
}

pub open spec fn strings_view(v: Seq<String>) -> Seq<Seq<char>> {
    v.map_values(|s: String| s@)
}

pub open spec fn names_view(o: Option<Vec<String>>) -> Option<Seq<Seq<char>>> {
    match o {
        Some(v) => Some(strings_view(v@)),
        None => None,
    }
}

impl View for FileQuery {
    type V = QueryView;

    open spec fn view(&self) -> QueryView {
        QueryView {
            tags_include: ids_view(self.tags_include),
            include_strong: self.include_strong,
            folders_include: ids_view(self.folders_include),
            names: names_view(self.names),
            limit: self.limit,
            start: self.start,
        }
    }
}

/// A list that is present but empty.
pub open spec fn empty_list<T>(o: Option<Seq<T>>) -> bool {
    match o {
        Some(s) => s.len() == 0,
        None => false,
    }
}

/// A query can be turned into SQL when it has at least one list of tags, folders or names,
/// none of its lists is empty, and strong tag inclusion is only asked for together with tags.
pub open spec fn query_is_valid(q: QueryView) -> bool {
    &&& (q.tags_include is Some || q.folders_include is Some || q.names is Some)
    &&& !empty_list(q.tags_include)
    &&& !empty_list(q.folders_include)
    &&& !empty_list(q.names)
    &&& !(q.tags_include is None && q.include_strong == Some(true))
}

/// `q` with neither a limit nor a start, so that nothing truncates its results.
pub open spec fn unlimited(q: QueryView) -> QueryView {
    QueryView { limit: None, start: None, ..q }
}

/// A parameter bound to a `?` of the generated SQL.
#[derive(Debug, PartialEq, Eq)]
pub enum SqlParam {
    Integer(usize),
    Text(String),
}

/// The mathematical value of a [`SqlParam`].
pub enum ParamView {
    Integer(usize),
    Text(Seq<char>),
}

impl View for SqlParam {
    type V = ParamView;

    open spec fn view(&self) -> ParamView {
        match self {
            SqlParam::Integer(n) => ParamView::Integer(*n),
            SqlParam::Text(s) => ParamView::Text(s@),
        }
    }
}

pub open spec fn params_view(ps: Seq<SqlParam>) -> Seq<ParamView> {
    ps.map_values(|p: SqlParam| p@)
}

pub open spec fn integer_params(ids: Seq<usize>) -> Seq<ParamView> {
    ids.map_values(|x: usize| ParamView::Integer(x))
}


/// `s` written `n` times.
pub open spec fn repeat(s: Seq<char>, n: nat) -> Seq<char>
    decreases n,
{
    if n == 0 {
        Seq::empty()
    } else {
        repeat(s, (n - 1) as nat) + s
    }
}

/// `n` question marks separated by commas.
pub open spec fn placeholders(n: nat) -> Seq<char> {
    if n == 0 {
        Seq::empty()
    } else {
        "?"@ + repeat(",?"@, (n - 1) as nat)
    }
}

/// The `IN` clause over `n` tags.
pub open spec fn tags_clause(n: nat) -> Seq<char> {
    if n == 0 {
        "tag_records.tag_id IN()"@
    } else {
        "tag_records.tag_id IN("@ + placeholders(n) + ")"@
    }
}

/// The SQL `LIKE` pattern that matches any file path whose file name contains `name`.
pub open spec fn name_like_pattern(name: Seq<char>) -> Seq<char> {
    "%/%"@ + name + "%.%"@
}

/// Writes the name of the file as a path so that any file with this substring in the name
/// matches in an SQL `LIKE` clause: `dog` gives `%/%dog%.%`.
/// A name holding `%`, the SQL wildcard, is refused.
pub fn render_name_for_sql_like_clause(name: String) -> (r: String)
    requires
        !name@.contains('%'),
    ensures
        r@ == name_like_pattern(name@),
        r@.len() == name@.len() + 6,
        r@[0] == '%',
        r@[1] == '/',
        r@[2] == '%',
        r@.subrange(3, name@.len() as int + 3) == name@,
        r@[name@.len() as int + 3] == '%',
        r@[name@.len() as int + 4] == '.',
        r@[name@.len() as int + 5] == '%',
{
    let mut r = String::from_str("%/%");
    r.append(name.as_str());
    r.append("%.%");
    proof {
        reveal_strlit("%/%");
        reveal_strlit("%.%");
        assert(r@.subrange(3, name@.len() as int + 3) =~= name@);
    }
    r
}

/// Appends to `params` one integer parameter per tag and returns the matching `IN` clause.
pub fn append_tags_clause(tags: &Vec<usize>, params: &mut Vec<SqlParam>) -> (sql: String)
    ensures
        sql@ == tags_clause(tags@.len()),
        params_view(final(params)@) == params_view(old(params)@) + integer_params(tags@),
{
    let ghost start = params@;
    let mut k: usize = 0;
    while k < tags.len()
        invariant
            k <= tags@.len(),
            params_view(params@) == params_view(start) + integer_params(tags@.take(k as int)),
        decreases tags.len() - k,
    {
        let ghost before = params@;
        params.push(SqlParam::Integer(tags[k]));
        assert(params@ == before.push(SqlParam::Integer(tags@[k as int])));
        assert(params_view(params@) =~= params_view(before).push(ParamView::Integer(tags@[k as int])));
        assert(integer_params(tags@.take(k + 1)) =~= integer_params(tags@.take(k as int)).push(ParamView::Integer(tags@[k as int])));
        assert(params_view(params@) =~= params_view(start) + integer_params(tags@.take(k + 1)));
        k = k + 1;
    }
    assert(tags@.take(tags@.len() as int) =~= tags@);
    if tags.len() == 0 {
        return String::from_str("tag_records.tag_id IN()");
    }
    let mut sql = String::from_str("tag_records.tag_id IN(");
    sql.append("?");
    let mut i: usize = 1;
    while i < tags.len()
        invariant
            1 <= i <= tags@.len(),
            sql@ == "tag_records.tag_id IN("@ + "?"@ + repeat(",?"@, (i - 1) as nat),
        decreases tags.len() - i,
    {
        sql.append(",?");
        assert(sql@ =~= "tag_records.tag_id IN("@ + "?"@ + repeat(",?"@, i as nat));
        i = i + 1;
    }
    sql.append(")");
    assert(sql@ =~= tags_clause(tags@.len()));
    sql
}


/// The condition over `n` folders.
pub open spec fn folder_condition(n: nat) -> Seq<char> {
    "image.path LIKE ?"@ + repeat("OR image.path LIKE ?"@, (n - 1) as nat)
}

/// The condition over `n` file names.
pub open spec fn name_condition(n: nat) -> Seq<char> {
    "path LIKE ?"@ + repeat("OR image.path LIKE ?"@, (n - 1) as nat)
}

/// The conditions of a query in the order they are joined: folders, names, tags.
pub open spec fn query_conditions(q: QueryView) -> Seq<Seq<char>> {
    (match q.folders_include {
        Some(f) => seq![folder_condition(f.len())],
        None => Seq::empty(),
    }) + (match q.names {
        Some(ns) => seq![name_condition(ns.len())],
        None => Seq::empty(),
    }) + (match q.tags_include {
        Some(t) => seq![tags_clause(t.len())],
        None => Seq::empty(),
    })
}

/// The conditions joined by `AND`.
pub open spec fn join_and(cs: Seq<Seq<char>>) -> Seq<char>
    decreases cs.len(),
{
    if cs.len() == 0 {
        Seq::empty()
    } else if cs.len() == 1 {
        cs[0]
    } else {
        join_and(cs.drop_last()) + " AND "@ + cs.last()
    }
}

pub open spec fn select_prefix() -> Seq<char> {
    "SELECT DISTINCT image.id FROM image\n        JOIN tag_records ON image.id=tag_records.image_id\n        WHERE "@
}

/// The grouping that keeps only files carrying every requested tag.
pub open spec fn strong_clause(q: QueryView) -> Seq<char> {
    if q.include_strong == Some(true) {
        " GROUP BY tag_records.image_id HAVING COUNT (image_id) = "@ + decimal(
            match q.tags_include {
                Some(t) => t.len(),
                None => 0,
            },
        )
    } else {
        Seq::empty()
    }
}

/// The paging clauses; an offset is only written together with a limit.
pub open spec fn limit_clause(q: QueryView) -> Seq<char> {
    match q.limit {
        Some(_) => " LIMIT ?"@ + (if q.start is Some { " OFFSET ?"@ } else { Seq::empty() }),
        None => Seq::empty(),
    }
}

/// The SQL text of a valid query.
pub open spec fn query_sql(q: QueryView) -> Seq<char> {
    select_prefix() + join_and(query_conditions(q)) + strong_clause(q) + limit_clause(q)
}

/// The folder parameters: the path pattern of each folder, in order.
pub open spec fn folder_params(f: Seq<FileID>, fm: Map<FileID, Seq<char>>) -> Seq<ParamView> {
    f.map_values(|id: FileID| ParamView::Text(folder_like_pattern(fm[id])))
}

/// The name parameters: the pattern of each name, in order.
pub open spec fn name_params(ns: Seq<Seq<char>>) -> Seq<ParamView> {
    ns.map_values(|n: Seq<char>| ParamView::Text(name_like_pattern(n)))
}

pub open spec fn limit_params(q: QueryView) -> Seq<ParamView> {
    match q.limit {
        Some(l) => seq![ParamView::Integer(l)] + (match q.start {
            Some(s) => seq![ParamView::Integer(s)],
            None => Seq::empty(),
        }),
        None => Seq::empty(),
    }
}

/// The parameters of a valid query, in the order of their `?`.
pub open spec fn query_params(q: QueryView, fm: Map<FileID, Seq<char>>) -> Seq<ParamView> {
    (match q.folders_include {
        Some(f) => folder_params(f, fm),
        None => Seq::empty(),
    }) + (match q.names {
        Some(ns) => name_params(ns),
        None => Seq::empty(),
    }) + (match q.tags_include {
        Some(t) => integer_params(t),
        None => Seq::empty(),
    }) + limit_params(q)
}

/// What rendering a valid query needs: every folder it names is in the folder map, and no
/// name it holds contains `%`.
pub open spec fn query_can_render(q: QueryView, fm: Map<FileID, Seq<char>>) -> bool {
    &&& match q.folders_include {
        Some(f) => forall|i: int| 0 <= i < f.len() ==> fm.contains_key(#[trigger] f[i]),
        None => true,
    }
    &&& match q.names {
        Some(ns) => forall|i: int| 0 <= i < ns.len() ==> !(#[trigger] ns[i]).contains('%'),
        None => true,
    }
}

fn push_folder_condition(folders: &Vec<FileID>, folder_map: &FolderMap, params: &mut Vec<SqlParam>) -> (cond: String)
    requires
        folders@.len() > 0,
        forall|i: int| 0 <= i < folders@.len() ==> folder_map@.contains_key(#[trigger] folders@[i]),
    ensures
        cond@ == folder_condition(folders@.len()),
        params_view(final(params)@) == params_view(old(params)@) + folder_params(folders@, folder_map@),
{
    let ghost start = params@;
    let mut cond = String::from_str("image.path LIKE ?");
    let mut k: usize = 0;
    while k < folders.len()
        invariant
            k <= folders@.len(),
            forall|i: int| 0 <= i < folders@.len() ==> folder_map@.contains_key(#[trigger] folders@[i]),
            k == 0 ==> cond@ == "image.path LIKE ?"@,
            k > 0 ==> cond@ == "image.path LIKE ?"@ + repeat("OR image.path LIKE ?"@, (k - 1) as nat),
            params_view(params@) == params_view(start) + folder_params(folders@.take(k as int), folder_map@),
        decreases folders.len() - k,
    {
        if k > 0 {
            cond.append("OR image.path LIKE ?");
            assert(cond@ =~= "image.path LIKE ?"@ + repeat("OR image.path LIKE ?"@, k as nat));
        }
        let ghost before = params@;
        let pattern = folder_map.get_folder_for_sql_like_clause(folders[k]);
        params.push(SqlParam::Text(pattern));
        assert(params@ == before.push(SqlParam::Text(pattern)));
        assert(params_view(params@) =~= params_view(before).push(ParamView::Text(folder_like_pattern(folder_map@[folders@[k as int]]))));
        assert(folder_params(folders@.take(k + 1), folder_map@) =~= folder_params(folders@.take(k as int), folder_map@).push(
            ParamView::Text(folder_like_pattern(folder_map@[folders@[k as int]]))));
        assert(params_view(params@) =~= params_view(start) + folder_params(folders@.take(k + 1), folder_map@));
        k = k + 1;
    }
    assert(folders@.take(folders@.len() as int) =~= folders@);
    cond
}

fn push_name_condition(names: &Vec<String>, params: &mut Vec<SqlParam>) -> (cond: String)
    requires
        names@.len() > 0,
        forall|i: int| 0 <= i < names@.len() ==> !(#[trigger] names@[i])@.contains('%'),
    ensures
        cond@ == name_condition(names@.len()),
        params_view(final(params)@) == params_view(old(params)@) + name_params(strings_view(names@)),
{
    let ghost start = params@;
    let ghost ns = strings_view(names@);
    let mut cond = String::from_str("path LIKE ?");
    let mut k: usize = 0;
    while k < names.len()
        invariant
            k <= names@.len(),
            ns == strings_view(names@),
            forall|i: int| 0 <= i < names@.len() ==> !(#[trigger] names@[i])@.contains('%'),
            k == 0 ==> cond@ == "path LIKE ?"@,
            k > 0 ==> cond@ == "path LIKE ?"@ + repeat("OR image.path LIKE ?"@, (k - 1) as nat),
            params_view(params@) == params_view(start) + name_params(ns.take(k as int)),
        decreases names.len() - k,
    {
        if k > 0 {
            cond.append("OR image.path LIKE ?");
            assert(cond@ =~= "path LIKE ?"@ + repeat("OR image.path LIKE ?"@, k as nat));
        }
        let ghost before = params@;
        assert(!names@[k as int]@.contains('%'));
        let rendered = render_name_for_sql_like_clause(names[k].clone());
        params.push(SqlParam::Text(rendered));
        assert(params@ == before.push(SqlParam::Text(rendered)));
        assert(params_view(params@) =~= params_view(before).push(ParamView::Text(name_like_pattern(ns[k as int]))));
        assert(name_params(ns.take(k + 1)) =~= name_params(ns.take(k as int)).push(ParamView::Text(name_like_pattern(ns[k as int]))));
        assert(params_view(params@) =~= params_view(start) + name_params(ns.take(k + 1)));
        k = k + 1;
    }
    assert(ns.take(ns.len() as int) =~= ns);
    cond
}

/// Appends the conditions to `sql`, the first as it is and each later one after `AND`.
fn append_joined(sql: &mut String, conditions: &Vec<String>)
    requires
        conditions@.len() > 0,
    ensures
        final(sql)@ == old(sql)@ + join_and(strings_view(conditions@)),
{
    let ghost start = sql@;
    let ghost cs = strings_view(conditions@);
    sql.append(conditions[0].as_str());
    assert(cs.take(1) =~= seq![cs[0]]);
    assert(join_and(cs.take(1)) == cs[0]);
    let mut k: usize = 1;
    while k < conditions.len()
        invariant
            1 <= k <= conditions@.len(),
            cs == strings_view(conditions@),
            sql@ == start + join_and(cs.take(k as int)),
        decreases conditions.len() - k,
    {
        sql.append(" AND ");
        sql.append(conditions[k].as_str());
        assert(cs.take(k + 1).drop_last() =~= cs.take(k as int));
        assert(sql@ =~= start + join_and(cs.take(k + 1)));
        k = k + 1;
    }
    assert(cs.take(cs.len() as int) =~= cs);
}

impl FileQuery {
    /// Returns whether this query can be converted into valid SQL.
    pub fn is_valid(&self) -> (r: bool)
        ensures
            r == query_is_valid(self@),
            r <==> ({
                &&& (self.tags_include is Some || self.folders_include is Some || self.names is Some)
                &&& (self.tags_include matches Some(t) ==> t@.len() > 0)
                &&& (self.folders_include matches Some(f) ==> f@.len() > 0)
                &&& (self.names matches Some(ns) ==> ns@.len() > 0)
                &&& (self.include_strong == Some(true) ==> self.tags_include is Some)
            }),
    {
        if self.tags_include.is_none() && self.folders_include.is_none() && self.names.is_none() {
            return false;
        }
        match &self.tags_include {
            Some(tags) => {
                if tags.len() == 0 {
                    return false;
                }
            },
            None => {},
        }
        match &self.folders_include {
            Some(folders) => {
                if folders.len() == 0 {
                    return false;
                }
            },
            None => {},
        }
        match &self.names {
            Some(names) => {
                if names.len() == 0 {
                    return false;
                }
            },
            None => {},
        }
        let strong = match self.include_strong {
            Some(b) => b,
            None => false,
        };
        if self.tags_include.is_none() && strong {
            return false;
        }
        true
    }

    /// Given a query, returns its SQL text and the parameters for its `?` placeholders, or
    /// an error when the query is not valid.
    pub fn query_to_sql_and_params(&self, folder_map: &FolderMap) -> (r: Result<(String, Vec<SqlParam>), Error>)
        requires
            query_is_valid(self@) ==> query_can_render(self@, folder_map@),
        ensures
            match r {
                Ok((sql, params)) => {
                    &&& query_is_valid(self@)
                    &&& sql@ == query_sql(self@)
                    &&& params_view(params@) == query_params(self@, folder_map@)
                },
                Err(e) => {
                    &&& !query_is_valid(self@)
                    &&& e.gui_msg@ == "Recieved a malformed SQL query."@
                    &&& e.err_type == ErrorType::Basic
                },
            },
    {
        if !self.is_valid() {
            return Err(Error::basic("Recieved a malformed SQL query."));
        }
        let ghost q = self@;
        let mut sql = String::new();
        let mut params: Vec<SqlParam> = Vec::new();
        let mut conditions: Vec<String> = Vec::new();
        sql.append("SELECT DISTINCT image.id FROM image\n        JOIN tag_records ON image.id=tag_records.image_id\n        WHERE ");
        match &self.folders_include {
            Some(folders) => {
                let cond = push_folder_condition(folders, folder_map, &mut params);
                conditions.push(cond);
            },
            None => {},
        }
        let ghost folder_part_conds = strings_view(conditions@);
        let ghost folder_part_params = params_view(params@);
        match &self.names {
            Some(names) => {
                assert forall|i: int| 0 <= i < names@.len() implies !(#[trigger] names@[i])@.contains('%') by {
                    assert(strings_view(names@)[i] == names@[i]@);
                }
                let cond = push_name_condition(names, &mut params);
                conditions.push(cond);
            },
            None => {},
        }
        let ghost name_part_conds = strings_view(conditions@);
        let ghost name_part_params = params_view(params@);
        assert(name_part_conds =~= folder_part_conds + match q.names {
            Some(ns) => seq![name_condition(ns.len())],
            None => Seq::<Seq<char>>::empty(),
        });
        match &self.tags_include {
            Some(tags) => {
                let cond = append_tags_clause(tags, &mut params);
                conditions.push(cond);
            },
            None => {},
        }
        assert(strings_view(conditions@) =~= query_conditions(q));
        append_joined(&mut sql, &conditions);
        let ghost joined = sql@;
        let strong = match self.include_strong {
            Some(b) => b,
            None => false,
        };
        if strong {
            sql.append(" GROUP BY tag_records.image_id HAVING COUNT (image_id) = ");
            match &self.tags_include {
                Some(tags) => append_decimal(&mut sql, tags.len()),
                None => {},
            }
        }
        assert(sql@ =~= joined + strong_clause(q));
        let ghost tag_part_params = params_view(params@);
        assert(tag_part_params =~= (match q.folders_include {
            Some(f) => folder_params(f, folder_map@),
            None => Seq::empty(),
        }) + (match q.names {
            Some(ns) => name_params(ns),
            None => Seq::empty(),
        }) + (match q.tags_include {
            Some(t) => integer_params(t),
            None => Seq::empty(),
        }));
        match self.limit {
            Some(limit) => {
                sql.append(" LIMIT ?");
                params.push(SqlParam::Integer(limit));
                match self.start {
                    Some(offset) => {
                        sql.append(" OFFSET ?");
                        params.push(SqlParam::Integer(offset));
                    },
                    None => {},
                }
            },
            None => {},
        }
        assert(sql@ =~= query_sql(q));
        assert(params_view(params@) =~= tag_part_params + limit_params(q));
        Ok((sql, params))
    }

    /// Queries with the limits removed return an exhaustive list of files meeting the
    /// criteria without truncation: neither a limit nor a start is left.
    pub fn remove_limits(&mut self)
        ensures
            final(self)@ == unlimited(old(self)@),
            final(self).tags_include == old(self).tags_include,
            final(self).include_strong == old(self).include_strong,
            final(self).folders_include == old(self).folders_include,
            final(self).names == old(self).names,
            final(self).limit is None,
            final(self).start is None,
    {
        self.limit = None;
        self.start = None;
    }
}

} // verus!
