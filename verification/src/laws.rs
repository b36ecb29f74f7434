//! Properties that hold across the library's operations.
use vstd::prelude::*;
use crate::cache::QuerySizeCache;
use crate::context::{largest_row_id, Database};
use crate::api::{DatabaseID, FileID, TagDetails, TagID};
use crate::query::{FileQuery, QueryView, ParamView, query_is_valid, name_like_pattern, unlimited, query_sql, query_params, repeat, placeholders, tags_clause, folder_condition, name_condition, query_conditions, join_and, select_prefix, strong_clause, limit_clause, folder_params, name_params, limit_params};
use crate::text::{decimal, digit_char};
use vstd::string::*;
use crate::folders::folder_like_pattern;
use crate::tags::{TagGraph, is_ancestor, is_parent, is_parent_path, node_of_details, populated, add_edge, with_node};
use crate::folders::folder_rows_map;
use crate::encoding::base64_standard;

verus! {

/// Every direct parent of a tag (what `get_parent_ids` returns) is among its ancestors
/// (what `get_ancestor_ids` returns).
pub proof fn law_parents_are_ancestors(graph: TagGraph, id: TagID)
    requires
        graph@.contains_key(id),
    ensures
        forall|p: TagID| graph@[id].parents.contains(p) ==> is_ancestor(graph@, id, p),
{
    assert forall|p: TagID| graph@[id].parents.contains(p) implies is_ancestor(graph@, id, p) by {
        let path = seq![id, p];
        assert(is_parent(graph@, path[0int], path[0int + 1]));
        assert(is_parent_path(graph@, path));
    }
}

/// An ancestor of an ancestor of a tag is an ancestor of that tag.
pub proof fn law_ancestors_transitive(graph: TagGraph, a: TagID, b: TagID, c: TagID)
    requires
        is_ancestor(graph@, a, b),
        is_ancestor(graph@, b, c),
    ensures
        is_ancestor(graph@, a, c),
{
    let g = graph@;
    let p1 = choose|path: Seq<TagID>|
        #![trigger is_parent_path(g, path)]
        path.len() >= 2 && path[0] == a && path.last() == b && is_parent_path(g, path);
    let p2 = choose|path: Seq<TagID>|
        #![trigger is_parent_path(g, path)]
        path.len() >= 2 && path[0] == b && path.last() == c && is_parent_path(g, path);
    let joined = p1 + p2.skip(1);
    assert forall|i: int| 0 <= i < joined.len() - 1 implies #[trigger] is_parent(g, joined[i], joined[i + 1]) by {
        if i < p1.len() - 1 {
            assert(joined[i] == p1[i] && joined[i + 1] == p1[i + 1]);
        } else if i == p1.len() - 1 {
            assert(joined[i] == b && joined[i + 1] == p2[1]);
            assert(is_parent(g, p2[0int], p2[0int + 1]));
        } else {
            let j = i - p1.len() + 1;
            assert(joined[i] == p2[j] && joined[i + 1] == p2[j + 1]);
        }
    }
    assert(is_parent_path(g, joined));
    assert(joined[0] == a);
    assert(joined.last() == c);
}

/// After a tag is inserted or modified, reading its parents gives back the parents written,
/// and no other tag changes.
pub proof fn law_tag_read_after_write(graph: TagGraph, tag: TagDetails, other: TagID)
    requires
        other != tag.id,
    ensures
        graph@.insert(tag.id, node_of_details(tag)@)[tag.id].parents == tag.parents@,
        graph@.insert(tag.id, node_of_details(tag)@).contains_key(other) == graph@.contains_key(other),
        graph@.contains_key(other) ==> graph@.insert(tag.id, node_of_details(tag)@)[other] == graph@[other],
{
}

/// After the size of a query is recorded, the cache knows it and returns that size;
/// what it knew of every other query stays as it was.
pub proof fn law_cache_read_after_write(cache: QuerySizeCache, query: FileQuery, size: usize, other: QueryView)
    requires
        other != query@,
    ensures
        cache@.insert(query@, size).contains_key(query@),
        cache@.insert(query@, size)[query@] == size,
        cache@.insert(query@, size).contains_key(other) == cache@.contains_key(other),
        cache@.contains_key(other) ==> cache@.insert(query@, size)[other] == cache@[other],
{
}

/// A query with its limits removed keeps its tags, strong flag, folders and names as they were,
/// element for element, and so its conditions and its validity; its SQL has
/// no `LIMIT` or `OFFSET` clause and no parameter for one, so nothing truncates its results.
pub proof fn law_unlimited_query_is_untruncated(q: QueryView)
    ensures
        query_is_valid(unlimited(q)) == query_is_valid(q),
        query_conditions(unlimited(q)) == query_conditions(q),
        limit_clause(unlimited(q)) == Seq::<char>::empty(),
        limit_params(unlimited(q)) == Seq::<crate::query::ParamView>::empty(),
        query_sql(unlimited(q)) == select_prefix() + join_and(query_conditions(q)) + strong_clause(q),
        unlimited(q).tags_include == q.tags_include,
        unlimited(q).include_strong == q.include_strong,
        unlimited(q).folders_include == q.folders_include,
        unlimited(q).names == q.names,
        unlimited(q).limit is None,
        unlimited(q).start is None,
{
    assert(query_sql(unlimited(q)) =~= select_prefix() + join_and(query_conditions(q)) + strong_clause(q));
}

/// Two queries that differ only in their limit and start have the same unlimited form, so
/// they are counted by the same query and have the same size.
pub proof fn law_size_ignores_limits(q1: QueryView, q2: QueryView)
    requires
        q1.tags_include == q2.tags_include,
        q1.include_strong == q2.include_strong,
        q1.folders_include == q2.folders_include,
        q1.names == q2.names,
    ensures
        unlimited(q1) == unlimited(q2),
{
}

/// The graph after a series of tag inserts.
pub open spec fn graph_after_inserts(g: Map<TagID, crate::tags::TagNodeView>, tags: Seq<TagDetails>) -> Map<TagID, crate::tags::TagNodeView>
    decreases tags.len(),
{
    if tags.len() == 0 {
        g
    } else {
        graph_after_inserts(g, tags.drop_last()).insert(tags.last().id, node_of_details(tags.last())@)
    }
}

/// After a series of inserts, a tag's parents are those of its last insert, whatever other
/// tags were inserted after it.
pub proof fn law_tag_parents_survive_later_inserts(g: Map<TagID, crate::tags::TagNodeView>, tags: Seq<TagDetails>, i: int)
    requires
        0 <= i < tags.len(),
        forall|j: int| i < j < tags.len() ==> tags[j].id != tags[i].id,
    ensures
        graph_after_inserts(g, tags).contains_key(tags[i].id),
        graph_after_inserts(g, tags)[tags[i].id].parents == tags[i].parents@,
        graph_after_inserts(g, tags)[tags[i].id].name == tags[i].name@,
    decreases tags.len(),
{
    if i < tags.len() - 1 {
        let rest = tags.drop_last();
        assert forall|j: int| i < j < rest.len() implies rest[j].id != rest[i].id by {
            assert(rest[j] == tags[j]);
        }
        law_tag_parents_survive_later_inserts(g, rest, i);
        assert(rest[i] == tags[i]);
    }
}

/// The cache after a series of size records.
pub open spec fn cache_after_inserts(c: Map<QueryView, usize>, entries: Seq<(QueryView, usize)>) -> Map<QueryView, usize>
    decreases entries.len(),
{
    if entries.len() == 0 {
        c
    } else {
        cache_after_inserts(c, entries.drop_last()).insert(entries.last().0, entries.last().1)
    }
}

/// After a series of size records, the size of a query is the one last recorded for it,
/// whatever other queries were recorded after it.
pub proof fn law_cache_size_survives_later_inserts(c: Map<QueryView, usize>, entries: Seq<(QueryView, usize)>, i: int)
    requires
        0 <= i < entries.len(),
        forall|j: int| i < j < entries.len() ==> entries[j].0 != entries[i].0,
    ensures
        cache_after_inserts(c, entries).contains_key(entries[i].0),
        cache_after_inserts(c, entries)[entries[i].0] == entries[i].1,
    decreases entries.len(),
{
    if i < entries.len() - 1 {
        let rest = entries.drop_last();
        assert forall|j: int| i < j < rest.len() implies rest[j].0 != rest[i].0 by {
            assert(rest[j] == entries[j]);
        }
        law_cache_size_survives_later_inserts(c, rest, i);
        assert(rest[i] == entries[i]);
    }
}

/// The largest id of a database map built from rows is at least every id among the rows,
/// and it is one of them unless there are none.
pub proof fn law_largest_id_is_greatest(rows: Seq<(DatabaseID, Database)>)
    ensures
        forall|i: int| 0 <= i < rows.len() ==> rows[i].0 <= largest_row_id(rows),
        rows.len() == 0 ==> largest_row_id(rows) == 0,
        rows.len() > 0 ==> exists|i: int| 0 <= i < rows.len() && rows[i].0 == largest_row_id(rows),
    decreases rows.len(),
{
    if rows.len() > 0 {
        let rest = rows.drop_last();
        law_largest_id_is_greatest(rest);
        assert forall|i: int| 0 <= i < rows.len() implies rows[i].0 <= largest_row_id(rows) by {
            if i < rest.len() {
                assert(rows[i] == rest[i]);
            }
        }
        if rest.len() > 0 && largest_row_id(rest) > rows.last().0 {
            let i = choose|i: int| 0 <= i < rest.len() && rest[i].0 == largest_row_id(rest);
            assert(rows[i] == rest[i]);
        } else {
            assert(rows[rows.len() - 1].0 == largest_row_id(rows));
        }
    }
}

/// The number of `?` among the first `n` characters of `s`.
pub open spec fn count_prefix(s: Seq<char>, n: nat) -> nat
    decreases n,
{
    if n == 0 {
        0
    } else {
        count_prefix(s, (n - 1) as nat) + (if s[n - 1] == '?' { 1nat } else { 0nat })
    }
}

/// The number of `?` placeholders in `s`.
pub open spec fn count_placeholders(s: Seq<char>) -> nat {
    count_prefix(s, s.len())
}

proof fn lemma_count_prefix_concat(a: Seq<char>, b: Seq<char>, k: nat)
    requires
        k <= b.len(),
    ensures
        count_prefix(a + b, a.len() + k) == count_placeholders(a) + count_prefix(b, k),
    decreases k,
{
    if k == 0 {
        lemma_count_prefix_same(a + b, a, a.len());
    } else {
        lemma_count_prefix_concat(a, b, (k - 1) as nat);
        assert((a + b)[a.len() + k - 1] == b[k - 1]);
    }
}

proof fn lemma_count_prefix_same(s: Seq<char>, t: Seq<char>, n: nat)
    requires
        n <= s.len(),
        n <= t.len(),
        forall|i: int| 0 <= i < n ==> s[i] == t[i],
    ensures
        count_prefix(s, n) == count_prefix(t, n),
    decreases n,
{
    if n > 0 {
        lemma_count_prefix_same(s, t, (n - 1) as nat);
    }
}

proof fn lemma_count_concat(a: Seq<char>, b: Seq<char>)
    ensures
        count_placeholders(a + b) == count_placeholders(a) + count_placeholders(b),
{
    lemma_count_prefix_concat(a, b, b.len());
}

proof fn lemma_count_repeat(s: Seq<char>, n: nat)
    ensures
        count_placeholders(repeat(s, n)) == n * count_placeholders(s),
    decreases n,
{
    if n > 0 {
        lemma_count_repeat(s, (n - 1) as nat);
        lemma_count_concat(repeat(s, (n - 1) as nat), s);
        assert(repeat(s, n) == repeat(s, (n - 1) as nat) + s);
        assert(n * count_placeholders(s) == (n - 1) * count_placeholders(s) + count_placeholders(s)) by (nonlinear_arith);
    } else {
        assert(repeat(s, 0) == Seq::<char>::empty());
    }
}

proof fn lemma_count_decimal(n: nat)
    ensures
        count_placeholders(decimal(n)) == 0,
    decreases n,
{
    if n < 10 {
        assert(decimal(n) == seq![digit_char(n)]);
        assert(count_prefix(decimal(n), 0) == 0);
    } else {
        lemma_count_decimal(n / 10);
        let d = decimal(n / 10);
        assert(decimal(n) == d.push(digit_char(n % 10)));
        assert(d.push(digit_char(n % 10)) =~= d + seq![digit_char(n % 10)]);
        lemma_count_concat(d, seq![digit_char(n % 10)]);
        assert(count_prefix(seq![digit_char(n % 10)], 0) == 0);
    }
}

#[verifier::rlimit(50)]
proof fn lemma_count_select_prefix()
    ensures
        count_placeholders(select_prefix()) == 0,
{
    reveal_strlit("SELECT DISTINCT image.id FROM image\n        JOIN tag_records ON image.id=tag_records.image_id\n        WHERE ");
    let s = select_prefix();
    assert(s.len() == 108);
    reveal_with_fuel(count_prefix, 12);
    assert(count_prefix(s, 10) == 0);
    assert(count_prefix(s, 20) == 0);
    assert(count_prefix(s, 30) == 0);
    assert(count_prefix(s, 40) == 0);
    assert(count_prefix(s, 50) == 0);
    assert(count_prefix(s, 60) == 0);
    assert(count_prefix(s, 70) == 0);
    assert(count_prefix(s, 80) == 0);
    assert(count_prefix(s, 90) == 0);
    assert(count_prefix(s, 100) == 0);
    assert(count_prefix(s, 108) == 0);
}

proof fn lemma_count_short_literals()
    ensures
        count_placeholders("image.path LIKE ?"@) == 1,
        count_placeholders("OR image.path LIKE ?"@) == 1,
        count_placeholders("path LIKE ?"@) == 1,
        count_placeholders("?"@) == 1,
        count_placeholders(",?"@) == 1,
        count_placeholders(")"@) == 0,
        count_placeholders(" AND "@) == 0,
        count_placeholders(" LIMIT ?"@) == 1,
        count_placeholders(" OFFSET ?"@) == 1,
{
    reveal_strlit("image.path LIKE ?");
    reveal_strlit("OR image.path LIKE ?");
    reveal_strlit("path LIKE ?");
    reveal_strlit("?");
    reveal_strlit(",?");
    reveal_strlit(")");
    reveal_strlit(" AND ");
    reveal_strlit(" LIMIT ?");
    reveal_strlit(" OFFSET ?");
    assert("image.path LIKE ?"@.len() == 17);
    assert("OR image.path LIKE ?"@.len() == 20);
    assert("path LIKE ?"@.len() == 11);
    assert("?"@.len() == 1);
    assert(",?"@.len() == 2);
    assert(")"@.len() == 1);
    assert(" AND "@.len() == 5);
    assert(" LIMIT ?"@.len() == 8);
    assert(" OFFSET ?"@.len() == 9);
    reveal_with_fuel(count_prefix, 22);
}

proof fn lemma_count_tag_literals()
    ensures
        count_placeholders("tag_records.tag_id IN("@) == 0,
        count_placeholders("tag_records.tag_id IN()"@) == 0,
{
    reveal_strlit("tag_records.tag_id IN(");
    reveal_strlit("tag_records.tag_id IN()");
    assert("tag_records.tag_id IN("@.len() == 22);
    assert("tag_records.tag_id IN()"@.len() == 23);
    reveal_with_fuel(count_prefix, 24);
}

proof fn lemma_count_group_literal()
    ensures
        count_placeholders(" GROUP BY tag_records.image_id HAVING COUNT (image_id) = "@) == 0,
{
    reveal_strlit(" GROUP BY tag_records.image_id HAVING COUNT (image_id) = ");
    let s = " GROUP BY tag_records.image_id HAVING COUNT (image_id) = "@;
    assert(s.len() == 57);
    reveal_with_fuel(count_prefix, 12);
    assert(count_prefix(s, 10) == 0);
    assert(count_prefix(s, 20) == 0);
    assert(count_prefix(s, 30) == 0);
    assert(count_prefix(s, 40) == 0);
    assert(count_prefix(s, 50) == 0);
    assert(count_prefix(s, 57) == 0);
}

/// The placeholders of all the conditions together.
pub open spec fn sum_counts(cs: Seq<Seq<char>>) -> nat
    decreases cs.len(),
{
    if cs.len() == 0 {
        0
    } else {
        sum_counts(cs.drop_last()) + count_placeholders(cs.last())
    }
}

proof fn lemma_count_join(cs: Seq<Seq<char>>)
    ensures
        count_placeholders(join_and(cs)) == sum_counts(cs),
    decreases cs.len(),
{
    lemma_count_short_literals();
    if cs.len() == 0 {
    } else if cs.len() == 1 {
        assert(cs.drop_last() =~= Seq::<Seq<char>>::empty());
        assert(sum_counts(cs.drop_last()) == 0);
        assert(cs.last() == cs[0]);
    } else {
        lemma_count_join(cs.drop_last());
        lemma_count_concat(join_and(cs.drop_last()), " AND "@);
        lemma_count_concat(join_and(cs.drop_last()) + " AND "@, cs.last());
    }
}

proof fn lemma_sum_counts_concat(a: Seq<Seq<char>>, b: Seq<Seq<char>>)
    ensures
        sum_counts(a + b) == sum_counts(a) + sum_counts(b),
    decreases b.len(),
{
    if b.len() == 0 {
        assert(a + b =~= a);
    } else {
        lemma_sum_counts_concat(a, b.drop_last());
        assert((a + b).drop_last() =~= a + b.drop_last());
    }
}

proof fn lemma_sum_counts_single(c: Seq<char>)
    ensures
        sum_counts(seq![c]) == count_placeholders(c),
{
    assert(seq![c].drop_last() =~= Seq::<Seq<char>>::empty());
    assert(sum_counts(seq![c].drop_last()) == 0);
    assert(seq![c].last() == c);
}

proof fn lemma_count_condition(prefix: Seq<char>, n: nat)
    requires
        n >= 1,
        count_placeholders(prefix) == 1,
        count_placeholders("OR image.path LIKE ?"@) == 1,
    ensures
        count_placeholders(prefix + repeat("OR image.path LIKE ?"@, (n - 1) as nat)) == n,
{
    lemma_count_concat(prefix, repeat("OR image.path LIKE ?"@, (n - 1) as nat));
    lemma_count_repeat("OR image.path LIKE ?"@, (n - 1) as nat);
    assert((n - 1) as nat * 1 == n - 1) by (nonlinear_arith)
        requires
            n >= 1,
    ;
}

proof fn lemma_count_tags_clause(n: nat)
    ensures
        count_placeholders(tags_clause(n)) == n,
{
    lemma_count_short_literals();
    lemma_count_tag_literals();
    if n > 0 {
        lemma_count_repeat(",?"@, (n - 1) as nat);
        lemma_count_concat("?"@, repeat(",?"@, (n - 1) as nat));
        lemma_count_concat("tag_records.tag_id IN("@, placeholders(n));
        lemma_count_concat("tag_records.tag_id IN("@ + placeholders(n), ")"@);
    }
}

/// The SQL text of a valid query has exactly as many `?` placeholders as there are
/// parameters to bind to them.
pub proof fn law_placeholders_match_params(q: QueryView, fm: Map<FileID, Seq<char>>)
    requires
        query_is_valid(q),
    ensures
        count_placeholders(query_sql(q)) == query_params(q, fm).len(),
{
    lemma_count_short_literals();
    lemma_count_select_prefix();
    lemma_count_group_literal();
    let folders_part: Seq<Seq<char>> = match q.folders_include {
        Some(f) => seq![folder_condition(f.len())],
        None => Seq::empty(),
    };
    let names_part: Seq<Seq<char>> = match q.names {
        Some(ns) => seq![name_condition(ns.len())],
        None => Seq::empty(),
    };
    let tags_part: Seq<Seq<char>> = match q.tags_include {
        Some(t) => seq![tags_clause(t.len())],
        None => Seq::empty(),
    };
    assert(query_conditions(q) == folders_part + names_part + tags_part);
    lemma_sum_counts_concat(folders_part + names_part, tags_part);
    lemma_sum_counts_concat(folders_part, names_part);
    let folder_count: nat = match q.folders_include {
        Some(f) => f.len(),
        None => 0,
    };
    let name_count: nat = match q.names {
        Some(ns) => ns.len(),
        None => 0,
    };
    let tag_count: nat = match q.tags_include {
        Some(t) => t.len(),
        None => 0,
    };
    match q.folders_include {
        Some(f) => {
            lemma_sum_counts_single(folder_condition(f.len()));
            lemma_count_condition("image.path LIKE ?"@, f.len());
            assert(folder_params(f, fm).len() == f.len());
        },
        None => {},
    }
    assert(sum_counts(folders_part) == folder_count);
    match q.names {
        Some(ns) => {
            lemma_sum_counts_single(name_condition(ns.len()));
            lemma_count_condition("path LIKE ?"@, ns.len());
            assert(name_params(ns).len() == ns.len());
        },
        None => {},
    }
    assert(sum_counts(names_part) == name_count);
    match q.tags_include {
        Some(t) => {
            lemma_sum_counts_single(tags_clause(t.len()));
            lemma_count_tags_clause(t.len());
        },
        None => {},
    }
    assert(sum_counts(tags_part) == tag_count);
    lemma_count_join(query_conditions(q));
    let strong = strong_clause(q);
    if q.include_strong == Some(true) {
        lemma_count_decimal(tag_count);
        lemma_count_concat(" GROUP BY tag_records.image_id HAVING COUNT (image_id) = "@, decimal(tag_count));
    }
    assert(count_placeholders(strong) == 0);
    let limit = limit_clause(q);
    match q.limit {
        Some(_) => {
            if q.start is Some {
                lemma_count_concat(" LIMIT ?"@, " OFFSET ?"@);
            } else {
                lemma_count_concat(" LIMIT ?"@, Seq::empty());
            }
        },
        None => {},
    }
    assert(count_placeholders(limit) == limit_params(q).len());
    let joined = join_and(query_conditions(q));
    lemma_count_concat(select_prefix(), joined);
    lemma_count_concat(select_prefix() + joined, strong);
    lemma_count_concat(select_prefix() + joined + strong, limit);
}

/// The standard base64 text of `n` bytes has `4 * ceil(n / 3)` characters.
pub proof fn law_base64_length(bytes: Seq<u8>)
    ensures
        base64_standard(bytes).len() == 4 * ((bytes.len() + 2) / 3),
    decreases bytes.len(),
{
    if bytes.len() >= 3 {
        law_base64_length(bytes.subrange(3, bytes.len() as int));
    }
}

/// A folder map built from rows holds, for each row, the path of the last row with that id.
pub proof fn law_folder_map_keeps_last_row(rows: Seq<(FileID, String)>, i: int)
    requires
        0 <= i < rows.len(),
        forall|j: int| i < j < rows.len() ==> rows[j].0 != rows[i].0,
    ensures
        folder_rows_map(rows).contains_key(rows[i].0),
        folder_rows_map(rows)[rows[i].0] == rows[i].1@,
    decreases rows.len(),
{
    if i < rows.len() - 1 {
        let rest = rows.drop_last();
        assert forall|j: int| i < j < rest.len() implies rest[j].0 != rest[i].0 by {
            assert(rest[j] == rows[j]);
        }
        law_folder_map_keeps_last_row(rest, i);
        assert(rest[i] == rows[i]);
    }
}

/// A tag graph built from `(parent, child)` rows has a node for every tag that a row names,
/// and lists the parent of every row among the parents of its child.
pub proof fn law_populated_graph_has_every_edge(rows: Seq<(TagID, TagID)>, names: Map<TagID, String>)
    ensures
        forall|i: int| 0 <= i < rows.len() ==> {
            &&& populated(rows, names).contains_key(#[trigger] rows[i].0)
            &&& populated(rows, names).contains_key(rows[i].1)
            &&& is_parent(populated(rows, names), rows[i].1, rows[i].0)
        },
    decreases rows.len(),
{
    if rows.len() > 0 {
        let rest = rows.drop_last();
        law_populated_graph_has_every_edge(rest, names);
        let g = populated(rest, names);
        let (parent, child) = rows.last();
        let g2 = with_node(with_node(g, child, names), parent, names);
        let g3 = add_edge(g, parent, child, names);
        assert(g3 == populated(rows, names));
        assert forall|i: int| 0 <= i < rows.len() implies {
            &&& g3.contains_key(#[trigger] rows[i].0)
            &&& g3.contains_key(rows[i].1)
            &&& is_parent(g3, rows[i].1, rows[i].0)
        } by {
            if i < rest.len() {
                assert(rows[i] == rest[i]);
                assert(g.contains_key(rest[i].0));
                assert(g.contains_key(rest[i].1));
                assert(is_parent(g, rest[i].1, rest[i].0));
                assert(g2[rows[i].1] == g[rows[i].1]);
                if rows[i].1 == child {
                    let old_parents = g2[child].parents;
                    let k = choose|k: int| 0 <= k < old_parents.len() && old_parents[k] == rows[i].0;
                    assert(g3[child].parents[k] == rows[i].0);
                }
            } else {
                assert(rows[i] == (parent, child));
                let new_parents = g2[child].parents.push(parent);
                assert(new_parents[new_parents.len() - 1] == parent);
            }
        }
    }
}


/// A query is valid exactly when it names at least one list of tags, folders or names, none
/// of the lists it names is empty, and strong inclusion is asked for only together with tags.
pub proof fn law_validity_by_fields(q: QueryView)
    ensures
        query_is_valid(q) <==> ({
            &&& (q.tags_include is Some || q.folders_include is Some || q.names is Some)
            &&& (q.tags_include matches Some(t) ==> t.len() > 0)
            &&& (q.folders_include matches Some(f) ==> f.len() > 0)
            &&& (q.names matches Some(ns) ==> ns.len() > 0)
            &&& (q.include_strong == Some(true) ==> q.tags_include is Some)
        }),
{
}

/// Adding a non-empty list of tags, folders or names to a valid query that has none keeps it
/// valid: a query of tags alone stays valid when folders are added, and so on.
pub proof fn law_adding_a_list_keeps_a_query_valid(
    q: QueryView,
    tags: Seq<TagID>,
    folders: Seq<FileID>,
    names: Seq<Seq<char>>,
)
    requires
        query_is_valid(q),
    ensures
        q.tags_include is None && tags.len() > 0 ==> query_is_valid((QueryView { tags_include: Some(tags), ..q })),
        q.folders_include is None && folders.len() > 0 ==> query_is_valid((QueryView { folders_include: Some(folders), ..q })),
        q.names is None && names.len() > 0 ==> query_is_valid((QueryView { names: Some(names), ..q })),
{
}

/// The pattern of a name is `%/%`, the name itself, then `%.%`, whatever the name.
pub proof fn law_name_pattern_shape(name: Seq<char>)
    ensures
        name_like_pattern(name).len() == name.len() + 6,
        name_like_pattern(name)[0] == '%',
        name_like_pattern(name)[1] == '/',
        name_like_pattern(name)[2] == '%',
        name_like_pattern(name).subrange(3, name.len() as int + 3) == name,
        name_like_pattern(name)[name.len() as int + 3] == '%',
        name_like_pattern(name)[name.len() as int + 4] == '.',
        name_like_pattern(name)[name.len() as int + 5] == '%',
{
    reveal_strlit("%/%");
    reveal_strlit("%.%");
    assert(name_like_pattern(name).subrange(3, name.len() as int + 3) =~= name);
}

/// The number of items of a list that a query may leave out; none when it is left out.
pub open spec fn list_len<T>(o: Option<Seq<T>>) -> nat {
    match o {
        Some(s) => s.len(),
        None => 0,
    }
}

/// The number of paging parameters: the limit, and the offset when it comes with a limit.
pub open spec fn paging_len(q: QueryView) -> nat {
    match q.limit {
        Some(_) => if q.start is Some { 2 } else { 1 },
        None => 0,
    }
}

/// The SQL text that selects by folder: one `LIKE` per folder.
pub open spec fn folder_text(q: QueryView) -> Seq<char> {
    match q.folders_include {
        Some(f) => "image.path LIKE ?"@ + repeat("OR image.path LIKE ?"@, (f.len() - 1) as nat),
        None => Seq::empty(),
    }
}

/// The SQL text that selects by name, after `AND` when folders come first: one `LIKE` per name.
pub open spec fn name_text(q: QueryView) -> Seq<char> {
    match q.names {
        Some(ns) => (if q.folders_include is Some { " AND "@ } else { Seq::empty() }) + "path LIKE ?"@
            + repeat("OR image.path LIKE ?"@, (ns.len() - 1) as nat),
        None => Seq::empty(),
    }
}

/// The SQL text that selects by tag, after `AND` when folders or names come first: one `?` per tag.
pub open spec fn tag_text(q: QueryView) -> Seq<char> {
    match q.tags_include {
        Some(t) => (if q.folders_include is Some || q.names is Some { " AND "@ } else { Seq::empty() })
            + "tag_records.tag_id IN("@ + "?"@ + repeat(",?"@, (t.len() - 1) as nat) + ")"@,
        None => Seq::empty(),
    }
}

proof fn lemma_join_push(a: Seq<Seq<char>>, c: Seq<char>)
    ensures
        join_and(a + seq![c]) == (if a.len() == 0 { c } else { join_and(a) + " AND "@ + c }),
{
    let b = a + seq![c];
    assert(b.drop_last() =~= a);
    assert(b.last() == c);
    if a.len() == 0 {
        assert(b.len() == 1);
        assert(b[0] == c);
    }
}

proof fn lemma_count_empty()
    ensures
        count_placeholders(Seq::<char>::empty()) == 0,
{
}

spec fn folder_conds(q: QueryView) -> Seq<Seq<char>> {
    match q.folders_include {
        Some(f) => seq![folder_condition(f.len())],
        None => Seq::empty(),
    }
}

spec fn name_conds(q: QueryView) -> Seq<Seq<char>> {
    match q.names {
        Some(ns) => seq![name_condition(ns.len())],
        None => Seq::empty(),
    }
}

spec fn tag_conds(q: QueryView) -> Seq<Seq<char>> {
    match q.tags_include {
        Some(t) => seq![tags_clause(t.len())],
        None => Seq::empty(),
    }
}

proof fn lemma_join_folders(q: QueryView)
    ensures
        join_and(folder_conds(q)) == folder_text(q),
        folder_conds(q).len() > 0 <==> q.folders_include is Some,
{
    match q.folders_include {
        Some(f) => {
            assert(folder_conds(q).len() == 1);
            assert(folder_conds(q)[0] == folder_condition(f.len()));
        },
        None => {},
    }
}

proof fn lemma_join_names(q: QueryView)
    ensures
        join_and(folder_conds(q) + name_conds(q)) == folder_text(q) + name_text(q),
        (folder_conds(q) + name_conds(q)).len() > 0 <==> (q.folders_include is Some || q.names is Some),
{
    lemma_join_folders(q);
    let cf = folder_conds(q);
    match q.names {
        Some(ns) => {
            let c = name_condition(ns.len());
            lemma_join_push(cf, c);
            assert(name_conds(q) == seq![c]);
            let sep: Seq<char> = if q.folders_include is Some { " AND "@ } else { Seq::empty() };
            assert(name_text(q) == sep + "path LIKE ?"@ + repeat("OR image.path LIKE ?"@, (ns.len() - 1) as nat));
            assert(name_text(q) =~= sep + c);
            if cf.len() == 0 {
                assert(folder_text(q) =~= Seq::<char>::empty());
                assert(folder_text(q) + name_text(q) =~= c);
            } else {
                assert(folder_text(q) + name_text(q) =~= join_and(cf) + " AND "@ + c);
            }
        },
        None => {
            assert(cf + name_conds(q) =~= cf);
            assert(folder_text(q) + name_text(q) =~= folder_text(q));
        },
    }
}

proof fn lemma_join_all(q: QueryView)
    requires
        query_is_valid(q),
    ensures
        join_and(query_conditions(q)) == folder_text(q) + name_text(q) + tag_text(q),
{
    lemma_join_names(q);
    let a = folder_conds(q) + name_conds(q);
    assert(query_conditions(q) == a + tag_conds(q));
    let fnt = folder_text(q) + name_text(q);
    match q.tags_include {
        Some(t) => {
            let c = tags_clause(t.len());
            lemma_join_push(a, c);
            assert(tag_conds(q) == seq![c]);
            let sep: Seq<char> = if q.folders_include is Some || q.names is Some { " AND "@ } else { Seq::empty() };
            assert(tag_text(q) == sep + "tag_records.tag_id IN("@ + "?"@ + repeat(",?"@, (t.len() - 1) as nat) + ")"@);
            assert(c == "tag_records.tag_id IN("@ + placeholders(t.len()) + ")"@);
            assert(placeholders(t.len()) == "?"@ + repeat(",?"@, (t.len() - 1) as nat));
            assert(tag_text(q) =~= sep + c);
            if a.len() == 0 {
                assert(fnt =~= Seq::<char>::empty());
                assert(fnt + tag_text(q) =~= c);
            } else {
                assert(fnt + tag_text(q) =~= join_and(a) + " AND "@ + c);
            }
        },
        None => {
            assert(a + tag_conds(q) =~= a);
            assert(fnt + tag_text(q) =~= fnt);
        },
    }
}

proof fn lemma_sql_layout(q: QueryView)
    requires
        query_is_valid(q),
    ensures
        query_sql(q) == select_prefix() + folder_text(q) + name_text(q) + tag_text(q) + strong_clause(q) + limit_clause(q),
{
    lemma_join_all(q);
    assert(query_sql(q) =~= select_prefix() + folder_text(q) + name_text(q) + tag_text(q) + strong_clause(q) + limit_clause(q));
}

proof fn lemma_text_counts(q: QueryView)
    requires
        query_is_valid(q),
    ensures
        count_placeholders(select_prefix()) == 0,
        count_placeholders(folder_text(q)) == list_len(q.folders_include),
        count_placeholders(name_text(q)) == list_len(q.names),
        count_placeholders(tag_text(q)) == list_len(q.tags_include),
        count_placeholders(strong_clause(q)) == 0,
        count_placeholders(limit_clause(q)) == paging_len(q),
{
    lemma_count_short_literals();
    lemma_count_select_prefix();
    lemma_count_group_literal();
    lemma_count_tag_literals();
    lemma_count_empty();
    let nt = list_len(q.tags_include);
    // Each text holds one `?` per item of its list.
    match q.folders_include {
        Some(f) => {
            lemma_count_condition("image.path LIKE ?"@, f.len());
        },
        None => {},
    }
    match q.names {
        Some(ns) => {
            let sep: Seq<char> = if q.folders_include is Some { " AND "@ } else { Seq::empty() };
            lemma_count_concat(sep, "path LIKE ?"@);
            lemma_count_concat(sep + "path LIKE ?"@, repeat("OR image.path LIKE ?"@, (ns.len() - 1) as nat));
            lemma_count_repeat("OR image.path LIKE ?"@, (ns.len() - 1) as nat);
        },
        None => {},
    }
    match q.tags_include {
        Some(t) => {
            let sep: Seq<char> = if q.folders_include is Some || q.names is Some { " AND "@ } else { Seq::empty() };
            let a = sep + "tag_records.tag_id IN("@;
            lemma_count_concat(sep, "tag_records.tag_id IN("@);
            lemma_count_concat(a, "?"@);
            lemma_count_concat(a + "?"@, repeat(",?"@, (t.len() - 1) as nat));
            lemma_count_repeat(",?"@, (t.len() - 1) as nat);
            lemma_count_concat(a + "?"@ + repeat(",?"@, (t.len() - 1) as nat), ")"@);
        },
        None => {},
    }
    if q.include_strong == Some(true) {
        lemma_count_decimal(nt);
        lemma_count_concat(" GROUP BY tag_records.image_id HAVING COUNT (image_id) = "@, decimal(nt));
    }
    match q.limit {
        Some(_) => {
            if q.start is Some {
                lemma_count_concat(" LIMIT ?"@, " OFFSET ?"@);
            } else {
                lemma_count_concat(" LIMIT ?"@, Seq::empty());
            }
        },
        None => {},
    }
}

proof fn lemma_params_layout(q: QueryView, fm: Map<FileID, Seq<char>>)
    ensures
        query_params(q, fm).len() == list_len(q.folders_include) + list_len(q.names) + list_len(q.tags_include) + paging_len(q),
        q.folders_include matches Some(f) ==> forall|i: int| 0 <= i < f.len()
            ==> query_params(q, fm)[i] == ParamView::Text(fm[#[trigger] f[i]] + "/%"@),
        q.names matches Some(ns) ==> forall|i: int| 0 <= i < ns.len()
            ==> query_params(q, fm)[list_len(q.folders_include) + i] == ParamView::Text("%/%"@ + #[trigger] ns[i] + "%.%"@),
        q.tags_include matches Some(t) ==> forall|i: int| 0 <= i < t.len()
            ==> query_params(q, fm)[list_len(q.folders_include) + list_len(q.names) + i] == ParamView::Integer(#[trigger] t[i]),
        q.limit matches Some(l) ==> query_params(q, fm)[(list_len(q.folders_include) + list_len(q.names) + list_len(q.tags_include)) as int] == ParamView::Integer(l),
        q.limit is Some && q.start is Some ==> query_params(q, fm)[list_len(q.folders_include) + list_len(q.names) + list_len(q.tags_include) + 1int] == ParamView::Integer(q.start->0),
{
    let nf = list_len(q.folders_include);
    let nn = list_len(q.names);
    let nt = list_len(q.tags_include);
    // The parameters come in the same order, each where its `?` is.
    let fp: Seq<ParamView> = match q.folders_include {
        Some(f) => folder_params(f, fm),
        None => Seq::empty(),
    };
    let np: Seq<ParamView> = match q.names {
        Some(ns) => name_params(ns),
        None => Seq::empty(),
    };
    let tp: Seq<ParamView> = match q.tags_include {
        Some(t) => crate::query::integer_params(t),
        None => Seq::empty(),
    };
    let lp = limit_params(q);
    let ps = query_params(q, fm);
    assert(ps == fp + np + tp + lp);
    assert(fp.len() == nf && np.len() == nn && tp.len() == nt && lp.len() == paging_len(q));
    match q.folders_include {
        Some(f) => {
            assert forall|i: int| 0 <= i < f.len()
                implies ps[i] == ParamView::Text(fm[#[trigger] f[i]] + "/%"@) by {
                assert(ps[i] == fp[i]);
                assert(fp[i] == ParamView::Text(folder_like_pattern(fm[f[i]])));
            }
        },
        None => {},
    }
    match q.names {
        Some(ns) => {
            assert forall|i: int| 0 <= i < ns.len()
                implies ps[nf + i] == ParamView::Text("%/%"@ + #[trigger] ns[i] + "%.%"@) by {
                assert(ps[nf + i] == np[i]);
                assert(np[i] == ParamView::Text(name_like_pattern(ns[i])));
            }
        },
        None => {},
    }
    match q.tags_include {
        Some(t) => {
            assert forall|i: int| 0 <= i < t.len()
                implies ps[nf + nn + i] == ParamView::Integer(#[trigger] t[i]) by {
                assert(ps[nf + nn + i] == tp[i]);
            }
        },
        None => {},
    }
    match q.limit {
        Some(l) => {
            assert(ps[(nf + nn + nt) as int] == lp[0]);
            if q.start is Some {
                assert(ps[nf + nn + nt + 1int] == lp[1]);
            }
        },
        None => {},
    }
}

/// For a valid query, the SQL text is the select prefix, then the folder text, the name text,
/// the tag text, the strong grouping and the paging clauses, in that order; the parameters
/// come in the same order, one for each `?` of each part: the first parameters are the path
/// patterns of the folders, one per folder, then the patterns of the names, then the tag ids,
/// then the limit and the offset. So the `i`-th parameter is bound to the `i`-th `?`.
pub proof fn law_params_follow_placeholders(q: QueryView, fm: Map<FileID, Seq<char>>)
    requires
        query_is_valid(q),
    ensures
        query_sql(q) == select_prefix() + folder_text(q) + name_text(q) + tag_text(q) + strong_clause(q) + limit_clause(q),
        count_placeholders(select_prefix()) == 0,
        count_placeholders(folder_text(q)) == list_len(q.folders_include),
        count_placeholders(name_text(q)) == list_len(q.names),
        count_placeholders(tag_text(q)) == list_len(q.tags_include),
        count_placeholders(strong_clause(q)) == 0,
        count_placeholders(limit_clause(q)) == paging_len(q),
        query_params(q, fm).len() == list_len(q.folders_include) + list_len(q.names) + list_len(q.tags_include) + paging_len(q),
        q.folders_include matches Some(f) ==> forall|i: int| 0 <= i < f.len()
            ==> query_params(q, fm)[i] == ParamView::Text(fm[#[trigger] f[i]] + "/%"@),
        q.names matches Some(ns) ==> forall|i: int| 0 <= i < ns.len()
            ==> query_params(q, fm)[list_len(q.folders_include) + i] == ParamView::Text("%/%"@ + #[trigger] ns[i] + "%.%"@),
        q.tags_include matches Some(t) ==> forall|i: int| 0 <= i < t.len()
            ==> query_params(q, fm)[list_len(q.folders_include) + list_len(q.names) + i] == ParamView::Integer(#[trigger] t[i]),
        q.limit matches Some(l) ==> query_params(q, fm)[(list_len(q.folders_include) + list_len(q.names) + list_len(q.tags_include)) as int] == ParamView::Integer(l),
        q.limit is Some && q.start is Some ==> query_params(q, fm)[list_len(q.folders_include) + list_len(q.names) + list_len(q.tags_include) + 1int] == ParamView::Integer(q.start->0),
{
    lemma_sql_layout(q);
    lemma_text_counts(q);
    lemma_params_layout(q, fm);
}


/// The pattern of a folder is its path followed by `/%`, whatever the path.
pub proof fn law_folder_pattern_shape(path: Seq<char>)
    ensures
        folder_like_pattern(path).len() == path.len() + 2,
        folder_like_pattern(path).subrange(0, path.len() as int) == path,
        folder_like_pattern(path)[path.len() as int] == '/',
        folder_like_pattern(path)[path.len() as int + 1] == '%',
{
    reveal_strlit("/%");
    assert(folder_like_pattern(path).subrange(0, path.len() as int) =~= path);
}

/// Every ancestor of a tag is one of its parents or an ancestor of one of its parents: the
/// ancestors are reached by parent edges and by nothing else.
pub proof fn law_ancestor_steps_through_a_parent(graph: TagGraph, t: TagID, a: TagID)
    requires
        is_ancestor(graph@, t, a),
    ensures
        is_parent(graph@, t, a) || exists|p: TagID| #[trigger] is_parent(graph@, t, p) && is_ancestor(graph@, p, a),
{
    let g = graph@;
    let path = choose|path: Seq<TagID>|
        #![trigger is_parent_path(g, path)]
        path.len() >= 2 && path[0] == t && path.last() == a && is_parent_path(g, path);
    assert(is_parent(g, path[0int], path[0int + 1]));
    if path.len() > 2 {
        let rest = path.skip(1);
        assert forall|i: int| 0 <= i < rest.len() - 1 implies #[trigger] is_parent(g, rest[i], rest[i + 1]) by {
            assert(rest[i] == path[i + 1] && rest[i + 1] == path[i + 2]);
            assert(is_parent(g, path[i + 1], path[i + 1 + 1]));
        }
        assert(is_parent_path(g, rest));
        assert(rest[0] == path[1]);
        assert(rest.last() == a);
        assert(is_ancestor(g, path[1], a));
    }
}

/// The value of a string of decimal digits, most significant first.
pub open spec fn digits_value(s: Seq<char>) -> nat
    decreases s.len(),
{
    if s.len() == 0 {
        0
    } else {
        digits_value(s.drop_last()) * 10 + digit_value(s.last())
    }
}

/// The value of one decimal digit.
pub open spec fn digit_value(c: char) -> nat {
    if c == '1' { 1 }
    else if c == '2' { 2 }
    else if c == '3' { 3 }
    else if c == '4' { 4 }
    else if c == '5' { 5 }
    else if c == '6' { 6 }
    else if c == '7' { 7 }
    else if c == '8' { 8 }
    else if c == '9' { 9 }
    else { 0 }
}

/// The decimal text of a number is made of digits only, starts with a non-zero digit unless
/// the number is zero, and reads back as that number.
pub proof fn law_decimal_reads_back(n: nat)
    ensures
        decimal(n).len() > 0,
        forall|i: int| 0 <= i < decimal(n).len() ==> '0' <= #[trigger] decimal(n)[i] <= '9',
        n > 0 ==> decimal(n)[0] != '0',
        digits_value(decimal(n)) == n,
    decreases n,
{
    if n < 10 {
        let s = decimal(n);
        assert(s == seq![digit_char(n)]);
        assert(s.drop_last() =~= Seq::<char>::empty());
        assert(digits_value(s.drop_last()) == 0);
    } else {
        law_decimal_reads_back(n / 10);
        let d = decimal(n / 10);
        let s = decimal(n);
        assert(s == d.push(digit_char(n % 10)));
        assert(s.drop_last() =~= d);
        assert(s[0] == d[0]);
        assert(digits_value(s) == digits_value(d) * 10 + digit_value(digit_char(n % 10)));
        assert(digit_value(digit_char(n % 10)) == n % 10);
        assert(n == (n / 10) * 10 + n % 10);
        assert forall|i: int| 0 <= i < s.len() implies '0' <= #[trigger] s[i] <= '9' by {
            if i < d.len() {
                assert(s[i] == d[i]);
            }
        }
    }
}

} // verus!
