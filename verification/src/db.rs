//! The queries the sample library sends to its database, and how their raw
//! answers are read back.

use vstd::prelude::*;
use crate::scanner::opt_str_view;
use crate::text::{chars_of, push_range, push_text, string_of};

verus! {

/// A SQL statement with its positional parameters, in order.
pub struct SqlQuery {
    pub sql: String,
    pub params: Vec<String>,
}

/// The first part of the sample listing: every sample with its tags joined by commas.
pub const LIST_SAMPLES_BASE: &'static str = "SELECT s.id, s.path, s.filename, s.duration_ms, s.bpm, s.musical_key,
                    s.category, s.sample_type, s.date_added, s.file_size,
                    GROUP_CONCAT(t.name, ',') as tag_list
             FROM samples s
             LEFT JOIN sample_tags st ON s.id = st.sample_id
             LEFT JOIN tags t ON st.tag_id = t.id
             WHERE 1=1";

/// `text` when `present`, else nothing.
pub open spec fn clause_if(present: bool, text: Seq<char>) -> Seq<char> {
    if present {
        text
    } else {
        seq![]
    }
}

/// The SQL of the sample listing for the filters that are present: category
/// equality and file-name pattern as conditions, tag pattern on the grouped
/// tag list, newest first.
pub open spec fn list_samples_sql(has_category: bool, has_tag: bool, has_search: bool) -> Seq<char> {
    LIST_SAMPLES_BASE@ + clause_if(has_category, " AND s.category = ?"@) + clause_if(
        has_search,
        " AND s.filename LIKE ?"@,
    ) + " GROUP BY s.id"@ + clause_if(has_tag, " HAVING tag_list LIKE ?"@)
        + " ORDER BY s.date_added DESC"@
}

/// The one-element sequence of `o`'s value, or nothing.
pub open spec fn opt_seq(o: Option<Seq<char>>) -> Seq<Seq<char>> {
    match o {
        Some(v) => seq![v],
        None => seq![],
    }
}

/// The parameters of the sample listing, in placeholder order: the category,
/// the file-name pattern as given, then the tag wrapped in `%` wildcards.
pub open spec fn list_samples_params(
    category: Option<Seq<char>>,
    tag: Option<Seq<char>>,
    search: Option<Seq<char>>,
) -> Seq<Seq<char>> {
    opt_seq(category) + opt_seq(search) + opt_seq(
        match tag {
            Some(t) => Some("%"@ + t + "%"@),
            None => None,
        },
    )
}

/// Appends `s` to `out` when `present`.
fn push_clause(out: &mut Vec<char>, present: bool, s: &str)
    ensures
        final(out)@ == old(out)@ + clause_if(present, s@),
{
    if present {
        push_text(out, s);
    } else {
        assert(old(out)@ + clause_if(present, s@) =~= old(out)@);
    }
}

/// The query listing the samples that match the optional filters: category
/// (exact), tag (contained in the sample's tag list) and search (a LIKE
/// pattern on the file name). The filter values travel only as parameters.
pub fn list_samples_query(
    filter_category: Option<&str>,
    filter_tag: Option<&str>,
    search: Option<&str>,
) -> (q: SqlQuery)
    ensures
        q.sql@ == list_samples_sql(filter_category is Some, filter_tag is Some, search is Some),
        q.params@.map_values(|p: String| p@) == list_samples_params(
            opt_str_view(filter_category),
            opt_str_view(filter_tag),
            opt_str_view(search),
        ),
{
    let mut sql: Vec<char> = Vec::new();
    push_text(&mut sql, LIST_SAMPLES_BASE);
    push_clause(&mut sql, filter_category.is_some(), " AND s.category = ?");
    push_clause(&mut sql, search.is_some(), " AND s.filename LIKE ?");
    push_text(&mut sql, " GROUP BY s.id");
    push_clause(&mut sql, filter_tag.is_some(), " HAVING tag_list LIKE ?");
    push_text(&mut sql, " ORDER BY s.date_added DESC");
    let ghost expected = list_samples_sql(
        filter_category is Some,
        filter_tag is Some,
        search is Some,
    );
    assert(sql@ =~= expected);

    let mut params: Vec<String> = Vec::new();
    if let Some(c) = filter_category {
        params.push(String::from_str(c));
    }
    if let Some(s) = search {
        params.push(String::from_str(s));
    }
    if let Some(t) = filter_tag {
        let mut pattern: Vec<char> = Vec::new();
        push_text(&mut pattern, "%");
        push_text(&mut pattern, t);
        push_text(&mut pattern, "%");
        params.push(string_of(&pattern));
    }
    assert(params@.map_values(|p: String| p@) =~= list_samples_params(
        opt_str_view(filter_category),
        opt_str_view(filter_tag),
        opt_str_view(search),
    ));
    SqlQuery { sql: string_of(&sql), params }
}

/// Splitting a comma-separated list: `done` holds the finished items, `cur`
/// the item being read, `rest` what is left; empty items are dropped.
pub open spec fn split_list_from(done: Seq<Seq<char>>, cur: Seq<char>, rest: Seq<char>) -> Seq<
    Seq<char>,
>
    decreases rest.len(),
{
    if rest.len() == 0 {
        if cur.len() > 0 {
            done.push(cur)
        } else {
            done
        }
    } else if rest[0] == ',' {
        split_list_from(
            if cur.len() > 0 {
                done.push(cur)
            } else {
                done
            },
            seq![],
            rest.drop_first(),
        )
    } else {
        split_list_from(done, cur.push(rest[0]), rest.drop_first())
    }
}

/// The non-empty items of a comma-separated list, in order.
pub open spec fn split_tag_items(list: Seq<char>) -> Seq<Seq<char>> {
    split_list_from(seq![], seq![], list)
}

/// The tags of a sample, from the comma-separated tag list the database
/// returns for it (absent when the sample has no tags).
pub fn split_tag_list(tag_list: Option<&str>) -> (tags: Vec<String>)
    ensures
        tags@.map_values(|t: String| t@) == match tag_list {
            Some(l) => split_tag_items(l@),
            None => Seq::<Seq<char>>::empty(),
        },
{
    let list = match tag_list {
        Some(l) => chars_of(l),
        None => Vec::new(),
    };
    let ghost whole = list@;
    assert(tag_list is None ==> split_tag_items(whole) =~= Seq::<Seq<char>>::empty());
    let mut tags: Vec<String> = Vec::new();
    let mut cur: Vec<char> = Vec::new();
    let mut i: usize = 0;
    assert(whole.skip(0) =~= whole);
    assert(tags@.map_values(|t: String| t@) =~= Seq::<Seq<char>>::empty());
    assert(cur@ =~= Seq::<char>::empty());
    while i < list.len()
        invariant
            i <= list@.len(),
            list@ == whole,
            split_tag_items(whole) == split_list_from(
                tags@.map_values(|t: String| t@),
                cur@,
                whole.skip(i as int),
            ),
        decreases list.len() - i,
    {
        let ghost rest = whole.skip(i as int);
        assert(rest.drop_first() =~= whole.skip(i + 1));
        let c = list[i];
        if c == ',' {
            if cur.len() > 0 {
                let ghost before = tags@.map_values(|t: String| t@);
                tags.push(string_of(&cur));
                assert(tags@.map_values(|t: String| t@) =~= before.push(cur@));
            }
            cur = Vec::new();
        } else {
            cur.push(c);
        }
        i = i + 1;
    }
    if cur.len() > 0 {
        let ghost before = tags@.map_values(|t: String| t@);
        tags.push(string_of(&cur));
        assert(tags@.map_values(|t: String| t@) =~= before.push(cur@));
    }
    tags
}

/// The items written one after the other, a comma between each two.
pub open spec fn comma_joined(items: Seq<Seq<char>>) -> Seq<char>
    decreases items.len(),
{
    if items.len() == 0 {
        seq![]
    } else if items.len() == 1 {
        items[0]
    } else {
        items[0] + seq![','] + comma_joined(items.drop_first())
    }
}

/// Text without a comma all goes into the item being read.
proof fn lemma_split_no_comma(done: Seq<Seq<char>>, cur: Seq<char>, rest: Seq<char>)
    requires
        !rest.contains(','),
    ensures
        split_list_from(done, cur, rest) == if (cur + rest).len() > 0 {
            done.push(cur + rest)
        } else {
            done
        },
    decreases rest.len(),
{
    if rest.len() == 0 {
        assert(cur + rest =~= cur);
    } else {
        assert(rest[0] != ',');
        assert(!rest.drop_first().contains(',')) by {
            if rest.drop_first().contains(',') {
                let j = choose|j: int| 0 <= j < rest.drop_first().len() && rest.drop_first()[j] == ',';
                assert(rest[j + 1] == ',');
            }
        }
        lemma_split_no_comma(done, cur.push(rest[0]), rest.drop_first());
        assert(cur.push(rest[0]) + rest.drop_first() =~= cur + rest);
    }
}

/// An item without a comma, then a comma, ends that item.
proof fn lemma_split_through_comma(
    done: Seq<Seq<char>>,
    cur: Seq<char>,
    t: Seq<char>,
    more: Seq<char>,
)
    requires
        !t.contains(','),
    ensures
        split_list_from(done, cur, t + seq![','] + more) == split_list_from(
            if (cur + t).len() > 0 {
                done.push(cur + t)
            } else {
                done
            },
            seq![],
            more,
        ),
    decreases t.len(),
{
    let whole = t + seq![','] + more;
    if t.len() == 0 {
        assert(cur + t =~= cur);
        assert(whole[0] == ',');
        assert(whole.drop_first() =~= more);
    } else {
        assert(whole[0] == t[0]);
        assert(t[0] != ',');
        let t2 = t.drop_first();
        assert(!t2.contains(',')) by {
            if t2.contains(',') {
                let j = choose|j: int| 0 <= j < t2.len() && t2[j] == ',';
                assert(t[j + 1] == ',');
            }
        }
        assert(whole.drop_first() =~= t2 + seq![','] + more);
        lemma_split_through_comma(done, cur.push(t[0]), t2, more);
        assert(cur.push(t[0]) + t2 =~= cur + t);
    }
}

proof fn lemma_split_joined_from(done: Seq<Seq<char>>, items: Seq<Seq<char>>)
    requires
        forall|k: int| 0 <= k < items.len() ==> #[trigger] items[k].len() > 0 && !items[k].contains(','),
    ensures
        split_list_from(done, seq![], comma_joined(items)) == done + items,
    decreases items.len(),
{
    let e: Seq<char> = seq![];
    if items.len() == 0 {
        assert(done + items =~= done);
    } else if items.len() == 1 {
        assert(items[0].len() > 0 && !items[0].contains(','));
        lemma_split_no_comma(done, e, items[0]);
        assert(e + items[0] =~= items[0]);
        assert(done.push(items[0]) =~= done + items);
    } else {
        assert(items[0].len() > 0 && !items[0].contains(','));
        let tail = items.drop_first();
        assert forall|k: int| 0 <= k < tail.len() implies #[trigger] tail[k].len() > 0
            && !tail[k].contains(',') by {
            assert(tail[k] == items[k + 1]);
        }
        lemma_split_through_comma(done, e, items[0], comma_joined(tail));
        assert(e + items[0] =~= items[0]);
        lemma_split_joined_from(done.push(items[0]), tail);
        assert(done.push(items[0]) + tail =~= done + items);
    }
}

/// Only commas separate tags: a non-empty list without a comma is one tag,
/// spaces and all.
pub proof fn lemma_list_without_comma_is_one_tag(list: Seq<char>)
    requires
        list.len() > 0,
        !list.contains(','),
    ensures
        split_tag_items(list) == seq![list],
{
    let e: Seq<Seq<char>> = seq![];
    let c: Seq<char> = seq![];
    lemma_split_no_comma(e, c, list);
    assert(c + list =~= list);
    assert(e.push(list) =~= seq![list]);
}

/// Splitting undoes joining: non-empty tags without commas, joined with
/// commas, split back into the same tags in the same order.
pub proof fn lemma_split_undoes_join(items: Seq<Seq<char>>)
    requires
        forall|k: int| 0 <= k < items.len() ==> #[trigger] items[k].len() > 0 && !items[k].contains(','),
    ensures
        split_tag_items(comma_joined(items)) == items,
{
    let e: Seq<Seq<char>> = seq![];
    lemma_split_joined_from(e, items);
    assert(e + items =~= items);
}

/// Every item of a split list is non-empty and holds no comma.
pub proof fn lemma_split_items_are_clean(list: Seq<char>)
    ensures
        forall|k: int|
            0 <= k < split_tag_items(list).len() ==> #[trigger] split_tag_items(list)[k].len() > 0
                && !split_tag_items(list)[k].contains(','),
{
    lemma_split_from_clean(seq![], seq![], list);
}

proof fn lemma_split_from_clean(done: Seq<Seq<char>>, cur: Seq<char>, rest: Seq<char>)
    requires
        forall|k: int| 0 <= k < done.len() ==> #[trigger] done[k].len() > 0 && !done[k].contains(','),
        !cur.contains(','),
    ensures
        forall|k: int|
            0 <= k < split_list_from(done, cur, rest).len() ==> #[trigger] split_list_from(
                done,
                cur,
                rest,
            )[k].len() > 0 && !split_list_from(done, cur, rest)[k].contains(','),
    decreases rest.len(),
{
    if rest.len() == 0 {
        if cur.len() > 0 {
            let d2 = done.push(cur);
            assert forall|k: int| 0 <= k < d2.len() implies #[trigger] d2[k].len() > 0 && !d2[k].contains(',') by {
                if k < done.len() {
                    assert(d2[k] == done[k]);
                }
            }
        }
    } else if rest[0] == ',' {
        let d2 = if cur.len() > 0 {
            done.push(cur)
        } else {
            done
        };
        assert forall|k: int| 0 <= k < d2.len() implies #[trigger] d2[k].len() > 0 && !d2[k].contains(',') by {
            if k < done.len() {
                assert(d2[k] == done[k]);
            }
        }
        let e: Seq<char> = seq![];
        assert(!e.contains(','));
        lemma_split_from_clean(d2, e, rest.drop_first());
        assert(split_list_from(done, cur, rest) == split_list_from(d2, e, rest.drop_first()));
    } else {
        let c2 = cur.push(rest[0]);
        assert(!c2.contains(',')) by {
            if c2.contains(',') {
                let j = choose|j: int| 0 <= j < c2.len() && c2[j] == ',';
                if j < cur.len() {
                    assert(cur[j] == ',');
                }
            }
        }
        lemma_split_from_clean(done, c2, rest.drop_first());
        assert(split_list_from(done, cur, rest) == split_list_from(done, c2, rest.drop_first()));
    }
}

} // verus!
