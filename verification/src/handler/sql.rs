//! Pieces of SQL text shared by the listing and editing requests.
use crate::constants::DEFAULT_PAGE_SIZE;
use crate::model::order::strings_view;
use crate::text::{int_str, push_i32};
use vstd::prelude::*;

verus! {

/// `parts.join(sep)`.
pub open spec fn join_seq(parts: Seq<Seq<char>>, sep: Seq<char>) -> Seq<char>
    decreases parts.len(),
{
    if parts.len() == 0 {
        Seq::empty()
    } else if parts.len() == 1 {
        parts[0]
    } else {
        join_seq(parts.drop_last(), sep) + sep + parts.last()
    }
}

/// `t` occurs in `s` as a run of consecutive characters.
pub open spec fn contains_text(s: Seq<char>, t: Seq<char>) -> bool {
    exists|i: int| 0 <= i && i + t.len() <= s.len() && #[trigger] s.subrange(i, i + t.len()) == t
}

/// Text found in `s` is still found after something is put before or
/// after `s`.
pub proof fn lemma_contains_text_extend(s: Seq<char>, t: Seq<char>, a: Seq<char>, b: Seq<char>)
    requires
        contains_text(s, t),
    ensures
        contains_text(a + s + b, t),
{
    let i = choose|i: int| 0 <= i && i + t.len() <= s.len() && #[trigger] s.subrange(i, i + t.len()) == t;
    let w = a + s + b;
    let o: int = a.len() + i;
    assert(w.subrange(o, o + t.len()) =~= s.subrange(i, i + t.len()));
}

/// Every part is found in the parts joined.
pub proof fn lemma_join_contains_part(parts: Seq<Seq<char>>, sep: Seq<char>, k: int)
    requires
        0 <= k < parts.len(),
    ensures
        contains_text(join_seq(parts, sep), parts[k]),
    decreases parts.len(),
{
    let j = join_seq(parts, sep);
    if parts.len() == 1 {
        let z: int = 0;
        assert(j.subrange(z, z + parts[k].len()) =~= parts[k]);
    } else {
        let d = parts.drop_last();
        let jd = join_seq(d, sep);
        assert(j == jd + sep + parts.last());
        if k == parts.len() - 1 {
            let o: int = (jd.len() + sep.len()) as int;
            assert(j.subrange(o, o + parts[k].len() as int) =~= parts[k]);
        } else {
            assert(d[k] == parts[k]);
            lemma_join_contains_part(d, sep, k);
            lemma_contains_text_extend(jd, parts[k], Seq::empty(), sep + parts.last());
            assert(Seq::<char>::empty() + jd + (sep + parts.last()) =~= j);
        }
    }
}

/// Joins the texts with `sep` between each two.
pub fn join_strings(parts: &Vec<String>, sep: &str) -> (r: String)
    ensures
        r@ == join_seq(strings_view(*parts), sep@),
{
    let ghost ps = strings_view(*parts);
    let mut r = String::new();
    let mut i: usize = 0;
    while i < parts.len()
        invariant
            ps == strings_view(*parts),
            i <= parts@.len(),
            r@ == join_seq(ps.take(i as int), sep@),
        decreases parts.len() - i,
    {
        assert(ps.take(i + 1).drop_last() =~= ps.take(i as int));
        assert(ps.take(i + 1).last() == parts@[i as int]@);
        if i > 0 {
            r.append(sep);
        } else {
            assert(ps.take(1)[0] == parts@[0]@);
        }
        r.append(parts[i].as_str());
        i = i + 1;
    }
    assert(ps.take(parts@.len() as int) =~= ps);
    r
}

/// The decimal forms of the numbers.
pub open spec fn ints_text(v: Seq<i32>) -> Seq<Seq<char>> {
    v.map_values(|x: i32| int_str(x as int))
}

/// Joins the decimal forms of the numbers with `sep` between each two.
pub fn join_i32s(v: &Vec<i32>, sep: &str) -> (r: String)
    ensures
        r@ == join_seq(ints_text(v@), sep@),
{
    let ghost ps = ints_text(v@);
    let mut r = String::new();
    let mut i: usize = 0;
    while i < v.len()
        invariant
            ps == ints_text(v@),
            i <= v@.len(),
            r@ == join_seq(ps.take(i as int), sep@),
        decreases v.len() - i,
    {
        assert(ps.take(i + 1).drop_last() =~= ps.take(i as int));
        assert(ps.take(i + 1).last() == int_str(v@[i as int] as int));
        if i > 0 {
            r.append(sep);
        } else {
            assert(ps.take(1)[0] == int_str(v@[0] as int));
        }
        push_i32(&mut r, v[i]);
        i = i + 1;
    }
    assert(ps.take(v@.len() as int) =~= ps);
    r
}

/// The page asked for, 1 when none is.
pub open spec fn page_or_first(page: Option<i32>) -> i32 {
    match page {
        Some(p) => p,
        None => 1,
    }
}

/// The page size asked for, the default when none is.
pub open spec fn size_or_default(page_size: Option<i32>) -> i32 {
    match page_size {
        Some(s) => s,
        None => DEFAULT_PAGE_SIZE,
    }
}

/// How many rows the asked-for page skips.
pub open spec fn spec_offset(page: Option<i32>, page_size: Option<i32>) -> int {
    (page_or_first(page) - 1) * size_or_default(page_size)
}

/// The number of rows skipped fits the integers that the service counts
/// rows with.
pub open spec fn paging_fits(page: Option<i32>, page_size: Option<i32>) -> bool {
    i32::MIN <= page_or_first(page) - 1 && i32::MIN <= spec_offset(page, page_size) <= i32::MAX
}

/// The rows skipped and the page size.
pub fn offset_and_size(page: Option<i32>, page_size: Option<i32>) -> (r: (i32, i32))
    requires
        paging_fits(page, page_size),
    ensures
        r.0 == spec_offset(page, page_size),
        r.1 == size_or_default(page_size),
{
    let p: i32 = match page {
        Some(p) => p,
        None => 1,
    };
    let s: i32 = match page_size {
        Some(s) => s,
        None => DEFAULT_PAGE_SIZE,
    };
    ((p - 1) * s, s)
}

/// `" offset {offset} limit {size};"`
pub open spec fn offset_limit(page: Option<i32>, page_size: Option<i32>) -> Seq<char> {
    " offset "@ + int_str(spec_offset(page, page_size)) + " limit "@ + int_str(
        size_or_default(page_size) as int,
    ) + ";"@
}

/// Appends `" offset {offset} limit {size};"` to `sql`.
pub fn push_offset_limit(sql: &mut String, page: Option<i32>, page_size: Option<i32>)
    requires
        paging_fits(page, page_size),
    ensures
        final(sql)@ == old(sql)@ + offset_limit(page, page_size),
{
    let (offset, size) = offset_and_size(page, page_size);
    sql.append(" offset ");
    push_i32(sql, offset);
    sql.append(" limit ");
    push_i32(sql, size);
    sql.append(";");
    assert(final(sql)@ =~= old(sql)@ + offset_limit(page, page_size));
}

/// A text that is present and not empty.
pub open spec fn given(v: Option<String>) -> bool {
    v is Some && v->0@.len() > 0
}

pub fn is_given(v: &Option<String>) -> (r: bool)
    ensures
        r == given(*v),
{
    match v {
        Some(s) => s.unicode_len() > 0,
        None => false,
    }
}

/// Appends `a`, the text of `v` and `b` to `sql`.
pub fn push_between(sql: &mut String, a: &str, v: &str, b: &str)
    ensures
        final(sql)@ == old(sql)@ + a@ + v@ + b@,
{
    sql.append(a);
    sql.append(v);
    sql.append(b);
    assert(final(sql)@ =~= old(sql)@ + a@ + v@ + b@);
}

/// `a + v + b` as a new text.
pub fn between(a: &str, v: &str, b: &str) -> (r: String)
    ensures
        r@ == a@ + v@ + b@,
{
    let mut r = String::from_str(a);
    r.append(v);
    r.append(b);
    r
}

/// `a + {x} + b` as a new text.
pub fn between_i32(a: &str, x: i32, b: &str) -> (r: String)
    ensures
        r@ == a@ + int_str(x as int) + b@,
{
    let mut r = String::from_str(a);
    push_i32(&mut r, x);
    r.append(b);
    assert(r@ =~= a@ + int_str(x as int) + b@);
    r
}

/// `" where "` and the clauses joined by `" and "`, or nothing when there
/// are no clauses.
pub open spec fn where_part(clauses: Seq<Seq<char>>) -> Seq<char> {
    if clauses.len() == 0 {
        Seq::empty()
    } else {
        " where "@ + join_seq(clauses, " and "@)
    }
}

/// Appends the where part of `clauses` to `sql`.
pub fn push_where(sql: &mut String, clauses: &Vec<String>)
    ensures
        final(sql)@ == old(sql)@ + where_part(strings_view(*clauses)),
{
    if clauses.len() > 0 {
        sql.append(" where ");
        let j = join_strings(clauses, " and ");
        sql.append(j.as_str());
        assert(final(sql)@ =~= old(sql)@ + where_part(strings_view(*clauses)));
    } else {
        assert(final(sql)@ =~= old(sql)@ + where_part(strings_view(*clauses)));
    }
}

/// `a + v + b` when the text is given, nothing otherwise.
pub open spec fn opt_text(v: Option<String>, a: Seq<char>, b: Seq<char>) -> Seq<char> {
    if given(v) {
        a + v->0@ + b
    } else {
        Seq::empty()
    }
}

/// Appends `a + v + b` to `sql` when the text is given.
pub fn push_opt_text(sql: &mut String, v: &Option<String>, a: &str, b: &str)
    ensures
        final(sql)@ == old(sql)@ + opt_text(*v, a@, b@),
{
    if is_given(v) {
        match v {
            Some(t) => {
                push_between(sql, a, t.as_str(), b);
            },
            None => {},
        }
    } else {
        assert(final(sql)@ =~= old(sql)@ + opt_text(*v, a@, b@));
    }
}

/// The clause `a + v + b` when the text is given, none otherwise.
pub open spec fn opt_clause(v: Option<String>, a: Seq<char>, b: Seq<char>) -> Seq<Seq<char>> {
    if given(v) {
        seq![a + v->0@ + b]
    } else {
        Seq::empty()
    }
}

/// Adds the clause `a + v + b` when the text is given.
pub fn push_opt_clause(clauses: &mut Vec<String>, v: &Option<String>, a: &str, b: &str)
    ensures
        strings_view(*final(clauses)) == strings_view(*old(clauses)) + opt_clause(*v, a@, b@),
{
    let ghost before = strings_view(*clauses);
    if is_given(v) {
        match v {
            Some(t) => {
                let c = between(a, t.as_str(), b);
                clauses.push(c);
                assert(strings_view(*clauses) =~= before + seq![c@]);
            },
            None => {},
        }
    } else {
        assert(strings_view(*clauses) =~= before + opt_clause(*v, a@, b@));
    }
}

/// Adds a clause.
pub fn push_clause(clauses: &mut Vec<String>, c: String)
    ensures
        strings_view(*final(clauses)) == strings_view(*old(clauses)).push(c@),
{
    let ghost before = strings_view(*clauses);
    clauses.push(c);
    assert(strings_view(*clauses) =~= before.push(c@));
}

} // verus!
