//! The statements the content commands run against a Tome: a row read by
//! its key through a table's captured columns, and an update that sets
//! only the columns the caller supplied.

use vstd::prelude::*;

use crate::apply::{SqlArg, SqlStatement};
use crate::registry::{texts, TableSchema};
use crate::text::owned;

verus! {

/// `names` joined by `sep`.
pub open spec fn joined(names: Seq<Seq<char>>, sep: Seq<char>) -> Seq<char>
    decreases names.len(),
{
    if names.len() == 0 {
        Seq::empty()
    } else if names.len() == 1 {
        names[0]
    } else {
        joined(names.drop_last(), sep) + sep + names.last()
    }
}

/// `c1 = ?, c2 = ?, ...` over `names`.
pub open spec fn assignments(names: Seq<Seq<char>>) -> Seq<char> {
    joined(names.map_values(|n: Seq<char>| n + " = ?"@), ", "@)
}

/// The statement text that reads one row of `table`.
pub open spec fn select_row_sql(table: Seq<char>, columns: Seq<Seq<char>>, key: Seq<char>) -> Seq<char> {
    "SELECT "@ + joined(columns, ", "@) + " FROM "@ + table + " WHERE "@ + key + " = ?"@
}

/// The statement text that sets `names` on the row of `table` with a given id.
pub open spec fn update_sql(table: Seq<char>, names: Seq<Seq<char>>) -> Seq<char> {
    "UPDATE "@ + table + " SET "@ + assignments(names) + " WHERE id = ?"@
}

/// The supplied columns of `changes`, in order, with their values.
pub open spec fn present(changes: Seq<(&'static str, Option<SqlArg>)>) -> Seq<(&'static str, SqlArg)>
    decreases changes.len(),
{
    if changes.len() == 0 {
        Seq::empty()
    } else {
        let rest = present(changes.drop_last());
        match changes.last().1 {
            Some(a) => rest.push((changes.last().0, a)),
            None => rest,
        }
    }
}

/// The column names of supplied changes.
pub open spec fn column_names(cols: Seq<(&'static str, SqlArg)>) -> Seq<Seq<char>> {
    cols.map_values(|c: (&'static str, SqlArg)| c.0@)
}

/// The values of supplied changes.
pub open spec fn column_values(cols: Seq<(&'static str, SqlArg)>) -> Seq<SqlArg> {
    cols.map_values(|c: (&'static str, SqlArg)| c.1)
}

/// Appends `names` joined by `sep` to `out`.
fn append_joined(out: &mut String, names: &Vec<&'static str>, sep: &str)
    ensures
        final(out)@ == old(out)@ + joined(texts(names@), sep@),
{
    let ghost start = out@;
    let mut i: usize = 0;
    while i < names.len()
        invariant
            i <= names.len(),
            out@ == start + joined(texts(names@.take(i as int)), sep@),
        decreases names.len() - i,
    {
        let ghost before = out@;
        if i > 0 {
            out.append(sep);
        }
        out.append(names[i]);
        proof {
            let t = texts(names@.take(i + 1));
            assert(t.drop_last() =~= texts(names@.take(i as int)));
            assert(t.last() == names@[i as int]@);
            if i == 0 {
                assert(t.len() == 1);
                assert(out@ =~= start + joined(t, sep@));
            } else {
                assert(out@ =~= start + joined(t, sep@));
            }
        }
        i = i + 1;
    }
    assert(names@.take(names.len() as int) =~= names@);
}

/// The statement that reads the captured columns of one row of a tracked
/// table, keyed by its primary key.
pub fn select_row_statement(schema: &TableSchema, row_id: &str) -> (r: SqlStatement)
    ensures
        r.sql@ == select_row_sql(schema.name@, texts(schema.columns@), schema.primary_key@),
        r.args@.len() == 1,
        r.args@[0] matches SqlArg::Text(s) && s@ == row_id@,
{
    let mut sql = owned("SELECT ");
    append_joined(&mut sql, &schema.columns, ", ");
    sql.append(" FROM ");
    sql.append(schema.name);
    sql.append(" WHERE ");
    sql.append(schema.primary_key);
    sql.append(" = ?");
    let mut args: Vec<SqlArg> = Vec::new();
    args.push(SqlArg::Text(owned(row_id)));
    proof {
        assert(sql@ =~= select_row_sql(schema.name@, texts(schema.columns@), schema.primary_key@));
    }
    SqlStatement { sql, args }
}

/// Moves the supplied columns of `changes`, in order, onto `names` and
/// `values`.
fn take_present(changes: Vec<(&'static str, Option<SqlArg>)>, names: &mut Vec<&'static str>, values: &mut Vec<SqlArg>)
    requires
        old(names)@.len() == old(values)@.len(),
    ensures
        final(names)@.len() == final(values)@.len(),
        texts(final(names)@) == texts(old(names)@) + column_names(present(changes@)),
        final(values)@ == old(values)@ + column_values(present(changes@)),
{
    let ghost orig = changes@;
    let ghost names0 = names@;
    let ghost values0 = values@;
    let mut rest = changes;
    let ghost mut k: int = 0;
    while rest.len() > 0
        invariant
            0 <= k <= orig.len(),
            rest@ == orig.skip(k),
            names@.len() == values@.len(),
            texts(names@) == texts(names0) + column_names(present(orig.take(k))),
            values@ == values0 + column_values(present(orig.take(k))),
        decreases rest.len(),
    {
        let ghost rest0 = rest@;
        let (name, v) = rest.remove(0);
        proof {
            assert(rest0[0] == orig[k]);
            assert(orig.take(k + 1).drop_last() =~= orig.take(k));
            assert(orig.take(k + 1).last() == orig[k]);
        }
        let ghost p0 = present(orig.take(k));
        match v {
            Some(a) => {
                let ghost nb = names@;
                names.push(name);
                values.push(a);
                proof {
                    assert(present(orig.take(k + 1)) == p0.push((name, a)));
                    assert(column_names(p0.push((name, a))) =~= column_names(p0).push(name@));
                    assert(column_values(p0.push((name, a))) =~= column_values(p0).push(a));
                    assert(texts(names@) =~= texts(nb).push(name@));
                    assert(texts(names@) =~= texts(names0) + column_names(present(orig.take(k + 1))));
                }
            },
            None => {
                proof {
                    assert(present(orig.take(k + 1)) == p0);
                }
            },
        }
        proof {
            k = k + 1;
            assert(rest@ =~= orig.skip(k));
        }
    }
    assert(orig.take(k) =~= orig);
}

/// The update that sets, on the row of `table` with the given id, the
/// columns of `always` and then those of `changes` that were supplied; `None`
/// when `changes` supplies none, so that nothing is written. Its
/// parameters are the values set, in order, then the id.
pub fn update_statement(
    table: &str,
    id: &str,
    always: Vec<(&'static str, Option<SqlArg>)>,
    changes: Vec<(&'static str, Option<SqlArg>)>,
) -> (r: Option<SqlStatement>)
    ensures
        r is None <==> present(changes@).len() == 0,
        r matches Some(st) ==> {
            let cols = present(always@) + present(changes@);
            &&& st.sql@ == update_sql(table@, column_names(cols))
            &&& st.args@.len() == cols.len() + 1
            &&& st.args@.take(cols.len() as int) == column_values(cols)
            &&& (st.args@.last() matches SqlArg::Text(s) && s@ == id@)
        },
{
    let ghost pa = present(always@);
    let ghost pc = present(changes@);
    let mut names: Vec<&'static str> = Vec::new();
    let mut values: Vec<SqlArg> = Vec::new();
    take_present(always, &mut names, &mut values);
    let lead = names.len();
    take_present(changes, &mut names, &mut values);
    assert(texts(Seq::<&'static str>::empty()) =~= Seq::<Seq<char>>::empty());
    assert(column_names(pa).len() == pa.len());
    assert(column_names(pc).len() == pc.len());
    if names.len() == lead {
        return None;
    }
    let mut sql = owned("UPDATE ");
    sql.append(table);
    sql.append(" SET ");
    let ghost head = sql@;
    let ghost all = texts(names@);
    let mut i: usize = 0;
    while i < names.len()
        invariant
            i <= names.len(),
            all == texts(names@),
            sql@ == head + assignments(all.take(i as int)),
        decreases names.len() - i,
    {
        let ghost before = sql@;
        if i > 0 {
            sql.append(", ");
        }
        sql.append(names[i]);
        sql.append(" = ?");
        proof {
            let f = |n: Seq<char>| n + " = ?"@;
            let t = all.take(i + 1).map_values(f);
            assert(t.drop_last() =~= all.take(i as int).map_values(f));
            assert(t.last() == names@[i as int]@ + " = ?"@);
            assert(sql@ =~= head + joined(t, ", "@));
        }
        i = i + 1;
    }
    sql.append(" WHERE id = ?");
    let ghost vals = values@;
    values.push(SqlArg::Text(owned(id)));
    proof {
        let cols = pa + pc;
        assert(all.take(names@.len() as int) =~= all);
        assert(column_names(cols) =~= column_names(pa) + column_names(pc));
        assert(column_values(cols) =~= column_values(pa) + column_values(pc));
        assert(all =~= column_names(cols));
        assert(sql@ =~= update_sql(table@, column_names(cols)));
        assert(values@.take(cols.len() as int) =~= vals);
    }
    Some(SqlStatement { sql, args: values })
}

} // verus!
