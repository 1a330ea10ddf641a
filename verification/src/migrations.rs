//! Splitting a migration script into statements.
//!
//! Lines are trimmed; blank lines and `--` comments are skipped; lines are
//! joined with a space; a statement ends at a line ending with `;` when
//! the parentheses seen so far balance (so a `;` inside a trigger body
//! does not end it).

use vstd::prelude::*;

use crate::s3::{trim_end_char, trim_end_char_chars};
use crate::text::{
    chars_eq, chars_of, concat, count_char, count_chars, ends_with, lemma_count_concat, split_char, split_chars,
    starts_with, starts_with_chars, string_of, trim, trim_chars, views, lemma_trim_len,
};

verus! {

/// How far the parentheses of `t` open: `(` count minus `)` count.
pub open spec fn paren_delta(t: Seq<char>) -> int {
    count_char(t, '(') - count_char(t, ')')
}

/// The state of the split after some lines: finished statements, the
/// statement being built, the parenthesis depth.
pub type SplitState = (Seq<Seq<char>>, Seq<char>, int);

/// One line of the script.
pub open spec fn sql_step(st: SplitState, line: Seq<char>) -> SplitState {
    let t = trim(line);
    if t.len() == 0 || starts_with(t, "--"@) {
        st
    } else {
        let depth = st.2 + paren_delta(t);
        let cur = if st.1.len() == 0 {
            t
        } else {
            st.1 + seq![' '] + t
        };
        if t.last() == ';' && depth == 0 {
            let stmt = trim(trim_end_char(cur, ';'));
            (if stmt.len() > 0 { st.0.push(stmt) } else { st.0 }, Seq::empty(), depth)
        } else {
            (st.0, cur, depth)
        }
    }
}

/// The state after the given lines.
pub open spec fn sql_fold(lines: Seq<Seq<char>>) -> SplitState
    decreases lines.len(),
{
    if lines.len() == 0 {
        (Seq::empty(), Seq::empty(), 0)
    } else {
        sql_step(sql_fold(lines.drop_last()), lines.last())
    }
}

/// The statements of a script: those ended by `;`, then whatever is left
/// over, without its trailing `;`.
pub open spec fn sql_statements(sql: Seq<char>) -> Seq<Seq<char>> {
    let st = sql_fold(split_char(sql, '\n'));
    let rest = trim(trim_end_char(trim(st.1), ';'));
    if rest.len() > 0 {
        st.0.push(rest)
    } else {
        st.0
    }
}

/// Sum of the lengths of some texts.
pub open spec fn total_len(parts: Seq<Seq<char>>) -> nat
    decreases parts.len(),
{
    if parts.len() == 0 {
        0
    } else {
        total_len(parts.drop_last()) + parts.last().len()
    }
}

proof fn lemma_split_total_len(s: Seq<char>, sep: char)
    ensures
        total_len(split_char(s, sep)) <= s.len(),
    decreases s.len(),
{
    if s.len() == 0 {
        assert(split_char(s, sep) =~= seq![Seq::<char>::empty()]);
        assert(seq![Seq::<char>::empty()].drop_last() =~= Seq::<Seq<char>>::empty());
        assert(total_len(seq![Seq::<char>::empty()]) == 0) by {
            reveal_with_fuel(total_len, 2);
        }
    } else {
        lemma_split_total_len(s.drop_last(), sep);
        crate::text::lemma_split_char_nonempty(s.drop_last(), sep);
        let prev = split_char(s.drop_last(), sep);
        if s.last() == sep {
            assert(prev.push(Seq::<char>::empty()).drop_last() =~= prev);
            assert(total_len(prev.push(Seq::<char>::empty())) == total_len(prev));
        } else {
            let upd = prev.update(prev.len() - 1, prev.last().push(s.last()));
            assert(upd.drop_last() =~= prev.drop_last());
            assert(upd.last() == prev.last().push(s.last()));
            assert(total_len(upd) == total_len(prev.drop_last()) + prev.last().len() + 1);
            assert(total_len(prev) == total_len(prev.drop_last()) + prev.last().len());
        }
    }
}

proof fn lemma_total_len_take(parts: Seq<Seq<char>>, i: int)
    requires
        0 <= i <= parts.len(),
    ensures
        total_len(parts.take(i)) <= total_len(parts),
    decreases parts.len() - i,
{
    if i < parts.len() {
        assert(parts.take(i + 1).drop_last() =~= parts.take(i));
        lemma_total_len_take(parts, i + 1);
    } else {
        assert(parts.take(i) =~= parts);
    }
}

proof fn lemma_paren_bound(t: Seq<char>)
    ensures
        count_char(t, '(') <= t.len(),
        count_char(t, ')') <= t.len(),
        -(t.len() as int) <= paren_delta(t) <= t.len(),
    decreases t.len(),
{
    if t.len() > 0 {
        lemma_paren_bound(t.drop_last());
    }
}

/// Split a migration script into statements.
pub fn split_sql_statements(sql: &str) -> (r: Vec<String>)
    ensures
        r@.map_values(|s: String| s@) == sql_statements(sql@),
{
    let all = chars_of(sql);
    let n = all.len();
    assert(sql@.len() == n);
    let lines = split_chars(&all, '\n');
    let ghost ls = views(lines@);
    proof {
        lemma_split_total_len(sql@, '\n');
        assert(ls == split_char(sql@, '\n'));
    }
    let dashes = chars_of("--");
    let mut statements: Vec<String> = Vec::new();
    let mut current: Vec<char> = Vec::new();
    let mut depth: i128 = 0;
    let mut i: usize = 0;
    assert(ls.take(0) =~= Seq::<Seq<char>>::empty());
    while i < lines.len()
        invariant
            i <= lines@.len(),
            ls == views(lines@),
            dashes@ == "--"@,
            total_len(ls) <= sql@.len() <= usize::MAX,
            -(total_len(ls.take(i as int)) as int) <= depth <= total_len(ls.take(i as int)),
            sql_fold(ls.take(i as int)) == (statements@.map_values(|s: String| s@), current@, depth as int),
        decreases lines@.len() - i,
    {
        let ghost pre = sql_fold(ls.take(i as int));
        proof {
            assert(ls.take(i + 1).drop_last() =~= ls.take(i as int));
            assert(ls.take(i + 1).last() == lines@[i as int]@);
            assert(total_len(ls.take(i + 1)) == total_len(ls.take(i as int)) + lines@[i as int]@.len());
            lemma_total_len_take(ls, i + 1);
        }
        let t = trim_chars(&lines[i]);
        proof {
            lemma_trim_len(lines@[i as int]@);
        }
        if t.len() == 0 || starts_with_chars(&t, &dashes) {
            i = i + 1;
            continue;
        }
        let opens = count_chars(&t, '(');
        let closes = count_chars(&t, ')');
        proof {
            lemma_paren_bound(t@);
        }
        proof {
            assert(opens as int + total_len(ls.take(i as int)) <= usize::MAX);
            assert(t@.len() <= lines@[i as int]@.len());
        }
        let delta: i128 = (opens as i128) - (closes as i128);
        depth = depth + delta;
        if current.len() > 0 {
            current.push(' ');
        }
        let ghost pre_cur = current@;
        current = concat(&current, &t);
        proof {
            if pre.1.len() == 0 {
                assert(current@ =~= t@);
            } else {
                assert(current@ =~= pre.1 + seq![' '] + t@);
            }
        }
        if t[t.len() - 1] == ';' && depth == 0 {
            let stmt = trim_chars(&trim_end_char_chars(&current, ';'));
            let ghost pre_stmts = statements@;
            if stmt.len() > 0 {
                statements.push(string_of(&stmt));
                proof {
                    assert(statements@.map_values(|s: String| s@) =~= pre_stmts.map_values(|s: String| s@).push(stmt@));
                }
            }
            current = Vec::new();
        }
        i = i + 1;
    }
    proof {
        assert(ls.take(lines@.len() as int) =~= ls);
    }
    let rest = trim_chars(&trim_end_char_chars(&trim_chars(&current), ';'));
    if rest.len() > 0 {
        let ghost pre_stmts = statements@;
        statements.push(string_of(&rest));
        proof {
            assert(statements@.map_values(|s: String| s@) =~= pre_stmts.map_values(|s: String| s@).push(rest@));
        }
    }
    statements
}

} // verus!
