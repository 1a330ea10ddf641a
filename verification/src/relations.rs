//! A page's relations as the page panel lists them: those it starts and
//! those that point at it, ordered by the title of the page at the other
//! end, relations to equally titled pages keeping their order.

use vstd::prelude::*;

use crate::model::PageRelation;
use crate::text::{chars_of, lex_le, lex_lt, lex_lt_chars, owned, string_opt};

verus! {

/// One relation row read for a page: the relation, the page at its other
/// end, and the name of its type in the direction it is read (the inverse
/// name, which may be unset, for a relation that points at the page).
pub struct RelationRow {
    pub id: String,
    pub page_id: String,
    pub page_title: String,
    pub page_icon: Option<String>,
    pub page_entity_type_id: Option<String>,
    pub relation_type_id: String,
    pub label: Option<String>,
    pub description: Option<String>,
}

/// What a listed relation holds: id, other page's id, title, icon and
/// type, relation type id, label, description and direction.
pub type RelationView = (
    Seq<char>,
    Seq<char>,
    Seq<char>,
    Option<Seq<char>>,
    Option<Seq<char>>,
    Seq<char>,
    Seq<char>,
    Option<Seq<char>>,
    Seq<char>,
);

pub open spec fn relation_view(p: PageRelation) -> RelationView {
    (
        p.id@,
        p.page_id@,
        p.page_title@,
        string_opt(p.page_icon),
        string_opt(p.page_entity_type_id),
        p.relation_type_id@,
        p.relation_label@,
        string_opt(p.description),
        p.direction@,
    )
}

/// The listed form of a row: outgoing rows go by the type's name, incoming
/// ones by its inverse name (empty when unset).
pub open spec fn row_view(r: RelationRow, outgoing: bool) -> RelationView {
    (
        r.id@,
        r.page_id@,
        r.page_title@,
        string_opt(r.page_icon),
        string_opt(r.page_entity_type_id),
        r.relation_type_id@,
        match string_opt(r.label) {
            Some(l) => l,
            None => Seq::empty(),
        },
        string_opt(r.description),
        if outgoing {
            "outgoing"@
        } else {
            "incoming"@
        },
    )
}

/// The relations before ordering: the outgoing rows, then the incoming.
pub open spec fn listed_relations(outgoing: Seq<RelationRow>, incoming: Seq<RelationRow>) -> Seq<RelationView> {
    outgoing.map_values(|r: RelationRow| row_view(r, true)) + incoming.map_values(|r: RelationRow| row_view(r, false))
}

/// Every listed relation carries its row's data: the outgoing rows first
/// and then the incoming ones, each with the row's id, other page, type
/// and description, and its direction; an outgoing row goes by its label,
/// an incoming one by its inverse label (empty when unset).
pub proof fn lemma_listed_relations_keep_rows(outgoing: Seq<RelationRow>, incoming: Seq<RelationRow>)
    ensures
        listed_relations(outgoing, incoming).len() == outgoing.len() + incoming.len(),
        forall|k: int| 0 <= k < outgoing.len() ==> {
            let v = #[trigger] listed_relations(outgoing, incoming)[k];
            let r = outgoing[k];
            &&& v.0 == r.id@ && v.1 == r.page_id@ && v.2 == r.page_title@
            &&& v.3 == string_opt(r.page_icon) && v.4 == string_opt(r.page_entity_type_id)
            &&& v.5 == r.relation_type_id@
            &&& (r.label matches Some(l) ==> v.6 == l@)
            &&& v.7 == string_opt(r.description)
            &&& v.8 == "outgoing"@
        },
        forall|k: int| 0 <= k < incoming.len() ==> {
            let v = #[trigger] listed_relations(outgoing, incoming)[outgoing.len() + k];
            let r = incoming[k];
            &&& v.0 == r.id@ && v.1 == r.page_id@ && v.2 == r.page_title@
            &&& v.3 == string_opt(r.page_icon) && v.4 == string_opt(r.page_entity_type_id)
            &&& v.5 == r.relation_type_id@
            &&& (r.label matches Some(l) ==> v.6 == l@)
            &&& v.7 == string_opt(r.description)
            &&& v.8 == "incoming"@
        },
{
    let l = listed_relations(outgoing, incoming);
    assert forall|k: int| 0 <= k < incoming.len() implies #[trigger] l[outgoing.len() + k]
        == row_view(incoming[k], false) by {}
}

/// The relations, among `s`, whose other page has title `t`, in order.
pub open spec fn with_title(s: Seq<RelationView>, t: Seq<char>) -> Seq<RelationView> {
    s.filter(titled(t))
}

/// Whether a listed relation's other page has title `t`.
pub open spec fn titled(t: Seq<char>) -> spec_fn(RelationView) -> bool {
    |v: RelationView| v.2 == t
}

/// Ordered by title, each no greater than the next.
pub open spec fn title_sorted(s: Seq<RelationView>) -> bool {
    forall|i: int, j: int| 0 <= i < j < s.len() ==> lex_le(s[i].2, s[j].2)
}

pub open spec fn views(s: Seq<PageRelation>) -> Seq<RelationView> {
    s.map_values(|p: PageRelation| relation_view(p))
}

fn listed(row: RelationRow, outgoing: bool) -> (r: PageRelation)
    ensures
        relation_view(r) == row_view(row, outgoing),
{
    let label = match row.label {
        Some(l) => l,
        None => String::new(),
    };
    PageRelation {
        id: row.id,
        page_id: row.page_id,
        page_title: row.page_title,
        page_icon: row.page_icon,
        page_entity_type_id: row.page_entity_type_id,
        relation_type_id: row.relation_type_id,
        relation_label: label,
        description: row.description,
        direction: owned(if outgoing { "outgoing" } else { "incoming" }),
    }
}

/// Moves `rows`, listed in the given direction, onto the end of `out`.
fn list_rows(rows: Vec<RelationRow>, outgoing: bool, out: &mut Vec<PageRelation>)
    ensures
        views(final(out)@) == views(old(out)@) + rows@.map_values(|r: RelationRow| row_view(r, outgoing)),
{
    let ghost orig = rows@;
    let ghost start = views(out@);
    let mut rest = rows;
    let ghost mut k: int = 0;
    while rest.len() > 0
        invariant
            0 <= k <= orig.len(),
            rest@ == orig.skip(k),
            views(out@) == start + orig.take(k).map_values(|r: RelationRow| row_view(r, outgoing)),
        decreases rest.len(),
    {
        let ghost r0 = rest@;
        let row = rest.remove(0);
        let ghost before = out@;
        out.push(listed(row, outgoing));
        proof {
            assert(r0[0] == orig[k]);
            assert(views(out@) =~= views(before).push(row_view(orig[k], outgoing)));
            assert(orig.take(k + 1).map_values(|r: RelationRow| row_view(r, outgoing))
                =~= orig.take(k).map_values(|r: RelationRow| row_view(r, outgoing)).push(row_view(orig[k], outgoing)));
            k = k + 1;
            assert(rest@ =~= orig.skip(k));
        }
    }
    assert(orig.take(k) =~= orig);
}

proof fn lemma_with_title_single(v: RelationView, t: Seq<char>)
    ensures
        with_title(seq![v], t) == (if v.2 == t { seq![v] } else { Seq::<RelationView>::empty() }),
{
    reveal_with_fuel(Seq::filter, 2);
    assert(seq![v].drop_last() =~= Seq::<RelationView>::empty());
}

/// Inserting `v` where every later title is greater puts it last among
/// its equally titled neighbours and leaves the others alone.
proof fn lemma_with_title_insert(s: Seq<RelationView>, p: int, v: RelationView, t: Seq<char>)
    requires
        0 <= p <= s.len(),
        forall|q: int| p <= q < s.len() ==> lex_lt(v.2, #[trigger] s[q].2),
    ensures
        with_title(s.insert(p, v), t) == with_title(s, t) + with_title(seq![v], t),
{
    let f = titled(t);
    let a = s.take(p);
    let b = s.skip(p);
    assert(s =~= a + b);
    assert(s.insert(p, v) =~= a + seq![v] + b);
    Seq::filter_distributes_over_add(a, b, f);
    Seq::filter_distributes_over_add(a + seq![v], b, f);
    Seq::filter_distributes_over_add(a, seq![v], f);
    lemma_with_title_single(v, t);
    if v.2 == t {
        assert(b.filter(f) =~= Seq::<RelationView>::empty()) by {
            broadcast use vstd::seq_lib::group_filter_ensures;
            if b.filter(f).len() > 0 {
                let w = b.filter(f)[0];
                assert(b.filter(f).contains(w));
                b.lemma_filter_contains_rev(f, w);
                let q = choose|q: int| 0 <= q < b.len() && b[q] == w;
                assert(s[p + q] == b[q]);
                assert(lex_lt(v.2, w.2));
                crate::text::lemma_lex_irrefl(v.2);
            }
        }
        assert(with_title(s.insert(p, v), t) =~= a.filter(f) + seq![v] + b.filter(f));
        assert(with_title(s, t) =~= a.filter(f) + b.filter(f));
    } else {
        assert(with_title(s.insert(p, v), t) =~= a.filter(f) + b.filter(f));
    }
}

/// `rows` ordered by title, keeping the order of equal titles: each is
/// inserted after every relation whose title is not greater.
fn sort_by_title(rows: Vec<PageRelation>) -> (r: Vec<PageRelation>)
    ensures
        title_sorted(views(r@)),
        forall|t: Seq<char>| #[trigger] with_title(views(r@), t) == with_title(views(rows@), t),
{
    let ghost orig = views(rows@);
    let mut rest = rows;
    let mut out: Vec<PageRelation> = Vec::new();
    proof {
        assert forall|t: Seq<char>| #[trigger] with_title(views(out@), t) + with_title(views(rest@), t)
            == with_title(orig, t) by {
            assert(views(out@) =~= Seq::<RelationView>::empty());
            assert(with_title(views(out@), t) =~= Seq::<RelationView>::empty());
            assert(with_title(views(out@), t) + with_title(views(rest@), t) =~= with_title(orig, t));
        }
    }
    while rest.len() > 0
        invariant
            title_sorted(views(out@)),
            forall|t: Seq<char>| #[trigger] with_title(views(out@), t) + with_title(views(rest@), t)
                == with_title(orig, t),
        decreases rest@.len(),
    {
        let ghost pre_rest = rest@;
        let x = rest.remove(0);
        let key = chars_of(x.page_title.as_str());
        let mut p: usize = 0;
        while p < out.len() && !lex_lt_chars(&key, &chars_of(out[p].page_title.as_str()))
            invariant
                p <= out@.len(),
                key@ == x.page_title@,
                forall|q: int| 0 <= q < p ==> !lex_lt(x.page_title@, #[trigger] out@[q].page_title@),
            decreases out@.len() - p,
        {
            p = p + 1;
        }
        let ghost pre_out = out@;
        out.insert(p, x);
        proof {
            let vo = views(pre_out);
            let vx = relation_view(x);
            assert(views(out@) =~= vo.insert(p as int, vx));
            assert forall|q: int| p <= q < vo.len() implies lex_lt(vx.2, #[trigger] vo[q].2) by {
                if q > p {
                    assert(lex_le(vo[p as int].2, vo[q].2));
                    crate::text::lemma_lex_trans(vx.2, vo[p as int].2, vo[q].2);
                }
            }
            assert(pre_rest =~= seq![pre_rest[0]] + rest@);
            assert(views(pre_rest) =~= seq![vx] + views(rest@));
            assert forall|t: Seq<char>| #[trigger] with_title(views(out@), t) + with_title(views(rest@), t)
                == with_title(orig, t) by {
                lemma_with_title_insert(vo, p as int, vx, t);
                Seq::filter_distributes_over_add(seq![vx], views(rest@), titled(t));
                assert(with_title(views(pre_rest), t) == with_title(seq![vx], t) + with_title(views(rest@), t));
                assert(with_title(views(out@), t) + with_title(views(rest@), t)
                    =~= with_title(vo, t) + with_title(views(pre_rest), t));
            }
            assert forall|i: int, j: int| 0 <= i < j < out@.len() implies lex_le(
                views(out@)[i].2,
                views(out@)[j].2,
            ) by {
                let vs = views(out@);
                if j < p {
                    assert(vs[i] == vo[i] && vs[j] == vo[j]);
                } else if j == p {
                    assert(vs[i] == vo[i]);
                    assert(!lex_lt(x.page_title@, pre_out[i].page_title@));
                    crate::text::lemma_lex_total(x.page_title@, pre_out[i].page_title@);
                } else if i == p {
                    assert(vs[j] == vo[j - 1]);
                } else if i < p {
                    assert(vs[i] == vo[i] && vs[j] == vo[j - 1]);
                } else {
                    assert(vs[i] == vo[i - 1] && vs[j] == vo[j - 1]);
                }
            }
        }
    }
    proof {
        assert forall|t: Seq<char>| #[trigger] with_title(views(out@), t) == with_title(views(rows@), t) by {
            assert(views(rest@) =~= Seq::<RelationView>::empty());
            assert(with_title(views(rest@), t) =~= Seq::<RelationView>::empty());
            assert(with_title(views(out@), t) + with_title(views(rest@), t) =~= with_title(views(out@), t));
        }
    }
    out
}

/// A page's relations: those it starts, labelled by their type's name,
/// and those that point at it, labelled by the inverse name (empty when
/// unset), ordered by the title of the page at the other end; relations
/// to equally titled pages keep their order, outgoing first.
pub fn page_relations(outgoing: Vec<RelationRow>, incoming: Vec<RelationRow>) -> (r: Vec<PageRelation>)
    ensures
        title_sorted(views(r@)),
        forall|t: Seq<char>| #[trigger] with_title(views(r@), t) == with_title(listed_relations(outgoing@, incoming@), t),
{
    let ghost o = outgoing@;
    let ghost i = incoming@;
    let mut all: Vec<PageRelation> = Vec::new();
    list_rows(outgoing, true, &mut all);
    list_rows(incoming, false, &mut all);
    assert(views(all@) =~= listed_relations(o, i));
    sort_by_title(all)
}

} // verus!
