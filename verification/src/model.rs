//! The records of a Tome's content as the commands exchange them with the
//! UI, and the small rules applied when they are listed or created.

use vstd::prelude::*;

use crate::restore::UNTITLED_TOME;
use crate::text::{cat, owned, str_eq, string_opt};

verus! {

/// A page of the Tome.
pub struct Page {
    pub id: String,
    pub title: String,
    pub icon: Option<String>,
    pub featured_image_path: Option<String>,
    pub parent_id: Option<String>,
    pub sort_order: i64,
    pub entity_type_id: Option<String>,
    pub visibility: String,
    pub created_at: String,
    pub updated_at: String,
    pub created_by: Option<String>,
    pub updated_by: Option<String>,
}

/// A page in the navigation tree.
pub struct PageTreeNode {
    pub id: String,
    pub title: String,
    pub icon: Option<String>,
    pub entity_type_id: Option<String>,
    pub parent_id: Option<String>,
    pub sort_order: i64,
    /// Number of pages whose parent it is.
    pub children_count: i64,
}

/// A new page.
pub struct CreatePageInput {
    pub title: String,
    pub parent_id: Option<String>,
    pub icon: Option<String>,
    pub entity_type_id: Option<String>,
}

/// Changes to a page; absent fields stay as they are.
pub struct UpdatePageInput {
    pub title: Option<String>,
    pub icon: Option<String>,
    pub parent_id: Option<String>,
    pub sort_order: Option<i64>,
    pub visibility: Option<String>,
    pub featured_image_path: Option<String>,
    pub entity_type_id: Option<String>,
}

/// One page moved in the tree.
pub struct ReorderMove {
    pub id: String,
    pub parent_id: Option<String>,
    pub sort_order: i64,
}

/// A board of cards.
pub struct Board {
    pub id: String,
    pub name: String,
    pub sort_order: i64,
    pub created_at: String,
    pub updated_at: String,
}

/// A line between two cards of a board.
pub struct BoardConnector {
    pub id: String,
    pub board_id: String,
    pub source_card_id: String,
    pub target_card_id: String,
    pub label: Option<String>,
    pub color: Option<String>,
    pub created_at: String,
}

/// A kind of entity (character, place, ...) that pages can have.
pub struct EntityType {
    pub id: String,
    pub name: String,
    pub icon: Option<String>,
    pub color: Option<String>,
    pub is_builtin: bool,
    pub sort_order: i64,
    pub created_at: String,
    pub updated_at: String,
}

/// A field of an entity type.
pub struct EntityTypeField {
    pub id: String,
    pub entity_type_id: String,
    pub name: String,
    pub field_type: String,
    pub sort_order: i64,
    pub is_required: bool,
    pub default_value: Option<String>,
    pub options: Option<String>,
    pub reference_type_id: Option<String>,
    pub created_at: String,
}

/// One field moved in an entity type's field list.
pub struct ReorderFieldMove {
    pub id: String,
    pub sort_order: i64,
}

/// The value a page holds for one field of its entity type.
pub struct FieldValue {
    pub id: String,
    pub page_id: String,
    pub field_id: String,
    pub value: Option<String>,
}

/// A page found by a field-value query.
pub struct PageByFieldResult {
    pub id: String,
    pub title: String,
    pub icon: Option<String>,
    pub entity_type_id: Option<String>,
}

/// A map.
pub struct MapInfo {
    pub id: String,
    pub title: String,
    pub image_id: Option<String>,
    pub parent_map_id: Option<String>,
    pub sort_order: i64,
    pub created_at: String,
    pub updated_at: String,
}

/// A kind of relation between pages, with the name read from the other
/// side.
pub struct RelationType {
    pub id: String,
    pub name: String,
    pub inverse_name: Option<String>,
    pub color: Option<String>,
    pub is_builtin: bool,
    pub created_at: String,
}

/// A relation from one page to another.
pub struct Relation {
    pub id: String,
    pub source_page_id: String,
    pub target_page_id: String,
    pub relation_type_id: String,
    pub description: Option<String>,
    pub created_at: String,
}

/// A relation as seen from one of its pages.
pub struct PageRelation {
    pub id: String,
    /// The page at the other end.
    pub page_id: String,
    pub page_title: String,
    pub page_icon: Option<String>,
    pub page_entity_type_id: Option<String>,
    pub relation_type_id: String,
    pub relation_label: String,
    pub description: Option<String>,
    /// `"outgoing"` or `"incoming"`.
    pub direction: String,
}

/// A tag.
pub struct Tag {
    pub id: String,
    pub name: String,
    pub color: Option<String>,
}

/// A timeline.
pub struct Timeline {
    pub id: String,
    pub name: String,
    pub description: Option<String>,
    pub sort_order: i64,
    pub created_at: String,
    pub updated_at: String,
}

/// An event on a timeline.
pub struct TimelineEvent {
    pub id: String,
    pub timeline_id: String,
    pub title: String,
    pub description: Option<String>,
    pub date: String,
    pub end_date: Option<String>,
    pub page_id: Option<String>,
    pub color: Option<String>,
    pub sort_order: i64,
    pub created_at: String,
}

/// A Tome file.
pub struct TomeInfo {
    pub path: String,
    pub name: String,
    pub description: Option<String>,
}

/// What a Tome says about itself.
pub struct TomeMetadata {
    pub name: String,
    pub description: Option<String>,
    pub cover_image: Option<String>,
    pub created_at: String,
}

/// A saved version of a page.
pub struct PageVersion {
    pub id: String,
    pub page_id: String,
    pub version_number: i64,
    pub created_at: String,
    pub created_by: Option<String>,
    pub summary: Option<String>,
}

/// A wiki link found in a page's text.
pub struct WikiLinkInput {
    pub target_page_id: String,
    pub link_text: Option<String>,
}

/// A page that links to another.
pub struct BacklinkResult {
    pub page_id: String,
    pub title: String,
    pub entity_type_id: Option<String>,
}

// ---------------------------------------------------------------------------
// Rules
// ---------------------------------------------------------------------------

/// A new page goes after its siblings: one past the largest sort order
/// among them, or 1 when it has none.
pub fn next_sort_order(max_sibling: Option<i64>) -> (r: i64)
    requires
        max_sibling matches Some(m) ==> m < i64::MAX,
    ensures
        r == match max_sibling {
            Some(m) => m + 1,
            None => 1,
        },
{
    match max_sibling {
        Some(m) => m + 1,
        None => 1,
    }
}

/// The number of children listed for `id` in `(parent id, count)` rows;
/// the last row for it counts, as when the rows are collected into a map;
/// 0 when there is none.
pub open spec fn children_count_of(counts: Seq<(Seq<char>, i64)>, id: Seq<char>) -> i64
    decreases counts.len(),
{
    if counts.len() == 0 {
        0
    } else if counts.last().0 == id {
        counts.last().1
    } else {
        children_count_of(counts.drop_last(), id)
    }
}

pub open spec fn count_views(v: Seq<(String, i64)>) -> Seq<(Seq<char>, i64)> {
    v.map_values(|p: (String, i64)| (p.0@, p.1))
}

/// Each tree node's number of children, from the per-parent counts.
pub fn set_children_counts(nodes: &mut Vec<PageTreeNode>, counts: &Vec<(String, i64)>)
    ensures
        final(nodes)@.len() == old(nodes)@.len(),
        forall|i: int| 0 <= i < final(nodes)@.len() ==> {
            let n = #[trigger] final(nodes)@[i];
            let o = old(nodes)@[i];
            &&& n.id == o.id && n.title == o.title && n.icon == o.icon
            &&& n.entity_type_id == o.entity_type_id && n.parent_id == o.parent_id
            &&& n.sort_order == o.sort_order
            &&& n.children_count == children_count_of(count_views(counts@), o.id@)
        },
{
    let ghost cv = count_views(counts@);
    let mut i: usize = 0;
    while i < nodes.len()
        invariant
            i <= nodes@.len(),
            nodes@.len() == old(nodes)@.len(),
            cv == count_views(counts@),
            forall|j: int| i <= j < nodes@.len() ==> #[trigger] nodes@[j] == old(nodes)@[j],
            forall|j: int| 0 <= j < i ==> {
                let n = #[trigger] nodes@[j];
                let o = old(nodes)@[j];
                &&& n.id == o.id && n.title == o.title && n.icon == o.icon
                &&& n.entity_type_id == o.entity_type_id && n.parent_id == o.parent_id
                &&& n.sort_order == o.sort_order
                &&& n.children_count == children_count_of(cv, o.id@)
            },
        decreases nodes@.len() - i,
    {
        let mut n = counts.len();
        assert(cv.take(n as int) =~= cv);
        let mut found: i64 = 0;
        while n > 0
            invariant_except_break
                found == 0,
                children_count_of(cv, nodes@[i as int].id@) == children_count_of(cv.take(n as int), nodes@[i as int].id@),
            invariant
                n <= counts@.len(),
                i < nodes@.len(),
                cv == count_views(counts@),
            ensures
                found == children_count_of(cv, nodes@[i as int].id@),
            decreases n,
        {
            let ghost t = cv.take(n as int);
            assert(t.drop_last() =~= cv.take(n - 1));
            assert(t.last() == (counts@[n - 1].0@, counts@[n - 1].1));
            assert(cv.take(n - 1).len() == 0 ==> children_count_of(cv.take(n - 1), nodes@[i as int].id@) == 0);
            if str_eq(counts[n - 1].0.as_str(), nodes[i].id.as_str()) {
                found = counts[n - 1].1;
                break;
            }
            n = n - 1;
        }
        nodes[i].children_count = found;
        i = i + 1;
    }
}


/// The name an opened Tome goes by: the one in its metadata, else the stem
/// of its file's name, else `Untitled Tome`.
pub fn opened_tome_name(name: Option<String>, file_stem: Option<&str>) -> (r: String)
    ensures
        r@ == match name {
            Some(n) => n@,
            None => match file_stem {
                Some(s) => s@,
                None => UNTITLED_TOME@,
            },
        },
{
    match name {
        Some(n) => n,
        None => match file_stem {
            Some(s) => owned(s),
            None => owned(UNTITLED_TOME),
        },
    }
}

/// A Tome's metadata from its stored entries: an unnamed Tome is
/// `Untitled Tome`, an undated one has an empty creation time.
pub fn tome_metadata_of(
    name: Option<String>,
    description: Option<String>,
    cover_image: Option<String>,
    created_at: Option<String>,
) -> (r: TomeMetadata)
    ensures
        r.name@ == match name {
            Some(n) => n@,
            None => UNTITLED_TOME@,
        },
        r.description == description,
        r.cover_image == cover_image,
        r.created_at@ == match created_at {
            Some(c) => c@,
            None => Seq::<char>::empty(),
        },
{
    TomeMetadata {
        name: match name {
            Some(n) => n,
            None => owned(UNTITLED_TOME),
        },
        description,
        cover_image,
        created_at: match created_at {
            Some(c) => c,
            None => String::new(),
        },
    }
}

/// Whether an entity type may be deleted, from its stored built-in flag
/// (`None` when there is no such type): built-in types stay.
pub fn entity_type_deletion(is_builtin: Option<bool>) -> (r: Result<(), String>)
    ensures
        match is_builtin {
            None => r matches Err(e) && e@ == "Entity type not found"@,
            Some(true) => r matches Err(e) && e@ == "Cannot delete built-in entity types"@,
            Some(false) => r is Ok,
        },
{
    match is_builtin {
        None => Err(owned("Entity type not found")),
        Some(true) => Err(owned("Cannot delete built-in entity types")),
        Some(false) => Ok(()),
    }
}

/// The error of saving the content of a page that does not exist.
pub fn missing_page_error(page_id: &str) -> (r: String)
    ensures
        r@ == "Page '"@ + page_id@ + "' not found"@,
{
    let a = cat("Page '", page_id);
    cat(a.as_str(), "' not found")
}

} // verus!
