//! The tables that sync tracks, with the columns it captures for ops.
//!
//! Adding a table to sync is an entry here plus a journal call at each
//! place that writes it; the apply path is generic over these schemas.
//! Page contents (a binary state) and tag assignments (keyed by two ids)
//! have paths of their own.

use vstd::prelude::*;

use crate::text::str_eq;

verus! {

/// What the journal captures of one table.
pub struct TableSchema {
    pub name: &'static str,
    pub columns: Vec<&'static str>,
    pub primary_key: &'static str,
    /// Columns that never raise a conflict, beyond the global meta fields.
    pub meta_fields: Vec<&'static str>,
}

/// Every tracked table.
pub struct TableRegistry {
    pub pages: TableSchema,
    pub entity_types: TableSchema,
    pub relations: TableSchema,
    pub relation_types: TableSchema,
    pub tags: TableSchema,
    pub maps: TableSchema,
    pub map_pins: TableSchema,
    pub timelines: TableSchema,
    pub timeline_events: TableSchema,
    pub boards: TableSchema,
    pub board_cards: TableSchema,
}

/// The texts of a sequence of string slices.
pub open spec fn texts(v: Seq<&'static str>) -> Seq<Seq<char>> {
    v.map_values(|s: &'static str| s@)
}

/// The captured columns of each tracked table; `None` for any other name.
pub open spec fn table_columns(name: Seq<char>) -> Option<Seq<Seq<char>>> {
    if name == "pages"@ {
        Some(seq!["id"@, "title"@, "icon"@, "featured_image_path"@, "parent_id"@, "sort_order"@,
            "entity_type_id"@, "visibility"@, "created_at"@, "updated_at"@, "created_by"@, "updated_by"@])
    } else if name == "entity_types"@ {
        Some(seq!["id"@, "name"@, "icon"@, "color"@, "is_builtin"@, "sort_order"@, "created_at"@, "updated_at"@])
    } else if name == "relations"@ {
        Some(seq!["id"@, "source_page_id"@, "target_page_id"@, "relation_type_id"@, "description"@, "created_at"@])
    } else if name == "relation_types"@ {
        Some(seq!["id"@, "name"@, "inverse_name"@, "color"@, "is_builtin"@, "created_at"@])
    } else if name == "tags"@ {
        Some(seq!["id"@, "name"@, "color"@])
    } else if name == "maps"@ {
        Some(seq!["id"@, "title"@, "image_id"@, "parent_map_id"@, "sort_order"@, "created_at"@, "updated_at"@])
    } else if name == "map_pins"@ {
        Some(seq!["id"@, "map_id"@, "page_id"@, "label"@, "x"@, "y"@, "icon"@, "color"@, "created_at"@])
    } else if name == "timelines"@ {
        Some(seq!["id"@, "name"@, "description"@, "sort_order"@, "created_at"@, "updated_at"@])
    } else if name == "timeline_events"@ {
        Some(seq!["id"@, "timeline_id"@, "title"@, "description"@, "date"@, "end_date"@, "page_id"@,
            "color"@, "sort_order"@, "created_at"@])
    } else if name == "boards"@ {
        Some(seq!["id"@, "name"@, "sort_order"@, "created_at"@, "updated_at"@])
    } else if name == "board_cards"@ {
        Some(seq!["id"@, "board_id"@, "page_id"@, "content"@, "x"@, "y"@, "width"@, "height"@, "color"@,
            "created_at"@])
    } else {
        None
    }
}

/// Page contents and tag assignments are synced by paths of their own, not
/// through a schema.
pub proof fn lemma_untracked_special(name: Seq<char>)
    requires
        name == "page_content"@ || name == "page_tags"@,
    ensures
        table_columns(name) is None,
{
    reveal_strlit("page_content");
    reveal_strlit("page_tags");
    reveal_strlit("pages");
    reveal_strlit("entity_types");
    reveal_strlit("relations");
    reveal_strlit("relation_types");
    reveal_strlit("tags");
    reveal_strlit("maps");
    reveal_strlit("map_pins");
    reveal_strlit("timelines");
    reveal_strlit("timeline_events");
    reveal_strlit("boards");
    reveal_strlit("board_cards");
    assert(name != "pages"@) by {
        if name.len() == "pages"@.len() {
            assert(name[0] != "pages"@[0] || name[1] != "pages"@[1] || name[5] != "pages"@[5]);
        }
    }
    assert(name != "entity_types"@) by {
        if name.len() == "entity_types"@.len() {
            assert(name[0] != "entity_types"@[0] || name[1] != "entity_types"@[1] || name[5] != "entity_types"@[5]);
        }
    }
    assert(name != "relations"@) by {
        if name.len() == "relations"@.len() {
            assert(name[0] != "relations"@[0] || name[1] != "relations"@[1] || name[5] != "relations"@[5]);
        }
    }
    assert(name != "relation_types"@) by {
        if name.len() == "relation_types"@.len() {
            assert(name[0] != "relation_types"@[0] || name[1] != "relation_types"@[1] || name[5] != "relation_types"@[5]);
        }
    }
    assert(name != "tags"@) by {
        if name.len() == "tags"@.len() {
            assert(name[0] != "tags"@[0] || name[1] != "tags"@[1] || name[5] != "tags"@[5]);
        }
    }
    assert(name != "maps"@) by {
        if name.len() == "maps"@.len() {
            assert(name[0] != "maps"@[0] || name[1] != "maps"@[1] || name[5] != "maps"@[5]);
        }
    }
    assert(name != "map_pins"@) by {
        if name.len() == "map_pins"@.len() {
            assert(name[0] != "map_pins"@[0] || name[1] != "map_pins"@[1] || name[5] != "map_pins"@[5]);
        }
    }
    assert(name != "timelines"@) by {
        if name.len() == "timelines"@.len() {
            assert(name[0] != "timelines"@[0] || name[1] != "timelines"@[1] || name[5] != "timelines"@[5]);
        }
    }
    assert(name != "timeline_events"@) by {
        if name.len() == "timeline_events"@.len() {
            assert(name[0] != "timeline_events"@[0] || name[1] != "timeline_events"@[1] || name[5] != "timeline_events"@[5]);
        }
    }
    assert(name != "boards"@) by {
        if name.len() == "boards"@.len() {
            assert(name[0] != "boards"@[0] || name[1] != "boards"@[1] || name[5] != "boards"@[5]);
        }
    }
    assert(name != "board_cards"@) by {
        if name.len() == "board_cards"@.len() {
            assert(name[0] != "board_cards"@[0] || name[1] != "board_cards"@[1] || name[5] != "board_cards"@[5]);
        }
    }
}

/// The columns the application writes when it creates or edits a row of a
/// tracked table: those its INSERT statements list and those its edits set.
pub open spec fn written_column(table: Seq<char>, c: Seq<char>) -> bool {
    ||| table == "pages"@ && (c == "id"@ || c == "title"@ || c == "icon"@ || c == "featured_image_path"@ || c == "parent_id"@ || c == "sort_order"@ || c == "entity_type_id"@ || c == "visibility"@ || c == "created_at"@ || c == "updated_at"@)
    ||| table == "entity_types"@ && (c == "id"@ || c == "name"@ || c == "icon"@ || c == "color"@ || c == "is_builtin"@ || c == "sort_order"@ || c == "created_at"@ || c == "updated_at"@)
    ||| table == "relations"@ && (c == "id"@ || c == "source_page_id"@ || c == "target_page_id"@ || c == "relation_type_id"@ || c == "description"@ || c == "created_at"@)
    ||| table == "relation_types"@ && (c == "id"@ || c == "name"@ || c == "inverse_name"@ || c == "color"@ || c == "is_builtin"@ || c == "created_at"@)
    ||| table == "tags"@ && (c == "id"@ || c == "name"@ || c == "color"@)
    ||| table == "maps"@ && (c == "id"@ || c == "title"@ || c == "image_id"@ || c == "sort_order"@ || c == "created_at"@ || c == "updated_at"@)
    ||| table == "map_pins"@ && (c == "id"@ || c == "map_id"@ || c == "page_id"@ || c == "label"@ || c == "x"@ || c == "y"@ || c == "icon"@ || c == "color"@ || c == "created_at"@)
    ||| table == "timelines"@ && (c == "id"@ || c == "name"@ || c == "description"@ || c == "sort_order"@ || c == "created_at"@ || c == "updated_at"@)
    ||| table == "timeline_events"@ && (c == "id"@ || c == "timeline_id"@ || c == "title"@ || c == "description"@ || c == "date"@ || c == "end_date"@ || c == "page_id"@ || c == "color"@ || c == "sort_order"@ || c == "created_at"@)
    ||| table == "boards"@ && (c == "id"@ || c == "name"@ || c == "sort_order"@ || c == "created_at"@ || c == "updated_at"@)
    ||| table == "board_cards"@ && (c == "id"@ || c == "board_id"@ || c == "page_id"@ || c == "content"@ || c == "x"@ || c == "y"@ || c == "width"@ || c == "height"@ || c == "color"@ || c == "created_at"@)
}

proof fn lemma_tracked_pages(c: Seq<char>)
    requires
        c == "id"@ || c == "title"@ || c == "icon"@ || c == "featured_image_path"@ || c == "parent_id"@ || c == "sort_order"@ || c == "entity_type_id"@ || c == "visibility"@ || c == "created_at"@ || c == "updated_at"@,
    ensures
        table_columns("pages"@) matches Some(cols) && cols.contains(c),
{
    reveal_strlit("pages");
    reveal_strlit("visibility");
    reveal_strlit("title");
    reveal_strlit("updated_at");
    reveal_strlit("created_by");
    reveal_strlit("parent_id");
    reveal_strlit("id");
    reveal_strlit("icon");
    reveal_strlit("sort_order");
    reveal_strlit("entity_type_id");
    reveal_strlit("featured_image_path");
    reveal_strlit("created_at");
    reveal_strlit("updated_by");
    let cols = seq!["id"@, "title"@, "icon"@, "featured_image_path"@, "parent_id"@, "sort_order"@, "entity_type_id"@, "visibility"@, "created_at"@, "updated_at"@, "created_by"@, "updated_by"@];
    assert(table_columns("pages"@) == Some(cols));
    if c == "id"@ {
        assert(cols[0] == c);
    }
    if c == "title"@ {
        assert(cols[1] == c);
    }
    if c == "icon"@ {
        assert(cols[2] == c);
    }
    if c == "featured_image_path"@ {
        assert(cols[3] == c);
    }
    if c == "parent_id"@ {
        assert(cols[4] == c);
    }
    if c == "sort_order"@ {
        assert(cols[5] == c);
    }
    if c == "entity_type_id"@ {
        assert(cols[6] == c);
    }
    if c == "visibility"@ {
        assert(cols[7] == c);
    }
    if c == "created_at"@ {
        assert(cols[8] == c);
    }
    if c == "updated_at"@ {
        assert(cols[9] == c);
    }
}

proof fn lemma_tracked_entity_types(c: Seq<char>)
    requires
        c == "id"@ || c == "name"@ || c == "icon"@ || c == "color"@ || c == "is_builtin"@ || c == "sort_order"@ || c == "created_at"@ || c == "updated_at"@,
    ensures
        table_columns("entity_types"@) matches Some(cols) && cols.contains(c),
{
    reveal_strlit("entity_types");
    reveal_strlit("pages");
    reveal_strlit("name");
    reveal_strlit("color");
    reveal_strlit("updated_at");
    reveal_strlit("is_builtin");
    reveal_strlit("id");
    reveal_strlit("icon");
    reveal_strlit("sort_order");
    reveal_strlit("created_at");
    let cols = seq!["id"@, "name"@, "icon"@, "color"@, "is_builtin"@, "sort_order"@, "created_at"@, "updated_at"@];
    assert("entity_types"@ != "pages"@) by {
        assert("entity_types"@.len() != "pages"@.len());
    }
    assert(table_columns("entity_types"@) == Some(cols));
    if c == "id"@ {
        assert(cols[0] == c);
    }
    if c == "name"@ {
        assert(cols[1] == c);
    }
    if c == "icon"@ {
        assert(cols[2] == c);
    }
    if c == "color"@ {
        assert(cols[3] == c);
    }
    if c == "is_builtin"@ {
        assert(cols[4] == c);
    }
    if c == "sort_order"@ {
        assert(cols[5] == c);
    }
    if c == "created_at"@ {
        assert(cols[6] == c);
    }
    if c == "updated_at"@ {
        assert(cols[7] == c);
    }
}

proof fn lemma_tracked_relations(c: Seq<char>)
    requires
        c == "id"@ || c == "source_page_id"@ || c == "target_page_id"@ || c == "relation_type_id"@ || c == "description"@ || c == "created_at"@,
    ensures
        table_columns("relations"@) matches Some(cols) && cols.contains(c),
{
    reveal_strlit("relations");
    reveal_strlit("pages");
    reveal_strlit("entity_types");
    reveal_strlit("description");
    reveal_strlit("target_page_id");
    reveal_strlit("relation_type_id");
    reveal_strlit("source_page_id");
    reveal_strlit("id");
    reveal_strlit("created_at");
    let cols = seq!["id"@, "source_page_id"@, "target_page_id"@, "relation_type_id"@, "description"@, "created_at"@];
    assert("relations"@ != "pages"@) by {
        assert("relations"@.len() != "pages"@.len());
    }
    assert("relations"@ != "entity_types"@) by {
        assert("relations"@.len() != "entity_types"@.len());
    }
    assert(table_columns("relations"@) == Some(cols));
    if c == "id"@ {
        assert(cols[0] == c);
    }
    if c == "source_page_id"@ {
        assert(cols[1] == c);
    }
    if c == "target_page_id"@ {
        assert(cols[2] == c);
    }
    if c == "relation_type_id"@ {
        assert(cols[3] == c);
    }
    if c == "description"@ {
        assert(cols[4] == c);
    }
    if c == "created_at"@ {
        assert(cols[5] == c);
    }
}

proof fn lemma_tracked_relation_types(c: Seq<char>)
    requires
        c == "id"@ || c == "name"@ || c == "inverse_name"@ || c == "color"@ || c == "is_builtin"@ || c == "created_at"@,
    ensures
        table_columns("relation_types"@) matches Some(cols) && cols.contains(c),
{
    reveal_strlit("relation_types");
    reveal_strlit("pages");
    reveal_strlit("entity_types");
    reveal_strlit("relations");
    reveal_strlit("name");
    reveal_strlit("color");
    reveal_strlit("is_builtin");
    reveal_strlit("id");
    reveal_strlit("created_at");
    reveal_strlit("inverse_name");
    let cols = seq!["id"@, "name"@, "inverse_name"@, "color"@, "is_builtin"@, "created_at"@];
    assert("relation_types"@ != "pages"@) by {
        assert("relation_types"@.len() != "pages"@.len());
    }
    assert("relation_types"@ != "entity_types"@) by {
        assert("relation_types"@.len() != "entity_types"@.len());
    }
    assert("relation_types"@ != "relations"@) by {
        assert("relation_types"@.len() != "relations"@.len());
    }
    assert(table_columns("relation_types"@) == Some(cols));
    if c == "id"@ {
        assert(cols[0] == c);
    }
    if c == "name"@ {
        assert(cols[1] == c);
    }
    if c == "inverse_name"@ {
        assert(cols[2] == c);
    }
    if c == "color"@ {
        assert(cols[3] == c);
    }
    if c == "is_builtin"@ {
        assert(cols[4] == c);
    }
    if c == "created_at"@ {
        assert(cols[5] == c);
    }
}

proof fn lemma_tracked_tags(c: Seq<char>)
    requires
        c == "id"@ || c == "name"@ || c == "color"@,
    ensures
        table_columns("tags"@) matches Some(cols) && cols.contains(c),
{
    reveal_strlit("tags");
    reveal_strlit("pages");
    reveal_strlit("entity_types");
    reveal_strlit("relations");
    reveal_strlit("relation_types");
    reveal_strlit("name");
    reveal_strlit("color");
    reveal_strlit("id");
    let cols = seq!["id"@, "name"@, "color"@];
    assert("tags"@ != "pages"@) by {
        assert("tags"@.len() != "pages"@.len());
    }
    assert("tags"@ != "entity_types"@) by {
        assert("tags"@.len() != "entity_types"@.len());
    }
    assert("tags"@ != "relations"@) by {
        assert("tags"@.len() != "relations"@.len());
    }
    assert("tags"@ != "relation_types"@) by {
        assert("tags"@.len() != "relation_types"@.len());
    }
    assert(table_columns("tags"@) == Some(cols));
    if c == "id"@ {
        assert(cols[0] == c);
    }
    if c == "name"@ {
        assert(cols[1] == c);
    }
    if c == "color"@ {
        assert(cols[2] == c);
    }
}

proof fn lemma_tracked_maps(c: Seq<char>)
    requires
        c == "id"@ || c == "title"@ || c == "image_id"@ || c == "sort_order"@ || c == "created_at"@ || c == "updated_at"@,
    ensures
        table_columns("maps"@) matches Some(cols) && cols.contains(c),
{
    reveal_strlit("maps");
    reveal_strlit("pages");
    reveal_strlit("entity_types");
    reveal_strlit("relations");
    reveal_strlit("relation_types");
    reveal_strlit("tags");
    assert("maps"@[0] != "tags"@[0]);
    reveal_strlit("title");
    reveal_strlit("parent_map_id");
    reveal_strlit("updated_at");
    reveal_strlit("image_id");
    reveal_strlit("id");
    reveal_strlit("sort_order");
    reveal_strlit("created_at");
    let cols = seq!["id"@, "title"@, "image_id"@, "parent_map_id"@, "sort_order"@, "created_at"@, "updated_at"@];
    assert("maps"@ != "pages"@) by {
        assert("maps"@.len() != "pages"@.len());
    }
    assert("maps"@ != "entity_types"@) by {
        assert("maps"@.len() != "entity_types"@.len());
    }
    assert("maps"@ != "relations"@) by {
        assert("maps"@.len() != "relations"@.len());
    }
    assert("maps"@ != "relation_types"@) by {
        assert("maps"@.len() != "relation_types"@.len());
    }
    assert("maps"@ != "tags"@) by {
        assert("maps"@[0] != "tags"@[0]);
    }
    assert(table_columns("maps"@) == Some(cols));
    if c == "id"@ {
        assert(cols[0] == c);
    }
    if c == "title"@ {
        assert(cols[1] == c);
    }
    if c == "image_id"@ {
        assert(cols[2] == c);
    }
    if c == "sort_order"@ {
        assert(cols[4] == c);
    }
    if c == "created_at"@ {
        assert(cols[5] == c);
    }
    if c == "updated_at"@ {
        assert(cols[6] == c);
    }
}

proof fn lemma_tracked_map_pins(c: Seq<char>)
    requires
        c == "id"@ || c == "map_id"@ || c == "page_id"@ || c == "label"@ || c == "x"@ || c == "y"@ || c == "icon"@ || c == "color"@ || c == "created_at"@,
    ensures
        table_columns("map_pins"@) matches Some(cols) && cols.contains(c),
{
    reveal_strlit("map_pins");
    reveal_strlit("pages");
    reveal_strlit("entity_types");
    reveal_strlit("relations");
    reveal_strlit("relation_types");
    reveal_strlit("tags");
    reveal_strlit("maps");
    reveal_strlit("y");
    reveal_strlit("map_id");
    reveal_strlit("color");
    reveal_strlit("page_id");
    reveal_strlit("id");
    reveal_strlit("icon");
    reveal_strlit("label");
    reveal_strlit("x");
    reveal_strlit("created_at");
    let cols = seq!["id"@, "map_id"@, "page_id"@, "label"@, "x"@, "y"@, "icon"@, "color"@, "created_at"@];
    assert("map_pins"@ != "pages"@) by {
        assert("map_pins"@.len() != "pages"@.len());
    }
    assert("map_pins"@ != "entity_types"@) by {
        assert("map_pins"@.len() != "entity_types"@.len());
    }
    assert("map_pins"@ != "relations"@) by {
        assert("map_pins"@.len() != "relations"@.len());
    }
    assert("map_pins"@ != "relation_types"@) by {
        assert("map_pins"@.len() != "relation_types"@.len());
    }
    assert("map_pins"@ != "tags"@) by {
        assert("map_pins"@.len() != "tags"@.len());
    }
    assert("map_pins"@ != "maps"@) by {
        assert("map_pins"@.len() != "maps"@.len());
    }
    assert(table_columns("map_pins"@) == Some(cols));
    if c == "id"@ {
        assert(cols[0] == c);
    }
    if c == "map_id"@ {
        assert(cols[1] == c);
    }
    if c == "page_id"@ {
        assert(cols[2] == c);
    }
    if c == "label"@ {
        assert(cols[3] == c);
    }
    if c == "x"@ {
        assert(cols[4] == c);
    }
    if c == "y"@ {
        assert(cols[5] == c);
    }
    if c == "icon"@ {
        assert(cols[6] == c);
    }
    if c == "color"@ {
        assert(cols[7] == c);
    }
    if c == "created_at"@ {
        assert(cols[8] == c);
    }
}

proof fn lemma_tracked_timelines(c: Seq<char>)
    requires
        c == "id"@ || c == "name"@ || c == "description"@ || c == "sort_order"@ || c == "created_at"@ || c == "updated_at"@,
    ensures
        table_columns("timelines"@) matches Some(cols) && cols.contains(c),
{
    reveal_strlit("timelines");
    reveal_strlit("pages");
    reveal_strlit("entity_types");
    reveal_strlit("relations");
    assert("timelines"@[0] != "relations"@[0]);
    reveal_strlit("relation_types");
    reveal_strlit("tags");
    reveal_strlit("maps");
    reveal_strlit("map_pins");
    reveal_strlit("name");
    reveal_strlit("description");
    reveal_strlit("updated_at");
    reveal_strlit("id");
    reveal_strlit("sort_order");
    reveal_strlit("created_at");
    let cols = seq!["id"@, "name"@, "description"@, "sort_order"@, "created_at"@, "updated_at"@];
    assert("timelines"@ != "pages"@) by {
        assert("timelines"@.len() != "pages"@.len());
    }
    assert("timelines"@ != "entity_types"@) by {
        assert("timelines"@.len() != "entity_types"@.len());
    }
    assert("timelines"@ != "relations"@) by {
        assert("timelines"@[0] != "relations"@[0]);
    }
    assert("timelines"@ != "relation_types"@) by {
        assert("timelines"@.len() != "relation_types"@.len());
    }
    assert("timelines"@ != "tags"@) by {
        assert("timelines"@.len() != "tags"@.len());
    }
    assert("timelines"@ != "maps"@) by {
        assert("timelines"@.len() != "maps"@.len());
    }
    assert("timelines"@ != "map_pins"@) by {
        assert("timelines"@.len() != "map_pins"@.len());
    }
    assert(table_columns("timelines"@) == Some(cols));
    if c == "id"@ {
        assert(cols[0] == c);
    }
    if c == "name"@ {
        assert(cols[1] == c);
    }
    if c == "description"@ {
        assert(cols[2] == c);
    }
    if c == "sort_order"@ {
        assert(cols[3] == c);
    }
    if c == "created_at"@ {
        assert(cols[4] == c);
    }
    if c == "updated_at"@ {
        assert(cols[5] == c);
    }
}

proof fn lemma_tracked_timeline_events(c: Seq<char>)
    requires
        c == "id"@ || c == "timeline_id"@ || c == "title"@ || c == "description"@ || c == "date"@ || c == "end_date"@ || c == "page_id"@ || c == "color"@ || c == "sort_order"@ || c == "created_at"@,
    ensures
        table_columns("timeline_events"@) matches Some(cols) && cols.contains(c),
{
    reveal_strlit("timeline_events");
    reveal_strlit("pages");
    reveal_strlit("entity_types");
    reveal_strlit("relations");
    reveal_strlit("relation_types");
    reveal_strlit("tags");
    reveal_strlit("maps");
    reveal_strlit("map_pins");
    reveal_strlit("timelines");
    reveal_strlit("title");
    reveal_strlit("description");
    reveal_strlit("color");
    reveal_strlit("date");
    reveal_strlit("page_id");
    reveal_strlit("id");
    reveal_strlit("sort_order");
    reveal_strlit("created_at");
    reveal_strlit("timeline_id");
    reveal_strlit("end_date");
    let cols = seq!["id"@, "timeline_id"@, "title"@, "description"@, "date"@, "end_date"@, "page_id"@, "color"@, "sort_order"@, "created_at"@];
    assert("timeline_events"@ != "pages"@) by {
        assert("timeline_events"@.len() != "pages"@.len());
    }
    assert("timeline_events"@ != "entity_types"@) by {
        assert("timeline_events"@.len() != "entity_types"@.len());
    }
    assert("timeline_events"@ != "relations"@) by {
        assert("timeline_events"@.len() != "relations"@.len());
    }
    assert("timeline_events"@ != "relation_types"@) by {
        assert("timeline_events"@.len() != "relation_types"@.len());
    }
    assert("timeline_events"@ != "tags"@) by {
        assert("timeline_events"@.len() != "tags"@.len());
    }
    assert("timeline_events"@ != "maps"@) by {
        assert("timeline_events"@.len() != "maps"@.len());
    }
    assert("timeline_events"@ != "map_pins"@) by {
        assert("timeline_events"@.len() != "map_pins"@.len());
    }
    assert("timeline_events"@ != "timelines"@) by {
        assert("timeline_events"@.len() != "timelines"@.len());
    }
    assert(table_columns("timeline_events"@) == Some(cols));
    if c == "id"@ {
        assert(cols[0] == c);
    }
    if c == "timeline_id"@ {
        assert(cols[1] == c);
    }
    if c == "title"@ {
        assert(cols[2] == c);
    }
    if c == "description"@ {
        assert(cols[3] == c);
    }
    if c == "date"@ {
        assert(cols[4] == c);
    }
    if c == "end_date"@ {
        assert(cols[5] == c);
    }
    if c == "page_id"@ {
        assert(cols[6] == c);
    }
    if c == "color"@ {
        assert(cols[7] == c);
    }
    if c == "sort_order"@ {
        assert(cols[8] == c);
    }
    if c == "created_at"@ {
        assert(cols[9] == c);
    }
}

proof fn lemma_tracked_boards(c: Seq<char>)
    requires
        c == "id"@ || c == "name"@ || c == "sort_order"@ || c == "created_at"@ || c == "updated_at"@,
    ensures
        table_columns("boards"@) matches Some(cols) && cols.contains(c),
{
    reveal_strlit("boards");
    reveal_strlit("pages");
    reveal_strlit("entity_types");
    reveal_strlit("relations");
    reveal_strlit("relation_types");
    reveal_strlit("tags");
    reveal_strlit("maps");
    reveal_strlit("map_pins");
    reveal_strlit("timelines");
    reveal_strlit("timeline_events");
    reveal_strlit("name");
    reveal_strlit("updated_at");
    reveal_strlit("id");
    reveal_strlit("sort_order");
    reveal_strlit("created_at");
    let cols = seq!["id"@, "name"@, "sort_order"@, "created_at"@, "updated_at"@];
    assert("boards"@ != "pages"@) by {
        assert("boards"@.len() != "pages"@.len());
    }
    assert("boards"@ != "entity_types"@) by {
        assert("boards"@.len() != "entity_types"@.len());
    }
    assert("boards"@ != "relations"@) by {
        assert("boards"@.len() != "relations"@.len());
    }
    assert("boards"@ != "relation_types"@) by {
        assert("boards"@.len() != "relation_types"@.len());
    }
    assert("boards"@ != "tags"@) by {
        assert("boards"@.len() != "tags"@.len());
    }
    assert("boards"@ != "maps"@) by {
        assert("boards"@.len() != "maps"@.len());
    }
    assert("boards"@ != "map_pins"@) by {
        assert("boards"@.len() != "map_pins"@.len());
    }
    assert("boards"@ != "timelines"@) by {
        assert("boards"@.len() != "timelines"@.len());
    }
    assert("boards"@ != "timeline_events"@) by {
        assert("boards"@.len() != "timeline_events"@.len());
    }
    assert(table_columns("boards"@) == Some(cols));
    if c == "id"@ {
        assert(cols[0] == c);
    }
    if c == "name"@ {
        assert(cols[1] == c);
    }
    if c == "sort_order"@ {
        assert(cols[2] == c);
    }
    if c == "created_at"@ {
        assert(cols[3] == c);
    }
    if c == "updated_at"@ {
        assert(cols[4] == c);
    }
}

proof fn lemma_tracked_board_cards(c: Seq<char>)
    requires
        c == "id"@ || c == "board_id"@ || c == "page_id"@ || c == "content"@ || c == "x"@ || c == "y"@ || c == "width"@ || c == "height"@ || c == "color"@ || c == "created_at"@,
    ensures
        table_columns("board_cards"@) matches Some(cols) && cols.contains(c),
{
    reveal_strlit("board_cards");
    reveal_strlit("pages");
    reveal_strlit("entity_types");
    reveal_strlit("relations");
    reveal_strlit("relation_types");
    reveal_strlit("tags");
    reveal_strlit("maps");
    reveal_strlit("map_pins");
    reveal_strlit("timelines");
    reveal_strlit("timeline_events");
    reveal_strlit("boards");
    reveal_strlit("y");
    reveal_strlit("width");
    reveal_strlit("content");
    reveal_strlit("color");
    reveal_strlit("x");
    reveal_strlit("page_id");
    reveal_strlit("height");
    reveal_strlit("id");
    reveal_strlit("board_id");
    reveal_strlit("created_at");
    let cols = seq!["id"@, "board_id"@, "page_id"@, "content"@, "x"@, "y"@, "width"@, "height"@, "color"@, "created_at"@];
    assert("board_cards"@ != "pages"@) by {
        assert("board_cards"@.len() != "pages"@.len());
    }
    assert("board_cards"@ != "entity_types"@) by {
        assert("board_cards"@.len() != "entity_types"@.len());
    }
    assert("board_cards"@ != "relations"@) by {
        assert("board_cards"@.len() != "relations"@.len());
    }
    assert("board_cards"@ != "relation_types"@) by {
        assert("board_cards"@.len() != "relation_types"@.len());
    }
    assert("board_cards"@ != "tags"@) by {
        assert("board_cards"@.len() != "tags"@.len());
    }
    assert("board_cards"@ != "maps"@) by {
        assert("board_cards"@.len() != "maps"@.len());
    }
    assert("board_cards"@ != "map_pins"@) by {
        assert("board_cards"@.len() != "map_pins"@.len());
    }
    assert("board_cards"@ != "timelines"@) by {
        assert("board_cards"@.len() != "timelines"@.len());
    }
    assert("board_cards"@ != "timeline_events"@) by {
        assert("board_cards"@.len() != "timeline_events"@.len());
    }
    assert("board_cards"@ != "boards"@) by {
        assert("board_cards"@.len() != "boards"@.len());
    }
    assert(table_columns("board_cards"@) == Some(cols));
    if c == "id"@ {
        assert(cols[0] == c);
    }
    if c == "board_id"@ {
        assert(cols[1] == c);
    }
    if c == "page_id"@ {
        assert(cols[2] == c);
    }
    if c == "content"@ {
        assert(cols[3] == c);
    }
    if c == "x"@ {
        assert(cols[4] == c);
    }
    if c == "y"@ {
        assert(cols[5] == c);
    }
    if c == "width"@ {
        assert(cols[6] == c);
    }
    if c == "height"@ {
        assert(cols[7] == c);
    }
    if c == "color"@ {
        assert(cols[8] == c);
    }
    if c == "created_at"@ {
        assert(cols[9] == c);
    }
}

/// Every column the application writes on a tracked table is captured in
/// that table's ops: an edit of any of them is journaled and reaches the
/// other devices.
pub proof fn lemma_written_columns_are_tracked(table: Seq<char>, c: Seq<char>)
    requires
        written_column(table, c),
    ensures
        table_columns(table) matches Some(cols) && cols.contains(c),
{
    if table == "pages"@ && (c == "id"@ || c == "title"@ || c == "icon"@ || c == "featured_image_path"@ || c == "parent_id"@ || c == "sort_order"@ || c == "entity_type_id"@ || c == "visibility"@ || c == "created_at"@ || c == "updated_at"@) {
        lemma_tracked_pages(c);
    } else if table == "entity_types"@ && (c == "id"@ || c == "name"@ || c == "icon"@ || c == "color"@ || c == "is_builtin"@ || c == "sort_order"@ || c == "created_at"@ || c == "updated_at"@) {
        lemma_tracked_entity_types(c);
    } else if table == "relations"@ && (c == "id"@ || c == "source_page_id"@ || c == "target_page_id"@ || c == "relation_type_id"@ || c == "description"@ || c == "created_at"@) {
        lemma_tracked_relations(c);
    } else if table == "relation_types"@ && (c == "id"@ || c == "name"@ || c == "inverse_name"@ || c == "color"@ || c == "is_builtin"@ || c == "created_at"@) {
        lemma_tracked_relation_types(c);
    } else if table == "tags"@ && (c == "id"@ || c == "name"@ || c == "color"@) {
        lemma_tracked_tags(c);
    } else if table == "maps"@ && (c == "id"@ || c == "title"@ || c == "image_id"@ || c == "sort_order"@ || c == "created_at"@ || c == "updated_at"@) {
        lemma_tracked_maps(c);
    } else if table == "map_pins"@ && (c == "id"@ || c == "map_id"@ || c == "page_id"@ || c == "label"@ || c == "x"@ || c == "y"@ || c == "icon"@ || c == "color"@ || c == "created_at"@) {
        lemma_tracked_map_pins(c);
    } else if table == "timelines"@ && (c == "id"@ || c == "name"@ || c == "description"@ || c == "sort_order"@ || c == "created_at"@ || c == "updated_at"@) {
        lemma_tracked_timelines(c);
    } else if table == "timeline_events"@ && (c == "id"@ || c == "timeline_id"@ || c == "title"@ || c == "description"@ || c == "date"@ || c == "end_date"@ || c == "page_id"@ || c == "color"@ || c == "sort_order"@ || c == "created_at"@) {
        lemma_tracked_timeline_events(c);
    } else if table == "boards"@ && (c == "id"@ || c == "name"@ || c == "sort_order"@ || c == "created_at"@ || c == "updated_at"@) {
        lemma_tracked_boards(c);
    } else if table == "board_cards"@ && (c == "id"@ || c == "board_id"@ || c == "page_id"@ || c == "content"@ || c == "x"@ || c == "y"@ || c == "width"@ || c == "height"@ || c == "color"@ || c == "created_at"@) {
        lemma_tracked_board_cards(c);
    }
}

/// `s` is the schema registered for `name`.
pub open spec fn is_schema_of(s: TableSchema, name: Seq<char>) -> bool {
    &&& s.name@ == name
    &&& table_columns(name) == Some(texts(s.columns@))
    &&& s.primary_key@ == "id"@
    &&& s.meta_fields@.len() == 0
}

fn schema(name: &'static str, columns: Vec<&'static str>) -> (r: TableSchema)
    ensures
        r.name == name,
        r.columns@ == columns@,
        r.primary_key@ == "id"@,
        r.meta_fields@.len() == 0,
{
    TableSchema { name, columns, primary_key: "id", meta_fields: Vec::new() }
}

/// The schema of a tracked table, `None` for an untracked name.
pub fn schema_by_name(name: &str) -> (r: Option<TableSchema>)
    ensures
        match r {
            Some(s) => is_schema_of(s, name@),
            None => table_columns(name@) is None,
        },
{
    let r = if str_eq(name, "pages") {
        Some(schema("pages", vec!["id", "title", "icon", "featured_image_path", "parent_id", "sort_order",
            "entity_type_id", "visibility", "created_at", "updated_at", "created_by", "updated_by"]))
    } else if str_eq(name, "entity_types") {
        Some(schema("entity_types", vec!["id", "name", "icon", "color", "is_builtin", "sort_order", "created_at", "updated_at"]))
    } else if str_eq(name, "relations") {
        Some(schema("relations", vec!["id", "source_page_id", "target_page_id", "relation_type_id", "description", "created_at"]))
    } else if str_eq(name, "relation_types") {
        Some(schema("relation_types", vec!["id", "name", "inverse_name", "color", "is_builtin", "created_at"]))
    } else if str_eq(name, "tags") {
        Some(schema("tags", vec!["id", "name", "color"]))
    } else if str_eq(name, "maps") {
        Some(schema("maps", vec!["id", "title", "image_id", "parent_map_id", "sort_order", "created_at", "updated_at"]))
    } else if str_eq(name, "map_pins") {
        Some(schema("map_pins", vec!["id", "map_id", "page_id", "label", "x", "y", "icon", "color", "created_at"]))
    } else if str_eq(name, "timelines") {
        Some(schema("timelines", vec!["id", "name", "description", "sort_order", "created_at", "updated_at"]))
    } else if str_eq(name, "timeline_events") {
        Some(schema("timeline_events", vec!["id", "timeline_id", "title", "description", "date", "end_date",
            "page_id", "color", "sort_order", "created_at"]))
    } else if str_eq(name, "boards") {
        Some(schema("boards", vec!["id", "name", "sort_order", "created_at", "updated_at"]))
    } else if str_eq(name, "board_cards") {
        Some(schema("board_cards", vec!["id", "board_id", "page_id", "content", "x", "y", "width", "height",
            "color", "created_at"]))
    } else {
        None
    };
    proof {
        if r is Some {
            assert(texts(r->0.columns@) =~= table_columns(name@).unwrap());
        }
    }
    r
}

fn registered(name: &'static str) -> (r: TableSchema)
    requires
        table_columns(name@) is Some,
    ensures
        is_schema_of(r, name@),
{
    match schema_by_name(name) {
        Some(s) => s,
        None => {
            proof {
                assert(false);
            }
            schema(name, Vec::new())
        },
    }
}

/// The schemas of every tracked table.
pub fn tables() -> (r: TableRegistry)
    ensures
        is_schema_of(r.pages, "pages"@),
        is_schema_of(r.entity_types, "entity_types"@),
        is_schema_of(r.relations, "relations"@),
        is_schema_of(r.relation_types, "relation_types"@),
        is_schema_of(r.tags, "tags"@),
        is_schema_of(r.maps, "maps"@),
        is_schema_of(r.map_pins, "map_pins"@),
        is_schema_of(r.timelines, "timelines"@),
        is_schema_of(r.timeline_events, "timeline_events"@),
        is_schema_of(r.boards, "boards"@),
        is_schema_of(r.board_cards, "board_cards"@),
{
    proof {
        reveal_strlit("pages");
        reveal_strlit("entity_types");
        reveal_strlit("relations");
        reveal_strlit("relation_types");
        reveal_strlit("tags");
        reveal_strlit("maps");
        reveal_strlit("map_pins");
        reveal_strlit("timelines");
        reveal_strlit("timeline_events");
        reveal_strlit("boards");
        reveal_strlit("board_cards");
    }
    TableRegistry {
        pages: registered("pages"),
        entity_types: registered("entity_types"),
        relations: registered("relations"),
        relation_types: registered("relation_types"),
        tags: registered("tags"),
        maps: registered("maps"),
        map_pins: registered("map_pins"),
        timelines: registered("timelines"),
        timeline_events: registered("timeline_events"),
        boards: registered("boards"),
        board_cards: registered("board_cards"),
    }
}

} // verus!
