//! Applying a remote op to the local database: the statements that each op
//! becomes. Running them is the application's; a remote op is written with
//! plain SQL and never journaled again, so applying does not loop back.

use vstd::prelude::*;

use crate::codec::{b64_decode, base64_std};
use crate::errors::SyncError;
use crate::journal::OpKind;
use crate::text::{cat, chars_of, owned, str_eq, string_of, string_opt, sub_chars};

verus! {

/// A field value as the database takes it, read from its JSON text.
pub enum SqlValue {
    Text(String),
    /// A JSON integer that fits `i64`.
    Int(i64),
    Bool(bool),
    /// JSON `null`, or no value.
    Null,
    /// A JSON number that is not an `i64` (a fraction, a larger integer),
    /// by its JSON text.
    Number(String),
    /// Any other JSON value (an array, an object), which no table holds.
    Other,
}

/// One bound parameter of a statement.
pub enum SqlArg {
    Text(String),
    MaybeText(Option<String>),
    Int(i64),
    Bool(bool),
    /// A number that is not an `i64`, by its JSON text.
    Number(String),
    Blob(Vec<u8>),
}

/// A statement with its parameters, in order.
pub struct SqlStatement {
    pub sql: String,
    pub args: Vec<SqlArg>,
}

/// A parsed JSON value as plain values, down to what applying an op reads:
/// a number by the `i64` it is, if it is one, and by its text.
pub enum JsonScalarView {
    Text(Seq<char>),
    Number(Option<i64>, Seq<char>),
    Bool(bool),
    Null,
    Array,
    Object,
    /// Text that is not JSON.
    Invalid,
}

/// A field's JSON text as parsed, down to what applying an op reads.
pub enum JsonScalar {
    Text(String),
    Number(Option<i64>, String),
    Bool(bool),
    Null,
    Array,
    Object,
    Invalid,
}

pub open spec fn json_scalar_view(j: JsonScalar) -> JsonScalarView {
    match j {
        JsonScalar::Text(s) => JsonScalarView::Text(s@),
        JsonScalar::Number(n, t) => JsonScalarView::Number(n, t@),
        JsonScalar::Bool(b) => JsonScalarView::Bool(b),
        JsonScalar::Null => JsonScalarView::Null,
        JsonScalar::Array => JsonScalarView::Array,
        JsonScalar::Object => JsonScalarView::Object,
        JsonScalar::Invalid => JsonScalarView::Invalid,
    }
}

/// What `serde_json` parses a text into, as `json_scalar` reads it.
pub uninterp spec fn json_scalar_of(text: Seq<char>) -> JsonScalarView;

/// A JSON string literal without escapes: quotes around characters that
/// are neither quotes, backslashes nor control characters.
pub open spec fn plain_json_string(t: Seq<char>) -> bool {
    &&& t.len() >= 2
    &&& t[0] == '"'
    &&& t.last() == '"'
    &&& forall|i: int| 1 <= i < t.len() - 1 ==> crate::codec::json_plain_char(#[trigger] t[i])
}

/// `serde_json::from_str::<serde_json::Value>`, its variants told apart and
/// a number taken by `as_i64` and by its `Display` text. The result is named; beside it stands what
/// JSON's grammar gives for a string literal without escapes: its
/// characters.
#[verifier::external_body]
fn json_scalar(text: &str) -> (r: JsonScalar)
    ensures
        json_scalar_view(r) == json_scalar_of(text@),
        plain_json_string(text@) ==> json_scalar_view(r) == JsonScalarView::Text(text@.subrange(1, text@.len() - 1)),
{
    match serde_json::from_str::<serde_json::Value>(text) {
        Ok(serde_json::Value::String(s)) => JsonScalar::Text(s),
        Ok(serde_json::Value::Number(n)) => JsonScalar::Number(n.as_i64(), n.to_string()),
        Ok(serde_json::Value::Bool(b)) => JsonScalar::Bool(b),
        Ok(serde_json::Value::Null) => JsonScalar::Null,
        Ok(serde_json::Value::Array(_)) => JsonScalar::Array,
        Ok(serde_json::Value::Object(_)) => JsonScalar::Object,
        Err(_) => JsonScalar::Invalid,
    }
}

/// What `serde_json` makes of a text as `json_value` reads it: the
/// parser's error text, or the value told apart as `json_scalar` does and
/// its text as `serde_json` writes it back.
pub uninterp spec fn json_value_of(text: Seq<char>) -> Result<(JsonScalarView, Seq<char>), Seq<char>>;

/// `serde_json::from_str::<serde_json::Value>`, its variants told apart
/// (a number by `as_i64` and its `Display` text), with the value's own
/// `Display` text, or the error's displayed text. The result is named.
#[verifier::external_body]
pub(crate) fn json_value(text: &str) -> (r: Result<(JsonScalar, String), String>)
    ensures
        match r {
            Ok((j, c)) => json_value_of(text@) == Ok::<(JsonScalarView, Seq<char>), Seq<char>>((json_scalar_view(j), c@)),
            Err(e) => json_value_of(text@) == Err::<(JsonScalarView, Seq<char>), Seq<char>>(e@),
        },
{
    let v: serde_json::Value = serde_json::from_str(text).map_err(|e| e.to_string())?;
    let j = match &v {
        serde_json::Value::String(s) => JsonScalar::Text(s.clone()),
        serde_json::Value::Number(n) => JsonScalar::Number(n.as_i64(), n.to_string()),
        serde_json::Value::Bool(b) => JsonScalar::Bool(*b),
        serde_json::Value::Null => JsonScalar::Null,
        serde_json::Value::Array(_) => JsonScalar::Array,
        serde_json::Value::Object(_) => JsonScalar::Object,
    };
    Ok((j, v.to_string()))
}

/// How the database takes a JSON field value.
pub open spec fn sql_value_of_json(j: JsonScalarView) -> SqlValueView {
    match j {
        JsonScalarView::Text(s) => SqlValueView::Text(s),
        JsonScalarView::Number(Some(i), _) => SqlValueView::Int(i),
        JsonScalarView::Number(None, t) => SqlValueView::Number(t),
        JsonScalarView::Bool(b) => SqlValueView::Bool(b),
        JsonScalarView::Null => SqlValueView::Null,
        _ => SqlValueView::Other,
    }
}

/// A field value as plain values.
pub enum SqlValueView {
    Text(Seq<char>),
    Int(i64),
    Bool(bool),
    Null,
    Number(Seq<char>),
    Other,
}

pub open spec fn sql_value_view(v: SqlValue) -> SqlValueView {
    match v {
        SqlValue::Text(s) => SqlValueView::Text(s@),
        SqlValue::Int(i) => SqlValueView::Int(i),
        SqlValue::Bool(b) => SqlValueView::Bool(b),
        SqlValue::Null => SqlValueView::Null,
        SqlValue::Number(t) => SqlValueView::Number(t@),
        SqlValue::Other => SqlValueView::Other,
    }
}

/// An op's fields as plain values, in order.
pub open spec fn field_views(f: Seq<(String, SqlValue)>) -> Seq<(Seq<char>, SqlValueView)> {
    f.map_values(|p: (String, SqlValue)| (p.0@, sql_value_view(p.1)))
}

/// The field value a bound parameter writes: a blob is none of them.
pub open spec fn arg_value(a: SqlArg) -> SqlValueView {
    match a {
        SqlArg::Text(s) => SqlValueView::Text(s@),
        SqlArg::MaybeText(Some(s)) => SqlValueView::Text(s@),
        SqlArg::MaybeText(None) => SqlValueView::Null,
        SqlArg::Int(i) => SqlValueView::Int(i),
        SqlArg::Bool(b) => SqlValueView::Bool(b),
        SqlArg::Number(t) => SqlValueView::Number(t@),
        SqlArg::Blob(_) => SqlValueView::Other,
    }
}

/// The value a field's JSON text (`None` for NULL) gives the database: a
/// string, an `i64` integer, a boolean or NULL as such, another number by
/// its text, anything else (an array, an object, text that is not JSON) as
/// a value no table holds.
pub fn sql_value(text: &Option<String>) -> (r: SqlValue)
    ensures
        sql_value_view(r) == match text {
            None => SqlValueView::Null,
            Some(t) => sql_value_of_json(json_scalar_of(t@)),
        },
        match text {
            Some(t) => plain_json_string(t@) ==> sql_value_view(r) == SqlValueView::Text(t@.subrange(1, t@.len() - 1)),
            None => true,
        },
{
    match text {
        None => SqlValue::Null,
        Some(t) => match json_scalar(t.as_str()) {
            JsonScalar::Text(s) => SqlValue::Text(s),
            JsonScalar::Number(Some(i), _) => SqlValue::Int(i),
            JsonScalar::Number(None, t) => SqlValue::Number(t),
            JsonScalar::Bool(b) => SqlValue::Bool(b),
            JsonScalar::Null => SqlValue::Null,
            _ => SqlValue::Other,
        },
    }
}

/// The editor state one device journals is the state that applying its op
/// writes on another: the journaled `yjs_state` value (the state's Base64
/// text in quotes) is a JSON string without escapes that reads back as the
/// Base64 text, and that text decodes to no other state.
pub proof fn lemma_saved_content_reads_back(state: Seq<u8>, other: Seq<u8>)
    ensures
        plain_json_string("\""@ + base64_std(state) + "\""@),
        ("\""@ + base64_std(state) + "\""@).subrange(1, base64_std(state).len() + 1int) == base64_std(state),
        base64_std(other) == base64_std(state) ==> other == state,
{
    reveal_strlit("\"");
    let b = base64_std(state);
    let t = "\""@ + b + "\""@;
    crate::codec::lemma_base64_json_plain(state);
    assert forall|i: int| 1 <= i < t.len() - 1 implies crate::codec::json_plain_char(#[trigger] t[i]) by {
        assert(t[i] == b[i - 1]);
    }
    assert(t.subrange(1, b.len() + 1int) =~= b);
    if base64_std(other) == base64_std(state) {
        crate::codec::lemma_base64_injective(other, state);
    }
}

/// The text of a field when it is a JSON string.
pub open spec fn text_of(fields: Seq<(String, SqlValue)>, name: Seq<char>) -> Option<Seq<char>>
    decreases fields.len(),
{
    if fields.len() == 0 {
        None
    } else if fields.last().0@ == name {
        match fields.last().1 {
            SqlValue::Text(s) => Some(s@),
            _ => None,
        }
    } else {
        text_of(fields.drop_last(), name)
    }
}

/// The integer of a field when it is a JSON integer.
pub open spec fn int_of(fields: Seq<(String, SqlValue)>, name: Seq<char>) -> Option<i64>
    decreases fields.len(),
{
    if fields.len() == 0 {
        None
    } else if fields.last().0@ == name {
        match fields.last().1 {
            SqlValue::Int(i) => Some(i),
            _ => None,
        }
    } else {
        int_of(fields.drop_last(), name)
    }
}

/// Where `name` is last listed among `fields`.
fn find_field(fields: &Vec<(String, SqlValue)>, name: &str) -> (r: Option<usize>)
    ensures
        match r {
            Some(k) => k < fields@.len() && fields@[k as int].0@ == name@
                && text_of(fields@, name@) == (match fields@[k as int].1 {
                    SqlValue::Text(s) => Some(s@),
                    _ => None,
                })
                && int_of(fields@, name@) == (match fields@[k as int].1 {
                    SqlValue::Int(i) => Some(i),
                    _ => None,
                }),
            None => text_of(fields@, name@) is None && int_of(fields@, name@) is None,
        },
{
    let mut n = fields.len();
    assert(fields@.take(n as int) =~= fields@);
    while n > 0
        invariant
            n <= fields@.len(),
            text_of(fields@, name@) == text_of(fields@.take(n as int), name@),
            int_of(fields@, name@) == int_of(fields@.take(n as int), name@),
        decreases n,
    {
        let ghost t = fields@.take(n as int);
        assert(t.drop_last() =~= fields@.take(n - 1));
        if str_eq(fields[n - 1].0.as_str(), name) {
            return Some(n - 1);
        }
        n = n - 1;
    }
    None
}

fn text_field(fields: &Vec<(String, SqlValue)>, name: &str) -> (r: Option<String>)
    ensures
        string_opt(r) == text_of(fields@, name@),
{
    match find_field(fields, name) {
        Some(k) => match &fields[k].1 {
            SqlValue::Text(s) => Some(s.clone()),
            _ => None,
        },
        None => None,
    }
}

fn int_field(fields: &Vec<(String, SqlValue)>, name: &str) -> (r: Option<i64>)
    ensures
        r == int_of(fields@, name@),
{
    match find_field(fields, name) {
        Some(k) => match &fields[k].1 {
            SqlValue::Int(i) => Some(*i),
            _ => None,
        },
        None => None,
    }
}

/// The statement that inserts (or replaces) a page from an Insert op's
/// fields: text columns from string values, the sort order from an
/// integer, with defaults for a missing title (empty), sort order (0),
/// visibility (`private`) and times (`now`).
pub open spec fn page_insert_args(row_id: Seq<char>, f: Seq<(String, SqlValue)>, now: Seq<char>) -> Seq<(bool, Option<Seq<char>>, Option<i64>)> {
    let or = |o: Option<Seq<char>>, d: Seq<char>| match o {
        Some(s) => s,
        None => d,
    };
    seq![
        (true, Some(row_id), None),
        (true, Some(or(text_of(f, "title"@), Seq::empty())), None),
        (false, text_of(f, "icon"@), None),
        (false, text_of(f, "featured_image_path"@), None),
        (false, text_of(f, "parent_id"@), None),
        (true, None, Some(match int_of(f, "sort_order"@) {
            Some(i) => i,
            None => 0,
        })),
        (false, text_of(f, "entity_type_id"@), None),
        (true, Some(or(text_of(f, "visibility"@), "private"@)), None),
        (true, Some(or(text_of(f, "created_at"@), now)), None),
        (true, Some(or(text_of(f, "updated_at"@), now)), None),
        (false, text_of(f, "created_by"@), None),
        (false, text_of(f, "updated_by"@), None),
    ]
}

/// A remote page insert writes each column from the op's field of the same
/// name: the row id as `id`; `icon`, `featured_image_path`, `parent_id`,
/// `entity_type_id`, `created_by` and `updated_by` exactly as the op holds
/// them (NULL when it does not hold them as strings); `title`,
/// `sort_order`, `visibility` and the two times from the op when it holds
/// them, and only otherwise from their defaults.
pub proof fn lemma_page_insert_binds_fields(row_id: Seq<char>, f: Seq<(String, SqlValue)>, now: Seq<char>)
    ensures
        page_insert_args(row_id, f, now).len() == 12,
        page_insert_args(row_id, f, now)[0] == (true, Some(row_id), None::<i64>),
        page_insert_args(row_id, f, now)[2] == (false, text_of(f, "icon"@), None::<i64>),
        page_insert_args(row_id, f, now)[3] == (false, text_of(f, "featured_image_path"@), None::<i64>),
        page_insert_args(row_id, f, now)[4] == (false, text_of(f, "parent_id"@), None::<i64>),
        page_insert_args(row_id, f, now)[6] == (false, text_of(f, "entity_type_id"@), None::<i64>),
        page_insert_args(row_id, f, now)[10] == (false, text_of(f, "created_by"@), None::<i64>),
        page_insert_args(row_id, f, now)[11] == (false, text_of(f, "updated_by"@), None::<i64>),
        text_of(f, "title"@) matches Some(t) ==> page_insert_args(row_id, f, now)[1] == (true, Some(t), None::<i64>),
        int_of(f, "sort_order"@) matches Some(n) ==> page_insert_args(row_id, f, now)[5] == (true, None::<Seq<char>>, Some(n)),
        text_of(f, "visibility"@) matches Some(v) ==> page_insert_args(row_id, f, now)[7] == (true, Some(v), None::<i64>),
        text_of(f, "created_at"@) matches Some(t) ==> page_insert_args(row_id, f, now)[8] == (true, Some(t), None::<i64>),
        text_of(f, "updated_at"@) matches Some(t) ==> page_insert_args(row_id, f, now)[9] == (true, Some(t), None::<i64>),
{
}

/// A parameter as `(required, text, integer)`.
pub open spec fn arg_view(a: SqlArg) -> (bool, Option<Seq<char>>, Option<i64>) {
    match a {
        SqlArg::Text(s) => (true, Some(s@), None),
        SqlArg::MaybeText(o) => (false, string_opt(o), None),
        SqlArg::Int(i) => (true, None, Some(i)),
        SqlArg::Bool(b) => (true, None, Some(if b { 1i64 } else { 0i64 })),
        SqlArg::Number(_) => (true, None, None),
        SqlArg::Blob(_) => (true, None, None),
    }
}

pub open spec fn page_insert_sql() -> Seq<char> {
    "INSERT OR REPLACE INTO pages (id, title, icon, featured_image_path, parent_id, sort_order, entity_type_id, visibility, created_at, updated_at, created_by, updated_by) VALUES (?, ?, ?, ?, ?, ?, ?, ?, ?, ?, ?, ?)"@
}

fn or_text(o: Option<String>, d: &str) -> (r: String)
    ensures
        r@ == match o {
            Some(s) => s@,
            None => d@,
        },
{
    match o {
        Some(s) => s,
        None => owned(d),
    }
}

/// The statement that writes a page from an Insert op.
pub fn page_insert_statement(row_id: &str, fields: &Vec<(String, SqlValue)>, now: &str) -> (r: SqlStatement)
    ensures
        r.sql@ == page_insert_sql(),
        r.args@.map_values(|a: SqlArg| arg_view(a)) == page_insert_args(row_id@, fields@, now@),
{
    let mut args: Vec<SqlArg> = Vec::new();
    args.push(SqlArg::Text(owned(row_id)));
    args.push(SqlArg::Text(match text_field(fields, "title") {
        Some(t) => t,
        None => String::new(),
    }));
    args.push(SqlArg::MaybeText(text_field(fields, "icon")));
    args.push(SqlArg::MaybeText(text_field(fields, "featured_image_path")));
    args.push(SqlArg::MaybeText(text_field(fields, "parent_id")));
    args.push(SqlArg::Int(match int_field(fields, "sort_order") {
        Some(i) => i,
        None => 0,
    }));
    args.push(SqlArg::MaybeText(text_field(fields, "entity_type_id")));
    args.push(SqlArg::Text(or_text(text_field(fields, "visibility"), "private")));
    args.push(SqlArg::Text(or_text(text_field(fields, "created_at"), now)));
    args.push(SqlArg::Text(or_text(text_field(fields, "updated_at"), now)));
    args.push(SqlArg::MaybeText(text_field(fields, "created_by")));
    args.push(SqlArg::MaybeText(text_field(fields, "updated_by")));
    let ghost want = page_insert_args(row_id@, fields@, now@);
    let ghost got = args@.map_values(|a: SqlArg| arg_view(a));
    assert(got.len() == want.len());
    assert forall|i: int| 0 <= i < got.len() implies got[i] == want[i] by {
        assert(got[i] == arg_view(args@[i]));
    }
    assert(got =~= want);
    SqlStatement {
        sql: owned("INSERT OR REPLACE INTO pages (id, title, icon, featured_image_path, parent_id, sort_order, entity_type_id, visibility, created_at, updated_at, created_by, updated_by) VALUES (?, ?, ?, ?, ?, ?, ?, ?, ?, ?, ?, ?)"),
        args,
    }
}

/// A value the table takes: anything but an array or an object, and a
/// number outside `i64` only where `numbers` allows it.
pub open spec fn held(v: SqlValueView, numbers: bool) -> bool {
    !(v is Other) && (numbers || !(v is Number))
}

/// The fields that are written: those before the first value the table
/// does not take.
pub open spec fn writable_prefix(fields: Seq<(Seq<char>, SqlValueView)>, numbers: bool) -> int
    decreases fields.len(),
{
    if fields.len() == 0 {
        0
    } else {
        let p = writable_prefix(fields.drop_last(), numbers);
        if p == fields.len() - 1 && held(fields.last().1, numbers) {
            fields.len() as int
        } else {
            p
        }
    }
}

proof fn lemma_writable_prefix(fields: Seq<(Seq<char>, SqlValueView)>, numbers: bool)
    ensures
        0 <= writable_prefix(fields, numbers) <= fields.len(),
        forall|i: int| 0 <= i < writable_prefix(fields, numbers) ==> held(#[trigger] fields[i].1, numbers),
        writable_prefix(fields, numbers) < fields.len() ==> !held(fields[writable_prefix(fields, numbers)].1, numbers),
    decreases fields.len(),
{
    if fields.len() > 0 {
        let init = fields.drop_last();
        lemma_writable_prefix(init, numbers);
        assert forall|i: int| 0 <= i < writable_prefix(fields, numbers) implies held(#[trigger] fields[i].1, numbers) by {
            if i < init.len() {
                assert(init[i] == fields[i]);
            }
        }
        if writable_prefix(init, numbers) < init.len() {
            assert(init[writable_prefix(init, numbers)] == fields[writable_prefix(init, numbers)]);
        }
    }
}

/// The parameter that writes a value.
fn value_arg(v: &SqlValue) -> (r: SqlArg)
    requires
        held(sql_value_view(*v), true),
    ensures
        arg_value(r) == sql_value_view(*v),
{
    match v {
        SqlValue::Text(s) => SqlArg::Text(s.clone()),
        SqlValue::Int(i) => SqlArg::Int(*i),
        SqlValue::Bool(b) => SqlArg::Bool(*b),
        SqlValue::Number(t) => SqlArg::Number(t.clone()),
        _ => SqlArg::MaybeText(None),
    }
}

/// Where the first value the table does not take stands.
fn first_unheld(fields: &Vec<(String, SqlValue)>, numbers: bool) -> (r: usize)
    ensures
        r == writable_prefix(field_views(fields@), numbers),
{
    let ghost fv = field_views(fields@);
    proof {
        lemma_writable_prefix(fv, numbers);
    }
    let mut i: usize = 0;
    while i < fields.len()
        invariant
            i <= fields@.len(),
            fv == field_views(fields@),
            i <= writable_prefix(fv, numbers) <= fv.len(),
            forall|j: int| 0 <= j < writable_prefix(fv, numbers) ==> held(#[trigger] fv[j].1, numbers),
            writable_prefix(fv, numbers) < fv.len() ==> !held(fv[writable_prefix(fv, numbers)].1, numbers),
        decreases fields.len() - i,
    {
        assert(fv[i as int].1 == sql_value_view(fields@[i as int].1));
        let ok = match &fields[i].1 {
            SqlValue::Other => false,
            SqlValue::Number(_) => numbers,
            _ => true,
        };
        if !ok {
            return i;
        }
        i = i + 1;
    }
    i
}

/// `stmts` and `err` are the Update of `row_id` in `table` from `fields`:
/// one statement per field, in order, up to the first value the table does
/// not take, and then that value's error.
pub open spec fn updates_as(
    stmts: Seq<SqlStatement>,
    err: Option<SyncError>,
    table: Seq<char>,
    row_id: Seq<char>,
    fields: Seq<(Seq<char>, SqlValueView)>,
    numbers: bool,
) -> bool {
    &&& stmts.len() == writable_prefix(fields, numbers)
    &&& forall|i: int|
        0 <= i < stmts.len() ==> {
            &&& (#[trigger] stmts[i]).sql@ == "UPDATE "@ + table + " SET "@ + fields[i].0 + " = ? WHERE id = ?"@
            &&& stmts[i].args@.len() == 2
            &&& arg_value(stmts[i].args@[0]) == fields[i].1
            &&& arg_value(stmts[i].args@[1]) == SqlValueView::Text(row_id)
        }
    &&& match err {
        None => writable_prefix(fields, numbers) == fields.len(),
        Some(SyncError::Journal(m)) => writable_prefix(fields, numbers) < fields.len() && m@
            == "unsupported field value type for "@ + table + "."@ + fields[writable_prefix(fields, numbers)].0,
        Some(_) => false,
    }
}

fn update_statements(table: &str, row_id: &str, fields: &Vec<(String, SqlValue)>, numbers: bool) -> (r: (
    Vec<SqlStatement>,
    Option<SyncError>,
))
    ensures
        updates_as(r.0@, r.1, table@, row_id@, field_views(fields@), numbers),
{
    let ghost fv = field_views(fields@);
    let p = first_unheld(fields, numbers);
    proof {
        lemma_writable_prefix(fv, numbers);
    }
    let mut out: Vec<SqlStatement> = Vec::new();
    let mut i: usize = 0;
    while i < p
        invariant
            i <= p == writable_prefix(fv, numbers) <= fv.len() == fields@.len(),
            fv == field_views(fields@),
            out@.len() == i,
            forall|j: int| 0 <= j < p ==> held(#[trigger] fv[j].1, numbers),
            forall|j: int|
                0 <= j < out@.len() ==> {
                    &&& (#[trigger] out@[j]).sql@ == "UPDATE "@ + table@ + " SET "@ + fv[j].0 + " = ? WHERE id = ?"@
                    &&& out@[j].args@.len() == 2
                    &&& arg_value(out@[j].args@[0]) == fv[j].1
                    &&& arg_value(out@[j].args@[1]) == SqlValueView::Text(row_id@)
                },
        decreases p - i,
    {
        assert(fv[i as int] == (fields@[i as int].0@, sql_value_view(fields@[i as int].1)));
        assert(held(fv[i as int].1, numbers));
        let name = &fields[i].0;
        let a = cat("UPDATE ", table);
        let b = cat(a.as_str(), " SET ");
        let c = cat(b.as_str(), name.as_str());
        let sql = cat(c.as_str(), " = ? WHERE id = ?");
        let mut args: Vec<SqlArg> = Vec::new();
        args.push(value_arg(&fields[i].1));
        args.push(SqlArg::Text(owned(row_id)));
        out.push(SqlStatement { sql, args });
        i = i + 1;
    }
    if p < fields.len() {
        assert(fv[p as int] == (fields@[p as int].0@, sql_value_view(fields@[p as int].1)));
        let a = cat("unsupported field value type for ", table);
        let b = cat(a.as_str(), ".");
        let m = cat(b.as_str(), fields[p].0.as_str());
        (out, Some(SyncError::Journal(m)))
    } else {
        (out, None)
    }
}

/// The statements of an Update op on a page, one per field in order, up to
/// the first value the pages table does not take (a number outside `i64`,
/// an array, an object); that value's error, if any.
pub fn page_update_statements(row_id: &str, fields: &Vec<(String, SqlValue)>) -> (r: (Vec<SqlStatement>, Option<SyncError>))
    ensures
        updates_as(r.0@, r.1, "pages"@, row_id@, field_views(fields@), false),
{
    update_statements("pages", row_id, fields, false)
}

/// A column that an op writes through the table's schema: one of its
/// columns other than the key.
pub open spec fn column_kept(name: Seq<char>, cols: Seq<Seq<char>>) -> bool {
    cols.contains(name) && name != "id"@
}

/// The fields of an op that name a column of the table, in order.
pub open spec fn kept(f: Seq<(Seq<char>, SqlValueView)>, cols: Seq<Seq<char>>) -> Seq<(Seq<char>, SqlValueView)>
    decreases f.len(),
{
    if f.len() == 0 {
        f
    } else {
        let k = kept(f.drop_last(), cols);
        if column_kept(f.last().0, cols) {
            k.push(f.last())
        } else {
            k
        }
    }
}

fn has_column(cols: &Vec<&'static str>, name: &str) -> (r: bool)
    ensures
        r == crate::registry::texts(cols@).contains(name@),
{
    let ghost t = crate::registry::texts(cols@);
    let mut i: usize = 0;
    while i < cols.len()
        invariant
            i <= cols@.len() == t.len(),
            t == crate::registry::texts(cols@),
            forall|j: int| 0 <= j < i ==> t[j] != name@,
        decreases cols.len() - i,
    {
        assert(t[i as int] == cols@[i as int]@);
        if str_eq(cols[i], name) {
            assert(t[i as int] == name@);
            return true;
        }
        i = i + 1;
    }
    false
}

fn copy_value(v: &SqlValue) -> (r: SqlValue)
    ensures
        sql_value_view(r) == sql_value_view(*v),
{
    match v {
        SqlValue::Text(s) => SqlValue::Text(s.clone()),
        SqlValue::Int(i) => SqlValue::Int(*i),
        SqlValue::Bool(b) => SqlValue::Bool(*b),
        SqlValue::Null => SqlValue::Null,
        SqlValue::Number(t) => SqlValue::Number(t.clone()),
        SqlValue::Other => SqlValue::Other,
    }
}

/// The fields of an op that name a column of the table other than its key.
fn kept_fields(fields: &Vec<(String, SqlValue)>, cols: &Vec<&'static str>) -> (r: Vec<(String, SqlValue)>)
    ensures
        field_views(r@) == kept(field_views(fields@), crate::registry::texts(cols@)),
{
    let ghost fv = field_views(fields@);
    let ghost ct = crate::registry::texts(cols@);
    let mut out: Vec<(String, SqlValue)> = Vec::new();
    let mut i: usize = 0;
    assert(fv.take(0) =~= Seq::<(Seq<char>, SqlValueView)>::empty());
    assert(field_views(out@) =~= Seq::<(Seq<char>, SqlValueView)>::empty());
    while i < fields.len()
        invariant
            i <= fields@.len() == fv.len(),
            fv == field_views(fields@),
            ct == crate::registry::texts(cols@),
            field_views(out@) == kept(fv.take(i as int), ct),
        decreases fields.len() - i,
    {
        let ghost pre = out@;
        let name = &fields[i].0;
        assert(fv.take(i + 1).drop_last() =~= fv.take(i as int));
        assert(fv.take(i + 1).last() == (name@, sql_value_view(fields@[i as int].1)));
        if has_column(cols, name.as_str()) && !str_eq(name.as_str(), "id") {
            out.push((name.clone(), copy_value(&fields[i].1)));
            assert(field_views(out@) =~= field_views(pre).push((name@, sql_value_view(fields@[i as int].1))));
        }
        i = i + 1;
    }
    assert(fv.take(fields.len() as int) =~= fv);
    out
}

/// `, a, b, …` for the fields' names.
pub open spec fn col_list(k: Seq<(Seq<char>, SqlValueView)>) -> Seq<char>
    decreases k.len(),
{
    if k.len() == 0 {
        Seq::empty()
    } else {
        col_list(k.drop_last()) + ", "@ + k.last().0
    }
}

/// `, ?` once per parameter.
pub open spec fn marks(n: nat) -> Seq<char>
    decreases n,
{
    if n == 0 {
        Seq::empty()
    } else {
        marks((n - 1) as nat) + ", ?"@
    }
}

pub open spec fn insert_sql(table: Seq<char>, k: Seq<(Seq<char>, SqlValueView)>) -> Seq<char> {
    "INSERT OR REPLACE INTO "@ + table + " (id"@ + col_list(k) + ") VALUES (?"@ + marks(k.len()) + ")"@
}

/// The values of fields, in order.
pub open spec fn values_of(k: Seq<(Seq<char>, SqlValueView)>) -> Seq<SqlValueView> {
    k.map_values(|p: (Seq<char>, SqlValueView)| p.1)
}

/// The parameters of a statement as the values they write.
pub open spec fn arg_values(args: Seq<SqlArg>) -> Seq<SqlValueView> {
    args.map_values(|a: SqlArg| arg_value(a))
}

/// `stmts` and `err` are the Insert of `row_id` in `table` from the fields
/// `k`: the row written (or replaced) with the key and every field, unless
/// a value is one the table does not take, which is refused with nothing
/// written.
pub open spec fn inserts_as(
    stmts: Seq<SqlStatement>,
    err: Option<SyncError>,
    table: Seq<char>,
    row_id: Seq<char>,
    k: Seq<(Seq<char>, SqlValueView)>,
) -> bool {
    if writable_prefix(k, true) == k.len() {
        &&& err is None
        &&& stmts.len() == 1
        &&& stmts[0].sql@ == insert_sql(table, k)
        &&& arg_values(stmts[0].args@) == seq![SqlValueView::Text(row_id)] + values_of(k)
    } else {
        &&& stmts.len() == 0
        &&& err matches Some(SyncError::Journal(m))
        &&& m@ == "unsupported field value type for "@ + table + "."@ + k[writable_prefix(k, true)].0
    }
}

fn insert_statement(table: &str, row_id: &str, k: &Vec<(String, SqlValue)>) -> (r: SqlStatement)
    requires
        writable_prefix(field_views(k@), true) == k@.len(),
    ensures
        r.sql@ == insert_sql(table@, field_views(k@)),
        arg_values(r.args@) == seq![SqlValueView::Text(row_id@)] + values_of(field_views(k@)),
{
    let ghost kv = field_views(k@);
    proof {
        lemma_writable_prefix(kv, true);
    }
    let mut names = String::new();
    let mut qs = String::new();
    let mut args: Vec<SqlArg> = Vec::new();
    args.push(SqlArg::Text(owned(row_id)));
    let mut i: usize = 0;
    assert(kv.take(0) =~= Seq::<(Seq<char>, SqlValueView)>::empty());
    assert(arg_values(args@) =~= seq![SqlValueView::Text(row_id@)] + values_of(kv.take(0)));
    while i < k.len()
        invariant
            i <= k@.len() == kv.len(),
            kv == field_views(k@),
            forall|j: int| 0 <= j < kv.len() ==> held(#[trigger] kv[j].1, true),
            names@ == col_list(kv.take(i as int)),
            qs@ == marks(i as nat),
            arg_values(args@) == seq![SqlValueView::Text(row_id@)] + values_of(kv.take(i as int)),
        decreases k.len() - i,
    {
        let ghost pre = args@;
        assert(kv.take(i + 1).drop_last() =~= kv.take(i as int));
        assert(kv[i as int] == (k@[i as int].0@, sql_value_view(k@[i as int].1)));
        assert(held(kv[i as int].1, true));
        let n1 = cat(names.as_str(), ", ");
        names = cat(n1.as_str(), k[i].0.as_str());
        qs = cat(qs.as_str(), ", ?");
        args.push(value_arg(&k[i].1));
        proof {
            assert(arg_values(args@) =~= arg_values(pre).push(kv[i as int].1));
            assert(values_of(kv.take(i + 1)) =~= values_of(kv.take(i as int)).push(kv[i as int].1));
        }
        i = i + 1;
    }
    assert(kv.take(k.len() as int) =~= kv);
    let a = cat("INSERT OR REPLACE INTO ", table);
    let b = cat(a.as_str(), " (id");
    let c = cat(b.as_str(), names.as_str());
    let d = cat(c.as_str(), ") VALUES (?");
    let e = cat(d.as_str(), qs.as_str());
    SqlStatement { sql: cat(e.as_str(), ")"), args }
}

fn schema_insert(table: &str, row_id: &str, k: &Vec<(String, SqlValue)>) -> (r: (Vec<SqlStatement>, Option<SyncError>))
    ensures
        inserts_as(r.0@, r.1, table@, row_id@, field_views(k@)),
{
    let p = first_unheld(k, true);
    proof {
        lemma_writable_prefix(field_views(k@), true);
    }
    if p < k.len() {
        assert(field_views(k@)[p as int].0 == k@[p as int].0@);
        let a = cat("unsupported field value type for ", table);
        let b = cat(a.as_str(), ".");
        (Vec::new(), Some(SyncError::Journal(cat(b.as_str(), k[p].0.as_str()))))
    } else {
        let mut v: Vec<SqlStatement> = Vec::new();
        v.push(insert_statement(table, row_id, k));
        (v, None)
    }
}

/// `stmts` and `err` are the one statement `sql` on the row `row_id`.
pub open spec fn deletes_as(stmts: Seq<SqlStatement>, err: Option<SyncError>, sql: Seq<char>, row_id: Seq<char>) -> bool {
    &&& err is None
    &&& stmts.len() == 1
    &&& stmts[0].sql@ == sql
    &&& arg_values(stmts[0].args@) == seq![SqlValueView::Text(row_id)]
}

fn keyed_statement(sql: String, row_id: &str) -> (r: (Vec<SqlStatement>, Option<SyncError>))
    ensures
        deletes_as(r.0@, r.1, sql@, row_id@),
{
    let mut args: Vec<SqlArg> = Vec::new();
    args.push(SqlArg::Text(owned(row_id)));
    assert(arg_values(args@) =~= seq![SqlValueView::Text(row_id@)]);
    let mut v: Vec<SqlStatement> = Vec::new();
    v.push(SqlStatement { sql, args });
    (v, None)
}

pub open spec fn page_content_upsert_sql() -> Seq<char> {
    "INSERT INTO page_content (page_id, yjs_state, yjs_version) VALUES (?, ?, 0) ON CONFLICT(page_id) DO UPDATE SET yjs_state = excluded.yjs_state, yjs_version = page_content.yjs_version + 1"@
}

/// `s` upserts the editor state of page `row_id` from the Base64 text of
/// the `yjs_state` field: the bytes that text encodes, or none when the
/// field is missing, not a string or not Base64.
pub open spec fn content_upsert_as(s: SqlStatement, row_id: Seq<char>, fields: Seq<(String, SqlValue)>) -> bool {
    &&& s.sql@ == page_content_upsert_sql()
    &&& s.args@.len() == 2
    &&& arg_view(s.args@[0]) == (true, Some(row_id), None::<i64>)
    &&& s.args@[1] matches SqlArg::Blob(b) && match text_of(fields, "yjs_state"@) {
        Some(t) => if exists|x: Seq<u8>| base64_std(x) == t {
            base64_std(b@) == t
        } else {
            b@.len() == 0
        },
        None => b@.len() == 0,
    }
}

/// The statement of a page_content Insert or Update: the editor state
/// decoded from the Base64 text of its `yjs_state` field (empty when the
/// field is missing, not a string or not Base64), upserted with its
/// version bumped.
pub fn page_content_upsert(row_id: &str, fields: &Vec<(String, SqlValue)>) -> (r: SqlStatement)
    ensures
        content_upsert_as(r, row_id@, fields@),
{
    let state: Vec<u8> = match text_field(fields, "yjs_state") {
        Some(t) => match b64_decode(t.as_str()) {
            Ok(b) => b,
            Err(_) => Vec::new(),
        },
        None => Vec::new(),
    };
    let mut args: Vec<SqlArg> = Vec::new();
    args.push(SqlArg::Text(owned(row_id)));
    args.push(SqlArg::Blob(state));
    SqlStatement {
        sql: owned("INSERT INTO page_content (page_id, yjs_state, yjs_version) VALUES (?, ?, 0) ON CONFLICT(page_id) DO UPDATE SET yjs_state = excluded.yjs_state, yjs_version = page_content.yjs_version + 1"),
        args,
    }
}

/// `p|t` split at its first bar: the page id and the tag id of a tag
/// assignment.
fn pivot_parts(row_id: &str) -> (r: Option<(String, String)>)
    ensures
        match r {
            Some((p, t)) => row_id@ == p@ + seq!['|'] + t@ && !p@.contains('|'),
            None => !row_id@.contains('|'),
        },
{
    let v = chars_of(row_id);
    let mut i: usize = 0;
    while i < v.len()
        invariant
            i <= v@.len(),
            v@ == row_id@,
            forall|j: int| 0 <= j < i ==> v@[j] != '|',
        decreases v.len() - i,
    {
        if v[i] == '|' {
            let p = string_of(&sub_chars(&v, 0, i));
            let t = string_of(&sub_chars(&v, i + 1, v.len()));
            assert(v@ =~= p@ + seq!['|'] + t@);
            assert(!p@.contains('|')) by {
                if p@.contains('|') {
                    let j = choose|j: int| 0 <= j < p@.len() && p@[j] == '|';
                    assert(v@[j] == '|');
                }
            }
            return Some((p, t));
        }
        i = i + 1;
    }
    assert(!row_id@.contains('|')) by {
        if row_id@.contains('|') {
            let j = choose|j: int| 0 <= j < row_id@.len() && row_id@[j] == '|';
            assert(v@[j] == '|');
        }
    }
    None
}

/// `stmts` and `err` write (`insert`) or remove the tag assignment `row_id`,
/// the page id and the tag id joined by a bar.
pub open spec fn pivot_as(stmts: Seq<SqlStatement>, err: Option<SyncError>, row_id: Seq<char>, insert: bool) -> bool {
    if row_id.contains('|') {
        &&& err is None
        &&& stmts.len() == 1
        &&& stmts[0].sql@ == if insert {
            "INSERT OR IGNORE INTO page_tags (page_id, tag_id) VALUES (?, ?)"@
        } else {
            "DELETE FROM page_tags WHERE page_id = ? AND tag_id = ?"@
        }
        &&& stmts[0].args@.len() == 2
        &&& stmts[0].args@[0] matches SqlArg::Text(p)
        &&& stmts[0].args@[1] matches SqlArg::Text(t)
        &&& row_id == p@ + seq!['|'] + t@
        &&& !p@.contains('|')
    } else {
        &&& stmts.len() == 0
        &&& err matches Some(SyncError::Journal(m))
        &&& m@ == "apply_op: malformed page_tags row id '"@ + row_id + "'"@
    }
}

fn pivot_statement(row_id: &str, insert: bool) -> (r: (Vec<SqlStatement>, Option<SyncError>))
    ensures
        pivot_as(r.0@, r.1, row_id@, insert),
{
    match pivot_parts(row_id) {
        Some((p, t)) => {
            let sql = if insert {
                owned("INSERT OR IGNORE INTO page_tags (page_id, tag_id) VALUES (?, ?)")
            } else {
                owned("DELETE FROM page_tags WHERE page_id = ? AND tag_id = ?")
            };
            assert(row_id@[p@.len() as int] == '|');
            let mut args: Vec<SqlArg> = Vec::new();
            args.push(SqlArg::Text(p));
            args.push(SqlArg::Text(t));
            let mut v: Vec<SqlStatement> = Vec::new();
            v.push(SqlStatement { sql, args });
            (v, None)
        },
        None => {
            let a = cat("apply_op: malformed page_tags row id '", row_id);
            (Vec::new(), Some(SyncError::Journal(cat(a.as_str(), "'"))))
        },
    }
}

/// The statements that apply a remote op to the local database, and the
/// error that stops it, if any. Pages and page contents have paths of
/// their own; a tag assignment (`page_tags`, keyed by page and tag id) is
/// written or removed; every other tracked table is written through its
/// schema, from the op's fields that name its columns; an untracked table
/// is refused.
pub fn apply_plan(table: &str, kind: OpKind, row_id: &str, fields: &Vec<(String, SqlValue)>, now: &str) -> (r: (
    Vec<SqlStatement>,
    Option<SyncError>,
))
    ensures
        table@ == "pages"@ ==> match kind {
            OpKind::Insert => {
                &&& r.1 is None
                &&& r.0@.len() == 1
                &&& r.0@[0].sql@ == page_insert_sql()
                &&& r.0@[0].args@.map_values(|a: SqlArg| arg_view(a)) == page_insert_args(row_id@, fields@, now@)
            },
            OpKind::Update => updates_as(r.0@, r.1, "pages"@, row_id@, field_views(fields@), false),
            OpKind::Delete => deletes_as(r.0@, r.1, "DELETE FROM pages WHERE id = ?"@, row_id@),
        },
        table@ == "page_content"@ ==> match kind {
            OpKind::Delete => deletes_as(r.0@, r.1, "DELETE FROM page_content WHERE page_id = ?"@, row_id@),
            _ => r.1 is None && r.0@.len() == 1 && content_upsert_as(r.0@[0], row_id@, fields@),
        },
        table@ == "page_tags"@ ==> match kind {
            OpKind::Update => r.0@.len() == 0 && r.1 is None,
            OpKind::Insert => pivot_as(r.0@, r.1, row_id@, true),
            OpKind::Delete => pivot_as(r.0@, r.1, row_id@, false),
        },
        table@ != "pages"@ ==> match crate::registry::table_columns(table@) {
            Some(cols) => match kind {
                OpKind::Insert => inserts_as(r.0@, r.1, table@, row_id@, kept(field_views(fields@), cols)),
                OpKind::Update => updates_as(r.0@, r.1, table@, row_id@, kept(field_views(fields@), cols), true),
                OpKind::Delete => deletes_as(r.0@, r.1, "DELETE FROM "@ + table@ + " WHERE id = ?"@, row_id@),
            },
            None => table@ != "page_content"@ && table@ != "page_tags"@ ==> r.0@.len() == 0 && (r.1 matches Some(
                SyncError::Journal(m),
            ) && m@ == "apply_op: unknown table '"@ + table@ + "' in Phase 2"@),
        },
{
    proof {
        reveal_strlit("pages");
        reveal_strlit("page_content");
        reveal_strlit("page_tags");
        assert("pages"@.len() != "page_content"@.len());
        assert("pages"@.len() != "page_tags"@.len());
        assert("page_tags"@.len() != "page_content"@.len());
    }
    if str_eq(table, "pages") {
        match kind {
            OpKind::Insert => {
                let mut v: Vec<SqlStatement> = Vec::new();
                v.push(page_insert_statement(row_id, fields, now));
                (v, None)
            },
            OpKind::Update => page_update_statements(row_id, fields),
            OpKind::Delete => keyed_statement(owned("DELETE FROM pages WHERE id = ?"), row_id),
        }
    } else if str_eq(table, "page_content") {
        proof {
            crate::registry::lemma_untracked_special(table@);
        }
        match kind {
            OpKind::Delete => keyed_statement(owned("DELETE FROM page_content WHERE page_id = ?"), row_id),
            _ => {
                let mut v: Vec<SqlStatement> = Vec::new();
                v.push(page_content_upsert(row_id, fields));
                (v, None)
            },
        }
    } else if str_eq(table, "page_tags") {
        proof {
            crate::registry::lemma_untracked_special(table@);
        }
        match kind {
            OpKind::Update => (Vec::new(), None),
            OpKind::Insert => pivot_statement(row_id, true),
            OpKind::Delete => pivot_statement(row_id, false),
        }
    } else {
        match crate::registry::schema_by_name(table) {
            Some(s) => match kind {
                OpKind::Insert => schema_insert(table, row_id, &kept_fields(fields, &s.columns)),
                OpKind::Update => update_statements(table, row_id, &kept_fields(fields, &s.columns), true),
                OpKind::Delete => {
                    let a = cat("DELETE FROM ", table);
                    keyed_statement(cat(a.as_str(), " WHERE id = ?"), row_id)
                },
            },
            None => {
                let a = cat("apply_op: unknown table '", table);
                (Vec::new(), Some(SyncError::Journal(cat(a.as_str(), "' in Phase 2"))))
            },
        }
    }
}


} // verus!
