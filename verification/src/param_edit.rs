//! Deciding how one `key = value` update applies to the config document.
//!
//! The key is split (`param_key`), its table and field are looked up in the
//! document (`TableLookup`), and the plan decides which edit, or which error,
//! the update yields. The caller writes the (floating point) value where the
//! plan says.

use vstd::prelude::*;
use vstd::string::*;
use crate::param_key::{
    key_is_sliceable, key_parts, key_sliceable, lemma_decimal_index_round_trip,
    lemma_scalar_key_round_trip, parse_key,
};
use crate::text::decimal_text;

verus! {

/// What the document holds under a key's table and field.
pub struct TableLookup {
    /// The table exists.
    pub found: bool,
    /// The table is a table or an inline table (fields can be assigned).
    pub table_like: bool,
    /// The field is an array, of this many elements.
    pub array_len: Option<usize>,
}

/// The shape of `doc` under `table` and `field`: whether the document has the
/// item `table`, whether that item is table-like, and the length of
/// `table.field` where that is an array.
pub uninterp spec fn document_shape(
    doc: toml_edit::DocumentMut,
    table: Seq<char>,
    field: Seq<char>,
) -> (bool, bool, Option<usize>);

/// Looks a key's table and field up in the document.
///
/// Trusted: calls `Table::get` on the document for `table`, then
/// `Item::is_table_like`, `Item::get` for `field` and `Item::as_array` /
/// `Array::len` on what it finds. The answer is named as a function of the
/// document and the two names.
#[verifier::external_body]
pub(crate) fn lookup_table(doc: &toml_edit::DocumentMut, table: &str, field: &str) -> (r:
    TableLookup)
    ensures
        (r.found, r.table_like, r.array_len) == document_shape(*doc, table@, field@),
{
    let Some(item) = doc.get(table) else {
        return TableLookup { found: false, table_like: false, array_len: None };
    };
    let array_len = match item.get(field) {
        Some(v) => match v.as_array() {
            Some(a) => Some(a.len()),
            None => None,
        },
        None => None,
    };
    TableLookup { found: true, table_like: item.is_table_like(), array_len }
}

/// The lookup that `document_shape` names.
pub open spec fn shape_lookup(doc: toml_edit::DocumentMut, table: Seq<char>, field: Seq<char>) -> TableLookup {
    let s = document_shape(doc, table, field);
    TableLookup { found: s.0, table_like: s.1, array_len: s.2 }
}

/// The edit to perform on the document.
#[derive(PartialEq, Eq, Structural, Debug, Clone, Copy)]
pub enum ParamEdit {
    /// Assign the value to `table.field`.
    SetScalar,
    /// Replace element `i` of the array `table.field`.
    ReplaceElement(usize),
}

/// Why an update is refused.
#[derive(Debug)]
pub enum ParamError {
    /// The key names a table that the document does not have.
    TableNotFound(String),
    /// The key has an index but the field is not an array.
    NotAnArray(String),
    /// The value of a single update is not a number.
    NotANumber,
    /// The value given for this key in a batch is not a number.
    KeyValueNotANumber(String),
    /// The key cannot be split (a `[` with nothing after it, or a last
    /// character that is not ASCII after a `[`).
    InvalidKey(String),
    /// The key's index lies past the end of the array `field`.
    IndexOutOfRange(String),
    /// The key's table is not a table, so a field cannot be assigned in it.
    NotATable(String),
}

/// The text of an error, as reported to the user.
pub open spec fn error_text(e: ParamError) -> Seq<char> {
    match e {
        ParamError::TableNotFound(t) => "未找到 table: "@ + t@,
        ParamError::NotAnArray(f) => f@ + " 不是数组"@,
        ParamError::NotANumber => "value 需为数字"@,
        ParamError::KeyValueNotANumber(k) => k@ + " 的值需为数字"@,
        ParamError::InvalidKey(k) => "无效的参数 key: "@ + k@,
        ParamError::IndexOutOfRange(f) => f@ + " 的索引超出数组长度"@,
        ParamError::NotATable(t) => t@ + " 不是 table"@,
    }
}

impl ParamError {
    /// The message shown for this error.
    pub fn message(&self) -> (m: String)
        ensures
            m@ == error_text(*self),
    {
        match self {
            ParamError::TableNotFound(t) => {
                let mut m = String::from_str("未找到 table: ");
                m.append(t.as_str());
                m
            },
            ParamError::NotAnArray(f) => {
                let m = f.clone();
                m.concat(" 不是数组")
            },
            ParamError::NotANumber => String::from_str("value 需为数字"),
            ParamError::KeyValueNotANumber(k) => {
                let m = k.clone();
                m.concat(" 的值需为数字")
            },
            ParamError::InvalidKey(k) => {
                let mut m = String::from_str("无效的参数 key: ");
                m.append(k.as_str());
                m
            },
            ParamError::IndexOutOfRange(f) => {
                let m = f.clone();
                m.concat(" 的索引超出数组长度")
            },
            ParamError::NotATable(t) => {
                let m = t.clone();
                m.concat(" 不是 table")
            },
        }
    }
}

/// Outcome of a single update: a missing table is refused first, then an
/// index on a field that is not an array, then a value that is not a number,
/// then an index past the end of the array or a field assigned in a table
/// that is not table-like.
pub open spec fn single_edit(
    table: Seq<char>,
    field: Seq<char>,
    index: Option<usize>,
    value_is_number: bool,
    lookup: TableLookup,
) -> Result<ParamEdit, Seq<char>> {
    if !lookup.found {
        Err("未找到 table: "@ + table)
    } else {
        match index {
            Some(i) => match lookup.array_len {
                None => Err(field + " 不是数组"@),
                Some(n) => if !value_is_number {
                    Err("value 需为数字"@)
                } else if i >= n {
                    Err(field + " 的索引超出数组长度"@)
                } else {
                    Ok(ParamEdit::ReplaceElement(i))
                },
            },
            None => if !value_is_number {
                Err("value 需为数字"@)
            } else if !lookup.table_like {
                Err(table + " 不是 table"@)
            } else {
                Ok(ParamEdit::SetScalar)
            },
        }
    }
}

/// Plans one update of `table.field` (or of its element `index`).
pub fn plan_param_edit(
    table: &str,
    field: &str,
    index: Option<usize>,
    value_is_number: bool,
    lookup: &TableLookup,
) -> (r: Result<ParamEdit, ParamError>)
    ensures
        match r {
            Ok(e) => single_edit(table@, field@, index, value_is_number, *lookup) == Ok::<
                ParamEdit,
                Seq<char>,
            >(e),
            Err(e) => single_edit(table@, field@, index, value_is_number, *lookup) == Err::<
                ParamEdit,
                Seq<char>,
            >(error_text(e)),
        },
        r matches Ok(ParamEdit::ReplaceElement(i)) ==> lookup.array_len matches Some(n) && i < n,
        r matches Ok(ParamEdit::SetScalar) ==> lookup.table_like,
        r is Ok ==> value_is_number,
        !value_is_number && lookup.found && (index is Some ==> lookup.array_len is Some) ==> r
            matches Err(ParamError::NotANumber),
{
    if !lookup.found {
        return Err(ParamError::TableNotFound(table.to_owned()));
    }
    match index {
        Some(i) => match lookup.array_len {
            None => Err(ParamError::NotAnArray(field.to_owned())),
            Some(n) => if !value_is_number {
                Err(ParamError::NotANumber)
            } else if i >= n {
                Err(ParamError::IndexOutOfRange(field.to_owned()))
            } else {
                Ok(ParamEdit::ReplaceElement(i))
            },
        },
        None => if !value_is_number {
            Err(ParamError::NotANumber)
        } else if !lookup.table_like {
            Err(ParamError::NotATable(table.to_owned()))
        } else {
            Ok(ParamEdit::SetScalar)
        },
    }
}

/// Outcome of one entry of a batch update (whose value is a number): keys
/// whose table is missing, indexed keys whose field is not an array or whose
/// index lies past its end, and fields of a table that is not table-like
/// are skipped.
pub open spec fn batch_edit(index: Option<usize>, lookup: TableLookup) -> Option<ParamEdit> {
    if !lookup.found {
        None
    } else {
        match index {
            Some(i) => match lookup.array_len {
                Some(n) => if i < n {
                    Some(ParamEdit::ReplaceElement(i))
                } else {
                    None
                },
                None => None,
            },
            None => if lookup.table_like {
                Some(ParamEdit::SetScalar)
            } else {
                None
            },
        }
    }
}

/// Plans one entry of a batch update; `None` skips the entry.
pub fn plan_batch_edit(index: Option<usize>, lookup: &TableLookup) -> (r: Option<ParamEdit>)
    ensures
        r == batch_edit(index, *lookup),
        r matches Some(ParamEdit::ReplaceElement(i)) ==> lookup.array_len matches Some(n) && i < n,
        r matches Some(ParamEdit::SetScalar) ==> lookup.table_like,
{
    if !lookup.found {
        return None;
    }
    match index {
        Some(i) => match lookup.array_len {
            Some(n) => if i < n {
                Some(ParamEdit::ReplaceElement(i))
            } else {
                None
            },
            None => None,
        },
        None => if lookup.table_like {
            Some(ParamEdit::SetScalar)
        } else {
            None
        },
    }
}

/// Splits a parameter key; a key that cannot be split gives
/// `无效的参数 key: <key>`.
pub fn split_key(key: &str) -> (r: Result<(&str, &str, Option<usize>), ParamError>)
    ensures
        r is Ok <==> key_sliceable(key@),
        r matches Ok(p) ==> p.0@ == key_parts(key@).0 && p.1@ == key_parts(key@).1 && p.2
            == key_parts(key@).2,
        r matches Err(e) ==> error_text(e) == "无效的参数 key: "@ + key@,
{
    if key_is_sliceable(key) {
        Ok(parse_key(key))
    } else {
        Err(ParamError::InvalidKey(key.to_owned()))
    }
}

/// Plans a single update of `key` in `doc` (`value_is_number`: the given
/// value is a number): the key's table, field and the edit, or why the update
/// is refused.
pub fn plan_update<'k>(doc: &toml_edit::DocumentMut, key: &'k str, value_is_number: bool) -> (r:
    Result<(&'k str, &'k str, ParamEdit), ParamError>)
    ensures
        !key_sliceable(key@) ==> (r matches Err(e) && error_text(e) == "无效的参数 key: "@ + key@),
        key_sliceable(key@) ==> {
            let p = key_parts(key@);
            let outcome = single_edit(p.0, p.1, p.2, value_is_number, shape_lookup(*doc, p.0, p.1));
            match r {
                Ok(t) => t.0@ == p.0 && t.1@ == p.1 && outcome == Ok::<ParamEdit, Seq<char>>(t.2),
                Err(e) => outcome == Err::<ParamEdit, Seq<char>>(error_text(e)),
            }
        },
        r is Ok ==> value_is_number,
{
    let (table, field, index) = split_key(key)?;
    let lookup = lookup_table(doc, table, field);
    let edit = plan_param_edit(table, field, index, value_is_number, &lookup)?;
    Ok((table, field, edit))
}

/// Plans one entry of a batch update of `doc` (its value a number): `None`
/// skips the entry; a key that cannot be split is refused.
pub fn plan_batch_update<'k>(doc: &toml_edit::DocumentMut, key: &'k str) -> (r: Result<
    Option<(&'k str, &'k str, ParamEdit)>,
    ParamError,
>)
    ensures
        !key_sliceable(key@) ==> (r matches Err(e) && error_text(e) == "无效的参数 key: "@ + key@),
        key_sliceable(key@) ==> {
            let p = key_parts(key@);
            let outcome = batch_edit(p.2, shape_lookup(*doc, p.0, p.1));
            match r {
                Ok(Some(t)) => t.0@ == p.0 && t.1@ == p.1 && outcome == Some(t.2),
                Ok(None) => outcome is None,
                Err(_) => false,
            }
        },
{
    let (table, field, index) = split_key(key)?;
    let lookup = lookup_table(doc, table, field);
    match plan_batch_edit(index, &lookup) {
        Some(edit) => Ok(Some((table, field, edit))),
        None => Ok(None),
    }
}

/// Law: an update whose value is not a number is never planned as an edit:
/// where the table exists (and, for an element key, the field is an array),
/// it is refused with `value 需为数字`, for scalar and element keys alike.
pub proof fn lemma_non_number_refused(
    table: Seq<char>,
    field: Seq<char>,
    index: Option<usize>,
    lookup: TableLookup,
)
    requires
        lookup.found,
        index is Some ==> lookup.array_len is Some,
    ensures
        single_edit(table, field, index, false, lookup) == Err::<ParamEdit, Seq<char>>(
            "value 需为数字"@,
        ),
        forall|t: Seq<char>, f: Seq<char>, i: Option<usize>, l: TableLookup|
            !(#[trigger] single_edit(t, f, i, false, l) is Ok),
{
}

/// Law: an entry of a batch update is applied exactly as a single numeric
/// update of the same key would be, and skipped where that update would be
/// refused.
pub proof fn lemma_batch_entry_matches_single_update(
    table: Seq<char>,
    field: Seq<char>,
    index: Option<usize>,
    lookup: TableLookup,
)
    ensures
        match single_edit(table, field, index, true, lookup) {
            Ok(e) => batch_edit(index, lookup) == Some(e),
            Err(_) => batch_edit(index, lookup) is None,
        },
{
}

/// Law: a numeric update of the key `table.field` in a document whose table
/// is table-like assigns the field.
pub proof fn lemma_scalar_key_assigns(table: Seq<char>, field: Seq<char>, lookup: TableLookup)
    requires
        !table.contains('['),
        !field.contains('['),
        !field.contains('.'),
        lookup.found,
        lookup.table_like,
    ensures
        ({
            let parts = key_parts(table + seq!['.'] + field);
            single_edit(parts.0, parts.1, parts.2, true, lookup) == Ok::<ParamEdit, Seq<char>>(
                ParamEdit::SetScalar,
            )
        }),
{
    lemma_scalar_key_round_trip(table, field);
}

/// Law: a numeric update of the key `table.field[n]`, `n` in decimal, where
/// `table.field` is an array longer than `n`, replaces element `n` of it.
pub proof fn lemma_element_key_replaces(
    table: Seq<char>,
    field: Seq<char>,
    n: usize,
    lookup: TableLookup,
)
    requires
        !table.contains('['),
        !field.contains('['),
        !field.contains('.'),
        lookup.found,
        lookup.array_len matches Some(len) && n < len,
    ensures
        ({
            let parts = key_parts(table + seq!['.'] + field + seq!['['] + decimal_text(n as nat) + seq![']']);
            single_edit(parts.0, parts.1, parts.2, true, lookup) == Ok::<ParamEdit, Seq<char>>(
                ParamEdit::ReplaceElement(n),
            )
        }),
{
    lemma_decimal_index_round_trip(table, field, n);
}

} // verus!
