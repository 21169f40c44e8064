//! Decoded messages as trees, and the rows in which they are shown.

use crate::bytes::to_vec;
use crate::protocol::format::{append_hex, hex_pair};
use crate::text::{append_integer, integer_text};
use vstd::prelude::*;

verus! {

/// A decoded value.
#[allow(inconsistent_fields)]
#[derive(Debug, PartialEq)]
pub enum FieldValue {
    Int(i64),
    /// a number with a fraction, in digits
    Decimal(String),
    Text(String),
    Bytes(Vec<u8>),
    WithUnit { value: Box<FieldValue>, unit: String },
    /// a measuring point
    Point(i64),
    Invalid { reason: String },
    /// some bits of a byte, with what they mean if that is known
    Bits {
        byte: Vec<u8>,
        start: i64,
        end: i64,
        value: i64,
        meaning: Option<Box<FieldValue>>,
    },
    List(Vec<FieldValue>),
    /// named values
    Entries(Vec<(String, FieldValue)>),
    Node { name: String, raw: Vec<u8>, value: Box<FieldValue> },
    /// a value that is not shown
    Skip,
}

/// A row of a shown message, indented by its depth.
#[derive(Debug, Clone, PartialEq)]
pub struct FlatNode {
    pub depth: usize,
    pub name: String,
    pub raw: Vec<u8>,
    pub value: String,
}

/// A row as a mathematical value.
pub ghost struct RowModel {
    pub depth: usize,
    pub name: Seq<char>,
    pub raw: Seq<u8>,
    pub value: Seq<char>,
}

impl View for FlatNode {
    type V = RowModel;

    open spec fn view(&self) -> RowModel {
        RowModel { depth: self.depth, name: self.name@, raw: self.raw@, value: self.value@ }
    }
}

pub open spec fn rows(nodes: Seq<FlatNode>) -> Seq<RowModel> {
    nodes.map_values(|n: FlatNode| n@)
}

/// Bytes in hexadecimal digits with spaces between them.
pub open spec fn hex_text(bytes: Seq<u8>) -> Seq<char>
    decreases bytes.len(),
{
    if bytes.len() == 0 {
        seq![]
    } else if bytes.len() == 1 {
        hex_pair(bytes[0])
    } else {
        hex_text(bytes.drop_last()) + " "@ + hex_pair(bytes.last())
    }
}

/// Writes bytes in hexadecimal digits with spaces between them.
pub fn to_hex(bytes: &[u8]) -> (r: String)
    ensures
        r@ == hex_text(bytes@),
{
    let mut out = String::new();
    for i in 0..bytes.len()
        invariant
            out@ == hex_text(bytes@.take(i as int)),
    {
        let ghost before = out@;
        if i > 0 {
            out.append(" ");
        }
        append_hex(&mut out, bytes[i]);
        proof {
            let now = bytes@.take(i + 1);
            assert(now.drop_last() =~= bytes@.take(i as int));
            assert(now.last() == bytes@[i as int]);
            if i == 0 {
                assert(out@ =~= hex_pair(bytes@[0]));
            } else {
                assert(out@ =~= before + " "@ + hex_pair(bytes@[i as int]));
            }
        }
    }
    assert(bytes@.take(bytes@.len() as int) =~= bytes@);
    out
}

/// The text of a single value; nothing for values that have parts.
pub open spec fn scalar_words(value: FieldValue) -> Seq<char>
    decreases value,
{
    match value {
        FieldValue::Int(i) => integer_text(i as int),
        FieldValue::Decimal(s) => s@,
        FieldValue::Text(s) => s@,
        FieldValue::Bytes(b) => hex_text(b@),
        FieldValue::WithUnit { value, unit } => scalar_words(*value) + " "@ + unit@,
        FieldValue::Point(i) => integer_text(i as int),
        FieldValue::Invalid { reason } => "无效: "@ + reason@,
        FieldValue::Bits { start, end, value, meaning, .. } => match meaning {
            Some(words) => scalar_words(*words),
            None => "D"@ + integer_text(start as int) + "~D"@ + integer_text(end as int) + "="@
                + integer_text(value as int),
        },
        _ => seq![],
    }
}

fn append_scalar(out: &mut String, value: &FieldValue)
    ensures
        final(out)@ == old(out)@ + scalar_words(*value),
    decreases value,
{
    let ghost before = out@;
    match value {
        FieldValue::Int(i) => append_integer(out, *i as i128),
        FieldValue::Decimal(s) => out.append(s.as_str()),
        FieldValue::Text(s) => out.append(s.as_str()),
        FieldValue::Bytes(b) => {
            let text = to_hex(b.as_slice());
            out.append(text.as_str());
        },
        FieldValue::WithUnit { value, unit } => {
            append_scalar(out, &**value);
            out.append(" ");
            out.append(unit.as_str());
        },
        FieldValue::Point(i) => append_integer(out, *i as i128),
        FieldValue::Invalid { reason } => {
            out.append("无效: ");
            out.append(reason.as_str());
        },
        FieldValue::Bits { start, end, value, meaning, .. } => match meaning {
            Some(words) => append_scalar(out, &**words),
            None => {
                out.append("D");
                append_integer(out, *start as i128);
                out.append("~D");
                append_integer(out, *end as i128);
                out.append("=");
                append_integer(out, *value as i128);
            },
        },
        _ => {},
    }
    assert(out@ =~= before + scalar_words(*value));
}

/// The text of a single value.
pub fn scalar_text(value: &FieldValue) -> (r: String)
    ensures
        r@ == scalar_words(*value),
{
    let mut out = String::new();
    append_scalar(&mut out, value);
    assert(out@ =~= scalar_words(*value));
    out
}

/// One step further in.
pub open spec fn deeper(depth: usize) -> usize {
    if depth == usize::MAX {
        depth
    } else {
        (depth + 1) as usize
    }
}

/// A value with parts.
pub open spec fn has_parts(value: FieldValue) -> bool {
    value is List || value is Entries || value is Node
}

/// The bytes that are shown for a node. Bits keep their byte themselves.
pub open spec fn node_bytes(raw: Seq<u8>, value: FieldValue) -> Seq<u8> {
    match value {
        FieldValue::Bits { byte, .. } => if raw.len() == 0 {
            byte@
        } else {
            raw
        },
        _ => raw,
    }
}

/// The rows of a value. A list shows its items. Named values are shown one by one; a single
/// one is only a wrapping and is shown as its value. A node has a row of its own, and its
/// parts are shown one step further in.
pub open spec fn flat_rows(value: FieldValue, depth: usize) -> Seq<RowModel>
    decreases value, 0nat,
{
    match value {
        FieldValue::List(items) => list_rows(items, items@.len(), depth),
        FieldValue::Entries(pairs) => if pairs@.len() == 1 {
            flat_rows(pairs@[0].1, depth)
        } else {
            entry_rows(pairs, pairs@.len(), depth)
        },
        FieldValue::Node { name, raw, value } => {
            let row = RowModel {
                depth,
                name: name@,
                raw: node_bytes(raw@, *value),
                value: if has_parts(*value) {
                    seq![]
                } else {
                    scalar_words(*value)
                },
            };
            if has_parts(*value) {
                seq![row] + flat_rows(*value, deeper(depth))
            } else {
                seq![row]
            }
        },
        FieldValue::Skip => seq![],
        _ => seq![
            RowModel { depth, name: seq![], raw: seq![], value: scalar_words(value) },
        ],
    }
}

/// The rows of the first `n` items of a list.
pub open spec fn list_rows(items: Vec<FieldValue>, n: nat, depth: usize) -> Seq<RowModel>
    decreases items, n,
{
    if n == 0 || n > items@.len() {
        seq![]
    } else {
        list_rows(items, (n - 1) as nat, depth) + flat_rows(items@[n - 1], depth)
    }
}

/// The rows of the first `n` named values. A value without parts is shown under its name.
pub open spec fn entry_rows(pairs: Vec<(String, FieldValue)>, n: nat, depth: usize) -> Seq<RowModel>
    decreases pairs, n,
{
    if n == 0 || n > pairs@.len() {
        seq![]
    } else {
        let (key, value) = pairs@[n - 1];
        let before = entry_rows(pairs, (n - 1) as nat, depth);
        if has_parts(value) {
            before + flat_rows(value, depth)
        } else if value is Skip {
            before
        } else {
            before + seq![
                RowModel { depth, name: key@, raw: seq![], value: scalar_words(value) },
            ]
        }
    }
}

/// The rows of a whole message: of a node with a list, the items of the list.
pub open spec fn message_rows(tree: FieldValue) -> Seq<RowModel> {
    match tree {
        FieldValue::Node { value, .. } => if *value is List {
            flat_rows(*value, 0)
        } else {
            flat_rows(tree, 0)
        },
        _ => flat_rows(tree, 0),
    }
}

fn push_row(out: &mut Vec<FlatNode>, depth: usize, name: String, raw: Vec<u8>, value: String)
    ensures
        rows(final(out)@) == rows(old(out)@) + seq![
            RowModel { depth, name: name@, raw: raw@, value: value@ },
        ],
{
    let ghost before = rows(out@);
    out.push(FlatNode { depth, name, raw, value });
    assert(rows(out@) =~= before + seq![
        RowModel { depth, name: name@, raw: raw@, value: value@ },
    ]);
}

fn is_parted(value: &FieldValue) -> (r: bool)
    ensures
        r == has_parts(*value),
{
    match value {
        FieldValue::List(_) => true,
        FieldValue::Entries(_) => true,
        FieldValue::Node { .. } => true,
        _ => false,
    }
}

fn bytes_of_node(raw: &Vec<u8>, value: &FieldValue) -> (r: Vec<u8>)
    ensures
        r@ == node_bytes(raw@, *value),
{
    match value {
        FieldValue::Bits { byte, .. } => {
            if raw.len() == 0 {
                to_vec(byte.as_slice())
            } else {
                to_vec(raw.as_slice())
            }
        },
        _ => to_vec(raw.as_slice()),
    }
}

fn flatten_list(items: &Vec<FieldValue>, depth: usize, out: &mut Vec<FlatNode>)
    ensures
        rows(final(out)@) == rows(old(out)@) + list_rows(*items, items@.len(), depth),
    decreases items, 0nat,
{
    let ghost before = rows(out@);
    assert(rows(out@) =~= before + list_rows(*items, 0, depth));
    for i in 0..items.len()
        invariant
            rows(out@) == before + list_rows(*items, i as nat, depth),
    {
        assert(decreases_to!(items => items@[i as int]));
        flatten_into(&items[i], depth, out);
        assert(rows(out@) =~= before + list_rows(*items, (i + 1) as nat, depth));
    }
}

fn flatten_entries(pairs: &Vec<(String, FieldValue)>, depth: usize, out: &mut Vec<FlatNode>)
    ensures
        rows(final(out)@) == rows(old(out)@) + entry_rows(*pairs, pairs@.len(), depth),
    decreases pairs, 0nat,
{
    let ghost before = rows(out@);
    assert(rows(out@) =~= before + entry_rows(*pairs, 0, depth));
    for i in 0..pairs.len()
        invariant
            rows(out@) == before + entry_rows(*pairs, i as nat, depth),
    {
        let pair: &(String, FieldValue) = &pairs[i];
        if is_parted(&pair.1) {
            assert(decreases_to!(pairs => pairs@[i as int]));
            flatten_into(&pair.1, depth, out);
        } else if let FieldValue::Skip = pair.1 {
        } else {
            push_row(out, depth, pair.0.clone(), Vec::new(), scalar_text(&pair.1));
            assert(Seq::<u8>::empty() =~= seq![]);
        }
        assert(rows(out@) =~= before + entry_rows(*pairs, (i + 1) as nat, depth));
    }
}

/// Appends the rows of a value.
fn flatten_into(value: &FieldValue, depth: usize, out: &mut Vec<FlatNode>)
    ensures
        rows(final(out)@) == rows(old(out)@) + flat_rows(*value, depth),
    decreases value, 0nat,
{
    let ghost before = rows(out@);
    match value {
        FieldValue::List(items) => flatten_list(items, depth, out),
        FieldValue::Entries(pairs) => {
            if pairs.len() == 1 {
                assert(decreases_to!(pairs => pairs@[0]));
                flatten_into(&pairs[0].1, depth, out);
            } else {
                flatten_entries(pairs, depth, out);
            }
        },
        FieldValue::Node { name, raw, value } => {
            let parted: bool = is_parted(&**value);
            let text = if parted {
                String::new()
            } else {
                scalar_text(&**value)
            };
            push_row(out, depth, name.clone(), bytes_of_node(raw, &**value), text);
            if parted {
                let next: usize = if depth == usize::MAX {
                    depth
                } else {
                    depth + 1
                };
                flatten_into(&**value, next, out);
            }
        },
        FieldValue::Skip => {},
        _ => push_row(out, depth, String::new(), Vec::new(), scalar_text(value)),
    }
    assert(rows(out@) =~= before + flat_rows(*value, depth));
}

/// The rows in which a decoded message is shown.
pub fn flatten_value_tree(tree: &FieldValue) -> (r: Vec<FlatNode>)
    ensures
        rows(r@) == message_rows(*tree),
{
    let mut out: Vec<FlatNode> = Vec::new();
    assert(rows(out@) =~= Seq::<RowModel>::empty());
    match tree {
        FieldValue::Node { value, .. } => {
            if let FieldValue::List(_) = &**value {
                flatten_into(&**value, 0, &mut out);
            } else {
                flatten_into(tree, 0, &mut out);
            }
        },
        _ => flatten_into(tree, 0, &mut out),
    }
    assert(rows(out@) =~= message_rows(*tree));
    out
}

} // verus!
