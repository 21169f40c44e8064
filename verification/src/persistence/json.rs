//! Stored texts in JSON as trees of plain values.

use crate::bytes::to_vec;
use crate::persistence::decimal::{format_natural, format_quantity, natural_digits, parse_quantity,
    quantity_digits, quantity_value};
use crate::quantity::Quantity;
use serde_json::Value;
use vstd::prelude::*;

verus! {

/// How deep a text may be nested.
pub const MAX_DEPTH: usize = 128;

/// The outermost level of a JSON text; the parts of a list or an object are texts again.
#[derive(Debug)]
pub enum JsonLevel {
    Null,
    Bool(bool),
    Number { natural: Option<u64>, digits: Vec<u8> },
    Text(String),
    List(Vec<String>),
    Object(Vec<(String, String)>),
}

/// The outermost level as a mathematical value.
pub ghost enum LevelModel {
    Null,
    Bool(bool),
    Number { natural: Option<u64>, digits: Seq<u8> },
    Text(Seq<char>),
    List(Seq<Seq<char>>),
    Object(Seq<(Seq<char>, Seq<char>)>),
}

impl View for JsonLevel {
    type V = LevelModel;

    open spec fn view(&self) -> LevelModel {
        match *self {
            JsonLevel::Null => LevelModel::Null,
            JsonLevel::Bool(b) => LevelModel::Bool(b),
            JsonLevel::Number { natural, digits } => LevelModel::Number {
                natural,
                digits: digits@,
            },
            JsonLevel::Text(s) => LevelModel::Text(s@),
            JsonLevel::List(parts) => LevelModel::List(parts@.map_values(|s: String| s@)),
            JsonLevel::Object(parts) => LevelModel::Object(
                parts@.map_values(|p: (String, String)| (p.0@, p.1@)),
            ),
        }
    }
}

/// What `serde_json` reads in a text: the outermost level, with the parts written out again;
/// nothing if the text is no JSON.
pub uninterp spec fn json_level(text: Seq<char>) -> Option<LevelModel>;

/// Calls `serde_json::from_str` for a `Value` and takes the value apart. A number is given by
/// `Number::as_u64` and by its digits as `Number` writes them; the parts of an array or object
/// are given as `Value` writes them. The result depends on the text alone.
#[verifier::external_body]
fn read_level(text: &str) -> (r: Option<JsonLevel>)
    ensures
        r matches Some(level) ==> json_level(text@) == Some(level@),
        r is None ==> json_level(text@) is None,
{
    Some(match serde_json::from_str::<Value>(text).ok()? {
        Value::Null => JsonLevel::Null,
        Value::Bool(b) => JsonLevel::Bool(b),
        Value::Number(n) => JsonLevel::Number {
            natural: n.as_u64(),
            digits: n.to_string().into_bytes(),
        },
        Value::String(s) => JsonLevel::Text(s),
        Value::Array(a) => JsonLevel::List(a.iter().map(|v| v.to_string()).collect()),
        Value::Object(o) => JsonLevel::Object(
            o.iter().map(|(k, v)| (k.clone(), v.to_string())).collect(),
        ),
    })
}

/// What `serde_json` writes for the outermost level and its parts; nothing if a part is no
/// JSON.
pub uninterp spec fn json_text(level: LevelModel) -> Option<Seq<char>>;

/// No name occurs twice.
pub open spec fn distinct_names(entries: Seq<(Seq<char>, Seq<char>)>) -> bool {
    forall|i: int, j: int|
        0 <= i < j < entries.len() ==> (#[trigger] entries[i]).0 != (#[trigger] entries[j]).0
}

/// A name that `serde_json` keeps for itself may begin like this one.
pub open spec fn is_reserved(name: Seq<char>) -> bool {
    name.len() > 0 && name[0] == '$'
}

/// The digits are those of a quantity below a million: no more than fifteen digits count.
pub open spec fn short_digits(digits: Seq<u8>) -> bool {
    exists|q: Quantity|
        -1_000_000_000_000_000 < q < 1_000_000_000_000_000 && digits == #[trigger] quantity_digits(
            q,
        )
}

/// The text of a fraction below a million.
pub open spec fn plain_fraction(text: Seq<char>) -> bool {
    exists|digits: Seq<u8>|
        short_digits(digits) && #[trigger] json_text(
            LevelModel::Number { natural: None, digits },
        ) == Some(text)
}

/// The digits are those of a natural number, or of a fraction below a million as the library or
/// `serde_json` writes it.
pub open spec fn plain_digits(natural: Option<u64>, digits: Seq<u8>) -> bool {
    match natural {
        Some(n) => digits == natural_digits(n as nat),
        None => short_digits(digits) || exists|text: Seq<char>|
            plain_fraction(text) && #[trigger] json_level(text) == Some(
                LevelModel::Number { natural: None, digits },
            ),
    }
}

/// The parts of a list; nothing else has any.
pub open spec fn items_in(level: Option<LevelModel>) -> Seq<Seq<char>> {
    match level {
        Some(LevelModel::List(parts)) => parts,
        _ => seq![],
    }
}

/// The entries of an object; nothing else has any.
pub open spec fn entries_in(level: Option<LevelModel>) -> Seq<(Seq<char>, Seq<char>)> {
    match level {
        Some(LevelModel::Object(parts)) => parts,
        _ => seq![],
    }
}

/// A text that is written as it was read, nested no deeper than `depth`, whose numbers are
/// natural or fractions below a million and whose names are not reserved.
pub open spec fn plain_text(text: Seq<char>, depth: nat) -> bool
    decreases depth,
{
    &&& depth > 0
    &&& json_level(text) matches Some(level) && match level {
        LevelModel::Number { natural: None, .. } => plain_fraction(text),
        LevelModel::Number { natural, digits } => plain_digits(natural, digits) && json_text(level)
            == Some(text),
        _ => json_text(level) == Some(text),
    }
    &&& forall|i: int|
        0 <= i < items_in(json_level(text)).len() ==> plain_text(
            #[trigger] items_in(json_level(text))[i],
            (depth - 1) as nat,
        )
    &&& distinct_names(entries_in(json_level(text)))
    &&& forall|i: int|
        0 <= i < entries_in(json_level(text)).len() ==> !is_reserved(
            (#[trigger] entries_in(json_level(text))[i]).0,
        ) && plain_text(entries_in(json_level(text))[i].1, (depth - 1) as nat)
}

/// An outermost level that is written without loss, with parts nested no deeper than `depth`.
pub open spec fn plain_level(level: LevelModel, depth: nat) -> bool {
    match level {
        LevelModel::Number { natural, digits } => plain_digits(natural, digits),
        LevelModel::List(parts) => forall|i: int|
            0 <= i < parts.len() ==> plain_text(#[trigger] parts[i], depth),
        LevelModel::Object(parts) => {
            &&& distinct_names(parts)
            &&& forall|i: int|
                0 <= i < parts.len() ==> !is_reserved((#[trigger] parts[i]).0) && plain_text(
                    parts[i].1,
                    depth,
                )
        },
        _ => true,
    }
}

/// What is read is what was written, but for the order of entries and the way in which a
/// fraction is written.
pub open spec fn same_level(read: LevelModel, level: LevelModel) -> bool {
    match level {
        LevelModel::Number { natural: None, digits } => read matches LevelModel::Number {
            natural: n,
            digits: d,
        } && n is None && quantity_value(d) == quantity_value(digits),
        LevelModel::Object(parts) => {
            &&& read matches LevelModel::Object(entries)
            &&& distinct_names(entries)
            &&& forall|entry: (Seq<char>, Seq<char>)| #[trigger]
                entries.contains(entry) <==> parts.contains(entry)
        },
        _ => read == level,
    }
}

/// A level that is written without loss, not nested too deep to be read.
pub open spec fn is_plain(level: LevelModel) -> bool {
    exists|depth: nat| depth < 120 && #[trigger] plain_level(level, depth)
}

/// A plain level is read back from its text, which is plain again.
pub open spec fn keeps(level: LevelModel, text: Seq<char>) -> bool {
    forall|depth: nat|
        depth < 120 && #[trigger] plain_level(level, depth) ==> plain_text(text, depth + 1) && (
        json_level(text) matches Some(read) && same_level(read, level))
}

/// Puts a `serde_json::Value` together, with the parts as `serde_json::from_str` reads them and
/// a number as `serde_json::from_slice` reads its digits, and writes it with
/// `Value::to_string`. The text depends on the level alone. A level whose parts were written
/// before, without reserved names and with no more than fifteen digits in a fraction, can be
/// written, and reading the text gives the level back: `serde_json` reads up to fifteen digits
/// exactly and writes the shortest digits that give the number back; a `Map` has each name
/// once and may order them. Nothing is said of longer fractions, which `serde_json` reads
/// without promising the last digit.
#[verifier::external_body]
fn write_level(level: &JsonLevel) -> (r: Option<String>)
    ensures
        r matches Some(text) ==> json_text(level@) == Some(text@),
        r is None ==> json_text(level@) is None,
        r matches Some(text) ==> keeps(level@, text@),
        r is None ==> !is_plain(level@),
{
    Some(match level {
        JsonLevel::Null => Value::Null,
        JsonLevel::Bool(b) => Value::Bool(*b),
        JsonLevel::Number { digits, .. } => Value::Number(serde_json::from_slice(digits).ok()?),
        JsonLevel::Text(s) => Value::String(s.clone()),
        JsonLevel::List(parts) => Value::Array(
            parts.iter().map(|p| serde_json::from_str(p).ok()).collect::<Option<_>>()?,
        ),
        JsonLevel::Object(parts) => Value::Object(
            parts.iter().map(|(k, p)| Some((k.clone(), serde_json::from_str(p).ok()?)))
                .collect::<Option<_>>()?,
        ),
    }.to_string())
}

/// A JSON text as a tree.
#[derive(Debug)]
pub enum Json {
    Null,
    Bool(bool),
    /// a number, with its value if it is a natural number
    Number { natural: Option<u64>, digits: Vec<u8> },
    Text(String),
    List(Vec<Json>),
    Object(Vec<(String, Json)>),
}

/// The tree is that of the text, which is nested less than `depth` levels deep.
pub open spec fn reads_as(text: Seq<char>, tree: Json, depth: nat) -> bool
    decreases depth,
{
    depth > 0 && match json_level(text) {
        None => false,
        Some(LevelModel::Null) => tree is Null,
        Some(LevelModel::Bool(b)) => tree == Json::Bool(b),
        Some(LevelModel::Number { natural, digits }) => tree matches Json::Number {
            natural: n,
            digits: d,
        } && n == natural && d@ == digits,
        Some(LevelModel::Text(s)) => tree matches Json::Text(t) && t@ == s,
        Some(LevelModel::List(parts)) => {
            &&& tree matches Json::List(items)
            &&& items@.len() == parts.len()
            &&& forall|i: int|
                0 <= i < parts.len() ==> reads_as(
                    parts[i],
                    #[trigger] items@[i],
                    (depth - 1) as nat,
                )
        },
        Some(LevelModel::Object(parts)) => {
            &&& tree matches Json::Object(pairs)
            &&& pairs@.len() == parts.len()
            &&& forall|i: int|
                0 <= i < parts.len() ==> (#[trigger] pairs@[i]).0@ == parts[i].0 && reads_as(
                    parts[i].1,
                    pairs@[i].1,
                    (depth - 1) as nat,
                )
        },
    }
}

/// The text can be read: it is JSON and nested less than `depth` levels deep.
pub open spec fn readable(text: Seq<char>, depth: nat) -> bool
    decreases depth,
{
    &&& depth > 0
    &&& json_level(text) is Some
    &&& forall|i: int|
        0 <= i < items_in(json_level(text)).len() ==> readable(
            #[trigger] items_in(json_level(text))[i],
            (depth - 1) as nat,
        )
    &&& forall|i: int|
        0 <= i < entries_in(json_level(text)).len() ==> readable(
            (#[trigger] entries_in(json_level(text))[i]).1,
            (depth - 1) as nat,
        )
}

proof fn lemma_readable_item(text: Seq<char>, parts: Seq<Seq<char>>, depth: nat, i: int)
    requires
        json_level(text) == Some(LevelModel::List(parts)),
        readable(text, depth),
        0 <= i < parts.len(),
    ensures
        readable(parts[i], (depth - 1) as nat),
{
    assert(items_in(json_level(text))[i] == parts[i]);
}

proof fn lemma_readable_entry(
    text: Seq<char>,
    parts: Seq<(Seq<char>, Seq<char>)>,
    depth: nat,
    i: int,
)
    requires
        json_level(text) == Some(LevelModel::Object(parts)),
        readable(text, depth),
        0 <= i < parts.len(),
    ensures
        readable(parts[i].1, (depth - 1) as nat),
{
    assert(entries_in(json_level(text))[i] == parts[i]);
}

fn parse_within(text: &str, depth: usize) -> (r: Option<Json>)
    ensures
        r matches Some(tree) ==> reads_as(text@, tree, depth as nat),
        r is Some <==> readable(text@, depth as nat),
    decreases depth,
{
    if depth == 0 {
        return None;
    }
    let level = match read_level(text) {
        Some(level) => level,
        None => {
            return None;
        },
    };
    let ghost model = level@;
    match level {
        JsonLevel::Null => Some(Json::Null),
        JsonLevel::Bool(b) => Some(Json::Bool(b)),
        JsonLevel::Number { natural, digits } => Some(Json::Number { natural, digits }),
        JsonLevel::Text(s) => Some(Json::Text(s)),
        JsonLevel::List(parts) => {
            let ghost texts = model->List_0;
            let mut items: Vec<Json> = Vec::new();
            for i in 0..parts.len()
                invariant
                    depth > 0,
                    json_level(text@) == Some(model),
                    model == LevelModel::List(texts),
                    texts == parts@.map_values(|s: String| s@),
                    items@.len() == i,
                    forall|j: int|
                        0 <= j < i ==> reads_as(
                            texts[j],
                            #[trigger] items@[j],
                            (depth - 1) as nat,
                        ),
                    forall|j: int|
                        0 <= j < i ==> readable(#[trigger] texts[j], (depth - 1) as nat),
            {
                assert(texts[i as int] == parts@[i as int]@);
                match parse_within(parts[i].as_str(), depth - 1) {
                    Some(item) => items.push(item),
                    None => {
                        assert(!readable(text@, depth as nat)) by {
                            if readable(text@, depth as nat) {
                                lemma_readable_item(text@, texts, depth as nat, i as int);
                            }
                        }
                        return None;
                    },
                }
            }
            Some(Json::List(items))
        },
        JsonLevel::Object(parts) => {
            let ghost texts = model->Object_0;
            let mut pairs: Vec<(String, Json)> = Vec::new();
            for i in 0..parts.len()
                invariant
                    depth > 0,
                    json_level(text@) == Some(model),
                    model == LevelModel::Object(texts),
                    texts == parts@.map_values(|p: (String, String)| (p.0@, p.1@)),
                    pairs@.len() == i,
                    forall|j: int|
                        0 <= j < i ==> (#[trigger] pairs@[j]).0@ == texts[j].0 && reads_as(
                            texts[j].1,
                            pairs@[j].1,
                            (depth - 1) as nat,
                        ),
                    forall|j: int|
                        0 <= j < i ==> readable((#[trigger] texts[j]).1, (depth - 1) as nat),
            {
                assert(texts[i as int] == (parts@[i as int].0@, parts@[i as int].1@));
                match parse_within(parts[i].1.as_str(), depth - 1) {
                    Some(item) => pairs.push((parts[i].0.clone(), item)),
                    None => {
                        assert(!readable(text@, depth as nat)) by {
                            if readable(text@, depth as nat) {
                                lemma_readable_entry(text@, texts, depth as nat, i as int);
                            }
                        }
                        return None;
                    },
                }
            }
            Some(Json::Object(pairs))
        },
    }
}

/// Reads a JSON text.
pub fn parse_json(text: &str) -> (r: Option<Json>)
    ensures
        r matches Some(tree) ==> reads_as(text@, tree, 128),
        r is Some <==> readable(text@, 128),
{
    parse_within(text, MAX_DEPTH)
}

/// A plain text can be read.
proof fn lemma_plain_is_readable(text: Seq<char>, depth: nat, deeper: nat)
    requires
        plain_text(text, depth),
        depth <= deeper,
    ensures
        readable(text, deeper),
    decreases depth,
{
    let level = json_level(text);
    assert forall|i: int| 0 <= i < items_in(level).len() implies readable(
        #[trigger] items_in(level)[i],
        (deeper - 1) as nat,
    ) by {
        lemma_plain_is_readable(items_in(level)[i], (depth - 1) as nat, (deeper - 1) as nat);
    }
    assert forall|i: int| 0 <= i < entries_in(level).len() implies readable(
        (#[trigger] entries_in(level)[i]).1,
        (deeper - 1) as nat,
    ) by {
        lemma_plain_is_readable(entries_in(level)[i].1, (depth - 1) as nat, (deeper - 1) as nat);
    }
}

/// A written list is read back if its parts are.
proof fn lemma_list_comes_back(text: Seq<char>, items: Vec<Json>, parts: Seq<Seq<char>>)
    requires
        json_level(text) == Some(LevelModel::List(parts)),
        parts.len() == items@.len(),
        forall|i: int| 0 <= i < parts.len() ==> comes_back(#[trigger] parts[i], items@[i]),
    ensures
        comes_back(text, Json::List(items)),
{
    assert forall|back: Json, depth: nat| #[trigger] reads_as(text, back, depth) implies alike(
        Json::List(items),
        back,
    ) by {
        let others = back->List_0;
        assert forall|i: int| 0 <= i < items@.len() implies alike(
            #[trigger] items@[i],
            others@[i],
        ) by {
            assert(comes_back(parts[i], items@[i]));
            assert(reads_as(parts[i], others@[i], (depth - 1) as nat));
        }
    }
}

/// A written object is read back if its parts are.
proof fn lemma_object_comes_back(
    text: Seq<char>,
    pairs: Vec<(String, Json)>,
    parts: Seq<(Seq<char>, Seq<char>)>,
)
    requires
        json_level(text) matches Some(read) && same_level(read, LevelModel::Object(parts)),
        parts.len() == pairs@.len(),
        forall|i: int|
            0 <= i < parts.len() ==> (#[trigger] parts[i]).0 == pairs@[i].0@ && comes_back(
                parts[i].1,
                pairs@[i].1,
            ),
    ensures
        comes_back(text, Json::Object(pairs)),
{
    let entries = entries_in(json_level(text));
    assert forall|back: Json, depth: nat| #[trigger] reads_as(text, back, depth) implies alike(
        Json::Object(pairs),
        back,
    ) by {
        let others = back->Object_0;
        assert forall|i: int| 0 <= i < pairs@.len() implies (entry_in(
            others@,
            (#[trigger] pairs@[i]).0@,
        ) matches Some(value) && alike(pairs@[i].1, value)) by {
            assert(parts.contains(parts[i]));
            assert(entries.contains(parts[i]));
            let j = choose|j: int| 0 <= j < entries.len() && entries[j] == parts[i];
            assert(others@[j].0@ == entries[j].0);
            assert(comes_back(parts[i].1, pairs@[i].1));
            assert(reads_as(entries[j].1, others@[j].1, (depth - 1) as nat));
            assert forall|k: int| 0 <= k < j implies (#[trigger] others@[k]).0@ != pairs@[i].0@ by {
                assert(entries[k].0 != entries[j].0);
            }
            lemma_entry_at(others@, pairs@[i].0@, j);
        }
        assert forall|key: Seq<char>| #[trigger]
            entry_in(others@, key) is Some implies entry_in(pairs@, key) is Some by {
            let j = lemma_entry_found(others@, key);
            assert(others@[j].0@ == entries[j].0);
            assert(entries.contains(entries[j]));
            assert(parts.contains(entries[j]));
            let i = choose|i: int| 0 <= i < parts.len() && parts[i] == entries[j];
            assert(pairs@[i].0@ == key);
            if entry_in(pairs@, key) is None {
                lemma_no_entry(pairs@, key, i);
            }
        }
    }
}

/// An entry that is found stands somewhere.
proof fn lemma_entry_found(pairs: Seq<(String, Json)>, key: Seq<char>) -> (j: int)
    requires
        entry_in(pairs, key) is Some,
    ensures
        0 <= j < pairs.len(),
        pairs[j].0@ == key,
        entry_in(pairs, key) == Some(pairs[j].1),
    decreases pairs.len(),
{
    if pairs[0].0@ == key {
        0
    } else {
        let k = lemma_entry_found(pairs.drop_first(), key);
        k + 1
    }
}

/// Without an entry under a key, no pair has it.
pub proof fn lemma_no_entry(pairs: Seq<(String, Json)>, key: Seq<char>, i: int)
    requires
        entry_in(pairs, key) is None,
        0 <= i < pairs.len(),
    ensures
        pairs[i].0@ != key,
    decreases pairs.len(),
{
    if i > 0 {
        lemma_no_entry(pairs.drop_first(), key, i - 1);
        assert(pairs.drop_first()[i - 1] == pairs[i]);
    }
}

/// The text of an object.
pub open spec fn is_object_text(text: Seq<char>) -> bool {
    json_level(text) matches Some(level) && level is Object
}

/// A tree that is plain comes back from the text, which is plain too.
pub open spec fn faithful(text: Seq<char>, tree: Json, depth: nat) -> bool {
    forall|d: nat|
        d <= 120 && d <= depth && #[trigger] plain_tree(tree, d) ==> plain_text(text, d)
            && comes_back(text, tree) && (tree is Object ==> is_object_text(text))
}

/// The tree is not plain within `depth` levels.
pub open spec fn unfit(tree: Json, depth: nat) -> bool {
    forall|d: nat| d <= 120 && d <= depth ==> !#[trigger] plain_tree(tree, d)
}

/// The outermost level of a tree that has no parts.
fn simple_level(tree: &Json) -> (r: JsonLevel)
    requires
        !(tree is List) && !(tree is Object),
    ensures
        json_text(r@) == tree_text(*tree, 1),
        plain_tree(*tree, 1) ==> plain_level(r@, 0),
        forall|text: Seq<char>|
            (json_level(text) matches Some(read) && same_level(read, r@)) ==> #[trigger] comes_back(
                text,
                *tree,
            ),
{
    match tree {
        Json::Bool(b) => JsonLevel::Bool(*b),
        Json::Number { natural, digits } => JsonLevel::Number {
            natural: *natural,
            digits: to_vec(digits.as_slice()),
        },
        Json::Text(t) => JsonLevel::Text(t.clone()),
        _ => JsonLevel::Null,
    }
}

fn write_list(items: &Vec<Json>, depth: usize) -> (r: Option<String>)
    requires
        depth > 0,
    ensures
        r matches Some(text) ==> tree_text(Json::List(*items), depth as nat) == Some(text@)
            && faithful(text@, Json::List(*items), depth as nat),
        r is None ==> tree_text(Json::List(*items), depth as nat) is None && unfit(
            Json::List(*items),
            depth as nat,
        ),
    decreases depth, 0int,
{
    let ghost tree = Json::List(*items);
    let ghost below = (depth - 1) as nat;
    let ghost mut texts: Seq<Seq<char>> = seq![];
    let mut parts: Vec<String> = Vec::new();
    for i in 0..items.len()
        invariant
            depth > 0,
            below == depth - 1,
            tree == Json::List(*items),
            item_texts(items@.take(i as int), below) == Some(texts),
            texts.len() == i,
            parts@.len() == i,
            forall|j: int|
                0 <= j < i ==> texts[j] == (#[trigger] parts@[j])@ && faithful(
                    parts@[j]@,
                    items@[j],
                    below,
                ),
    {
        match write_within(&items[i], depth - 1) {
            Some(part) => {
                proof {
                    assert(items@.take(i + 1).drop_last() =~= items@.take(i as int));
                    texts = texts.push(part@);
                }
                parts.push(part);
            },
            None => {
                proof {
                    lemma_item_without_text(items@, below, i as int);
                }
                assert forall|d: nat| d <= 120 && d <= depth implies !#[trigger] plain_tree(
                    tree,
                    d,
                ) by {
                    if plain_tree(tree, d) {
                        lemma_plain_item(*items, d, i as int);
                    }
                }
                return None;
            },
        }
    }
    assert(items@.take(items@.len() as int) =~= items@);
    let level = JsonLevel::List(parts);
    let ghost whole = level@->List_0;
    assert(whole =~= texts);
    assert forall|d: nat| d <= 120 && d <= depth && #[trigger] plain_tree(tree, d) implies d > 0
        && plain_level(level@, (d - 1) as nat) && (forall|j: int|
        0 <= j < whole.len() ==> comes_back(#[trigger] whole[j], items@[j])) by {
        assert forall|j: int| 0 <= j < whole.len() implies plain_text(
            #[trigger] whole[j],
            (d - 1) as nat,
        ) && comes_back(whole[j], items@[j]) by {
            assert(whole[j] == parts@[j]@);
            lemma_plain_item(*items, d, j);
        }
    }
    let r = write_level(&level);
    proof {
        assert forall|d: nat| d <= 120 && d <= depth && #[trigger] plain_tree(tree, d) implies (
        r matches Some(text) && plain_text(text@, d) && comes_back(text@, tree)) by {
            assert(plain_level(level@, (d - 1) as nat));
            if let Some(text) = &r {
                lemma_list_comes_back(text@, *items, whole);
            }
        }
    }
    r
}

fn write_object(pairs: &Vec<(String, Json)>, depth: usize) -> (r: Option<String>)
    requires
        depth > 0,
    ensures
        r matches Some(text) ==> tree_text(Json::Object(*pairs), depth as nat) == Some(text@)
            && faithful(text@, Json::Object(*pairs), depth as nat),
        r is None ==> tree_text(Json::Object(*pairs), depth as nat) is None && unfit(
            Json::Object(*pairs),
            depth as nat,
        ),
    decreases depth, 0int,
{
    let ghost tree = Json::Object(*pairs);
    let ghost below = (depth - 1) as nat;
    let ghost mut texts: Seq<(Seq<char>, Seq<char>)> = seq![];
    let mut parts: Vec<(String, String)> = Vec::new();
    for i in 0..pairs.len()
        invariant
            depth > 0,
            below == depth - 1,
            tree == Json::Object(*pairs),
            entry_texts(pairs@.take(i as int), below) == Some(texts),
            texts.len() == i,
            parts@.len() == i,
            forall|j: int|
                0 <= j < i ==> texts[j] == ((#[trigger] parts@[j]).0@, parts@[j].1@)
                    && parts@[j].0@ == pairs@[j].0@ && faithful(
                    parts@[j].1@,
                    pairs@[j].1,
                    below,
                ),
    {
        match write_within(&pairs[i].1, depth - 1) {
            Some(part) => {
                proof {
                    assert(pairs@.take(i + 1).drop_last() =~= pairs@.take(i as int));
                    texts = texts.push((pairs@[i as int].0@, part@));
                }
                parts.push((pairs[i].0.clone(), part));
            },
            None => {
                proof {
                    lemma_entry_without_text(pairs@, below, i as int);
                }
                assert forall|d: nat| d <= 120 && d <= depth implies !#[trigger] plain_tree(
                    tree,
                    d,
                ) by {
                    if plain_tree(tree, d) {
                        lemma_plain_entry(*pairs, d, i as int);
                    }
                }
                return None;
            },
        }
    }
    assert(pairs@.take(pairs@.len() as int) =~= pairs@);
    let level = JsonLevel::Object(parts);
    let ghost whole = level@->Object_0;
    assert(whole =~= texts);
    assert forall|j: int| 0 <= j < whole.len() implies (#[trigger] whole[j]) == (
        pairs@[j].0@,
        parts@[j].1@,
    ) by {
        assert(texts[j] == (parts@[j].0@, parts@[j].1@));
    }
    assert forall|d: nat| d <= 120 && d <= depth && #[trigger] plain_tree(tree, d) implies d > 0
        && plain_level(level@, (d - 1) as nat) && (forall|j: int|
        0 <= j < whole.len() ==> comes_back((#[trigger] whole[j]).1, pairs@[j].1)) by {
        assert forall|j: int| 0 <= j < whole.len() implies !is_reserved((#[trigger] whole[j]).0)
            && plain_text(whole[j].1, (d - 1) as nat) && comes_back(whole[j].1, pairs@[j].1) by {
            lemma_plain_entry(*pairs, d, j);
            assert(faithful(parts@[j].1@, pairs@[j].1, below));
        }
        assert forall|j: int, k: int| 0 <= j < k < whole.len() implies (#[trigger] whole[j]).0 != (
        #[trigger] whole[k]).0 by {
            assert(pairs@[j].0@ != pairs@[k].0@);
        }
    }
    let r = write_level(&level);
    proof {
        assert forall|d: nat| d <= 120 && d <= depth && #[trigger] plain_tree(tree, d) implies (
        r matches Some(text) && plain_text(text@, d) && comes_back(text@, tree) && is_object_text(
            text@,
        )) by {
            assert(plain_level(level@, (d - 1) as nat));
            if let Some(text) = &r {
                lemma_object_comes_back(text@, *pairs, whole);
            }
        }
    }
    r
}

fn write_within(tree: &Json, depth: usize) -> (r: Option<String>)
    ensures
        r matches Some(text) ==> tree_text(*tree, depth as nat) == Some(text@) && faithful(
            text@,
            *tree,
            depth as nat,
        ),
        r is None ==> tree_text(*tree, depth as nat) is None && unfit(*tree, depth as nat),
    decreases depth, 1int,
{
    if depth == 0 {
        return None;
    }
    match tree {
        Json::List(items) => write_list(items, depth),
        Json::Object(pairs) => write_object(pairs, depth),
        _ => {
            let level = simple_level(tree);
            let r = write_level(&level);
            proof {
                assert forall|d: nat|
                    d <= 120 && d <= depth && #[trigger] plain_tree(*tree, d) implies (
                r matches Some(text) && plain_text(text@, d) && comes_back(text@, *tree)) by {
                    assert(plain_tree(*tree, 1));
                    assert(plain_level(level@, (d - 1) as nat));
                }
            }
            r
        },
    }
}

/// The text of a tree. The text of a plain tree is plain, and reading it gives the tree back.
pub open spec fn well_written(text: Seq<char>, tree: Json) -> bool {
    &&& tree_text(tree, 128) == Some(text)
    &&& forall|depth: nat|
        depth <= 120 && #[trigger] plain_tree(tree, depth) ==> plain_text(text, depth)
            && reads_back(text, tree) && (tree is Object ==> is_object_text(text))
}

/// What is read from a plain text is a plain tree, which can be written again.
pub proof fn law_plain_text_reads_as_plain_tree(
    text: Seq<char>,
    tree: Json,
    depth: nat,
    deepest: nat,
)
    requires
        plain_text(text, depth),
        reads_as(text, tree, deepest),
    ensures
        plain_tree(tree, depth),
    decreases depth,
{
    let level = json_level(text);
    let items = own_items(tree);
    let pairs = own_pairs(tree);
    assert forall|i: int| 0 <= i < items.len() implies plain_tree(
        #[trigger] items[i],
        (depth - 1) as nat,
    ) by {
        let part = items_in(level)[i];
        assert(reads_as(part, items[i], (deepest - 1) as nat));
        law_plain_text_reads_as_plain_tree(
            part,
            items[i],
            (depth - 1) as nat,
            (deepest - 1) as nat,
        );
    }
    assert forall|i: int| 0 <= i < pairs.len() implies !is_reserved((#[trigger] pairs[i]).0@)
        && plain_tree(pairs[i].1, (depth - 1) as nat) by {
        let part = entries_in(level)[i];
        assert(pairs[i].0@ == part.0);
        assert(reads_as(part.1, pairs[i].1, (deepest - 1) as nat));
        law_plain_text_reads_as_plain_tree(
            part.1,
            pairs[i].1,
            (depth - 1) as nat,
            (deepest - 1) as nat,
        );
    }
    assert forall|i: int, j: int| 0 <= i < j < pairs.len() implies (#[trigger] pairs[i]).0@ != (
    #[trigger] pairs[j]).0@ by {
        assert(pairs[i].0@ == entries_in(level)[i].0);
        assert(pairs[j].0@ == entries_in(level)[j].0);
    }
}

/// Writes a tree as JSON; nothing if it is nested too deep or holds digits that are no number.
/// A plain tree can be written, and reading its text gives it back.
pub fn write_text(tree: &Json) -> (r: Option<String>)
    ensures
        r matches Some(text) ==> well_written(text@, *tree),
        r is None ==> tree_text(*tree, 128) is None && unfit(*tree, 128),
{
    let r = write_within(tree, MAX_DEPTH);
    proof {
        if let Some(text) = &r {
            assert forall|depth: nat|
                depth <= 120 && #[trigger] plain_tree(*tree, depth) implies plain_text(
                text@,
                depth,
            ) && reads_back(text@, *tree) && (*tree is Object ==> is_object_text(text@)) by {
                lemma_plain_is_readable(text@, depth, 128);
            }
        }
    }
    r
}

/// An object without entries.
pub open spec fn is_empty_object(tree: Json) -> bool {
    tree matches Json::Object(pairs) && pairs@.len() == 0
}

/// The tree that a stored text stands for: an object without entries if it cannot be read.
pub open spec fn stands_for(text: Seq<char>, tree: Json) -> bool {
    if readable(text, 128) {
        reads_as(text, tree, 128)
    } else {
        is_empty_object(tree)
    }
}

/// Reads a stored text; one that cannot be read stands for an object without entries.
pub fn read_stored(text: &str) -> (r: Json)
    ensures
        stands_for(text@, r),
{
    match parse_json(text) {
        Some(tree) => tree,
        None => Json::Object(Vec::new()),
    }
}

/// The first entry under a key.
pub open spec fn entry_in(pairs: Seq<(String, Json)>, key: Seq<char>) -> Option<Json>
    decreases pairs.len(),
{
    if pairs.len() == 0 {
        None
    } else if pairs[0].0@ == key {
        Some(pairs[0].1)
    } else {
        entry_in(pairs.drop_first(), key)
    }
}

/// The entry of an object under a key; nothing else has entries.
pub open spec fn field_of(tree: Json, key: Seq<char>) -> Option<Json> {
    match tree {
        Json::Object(pairs) => entry_in(pairs@, key),
        _ => None,
    }
}

/// Entries with different names, none of them reserved.
pub open spec fn plain_names(pairs: Seq<(String, Json)>) -> bool {
    &&& forall|i: int, j: int|
        0 <= i < j < pairs.len() ==> (#[trigger] pairs[i]).0@ != (#[trigger] pairs[j]).0@
    &&& forall|i: int| 0 <= i < pairs.len() ==> !is_reserved((#[trigger] pairs[i]).0@)
}

/// The items of a list; nothing else has any.
pub open spec fn own_items(tree: Json) -> Seq<Json> {
    match tree {
        Json::List(items) => items@,
        _ => seq![],
    }
}

/// The entries of an object; nothing else has any.
pub open spec fn own_pairs(tree: Json) -> Seq<(String, Json)> {
    match tree {
        Json::Object(pairs) => pairs@,
        _ => seq![],
    }
}

/// A tree that is written without loss, nested no deeper than `depth`.
pub open spec fn plain_tree(tree: Json, depth: nat) -> bool
    decreases depth,
{
    &&& depth > 0
    &&& tree matches Json::Number { natural, digits } ==> plain_digits(natural, digits@)
    &&& forall|i: int|
        0 <= i < own_items(tree).len() ==> plain_tree(
            #[trigger] own_items(tree)[i],
            (depth - 1) as nat,
        )
    &&& plain_names(own_pairs(tree))
    &&& forall|i: int|
        0 <= i < own_pairs(tree).len() ==> plain_tree(
            (#[trigger] own_pairs(tree)[i]).1,
            (depth - 1) as nat,
        )
}

proof fn lemma_plain_item(items: Vec<Json>, depth: nat, i: int)
    requires
        plain_tree(Json::List(items), depth),
        0 <= i < items@.len(),
    ensures
        plain_tree(items@[i], (depth - 1) as nat),
{
    assert(own_items(Json::List(items))[i] == items@[i]);
}

pub proof fn lemma_plain_entry(pairs: Vec<(String, Json)>, depth: nat, i: int)
    requires
        plain_tree(Json::Object(pairs), depth),
        0 <= i < pairs@.len(),
    ensures
        !is_reserved(pairs@[i].0@),
        plain_tree(pairs@[i].1, (depth - 1) as nat),
{
    assert(own_pairs(Json::Object(pairs))[i] == pairs@[i]);
}

/// A tree may be nested deeper than it is.
pub proof fn lemma_plain_deeper(tree: Json, depth: nat, deeper: nat)
    requires
        plain_tree(tree, depth),
        depth <= deeper,
    ensures
        plain_tree(tree, deeper),
    decreases depth,
{
    assert forall|i: int| 0 <= i < own_items(tree).len() implies plain_tree(
        #[trigger] own_items(tree)[i],
        (deeper - 1) as nat,
    ) by {
        lemma_plain_deeper(own_items(tree)[i], (depth - 1) as nat, (deeper - 1) as nat);
    }
    assert forall|i: int| 0 <= i < own_pairs(tree).len() implies plain_tree(
        (#[trigger] own_pairs(tree)[i]).1,
        (deeper - 1) as nat,
    ) by {
        lemma_plain_deeper(own_pairs(tree)[i].1, (depth - 1) as nat, (deeper - 1) as nat);
    }
}

/// Two trees say the same, but for the order of entries and the way in which a fraction is
/// written.
pub open spec fn alike(tree: Json, other: Json) -> bool
    decreases tree,
{
    match tree {
        Json::Null => other is Null,
        Json::Bool(b) => other == Json::Bool(b),
        Json::Number { natural, digits } => other matches Json::Number { natural: n, digits: d }
            && n == natural && (if natural is Some {
            d@ == digits@
        } else {
            quantity_value(d@) == quantity_value(digits@)
        }),
        Json::Text(t) => other matches Json::Text(u) && u@ == t@,
        Json::List(items) => {
            &&& other matches Json::List(others)
            &&& others@.len() == items@.len()
            &&& forall|i: int|
                0 <= i < items@.len() ==> alike(#[trigger] items@[i], others@[i])
        },
        Json::Object(pairs) => {
            &&& other matches Json::Object(others)
            &&& forall|i: int|
                0 <= i < pairs@.len() ==> (entry_in(
                    others@,
                    (#[trigger] pairs@[i]).0@,
                ) matches Some(value) && alike(pairs@[i].1, value))
            &&& forall|key: Seq<char>| #[trigger]
                entry_in(others@, key) is Some ==> entry_in(pairs@, key) is Some
        },
    }
}

/// Whatever is read from the text is like the tree.
pub open spec fn comes_back(text: Seq<char>, tree: Json) -> bool {
    forall|back: Json, depth: nat| #[trigger] reads_as(text, back, depth) ==> alike(tree, back)
}

/// The text can be read, and what is read is like the tree.
pub open spec fn reads_back(text: Seq<char>, tree: Json) -> bool {
    readable(text, 128) && comes_back(text, tree)
}

/// The text of a tree, level by level; nothing if it is nested `depth` levels deep or holds
/// digits that are no number.
pub open spec fn tree_text(tree: Json, depth: nat) -> Option<Seq<char>>
    decreases depth, 0nat,
{
    if depth == 0 {
        None
    } else {
        match tree {
            Json::Null => json_text(LevelModel::Null),
            Json::Bool(b) => json_text(LevelModel::Bool(b)),
            Json::Number { natural, digits } => json_text(
                LevelModel::Number { natural, digits: digits@ },
            ),
            Json::Text(t) => json_text(LevelModel::Text(t@)),
            Json::List(items) => match item_texts(items@, (depth - 1) as nat) {
                Some(parts) => json_text(LevelModel::List(parts)),
                None => None,
            },
            Json::Object(pairs) => match entry_texts(pairs@, (depth - 1) as nat) {
                Some(parts) => json_text(LevelModel::Object(parts)),
                None => None,
            },
        }
    }
}

/// The texts of the items; nothing if one has none.
pub open spec fn item_texts(items: Seq<Json>, depth: nat) -> Option<Seq<Seq<char>>>
    decreases depth, items.len() + 1,
{
    if items.len() == 0 {
        Some(seq![])
    } else {
        match (item_texts(items.drop_last(), depth), tree_text(items.last(), depth)) {
            (Some(parts), Some(part)) => Some(parts.push(part)),
            _ => None,
        }
    }
}

/// The names and texts of the entries; nothing if one has none.
pub open spec fn entry_texts(pairs: Seq<(String, Json)>, depth: nat) -> Option<
    Seq<(Seq<char>, Seq<char>)>,
>
    decreases depth, pairs.len() + 1,
{
    if pairs.len() == 0 {
        Some(seq![])
    } else {
        match (entry_texts(pairs.drop_last(), depth), tree_text(pairs.last().1, depth)) {
            (Some(parts), Some(part)) => Some(parts.push((pairs.last().0@, part))),
            _ => None,
        }
    }
}

proof fn lemma_item_without_text(items: Seq<Json>, depth: nat, i: int)
    requires
        0 <= i < items.len(),
        tree_text(items[i], depth) is None,
    ensures
        item_texts(items, depth) is None,
    decreases items.len(),
{
    if i < items.len() - 1 {
        assert(items.drop_last()[i] == items[i]);
        lemma_item_without_text(items.drop_last(), depth, i);
    }
}

proof fn lemma_entry_without_text(pairs: Seq<(String, Json)>, depth: nat, i: int)
    requires
        0 <= i < pairs.len(),
        tree_text(pairs[i].1, depth) is None,
    ensures
        entry_texts(pairs, depth) is None,
    decreases pairs.len(),
{
    if i < pairs.len() - 1 {
        assert(pairs.drop_last()[i] == pairs[i]);
        lemma_entry_without_text(pairs.drop_last(), depth, i);
    }
}

/// The number, if the tree is a natural number.
pub open spec fn natural_of(tree: Json) -> Option<u64> {
    match tree {
        Json::Number { natural, .. } => natural,
        _ => None,
    }
}

/// The quantity, if the tree is a number.
pub open spec fn quantity_of(tree: Json) -> Option<Quantity> {
    match tree {
        Json::Number { digits, .. } => quantity_value(digits@),
        _ => None,
    }
}

/// The items, if the tree is a list.
pub open spec fn items_of(tree: Json) -> Option<Seq<Json>> {
    match tree {
        Json::List(items) => Some(items@),
        _ => None,
    }
}

proof fn lemma_entry_at(pairs: Seq<(String, Json)>, key: Seq<char>, i: int)
    requires
        0 <= i <= pairs.len(),
        forall|j: int| 0 <= j < i ==> (#[trigger] pairs[j]).0@ != key,
        i < pairs.len() ==> pairs[i].0@ == key,
    ensures
        i < pairs.len() ==> entry_in(pairs, key) == Some(pairs[i].1),
        i == pairs.len() ==> entry_in(pairs, key) is None,
    decreases i,
{
    if i > 0 {
        let rest = pairs.drop_first();
        assert(pairs[0].0@ != key);
        assert forall|j: int| 0 <= j < i - 1 implies (#[trigger] rest[j]).0@ != key by {
            assert(rest[j] == pairs[j + 1]);
        }
        lemma_entry_at(rest, key, i - 1);
    }
}

pub proof fn lemma_entry_pushed(pairs: Seq<(String, Json)>, pair: (String, Json), key: Seq<char>)
    ensures
        entry_in(pairs.push(pair), key) == (if entry_in(pairs, key) is Some {
            entry_in(pairs, key)
        } else if pair.0@ == key {
            Some(pair.1)
        } else {
            None
        }),
    decreases pairs.len(),
{
    let after = pairs.push(pair);
    if pairs.len() == 0 {
        assert(after.drop_first() =~= Seq::<(String, Json)>::empty());
        assert(entry_in(after.drop_first(), key) is None);
    } else {
        lemma_entry_pushed(pairs.drop_first(), pair, key);
        assert(after.drop_first() =~= pairs.drop_first().push(pair));
    }
}

impl Json {
    /// The entry under a key.
    pub fn field<'a>(&'a self, key: &str) -> (r: Option<&'a Json>)
        ensures
            r matches Some(tree) ==> field_of(*self, key@) == Some(*tree),
            r is None ==> field_of(*self, key@) is None,
    {
        let wanted: String = key.to_owned();
        match self {
            Json::Object(pairs) => {
                for i in 0..pairs.len()
                    invariant
                        *self == Json::Object(*pairs),
                        wanted@ == key@,
                        forall|j: int| 0 <= j < i ==> (#[trigger] pairs@[j]).0@ != key@,
                {
                    if pairs[i].0 == wanted {
                        proof {
                            lemma_entry_at(pairs@, key@, i as int);
                        }
                        return Some(&pairs[i].1);
                    }
                }
                proof {
                    lemma_entry_at(pairs@, key@, pairs@.len() as int);
                }
                None
            },
            _ => None,
        }
    }

    /// The number, if this is a natural number.
    pub fn natural(&self) -> (r: Option<u64>)
        ensures
            r == natural_of(*self),
    {
        match self {
            Json::Number { natural, .. } => *natural,
            _ => None,
        }
    }

    /// The quantity, if this is a number.
    pub fn quantity(&self) -> (r: Option<Quantity>)
        ensures
            r == quantity_of(*self),
    {
        match self {
            Json::Number { digits, .. } => parse_quantity(digits.as_slice()),
            _ => None,
        }
    }

    /// The items, if this is a list.
    pub fn items(&self) -> (r: Option<&Vec<Json>>)
        ensures
            r matches Some(items) ==> items_of(*self) == Some(items@),
            r is None ==> items_of(*self) is None,
    {
        match self {
            Json::List(items) => Some(items),
            _ => None,
        }
    }
}

/// The tree of a natural number.
pub open spec fn is_natural(tree: Json, n: u64) -> bool {
    tree matches Json::Number { natural, digits } && natural == Some(n) && digits@
        == natural_digits(n as nat)
}

pub fn natural_tree(n: u64) -> (r: Json)
    ensures
        is_natural(r, n),
        forall|depth: nat| depth > 0 ==> #[trigger] plain_tree(r, depth),
{
    Json::Number { natural: Some(n), digits: format_natural(n) }
}

/// The tree of a quantity.
pub open spec fn is_quantity(tree: Json, q: Quantity) -> bool {
    tree matches Json::Number { natural, digits } && natural is None && digits@ == quantity_digits(
        q,
    )
}

pub fn quantity_tree(q: Quantity) -> (r: Json)
    ensures
        is_quantity(r, q),
        forall|depth: nat|
            depth > 0 && -1_000_000_000_000_000 < q < 1_000_000_000_000_000
                ==> #[trigger] plain_tree(r, depth),
{
    Json::Number { natural: None, digits: format_quantity(q) }
}

/// A list of plain trees is plain.
pub proof fn lemma_plain_list(items: Vec<Json>, depth: nat)
    requires
        forall|i: int| 0 <= i < items@.len() ==> plain_tree(#[trigger] items@[i], depth),
    ensures
        plain_tree(Json::List(items), depth + 1),
{
    assert((depth + 1 - 1) as nat == depth);
}

/// An object of plain trees is plain.
pub proof fn lemma_plain_object(pairs: Vec<(String, Json)>, depth: nat)
    requires
        plain_pairs(pairs@, depth),
    ensures
        plain_tree(Json::Object(pairs), depth + 1),
{
    assert((depth + 1 - 1) as nat == depth);
}

/// The tree of a list of natural numbers.
pub open spec fn is_byte_list(tree: Json, bytes: Seq<u8>) -> bool {
    tree matches Json::List(items) && items@.len() == bytes.len() && forall|i: int|
        0 <= i < bytes.len() ==> is_natural(#[trigger] items@[i], bytes[i] as u64)
}

pub fn byte_list_tree(bytes: &[u8]) -> (r: Json)
    ensures
        is_byte_list(r, bytes@),
        forall|depth: nat| depth > 1 ==> #[trigger] plain_tree(r, depth),
{
    let mut items: Vec<Json> = Vec::new();
    for i in 0..bytes.len()
        invariant
            items@.len() == i,
            forall|j: int| 0 <= j < i ==> is_natural(#[trigger] items@[j], bytes@[j] as u64),
            forall|j: int, depth: nat|
                0 <= j < i && depth > 0 ==> #[trigger] plain_tree(items@[j], depth),
    {
        items.push(natural_tree(bytes[i] as u64));
    }
    proof {
        assert forall|depth: nat| depth > 1 implies #[trigger] plain_tree(
            Json::List(items),
            depth,
        ) by {
            lemma_plain_list(items, (depth - 1) as nat);
        }
    }
    Json::List(items)
}

/// Entries with different names, none of them reserved, and plain trees.
pub open spec fn plain_pairs(pairs: Seq<(String, Json)>, depth: nat) -> bool {
    &&& plain_names(pairs)
    &&& forall|i: int| 0 <= i < pairs.len() ==> plain_tree((#[trigger] pairs[i]).1, depth)
}

/// An object that is put together entry by entry.
pub fn put_entry(pairs: &mut Vec<(String, Json)>, key: &str, tree: Json)
    requires
        entry_in(old(pairs)@, key@) is None,
    ensures
        forall|k: Seq<char>| #[trigger]
            entry_in(final(pairs)@, k) == (if k == key@ {
                Some(tree)
            } else {
                entry_in(old(pairs)@, k)
            }),
        forall|depth: nat|
            plain_pairs(old(pairs)@, depth) && plain_tree(tree, depth) && !is_reserved(key@)
                ==> #[trigger] plain_pairs(final(pairs)@, depth),
{
    let ghost before = pairs@;
    let name: String = key.to_owned();
    let ghost pair = (name, tree);
    pairs.push((name, tree));
    assert forall|k: Seq<char>| #[trigger] entry_in(pairs@, k) == (if k == key@ {
        Some(tree)
    } else {
        entry_in(before, k)
    }) by {
        lemma_entry_pushed(before, pair, k);
    }
    assert forall|depth: nat|
        plain_pairs(before, depth) && plain_tree(tree, depth) && !is_reserved(
            key@,
        ) implies #[trigger] plain_pairs(pairs@, depth) by {
        assert forall|i: int, j: int| 0 <= i < j < pairs@.len() implies (#[trigger] pairs@[i]).0@
            != (#[trigger] pairs@[j]).0@ by {
            if j == before.len() {
                lemma_no_entry(before, key@, i);
            } else {
                assert(before[i].0@ != before[j].0@);
            }
        }
        assert forall|i: int| 0 <= i < pairs@.len() implies !is_reserved((#[trigger] pairs@[i]).0@)
            && plain_tree(pairs@[i].1, depth) by {
            if i < before.len() {
                assert(!is_reserved(before[i].0@));
            }
        }
    }
}

/// Trees that are alike have the same entries.
pub proof fn lemma_alike_field(tree: Json, other: Json, key: Seq<char>)
    requires
        alike(tree, other),
    ensures
        field_of(tree, key) is Some <==> field_of(other, key) is Some,
        field_of(tree, key) matches Some(value) ==> alike(value, field_of(other, key)->0),
{
    if let Json::Object(pairs) = tree {
        if entry_in(pairs@, key) is Some {
            let j = lemma_entry_found(pairs@, key);
            assert(pairs@[j].0@ == key);
        }
    }
}

/// Numbers that are alike have the same value.
pub proof fn lemma_alike_quantity(tree: Json, other: Json)
    requires
        alike(tree, other),
    ensures
        quantity_of(other) == quantity_of(tree),
        natural_of(other) == natural_of(tree),
{
}

/// Lists of bytes that are alike are the same.
pub proof fn lemma_alike_bytes(tree: Json, other: Json, bytes: Seq<u8>)
    requires
        alike(tree, other),
        is_byte_list(tree, bytes),
    ensures
        is_byte_list(other, bytes),
{
    let items = items_of(tree)->0;
    let others = items_of(other)->0;
    assert forall|i: int| 0 <= i < bytes.len() implies is_natural(
        #[trigger] others[i],
        bytes[i] as u64,
    ) by {
        assert(is_natural(items[i], bytes[i] as u64));
        assert(alike(items[i], others[i]));
    }
}

} // verus!
