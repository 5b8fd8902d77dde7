//! JSON documents as readable `path=value` text.
use vstd::prelude::*;
use crate::digits::{decimal_digits, decimal_string};
use crate::formats::{joined, joined_prefix};
use crate::processors::JsonProcessor;

verus! {

/// A JSON value; a number keeps its textual form.
#[derive(Debug)]
pub enum JsonNode {
    Null,
    Bool(bool),
    Number(String),
    Str(String),
    Array(Vec<JsonNode>),
    Object(Vec<(String, JsonNode)>),
}

/// Deeper values than this are not rendered.
pub const MAX_JSON_DEPTH: usize = 10;

/// The path of the `i`-th item of the array at `path`.
pub open spec fn item_path(path: Seq<char>, i: int) -> Seq<char> {
    path + "["@ + decimal_digits(i as nat) + "]"@
}

/// The path of the member `key` of the object at `path`.
pub open spec fn member_path(path: Seq<char>, key: Seq<char>) -> Seq<char> {
    if path.len() == 0 {
        key
    } else {
        path + "."@ + key
    }
}

/// The readable text of `v` found at `path`, `depth` levels down.
pub open spec fn json_text(v: JsonNode, path: Seq<char>, depth: int) -> Seq<char>
    decreases MAX_JSON_DEPTH + 1 - depth, 1int,
{
    if depth > MAX_JSON_DEPTH || depth < 0 {
        path + "=[MAX_DEPTH_REACHED]"@
    } else {
        match v {
            JsonNode::Null => path + "=null"@,
            JsonNode::Bool(b) => path + "="@ + if b {
                "true"@
            } else {
                "false"@
            },
            JsonNode::Number(n) => path + "="@ + n@,
            JsonNode::Str(s) => path + "=\""@ + s@ + "\""@,
            JsonNode::Array(items) => path + "=["@ + joined(item_texts(items@, path, depth), ", "@)
                + "]"@,
            JsonNode::Object(members) => path + "={"@ + joined(
                member_texts(members@, path, depth),
                ", "@,
            ) + "}"@,
        }
    }
}

/// The texts of the items of the array at `path`, `depth` levels down.
pub open spec fn item_texts(items: Seq<JsonNode>, path: Seq<char>, depth: int) -> Seq<Seq<char>>
    decreases MAX_JSON_DEPTH + 1 - depth, 0int,
{
    if depth > MAX_JSON_DEPTH || depth < 0 {
        seq![]
    } else {
        Seq::new(items.len(), |i: int| json_text(items[i], item_path(path, i), depth + 1))
    }
}

/// The texts of the members of the object at `path`, `depth` levels down.
pub open spec fn member_texts(members: Seq<(String, JsonNode)>, path: Seq<char>, depth: int) -> Seq<
    Seq<char>,
>
    decreases MAX_JSON_DEPTH + 1 - depth, 0int,
{
    if depth > MAX_JSON_DEPTH || depth < 0 {
        seq![]
    } else {
        Seq::new(
            members.len(),
            |i: int| json_text(members[i].1, member_path(path, members[i].0@), depth + 1),
        )
    }
}

impl JsonProcessor {
    /// Renders a JSON value as `path=value` text: strings quoted, arrays as
    /// `path=[...]` with items at `path[i]`, objects as `path={...}` with
    /// members at `path.key` (or `key` at the top), and values more than ten
    /// levels down as `path=[MAX_DEPTH_REACHED]`.
    pub fn json_to_text(&self, value: &JsonNode, path: &str, depth: usize) -> (r: String)
        ensures
            r@ == json_text(*value, path@, depth as int),
        decreases MAX_JSON_DEPTH + 1 - depth,
    {
        let mut text = path.to_owned();
        if depth > MAX_JSON_DEPTH {
            text.append("=[MAX_DEPTH_REACHED]");
            return text;
        }
        match value {
            JsonNode::Null => {
                text.append("=null");
            },
            JsonNode::Bool(b) => {
                text.append("=");
                text.append(if *b { "true" } else { "false" });
            },
            JsonNode::Number(n) => {
                text.append("=");
                text.append(n.as_str());
            },
            JsonNode::Str(s) => {
                text.append("=\"");
                text.append(s.as_str());
                text.append("\"");
            },
            JsonNode::Array(items) => {
                text.append("=[");
                let ghost head = text@;
                let ghost parts = item_texts(items@, path@, depth as int);
                let mut i: usize = 0;
                while i < items.len()
                    invariant
                        depth <= MAX_JSON_DEPTH,
                        i <= items@.len(),
                        parts == item_texts(items@, path@, depth as int),
                        text@ == head + joined_prefix(parts, ", "@, i as int),
                    decreases items@.len() - i,
                {
                    if i > 0 {
                        text.append(", ");
                    }
                    let mut item_path_text = path.to_owned();
                    item_path_text.append("[");
                    let number = decimal_string(i as u64);
                    item_path_text.append(number.as_str());
                    item_path_text.append("]");
                    let item = self.json_to_text(&items[i], item_path_text.as_str(), depth + 1);
                    text.append(item.as_str());
                    assert(text@ =~= head + joined_prefix(parts, ", "@, i + 1));
                    i = i + 1;
                }
                text.append("]");
                assert(text@ =~= json_text(*value, path@, depth as int));
            },
            JsonNode::Object(members) => {
                text.append("={");
                let ghost head = text@;
                let ghost parts = member_texts(members@, path@, depth as int);
                let mut i: usize = 0;
                while i < members.len()
                    invariant
                        depth <= MAX_JSON_DEPTH,
                        i <= members@.len(),
                        parts == member_texts(members@, path@, depth as int),
                        text@ == head + joined_prefix(parts, ", "@, i as int),
                    decreases members@.len() - i,
                {
                    if i > 0 {
                        text.append(", ");
                    }
                    let (key, val) = &members[i];
                    let member_path_text = if path.is_empty() {
                        key.clone()
                    } else {
                        let mut p = path.to_owned();
                        p.append(".");
                        p.append(key.as_str());
                        p
                    };
                    let item = self.json_to_text(val, member_path_text.as_str(), depth + 1);
                    text.append(item.as_str());
                    assert(text@ =~= head + joined_prefix(parts, ", "@, i + 1));
                    i = i + 1;
                }
                text.append("}");
                assert(text@ =~= json_text(*value, path@, depth as int));
            },
        }
        text
    }
}

} // verus!

verus! {

/// How deeply arrays and objects nest in `v`; scalars have depth 0.
pub open spec fn json_depth(v: JsonNode) -> nat
    decreases v,
{
    match v {
        JsonNode::Array(items) => 1 + max_depth_of(item_depths(items@)),
        JsonNode::Object(members) => 1 + max_depth_of(member_depths(members@)),
        _ => 0,
    }
}

pub open spec fn item_depths(items: Seq<JsonNode>) -> Seq<nat>
    decreases items,
{
    Seq::new(
        items.len(),
        |i: int|
            if 0 <= i < items.len() {
                json_depth(items[i])
            } else {
                0
            },
    )
}

pub open spec fn member_depths(members: Seq<(String, JsonNode)>) -> Seq<nat>
    decreases members,
{
    Seq::new(
        members.len(),
        |i: int|
            if 0 <= i < members.len() {
                json_depth(members[i].1)
            } else {
                0
            },
    )
}

pub open spec fn max_prefix(s: Seq<nat>, n: int) -> nat
    decreases n,
{
    if n <= 0 {
        0
    } else if s[n - 1] > max_prefix(s, n - 1) {
        s[n - 1]
    } else {
        max_prefix(s, n - 1)
    }
}

/// The largest element of `s`, or 0 when it is empty.
pub open spec fn max_depth_of(s: Seq<nat>) -> nat {
    max_prefix(s, s.len() as int)
}

} // verus!

verus! {

pub open spec fn capped_depth(n: nat) -> nat {
    if n > usize::MAX {
        usize::MAX as nat
    } else {
        n
    }
}

/// How many items of an array are of each JSON type.
#[derive(Debug, Clone, Copy, PartialEq, Eq, Structural)]
pub struct ElementTypeCounts {
    pub string: usize,
    pub number: usize,
    pub boolean: usize,
    pub null: usize,
    pub array: usize,
    pub object: usize,
}

/// The JSON types.
#[derive(Debug, Clone, Copy, PartialEq, Eq, Structural)]
pub enum JsonKind {
    Object,
    Array,
    Str,
    Number,
    Bool,
    Null,
}

pub open spec fn kind_of(v: JsonNode) -> JsonKind {
    match v {
        JsonNode::Object(_) => JsonKind::Object,
        JsonNode::Array(_) => JsonKind::Array,
        JsonNode::Str(_) => JsonKind::Str,
        JsonNode::Number(_) => JsonKind::Number,
        JsonNode::Bool(_) => JsonKind::Bool,
        JsonNode::Null => JsonKind::Null,
    }
}

/// The name of a JSON type: "object", "array", "string", "number", "boolean" or "null".
pub open spec fn kind_name(k: JsonKind) -> Seq<char> {
    match k {
        JsonKind::Object => "object"@,
        JsonKind::Array => "array"@,
        JsonKind::Str => "string"@,
        JsonKind::Number => "number"@,
        JsonKind::Bool => "boolean"@,
        JsonKind::Null => "null"@,
    }
}

pub open spec fn count_kind_prefix(items: Seq<JsonNode>, k: JsonKind, n: int) -> nat
    decreases n,
{
    if n <= 0 {
        0
    } else if kind_of(items[n - 1]) == k {
        count_kind_prefix(items, k, n - 1) + 1
    } else {
        count_kind_prefix(items, k, n - 1)
    }
}

/// The number of items of `items` of type `k`.
pub open spec fn count_kind(items: Seq<JsonNode>, k: JsonKind) -> nat {
    count_kind_prefix(items, k, items.len() as int)
}

/// Structural facts about a JSON document.
#[derive(Debug)]
pub struct JsonMetadata {
    /// The type of the top-level value.
    pub value_type: String,
    /// For an object, its keys in order.
    pub keys: Option<Vec<String>>,
    /// For an array, its length.
    pub length: Option<usize>,
    /// For an array, how many items are of each type.
    pub element_types: Option<ElementTypeCounts>,
    /// How deeply arrays and objects nest, saturated at the largest `usize`.
    pub max_depth: usize,
}

fn json_kind(v: &JsonNode) -> (r: &'static str)
    ensures
        r@ == kind_name(kind_of(*v)),
{
    match v {
        JsonNode::Object(_) => "object",
        JsonNode::Array(_) => "array",
        JsonNode::Str(_) => "string",
        JsonNode::Number(_) => "number",
        JsonNode::Bool(_) => "boolean",
        JsonNode::Null => "null",
    }
}

fn count_element_types(items: &Vec<JsonNode>) -> (r: ElementTypeCounts)
    ensures
        r.string == count_kind(items@, JsonKind::Str),
        r.number == count_kind(items@, JsonKind::Number),
        r.boolean == count_kind(items@, JsonKind::Bool),
        r.null == count_kind(items@, JsonKind::Null),
        r.array == count_kind(items@, JsonKind::Array),
        r.object == count_kind(items@, JsonKind::Object),
{
    let mut c = ElementTypeCounts { string: 0, number: 0, boolean: 0, null: 0, array: 0, object: 0 };
    let mut i: usize = 0;
    while i < items.len()
        invariant
            i <= items@.len(),
            c.string == count_kind_prefix(items@, JsonKind::Str, i as int),
            c.number == count_kind_prefix(items@, JsonKind::Number, i as int),
            c.boolean == count_kind_prefix(items@, JsonKind::Bool, i as int),
            c.null == count_kind_prefix(items@, JsonKind::Null, i as int),
            c.array == count_kind_prefix(items@, JsonKind::Array, i as int),
            c.object == count_kind_prefix(items@, JsonKind::Object, i as int),
            c.string <= i && c.number <= i && c.boolean <= i,
            c.null <= i && c.array <= i && c.object <= i,
        decreases items@.len() - i,
    {
        match &items[i] {
            JsonNode::Str(_) => c.string = c.string + 1,
            JsonNode::Number(_) => c.number = c.number + 1,
            JsonNode::Bool(_) => c.boolean = c.boolean + 1,
            JsonNode::Null => c.null = c.null + 1,
            JsonNode::Array(_) => c.array = c.array + 1,
            JsonNode::Object(_) => c.object = c.object + 1,
        }
        i = i + 1;
    }
    c
}

impl JsonProcessor {
    /// How deeply arrays and objects nest in `value`.
    pub fn calculate_depth(&self, value: &JsonNode) -> (r: usize)
        ensures
            r == capped_depth(json_depth(*value)),
        decreases *value,
    {
        match value {
            JsonNode::Array(items) => {
                let ghost depths = item_depths(items@);
                let mut best: usize = 0;
                let mut i: usize = 0;
                while i < items.len()
                    invariant
                        depths == item_depths(items@),
                        *value is Array && (*value)->Array_0 == *items,
                        i <= items@.len(),
                        best == capped_depth(max_prefix(depths, i as int)),
                    decreases items@.len() - i,
                {
                    proof {
                        assert(decreases_to!(*value => (*value)->Array_0));
                        assert(decreases_to!(*items => items@));
                        assert(decreases_to!(items@ => items@[i as int]));
                    }
                    let d = self.calculate_depth(&items[i]);
                    assert(depths[i as int] == json_depth(items@[i as int]));
                    if d > best {
                        best = d;
                    }
                    i = i + 1;
                }
                if best == usize::MAX {
                    usize::MAX
                } else {
                    best + 1
                }
            },
            JsonNode::Object(members) => {
                let ghost depths = member_depths(members@);
                let mut best: usize = 0;
                let mut i: usize = 0;
                while i < members.len()
                    invariant
                        depths == member_depths(members@),
                        *value is Object && (*value)->Object_0 == *members,
                        i <= members@.len(),
                        best == capped_depth(max_prefix(depths, i as int)),
                    decreases members@.len() - i,
                {
                    proof {
                        assert(decreases_to!(*value => (*value)->Object_0));
                        assert(decreases_to!(*members => members@));
                        assert(decreases_to!(members@ => members@[i as int]));
                        assert(decreases_to!(members@[i as int] => members@[i as int].1));
                    }
                    let d = self.calculate_depth(&members[i].1);
                    assert(depths[i as int] == json_depth(members@[i as int].1));
                    if d > best {
                        best = d;
                    }
                    i = i + 1;
                }
                if best == usize::MAX {
                    usize::MAX
                } else {
                    best + 1
                }
            },
            _ => 0,
        }
    }

    /// The type, keys or length and element types, and nesting depth of a JSON document.
    pub fn extract_json_metadata(&self, value: &JsonNode) -> (r: JsonMetadata)
        ensures
            r.value_type@ == kind_name(kind_of(*value)),
            r.max_depth == capped_depth(json_depth(*value)),
            match *value {
                JsonNode::Object(members) => {
                    &&& r.keys is Some
                    &&& r.keys->0@.len() == members@.len()
                    &&& forall|j: int| 0 <= j < members@.len() ==> (#[trigger] r.keys->0@[j])@ == members@[j].0@
                    &&& r.length is None
                    &&& r.element_types is None
                },
                JsonNode::Array(items) => {
                    &&& r.keys is None
                    &&& r.length == Some(items@.len() as usize)
                    &&& r.element_types is Some
                    &&& r.element_types->0.string == count_kind(items@, JsonKind::Str)
                    &&& r.element_types->0.number == count_kind(items@, JsonKind::Number)
                    &&& r.element_types->0.boolean == count_kind(items@, JsonKind::Bool)
                    &&& r.element_types->0.null == count_kind(items@, JsonKind::Null)
                    &&& r.element_types->0.array == count_kind(items@, JsonKind::Array)
                    &&& r.element_types->0.object == count_kind(items@, JsonKind::Object)
                },
                _ => r.keys is None && r.length is None && r.element_types is None,
            },
    {
        let value_type = json_kind(value).to_owned();
        let max_depth = self.calculate_depth(value);
        match value {
            JsonNode::Object(members) => {
                let mut keys: Vec<String> = Vec::new();
                let mut i: usize = 0;
                while i < members.len()
                    invariant
                        i <= members@.len(),
                        keys@.len() == i,
                        forall|j: int| 0 <= j < i ==> (#[trigger] keys@[j])@ == members@[j].0@,
                    decreases members@.len() - i,
                {
                    keys.push(members[i].0.clone());
                    i = i + 1;
                }
                JsonMetadata { value_type, keys: Some(keys), length: None, element_types: None, max_depth }
            },
            JsonNode::Array(items) => JsonMetadata {
                value_type,
                keys: None,
                length: Some(items.len()),
                element_types: Some(count_element_types(items)),
                max_depth,
            },
            _ => JsonMetadata { value_type, keys: None, length: None, element_types: None, max_depth },
        }
    }
}

} // verus!
