//! JSON values as the logic of this library reads them.
//!
//! A `serde_json::Value` is opaque to the verifier. What the logic reads of it
//! is the node that each JSON pointer reaches (`Value::pointer`), so a value is
//! modelled by the map from pointer strings to the node found there. A field
//! lookup `v.get("key")` is written here as the pointer `"/key"`: for keys
//! that are not array indices and hold neither `/` nor `~` (all the keys this
//! library reads) the two find the same node.
use vstd::prelude::*;

verus! {

#[verifier::external_type_specification]
#[verifier::external_body]
pub struct ExJsonValue(serde_json::Value);

/// The kind of node that a JSON pointer reaches, with the scalar it holds.
pub enum JsonNode {
    Null,
    Bool(bool),
    PosInt(u64),
    NegInt(i64),
    /// A float, by its bits (`f64::to_bits`).
    Float(u64),
    Str(Seq<char>),
    Array,
    Object,
}

/// The nodes of a JSON value, keyed by every JSON pointer string that
/// `serde_json::Value::pointer` resolves on it, each with the scalar it holds
/// (integer, float bits, string or boolean). The map determines the value.
pub uninterp spec fn json_nodes(v: serde_json::Value) -> Map<Seq<char>, JsonNode>;

/// What `serde_json::from_str` reads from a text: the nodes of the JSON
/// document, or the text of the error where the text is not JSON.
pub uninterp spec fn parsed_json(text: Seq<char>) -> Result<Map<Seq<char>, JsonNode>, Seq<char>>;

/// The node reached by a pointer, if any.
pub open spec fn node_at(nodes: Map<Seq<char>, JsonNode>, path: Seq<char>) -> Option<JsonNode> {
    if nodes.dom().contains(path) {
        Some(nodes[path])
    } else {
        None
    }
}

/// The node a value itself is (the empty pointer).
pub open spec fn root_node(nodes: Map<Seq<char>, JsonNode>) -> Option<JsonNode> {
    node_at(nodes, Seq::empty())
}

/// A pointer string that may reach a node below a given one: empty, or
/// starting with `/`.
pub open spec fn is_pointer(q: Seq<char>) -> bool {
    q.len() == 0 || q[0] == '/'
}

/// The nodes below `path`: those of `whole` whose pointer extends `path`,
/// keyed by the rest of the pointer.
pub open spec fn sub_nodes(whole: Map<Seq<char>, JsonNode>, path: Seq<char>) -> Map<Seq<char>, JsonNode> {
    Map::new(|q: Seq<char>| is_pointer(q) && whole.dom().contains(path + q), |q: Seq<char>| whole[path + q])
}

/// `sub` holds the nodes found below `path` in `whole`.
pub open spec fn subtree_at(
    whole: Map<Seq<char>, JsonNode>,
    path: Seq<char>,
    sub: Map<Seq<char>, JsonNode>,
) -> bool {
    forall|q: Seq<char>| is_pointer(q) ==> #[trigger] node_at(sub, q) == node_at(whole, path + q)
}

pub open spec fn node_u64(n: Option<JsonNode>) -> Option<u64> {
    match n {
        Some(JsonNode::PosInt(v)) => Some(v),
        _ => None,
    }
}

pub open spec fn node_i64(n: Option<JsonNode>) -> Option<i64> {
    match n {
        Some(JsonNode::PosInt(v)) => if v <= i64::MAX {
            Some(v as i64)
        } else {
            None
        },
        Some(JsonNode::NegInt(v)) => Some(v),
        _ => None,
    }
}

pub open spec fn node_str(n: Option<JsonNode>) -> Option<Seq<char>> {
    match n {
        Some(JsonNode::Str(s)) => Some(s),
        _ => None,
    }
}

pub open spec fn node_is_number(n: Option<JsonNode>) -> bool {
    match n {
        Some(JsonNode::PosInt(_)) | Some(JsonNode::NegInt(_)) | Some(JsonNode::Float(_)) => true,
        _ => false,
    }
}

/// The view of an optional string.
pub open spec fn opt_str_view(s: Option<String>) -> Option<Seq<char>> {
    match s {
        Some(t) => Some(t@),
        None => None,
    }
}

/// Parses a text as a JSON document (`serde_json::from_str`), the error
/// turned into its message (`to_string`).
/// Claims: the result is a value exactly when `parsed_json` gives nodes, and
/// then the value has those nodes; otherwise it is the message `parsed_json`
/// gives.
#[verifier::external_body]
pub fn parse_json(text: &str) -> (res: Result<serde_json::Value, String>)
    ensures
        parsed_json(text@) == match res {
            Ok(v) => Ok::<Map<Seq<char>, JsonNode>, Seq<char>>(json_nodes(v)),
            Err(e) => Err::<Map<Seq<char>, JsonNode>, Seq<char>>(e@),
        },
{
    serde_json::from_str::<serde_json::Value>(text).map_err(|e| e.to_string())
}

/// Looks a pointer up (`serde_json::Value::pointer`).
/// Claims: a node is found exactly where the value has one at that pointer,
/// and the nodes of the one found are those below the pointer (a pointer `q`
/// resolves on it as `path` followed by `q` resolves on the whole, for `q`
/// empty or starting with `/`).
#[verifier::external_body]
pub fn json_pointer<'a>(v: &'a serde_json::Value, path: &str) -> (res: Option<&'a serde_json::Value>)
    ensures
        res is Some <==> json_nodes(*v).dom().contains(path@),
        res matches Some(r) ==> json_nodes(*r) == sub_nodes(json_nodes(*v), path@),
{
    v.pointer(path)
}

pub proof fn lemma_sub_nodes_subtree(whole: Map<Seq<char>, JsonNode>, path: Seq<char>)
    ensures
        subtree_at(whole, path, sub_nodes(whole, path)),
{
}

/// `serde_json::Value::as_u64`. Claims: the result is the integer held by a
/// non-negative integer node, and `None` on every other node.
#[verifier::external_body]
pub fn json_as_u64(v: &serde_json::Value) -> (res: Option<u64>)
    ensures
        res == node_u64(root_node(json_nodes(*v))),
{
    v.as_u64()
}

/// `serde_json::Value::as_i64`. Claims: the result is the integer held by an
/// integer node that fits in `i64`, and `None` on every other node.
#[verifier::external_body]
pub fn json_as_i64(v: &serde_json::Value) -> (res: Option<i64>)
    ensures
        res == node_i64(root_node(json_nodes(*v))),
{
    v.as_i64()
}

/// `serde_json::Value::as_str`, copied into a `String`. Claims: the result is
/// the text of a string node, and `None` on every other node.
#[verifier::external_body]
pub fn json_as_str(v: &serde_json::Value) -> (res: Option<String>)
    ensures
        opt_str_view(res) == node_str(root_node(json_nodes(*v))),
{
    v.as_str().map(String::from)
}

/// `serde_json::Value::is_number`. Claims: true exactly on integer and float
/// nodes.
#[verifier::external_body]
pub fn json_is_number(v: &serde_json::Value) -> (res: bool)
    ensures
        res == node_is_number(root_node(json_nodes(*v))),
{
    v.is_number()
}

/// `Clone::clone` of a `serde_json::Value`. Claims: the copy has the same nodes.
#[verifier::external_body]
pub fn json_clone(v: &serde_json::Value) -> (res: serde_json::Value)
    ensures
        json_nodes(res) == json_nodes(*v),
{
    v.clone()
}

proof fn lemma_root_of_subtree(whole: Map<Seq<char>, JsonNode>, path: Seq<char>, sub: Map<Seq<char>, JsonNode>)
    requires
        subtree_at(whole, path, sub),
    ensures
        root_node(sub) == node_at(whole, path),
{
    let e = Seq::<char>::empty();
    assert(is_pointer(e));
    assert(node_at(sub, e) == node_at(whole, path + e));
    assert(path + e =~= path);
}

/// The non-negative integer at a pointer.
pub fn u64_at(v: &serde_json::Value, path: &str) -> (res: Option<u64>)
    ensures
        res == node_u64(node_at(json_nodes(*v), path@)),
{
    match json_pointer(v, path) {
        Some(n) => {
            proof {
                lemma_sub_nodes_subtree(json_nodes(*v), path@);
                lemma_root_of_subtree(json_nodes(*v), path@, json_nodes(*n));
            }
            json_as_u64(n)
        },
        None => None,
    }
}

/// The integer at a pointer, where it fits in `i64`.
pub fn i64_at(v: &serde_json::Value, path: &str) -> (res: Option<i64>)
    ensures
        res == node_i64(node_at(json_nodes(*v), path@)),
{
    match json_pointer(v, path) {
        Some(n) => {
            proof {
                lemma_sub_nodes_subtree(json_nodes(*v), path@);
                lemma_root_of_subtree(json_nodes(*v), path@, json_nodes(*n));
            }
            json_as_i64(n)
        },
        None => None,
    }
}

/// The string at a pointer.
pub fn str_at(v: &serde_json::Value, path: &str) -> (res: Option<String>)
    ensures
        opt_str_view(res) == node_str(node_at(json_nodes(*v), path@)),
{
    match json_pointer(v, path) {
        Some(n) => {
            proof {
                lemma_sub_nodes_subtree(json_nodes(*v), path@);
                lemma_root_of_subtree(json_nodes(*v), path@, json_nodes(*n));
            }
            json_as_str(n)
        },
        None => None,
    }
}

/// The texts of a list of pointers.
pub open spec fn path_views(paths: Seq<&str>) -> Seq<Seq<char>> {
    paths.map_values(|p: &str| p@)
}

/// Borrows each of a list of owned pointers.
pub fn as_strs<'a>(v: &'a Vec<String>) -> (res: Vec<&'a str>)
    ensures
        path_views(res@) == v@.map_values(|p: String| p@),
{
    let mut res: Vec<&'a str> = Vec::new();
    let mut i: usize = 0;
    while i < v.len()
        invariant
            i <= v@.len(),
            res@.len() == i,
            forall|j: int| 0 <= j < i ==> (#[trigger] res@[j])@ == v@[j]@,
        decreases v@.len() - i,
    {
        res.push(v[i].as_str());
        i += 1;
    }
    assert(path_views(res@) =~= v@.map_values(|p: String| p@));
    res
}

/// The first of `paths`, from index `i` on, at which a non-negative integer
/// is found, and that integer.
pub open spec fn first_u64(nodes: Map<Seq<char>, JsonNode>, paths: Seq<Seq<char>>, i: int) -> Option<u64>
    decreases paths.len() - i,
{
    if 0 <= i < paths.len() {
        match node_u64(node_at(nodes, paths[i])) {
            Some(n) => Some(n),
            None => first_u64(nodes, paths, i + 1),
        }
    } else {
        None
    }
}

/// As `first_u64`, for integers that fit in `i64`.
pub open spec fn first_i64(nodes: Map<Seq<char>, JsonNode>, paths: Seq<Seq<char>>, i: int) -> Option<i64>
    decreases paths.len() - i,
{
    if 0 <= i < paths.len() {
        match node_i64(node_at(nodes, paths[i])) {
            Some(n) => Some(n),
            None => first_i64(nodes, paths, i + 1),
        }
    } else {
        None
    }
}

/// The index of the first of `paths`, from index `i` on, at which a number
/// (integer or float) is found.
pub open spec fn first_number_index(nodes: Map<Seq<char>, JsonNode>, paths: Seq<Seq<char>>, i: int) -> Option<int>
    decreases paths.len() - i,
{
    if 0 <= i < paths.len() {
        if node_is_number(node_at(nodes, paths[i])) {
            Some(i)
        } else {
            first_number_index(nodes, paths, i + 1)
        }
    } else {
        None
    }
}

/// The first non-negative integer found along `paths`, tried in order.
pub fn read_u64(value: &serde_json::Value, paths: &[&str]) -> (res: Option<u64>)
    ensures
        res == first_u64(json_nodes(*value), path_views(paths@), 0),
{
    let mut i: usize = 0;
    while i < paths.len()
        invariant
            i <= paths@.len(),
            first_u64(json_nodes(*value), path_views(paths@), 0) == first_u64(json_nodes(*value), path_views(paths@), i as int),
        decreases paths@.len() - i,
    {
        if let Some(n) = u64_at(value, paths[i]) {
            return Some(n);
        }
        i += 1;
    }
    None
}

/// The first integer (fitting in `i64`) found along `paths`, tried in order.
pub fn read_i64(value: &serde_json::Value, paths: &[&str]) -> (res: Option<i64>)
    ensures
        res == first_i64(json_nodes(*value), path_views(paths@), 0),
{
    let mut i: usize = 0;
    while i < paths.len()
        invariant
            i <= paths@.len(),
            first_i64(json_nodes(*value), path_views(paths@), 0) == first_i64(json_nodes(*value), path_views(paths@), i as int),
        decreases paths@.len() - i,
    {
        if let Some(n) = i64_at(value, paths[i]) {
            return Some(n);
        }
        i += 1;
    }
    None
}

/// The first number found along `paths`, tried in order; the caller reads it
/// as a float.
pub fn read_number<'a>(value: &'a serde_json::Value, paths: &[&str]) -> (res: Option<&'a serde_json::Value>)
    ensures
        res is Some <==> first_number_index(json_nodes(*value), path_views(paths@), 0) is Some,
        res matches Some(r) ==> json_nodes(*r) == sub_nodes(
            json_nodes(*value),
            path_views(paths@)[first_number_index(json_nodes(*value), path_views(paths@), 0).unwrap()],
        ),
{
    let mut i: usize = 0;
    while i < paths.len()
        invariant
            i <= paths@.len(),
            first_number_index(json_nodes(*value), path_views(paths@), 0) == first_number_index(
                json_nodes(*value),
                path_views(paths@),
                i as int,
            ),
        decreases paths@.len() - i,
    {
        if let Some(n) = json_pointer(value, paths[i]) {
            proof {
                lemma_sub_nodes_subtree(json_nodes(*value), paths@[i as int]@);
                lemma_root_of_subtree(json_nodes(*value), paths@[i as int]@, json_nodes(*n));
            }
            if json_is_number(n) {
                return Some(n);
            }
        }
        i += 1;
    }
    None
}

} // verus!
