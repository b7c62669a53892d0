//! A plain tree model of one YAML document.
//!
//! The outside crate `serde_yaml` turns YAML text into its own
//! `serde_yaml::Value`, which the verifier treats as opaque.  This module
//! converts such a value, bounded in depth, into the library's own
//! [`YamlNode`], whose contents the rest of the library reads and reasons
//! about.  Everything downstream of the conversion is verified against
//! the node tree.

use vstd::prelude::*;

verus! {

/// A YAML value as the library sees it: scalars, lists and mappings with
/// string keys.  Anything else (non-integer numbers, tagged values,
/// mappings with non-string keys, or nesting deeper than the conversion
/// bound) is collapsed to `Other`.
#[derive(Debug, PartialEq, Eq)]
pub enum YamlNode {
    /// A YAML null.
    Null,
    /// A YAML boolean.
    Bool(bool),
    /// A YAML integer that fits in `i64`.
    Int(i64),
    /// A YAML string.
    Str(String),
    /// A YAML sequence.
    List(Vec<YamlNode>),
    /// A YAML mapping whose keys are all strings, in document order.
    Mapping(Vec<(String, YamlNode)>),
    /// Any value shape the library does not model.
    Other,
}

/// How deep a document tree the conversion follows; deeper subtrees
/// become `YamlNode::Other`.  Rule and catalog documents are at most
/// five levels deep, so the bound is generous.
pub const MAX_YAML_DEPTH: u64 = 64;

#[verifier::external_type_specification]
#[verifier::external_body]
pub struct ExYamlValue(serde_yaml::Value);

#[verifier::external_type_specification]
#[verifier::external_body]
pub struct ExYamlMapping(serde_yaml::Mapping);

/// The node tree that YAML text parses into, or `None` where the text is
/// not well-formed YAML.  What a text parses into depends on the text
/// alone, so the result has a name rather than a statement.
pub uninterp spec fn spec_yaml_tree(s: Seq<char>) -> Option<YamlNode>;

/// Relies on serde_yaml::from_str: `Some` on well-formed YAML text,
/// `None` where the text cannot be parsed, and the same value for the
/// same text every time.  The body converts the parsed value into the
/// library's node tree through [`node_from_value`], which is itself
/// deterministic, so the whole result is a function of the text.
#[verifier::external_body]
fn yaml_tree_of(s: &str) -> (r: Option<YamlNode>)
    ensures
        r == spec_yaml_tree(s@),
{
    match serde_yaml::from_str::<serde_yaml::Value>(s) {
        Ok(v) => Some(node_from_value(&v, MAX_YAML_DEPTH)),
        Err(_) => None,
    }
}

/// Relies on serde_yaml::Value::as_str: the string payload, if the value
/// is a string.
pub assume_specification [ serde_yaml::Value::as_str ](v: &serde_yaml::Value) -> Option<&str>;

/// Relies on serde_yaml::Value::as_i64: the integer payload, if the
/// value is an integer representable as `i64`.
pub assume_specification [ serde_yaml::Value::as_i64 ](v: &serde_yaml::Value) -> Option<i64>;

/// Relies on serde_yaml::Value::as_bool: the boolean payload, if the
/// value is a boolean.
pub assume_specification [ serde_yaml::Value::as_bool ](v: &serde_yaml::Value) -> Option<bool>;

/// Relies on serde_yaml::Value::is_null: whether the value is a null.
pub assume_specification [ serde_yaml::Value::is_null ](v: &serde_yaml::Value) -> bool;

/// Relies on serde_yaml::Value::as_sequence: the element vector, if the
/// value is a sequence.
pub assume_specification [ serde_yaml::Value::as_sequence ](v: &serde_yaml::Value) -> Option<&Vec<serde_yaml::Value>>;

/// Relies on serde_yaml::Value::as_mapping: the mapping payload, if the
/// value is a mapping.
pub assume_specification [ serde_yaml::Value::as_mapping ](v: &serde_yaml::Value) -> Option<&serde_yaml::Mapping>;

/// Relies on serde_yaml::Mapping::iter (and serde_yaml::Value::clone):
/// the mapping's key/value pairs, in the document's own order.
#[verifier::external_body]
fn mapping_entries(m: &serde_yaml::Mapping) -> (r: Vec<(serde_yaml::Value, serde_yaml::Value)>) {
    m.iter().map(|(k, v)| (k.clone(), v.clone())).collect()
}

/// Converts an opaque parsed value into the library's node tree,
/// following at most `depth` levels.  [`yaml_tree_of`] runs this right
/// after the parse; it reads the value only through the accessors
/// declared above and builds the tree in document order, so its result
/// is a function of the parsed value.
fn node_from_value(v: &serde_yaml::Value, depth: u64) -> YamlNode
    decreases depth,
{
    if depth == 0 {
        return YamlNode::Other;
    }
    match v.as_str() {
        Some(s) => {
            return YamlNode::Str(s.to_owned());
        },
        None => {},
    }
    match v.as_i64() {
        Some(n) => {
            return YamlNode::Int(n);
        },
        None => {},
    }
    match v.as_bool() {
        Some(b) => {
            return YamlNode::Bool(b);
        },
        None => {},
    }
    match v.as_sequence() {
        Some(elems) => {
            let mut items: Vec<YamlNode> = Vec::new();
            let mut i: usize = 0;
            while i < elems.len()
                invariant
                    depth >= 1,
                decreases elems.len() - i,
            {
                items.push(node_from_value(&elems[i], depth - 1));
                i = i + 1;
            }
            return YamlNode::List(items);
        },
        None => {},
    }
    match v.as_mapping() {
        Some(m) => {
            let pairs = mapping_entries(m);
            let mut entries: Vec<(String, YamlNode)> = Vec::new();
            let mut i: usize = 0;
            while i < pairs.len()
                invariant
                    depth >= 1,
                decreases pairs.len() - i,
            {
                match pairs[i].0.as_str() {
                    Some(k) => {
                        let key = k.to_owned();
                        entries.push((key, node_from_value(&pairs[i].1, depth - 1)));
                    },
                    None => {
                        return YamlNode::Other;
                    },
                }
                i = i + 1;
            }
            return YamlNode::Mapping(entries);
        },
        None => {},
    }
    if v.is_null() {
        return YamlNode::Null;
    }
    YamlNode::Other
}

/// Parses YAML text into the library's node tree; `None` exactly where
/// the text is not well-formed YAML.
pub fn parse_yaml_str(s: &str) -> (r: Option<YamlNode>)
    ensures
        r == spec_yaml_tree(s@),
{
    yaml_tree_of(s)
}

/// The value under `key` in a mapping's entry list: the first entry with
/// that key, or `None`.
pub open spec fn node_map_get(entries: Seq<(String, YamlNode)>, key: Seq<char>) -> Option<YamlNode>
    decreases entries.len(),
{
    if entries.len() == 0 {
        None
    } else if entries[0].0@ == key {
        Some(entries[0].1)
    } else {
        node_map_get(entries.drop_first(), key)
    }
}

/// Looks `key` up in a mapping's entry list, first occurrence winning.
pub fn node_map_lookup<'a>(entries: &'a Vec<(String, YamlNode)>, key: &str) -> (r: Option<
    &'a YamlNode,
>)
    ensures
        match r {
            Some(n) => node_map_get(entries@, key@) == Some(*n),
            None => node_map_get(entries@, key@) is None,
        },
{
    let k = key.to_owned();
    let mut i: usize = 0;
    proof {
        assert(entries@.skip(0) =~= entries@);
    }
    while i < entries.len()
        invariant
            0 <= i <= entries@.len(),
            k@ == key@,
            node_map_get(entries@, key@) == node_map_get(entries@.skip(i as int), key@),
        decreases entries@.len() - i,
    {
        proof {
            assert(entries@.skip(i as int)[0] == entries@[i as int]);
            assert(entries@.skip(i as int).drop_first() =~= entries@.skip(i as int + 1));
        }
        if entries[i].0 == k {
            proof {
                assert(node_map_get(entries@.skip(i as int), key@) == Some(
                    entries@[i as int].1,
                ));
            }
            return Some(&entries[i].1);
        }
        proof {
            assert(node_map_get(entries@.skip(i as int), key@) == node_map_get(
                entries@.skip(i as int + 1),
                key@,
            ));
        }
        i = i + 1;
    }
    proof {
        assert(entries@.skip(entries@.len() as int).len() == 0);
    }
    None
}

} // verus!
