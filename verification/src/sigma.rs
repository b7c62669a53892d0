//! The typed model of one Sigma rule and its validation from a YAML
//! document tree.

use crate::str_eq;
use crate::yaml::YamlNode;
use crate::ParsingError;
use vstd::prelude::*;
use vstd::string::StringExecFns;

verus! {

/// The maturity of a rule; each value is written in YAML as its
/// lowercase literal.
#[derive(Debug, PartialEq, Eq, Structural, Clone, Copy)]
pub enum SigmaStatus {
    Stable,
    Test,
    Experimental,
    Deprecated,
    Unsupported,
}

/// The severity of a rule; each value is written in YAML as its
/// lowercase literal.
#[derive(Debug, PartialEq, Eq, Structural, Clone, Copy)]
pub enum SigmaLevel {
    Critical,
    High,
    Medium,
    Low,
    Informational,
}

/// The literal under which a status is written.
pub open spec fn spec_status_literal(s: SigmaStatus) -> Seq<char> {
    match s {
        SigmaStatus::Stable => "stable"@,
        SigmaStatus::Test => "test"@,
        SigmaStatus::Experimental => "experimental"@,
        SigmaStatus::Deprecated => "deprecated"@,
        SigmaStatus::Unsupported => "unsupported"@,
    }
}

/// The status a literal names, if any.
pub open spec fn spec_status_from_literal(l: Seq<char>) -> Option<SigmaStatus> {
    if l == "test"@ {
        Some(SigmaStatus::Test)
    } else if l == "stable"@ {
        Some(SigmaStatus::Stable)
    } else if l == "experimental"@ {
        Some(SigmaStatus::Experimental)
    } else if l == "deprecated"@ {
        Some(SigmaStatus::Deprecated)
    } else if l == "unsupported"@ {
        Some(SigmaStatus::Unsupported)
    } else {
        None
    }
}

/// The literal under which a level is written.
pub open spec fn spec_level_literal(s: SigmaLevel) -> Seq<char> {
    match s {
        SigmaLevel::Critical => "critical"@,
        SigmaLevel::High => "high"@,
        SigmaLevel::Medium => "medium"@,
        SigmaLevel::Low => "low"@,
        SigmaLevel::Informational => "informational"@,
    }
}

/// The level a literal names, if any.
pub open spec fn spec_level_from_literal(l: Seq<char>) -> Option<SigmaLevel> {
    if l == "informational"@ {
        Some(SigmaLevel::Informational)
    } else if l == "low"@ {
        Some(SigmaLevel::Low)
    } else if l == "medium"@ {
        Some(SigmaLevel::Medium)
    } else if l == "high"@ {
        Some(SigmaLevel::High)
    } else if l == "critical"@ {
        Some(SigmaLevel::Critical)
    } else {
        None
    }
}

impl SigmaStatus {
    /// The lowercase literal this status serializes to.
    pub fn literal(&self) -> (r: String)
        ensures
            r@ == spec_status_literal(*self),
    {
        match self {
            SigmaStatus::Stable => "stable".to_owned(),
            SigmaStatus::Test => "test".to_owned(),
            SigmaStatus::Experimental => "experimental".to_owned(),
            SigmaStatus::Deprecated => "deprecated".to_owned(),
            SigmaStatus::Unsupported => "unsupported".to_owned(),
        }
    }

    /// Parses a status from its lowercase literal; any other literal is
    /// rejected.
    pub fn from_literal(s: &str) -> (r: Option<SigmaStatus>)
        ensures
            r == spec_status_from_literal(s@),
    {
        if str_eq(s, "test") {
            Some(SigmaStatus::Test)
        } else if str_eq(s, "stable") {
            Some(SigmaStatus::Stable)
        } else if str_eq(s, "experimental") {
            Some(SigmaStatus::Experimental)
        } else if str_eq(s, "deprecated") {
            Some(SigmaStatus::Deprecated)
        } else if str_eq(s, "unsupported") {
            Some(SigmaStatus::Unsupported)
        } else {
            None
        }
    }
}

impl SigmaLevel {
    /// The lowercase literal this level serializes to.
    pub fn literal(&self) -> (r: String)
        ensures
            r@ == spec_level_literal(*self),
    {
        match self {
            SigmaLevel::Critical => "critical".to_owned(),
            SigmaLevel::High => "high".to_owned(),
            SigmaLevel::Medium => "medium".to_owned(),
            SigmaLevel::Low => "low".to_owned(),
            SigmaLevel::Informational => "informational".to_owned(),
        }
    }

    /// Parses a level from its lowercase literal; any other literal is
    /// rejected.
    pub fn from_literal(s: &str) -> (r: Option<SigmaLevel>)
        ensures
            r == spec_level_from_literal(s@),
    {
        if str_eq(s, "informational") {
            Some(SigmaLevel::Informational)
        } else if str_eq(s, "low") {
            Some(SigmaLevel::Low)
        } else if str_eq(s, "medium") {
            Some(SigmaLevel::Medium)
        } else if str_eq(s, "high") {
            Some(SigmaLevel::High)
        } else if str_eq(s, "critical") {
            Some(SigmaLevel::Critical)
        } else {
            None
        }
    }
}

/// Serializing a status to its literal and re-parsing the literal yields
/// the original value, for every member of the enumeration.
pub proof fn lemma_status_literal_round_trip(s: SigmaStatus)
    ensures
        spec_status_from_literal(spec_status_literal(s)) == Some(s),
{
    reveal_strlit("stable");
    reveal_strlit("test");
    reveal_strlit("experimental");
    reveal_strlit("deprecated");
    reveal_strlit("unsupported");
    match s {
        SigmaStatus::Stable => {
            assert(spec_status_literal(s) == "stable"@);
            assert("stable"@ != "test"@);
        },
        SigmaStatus::Test => {
            assert(spec_status_literal(s) == "test"@);
        },
        SigmaStatus::Experimental => {
            assert(spec_status_literal(s) == "experimental"@);
            assert("experimental"@ != "test"@ && "experimental"@ != "stable"@);
        },
        SigmaStatus::Deprecated => {
            assert(spec_status_literal(s) == "deprecated"@);
            assert("deprecated"@ != "test"@ && "deprecated"@ != "stable"@ && "deprecated"@
                != "experimental"@);
        },
        SigmaStatus::Unsupported => {
            assert(spec_status_literal(s) == "unsupported"@);
            assert("unsupported"@ != "test"@ && "unsupported"@ != "stable"@ && "unsupported"@
                != "experimental"@ && "unsupported"@ != "deprecated"@);
        },
    }
}

/// Serializing a level to its literal and re-parsing the literal yields
/// the original value, for every member of the enumeration.
pub proof fn lemma_level_literal_round_trip(s: SigmaLevel)
    ensures
        spec_level_from_literal(spec_level_literal(s)) == Some(s),
{
    reveal_strlit("critical");
    reveal_strlit("high");
    reveal_strlit("medium");
    reveal_strlit("low");
    reveal_strlit("informational");
    match s {
        SigmaLevel::Informational => {
            assert(spec_level_literal(s) == "informational"@);
        },
        SigmaLevel::Low => {
            assert(spec_level_literal(s) == "low"@);
            assert("low"@ != "informational"@);
        },
        SigmaLevel::Medium => {
            assert(spec_level_literal(s) == "medium"@);
            assert("medium"@ != "informational"@ && "medium"@ != "low"@);
        },
        SigmaLevel::High => {
            assert(spec_level_literal(s) == "high"@);
            assert("high"@ != "informational"@ && "high"@ != "low"@ && "high"@ != "medium"@);
        },
        SigmaLevel::Critical => {
            assert(spec_level_literal(s) == "critical"@);
            assert("critical"@ != "informational"@ && "critical"@ != "low"@ && "critical"@
                != "medium"@ && "critical"@ != "high"@);
        },
    }
}

/// A rule's log-source selector.  An absent field means "unconstrained
/// on that axis", never "match the empty string".
#[derive(Debug, PartialEq, Eq)]
pub struct LogSource {
    pub service: Option<String>,
    pub category: Option<String>,
    pub product: Option<String>,
}

/// One value a selection matches a field against.  Non-integer numbers,
/// booleans, nulls and nested mappings are kept as `Unsupported`:
/// validation tolerates them, and clause translation reports them as a
/// recoverable error.
#[derive(Debug, PartialEq, Eq)]
pub enum FilterValue {
    /// A string, matched in quotes.
    Str(String),
    /// An integer, matched without quotes.
    Num(i64),
    /// A list of alternatives for the same field.
    List(Vec<FilterValue>),
    /// A value shape clause translation does not support.
    Unsupported,
}

/// One field/value pair of a selection.
#[derive(Debug, PartialEq, Eq)]
pub struct FieldMatch {
    pub field: String,
    pub value: FilterValue,
}

/// A named group of field/value pairs within a detection block.
#[derive(Debug, PartialEq, Eq)]
pub struct Selection {
    pub name: String,
    pub fields: Vec<FieldMatch>,
}

/// A rule's detection block: the condition expression (kept but not
/// evaluated), the optional bare search terms, and the named selections
/// in document order.
#[derive(Debug, PartialEq, Eq)]
pub struct SigmaDetecton {
    pub condition: String,
    pub keywords: Option<Vec<String>>,
    pub selections: Option<Vec<Selection>>,
}

/// One Sigma rule, as validated from a YAML document.
#[derive(Debug, PartialEq, Eq)]
pub struct SigmaRule {
    pub title: String,
    pub status: SigmaStatus,
    pub description: String,
    pub tags: Vec<String>,
    pub level: SigmaLevel,
    pub logsource: LogSource,
    pub detection: SigmaDetecton,
}

/// The keys a rule document may carry at its top level; all of them are
/// required but none may be repeated with another meaning, and anything
/// else is a schema violation.
pub open spec fn is_rule_key(k: Seq<char>) -> bool {
    ||| k == "title"@
    ||| k == "status"@
    ||| k == "description"@
    ||| k == "tags"@
    ||| k == "level"@
    ||| k == "logsource"@
    ||| k == "detection"@
}

/// The keys a log-source selector may carry.
pub open spec fn is_logsource_key(k: Seq<char>) -> bool {
    ||| k == "service"@
    ||| k == "category"@
    ||| k == "product"@
}

/// A detection key that names a selection rather than one of the two
/// fixed fields.
pub open spec fn is_selection_key(k: Seq<char>) -> bool {
    k != "condition"@ && k != "keywords"@
}

/// The string payload of a looked-up node, where there is one.
pub open spec fn as_str_node(o: Option<YamlNode>) -> Seq<char> {
    match o {
        Some(YamlNode::Str(s)) => s@,
        _ => Seq::empty(),
    }
}

/// The elements of a looked-up list node, where there is one.
pub open spec fn list_items(o: Option<YamlNode>) -> Seq<YamlNode> {
    match o {
        Some(YamlNode::List(v)) => v@,
        _ => Seq::empty(),
    }
}

/// The entries of a looked-up mapping node, where there is one.
pub open spec fn mapping_entries_of(o: Option<YamlNode>) -> Seq<(String, YamlNode)> {
    match o {
        Some(YamlNode::Mapping(v)) => v@,
        _ => Seq::empty(),
    }
}

/// The node is a list whose elements are all strings.
pub open spec fn string_list_ok(n: YamlNode) -> bool {
    n matches YamlNode::List(items) && (forall|i: int|
        0 <= i < items@.len() ==> items@[i] is Str)
}

/// `strings` holds exactly the payloads of the string nodes `items`.
pub open spec fn strings_match(strings: Seq<String>, items: Seq<YamlNode>) -> bool {
    &&& strings.len() == items.len()
    &&& forall|i: int|
        0 <= i < items.len() ==> ((#[trigger] items[i]) matches YamlNode::Str(s) && strings[i]@
            == s@)
}

/// A selector axis is either absent or a string node.
pub open spec fn axis_node_ok(o: Option<YamlNode>) -> bool {
    match o {
        None => true,
        Some(n) => n is Str,
    }
}

/// A selector axis field holds the string of its node, or is absent with
/// it.
pub open spec fn axis_matches(field: Option<String>, o: Option<YamlNode>) -> bool {
    match o {
        None => field is None,
        Some(n) => n matches YamlNode::Str(s) && field matches Some(f) && f@ == s@,
    }
}

/// A filter value stands for a scalar node: strings and integers carry
/// over, anything else is unsupported.
pub open spec fn scalar_matches(f: FilterValue, n: YamlNode) -> bool {
    match n {
        YamlNode::Str(s) => f matches FilterValue::Str(fs) && fs@ == s@,
        YamlNode::Int(i) => f == FilterValue::Num(i),
        _ => f == FilterValue::Unsupported,
    }
}

/// A filter value stands for a selection's field node: a list carries
/// its elements over as scalars, anything else as `scalar_matches`.
pub open spec fn filter_matches(f: FilterValue, n: YamlNode) -> bool {
    match n {
        YamlNode::List(items) => f matches FilterValue::List(fs) && fs@.len() == items@.len() && (
        forall|i: int| 0 <= i < items@.len() ==> #[trigger] scalar_matches(fs@[i], items@[i])),
        _ => scalar_matches(f, n),
    }
}

/// The field/value pairs of a selection stand for a mapping's entries,
/// in order.
pub open spec fn fields_match(fields: Seq<FieldMatch>, entries: Seq<(String, YamlNode)>) -> bool {
    &&& fields.len() == entries.len()
    &&& forall|i: int|
        0 <= i < entries.len() ==> fields[i].field@ == (#[trigger] entries[i]).0@ && filter_matches(
            fields[i].value,
            entries[i].1,
        )
}

/// The detection entries that name selections, in document order.
pub open spec fn selection_entries(entries: Seq<(String, YamlNode)>) -> Seq<(String, YamlNode)>
    decreases entries.len(),
{
    if entries.len() == 0 {
        Seq::empty()
    } else if is_selection_key(entries.last().0@) {
        selection_entries(entries.drop_last()).push(entries.last())
    } else {
        selection_entries(entries.drop_last())
    }
}

/// The parsed selections stand for the selection entries, in order.
pub open spec fn selections_match(sels: Seq<Selection>, entries: Seq<(String, YamlNode)>) -> bool {
    &&& sels.len() == entries.len()
    &&& forall|i: int|
        0 <= i < entries.len() ==> sels[i].name@ == (#[trigger] entries[i]).0@ && (entries[i].1
            matches YamlNode::Mapping(fs) && fields_match(sels[i].fields@, fs@))
}

/// The shape a log-source selector node must have: only the three axis
/// keys, each a string where present.
pub open spec fn logsource_ok(entries: Seq<(String, YamlNode)>) -> bool {
    &&& forall|i: int| 0 <= i < entries.len() ==> is_logsource_key((#[trigger] entries[i]).0@)
    &&& axis_node_ok(crate::yaml::node_map_get(entries, "service"@))
    &&& axis_node_ok(crate::yaml::node_map_get(entries, "category"@))
    &&& axis_node_ok(crate::yaml::node_map_get(entries, "product"@))
}

/// A parsed selector stands for a selector node's entries.
pub open spec fn logsource_matches(ls: LogSource, entries: Seq<(String, YamlNode)>) -> bool {
    &&& axis_matches(ls.service, crate::yaml::node_map_get(entries, "service"@))
    &&& axis_matches(ls.category, crate::yaml::node_map_get(entries, "category"@))
    &&& axis_matches(ls.product, crate::yaml::node_map_get(entries, "product"@))
}

/// The shape a detection node must have: a string condition, keywords a
/// list of strings where present, and every other entry a mapping.
pub open spec fn detection_ok(entries: Seq<(String, YamlNode)>) -> bool {
    &&& crate::yaml::node_map_get(entries, "condition"@) matches Some(n) && n is Str
    &&& match crate::yaml::node_map_get(entries, "keywords"@) {
        None => true,
        Some(n) => string_list_ok(n),
    }
    &&& forall|i: int|
        0 <= i < entries.len() ==> is_selection_key((#[trigger] entries[i]).0@) ==> entries[i].1
            is Mapping
}

/// The parsed keywords stand for the keywords node.
pub open spec fn keywords_match(kw: Option<Vec<String>>, o: Option<YamlNode>) -> bool {
    match o {
        None => kw is None,
        Some(n) => kw matches Some(ks) && strings_match(ks@, list_items(Some(n))),
    }
}

/// A parsed detection block stands for a detection node's entries.
pub open spec fn detection_matches(det: SigmaDetecton, entries: Seq<(String, YamlNode)>) -> bool {
    &&& det.condition@ == as_str_node(crate::yaml::node_map_get(entries, "condition"@))
    &&& keywords_match(det.keywords, crate::yaml::node_map_get(entries, "keywords"@))
    &&& match det.selections {
        None => selection_entries(entries).len() == 0,
        Some(ss) => selection_entries(entries).len() > 0 && selections_match(
            ss@,
            selection_entries(entries),
        ),
    }
}

/// The shape a whole rule document must have for validation to succeed.
pub open spec fn rule_node_ok(n: YamlNode) -> bool {
    &&& n matches YamlNode::Mapping(entries)
    &&& rule_entries_ok(entries@)
}

/// The shape a rule document's top-level entries must have.
pub open spec fn rule_entries_ok(es: Seq<(String, YamlNode)>) -> bool {
    &&& forall|i: int| 0 <= i < es.len() ==> is_rule_key((#[trigger] es[i]).0@)
    &&& crate::yaml::node_map_get(es, "title"@) matches Some(YamlNode::Str(t)) && t@.len() > 0
    &&& crate::yaml::node_map_get(es, "status"@) matches Some(YamlNode::Str(s))
        && spec_status_from_literal(s@) is Some
    &&& crate::yaml::node_map_get(es, "description"@) matches Some(YamlNode::Str(d)) && d@.len()
        > 0
    &&& crate::yaml::node_map_get(es, "tags"@) matches Some(tn) && string_list_ok(tn)
    &&& crate::yaml::node_map_get(es, "level"@) matches Some(YamlNode::Str(l))
        && spec_level_from_literal(l@) is Some
    &&& crate::yaml::node_map_get(es, "logsource"@) matches Some(YamlNode::Mapping(ls))
        && logsource_ok(ls@)
    &&& crate::yaml::node_map_get(es, "detection"@) matches Some(YamlNode::Mapping(dt))
        && detection_ok(dt@)
}

/// A parsed rule stands for a rule document's top-level entries.
pub open spec fn rule_matches_entries(rule: SigmaRule, es: Seq<(String, YamlNode)>) -> bool {
    &&& rule.title@ == as_str_node(crate::yaml::node_map_get(es, "title"@))
    &&& Some(rule.status) == spec_status_from_literal(
        as_str_node(crate::yaml::node_map_get(es, "status"@)),
    )
    &&& rule.description@ == as_str_node(crate::yaml::node_map_get(es, "description"@))
    &&& strings_match(rule.tags@, list_items(crate::yaml::node_map_get(es, "tags"@)))
    &&& Some(rule.level) == spec_level_from_literal(
        as_str_node(crate::yaml::node_map_get(es, "level"@)),
    )
    &&& logsource_matches(rule.logsource, mapping_entries_of(crate::yaml::node_map_get(es, "logsource"@)))
    &&& detection_matches(rule.detection, mapping_entries_of(crate::yaml::node_map_get(es, "detection"@)))
}

/// Converts a scalar node into a filter value; unsupported shapes are
/// kept as `Unsupported`, never rejected here.
fn scalar_from_node(n: &YamlNode) -> (f: FilterValue)
    ensures
        scalar_matches(f, *n),
{
    match n {
        YamlNode::Str(s) => FilterValue::Str(s.clone()),
        YamlNode::Int(i) => FilterValue::Num(*i),
        _ => FilterValue::Unsupported,
    }
}

/// Converts a selection's field node into a filter value.
fn filter_from_node(n: &YamlNode) -> (f: FilterValue)
    ensures
        filter_matches(f, *n),
{
    match n {
        YamlNode::List(items) => {
            let mut fs: Vec<FilterValue> = Vec::new();
            let mut i: usize = 0;
            while i < items.len()
                invariant
                    0 <= i <= items@.len(),
                    fs@.len() == i,
                    forall|j: int| 0 <= j < i ==> scalar_matches(fs@[j], items@[j]),
                decreases items@.len() - i,
            {
                fs.push(scalar_from_node(&items[i]));
                i = i + 1;
            }
            FilterValue::List(fs)
        },
        _ => scalar_from_node(n),
    }
}

/// Collects the payloads of a list of string nodes; `None` where an
/// element is not a string.
fn strings_from_nodes(items: &Vec<YamlNode>) -> (r: Option<Vec<String>>)
    ensures
        r is Some <==> (forall|i: int| 0 <= i < items@.len() ==> items@[i] is Str),
        r matches Some(v) ==> strings_match(v@, items@),
{
    let mut out: Vec<String> = Vec::new();
    let mut i: usize = 0;
    while i < items.len()
        invariant
            0 <= i <= items@.len(),
            out@.len() == i,
            forall|j: int| 0 <= j < i ==> items@[j] is Str,
            forall|j: int|
                0 <= j < i ==> ((#[trigger] items@[j]) matches YamlNode::Str(s) && out@[j]@ == s@),
        decreases items@.len() - i,
    {
        match &items[i] {
            YamlNode::Str(s) => {
                out.push(s.clone());
            },
            _ => {
                return None;
            },
        }
        i = i + 1;
    }
    Some(out)
}

/// Reads one selector axis out of a selector node's entries: absent
/// stays absent, a string carries over, anything else is rejected.
pub(crate) fn axis_from_entries(entries: &Vec<(String, YamlNode)>, key: &str) -> (r: Result<
    Option<String>,
    ParsingError,
>)
    ensures
        r is Ok <==> axis_node_ok(crate::yaml::node_map_get(entries@, key@)),
        r matches Ok(f) ==> axis_matches(f, crate::yaml::node_map_get(entries@, key@)),
        r is Err ==> r == Err::<Option<String>, ParsingError>(ParsingError::InvalidAttribute),
{
    match crate::yaml::node_map_lookup(entries, key) {
        None => Ok(None),
        Some(n) => match n {
            YamlNode::Str(s) => Ok(Some(s.clone())),
            _ => Err(ParsingError::InvalidAttribute),
        },
    }
}

/// Validates a rule's `logsource` block.
fn logsource_from_entries(entries: &Vec<(String, YamlNode)>) -> (r: Result<
    LogSource,
    ParsingError,
>)
    ensures
        r is Ok <==> logsource_ok(entries@),
        r matches Ok(ls) ==> logsource_matches(ls, entries@),
        r is Err ==> r == Err::<LogSource, ParsingError>(ParsingError::InvalidAttribute),
{
    let mut i: usize = 0;
    while i < entries.len()
        invariant
            0 <= i <= entries@.len(),
            forall|j: int| 0 <= j < i ==> is_logsource_key((#[trigger] entries@[j]).0@),
        decreases entries@.len() - i,
    {
        let k = entries[i].0.as_str();
        if !(str_eq(k, "service") || str_eq(k, "category") || str_eq(k, "product")) {
            proof {
                assert(!is_logsource_key(entries@[i as int].0@));
            }
            return Err(ParsingError::InvalidAttribute);
        }
        i = i + 1;
    }
    let service = match axis_from_entries(entries, "service") {
        Ok(f) => f,
        Err(e) => {
            return Err(e);
        },
    };
    let category = match axis_from_entries(entries, "category") {
        Ok(f) => f,
        Err(e) => {
            return Err(e);
        },
    };
    let product = match axis_from_entries(entries, "product") {
        Ok(f) => f,
        Err(e) => {
            return Err(e);
        },
    };
    Ok(LogSource { service, category, product })
}

/// Converts a selection's field mapping into field/value pairs.
fn fields_from_entries(entries: &Vec<(String, YamlNode)>) -> (r: Vec<FieldMatch>)
    ensures
        fields_match(r@, entries@),
{
    let mut out: Vec<FieldMatch> = Vec::new();
    let mut i: usize = 0;
    while i < entries.len()
        invariant
            0 <= i <= entries@.len(),
            out@.len() == i,
            forall|j: int|
                0 <= j < i ==> out@[j].field@ == (#[trigger] entries@[j]).0@ && filter_matches(
                    out@[j].value,
                    entries@[j].1,
                ),
        decreases entries@.len() - i,
    {
        let field = entries[i].0.clone();
        let value = filter_from_node(&entries[i].1);
        out.push(FieldMatch { field, value });
        i = i + 1;
    }
    out
}

/// Validates a rule's `detection` block.
fn detection_from_entries(entries: &Vec<(String, YamlNode)>) -> (r: Result<
    SigmaDetecton,
    ParsingError,
>)
    ensures
        r is Ok <==> detection_ok(entries@),
        r matches Ok(det) ==> detection_matches(det, entries@),
        r is Err ==> r == Err::<SigmaDetecton, ParsingError>(ParsingError::InvalidAttribute),
{
    let condition = match crate::yaml::node_map_lookup(entries, "condition") {
        Some(n) => match n {
            YamlNode::Str(s) => s.clone(),
            _ => {
                return Err(ParsingError::InvalidAttribute);
            },
        },
        None => {
            return Err(ParsingError::InvalidAttribute);
        },
    };
    let keywords = match crate::yaml::node_map_lookup(entries, "keywords") {
        None => None,
        Some(n) => match n {
            YamlNode::List(items) => match strings_from_nodes(items) {
                Some(v) => Some(v),
                None => {
                    return Err(ParsingError::InvalidAttribute);
                },
            },
            _ => {
                return Err(ParsingError::InvalidAttribute);
            },
        },
    };
    let mut sels: Vec<Selection> = Vec::new();
    let mut i: usize = 0;
    proof {
        assert(entries@.take(0) =~= Seq::<(String, YamlNode)>::empty());
    }
    while i < entries.len()
        invariant
            0 <= i <= entries@.len(),
            selections_match(sels@, selection_entries(entries@.take(i as int))),
            forall|j: int|
                0 <= j < i ==> is_selection_key((#[trigger] entries@[j]).0@) ==> entries@[j].1
                    is Mapping,
        decreases entries@.len() - i,
    {
        proof {
            assert(entries@.take(i as int + 1).drop_last() =~= entries@.take(i as int));
            assert(entries@.take(i as int + 1).last() == entries@[i as int]);
        }
        let k = entries[i].0.as_str();
        if str_eq(k, "condition") || str_eq(k, "keywords") {
            proof {
                assert(!is_selection_key(entries@[i as int].0@));
            }
        } else {
            proof {
                assert(is_selection_key(entries@[i as int].0@));
            }
            match &entries[i].1 {
                YamlNode::Mapping(fs) => {
                    let name = entries[i].0.clone();
                    let fields = fields_from_entries(fs);
                    proof {
                        assert(selection_entries(entries@.take(i as int + 1))
                            == selection_entries(entries@.take(i as int)).push(
                            entries@[i as int],
                        ));
                    }
                    sels.push(Selection { name, fields });
                },
                _ => {
                    return Err(ParsingError::InvalidAttribute);
                },
            }
        }
        i = i + 1;
    }
    proof {
        assert(entries@.take(entries@.len() as int) =~= entries@);
    }
    let selections = if sels.len() == 0 {
        None
    } else {
        Some(sels)
    };
    Ok(SigmaDetecton { condition, keywords, selections })
}

impl SigmaRule {
    /// Validates one YAML document tree into a rule.  Succeeds exactly
    /// on documents of the documented shape; any violation is an
    /// `InvalidAttribute` error.
    #[verifier::loop_isolation(false)]
    pub fn from_node(n: &YamlNode) -> (r: Result<SigmaRule, ParsingError>)
        ensures
            r is Ok <==> rule_node_ok(*n),
            r matches Ok(rule) ==> rule_matches_entries(rule, mapping_entries_of(Some(*n))),
            r is Err ==> r == Err::<SigmaRule, ParsingError>(ParsingError::InvalidAttribute),
    {
        let entries = match n {
            YamlNode::Mapping(es) => es,
            _ => {
                return Err(ParsingError::InvalidAttribute);
            },
        };
        let mut i: usize = 0;
        while i < entries.len()
            invariant
                0 <= i <= entries@.len(),
                forall|j: int| 0 <= j < i ==> is_rule_key((#[trigger] entries@[j]).0@),
            decreases entries@.len() - i,
        {
            let k = entries[i].0.as_str();
            if !(str_eq(k, "title") || str_eq(k, "status") || str_eq(k, "description") || str_eq(
                k,
                "tags",
            ) || str_eq(k, "level") || str_eq(k, "logsource") || str_eq(k, "detection")) {
                proof {
                    assert(!is_rule_key(entries@[i as int].0@));
                    assert(!rule_entries_ok(entries@));
                }
                return Err(ParsingError::InvalidAttribute);
            }
            i = i + 1;
        }
        let title = match crate::yaml::node_map_lookup(entries, "title") {
            Some(tn) => match tn {
                YamlNode::Str(t) => {
                    if t.as_str().is_empty() {
                        return Err(ParsingError::InvalidAttribute);
                    }
                    t.clone()
                },
                _ => {
                    return Err(ParsingError::InvalidAttribute);
                },
            },
            None => {
                return Err(ParsingError::InvalidAttribute);
            },
        };
        let status = match crate::yaml::node_map_lookup(entries, "status") {
            Some(sn) => match sn {
                YamlNode::Str(s) => match SigmaStatus::from_literal(s.as_str()) {
                    Some(st) => st,
                    None => {
                        return Err(ParsingError::InvalidAttribute);
                    },
                },
                _ => {
                    return Err(ParsingError::InvalidAttribute);
                },
            },
            None => {
                return Err(ParsingError::InvalidAttribute);
            },
        };
        let description = match crate::yaml::node_map_lookup(entries, "description") {
            Some(dn) => match dn {
                YamlNode::Str(d) => {
                    if d.as_str().is_empty() {
                        return Err(ParsingError::InvalidAttribute);
                    }
                    d.clone()
                },
                _ => {
                    return Err(ParsingError::InvalidAttribute);
                },
            },
            None => {
                return Err(ParsingError::InvalidAttribute);
            },
        };
        let tags = match crate::yaml::node_map_lookup(entries, "tags") {
            Some(tn) => match tn {
                YamlNode::List(items) => match strings_from_nodes(items) {
                    Some(v) => v,
                    None => {
                        return Err(ParsingError::InvalidAttribute);
                    },
                },
                _ => {
                    return Err(ParsingError::InvalidAttribute);
                },
            },
            None => {
                return Err(ParsingError::InvalidAttribute);
            },
        };
        let level = match crate::yaml::node_map_lookup(entries, "level") {
            Some(ln) => match ln {
                YamlNode::Str(l) => match SigmaLevel::from_literal(l.as_str()) {
                    Some(lv) => lv,
                    None => {
                        return Err(ParsingError::InvalidAttribute);
                    },
                },
                _ => {
                    return Err(ParsingError::InvalidAttribute);
                },
            },
            None => {
                return Err(ParsingError::InvalidAttribute);
            },
        };
        let logsource = match crate::yaml::node_map_lookup(entries, "logsource") {
            Some(ln) => match ln {
                YamlNode::Mapping(ls) => match logsource_from_entries(ls) {
                    Ok(v) => v,
                    Err(e) => {
                        return Err(e);
                    },
                },
                _ => {
                    return Err(ParsingError::InvalidAttribute);
                },
            },
            None => {
                return Err(ParsingError::InvalidAttribute);
            },
        };
        let detection = match crate::yaml::node_map_lookup(entries, "detection") {
            Some(dn) => match dn {
                YamlNode::Mapping(dt) => match detection_from_entries(dt) {
                    Ok(v) => v,
                    Err(e) => {
                        return Err(e);
                    },
                },
                _ => {
                    return Err(ParsingError::InvalidAttribute);
                },
            },
            None => {
                return Err(ParsingError::InvalidAttribute);
            },
        };
        Ok(SigmaRule { title, status, description, tags, level, logsource, detection })
    }

    /// Parses one YAML text into a rule: succeeds exactly where the text
    /// is well-formed YAML whose tree has the documented rule shape, and
    /// the rule then carries that tree's fields.  Malformed YAML and
    /// schema violations are both `InvalidAttribute` errors; this
    /// function never reports `InvalidFile`.
    pub fn parse_rule_from_str(content: &str) -> (r: Result<SigmaRule, ParsingError>)
        ensures
            r is Ok <==> (crate::yaml::spec_yaml_tree(content@) matches Some(n) && rule_node_ok(
                n,
            )),
            r matches Ok(rule) ==> rule_matches_entries(
                rule,
                mapping_entries_of(crate::yaml::spec_yaml_tree(content@)),
            ),
            r is Err ==> r == Err::<SigmaRule, ParsingError>(ParsingError::InvalidAttribute),
    {
        match crate::yaml::parse_yaml_str(content) {
            Some(node) => SigmaRule::from_node(&node),
            None => Err(ParsingError::InvalidAttribute),
        }
    }
}

/// A selector axis as it is displayed: its value, or `N/A` where it is
/// absent.
pub open spec fn spec_axis_display(o: Option<String>) -> Seq<char> {
    match o {
        Some(s) => s@,
        None => "N/A"@,
    }
}

/// Renders one selector axis for display.
fn axis_display(o: &Option<String>) -> (r: String)
    ensures
        r@ == spec_axis_display(*o),
{
    match o {
        Some(s) => s.clone(),
        None => "N/A".to_owned(),
    }
}

impl LogSource {
    /// The one-line summary under which a selector is displayed.
    pub fn display_string(&self) -> (r: String)
        ensures
            r@ == "Category "@ + spec_axis_display(self.category) + ", Product "@
                + spec_axis_display(self.product) + ", Service "@ + spec_axis_display(
                self.service,
            ),
    {
        let mut s = "Category ".to_owned();
        s.append(axis_display(&self.category).as_str());
        s.append(", Product ");
        s.append(axis_display(&self.product).as_str());
        s.append(", Service ");
        s.append(axis_display(&self.service).as_str());
        s
    }
}

impl SigmaRule {
    /// The name under which a rule is displayed: its title.
    pub fn display_string(&self) -> (r: String)
        ensures
            r@ == self.title@,
    {
        self.title.clone()
    }
}

/// The rules of the successful results, in order.
pub open spec fn spec_ok_rules(results: Seq<Result<SigmaRule, ParsingError>>) -> Seq<SigmaRule>
    decreases results.len(),
{
    if results.len() == 0 {
        Seq::empty()
    } else {
        match results.last() {
            Ok(rule) => spec_ok_rules(results.drop_last()).push(rule),
            Err(_) => spec_ok_rules(results.drop_last()),
        }
    }
}

/// How many of the results failed.
pub open spec fn spec_err_count(results: Seq<Result<SigmaRule, ParsingError>>) -> nat
    decreases results.len(),
{
    if results.len() == 0 {
        0
    } else {
        spec_err_count(results.drop_last()) + if results.last() is Err {
            1nat
        } else {
            0nat
        }
    }
}

/// Separates a batch of per-document parse results into the rules that
/// parsed, in order, and the number that failed.  One malformed document
/// never costs the batch any other rule: a batch of N successes and M
/// failures always yields exactly N rules and reports M failures.
#[verifier::loop_isolation(false)]
pub fn collect_rules(results: Vec<Result<SigmaRule, ParsingError>>) -> (r: (Vec<SigmaRule>, usize))
    ensures
        r.0@ == spec_ok_rules(results@),
        r.1 == spec_err_count(results@),
        r.0@.len() + r.1 == results@.len(),
{
    let ghost orig = results@;
    let mut rest = results;
    let total = rest.len();
    let mut rules: Vec<SigmaRule> = Vec::new();
    let mut errors: usize = 0;
    proof {
        assert(orig.take(0) =~= Seq::<Result<SigmaRule, ParsingError>>::empty());
        assert(orig.skip(0) =~= orig);
    }
    while rest.len() > 0
        invariant
            orig.len() == total,
            rest@.len() <= orig.len(),
            rest@ == orig.skip(orig.len() - rest@.len()),
            rules@ == spec_ok_rules(orig.take(orig.len() - rest@.len())),
            errors == spec_err_count(orig.take(orig.len() - rest@.len())),
            rules@.len() + errors == orig.len() - rest@.len(),
        decreases rest@.len(),
    {
        let ghost k = orig.len() - rest@.len();
        let x = rest.remove(0);
        proof {
            assert(x == orig[k as int]);
            assert(rest@ =~= orig.skip(k as int + 1));
            assert(orig.take(k as int + 1).drop_last() =~= orig.take(k as int));
            assert(orig.take(k as int + 1).last() == orig[k as int]);
        }
        match x {
            Ok(rule) => {
                rules.push(rule);
            },
            Err(_) => {
                errors = errors + 1;
            },
        }
    }
    proof {
        assert(orig.take(orig.len() as int) =~= orig);
    }
    (rules, errors)
}

} // verus!
