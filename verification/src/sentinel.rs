//! The Sentinel side: the catalog of known log sources, the resolver
//! from a rule's selector to concrete source expressions, and the
//! textual query builder.

use crate::sigma::{axis_matches, axis_node_ok, FieldMatch, FilterValue, Selection};
use crate::str_eq;
use crate::yaml::{node_map_get, node_map_lookup, YamlNode};
use crate::ParsingError;
use vstd::prelude::*;
use vstd::string::StringExecFns;

verus! {

/// One known log source: the literal query fragment that opens it, and
/// the optional service/category/product discriminators it is tagged
/// with.
#[derive(Debug, PartialEq, Eq, Clone)]
pub struct SentinelLogSource {
    pub value: String,
    pub service: Option<String>,
    pub category: Option<String>,
    pub product: Option<String>,
}

/// The shape one catalog entry's value must have: a mapping with a
/// required string `value` and optional string discriminators.  Other
/// keys are tolerated and ignored.
pub open spec fn catalog_entry_ok(n: YamlNode) -> bool {
    &&& n matches YamlNode::Mapping(fs)
    &&& node_map_get(fs@, "value"@) matches Some(v) && v is Str
    &&& axis_node_ok(node_map_get(fs@, "service"@))
    &&& axis_node_ok(node_map_get(fs@, "category"@))
    &&& axis_node_ok(node_map_get(fs@, "product"@))
}

/// The shape a whole catalog document must have.  A document that is not
/// a mapping yields an empty catalog rather than an error.
pub open spec fn catalog_ok(n: YamlNode) -> bool {
    match n {
        YamlNode::Mapping(es) => forall|i: int|
            0 <= i < es@.len() ==> catalog_entry_ok((#[trigger] es@[i]).1),
        _ => true,
    }
}

/// A parsed catalog entry stands for one catalog entry's value node.
pub open spec fn catalog_entry_matches(e: SentinelLogSource, n: YamlNode) -> bool {
    &&& n matches YamlNode::Mapping(fs)
    &&& e.value@ == crate::sigma::as_str_node(node_map_get(fs@, "value"@))
    &&& axis_matches(e.service, node_map_get(fs@, "service"@))
    &&& axis_matches(e.category, node_map_get(fs@, "category"@))
    &&& axis_matches(e.product, node_map_get(fs@, "product"@))
}

/// A parsed catalog stands for a catalog document: one entry per
/// top-level key, in document order, the keys themselves discarded.
pub open spec fn catalog_matches(cat: Seq<SentinelLogSource>, n: YamlNode) -> bool {
    match n {
        YamlNode::Mapping(es) => cat.len() == es@.len() && (forall|i: int|
            0 <= i < es@.len() ==> catalog_entry_matches(cat[i], (#[trigger] es@[i]).1)),
        _ => cat.len() == 0,
    }
}

impl SentinelLogSource {
    /// Validates one catalog entry's value node.
    fn entry_from_node(n: &YamlNode) -> (r: Result<SentinelLogSource, ParsingError>)
        ensures
            r is Ok <==> catalog_entry_ok(*n),
            r matches Ok(e) ==> catalog_entry_matches(e, *n),
            r is Err ==> r == Err::<SentinelLogSource, ParsingError>(
                ParsingError::InvalidAttribute,
            ),
    {
        let fs = match n {
            YamlNode::Mapping(fs) => fs,
            _ => {
                return Err(ParsingError::InvalidAttribute);
            },
        };
        let value = match node_map_lookup(fs, "value") {
            Some(vn) => match vn {
                YamlNode::Str(v) => v.clone(),
                _ => {
                    return Err(ParsingError::InvalidAttribute);
                },
            },
            None => {
                return Err(ParsingError::InvalidAttribute);
            },
        };
        let service = match crate::sigma::axis_from_entries(fs, "service") {
            Ok(f) => f,
            Err(e) => {
                return Err(e);
            },
        };
        let category = match crate::sigma::axis_from_entries(fs, "category") {
            Ok(f) => f,
            Err(e) => {
                return Err(e);
            },
        };
        let product = match crate::sigma::axis_from_entries(fs, "product") {
            Ok(f) => f,
            Err(e) => {
                return Err(e);
            },
        };
        Ok(SentinelLogSource { value, service, category, product })
    }

    /// Validates a whole catalog document tree: one source per top-level
    /// entry, in document order.  A document that is not a mapping
    /// yields an empty catalog.
    #[verifier::loop_isolation(false)]
    pub fn from_catalog_node(n: &YamlNode) -> (r: Result<Vec<SentinelLogSource>, ParsingError>)
        ensures
            r is Ok <==> catalog_ok(*n),
            r matches Ok(cat) ==> catalog_matches(cat@, *n),
            r is Err ==> r == Err::<Vec<SentinelLogSource>, ParsingError>(
                ParsingError::InvalidAttribute,
            ),
    {
        let es = match n {
            YamlNode::Mapping(es) => es,
            _ => {
                return Ok(Vec::new());
            },
        };
        let mut cat: Vec<SentinelLogSource> = Vec::new();
        let mut i: usize = 0;
        while i < es.len()
            invariant
                0 <= i <= es@.len(),
                cat@.len() == i,
                forall|j: int| 0 <= j < i ==> catalog_entry_ok((#[trigger] es@[j]).1),
                forall|j: int|
                    0 <= j < i ==> catalog_entry_matches(cat@[j], (#[trigger] es@[j]).1),
            decreases es@.len() - i,
        {
            match SentinelLogSource::entry_from_node(&es[i].1) {
                Ok(e) => {
                    cat.push(e);
                },
                Err(e) => {
                    return Err(e);
                },
            }
            i = i + 1;
        }
        Ok(cat)
    }

    /// Parses a catalog from YAML text: succeeds exactly where the text
    /// is well-formed YAML whose tree has the documented catalog shape,
    /// and the catalog then carries that tree's entries in order.
    /// Malformed YAML and schema violations are both `InvalidAttribute`;
    /// this function never reports `InvalidFile`.
    pub fn parse_conf_str(content: &str) -> (r: Result<Vec<SentinelLogSource>, ParsingError>)
        ensures
            r is Ok <==> (crate::yaml::spec_yaml_tree(content@) matches Some(n) && catalog_ok(n)),
            r matches Ok(cat) ==> (crate::yaml::spec_yaml_tree(content@) matches Some(n)
                && catalog_matches(cat@, n)),
            r is Err ==> r == Err::<Vec<SentinelLogSource>, ParsingError>(
                ParsingError::InvalidAttribute,
            ),
    {
        match crate::yaml::parse_yaml_str(content) {
            Some(node) => SentinelLogSource::from_catalog_node(&node),
            None => Err(ParsingError::InvalidAttribute),
        }
    }

    /// Filters the catalog down to the source expressions a selector
    /// accepts, in catalog order, duplicates included.
    #[verifier::loop_isolation(false)]
    pub fn get_sources(
        sources: &Vec<SentinelLogSource>,
        category: &Option<String>,
        product: &Option<String>,
        service: &Option<String>,
    ) -> (r: Vec<String>)
        ensures
            r@ == spec_get_sources(sources@, *category, *product, *service),
    {
        let mut out: Vec<String> = Vec::new();
        let mut i: usize = 0;
        proof {
            assert(sources@.take(0) =~= Seq::<SentinelLogSource>::empty());
        }
        while i < sources.len()
            invariant
                0 <= i <= sources@.len(),
                out@ == spec_get_sources(sources@.take(i as int), *category, *product, *service),
            decreases sources@.len() - i,
        {
            proof {
                assert(sources@.take(i as int + 1).drop_last() =~= sources@.take(i as int));
                assert(sources@.take(i as int + 1).last() == sources@[i as int]);
            }
            let e = &sources[i];
            if axis_selected(&e.category, category) && axis_selected(&e.product, product)
                && axis_selected(&e.service, service) {
                out.push(e.value.clone());
            }
            i = i + 1;
        }
        proof {
            assert(sources@.take(sources@.len() as int) =~= sources@);
        }
        out
    }
}

/// Appends the optional custom catalog after the default one.  Entries
/// are never merged by key: duplicates stay, and every entry of either
/// catalog remains a candidate for resolution.
pub fn merge_catalogs(
    defaults: Vec<SentinelLogSource>,
    custom: Option<Vec<SentinelLogSource>>,
) -> (r: Vec<SentinelLogSource>)
    ensures
        custom matches Some(c) ==> r@ == defaults@ + c@,
        custom is None ==> r@ == defaults@,
{
    let mut out = defaults;
    match custom {
        Some(mut c) => {
            out.append(&mut c);
        },
        None => {},
    }
    out
}

/// Whether a catalog entry's discriminator passes one selector axis: an
/// unconstrained axis passes everything; a constrained axis requires the
/// entry's field to be present and equal (an absent field never matches
/// a constrained axis).
pub open spec fn spec_axis_selected(field: Option<String>, sel: Option<String>) -> bool {
    match sel {
        None => true,
        Some(s) => field matches Some(f) && f@ == s@,
    }
}

/// Whether a catalog entry passes a whole selector.
pub open spec fn source_selected(
    e: SentinelLogSource,
    category: Option<String>,
    product: Option<String>,
    service: Option<String>,
) -> bool {
    &&& spec_axis_selected(e.category, category)
    &&& spec_axis_selected(e.product, product)
    &&& spec_axis_selected(e.service, service)
}

/// The source expressions of the catalog entries a selector accepts, in
/// catalog order.
pub open spec fn spec_get_sources(
    entries: Seq<SentinelLogSource>,
    category: Option<String>,
    product: Option<String>,
    service: Option<String>,
) -> Seq<String>
    decreases entries.len(),
{
    if entries.len() == 0 {
        Seq::empty()
    } else {
        let prefix = spec_get_sources(entries.drop_last(), category, product, service);
        if source_selected(entries.last(), category, product, service) {
            prefix.push(entries.last().value)
        } else {
            prefix
        }
    }
}

/// Tests one selector axis against an entry's discriminator.
fn axis_selected(field: &Option<String>, sel: &Option<String>) -> (r: bool)
    ensures
        r == spec_axis_selected(*field, *sel),
{
    match sel {
        None => true,
        Some(s) => match field {
            Some(f) => str_eq(f.as_str(), s.as_str()),
            None => false,
        },
    }
}

/// The character of one decimal digit.
pub open spec fn spec_dec_digit(d: nat) -> char {
    if d == 0 {
        '0'
    } else if d == 1 {
        '1'
    } else if d == 2 {
        '2'
    } else if d == 3 {
        '3'
    } else if d == 4 {
        '4'
    } else if d == 5 {
        '5'
    } else if d == 6 {
        '6'
    } else if d == 7 {
        '7'
    } else if d == 8 {
        '8'
    } else {
        '9'
    }
}

/// The decimal digits of a natural number, most significant first.
pub open spec fn spec_dec_nat(n: nat) -> Seq<char>
    decreases n,
{
    if n < 10 {
        seq![spec_dec_digit(n)]
    } else {
        spec_dec_nat(n / 10).push(spec_dec_digit(n % 10))
    }
}

/// The decimal rendering of an integer, with a leading minus where it is
/// negative.
pub open spec fn spec_dec_int(n: int) -> Seq<char> {
    if n < 0 {
        seq!['-'] + spec_dec_nat((-n) as nat)
    } else {
        spec_dec_nat(n as nat)
    }
}

/// Relies on i64's `ToString` (through its `Display`): the decimal
/// representation of the value, with a leading minus where it is
/// negative.
#[verifier::external_body]
fn i64_to_decimal(n: i64) -> (r: String)
    ensures
        r@ == spec_dec_int(n as int),
{
    n.to_string()
}

/// How the pairs of one filter clause are combined.
#[derive(Debug, PartialEq, Eq, Structural, Clone, Copy)]
pub enum Condition {
    And,
    Or,
}

/// The keyword a condition is written as.
pub open spec fn spec_condition_word(c: Condition) -> Seq<char> {
    match c {
        Condition::And => "and"@,
        Condition::Or => "or"@,
    }
}

/// The keyword a condition is written as.
fn condition_word(c: &Condition) -> (r: &'static str)
    ensures
        r@ == spec_condition_word(*c),
{
    match c {
        Condition::And => "and",
        Condition::Or => "or",
    }
}

/// The comparison one scalar filter value translates to: a string in
/// single quotes, an integer bare; anything else is untranslatable.
pub open spec fn spec_scalar_term(k: Seq<char>, f: FilterValue) -> Option<Seq<char>> {
    match f {
        FilterValue::Str(s) => Some(k + " == '"@ + s@ + "'"@),
        FilterValue::Num(n) => Some(k + " == "@ + spec_dec_int(n as int)),
        _ => None,
    }
}

/// The text a list element is quoted as: a string itself, an integer its
/// digits.  Anything else is untranslatable.
pub open spec fn spec_elem_payload(f: FilterValue) -> Option<Seq<char>> {
    match f {
        FilterValue::Str(s) => Some(s@),
        FilterValue::Num(n) => Some(spec_dec_int(n as int)),
        _ => None,
    }
}

/// The comparison one list element translates to: every element is
/// matched in single quotes.
pub open spec fn spec_list_elem_term(k: Seq<char>, f: FilterValue) -> Option<Seq<char>> {
    match spec_elem_payload(f) {
        Some(p) => Some(k + " == '"@ + p + "'"@),
        None => None,
    }
}

/// The body of the alternation a list value translates to: one
/// comparison per element, joined by ` or `.  An empty list, or a
/// non-scalar element, is untranslatable.
pub open spec fn spec_list_term(k: Seq<char>, items: Seq<FilterValue>) -> Option<Seq<char>>
    decreases items.len(),
{
    if items.len() == 0 {
        None
    } else if items.len() == 1 {
        spec_list_elem_term(k, items[0])
    } else {
        match (spec_list_term(k, items.drop_last()), spec_list_elem_term(k, items.last())) {
            (Some(p), Some(t)) => Some(p + " or "@ + t),
            _ => None,
        }
    }
}

/// The comparison term one field/value pair translates to.
pub open spec fn spec_term(k: Seq<char>, f: FilterValue) -> Option<Seq<char>> {
    match f {
        FilterValue::List(items) => match spec_list_term(k, items@) {
            Some(t) => Some("("@ + t + ")"@),
            None => None,
        },
        _ => spec_scalar_term(k, f),
    }
}

/// The field/value pairs of a sequence of selections, flattened in
/// order; the selection names play no part in translation.
pub open spec fn spec_flatten_fields(sels: Seq<Selection>) -> Seq<FieldMatch>
    decreases sels.len(),
{
    if sels.len() == 0 {
        Seq::empty()
    } else {
        spec_flatten_fields(sels.drop_last()) + sels.last().fields@
    }
}

/// The whole `| where` clause a flattened pair sequence translates to:
/// the first term follows the keyword on the same line, every further
/// term stands on an indented continuation line behind the condition
/// word.  `None` where any pair is untranslatable.
pub open spec fn spec_clause(cond: Condition, pairs: Seq<FieldMatch>) -> Option<Seq<char>>
    decreases pairs.len(),
{
    if pairs.len() == 0 {
        Some("| where"@)
    } else {
        match (
            spec_clause(cond, pairs.drop_last()),
            spec_term(pairs.last().field@, pairs.last().value),
        ) {
            (Some(p), Some(t)) => Some(
                p + (if pairs.len() == 1 {
                    " "@
                } else {
                    "\n  "@ + spec_condition_word(cond) + " "@
                }) + t,
            ),
            _ => None,
        }
    }
}

/// A comment line prepended ahead of existing query text.
pub open spec fn spec_comment(c: Seq<char>, q: Seq<char>) -> Seq<char> {
    "// "@ + c + "\n"@ + q
}

/// Two query texts joined on consecutive lines; the empty text is the
/// identity on either side, leaving no stray separator.
pub open spec fn spec_join(a: Seq<char>, b: Seq<char>) -> Seq<char> {
    if a.len() == 0 {
        b
    } else if b.len() == 0 {
        a
    } else {
        a + "\n"@ + b
    }
}

/// A filter clause appended to query text on its own line.
pub open spec fn spec_add_where(q: Seq<char>, clause: Seq<char>) -> Seq<char> {
    q + "\n"@ + clause
}

/// Joining with the empty fragment on either side yields the other
/// operand exactly, for every fragment.
pub proof fn lemma_join_identity(x: Seq<char>)
    ensures
        spec_join(Seq::empty(), x) == x,
        spec_join(x, Seq::empty()) == x,
{
}

/// Joining is associative: composing three fragments in either grouping
/// yields the same text.
pub proof fn lemma_join_associative(a: Seq<char>, b: Seq<char>, c: Seq<char>)
    ensures
        spec_join(a, spec_join(b, c)) == spec_join(spec_join(a, b), c),
{
    if a.len() > 0 && b.len() > 0 && c.len() > 0 {
        assert((a + "\n"@ + b).len() > 0);
        assert((b + "\n"@ + c).len() > 0);
        assert(a + "\n"@ + (b + "\n"@ + c) =~= (a + "\n"@ + b) + "\n"@ + c);
    }
}

/// An untranslatable pair sequence stays untranslatable under any
/// extension.
proof fn lemma_clause_none_append(cond: Condition, a: Seq<FieldMatch>, b: Seq<FieldMatch>)
    requires
        spec_clause(cond, a) is None,
    ensures
        spec_clause(cond, a + b) is None,
    decreases b.len(),
{
    if b.len() == 0 {
        assert(a + b =~= a);
    } else {
        lemma_clause_none_append(cond, a, b.drop_last());
        assert((a + b).drop_last() =~= a + b.drop_last());
        assert((a + b).len() > 0);
    }
}

/// An untranslatable flattened prefix makes the whole selection sequence
/// untranslatable.
proof fn lemma_clause_none_flatten_ext(cond: Condition, sels: Seq<Selection>, m: int)
    requires
        0 <= m <= sels.len(),
        spec_clause(cond, spec_flatten_fields(sels.take(m))) is None,
    ensures
        spec_clause(cond, spec_flatten_fields(sels)) is None,
    decreases sels.len() - m,
{
    if m == sels.len() {
        assert(sels.take(m) =~= sels);
    } else {
        assert(sels.take(m + 1).drop_last() =~= sels.take(m));
        assert(sels.take(m + 1).last() == sels[m]);
        lemma_clause_none_append(cond, spec_flatten_fields(sels.take(m)), sels[m].fields@);
        assert(spec_clause(cond, spec_flatten_fields(sels.take(m + 1))) is None);
        lemma_clause_none_flatten_ext(cond, sels, m + 1);
    }
}

/// Renders the comparison of one field against one scalar value.
fn render_scalar_term(field: &String, value: &FilterValue) -> (r: Option<String>)
    ensures
        match r {
            Some(t) => spec_scalar_term(field@, *value) == Some(t@),
            None => spec_scalar_term(field@, *value) is None,
        },
{
    match value {
        FilterValue::Str(s) => {
            let mut t = field.clone();
            t.append(" == '");
            t.append(s.as_str());
            t.append("'");
            Some(t)
        },
        FilterValue::Num(n) => {
            let mut t = field.clone();
            t.append(" == ");
            let d = i64_to_decimal(*n);
            t.append(d.as_str());
            Some(t)
        },
        _ => None,
    }
}

/// Renders the comparison of one field against one list element.
fn render_list_elem_term(field: &String, value: &FilterValue) -> (r: Option<String>)
    ensures
        match r {
            Some(t) => spec_list_elem_term(field@, *value) == Some(t@),
            None => spec_list_elem_term(field@, *value) is None,
        },
{
    let payload = match value {
        FilterValue::Str(s) => s.clone(),
        FilterValue::Num(n) => i64_to_decimal(*n),
        _ => {
            return None;
        },
    };
    let mut t = field.clone();
    t.append(" == '");
    t.append(payload.as_str());
    t.append("'");
    Some(t)
}

/// Renders the comparison term of one field/value pair.
#[verifier::loop_isolation(false)]
fn render_term(field: &String, value: &FilterValue) -> (r: Option<String>)
    ensures
        match r {
            Some(t) => spec_term(field@, *value) == Some(t@),
            None => spec_term(field@, *value) is None,
        },
{
    let items = match value {
        FilterValue::List(items) => items,
        _ => {
            return render_scalar_term(field, value);
        },
    };
    if items.len() == 0 {
        return None;
    }
    let mut p = match render_list_elem_term(field, &items[0]) {
        Some(t) => t,
        None => {
            proof {
                assert(items@.take(1)[0] == items@[0]);
                assert(spec_list_term(field@, items@.take(1)) is None);
                lemma_list_term_none_ext(field@, items@, 1);
            }
            return None;
        },
    };
    proof {
        assert(items@.take(1)[0] == items@[0]);
        assert(spec_list_term(field@, items@.take(1)) == Some(p@));
    }
    let mut i: usize = 1;
    while i < items.len()
        invariant
            1 <= i <= items@.len(),
            spec_list_term(field@, items@.take(i as int)) == Some(p@),
        decreases items@.len() - i,
    {
        proof {
            assert(items@.take(i as int + 1).drop_last() =~= items@.take(i as int));
            assert(items@.take(i as int + 1).last() == items@[i as int]);
        }
        match render_list_elem_term(field, &items[i]) {
            Some(t) => {
                p.append(" or ");
                p.append(t.as_str());
            },
            None => {
                proof {
                    assert(spec_list_term(field@, items@.take(i as int + 1)) is None);
                    lemma_list_term_none_ext(field@, items@, i as int + 1);
                }
                return None;
            },
        }
        i = i + 1;
    }
    proof {
        assert(items@.take(items@.len() as int) =~= items@);
    }
    let mut out = "(".to_owned();
    out.append(p.as_str());
    out.append(")");
    Some(out)
}

/// An untranslatable list prefix makes the whole list untranslatable.
proof fn lemma_list_term_none_ext(k: Seq<char>, items: Seq<FilterValue>, m: int)
    requires
        1 <= m <= items.len(),
        spec_list_term(k, items.take(m)) is None,
    ensures
        spec_list_term(k, items) is None,
    decreases items.len() - m,
{
    if m == items.len() {
        assert(items.take(m) =~= items);
    } else {
        assert(items.take(m + 1).drop_last() =~= items.take(m));
        assert(spec_list_term(k, items.take(m + 1)) is None);
        lemma_list_term_none_ext(k, items, m + 1);
    }
}

/// An accumulator of query text: a source expression set by `from`,
/// filter clauses appended by `add_where`, a comment line prepended by
/// `comment`, and whole fragments composed by `join`.
#[derive(Debug, PartialEq, Eq, Clone)]
pub struct SentinelQuery {
    pub query: String,
}

impl Default for SentinelQuery {
    /// An empty fragment: the identity element of `join`.
    fn default() -> (r: SentinelQuery)
        ensures
            r.query@ == Seq::<char>::empty(),
    {
        SentinelQuery { query: String::new() }
    }
}

impl SentinelQuery {
    /// An empty fragment: the identity element of `join`.
    pub fn new() -> (r: SentinelQuery)
        ensures
            r.query@ == Seq::<char>::empty(),
    {
        SentinelQuery::default()
    }

    /// Prepends `// <comment>` on its own line ahead of the text built
    /// so far.
    pub fn comment(&mut self, comment: &str)
        ensures
            final (self).query@ == spec_comment(comment@, old(self).query@),
    {
        let mut s = "// ".to_owned();
        s.append(comment);
        s.append("\n");
        s.append(self.query.as_str());
        self.query = s;
    }

    /// Replaces the text built so far with a source expression verbatim;
    /// the first step of a per-source query.
    pub fn from(&mut self, source: &str)
        ensures
            final (self).query@ == source@,
    {
        self.query = source.to_owned();
    }

    /// Appends one `| where` clause, all selections flattened into one
    /// pair list and combined under `condition`.  An untranslatable
    /// value leaves the fragment unchanged and reports
    /// `InvalidAttribute`.
    #[verifier::loop_isolation(false)]
    pub fn add_where(&mut self, condition: Condition, selections: &Vec<Selection>) -> (r: Result<
        (),
        ParsingError,
    >)
        ensures
            match spec_clause(condition, spec_flatten_fields(selections@)) {
                Some(c) => r is Ok && final (self).query@ == spec_add_where(old(self).query@, c),
                None => r == Err::<(), ParsingError>(ParsingError::InvalidAttribute)
                    && final (self).query@ == old(self).query@,
            },
    {
        let mut s = "| where".to_owned();
        let mut is_first = true;
        proof {
            assert(selections@.take(0) =~= Seq::<Selection>::empty());
        }
        let mut i: usize = 0;
        while i < selections.len()
            invariant
                0 <= i <= selections@.len(),
                spec_clause(condition, spec_flatten_fields(selections@.take(i as int))) == Some(
                    s@,
                ),
                is_first <==> spec_flatten_fields(selections@.take(i as int)).len() == 0,
            decreases selections@.len() - i,
        {
            let sel = &selections[i];
            let ghost prefix = spec_flatten_fields(selections@.take(i as int));
            proof {
                assert(selections@.take(i as int + 1).drop_last() =~= selections@.take(i as int));
                assert(selections@.take(i as int + 1).last() == selections@[i as int]);
                assert(spec_flatten_fields(selections@.take(i as int + 1)) == prefix
                    + sel.fields@);
                assert(prefix + sel.fields@.take(0) =~= prefix);
            }
            let mut j: usize = 0;
            while j < sel.fields.len()
                invariant
                    0 <= j <= sel.fields@.len(),
                    spec_clause(condition, prefix + sel.fields@.take(j as int)) == Some(s@),
                    is_first <==> (prefix + sel.fields@.take(j as int)).len() == 0,
                decreases sel.fields@.len() - j,
            {
                let pair = &sel.fields[j];
                proof {
                    assert((prefix + sel.fields@.take(j as int)).push(sel.fields@[j as int]) =~=
                    prefix + sel.fields@.take(j as int + 1));
                    assert((prefix + sel.fields@.take(j as int + 1)).drop_last() =~= prefix
                        + sel.fields@.take(j as int));
                    assert((prefix + sel.fields@.take(j as int + 1)).last() == sel.fields@[j as int]);
                }
                match render_term(&pair.field, &pair.value) {
                    Some(t) => {
                        if is_first {
                            s.append(" ");
                        } else {
                            s.append("\n  ");
                            s.append(condition_word(&condition));
                            s.append(" ");
                        }
                        s.append(t.as_str());
                        is_first = false;
                        proof {
                            assert(spec_clause(
                                condition,
                                prefix + sel.fields@.take(j as int + 1),
                            ) == Some(s@));
                        }
                    },
                    None => {
                        proof {
                            assert(spec_clause(
                                condition,
                                prefix + sel.fields@.take(j as int + 1),
                            ) is None);
                            lemma_clause_none_append(
                                condition,
                                prefix + sel.fields@.take(j as int + 1),
                                sel.fields@.skip(j as int + 1),
                            );
                            assert((prefix + sel.fields@.take(j as int + 1)) + sel.fields@.skip(
                                j as int + 1,
                            ) =~= prefix + sel.fields@);
                            lemma_clause_none_flatten_ext(condition, selections@, i as int + 1);
                        }
                        return Err(ParsingError::InvalidAttribute);
                    },
                }
                j = j + 1;
            }
            proof {
                assert(prefix + sel.fields@.take(sel.fields@.len() as int) =~= prefix
                    + sel.fields@);
            }
            i = i + 1;
        }
        proof {
            assert(selections@.take(selections@.len() as int) =~= selections@);
        }
        self.query.append("\n");
        self.query.append(s.as_str());
        Ok(())
    }

    /// Joins two fragments on consecutive lines; an empty operand leaves
    /// the other exactly as it is.
    pub fn join(first: &SentinelQuery, second: &SentinelQuery) -> (r: SentinelQuery)
        ensures
            r.query@ == spec_join(first.query@, second.query@),
    {
        if first.query.as_str().is_empty() {
            SentinelQuery { query: second.query.clone() }
        } else if second.query.as_str().is_empty() {
            SentinelQuery { query: first.query.clone() }
        } else {
            let mut s = first.query.clone();
            s.append("\n");
            s.append(second.query.as_str());
            SentinelQuery { query: s }
        }
    }
}

} // verus!
