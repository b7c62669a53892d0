//! The translation engine: one rule, resolved against the source
//! catalog, becomes one query text.

use crate::sentinel::{
    spec_add_where, spec_clause, spec_comment, spec_flatten_fields, spec_get_sources, spec_join,
    Condition, SentinelLogSource, SentinelQuery,
};
use crate::sigma::{SigmaDetecton, SigmaRule};
use crate::ParsingError;
use vstd::prelude::*;

verus! {

/// The query block one resolved source expression yields: the expression
/// itself, followed by the rule's filter clause where the rule has
/// selections.  `None` where the selections are untranslatable.
pub open spec fn spec_source_query(v: Seq<char>, det: SigmaDetecton) -> Option<Seq<char>> {
    match det.selections {
        None => Some(v),
        Some(sels) => match spec_clause(Condition::Or, spec_flatten_fields(sels@)) {
            Some(c) => Some(spec_add_where(v, c)),
            None => None,
        },
    }
}

/// The per-source blocks of all resolved sources, joined in order.
pub open spec fn spec_fold_queries(vals: Seq<String>, det: SigmaDetecton) -> Option<Seq<char>>
    decreases vals.len(),
{
    if vals.len() == 0 {
        Some(Seq::empty())
    } else {
        match (spec_fold_queries(vals.drop_last(), det), spec_source_query(vals.last()@, det)) {
            (Some(acc), Some(q)) => Some(spec_join(acc, q)),
            _ => None,
        }
    }
}

/// The full query a rule translates to against a catalog: the rule's
/// description as a leading comment, then one block per resolved source.
/// A rule that resolves to no source yields a comment-only query.
pub open spec fn spec_to_query(rule: SigmaRule, sources: Seq<SentinelLogSource>) -> Option<
    Seq<char>,
> {
    match spec_fold_queries(
        spec_get_sources(
            sources,
            rule.logsource.category,
            rule.logsource.product,
            rule.logsource.service,
        ),
        rule.detection,
    ) {
        Some(q) => Some(spec_comment(rule.description@, q)),
        None => None,
    }
}

/// Untranslatable selections make the whole fold untranslatable, for any
/// non-empty source list.
proof fn lemma_fold_none(vals: Seq<String>, det: SigmaDetecton)
    requires
        vals.len() > 0,
        det.selections matches Some(sels) && spec_clause(
            Condition::Or,
            spec_flatten_fields(sels@),
        ) is None,
    ensures
        spec_fold_queries(vals, det) is None,
    decreases vals.len(),
{
    if vals.len() > 1 {
        lemma_fold_none(vals.drop_last(), det);
    }
}

impl SigmaRule {
    /// Translates this rule against a catalog of known sources: resolves
    /// the rule's selector, builds one block per resolved source (its
    /// expression, then the flattened selections as one `or`-combined
    /// filter clause), joins the blocks, and prepends the description as
    /// a comment.  An untranslatable selection value is an
    /// `InvalidAttribute` error.
    #[verifier::loop_isolation(false)]
    pub fn to_sentinel_query(&self, sources: &Vec<SentinelLogSource>) -> (r: Result<
        SentinelQuery,
        ParsingError,
    >)
        ensures
            r is Ok <==> spec_to_query(*self, sources@) is Some,
            r matches Ok(q) ==> Some(q.query@) == spec_to_query(*self, sources@),
            r is Err ==> r == Err::<SentinelQuery, ParsingError>(ParsingError::InvalidAttribute),
    {
        let vals = SentinelLogSource::get_sources(
            sources,
            &self.logsource.category,
            &self.logsource.product,
            &self.logsource.service,
        );
        let mut query = SentinelQuery::new();
        proof {
            assert(vals@.take(0) =~= Seq::<String>::empty());
        }
        let mut i: usize = 0;
        while i < vals.len()
            invariant
                0 <= i <= vals@.len(),
                spec_fold_queries(vals@.take(i as int), self.detection) == Some(query.query@),
            decreases vals@.len() - i,
        {
            proof {
                assert(vals@.take(i as int + 1).drop_last() =~= vals@.take(i as int));
                assert(vals@.take(i as int + 1).last() == vals@[i as int]);
            }
            let mut source_query = SentinelQuery::new();
            source_query.from(vals[i].as_str());
            match &self.detection.selections {
                Some(sels) => {
                    match source_query.add_where(Condition::Or, sels) {
                        Ok(_) => {},
                        Err(e) => {
                            proof {
                                lemma_fold_none(vals@, self.detection);
                            }
                            return Err(e);
                        },
                    }
                },
                None => {},
            }
            query = SentinelQuery::join(&query, &source_query);
            i = i + 1;
        }
        proof {
            assert(vals@.take(vals@.len() as int) =~= vals@);
        }
        query.comment(self.description.as_str());
        Ok(query)
    }
}

} // verus!
