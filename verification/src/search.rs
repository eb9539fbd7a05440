//! Orchestration decisions: which query text a provider is asked with,
//! how per-provider result batches merge, and how the merged list is cut
//! to the configured maximum.  The embedding program only moves fetched
//! pages between these calls.

use vstd::prelude::*;
use crate::normalize::{get_search_query, search_query_spec};
use crate::provider::Provider;
use crate::subscene::SubsceneDownloadable;

verus! {

/// The query text a provider is asked with: the whole filename when the
/// provider prefers that, else the normalized query.
pub fn provider_query<P: Provider>(p: &P, name: &str) -> (r: String)
    ensures
        r@ == if p.spec_accepts_whole_name() {
            name@
        } else {
            search_query_spec(name@)
        },
{
    if p.accepts_whole_name() {
        String::from_str(name)
    } else {
        get_search_query(name)
    }
}

/// Append one provider's batch to the merged candidate list, preserving
/// per-provider order.
pub fn append_results(acc: &mut Vec<SubsceneDownloadable>, batch: Vec<SubsceneDownloadable>)
    ensures
        final(acc)@ == old(acc)@ + batch@,
{
    let mut b = batch;
    acc.append(&mut b);
}

/// The merged list cut to at most `max` candidates, keeping the front.
pub fn truncate_results(list: Vec<SubsceneDownloadable>, max: usize) -> (r: Vec<
    SubsceneDownloadable,
>)
    ensures
        r@ == if max <= list@.len() {
            list@.take(max as int)
        } else {
            list@
        },
{
    let ghost orig = list@;
    let mut l = list;
    if max < l.len() {
        l.truncate(max);
    } else {
        proof {
            if max <= orig.len() {
                assert(orig.take(max as int) =~= orig);
            }
        }
    }
    l
}

} // verus!
