//! Pages of an owner's policies: which policies a page lists and where the
//! next page starts.
use vstd::prelude::*;

use crate::insurance::Insurance;
use crate::model::{matching, page_items, page_next_cursor, selected, spec_clamp_limit, MAX_PAGE_LIMIT};
use crate::types::{policy_models, InsurancePolicy, PolicyModel, PolicyPage};

verus! {

/// Selecting the policies of two lists one after the other gives the
/// selection of the joined list.
pub proof fn lemma_matching_add(a: Seq<PolicyModel>, b: Seq<PolicyModel>, owner: Seq<char>, cursor: u32, active_only: bool)
    ensures
        matching(a + b, owner, cursor, active_only) == matching(a, owner, cursor, active_only) + matching(
            b,
            owner,
            cursor,
            active_only,
        ),
    decreases b.len(),
{
    if b.len() == 0 {
        assert(a + b =~= a);
        assert(matching(a, owner, cursor, active_only) + matching(b, owner, cursor, active_only) =~= matching(
            a,
            owner,
            cursor,
            active_only,
        ));
    } else {
        assert((a + b).drop_last() =~= a + b.drop_last());
        lemma_matching_add(a, b.drop_last(), owner, cursor, active_only);
        let ma = matching(a, owner, cursor, active_only);
        let mb = matching(b.drop_last(), owner, cursor, active_only);
        assert((ma + mb).push(b.last()) =~= ma + mb.push(b.last()));
    }
}

/// The selection from the first `i + 1` policies extends the selection from
/// the first `i` by policy `i` when that one is selected.
pub proof fn lemma_matching_step(s: Seq<PolicyModel>, i: int, owner: Seq<char>, cursor: u32, active_only: bool)
    requires
        0 <= i < s.len(),
    ensures
        matching(s.take(i + 1), owner, cursor, active_only) == if selected(s[i], owner, cursor, active_only) {
            matching(s.take(i), owner, cursor, active_only).push(s[i])
        } else {
            matching(s.take(i), owner, cursor, active_only)
        },
{
    assert(s.take(i + 1).drop_last() =~= s.take(i));
}

/// A selection is no longer than the list it is taken from.
pub proof fn lemma_matching_len(s: Seq<PolicyModel>, owner: Seq<char>, cursor: u32, active_only: bool)
    ensures
        matching(s, owner, cursor, active_only).len() <= s.len(),
    decreases s.len(),
{
    if s.len() > 0 {
        lemma_matching_len(s.drop_last(), owner, cursor, active_only);
    }
}

/// The page made from `staging`, the first matching policies, at most one
/// more than the page size `limit`.
fn build_page(staging: Vec<InsurancePolicy>, limit: u32) -> (page: PolicyPage)
    requires
        1 <= limit <= MAX_PAGE_LIMIT,
        staging.len() <= limit + 1,
    ensures
        page.items.len() == page.count,
        page.count <= limit,
        staging.len() > limit ==> {
            &&& policy_models(page.items@) == policy_models(staging@).take(limit as int)
            &&& page.next_cursor == staging@[limit - 1].id
        },
        staging.len() <= limit ==> {
            &&& policy_models(page.items@) == policy_models(staging@)
            &&& page.next_cursor == 0
        },
{
    let mut items = staging;
    let has_next = items.len() > limit as usize;
    let mut next_cursor: u32 = 0;
    if has_next {
        let ghost before = items@;
        items.pop();
        assert(items@ =~= before.take(limit as int));
        assert(policy_models(items@) =~= policy_models(before).take(limit as int));
        next_cursor = items[items.len() - 1].id;
    }
    let count = items.len() as u32;
    PolicyPage { items, next_cursor, count }
}

/// The page of the policies of `owner` with ids after `cursor` (only the
/// active ones when `active_only`), at most `spec_clamp_limit(limit)` of
/// them, from the list `policies` in which ids increase.
pub fn collect_page(policies: &Vec<InsurancePolicy>, owner: &String, cursor: u32, limit: u32, active_only: bool) -> (page: PolicyPage)
    ensures
        policy_models(page.items@) == page_items(policy_models(policies@), owner@, cursor, limit, active_only),
        page.next_cursor == page_next_cursor(policy_models(policies@), owner@, cursor, limit, active_only),
        page.count == page.items.len(),
        page.count <= spec_clamp_limit(limit),
{
    let size = Insurance::clamp_limit(limit);
    let ghost all = policy_models(policies@);
    let ghost target = matching(all, owner@, cursor, active_only);
    let mut staging: Vec<InsurancePolicy> = Vec::new();
    let n = policies.len();
    let mut i: usize = 0;
    assert(all.take(n as int) =~= all);
    while i < n
        invariant_except_break
            staging.len() <= size,
        invariant
            n == policies.len(),
            all == policy_models(policies@),
            all.take(n as int) == all,
            target == matching(all, owner@, cursor, active_only),
            1 <= size <= MAX_PAGE_LIMIT,
            i <= n,
            policy_models(staging@) == matching(all.take(i as int), owner@, cursor, active_only),
        ensures
            target.len() > size ==> policy_models(staging@) == target.take(size + 1),
            target.len() <= size ==> policy_models(staging@) == target,
        decreases n - i,
    {
        proof {
            lemma_matching_step(all, i as int, owner@, cursor, active_only);
        }
        let p = &policies[i];
        let pick = p.id > cursor && p.owner == *owner && (p.active || !active_only);
        if pick {
            let ghost before = staging@;
            staging.push(p.clone());
            assert(policy_models(staging@) =~= policy_models(before).push(all[i as int]));
        }
        i = i + 1;
        if staging.len() > size as usize {
            proof {
                assert(all =~= all.take(i as int) + all.skip(i as int));
                lemma_matching_add(all.take(i as int), all.skip(i as int), owner@, cursor, active_only);
                let head = matching(all.take(i as int), owner@, cursor, active_only);
                let tail = matching(all.skip(i as int), owner@, cursor, active_only);
                assert((head + tail).take(size + 1) =~= head);
            }
            break;
        }
    }
    proof {
        lemma_matching_len(all, owner@, cursor, active_only);
        if target.len() > size {
            assert(policy_models(staging@)[size - 1] == staging@[size - 1]@);
        }
    }
    build_page(staging, size)
}

} // verus!
