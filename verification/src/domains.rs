//! Domain matching and entity filtering.
//!
//! An entity identifier has the form `domain.object_id`. It matches a target
//! domain `d` exactly when it starts with `d` immediately followed by the
//! separator: a bare prefix must not match, so domain `light` matches
//! `light.kitchen` but not `lighting.kitchen`.

use vstd::prelude::*;
use vstd::string::StrSliceExecFns;
use crate::records::StateDto;

verus! {

/// Identifier `id` names an entity of domain `d`: it starts with `d`,
/// immediately followed by the `.` separator.
pub open spec fn domain_match(id: Seq<char>, d: Seq<char>) -> bool {
    &&& id.len() > d.len()
    &&& id.subrange(0, d.len() as int) == d
    &&& id[d.len() as int] == '.'
}

/// Identifier `id` matches at least one of the target domains `ds`.
pub open spec fn matches_any_domain(id: Seq<char>, ds: Seq<String>) -> bool {
    exists|j: int| 0 <= j < ds.len() && domain_match(id, ds[j]@)
}

/// The entities whose identifier matches one of the domains `ds`.
pub open spec fn domain_filter_pred(ds: Seq<String>) -> spec_fn(StateDto) -> bool {
    |e: StateDto| matches_any_domain(e.entity_id@, ds)
}

/// The entities of the `scene` domain.
pub open spec fn scene_pred() -> spec_fn(StateDto) -> bool {
    |e: StateDto| domain_match(e.entity_id@, "scene"@)
}

/// Decides `domain_match` on an identifier and one target domain.
pub fn entity_matches_domain(id: &str, domain: &str) -> (r: bool)
    ensures
        r == domain_match(id@, domain@),
{
    let n = domain.unicode_len();
    let m = id.unicode_len();
    if m <= n {
        return false;
    }
    let mut i: usize = 0;
    while i < n
        invariant
            i <= n,
            n == domain@.len(),
            m == id@.len(),
            m > n,
            forall|k: int| 0 <= k < i ==> id@[k] == domain@[k],
        decreases n - i,
    {
        if id.get_char(i) != domain.get_char(i) {
            proof {
                assert(!domain_match(id@, domain@)) by {
                    if id@.subrange(0, n as int) == domain@ {
                        assert(id@.subrange(0, n as int)[i as int] == id@[i as int]);
                    }
                }
            }
            return false;
        }
        i = i + 1;
    }
    proof {
        assert(id@.subrange(0, n as int) =~= domain@);
    }
    let c = id.get_char(n);
    c == '.'
}

/// Decides `matches_any_domain` on an identifier and a list of target
/// domains.
pub fn entity_matches_any(id: &str, domains: &Vec<String>) -> (r: bool)
    ensures
        r == matches_any_domain(id@, domains@),
{
    let n = domains.len();
    let mut k: usize = 0;
    while k < n
        invariant
            k <= n,
            n == domains@.len(),
            forall|j: int| 0 <= j < k ==> !domain_match(id@, (#[trigger] domains@[j])@),
        decreases n - k,
    {
        if entity_matches_domain(id, domains[k].as_str()) {
            return true;
        }
        k = k + 1;
    }
    proof {
        assert(!matches_any_domain(id@, domains@)) by {
            if matches_any_domain(id@, domains@) {
                let j = choose|j: int| 0 <= j < domains@.len() && domain_match(
                    id@,
                    domains@[j]@,
                );
                assert(!domain_match(id@, domains@[j]@));
            }
        }
    }
    false
}

/// Keeps exactly the entities whose identifier matches one of the target
/// domains, in their original order.
pub fn filter_entities_by_domains(entities: Vec<StateDto>, domains: &Vec<String>) -> (r: Vec<
    StateDto,
>)
    ensures
        r@ == entities@.filter(domain_filter_pred(domains@)),
{
    let ghost pred = domain_filter_pred(domains@);
    let ghost orig = entities@;
    let mut rest = entities;
    let mut out: Vec<StateDto> = Vec::new();
    proof {
        reveal(Seq::filter);
        assert(orig.take(0) =~= Seq::<StateDto>::empty());
        assert(out@ =~= orig.take(0).filter(pred));
        assert(rest@ =~= orig.skip(0));
    }
    while rest.len() > 0
        invariant
            rest@.len() <= orig.len(),
            rest@ == orig.skip(orig.len() - rest@.len()),
            out@ == orig.take(orig.len() - rest@.len()).filter(pred),
            pred == domain_filter_pred(domains@),
        decreases rest.len(),
    {
        let ghost k = orig.len() - rest@.len();
        let e = rest.remove(0);
        let m = entity_matches_any(e.entity_id.as_str(), domains);
        proof {
            assert(e == orig[k]);
            assert(rest@ =~= orig.skip(k + 1));
            assert(orig.take(k + 1).drop_last() =~= orig.take(k));
            assert(orig.take(k + 1).last() == orig[k]);
            reveal(Seq::filter);
            assert(m == pred(e));
        }
        if m {
            out.push(e);
        }
    }
    proof {
        assert(orig.take(orig.len() as int) =~= orig);
    }
    out
}

/// Keeps exactly the entities of the `scene` domain, in their original order.
pub fn filter_scenes(states: Vec<StateDto>) -> (r: Vec<StateDto>)
    ensures
        r@ == states@.filter(scene_pred()),
{
    let ghost pred = scene_pred();
    let ghost orig = states@;
    let mut rest = states;
    let mut out: Vec<StateDto> = Vec::new();
    proof {
        reveal(Seq::filter);
        assert(orig.take(0) =~= Seq::<StateDto>::empty());
        assert(out@ =~= orig.take(0).filter(pred));
        assert(rest@ =~= orig.skip(0));
    }
    while rest.len() > 0
        invariant
            rest@.len() <= orig.len(),
            rest@ == orig.skip(orig.len() - rest@.len()),
            out@ == orig.take(orig.len() - rest@.len()).filter(pred),
            pred == scene_pred(),
        decreases rest.len(),
    {
        let ghost k = orig.len() - rest@.len();
        let e = rest.remove(0);
        let m = entity_matches_domain(e.entity_id.as_str(), "scene");
        proof {
            assert(e == orig[k]);
            assert(rest@ =~= orig.skip(k + 1));
            assert(orig.take(k + 1).drop_last() =~= orig.take(k));
            assert(orig.take(k + 1).last() == orig[k]);
            reveal(Seq::filter);
            assert(m == pred(e));
        }
        if m {
            out.push(e);
        }
    }
    proof {
        assert(orig.take(orig.len() as int) =~= orig);
    }
    out
}

} // verus!
