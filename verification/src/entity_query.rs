//! Filtering of the entity listing by query parameters.
//!
//! The distance test and the ordering by distance work on positions and are
//! done by the caller; here every entity carries the outcome of the distance
//! test as `within_radius`.
use vstd::prelude::*;
use crate::order::{contains_name, views};
use crate::text::{chars_equal, chars_of, parse_usize, parse_usize_spec};

verus! {

/// What the listing knows of one entity, as far as the filters ask.
pub struct EntityFacts {
    pub tags: Vec<String>,
    pub alive: Option<bool>,
    pub has_script: bool,
    pub machine_state: Option<String>,
    pub components: Vec<String>,
    /// Whether the entity lies within the requested radius of the requested
    /// point; true when no complete spatial query was given.
    pub within_radius: bool,
}

/// The filters of an entity listing request.
pub struct EntityFilter {
    pub tag: Option<String>,
    pub alive: Option<bool>,
    pub has_script: Option<bool>,
    /// Whether a `near_x` parameter was given (a number).
    pub near_x_given: bool,
    pub entity_state: Option<String>,
    pub component: Option<String>,
}

/// `str::parse::<bool>`: exactly `true` or `false`.
pub open spec fn parse_bool_spec(s: Seq<char>) -> Option<bool> {
    if s == "true"@ {
        Some(true)
    } else if s == "false"@ {
        Some(false)
    } else {
        None
    }
}

/// A query parameter read as a boolean; `None` when it is missing or is not
/// exactly `true` or `false`.
pub fn parse_bool_param(v: Option<&str>) -> (r: Option<bool>)
    ensures
        r == match v {
            Some(s) => parse_bool_spec(s@),
            None => None,
        },
{
    match v {
        Some(s) => {
            let c = chars_of(s);
            if chars_equal(&c, &chars_of("true")) {
                Some(true)
            } else if chars_equal(&c, &chars_of("false")) {
                Some(false)
            } else {
                None
            }
        },
        None => None,
    }
}

/// No filter is set, so the listing is returned whole.
pub open spec fn no_filters(f: EntityFilter) -> bool {
    &&& f.tag is None
    &&& f.alive is None
    &&& f.has_script is None
    &&& !f.near_x_given
    &&& f.entity_state is None
    &&& f.component is None
}

/// The entity passes every filter that is set.
pub open spec fn passes(e: EntityFacts, f: EntityFilter) -> bool {
    &&& (f.tag matches Some(t) ==> views(e.tags@).contains(t@))
    &&& (f.alive matches Some(a) ==> e.alive == Some(a))
    &&& (f.has_script matches Some(h) ==> e.has_script == h)
    &&& e.within_radius
    &&& (f.entity_state matches Some(s) ==> (e.machine_state matches Some(m) && m@ == s@))
    &&& (f.component matches Some(c) ==> views(e.components@).contains(c@))
}

/// The indices of the first `n` entities that are listed, in order.
pub open spec fn listed_prefix(es: Seq<EntityFacts>, f: EntityFilter, n: int) -> Seq<usize>
    decreases n,
{
    if n <= 0 {
        Seq::empty()
    } else {
        let rest = listed_prefix(es, f, n - 1);
        if no_filters(f) || passes(es[n - 1], f) {
            rest.push((n - 1) as usize)
        } else {
            rest
        }
    }
}

/// Whether one entity passes the filter (see `passes`).
pub fn entity_passes(e: &EntityFacts, f: &EntityFilter) -> (r: bool)
    ensures
        r == passes(*e, *f),
{
    match &f.tag {
        Some(t) => if !contains_name(&e.tags, t.as_str()) {
            return false;
        },
        None => {},
    }
    match f.alive {
        Some(a) => if e.alive != Some(a) {
            return false;
        },
        None => {},
    }
    match f.has_script {
        Some(h) => if e.has_script != h {
            return false;
        },
        None => {},
    }
    if !e.within_radius {
        return false;
    }
    match &f.entity_state {
        Some(s) => match &e.machine_state {
            Some(m) => if !chars_equal(&chars_of(m.as_str()), &chars_of(s.as_str())) {
                return false;
            },
            None => {
                return false;
            },
        },
        None => {},
    }
    match &f.component {
        Some(c) => if !contains_name(&e.components, c.as_str()) {
            return false;
        },
        None => {},
    }
    true
}

/// The indices of the listed entities, in their order: all of them when no
/// filter is set, else those that pass every filter that is set.
pub fn filter_entity_indices(es: &Vec<EntityFacts>, f: &EntityFilter) -> (r: Vec<usize>)
    ensures
        r@ == listed_prefix(es@, *f, es@.len() as int),
{
    let none = f.tag.is_none() && f.alive.is_none() && f.has_script.is_none() && !f.near_x_given
        && f.entity_state.is_none() && f.component.is_none();
    let mut out: Vec<usize> = Vec::new();
    let mut i: usize = 0;
    while i < es.len()
        invariant
            i <= es@.len(),
            none == no_filters(*f),
            out@ == listed_prefix(es@, *f, i as int),
        decreases es@.len() - i,
    {
        if none || entity_passes(&es[i], f) {
            out.push(i);
        }
        i += 1;
    }
    out
}

/// The first `limit` items, or all of them when no limit is given.
pub fn apply_limit<T>(items: &mut Vec<T>, limit: Option<usize>)
    ensures
        final(items)@ == match limit {
            Some(n) => if n < old(items)@.len() {
                old(items)@.take(n as int)
            } else {
                old(items)@
            },
            None => old(items)@,
        },
{
    match limit {
        Some(n) => items.truncate(n),
        None => {},
    }
}

/// The `limit` parameter read as a count; `None` when it is missing or not
/// a decimal number that fits `usize`.
pub fn parse_limit_param(v: Option<&str>) -> (r: Option<usize>)
    ensures
        r == match v {
            Some(s) => parse_usize_spec(s@),
            None => None,
        },
{
    match v {
        Some(s) => parse_usize(s),
        None => None,
    }
}

/// The position of the first entity, in listing order, whose network id is
/// `network_id`; `None` when no entity has it.
pub fn find_entity_by_network_id(network_ids: &Vec<u64>, network_id: u64) -> (r: Option<usize>)
    ensures
        r is None <==> !network_ids@.contains(network_id),
        r matches Some(i) ==> i < network_ids@.len() && network_ids@[i as int] == network_id && forall|j: int|
            0 <= j < i ==> network_ids@[j] != network_id,
{
    let mut i: usize = 0;
    while i < network_ids.len()
        invariant
            i <= network_ids@.len(),
            forall|j: int| 0 <= j < i ==> network_ids@[j] != network_id,
        decreases network_ids@.len() - i,
    {
        if network_ids[i] == network_id {
            return Some(i);
        }
        i += 1;
    }
    None
}

/// Every listed entity passes each filter that is set: it carries the tag
/// asked for, has the asked liveness, has (or lacks) a script as asked, is in
/// the asked state, carries the asked component, and lies within the radius;
/// listing indices are entities of the world, in increasing order.
pub proof fn lemma_listed_entities_pass_filters(es: Seq<EntityFacts>, f: EntityFilter, n: int)
    requires
        0 <= n <= es.len(),
        es.len() <= usize::MAX,
    ensures
        forall|k: int| #![trigger listed_prefix(es, f, n)[k]]
            0 <= k < listed_prefix(es, f, n).len() ==> {
                let i = listed_prefix(es, f, n)[k] as int;
                &&& 0 <= i < n
                &&& (f.has_script matches Some(h) ==> es[i].has_script == h)
                &&& (f.tag matches Some(t) ==> views(es[i].tags@).contains(t@))
                &&& (f.alive matches Some(a) ==> es[i].alive == Some(a))
                &&& (f.entity_state matches Some(s) ==> (es[i].machine_state matches Some(m) && m@ == s@))
                &&& (f.component matches Some(c) ==> views(es[i].components@).contains(c@))
                &&& (f.near_x_given ==> es[i].within_radius)
            },
        forall|a: int, b: int|
            0 <= a < b < listed_prefix(es, f, n).len() ==> listed_prefix(es, f, n)[a] < listed_prefix(es, f, n)[b],
    decreases n,
{
    if n > 0 {
        lemma_listed_entities_pass_filters(es, f, n - 1);
        let rest = listed_prefix(es, f, n - 1);
        let r = listed_prefix(es, f, n);
        assert forall|k: int| #![trigger r[k]] 0 <= k < r.len() implies ({
            let i = r[k] as int;
            &&& 0 <= i < n
            &&& (f.has_script matches Some(h) ==> es[i].has_script == h)
            &&& (f.tag matches Some(t) ==> views(es[i].tags@).contains(t@))
            &&& (f.alive matches Some(a) ==> es[i].alive == Some(a))
            &&& (f.entity_state matches Some(s) ==> (es[i].machine_state matches Some(m) && m@ == s@))
            &&& (f.component matches Some(c) ==> views(es[i].components@).contains(c@))
            &&& (f.near_x_given ==> es[i].within_radius)
        }) by {
            if k < rest.len() {
                assert(r[k] == rest[k]);
            } else {
                assert(r[k] == (n - 1) as usize);
                assert(no_filters(f) || passes(es[n - 1], f));
            }
        }
        assert forall|a: int, b: int| 0 <= a < b < r.len() implies r[a] < r[b] by {
            if b < rest.len() {
                assert(r[a] == rest[a] && r[b] == rest[b]);
            } else {
                assert(r[a] == rest[a]);
                assert(r[b] == (n - 1) as usize);
            }
        }
    }
}

/// An entity that passes every filter that is set is listed.
pub proof fn lemma_passing_entities_are_listed(es: Seq<EntityFacts>, f: EntityFilter, n: int, i: int)
    requires
        0 <= i < n <= es.len(),
        es.len() <= usize::MAX,
        passes(es[i], f),
    ensures
        listed_prefix(es, f, n).contains(i as usize),
    decreases n,
{
    if i < n - 1 {
        lemma_passing_entities_are_listed(es, f, n - 1, i);
        let rest = listed_prefix(es, f, n - 1);
        let k = choose|k: int| 0 <= k < rest.len() && rest[k] == i as usize;
        assert(listed_prefix(es, f, n)[k] == i as usize);
    } else {
        let rest = listed_prefix(es, f, n - 1);
        assert(listed_prefix(es, f, n)[rest.len() as int] == i as usize);
    }
}

} // verus!
