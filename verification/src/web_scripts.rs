//! Choosing the scripts that ship with a web export: the web backend runs Rhai,
//! so each script must compile there, as written or after conversion from
//! the Lua-compatible dialect; the others are dropped, with the bindings that
//! named them.
use vstd::prelude::*;
use crate::exports::{has_unhandled_lua_syntax, unhandled_lua_spec, wrap_rhai_source, wrap_rhai_spec};
use crate::order::{contains_name, sort_strings, sorted_views, views};
use crate::text::owned;

verus! {

/// The result of `rhai::Engine::new().compile(source).is_ok()`: whether the
/// default Rhai engine parses the source.
pub uninterp spec fn rhai_compiles(source: Seq<char>) -> bool;

/// Compiles `source` with a default `rhai::Engine` (`Engine::new`, then
/// `Engine::compile`) and reports whether it parsed.  The contract names the
/// result and says nothing more of it.
#[verifier::external_body]
fn rhai_source_compiles(source: &str) -> (r: bool)
    ensures
        r == rhai_compiles(source@),
{
    rhai::Engine::new().compile(source).is_ok()
}

/// A named script source.
pub struct ScriptEntry {
    pub name: String,
    pub source: String,
}

/// The scripts of a project as far as a web export concerns them.
pub struct WebScriptSet {
    /// Scripts by name, as in a map: no name occurs twice.
    pub scripts: Vec<ScriptEntry>,
    /// Names of the scripts that run once per frame for the whole world.
    pub global_scripts: Vec<String>,
    /// For each entity, the name of the script bound to it.
    pub entity_scripts: Vec<Option<String>>,
}

/// The names of the scripts, in order.
pub open spec fn script_names(s: Seq<ScriptEntry>) -> Seq<Seq<char>> {
    s.map_values(|e: ScriptEntry| e.name@)
}

/// What a web export did to the scripts.
pub struct ScriptStripSummary {
    pub scripts_removed: usize,
    pub scripts_transpiled: usize,
    pub entity_bindings_removed: usize,
    /// Names of the dropped scripts, sorted.
    pub removed_script_names: Vec<String>,
    /// Names of the scripts kept in converted form, sorted.
    pub transpiled_script_names: Vec<String>,
}

/// A script can run on the web backend: it compiles with its entry point
/// appended (global scripts get the global one) and uses no Lua construct the
/// backend cannot take.
pub open spec fn web_ok(source: Seq<char>, global: bool) -> bool {
    rhai_compiles(wrap_rhai_spec(source, !global)) && !unhandled_lua_spec(source)
}

/// The source a script ships with, given whether its source as written and
/// its conversion compile for its role: as written when that compiles and
/// uses no Lua construct the backend cannot take, else the conversion under
/// the same conditions; `None` when neither qualifies.  The flag says whether
/// the conversion was taken.
pub open spec fn shipped_with(source: Seq<char>, converted: Option<Seq<char>>, ok_written: bool, ok_converted: bool) -> Option<
    (Seq<char>, bool),
> {
    if ok_written && !unhandled_lua_spec(source) {
        Some((source, false))
    } else {
        match converted {
            Some(t) => if ok_converted && !unhandled_lua_spec(t) {
                Some((t, true))
            } else {
                None
            },
            None => None,
        }
    }
}

/// The source a script ships with: as written when that runs, else its
/// conversion when that runs; `None` when neither does.  The flag says
/// whether the conversion was taken.
pub open spec fn shipped_source(source: Seq<char>, converted: Option<Seq<char>>, global: bool) -> Option<
    (Seq<char>, bool),
> {
    shipped_with(
        source,
        converted,
        rhai_compiles(wrap_rhai_spec(source, !global)),
        match converted {
            Some(t) => rhai_compiles(wrap_rhai_spec(t, !global)),
            None => false,
        },
    )
}

pub open spec fn entry_names(s: Seq<ScriptEntry>) -> Seq<Seq<char>> {
    s.map_values(|e: ScriptEntry| e.name@)
}

pub open spec fn opt_view(o: Option<String>) -> Option<Seq<char>> {
    match o {
        Some(s) => Some(s@),
        None => None,
    }
}

/// The outcome for script `i` of a set.
pub open spec fn outcome_at(
    scripts: Seq<ScriptEntry>,
    converted: Seq<Option<String>>,
    globals: Seq<Seq<char>>,
    i: int,
) -> Option<(Seq<char>, bool)> {
    shipped_source(scripts[i].source@, opt_view(converted[i]), globals.contains(scripts[i].name@))
}

/// The scripts kept among the first `n`, as (name, shipped source), in order.
pub open spec fn kept_prefix(
    scripts: Seq<ScriptEntry>,
    converted: Seq<Option<String>>,
    globals: Seq<Seq<char>>,
    n: int,
) -> Seq<(Seq<char>, Seq<char>)>
    decreases n,
{
    if n <= 0 {
        Seq::empty()
    } else {
        let rest = kept_prefix(scripts, converted, globals, n - 1);
        match outcome_at(scripts, converted, globals, n - 1) {
            Some((src, _)) => rest.push((scripts[n - 1].name@, src)),
            None => rest,
        }
    }
}

/// The names of the scripts dropped among the first `n`, in order.
pub open spec fn removed_prefix(
    scripts: Seq<ScriptEntry>,
    converted: Seq<Option<String>>,
    globals: Seq<Seq<char>>,
    n: int,
) -> Seq<Seq<char>>
    decreases n,
{
    if n <= 0 {
        Seq::empty()
    } else {
        let rest = removed_prefix(scripts, converted, globals, n - 1);
        match outcome_at(scripts, converted, globals, n - 1) {
            Some(_) => rest,
            None => rest.push(scripts[n - 1].name@),
        }
    }
}

/// The names of the scripts among the first `n` kept in converted form, in order.
pub open spec fn transpiled_prefix(
    scripts: Seq<ScriptEntry>,
    converted: Seq<Option<String>>,
    globals: Seq<Seq<char>>,
    n: int,
) -> Seq<Seq<char>>
    decreases n,
{
    if n <= 0 {
        Seq::empty()
    } else {
        let rest = transpiled_prefix(scripts, converted, globals, n - 1);
        match outcome_at(scripts, converted, globals, n - 1) {
            Some((_, true)) => rest.push(scripts[n - 1].name@),
            _ => rest,
        }
    }
}

pub open spec fn pair_names(k: Seq<(Seq<char>, Seq<char>)>) -> Seq<Seq<char>> {
    k.map_values(|p: (Seq<char>, Seq<char>)| p.0)
}

/// The first `n` of `names` that are in `keep`, in order.
pub open spec fn retain_prefix(names: Seq<Seq<char>>, keep: Seq<Seq<char>>, n: int) -> Seq<Seq<char>>
    decreases n,
{
    if n <= 0 {
        Seq::empty()
    } else {
        let rest = retain_prefix(names, keep, n - 1);
        if keep.contains(names[n - 1]) {
            rest.push(names[n - 1])
        } else {
            rest
        }
    }
}

/// A binding survives when it names a kept script.
pub open spec fn binding_after(b: Option<Seq<char>>, keep: Seq<Seq<char>>) -> Option<Seq<char>> {
    match b {
        Some(nm) => if keep.contains(nm) {
            Some(nm)
        } else {
            None
        },
        None => None,
    }
}

/// How many of the first `n` bindings name a script that is not kept.
pub open spec fn broken_bindings(b: Seq<Option<String>>, keep: Seq<Seq<char>>, n: int) -> nat
    decreases n,
{
    if n <= 0 {
        0
    } else {
        broken_bindings(b, keep, n - 1) + match b[n - 1] {
            Some(nm) => if keep.contains(nm@) {
                0nat
            } else {
                1nat
            },
            None => 0nat,
        }
    }
}

/// Whether `source` compiles for the web backend, with the entry point for a
/// global script when `global`, for an entity script otherwise.
pub fn script_compiles_for_wasm(source: &str, global: bool) -> (r: bool)
    ensures
        r == rhai_compiles(wrap_rhai_spec(source@, !global)),
{
    let wrapped = wrap_rhai_source(source, !global);
    rhai_source_compiles(wrapped.as_str())
}

/// The source a script ships with (see `shipped_with`), from whether its
/// source as written and its conversion compile for its role.
pub fn ship_decision(source: &str, converted: &Option<String>, ok_written: bool, ok_converted: bool) -> (r: Option<
    (String, bool),
>)
    ensures
        match r {
            Some((s, c)) => shipped_with(source@, opt_view(*converted), ok_written, ok_converted) == Some(
                (s@, c),
            ),
            None => shipped_with(source@, opt_view(*converted), ok_written, ok_converted) is None,
        },
{
    if ok_written && !has_unhandled_lua_syntax(source) {
        return Some((owned(source), false));
    }
    match converted {
        Some(t) => if ok_converted && !has_unhandled_lua_syntax(t.as_str()) {
            Some((t.clone(), true))
        } else {
            None
        },
        None => None,
    }
}

/// Keeps the scripts that run on the web backend, as written or in
/// converted form (`converted[i]` is the Lua-to-Rhai conversion of script
/// `i`, when there is one), drops the others, and removes the global-script
/// entries and entity bindings that named a dropped script.
pub fn strip_web_incompatible_scripts(set: &mut WebScriptSet, converted: &Vec<Option<String>>) -> (r:
    ScriptStripSummary)
    requires
        converted@.len() == old(set).scripts@.len(),
        script_names(old(set).scripts@).no_duplicates(),
    ensures
        ({
            let scripts = old(set).scripts@;
            let globals = views(old(set).global_scripts@);
            let n = scripts.len() as int;
            let kept = kept_prefix(scripts, converted@, globals, n);
            let kept_names = pair_names(kept);
            &&& final(set).scripts@.map_values(|e: ScriptEntry| (e.name@, e.source@)) == kept
            &&& views(final(set).global_scripts@) == retain_prefix(globals, kept_names, globals.len() as int)
            &&& final(set).entity_scripts@.len() == old(set).entity_scripts@.len()
            &&& forall|i: int|
                0 <= i < old(set).entity_scripts@.len() ==> opt_view(
                    #[trigger] final(set).entity_scripts@[i],
                ) == binding_after(opt_view(old(set).entity_scripts@[i]), kept_names)
            &&& r.entity_bindings_removed == broken_bindings(
                old(set).entity_scripts@,
                kept_names,
                old(set).entity_scripts@.len() as int,
            )
            &&& sorted_views(r.removed_script_names@)
            &&& views(r.removed_script_names@).to_multiset() == removed_prefix(
                scripts,
                converted@,
                globals,
                n,
            ).to_multiset()
            &&& r.scripts_removed == removed_prefix(scripts, converted@, globals, n).len()
            &&& sorted_views(r.transpiled_script_names@)
            &&& views(r.transpiled_script_names@).to_multiset() == transpiled_prefix(
                scripts,
                converted@,
                globals,
                n,
            ).to_multiset()
            &&& r.scripts_transpiled == transpiled_prefix(scripts, converted@, globals, n).len()
        }),
{
    let ghost scripts0 = set.scripts@;
    let ghost globals0 = views(set.global_scripts@);
    let mut kept: Vec<ScriptEntry> = Vec::new();
    let mut removed: Vec<String> = Vec::new();
    let mut transpiled_names: Vec<String> = Vec::new();
    let mut i: usize = 0;
    while i < set.scripts.len()
        invariant
            i <= set.scripts@.len(),
            set.scripts@ == scripts0,
            views(set.global_scripts@) == globals0,
            converted@.len() == scripts0.len(),
            kept@.map_values(|e: ScriptEntry| (e.name@, e.source@)) == kept_prefix(
                scripts0,
                converted@,
                globals0,
                i as int,
            ),
            views(removed@) == removed_prefix(scripts0, converted@, globals0, i as int),
            views(transpiled_names@) == transpiled_prefix(scripts0, converted@, globals0, i as int),
            removed@.len() <= i,
            transpiled_names@.len() <= i,
        decreases set.scripts@.len() - i,
    {
        let entry = &set.scripts[i];
        let global = contains_name(&set.global_scripts, entry.name.as_str());
        let ghost before_kept = kept@;
        let ghost before_removed = removed@;
        let ghost before_tr = transpiled_names@;
        let ok_written = script_compiles_for_wasm(entry.source.as_str(), global);
        let ok_converted = if ok_written && !has_unhandled_lua_syntax(entry.source.as_str()) {
            false
        } else {
            match &converted[i] {
                Some(t) => script_compiles_for_wasm(t.as_str(), global),
                None => false,
            }
        };
        let decision = ship_decision(entry.source.as_str(), &converted[i], ok_written, ok_converted);
        assert(decision matches Some((s, c)) ==> outcome_at(scripts0, converted@, globals0, i as int) == Some(
            (s@, c),
        ));
        assert(decision is None ==> outcome_at(scripts0, converted@, globals0, i as int) is None);
        match decision {
            Some((src, conv)) => {
                let ghost sv = src@;
                kept.push(ScriptEntry { name: entry.name.clone(), source: src });
                if conv {
                    transpiled_names.push(entry.name.clone());
                    proof {
                        assert(views(transpiled_names@) =~= views(before_tr).push(scripts0[i as int].name@));
                    }
                }
                proof {
                    assert(kept@.map_values(|e: ScriptEntry| (e.name@, e.source@)) =~= before_kept.map_values(
                        |e: ScriptEntry| (e.name@, e.source@),
                    ).push((scripts0[i as int].name@, sv)));
                }
            },
            None => {
                removed.push(entry.name.clone());
                proof {
                    assert(views(removed@) =~= views(before_removed).push(scripts0[i as int].name@));
                }
            },
        }
        i += 1;
    }
    let ghost kept_view = kept@.map_values(|e: ScriptEntry| (e.name@, e.source@));
    let mut kept_names: Vec<String> = Vec::new();
    let mut k: usize = 0;
    while k < kept.len()
        invariant
            k <= kept@.len(),
            views(kept_names@) == pair_names(kept_view.take(k as int)),
            kept_view == kept@.map_values(|e: ScriptEntry| (e.name@, e.source@)),
        decreases kept@.len() - k,
    {
        let ghost before = kept_names@;
        kept_names.push(kept[k].name.clone());
        assert(kept_view[k as int].0 == kept@[k as int].name@);
        assert(kept_view.take(k + 1) =~= kept_view.take(k as int).push(kept_view[k as int]));
        assert(views(kept_names@) =~= views(before).push(kept@[k as int].name@));
        assert(pair_names(kept_view.take(k + 1)) =~= pair_names(kept_view.take(k as int)).push(kept_view[k as int].0));
        k += 1;
    }
    assert(kept_view.take(kept@.len() as int) =~= kept_view);
    let ghost kn = pair_names(kept_view);
    let mut new_globals: Vec<String> = Vec::new();
    let mut g: usize = 0;
    while g < set.global_scripts.len()
        invariant
            g <= set.global_scripts@.len(),
            views(set.global_scripts@) == globals0,
            views(kept_names@) == kn,
            views(new_globals@) == retain_prefix(globals0, kn, g as int),
        decreases set.global_scripts@.len() - g,
    {
        let name = &set.global_scripts[g];
        assert(globals0[g as int] == name@);
        if contains_name(&kept_names, name.as_str()) {
            new_globals.push(name.clone());
            assert(views(new_globals@) =~= retain_prefix(globals0, kn, g as int).push(name@));
        }
        g += 1;
    }
    let ghost bindings0 = set.entity_scripts@;
    let mut bindings_removed: usize = 0;
    let mut e: usize = 0;
    while e < set.entity_scripts.len()
        invariant
            e <= set.entity_scripts@.len(),
            set.entity_scripts@.len() == bindings0.len(),
            views(kept_names@) == kn,
            forall|j: int|
                0 <= j < e ==> opt_view(#[trigger] set.entity_scripts@[j]) == binding_after(
                    opt_view(bindings0[j]),
                    kn,
                ),
            forall|j: int| e <= j < bindings0.len() ==> #[trigger] set.entity_scripts@[j] == bindings0[j],
            bindings_removed == broken_bindings(bindings0, kn, e as int),
            bindings_removed <= e,
        decreases bindings0.len() - e,
    {
        let remove = match &set.entity_scripts[e] {
            Some(name) => !contains_name(&kept_names, name.as_str()),
            None => false,
        };
        if remove {
            set.entity_scripts.set(e, None);
            bindings_removed = bindings_removed + 1;
        }
        e += 1;
    }
    let removed_len = removed.len();
    let transpiled_len = transpiled_names.len();
    let removed_sorted = sort_strings(&removed);
    let transpiled_sorted = sort_strings(&transpiled_names);
    set.scripts = kept;
    set.global_scripts = new_globals;
    ScriptStripSummary {
        scripts_removed: removed_len,
        scripts_transpiled: transpiled_len,
        entity_bindings_removed: bindings_removed,
        removed_script_names: removed_sorted,
        transpiled_script_names: transpiled_sorted,
    }
}

/// Each script of a set is either shipped or dropped: the kept and dropped
/// counts add up to the number of scripts, and converted scripts are among
/// the kept ones.
pub proof fn lemma_strip_partitions(
    scripts: Seq<ScriptEntry>,
    converted: Seq<Option<String>>,
    globals: Seq<Seq<char>>,
    n: int,
)
    requires
        0 <= n <= scripts.len(),
        converted.len() == scripts.len(),
    ensures
        kept_prefix(scripts, converted, globals, n).len() + removed_prefix(scripts, converted, globals, n).len() == n,
        transpiled_prefix(scripts, converted, globals, n).len() <= kept_prefix(scripts, converted, globals, n).len(),
    decreases n,
{
    if n > 0 {
        lemma_strip_partitions(scripts, converted, globals, n - 1);
    }
}

/// Every shipped script runs on the web backend: it is one of the set's
/// scripts, and its shipped source passes the web check for that script's
/// global or entity role.
pub proof fn lemma_shipped_scripts_run(
    scripts: Seq<ScriptEntry>,
    converted: Seq<Option<String>>,
    globals: Seq<Seq<char>>,
    n: int,
)
    requires
        0 <= n <= scripts.len(),
        converted.len() == scripts.len(),
    ensures
        forall|j: int|
            0 <= j < kept_prefix(scripts, converted, globals, n).len() ==> exists|i: int|
                0 <= i < n && #[trigger] kept_prefix(scripts, converted, globals, n)[j].0
                    == scripts[i].name@ && web_ok(
                    kept_prefix(scripts, converted, globals, n)[j].1,
                    globals.contains(scripts[i].name@),
                ),
    decreases n,
{
    if n > 0 {
        lemma_shipped_scripts_run(scripts, converted, globals, n - 1);
        let k = kept_prefix(scripts, converted, globals, n);
        let rest = kept_prefix(scripts, converted, globals, n - 1);
        assert forall|j: int| 0 <= j < k.len() implies exists|i: int|
            0 <= i < n && #[trigger] k[j].0 == scripts[i].name@ && web_ok(
                k[j].1,
                globals.contains(scripts[i].name@),
            ) by {
            if j < rest.len() {
                assert(k[j] == rest[j]);
                let i = choose|i: int|
                    0 <= i < n - 1 && #[trigger] rest[j].0 == scripts[i].name@ && web_ok(
                        rest[j].1,
                        globals.contains(scripts[i].name@),
                    );
            } else {
                assert(k[j].0 == scripts[n - 1].name@);
            }
        }
    }
}

/// A script that already runs on the web backend for its role ships as
/// written: it is among the kept scripts with its own source.
pub proof fn lemma_web_ready_scripts_ship_unchanged(
    scripts: Seq<ScriptEntry>,
    converted: Seq<Option<String>>,
    globals: Seq<Seq<char>>,
    n: int,
)
    requires
        0 <= n <= scripts.len(),
        converted.len() == scripts.len(),
    ensures
        forall|i: int|
            0 <= i < n && web_ok(#[trigger] scripts[i].source@, globals.contains(scripts[i].name@))
                ==> kept_prefix(scripts, converted, globals, n).contains((scripts[i].name@, scripts[i].source@)),
    decreases n,
{
    if n > 0 {
        lemma_web_ready_scripts_ship_unchanged(scripts, converted, globals, n - 1);
        let k = kept_prefix(scripts, converted, globals, n);
        let rest = kept_prefix(scripts, converted, globals, n - 1);
        assert forall|i: int|
            0 <= i < n && web_ok(#[trigger] scripts[i].source@, globals.contains(scripts[i].name@)) implies k.contains(
            (scripts[i].name@, scripts[i].source@),
        ) by {
            if i < n - 1 {
                let j = choose|j: int| 0 <= j < rest.len() && rest[j] == (scripts[i].name@, scripts[i].source@);
                match outcome_at(scripts, converted, globals, n - 1) {
                    Some((src, _)) => {
                        assert(k == rest.push((scripts[n - 1].name@, src)));
                        assert(k[j] == rest[j]);
                    },
                    None => {},
                }
            } else {
                assert(outcome_at(scripts, converted, globals, n - 1) == Some((scripts[i].source@, false)));
                assert(k == rest.push((scripts[i].name@, scripts[i].source@)));
                assert(k[rest.len() as int] == (scripts[i].name@, scripts[i].source@));
            }
        }
    }
}

/// After stripping, the global-script list only names shipped scripts.
pub proof fn lemma_retained_globals_are_kept(names: Seq<Seq<char>>, keep: Seq<Seq<char>>, n: int)
    requires
        0 <= n <= names.len(),
    ensures
        forall|j: int|
            0 <= j < retain_prefix(names, keep, n).len() ==> keep.contains(
                #[trigger] retain_prefix(names, keep, n)[j],
            ),
        retain_prefix(names, keep, n).len() <= n,
    decreases n,
{
    if n > 0 {
        lemma_retained_globals_are_kept(names, keep, n - 1);
        let r = retain_prefix(names, keep, n);
        let rest = retain_prefix(names, keep, n - 1);
        assert forall|j: int| 0 <= j < r.len() implies keep.contains(#[trigger] r[j]) by {
            if j < rest.len() {
                assert(r[j] == rest[j]);
            }
        }
    }
}

/// A binding that survives stripping names a shipped script.
pub proof fn lemma_surviving_binding_is_kept(b: Option<Seq<char>>, keep: Seq<Seq<char>>)
    ensures
        binding_after(b, keep) matches Some(nm) ==> keep.contains(nm),
        binding_after(b, keep) is Some ==> binding_after(b, keep) == b,
{
}

/// A name is among the first `n` retained names exactly when it is among the
/// first `n` names and in `keep`.
proof fn lemma_retain_contains(names: Seq<Seq<char>>, keep: Seq<Seq<char>>, n: int, x: Seq<char>)
    requires
        0 <= n <= names.len(),
    ensures
        retain_prefix(names, keep, n).contains(x) <==> (keep.contains(x) && exists|i: int|
            0 <= i < n && names[i] == x),
    decreases n,
{
    if n > 0 {
        lemma_retain_contains(names, keep, n - 1, x);
        let rest = retain_prefix(names, keep, n - 1);
        let r = retain_prefix(names, keep, n);
        if keep.contains(names[n - 1]) {
            assert(r == rest.push(names[n - 1]));
            if r.contains(x) && !rest.contains(x) {
                let j = choose|j: int| 0 <= j < r.len() && r[j] == x;
                assert(j == rest.len());
            }
            if rest.contains(x) {
                let j = choose|j: int| 0 <= j < rest.len() && rest[j] == x;
                assert(r[j] == x);
            }
            if names[n - 1] == x {
                assert(r[rest.len() as int] == x);
            }
        }
    }
}

/// Stripping scripts that all ship as written keeps each of them as it is.
proof fn lemma_restrip_prefix(
    scripts: Seq<ScriptEntry>,
    converted: Seq<Option<String>>,
    globals: Seq<Seq<char>>,
    m: int,
)
    requires
        0 <= m <= scripts.len(),
        converted.len() == scripts.len(),
        forall|j: int|
            0 <= j < scripts.len() ==> #[trigger] outcome_at(scripts, converted, globals, j) == Some(
                (scripts[j].source@, false),
            ),
    ensures
        kept_prefix(scripts, converted, globals, m) == scripts.map_values(
            |e: ScriptEntry| (e.name@, e.source@),
        ).take(m),
        removed_prefix(scripts, converted, globals, m).len() == 0,
        transpiled_prefix(scripts, converted, globals, m).len() == 0,
    decreases m,
{
    if m > 0 {
        lemma_restrip_prefix(scripts, converted, globals, m - 1);
        assert(outcome_at(scripts, converted, globals, m - 1) == Some((scripts[m - 1].source@, false)));
        let v = scripts.map_values(|e: ScriptEntry| (e.name@, e.source@));
        assert(v.take(m) =~= v.take(m - 1).push(v[m - 1]));
    }
}

/// Stripping is idempotent: stripping the scripts that a strip kept, with
/// the global-script list it left, keeps every one of them unchanged, drops
/// none and converts none, whatever conversions are offered.
pub proof fn lemma_strip_idempotent(
    scripts: Seq<ScriptEntry>,
    converted: Seq<Option<String>>,
    globals: Seq<Seq<char>>,
    scripts2: Seq<ScriptEntry>,
    converted2: Seq<Option<String>>,
)
    requires
        converted.len() == scripts.len(),
        scripts2.map_values(|e: ScriptEntry| (e.name@, e.source@)) == kept_prefix(
            scripts,
            converted,
            globals,
            scripts.len() as int,
        ),
        converted2.len() == scripts2.len(),
    ensures
        ({
            let kept = kept_prefix(scripts, converted, globals, scripts.len() as int);
            let globals2 = retain_prefix(globals, pair_names(kept), globals.len() as int);
            &&& kept_prefix(scripts2, converted2, globals2, scripts2.len() as int) == kept
            &&& removed_prefix(scripts2, converted2, globals2, scripts2.len() as int).len() == 0
            &&& transpiled_prefix(scripts2, converted2, globals2, scripts2.len() as int).len() == 0
        }),
{
    let n = scripts.len() as int;
    let kept = kept_prefix(scripts, converted, globals, n);
    let kn = pair_names(kept);
    let globals2 = retain_prefix(globals, kn, globals.len() as int);
    let v2 = scripts2.map_values(|e: ScriptEntry| (e.name@, e.source@));
    lemma_shipped_scripts_run(scripts, converted, globals, n);
    assert forall|j: int| 0 <= j < scripts2.len() implies #[trigger] outcome_at(scripts2, converted2, globals2, j)
        == Some((scripts2[j].source@, false)) by {
        assert(v2[j] == kept[j]);
        let name = scripts2[j].name@;
        let i = choose|i: int|
            0 <= i < n && #[trigger] kept[j].0 == scripts[i].name@ && web_ok(
                kept[j].1,
                globals.contains(scripts[i].name@),
            );
        assert(kn[j] == name);
        assert(kn.contains(name));
        lemma_retain_contains(globals, kn, globals.len() as int, name);
        if globals.contains(name) {
            let g = choose|g: int| 0 <= g < globals.len() && globals[g] == name;
        }
        assert(globals2.contains(name) == globals.contains(name));
        assert(web_ok(scripts2[j].source@, globals2.contains(name)));
    }
    lemma_restrip_prefix(scripts2, converted2, globals2, scripts2.len() as int);
    assert(v2.take(scripts2.len() as int) =~= v2);
}

} // verus!
