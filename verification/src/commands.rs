//! The decisions the engine makes when it runs an API command: what a request
//! is checked against, which error it is answered with, and what is handed to
//! the world when it passes. The world itself (entities, rendering, files) is
//! driven from outside with the values these functions return.
use vstd::prelude::*;
use crate::order::{contains_name, lex_le, lex_le_chars, lemma_lex_le_total_order, views};
use crate::text::{chars_of, decimal_seq, decimal_string, occurs_at, occurs_at_exec, owned, string_of, trim_chars, trim_seq, trim_str};

verus! {

// ── Level ─────────────────────────────────────────────────────────────

/// The error for a level whose tile count is not `width * height`.
pub open spec fn tile_count_error(tiles_len: nat, width: nat, height: nat) -> Seq<char> {
    "Tile count "@ + decimal_seq(tiles_len) + " doesn't match "@ + decimal_seq(width) + "x"@
        + decimal_seq(height) + "="@ + decimal_seq(width * height)
}

/// A level is accepted exactly when it has one tile per cell.
pub fn check_set_level(width: usize, height: usize, tiles_len: usize) -> (r: Result<(), String>)
    requires
        width * height <= usize::MAX,
    ensures
        r is Ok <==> tiles_len == width * height,
        r is Err ==> r->Err_0@ == tile_count_error(tiles_len as nat, width as nat, height as nat),
{
    let cells: usize = width * height;
    if tiles_len == cells {
        return Ok(());
    }
    let mut m = owned("Tile count ");
    m.append(decimal_string(tiles_len as u64).as_str());
    m.append(" doesn't match ");
    m.append(decimal_string(width as u64).as_str());
    m.append("x");
    m.append(decimal_string(height as u64).as_str());
    m.append("=");
    m.append(decimal_string(cells as u64).as_str());
    Err(m)
}

// ── Network ids ───────────────────────────────────────────────────────

/// The id handed to a newly spawned entity and the counter after it.
pub fn allocate_network_id(next: u64) -> (r: (u64, u64))
    requires
        next < u64::MAX,
    ensures
        r == (next, (next + 1) as u64),
{
    (next, next + 1)
}

/// The ids `next`, `next + 1`, ... of `count` entities spawned one after
/// another.
pub open spec fn allocated_ids(next: u64, count: nat) -> Seq<u64> {
    Seq::new(count, |i: int| (next + i) as u64)
}

/// The ids handed to `count` entities spawned one after another (a pool being
/// filled), and the counter after them.
pub fn allocate_network_ids(next: u64, count: usize) -> (r: (Vec<u64>, u64))
    requires
        next + count <= u64::MAX,
    ensures
        r.0@ == allocated_ids(next, count as nat),
        r.1 == next + count,
{
    let mut ids: Vec<u64> = Vec::new();
    let mut cur: u64 = next;
    let mut k: usize = 0;
    while k < count
        invariant
            k <= count,
            next + count <= u64::MAX,
            cur == next + k,
            ids@ == Seq::new(k as nat, |i: int| (next + i) as u64),
        decreases count - k,
    {
        let (id, after) = allocate_network_id(cur);
        ids.push(id);
        cur = after;
        k += 1;
        assert(ids@ =~= Seq::new(k as nat, |i: int| (next + i) as u64));
    }
    (ids, cur)
}

/// Ids handed out one after another never repeat, and none is below the
/// counter they started from.
pub proof fn lemma_allocated_ids_distinct(next: u64, count: nat)
    requires
        next + count <= u64::MAX,
    ensures
        allocated_ids(next, count).no_duplicates(),
        forall|i: int| 0 <= i < count ==> #[trigger] allocated_ids(next, count)[i] >= next,
{
    let s = allocated_ids(next, count);
    assert forall|i: int, j: int| 0 <= i < s.len() && 0 <= j < s.len() && i != j implies s[i] != s[j] by {
        assert(s[i] == next + i);
        assert(s[j] == next + j);
    }
}

/// The id counter after a saved game is loaded: the saved counter, but never 0.
pub open spec fn restored_next_id(saved: u64) -> u64 {
    if saved >= 1 { saved } else { 1 }
}

// ── Names ─────────────────────────────────────────────────────────────

/// `s` ends with `t` (`str::ends_with`).
pub open spec fn ends_with_seq(s: Seq<char>, t: Seq<char>) -> bool {
    s.len() >= t.len() && occurs_at(s, t, s.len() - t.len())
}

fn ends_with_chars(s: &Vec<char>, t: &Vec<char>) -> (r: bool)
    ensures
        r == ends_with_seq(s@, t@),
{
    if s.len() < t.len() {
        return false;
    }
    occurs_at_exec(s, t, s.len() - t.len())
}

/// The file an asset is stored under: its trimmed name, with `.png` added when
/// it does not already end so.
pub open spec fn asset_file_spec(name: Seq<char>) -> Seq<char> {
    let t = trim_seq(name);
    if ends_with_seq(t, ".png"@) { t } else { t + ".png"@ }
}

/// The file name for an uploaded or generated asset; an empty (or blank) name
/// is refused.
pub fn asset_file_name(name: &str) -> (r: Result<String, String>)
    ensures
        r is Err <==> trim_seq(name@).len() == 0,
        r is Err ==> r->Err_0@ == "Asset name cannot be empty"@,
        r is Ok ==> r->Ok_0@ == asset_file_spec(name@),
{
    let t = trim_chars(&chars_of(name));
    if t.len() == 0 {
        return Err(owned("Asset name cannot be empty"));
    }
    let png = chars_of(".png");
    if ends_with_chars(&t, &png) {
        Ok(string_of(&t))
    } else {
        let mut f = string_of(&t);
        f.append(".png");
        Ok(f)
    }
}

/// A screen or conversation is refused when its name is blank; `what` names
/// the kind of thing in the error.
pub fn require_name(name: &str, what: &str) -> (r: Result<(), String>)
    ensures
        r is Err <==> trim_seq(name@).len() == 0,
        r is Err ==> r->Err_0@ == what@ + " name cannot be empty"@,
{
    let t = trim_chars(&chars_of(name));
    if t.len() == 0 {
        let mut m = owned(what);
        m.append(" name cannot be empty");
        return Err(m);
    }
    Ok(())
}

// ── Sprite sheets ─────────────────────────────────────────────────────

/// The states a sprite sheet defines: the trimmed names of its first `n`
/// animations, blank ones dropped, in order.
pub open spec fn sheet_states(names: Seq<Seq<char>>, n: int) -> Seq<Seq<char>>
    decreases n,
{
    if n <= 0 {
        Seq::empty()
    } else {
        let t = trim_seq(names[n - 1]);
        if t.len() == 0 { sheet_states(names, n - 1) } else { sheet_states(names, n - 1).push(t) }
    }
}

/// The frame count of each of those states: the animation's frame list length,
/// at least 1.
pub open spec fn sheet_frame_counts(names: Seq<Seq<char>>, lens: Seq<usize>, n: int) -> Seq<usize>
    decreases n,
{
    if n <= 0 {
        Seq::empty()
    } else {
        let t = trim_seq(names[n - 1]);
        let c: usize = if lens[n - 1] >= 1 { lens[n - 1] } else { 1 };
        if t.len() == 0 {
            sheet_frame_counts(names, lens, n - 1)
        } else {
            sheet_frame_counts(names, lens, n - 1).push(c)
        }
    }
}

/// The state a sheet's graph starts in: `idle` when the sheet defines it, else
/// the first state name in lexicographic order.
pub open spec fn is_default_state(states: Seq<Seq<char>>, d: Seq<char>) -> bool {
    if states.contains("idle"@) {
        d == "idle"@
    } else {
        states.contains(d) && forall|i: int| 0 <= i < states.len() ==> lex_le(d, #[trigger] states[i])
    }
}

/// What an accepted sprite sheet installs: the sheet under its trimmed name,
/// its rows (at least 1), and an animation graph with one state per named
/// animation. A later state of the same name replaces an earlier one.
pub struct SpriteSheetPlan {
    pub name: String,
    pub rows: u32,
    pub states: Vec<String>,
    pub frame_counts: Vec<usize>,
    pub default_state: String,
}

/// The least of the names in `v` in lexicographic order.
fn least_name(v: &Vec<String>) -> (r: String)
    requires
        v.len() > 0,
    ensures
        views(v@).contains(r@),
        forall|i: int| 0 <= i < v.len() ==> lex_le(r@, #[trigger] views(v@)[i]),
{
    let mut best: usize = 0;
    let mut bc = chars_of(v[0].as_str());
    let mut i: usize = 1;
    while i < v.len()
        invariant
            best < i <= v.len(),
            bc@ == v@[best as int]@,
            forall|j: int| 0 <= j < i ==> lex_le(v@[best as int]@, #[trigger] v@[j]@),
        decreases v.len() - i,
    {
        let c = chars_of(v[i].as_str());
        if !lex_le_chars(&bc, &c) {
            proof {
                lemma_lex_le_total_order(bc@, c@, c@);
                assert forall|j: int| 0 <= j < i + 1 implies lex_le(c@, #[trigger] v@[j]@) by {
                    lemma_lex_le_total_order(c@, bc@, v@[j]@);
                }
            }
            best = i;
            bc = c;
        }
        i += 1;
    }
    assert(views(v@)[best as int] == bc@);
    string_of(&bc)
}

/// Checks a sprite sheet upload and plans what it installs. `animation_names`
/// and `frame_lens` describe its animations, one entry each.
pub fn plan_sprite_sheet(
    name: &str,
    frame_width: u32,
    frame_height: u32,
    columns: u32,
    rows: u32,
    animation_names: &Vec<String>,
    frame_lens: &Vec<usize>,
) -> (r: Result<SpriteSheetPlan, String>)
    requires
        animation_names.len() == frame_lens.len(),
    ensures
        ({
            let states = sheet_states(views(animation_names@), animation_names@.len() as int);
            let named = trim_seq(name@).len() > 0;
            let sized = frame_width > 0 && frame_height > 0 && columns > 0;
            &&& !named ==> r is Err && r->Err_0@ == "Sprite sheet name cannot be empty"@
            &&& named && !sized ==> r is Err
                && r->Err_0@ == "Sprite sheet frame_width/frame_height/columns must be > 0"@
            &&& named && sized && states.len() == 0 ==> r is Err
                && r->Err_0@ == "Sprite sheet must include at least one named animation"@
            &&& r is Ok <==> (named && sized && states.len() > 0)
            &&& r is Ok ==> {
                let p = r->Ok_0;
                &&& p.name@ == trim_seq(name@)
                &&& p.rows == (if rows >= 1 { rows } else { 1 })
                &&& views(p.states@) == states
                &&& p.frame_counts@ == sheet_frame_counts(
                    views(animation_names@),
                    frame_lens@,
                    animation_names@.len() as int,
                )
                &&& is_default_state(states, p.default_state@)
            }
        }),
{
    let t = trim_chars(&chars_of(name));
    if t.len() == 0 {
        return Err(owned("Sprite sheet name cannot be empty"));
    }
    if frame_width == 0 || frame_height == 0 || columns == 0 {
        return Err(owned("Sprite sheet frame_width/frame_height/columns must be > 0"));
    }
    let ghost names = views(animation_names@);
    let mut states: Vec<String> = Vec::new();
    let mut counts: Vec<usize> = Vec::new();
    let mut i: usize = 0;
    while i < animation_names.len()
        invariant
            i <= animation_names.len() == frame_lens.len(),
            names == views(animation_names@),
            views(states@) == sheet_states(names, i as int),
            counts@ == sheet_frame_counts(names, frame_lens@, i as int),
        decreases animation_names.len() - i,
    {
        let s = trim_chars(&chars_of(animation_names[i].as_str()));
        assert(names[i as int] == animation_names@[i as int]@);
        if s.len() > 0 {
            states.push(string_of(&s));
            let c: usize = if frame_lens[i] >= 1 { frame_lens[i] } else { 1 };
            counts.push(c);
            assert(views(states@) =~= sheet_states(names, i as int).push(s@));
        }
        i += 1;
    }
    if states.len() == 0 {
        return Err(owned("Sprite sheet must include at least one named animation"));
    }
    let default_state = if contains_name(&states, "idle") {
        owned("idle")
    } else {
        least_name(&states)
    };
    let r: u32 = if rows >= 1 { rows } else { 1 };
    Ok(SpriteSheetPlan {
        name: string_of(&t),
        rows: r,
        states,
        frame_counts: counts,
        default_state,
    })
}

// ── Scripts ───────────────────────────────────────────────────────────

/// One recorded script error.
pub struct ScriptErrorEntry {
    pub script_name: String,
    pub entity_id: Option<u64>,
    pub error_message: String,
    pub frame: u64,
}

/// The errors of `errs` that do not belong to the script `name`, in order.
pub open spec fn without_script(errs: Seq<ScriptErrorEntry>, name: Seq<char>) -> Seq<ScriptErrorEntry>
    decreases errs.len(),
{
    if errs.len() == 0 {
        errs
    } else {
        let rest = without_script(errs.drop_last(), name);
        if errs.last().script_name@ == name { rest } else { rest.push(errs.last()) }
    }
}

/// Uploading a script again clears its earlier errors and keeps every error
/// of the other scripts, in order.
pub proof fn lemma_without_script(errs: Seq<ScriptErrorEntry>, name: Seq<char>)
    ensures
        forall|i: int|
            0 <= i < without_script(errs, name).len() ==> (#[trigger] without_script(errs, name)[i]).script_name@
                != name,
        forall|i: int|
            0 <= i < errs.len() && (#[trigger] errs[i]).script_name@ != name ==> without_script(
                errs,
                name,
            ).contains(errs[i]),
    decreases errs.len(),
{
    if errs.len() > 0 {
        let rest = errs.drop_last();
        lemma_without_script(rest, name);
        assert forall|i: int| 0 <= i < errs.len() && (#[trigger] errs[i]).script_name@ != name implies without_script(
            errs,
            name,
        ).contains(errs[i]) by {
            if i < errs.len() - 1 {
                assert(rest[i] == errs[i]);
                let k = choose|k: int| 0 <= k < without_script(rest, name).len() && without_script(rest, name)[k] == rest[i];
                assert(without_script(errs, name)[k] == errs[i]);
            } else {
                assert(errs.last() == errs[i]);
                assert(without_script(errs, name).last() == errs[i]);
            }
        }
    }
}

/// How the set of scripts that run every frame changes after a load.
pub enum AlwaysRunUpdate {
    /// The script joins it.
    Add,
    /// The script leaves it.
    Remove,
    /// Nothing changes.
    Unchanged,
}

/// The bookkeeping of a script upload once the engine has tried to load it:
/// the script's earlier errors are dropped, a failed load is recorded as a new
/// error, and a successful one puts the script in (or takes it out of) the set
/// that runs every frame, as `always_run` asks (absent means no).
pub fn record_script_load(
    errors: &mut Vec<ScriptErrorEntry>,
    name: &str,
    always_run: Option<bool>,
    outcome: &Result<(), String>,
) -> (r: AlwaysRunUpdate)
    ensures
        outcome is Ok ==> final(errors)@ == without_script(old(errors)@, name@),
        outcome matches Err(e) ==> ({
            let kept = without_script(old(errors)@, name@);
            let added = final(errors)@.last();
            &&& final(errors)@.len() == kept.len() + 1
            &&& final(errors)@.drop_last() == kept
            &&& added.script_name@ == name@
            &&& added.entity_id is None
            &&& added.error_message@ == "Script load failed: "@ + e@
            &&& added.frame == 0
        }),
        outcome is Err ==> r is Unchanged,
        outcome is Ok ==> (r is Add <==> always_run == Some(true)),
        outcome is Ok ==> (r is Remove <==> always_run != Some(true)),
{
    let mut rest: Vec<ScriptErrorEntry> = Vec::new();
    std::mem::swap(errors, &mut rest);
    let ghost orig = rest@;
    let target = chars_of(name);
    let mut k: usize = 0;
    assert(orig.len() == rest.len());
    while rest.len() > 0
        invariant
            orig.len() <= usize::MAX,
            k + rest@.len() == orig.len(),
            rest@ == orig.skip(k as int),
            errors@ == without_script(orig.take(k as int), name@),
            target@ == name@,
        decreases rest@.len(),
    {
        let e = rest.remove(0);
        assert(e == orig[k as int]);
        assert(orig.take(k + 1).drop_last() =~= orig.take(k as int));
        assert(orig.take(k + 1).last() == orig[k as int]);
        let same = crate::text::chars_equal(&chars_of(e.script_name.as_str()), &target);
        if !same {
            errors.push(e);
        }
        k += 1;
        assert(rest@ =~= orig.skip(k as int));
    }
    assert(orig.take(k as int) =~= orig);
    match outcome {
        Ok(()) => {
            if always_run == Some(true) {
                AlwaysRunUpdate::Add
            } else {
                AlwaysRunUpdate::Remove
            }
        },
        Err(err) => {
            let mut m = owned("Script load failed: ");
            m.append(err.as_str());
            errors.push(ScriptErrorEntry { script_name: owned(name), entity_id: None, error_message: m, frame: 0 });
            AlwaysRunUpdate::Unchanged
        },
    }
}

// ── Loading a saved game ──────────────────────────────────────────────

/// What a saved game holds, as far as the decisions of a load need.
pub struct SaveSummary {
    pub version: u32,
    pub animation_graphs: usize,
    pub sprite_sheets: usize,
    pub particle_presets: usize,
    pub next_network_id: u64,
}

/// What a load replaces: the libraries are restored from a save of format 2
/// or later, or from an older save that carries any of them; the id counter
/// is restored too.
pub struct LoadPlan {
    pub restore_animation_graphs: bool,
    pub restore_sprite_sheets: bool,
    pub restore_particle_presets: bool,
    pub next_network_id: u64,
}

/// Plans the load of a saved game.
pub fn plan_load(saved: &SaveSummary) -> (r: LoadPlan)
    ensures
        r.restore_animation_graphs == (saved.version >= 2 || saved.animation_graphs > 0),
        r.restore_sprite_sheets == (saved.version >= 2 || saved.sprite_sheets > 0),
        r.restore_particle_presets == (saved.version >= 2 || saved.particle_presets > 0),
        r.next_network_id == restored_next_id(saved.next_network_id),
        r.next_network_id >= 1,
{
    let modern = saved.version >= 2;
    LoadPlan {
        restore_animation_graphs: modern || saved.animation_graphs > 0,
        restore_sprite_sheets: modern || saved.sprite_sheets > 0,
        restore_particle_presets: modern || saved.particle_presets > 0,
        next_network_id: if saved.next_network_id >= 1 { saved.next_network_id } else { 1 },
    }
}

/// The id a restored entity gets and the counter after it: its saved id,
/// with the counter moved past that id when needed, or the next id when it
/// was saved without one.
pub open spec fn restore_id_step(next: u64, saved: Option<u64>) -> (u64, u64) {
    match saved {
        Some(id) => (id, if id >= next { (id + 1) as u64 } else { next }),
        None => (next, (next + 1) as u64),
    }
}

/// The ids the first `n` restored entities get, and the counter after them.
pub open spec fn restored_ids(next: u64, saved: Seq<Option<u64>>, n: int) -> (Seq<u64>, u64)
    decreases n,
{
    if n <= 0 {
        (Seq::empty(), next)
    } else {
        let (ids, cur) = restored_ids(next, saved, n - 1);
        let (id, after) = restore_id_step(cur, saved[n - 1]);
        (ids.push(id), after)
    }
}

/// Every saved id leaves room for the counter to move past it.
pub open spec fn saved_ids_fit(saved: Seq<Option<u64>>) -> bool {
    forall|j: int| 0 <= j < saved.len() ==> (#[trigger] saved[j] matches Some(id) ==> id + saved.len() < u64::MAX)
}

/// The entities of a loaded save get their saved ids back, in order; one
/// saved without an id gets the next free one. `next` is the counter the
/// load starts from (see `plan_load`).
pub fn restore_network_ids(next: u64, saved: &Vec<Option<u64>>) -> (r: (Vec<u64>, u64))
    requires
        next + saved@.len() < u64::MAX,
        saved_ids_fit(saved@),
    ensures
        (r.0@, r.1) == restored_ids(next, saved@, saved@.len() as int),
        forall|j: int| 0 <= j < r.0@.len() ==> #[trigger] r.0@[j] < r.1,
        r.1 >= next,
{
    let ghost bound: int = u64::MAX - saved@.len();
    let mut ids: Vec<u64> = Vec::new();
    let mut cur: u64 = next;
    let mut k: usize = 0;
    while k < saved.len()
        invariant
            k <= saved@.len(),
            bound == u64::MAX - saved@.len(),
            next < bound,
            forall|j: int| 0 <= j < saved@.len() ==> (#[trigger] saved@[j] matches Some(id) ==> id < bound),
            (ids@, cur) == restored_ids(next, saved@, k as int),
            next <= cur <= bound + k,
            forall|j: int| 0 <= j < ids@.len() ==> #[trigger] ids@[j] < cur,
        decreases saved@.len() - k,
    {
        let ghost prev = cur;
        let id: u64 = match saved[k] {
            Some(id) => {
                if id >= cur {
                    cur = id + 1;
                }
                id
            },
            None => {
                let (id, after) = allocate_network_id(cur);
                cur = after;
                id
            },
        };
        ids.push(id);
        k += 1;
        assert forall|j: int| 0 <= j < ids@.len() implies #[trigger] ids@[j] < cur by {
            if j < ids@.len() - 1 {
                assert(ids@[j] < prev);
            }
        }
    }
    (ids, cur)
}

/// After a load, ids handed out for new entities lie past every restored id:
/// the counter is above each of them, and ids allocated from it never repeat
/// one.
pub proof fn lemma_new_ids_after_restore(next: u64, saved: Seq<Option<u64>>, count: nat)
    requires
        next + saved.len() < u64::MAX,
        saved_ids_fit(saved),
        restored_ids(next, saved, saved.len() as int).1 + count <= u64::MAX,
    ensures
        ({
            let (ids, after) = restored_ids(next, saved, saved.len() as int);
            forall|i: int, j: int|
                0 <= i < count && 0 <= j < ids.len() ==> #[trigger] allocated_ids(after, count)[i] != #[trigger] ids[j]
        }),
{
    lemma_restored_below(next, saved, saved.len() as int);
}

proof fn lemma_restored_below(next: u64, saved: Seq<Option<u64>>, n: int)
    requires
        0 <= n <= saved.len(),
        next + saved.len() < u64::MAX,
        saved_ids_fit(saved),
    ensures
        ({
            let (ids, cur) = restored_ids(next, saved, n);
            &&& ids.len() == n
            &&& next <= cur <= u64::MAX - saved.len() + n
            &&& forall|j: int| 0 <= j < ids.len() ==> #[trigger] ids[j] < cur
        }),
    decreases n,
{
    if n > 0 {
        lemma_restored_below(next, saved, n - 1);
    }
}

/// The first `n` submitted script names that are not among the loaded ones.
pub open spec fn missing_scripts(submitted: Seq<Seq<char>>, loaded: Seq<Seq<char>>, n: int) -> Seq<Seq<char>>
    decreases n,
{
    if n <= 0 {
        Seq::empty()
    } else if loaded.contains(submitted[n - 1]) {
        missing_scripts(submitted, loaded, n - 1)
    } else {
        missing_scripts(submitted, loaded, n - 1).push(submitted[n - 1])
    }
}

proof fn lemma_missing_len(submitted: Seq<Seq<char>>, loaded: Seq<Seq<char>>, n: int)
    requires
        0 <= n,
    ensures
        missing_scripts(submitted, loaded, n).len() <= n,
    decreases n,
{
    if n > 0 {
        lemma_missing_len(submitted, loaded, n - 1);
    }
}

/// The warning for scripts of a save that did not load.
pub open spec fn failed_scripts_warning(failed: Seq<Seq<char>>) -> Seq<char> {
    decimal_seq(failed.len()) + " script(s) failed to load: "@
        + crate::exports::join_with(failed, failed.len() as int, ", "@)
}

/// How the scripts of a loaded save fared.
pub struct ScriptImportReport {
    pub scripts_loaded: usize,
    /// The scripts that did not load, in lexicographic order.
    pub scripts_failed: Vec<String>,
    pub warnings: Vec<String>,
}

/// Compares the scripts a save submitted with those the engine holds after
/// restoring it.
pub fn script_import_report(submitted: &Vec<String>, loaded: &Vec<String>) -> (r: ScriptImportReport)
    ensures
        ({
            let missing = missing_scripts(views(submitted@), views(loaded@), submitted@.len() as int);
            &&& crate::order::sorted_views(r.scripts_failed@)
            &&& views(r.scripts_failed@).to_multiset() == missing.to_multiset()
            &&& r.scripts_failed@.len() == missing.len()
            &&& r.scripts_loaded + r.scripts_failed@.len() == submitted@.len()
            &&& missing.len() == 0 ==> r.warnings@.len() == 0
            &&& missing.len() > 0 ==> r.warnings@.len() == 1
                && r.warnings@[0]@ == failed_scripts_warning(views(r.scripts_failed@))
        }),
{
    let ghost sub = views(submitted@);
    let ghost ld = views(loaded@);
    let mut missing: Vec<String> = Vec::new();
    let mut i: usize = 0;
    while i < submitted.len()
        invariant
            i <= submitted.len(),
            sub == views(submitted@),
            ld == views(loaded@),
            views(missing@) == missing_scripts(sub, ld, i as int),
        decreases submitted.len() - i,
    {
        assert(sub[i as int] == submitted@[i as int]@);
        if !contains_name(loaded, submitted[i].as_str()) {
            let s = submitted[i].clone();
            missing.push(s);
            assert(views(missing@) =~= missing_scripts(sub, ld, i as int).push(sub[i as int]));
        }
        i += 1;
    }
    proof {
        lemma_missing_len(sub, ld, submitted@.len() as int);
    }
    let failed = crate::order::sort_strings(&missing);
    proof {
        vstd::seq_lib::to_multiset_len(views(failed@));
        vstd::seq_lib::to_multiset_len(views(missing@));
    }
    let n = failed.len();
    let mut warnings: Vec<String> = Vec::new();
    if n > 0 {
        let mut w = decimal_string(n as u64);
        w.append(" script(s) failed to load: ");
        let joined = crate::exports::join_first(&failed, n, ", ");
        w.append(joined.as_str());
        warnings.push(w);
    }
    ScriptImportReport { scripts_loaded: submitted.len() - n, scripts_failed: failed, warnings }
}

/// What loading a saved game reports.
pub struct ImportSummary {
    pub entities_spawned: usize,
    pub scripts_loaded: usize,
    /// The scripts that did not load, in lexicographic order.
    pub scripts_failed: Vec<String>,
    pub config_applied: bool,
    pub tilemap_applied: bool,
    pub animation_graphs: usize,
    pub sprite_sheets: usize,
    pub warnings: Vec<String>,
}

/// The report of a load: every saved entity is spawned, the configuration
/// and tile map are applied, the saved libraries are counted, and the
/// scripts fare as `script_import_report` says.
pub fn import_summary(saved: &SaveSummary, entity_count: usize, submitted: &Vec<String>, loaded: &Vec<String>) -> (r:
    ImportSummary)
    ensures
        r.entities_spawned == entity_count,
        r.config_applied,
        r.tilemap_applied,
        r.animation_graphs == saved.animation_graphs,
        r.sprite_sheets == saved.sprite_sheets,
        ({
            let missing = missing_scripts(views(submitted@), views(loaded@), submitted@.len() as int);
            &&& crate::order::sorted_views(r.scripts_failed@)
            &&& views(r.scripts_failed@).to_multiset() == missing.to_multiset()
            &&& r.scripts_failed@.len() == missing.len()
            &&& r.scripts_loaded + r.scripts_failed@.len() == submitted@.len()
            &&& missing.len() == 0 ==> r.warnings@.len() == 0
            &&& missing.len() > 0 ==> r.warnings@.len() == 1
                && r.warnings@[0]@ == failed_scripts_warning(views(r.scripts_failed@))
        }),
{
    let report = script_import_report(submitted, loaded);
    ImportSummary {
        entities_spawned: entity_count,
        scripts_loaded: report.scripts_loaded,
        scripts_failed: report.scripts_failed,
        config_applied: true,
        tilemap_applied: true,
        animation_graphs: saved.animation_graphs,
        sprite_sheets: saved.sprite_sheets,
        warnings: report.warnings,
    }
}

// ── Entity listings ───────────────────────────────────────────────────

/// Which components an entity carries.
pub struct ComponentFlags {
    pub player: bool,
    pub gravity: bool,
    pub collider: bool,
    pub horizontal_mover: bool,
    pub jumper: bool,
    pub top_down_mover: bool,
    pub health: bool,
    pub contact_damage: bool,
    pub trigger_zone: bool,
    pub pickup: bool,
    pub projectile: bool,
    pub hitbox: bool,
    pub moving_platform: bool,
    pub animation_controller: bool,
    pub path_follower: bool,
    pub ai_behavior: bool,
    pub particle_emitter: bool,
}

/// `name` when `present`, else nothing.
#[verifier::opaque]
pub open spec fn name_if(present: bool, name: Seq<char>) -> Seq<Seq<char>> {
    if present { seq![name] } else { Seq::empty() }
}

/// The movement components an entity's description lists, in order.
pub open spec fn movement_components(f: ComponentFlags) -> Seq<Seq<char>> {
    let s = name_if(f.player, "Player"@);
    let s = s + name_if(f.gravity, "GravityBody"@);
    let s = s + name_if(f.collider, "Collider"@);
    let s = s + name_if(f.horizontal_mover, "HorizontalMover"@);
    let s = s + name_if(f.jumper, "Jumper"@);
    s + name_if(f.top_down_mover, "TopDownMover"@)
}

/// The gameplay components an entity's description lists, in order.
pub open spec fn gameplay_components(f: ComponentFlags) -> Seq<Seq<char>> {
    let s = name_if(f.health, "Health"@);
    let s = s + name_if(f.contact_damage, "ContactDamage"@);
    let s = s + name_if(f.trigger_zone, "TriggerZone"@);
    let s = s + name_if(f.pickup, "Pickup"@);
    let s = s + name_if(f.projectile, "Projectile"@);
    let s = s + name_if(f.hitbox, "Hitbox"@);
    s + name_if(f.moving_platform, "MovingPlatform"@)
}

/// The behaviour components an entity's description lists, in order.
pub open spec fn behaviour_components(f: ComponentFlags) -> Seq<Seq<char>> {
    let s = name_if(f.animation_controller, "AnimationController"@);
    let s = s + name_if(f.path_follower, "PathFollower"@);
    let s = s + name_if(f.ai_behavior, "AiBehavior"@);
    s + name_if(f.particle_emitter, "ParticleEmitter"@)
}

/// The component names an entity's description lists, in this fixed order.
pub open spec fn component_names_spec(f: ComponentFlags) -> Seq<Seq<char>> {
    movement_components(f) + gameplay_components(f) + behaviour_components(f)
}

fn push_name_if(v: &mut Vec<String>, present: bool, name: &str)
    ensures
        views(final(v)@) == views(old(v)@) + name_if(present, name@),
{
    reveal(name_if);
    if present {
        v.push(owned(name));
        assert(views(v@) =~= views(old(v)@) + name_if(present, name@));
    } else {
        assert(views(v@) =~= views(old(v)@) + name_if(present, name@));
    }
}

/// The parts of an entity's description that are decided from its
/// components and tags.
pub struct EntityInfoSummary {
    pub components: Vec<String>,
    /// The entity's tags, in lexicographic order.
    pub tags: Vec<String>,
}

fn push_movement_components(c: &mut Vec<String>, f: &ComponentFlags)
    ensures
        views(final(c)@) == views(old(c)@) + movement_components(*f),
{
    let ghost start = views(c@);
    push_name_if(c, f.player, "Player");
    push_name_if(c, f.gravity, "GravityBody");
    push_name_if(c, f.collider, "Collider");
    push_name_if(c, f.horizontal_mover, "HorizontalMover");
    push_name_if(c, f.jumper, "Jumper");
    push_name_if(c, f.top_down_mover, "TopDownMover");
    assert(views(c@) =~= start + movement_components(*f));
}

fn push_gameplay_components(c: &mut Vec<String>, f: &ComponentFlags)
    ensures
        views(final(c)@) == views(old(c)@) + gameplay_components(*f),
{
    let ghost start = views(c@);
    push_name_if(c, f.health, "Health");
    push_name_if(c, f.contact_damage, "ContactDamage");
    push_name_if(c, f.trigger_zone, "TriggerZone");
    push_name_if(c, f.pickup, "Pickup");
    push_name_if(c, f.projectile, "Projectile");
    push_name_if(c, f.hitbox, "Hitbox");
    push_name_if(c, f.moving_platform, "MovingPlatform");
    assert(views(c@) =~= start + gameplay_components(*f));
}

fn push_behaviour_components(c: &mut Vec<String>, f: &ComponentFlags)
    ensures
        views(final(c)@) == views(old(c)@) + behaviour_components(*f),
{
    let ghost start = views(c@);
    push_name_if(c, f.animation_controller, "AnimationController");
    push_name_if(c, f.path_follower, "PathFollower");
    push_name_if(c, f.ai_behavior, "AiBehavior");
    push_name_if(c, f.particle_emitter, "ParticleEmitter");
    assert(views(c@) =~= start + behaviour_components(*f));
}

/// The component list and the sorted tags of an entity's description.
pub fn entity_info_summary(flags: &ComponentFlags, tags: &Vec<String>) -> (r: EntityInfoSummary)
    ensures
        views(r.components@) == component_names_spec(*flags),
        crate::order::sorted_views(r.tags@),
        views(r.tags@).to_multiset() == views(tags@).to_multiset(),
{
    let mut c: Vec<String> = Vec::new();
    assert(views(c@) =~= Seq::<Seq<char>>::empty());
    push_movement_components(&mut c, flags);
    push_gameplay_components(&mut c, flags);
    push_behaviour_components(&mut c, flags);
    assert(views(c@) =~= component_names_spec(*flags));
    EntityInfoSummary { components: c, tags: crate::order::sort_strings(tags) }
}

// ── Entity animation ──────────────────────────────────────────────────

/// The error for a state the entity's animation graph does not define.
pub open spec fn unknown_state_error(state: Seq<char>, graph: Seq<char>) -> Seq<char> {
    "Animation state '"@ + state + "' not found in graph '"@ + graph + "'"@
}

/// Decides a request to put an entity's animation in the state `state_name`.
/// `graph_states` holds the states of the entity's graph when the library
/// knows that graph. On success the trimmed state name is returned; the
/// caller then restarts the animation in it.
pub fn check_animation_state(
    entity_found: bool,
    state_name: &str,
    has_controller: bool,
    graph: &str,
    graph_states: Option<&Vec<String>>,
) -> (r: Result<String, String>)
    ensures
        ({
            let t = trim_seq(state_name@);
            let unknown = match graph_states {
                Some(states) => !views(states@).contains(t),
                None => false,
            };
            &&& !entity_found ==> r is Err && r->Err_0@ == "Entity not found"@
            &&& entity_found && t.len() == 0 ==> r is Err && r->Err_0@ == "Animation state cannot be empty"@
            &&& entity_found && t.len() > 0 && !has_controller ==> r is Err
                && r->Err_0@ == "Entity has no AnimationController"@
            &&& entity_found && t.len() > 0 && has_controller && unknown ==> r is Err
                && r->Err_0@ == unknown_state_error(t, graph@)
            &&& r is Ok <==> (entity_found && t.len() > 0 && has_controller && !unknown)
            &&& r is Ok ==> r->Ok_0@ == t
        }),
{
    if !entity_found {
        return Err(owned("Entity not found"));
    }
    let t = trim_str(state_name);
    let tc = chars_of(t.as_str());
    if tc.len() == 0 {
        return Err(owned("Animation state cannot be empty"));
    }
    if !has_controller {
        return Err(owned("Entity has no AnimationController"));
    }
    match graph_states {
        Some(states) => {
            if !contains_name(states, t.as_str()) {
                let mut m = owned("Animation state '");
                m.append(t.as_str());
                m.append("' not found in graph '");
                m.append(graph);
                m.append("'");
                return Err(m);
            }
        },
        None => {},
    }
    Ok(t)
}

/// A graph must define at least one state before it is stored.
pub fn check_animation_graph(state_count: usize) -> (r: Result<(), String>)
    ensures
        r is Ok <==> state_count > 0,
        r is Err ==> r->Err_0@ == "Animation graph must define at least one state"@,
{
    if state_count == 0 {
        return Err(owned("Animation graph must define at least one state"));
    }
    Ok(())
}

// ── Audio ─────────────────────────────────────────────────────────────

/// What a request to play an effect and/or a track is answered: the first
/// unknown name, or a request with neither, is refused.
pub open spec fn play_request_spec(
    effects: Seq<Seq<char>>,
    tracks: Seq<Seq<char>>,
    sfx: Option<Seq<char>>,
    music: Option<Seq<char>>,
) -> Result<(), Seq<char>> {
    if sfx is Some && !effects.contains(sfx->0) {
        Err("Unknown sfx: "@ + sfx->0)
    } else if music is Some && !tracks.contains(music->0) {
        Err("Unknown music track: "@ + music->0)
    } else if sfx is None && music is None {
        Err("Request must include sfx or music"@)
    } else {
        Ok(())
    }
}

pub open spec fn opt_view(o: Option<&str>) -> Option<Seq<char>> {
    match o {
        Some(s) => Some(s@),
        None => None,
    }
}

pub open spec fn result_view(r: Result<(), String>) -> Result<(), Seq<char>> {
    match r {
        Ok(()) => Ok(()),
        Err(e) => Err(e@),
    }
}

/// Plays an effect and/or a track for an API request. The track becomes
/// current only when the effect (if any) is known and the track is defined.
pub fn play_audio_request(
    reg: &mut crate::audio::AudioRegistry,
    sfx: Option<&str>,
    music: Option<&str>,
) -> (r: Result<(), String>)
    ensures
        result_view(r) == play_request_spec(
            views(old(reg).sfx@),
            views(old(reg).music@),
            opt_view(sfx),
            opt_view(music),
        ),
        crate::audio::opt_str_view(final(reg).current_music) == (
        if music is Some && (sfx is None || views(old(reg).sfx@).contains(sfx->0@)) {
            crate::audio::play_music_spec(
                crate::audio::opt_str_view(old(reg).current_music),
                views(old(reg).music@),
                music->0@,
            ).0
        } else {
            crate::audio::opt_str_view(old(reg).current_music)
        }),
        final(reg).sfx@ == old(reg).sfx@,
        final(reg).music@ == old(reg).music@,
        final(reg).triggers@ == old(reg).triggers@,
{
    match sfx {
        Some(name) => {
            let res = reg.play_sfx(name);
            match res {
                Err(e) => {
                    return Err(e);
                },
                Ok(()) => {},
            }
        },
        None => {},
    }
    match music {
        Some(name) => {
            let res = reg.play_music(name);
            match res {
                Err(e) => {
                    return Err(e);
                },
                Ok(()) => {},
            }
        },
        None => {},
    }
    if sfx.is_none() && music.is_none() {
        return Err(owned("Request must include sfx or music"));
    }
    Ok(())
}

// ── Simulation and playtests ──────────────────────────────────────────

/// The most frames one simulation or playtest runs.
pub const MAX_SIM_FRAMES: u32 = 3600;

/// How a playtest controls the player.
pub enum PlaytestMode {
    Platformer,
    TopDown,
}

/// What a playtest tries to achieve.
pub enum PlaytestGoal {
    ReachGoal,
    Explore,
    Survive,
}

/// A playtest as it will run.
pub struct PlaytestPlan {
    pub frames: u32,
    pub mode: PlaytestMode,
    pub goal: PlaytestGoal,
}

/// Plans a playtest: at most 3600 frames; the mode asked for, or, when none
/// is named, platformer exactly when gravity pulls; the goal asked for, else
/// surviving. A playtest is refused while another runs.
pub fn plan_playtest(
    frames: u32,
    mode: Option<&str>,
    goal: Option<&str>,
    gravity_pulls: bool,
    running: bool,
) -> (r: Result<PlaytestPlan, String>)
    ensures
        r is Err <==> running,
        r is Err ==> r->Err_0@ == "A playtest is already running"@,
        r is Ok ==> ({
            let p = r->Ok_0;
            &&& p.frames == (if frames <= MAX_SIM_FRAMES { frames } else { MAX_SIM_FRAMES })
            &&& p.mode == (if opt_view(mode) == Some("platformer"@) {
                PlaytestMode::Platformer
            } else if opt_view(mode) == Some("top_down"@) {
                PlaytestMode::TopDown
            } else if gravity_pulls {
                PlaytestMode::Platformer
            } else {
                PlaytestMode::TopDown
            })
            &&& p.goal == (if opt_view(goal) == Some("reach_goal"@) {
                PlaytestGoal::ReachGoal
            } else if opt_view(goal) == Some("explore"@) {
                PlaytestGoal::Explore
            } else {
                PlaytestGoal::Survive
            })
        }),
{
    if running {
        return Err(owned("A playtest is already running"));
    }
    let f: u32 = if frames <= MAX_SIM_FRAMES { frames } else { MAX_SIM_FRAMES };
    let m = match mode {
        Some(s) => {
            if crate::text::str_equal(s, "platformer") {
                PlaytestMode::Platformer
            } else if crate::text::str_equal(s, "top_down") {
                PlaytestMode::TopDown
            } else if gravity_pulls {
                PlaytestMode::Platformer
            } else {
                PlaytestMode::TopDown
            }
        },
        None => if gravity_pulls {
            PlaytestMode::Platformer
        } else {
            PlaytestMode::TopDown
        },
    };
    let g = match goal {
        Some(s) => {
            if crate::text::str_equal(s, "reach_goal") {
                PlaytestGoal::ReachGoal
            } else if crate::text::str_equal(s, "explore") {
                PlaytestGoal::Explore
            } else {
                PlaytestGoal::Survive
            }
        },
        None => PlaytestGoal::Survive,
    };
    Ok(PlaytestPlan { frames: f, mode: m, goal: g })
}

/// A world simulation as it will run: its frame count (at most 3600) and how
/// often it records a snapshot (every 10 frames unless asked, at least 1).
pub struct SimulationPlan {
    pub frames: u32,
    pub record_interval: u32,
}

/// Plans a world simulation. A simulation in the live world is refused while
/// another one runs there.
pub fn plan_simulation(frames: u32, record_interval: Option<u32>, live: bool, live_running: bool) -> (r: Result<
    SimulationPlan,
    String,
>)
    ensures
        r is Err <==> (live && live_running),
        r is Err ==> r->Err_0@ == "A real simulation is already running"@,
        r is Ok ==> r->Ok_0.frames == (if frames <= MAX_SIM_FRAMES { frames } else { MAX_SIM_FRAMES }),
        r is Ok ==> r->Ok_0.record_interval == (match record_interval {
            Some(k) => if k >= 1 { k } else { 1 },
            None => 10,
        }),
{
    if live && live_running {
        return Err(owned("A real simulation is already running"));
    }
    let k: u32 = match record_interval {
        Some(k) => if k >= 1 { k } else { 1 },
        None => 10,
    };
    let f: u32 = if frames <= MAX_SIM_FRAMES { frames } else { MAX_SIM_FRAMES };
    Ok(SimulationPlan { frames: f, record_interval: k })
}

// ── Configuration overrides ───────────────────────────────────────────

/// A configuration field that a recipe or level pack may override.
#[derive(Debug, Clone, Copy, PartialEq, Eq, Structural)]
pub enum ConfigKey {
    Gravity,
    TileSize,
    MoveSpeed,
    JumpVelocity,
    FallMultiplier,
    CoyoteFrames,
    JumpBufferFrames,
    TileTypes,
}

/// The keys a configuration override may use.
pub open spec fn config_keys_spec() -> Seq<Seq<char>> {
    seq![
        "gravity"@,
        "tile_size"@,
        "move_speed"@,
        "jump_velocity"@,
        "fall_multiplier"@,
        "coyote_frames"@,
        "jump_buffer_frames"@,
        "tile_types"@,
    ]
}

/// The position of a field's key in `config_keys_spec`.
pub open spec fn config_key_index(k: ConfigKey) -> int {
    match k {
        ConfigKey::Gravity => 0,
        ConfigKey::TileSize => 1,
        ConfigKey::MoveSpeed => 2,
        ConfigKey::JumpVelocity => 3,
        ConfigKey::FallMultiplier => 4,
        ConfigKey::CoyoteFrames => 5,
        ConfigKey::JumpBufferFrames => 6,
        ConfigKey::TileTypes => 7,
    }
}

/// The field an override key names; any other key is refused. (The value is
/// read by the caller, which knows the field's type.)
pub fn config_override_key(key: &str) -> (r: Result<ConfigKey, String>)
    ensures
        r is Ok <==> config_keys_spec().contains(key@),
        r is Ok ==> config_keys_spec()[config_key_index(r->Ok_0)] == key@,
        r is Err ==> r->Err_0@ == "Unsupported config override key: "@ + key@,
{
    let ghost keys = config_keys_spec();
    let k = if crate::text::str_equal(key, "gravity") {
        ConfigKey::Gravity
    } else if crate::text::str_equal(key, "tile_size") {
        ConfigKey::TileSize
    } else if crate::text::str_equal(key, "move_speed") {
        ConfigKey::MoveSpeed
    } else if crate::text::str_equal(key, "jump_velocity") {
        ConfigKey::JumpVelocity
    } else if crate::text::str_equal(key, "fall_multiplier") {
        ConfigKey::FallMultiplier
    } else if crate::text::str_equal(key, "coyote_frames") {
        ConfigKey::CoyoteFrames
    } else if crate::text::str_equal(key, "jump_buffer_frames") {
        ConfigKey::JumpBufferFrames
    } else if crate::text::str_equal(key, "tile_types") {
        ConfigKey::TileTypes
    } else {
        assert(!keys.contains(key@)) by {
            if keys.contains(key@) {
                let i = choose|i: int| 0 <= i < keys.len() && keys[i] == key@;
                assert(0 <= i < 8);
            }
        }
        let mut m = owned("Unsupported config override key: ");
        m.append(key);
        return Err(m);
    };
    assert(keys[config_key_index(k)] == key@);
    Ok(k)
}

/// No configuration key is listed twice, so a key names exactly one field.
pub proof fn lemma_config_keys_distinct()
    ensures
        config_keys_spec().no_duplicates(),
{
    reveal_strlit("gravity");
    reveal_strlit("tile_size");
    reveal_strlit("move_speed");
    reveal_strlit("jump_velocity");
    reveal_strlit("fall_multiplier");
    reveal_strlit("coyote_frames");
    reveal_strlit("jump_buffer_frames");
    reveal_strlit("tile_types");
    let k = config_keys_spec();
    assert forall|i: int, j: int| 0 <= i < k.len() && 0 <= j < k.len() && i != j implies k[i] != k[j] by {
        if k[i] == k[j] {
            assert(k[i].len() == k[j].len());
            assert(k[i][0] == k[j][0]);
            assert(k[i][1] == k[j][1]);
            if k[i].len() > 5 {
                assert(k[i][5] == k[j][5]);
            }
        }
    }
}

/// The shape of a JSON value, as far as a configuration override reads it.
pub enum OverrideValue {
    /// A number; `unsigned` when it is a non-negative integer.
    Number { unsigned: bool },
    /// An array; for each element, whether it is a number.
    Array(Vec<bool>),
    /// An object; whether its `x` and `y` members are numbers.
    Object { x_is_number: bool, y_is_number: bool },
    /// Anything else.
    Other,
}

/// How a gravity override is written.
pub enum GravityForm {
    /// A number: the downward pull.
    Magnitude,
    /// `[x, y]`.
    Pair,
    /// `{x, y}`.
    Members,
}

/// What an accepted override sets.
pub enum OverrideAction {
    Gravity(GravityForm),
    Number(ConfigKey),
    Unsigned(ConfigKey),
    TileTypes,
}

/// The decision on an override of the field `k` (written as `key`) with a
/// value of the given shape; `tile_types_error` is the message of a failed
/// reading of a tile-type list.
pub open spec fn override_value_check(
    k: ConfigKey,
    key: Seq<char>,
    v: OverrideValue,
    tile_types_error: Option<Seq<char>>,
) -> Result<OverrideAction, Seq<char>> {
    match k {
        ConfigKey::Gravity => match v {
            OverrideValue::Number { .. } => Ok(OverrideAction::Gravity(GravityForm::Magnitude)),
            OverrideValue::Array(items) => if items@.len() != 2 {
                Err("gravity array must have exactly 2 elements"@)
            } else if !items@[0] {
                Err("gravity[0] must be a number"@)
            } else if !items@[1] {
                Err("gravity[1] must be a number"@)
            } else {
                Ok(OverrideAction::Gravity(GravityForm::Pair))
            },
            OverrideValue::Object { x_is_number, y_is_number } => if !x_is_number {
                Err("gravity.x must be a number"@)
            } else if !y_is_number {
                Err("gravity.y must be a number"@)
            } else {
                Ok(OverrideAction::Gravity(GravityForm::Members))
            },
            OverrideValue::Other => Err("gravity must be a number, [x,y], or {x,y}"@),
        },
        ConfigKey::CoyoteFrames | ConfigKey::JumpBufferFrames => match v {
            OverrideValue::Number { unsigned: true } => Ok(OverrideAction::Unsigned(k)),
            _ => Err(key + " must be an unsigned integer"@),
        },
        ConfigKey::TileTypes => match tile_types_error {
            None => Ok(OverrideAction::TileTypes),
            Some(e) => Err("Invalid tile_types override: "@ + e),
        },
        _ => match v {
            OverrideValue::Number { .. } => Ok(OverrideAction::Number(k)),
            _ => Err(key + " must be a number"@),
        },
    }
}

pub open spec fn opt_string_view(o: Option<&str>) -> Option<Seq<char>> {
    match o {
        Some(s) => Some(s@),
        None => None,
    }
}

/// The field whose key is `key` (meaningful when some field has that key).
pub open spec fn key_named(key: Seq<char>) -> ConfigKey {
    choose|k: ConfigKey| config_keys_spec()[config_key_index(k)] == key
}

/// The decision on one override: an unknown key is refused, else the value is
/// checked against the field the key names.
pub open spec fn override_check_spec(key: Seq<char>, v: OverrideValue, tile_types_error: Option<Seq<char>>) -> Result<
    OverrideAction,
    Seq<char>,
> {
    if config_keys_spec().contains(key) {
        override_value_check(key_named(key), key, v, tile_types_error)
    } else {
        Err("Unsupported config override key: "@ + key)
    }
}

pub open spec fn action_view(r: Result<OverrideAction, String>) -> Result<OverrideAction, Seq<char>> {
    match r {
        Ok(a) => Ok(a),
        Err(e) => Err(e@),
    }
}

/// Checks one configuration override: the key must name a field and the
/// value must have a shape that field takes. `tile_types_error` is the error
/// of reading the value as a tile-type list, when the key is `tile_types`.
pub fn check_config_override(key: &str, value: &OverrideValue, tile_types_error: Option<&str>) -> (r: Result<
    OverrideAction,
    String,
>)
    ensures
        action_view(r) == override_check_spec(key@, *value, opt_string_view(tile_types_error)),
{
    let k = match config_override_key(key) {
        Ok(k) => k,
        Err(e) => {
            return Err(e);
        },
    };
    proof {
        lemma_config_keys_distinct();
        let k2 = key_named(key@);
        assert(config_keys_spec()[config_key_index(k2)] == config_keys_spec()[config_key_index(k)]);
        assert(k2 == k);
    }
    match k {
        ConfigKey::Gravity => match value {
            OverrideValue::Number { .. } => Ok(OverrideAction::Gravity(GravityForm::Magnitude)),
            OverrideValue::Array(items) => {
                if items.len() != 2 {
                    Err(owned("gravity array must have exactly 2 elements"))
                } else if !items[0] {
                    Err(owned("gravity[0] must be a number"))
                } else if !items[1] {
                    Err(owned("gravity[1] must be a number"))
                } else {
                    Ok(OverrideAction::Gravity(GravityForm::Pair))
                }
            },
            OverrideValue::Object { x_is_number, y_is_number } => {
                if !*x_is_number {
                    Err(owned("gravity.x must be a number"))
                } else if !*y_is_number {
                    Err(owned("gravity.y must be a number"))
                } else {
                    Ok(OverrideAction::Gravity(GravityForm::Members))
                }
            },
            OverrideValue::Other => Err(owned("gravity must be a number, [x,y], or {x,y}")),
        },
        ConfigKey::CoyoteFrames | ConfigKey::JumpBufferFrames => match value {
            OverrideValue::Number { unsigned: true } => Ok(OverrideAction::Unsigned(k)),
            _ => {
                let mut m = owned(key);
                m.append(" must be an unsigned integer");
                Err(m)
            },
        },
        ConfigKey::TileTypes => match tile_types_error {
            None => Ok(OverrideAction::TileTypes),
            Some(e) => {
                let mut m = owned("Invalid tile_types override: ");
                m.append(e);
                Err(m)
            },
        },
        _ => match value {
            OverrideValue::Number { .. } => Ok(OverrideAction::Number(k)),
            _ => {
                let mut m = owned(key);
                m.append(" must be a number");
                Err(m)
            },
        },
    }
}

/// One entry of a configuration override object.
pub struct ConfigOverrideEntry {
    pub key: String,
    pub value: OverrideValue,
    /// The error of reading the value as a tile-type list, if that failed.
    pub tile_types_error: Option<String>,
}

/// A configuration override value: absent (JSON null), not an object, or an
/// object's entries in order.
pub enum ConfigOverrides {
    Null,
    NotObject,
    Entries(Vec<ConfigOverrideEntry>),
}

pub open spec fn entry_check(e: ConfigOverrideEntry) -> Result<OverrideAction, Seq<char>> {
    override_check_spec(
        e.key@,
        e.value,
        match e.tile_types_error {
            Some(t) => Some(t@),
            None => None,
        },
    )
}

/// Applies configuration overrides in order: returns the changes to make,
/// one per entry, up to the first entry that is refused, and that entry's
/// error. (Changes before a refused entry are still made.)
pub fn plan_config_overrides(overrides: &ConfigOverrides) -> (r: (Vec<OverrideAction>, Result<(), String>))
    ensures
        match overrides {
            ConfigOverrides::Null => r.0@.len() == 0 && r.1 is Ok,
            ConfigOverrides::NotObject => r.0@.len() == 0 && r.1 is Err && r.1->Err_0@
                == "config_overrides must be an object"@,
            ConfigOverrides::Entries(es) => {
                &&& r.0@.len() <= es@.len()
                &&& forall|k: int| 0 <= k < r.0@.len() ==> entry_check(#[trigger] es@[k]) == Ok::<
                    OverrideAction,
                    Seq<char>,
                >(r.0@[k])
                &&& r.1 is Ok ==> r.0@.len() == es@.len()
                &&& r.1 is Err ==> r.0@.len() < es@.len() && entry_check(es@[r.0@.len() as int])
                    == Err::<OverrideAction, Seq<char>>(r.1->Err_0@)
            },
        },
{
    match overrides {
        ConfigOverrides::Null => (Vec::new(), Ok(())),
        ConfigOverrides::NotObject => (Vec::new(), Err(owned("config_overrides must be an object"))),
        ConfigOverrides::Entries(es) => {
            let mut actions: Vec<OverrideAction> = Vec::new();
            let mut i: usize = 0;
            while i < es.len()
                invariant
                    *overrides == ConfigOverrides::Entries(*es),
                    i <= es@.len(),
                    actions@.len() == i,
                    forall|k: int| 0 <= k < i ==> entry_check(#[trigger] es@[k]) == Ok::<
                        OverrideAction,
                        Seq<char>,
                    >(actions@[k]),
                decreases es@.len() - i,
            {
                let e = &es[i];
                let tt = match &e.tile_types_error {
                    Some(t) => Some(t.as_str()),
                    None => None,
                };
                match check_config_override(e.key.as_str(), &e.value, tt) {
                    Ok(a) => {
                        actions.push(a);
                    },
                    Err(m) => {
                        return (actions, Err(m));
                    },
                }
                i += 1;
            }
            (actions, Ok(()))
        },
    }
}

// ── Bulk entity changes ───────────────────────────────────────────────

/// Which entities a bulk change targets. Explicit `ids` override every other
/// criterion.
pub struct BulkFilter {
    pub ids: Option<Vec<u64>>,
    pub tag: Option<String>,
    pub alive: Option<bool>,
    pub has_script: Option<bool>,
    pub component: Option<String>,
    pub entity_state: Option<String>,
}

/// An entity as a bulk filter sees it.
pub struct BulkCandidate {
    pub network_id: Option<u64>,
    pub tags: Vec<String>,
    /// Absent when the entity has no alive flag, which counts as alive.
    pub alive: Option<bool>,
    pub has_script: bool,
    pub flags: ComponentFlags,
    pub machine_state: Option<String>,
}

/// The components a bulk filter can ask for.
pub open spec fn bulk_components(f: ComponentFlags) -> Seq<Seq<char>> {
    let s = name_if(f.contact_damage, "ContactDamage"@);
    let s = s + name_if(f.trigger_zone, "TriggerZone"@);
    let s = s + name_if(f.pickup, "Pickup"@);
    let s = s + name_if(f.projectile, "Projectile"@);
    let s = s + name_if(f.hitbox, "Hitbox"@);
    let s = s + name_if(f.moving_platform, "MovingPlatform"@);
    s + name_if(f.ai_behavior, "AiBehavior"@)
}

/// An entity with a network id that meets every criterion that is set.
pub open spec fn bulk_matches(f: BulkFilter, e: BulkCandidate) -> bool {
    &&& e.network_id is Some
    &&& (f.tag matches Some(t) ==> views(e.tags@).contains(t@))
    &&& (f.alive matches Some(a) ==> (if e.alive is Some { e.alive->0 } else { true }) == a)
    &&& (f.has_script matches Some(h) ==> e.has_script == h)
    &&& (f.component matches Some(c) ==> bulk_components(e.flags).contains(c@))
    &&& (f.entity_state matches Some(st) ==> (e.machine_state matches Some(m) && m@ == st@))
}

/// The ids of the first `n` candidates that match, in order.
pub open spec fn bulk_matched_prefix(f: BulkFilter, es: Seq<BulkCandidate>, n: int) -> Seq<u64>
    decreases n,
{
    if n <= 0 {
        Seq::empty()
    } else if bulk_matches(f, es[n - 1]) {
        bulk_matched_prefix(f, es, n - 1).push(es[n - 1].network_id->0)
    } else {
        bulk_matched_prefix(f, es, n - 1)
    }
}

/// The first `n` explicit ids that name a known entity, in order.
pub open spec fn known_ids_prefix(ids: Seq<u64>, known: Seq<u64>, n: int) -> Seq<u64>
    decreases n,
{
    if n <= 0 {
        Seq::empty()
    } else if known.contains(ids[n - 1]) {
        known_ids_prefix(ids, known, n - 1).push(ids[n - 1])
    } else {
        known_ids_prefix(ids, known, n - 1)
    }
}

fn contains_id(v: &Vec<u64>, id: u64) -> (r: bool)
    ensures
        r == v@.contains(id),
{
    let mut i: usize = 0;
    while i < v.len()
        invariant
            i <= v.len(),
            forall|j: int| 0 <= j < i ==> v@[j] != id,
        decreases v.len() - i,
    {
        if v[i] == id {
            return true;
        }
        i += 1;
    }
    false
}

fn component_listed(f: &ComponentFlags, c: &str) -> (r: bool)
    ensures
        r == bulk_components(*f).contains(c@),
{
    let mut names: Vec<String> = Vec::new();
    assert(views(names@) =~= Seq::<Seq<char>>::empty());
    push_name_if(&mut names, f.contact_damage, "ContactDamage");
    assert(views(names@) =~= name_if(f.contact_damage, "ContactDamage"@));
    push_name_if(&mut names, f.trigger_zone, "TriggerZone");
    push_name_if(&mut names, f.pickup, "Pickup");
    push_name_if(&mut names, f.projectile, "Projectile");
    push_name_if(&mut names, f.hitbox, "Hitbox");
    push_name_if(&mut names, f.moving_platform, "MovingPlatform");
    push_name_if(&mut names, f.ai_behavior, "AiBehavior");
    contains_name(&names, c)
}

fn bulk_candidate_matches(f: &BulkFilter, e: &BulkCandidate) -> (r: bool)
    ensures
        r == bulk_matches(*f, *e),
{
    if e.network_id.is_none() {
        return false;
    }
    match &f.tag {
        Some(t) => if !contains_name(&e.tags, t.as_str()) {
            return false;
        },
        None => {},
    }
    match f.alive {
        Some(a) => {
            let is_alive = match e.alive {
                Some(v) => v,
                None => true,
            };
            if is_alive != a {
                return false;
            }
        },
        None => {},
    }
    match f.has_script {
        Some(h) => if e.has_script != h {
            return false;
        },
        None => {},
    }
    match &f.component {
        Some(c) => if !component_listed(&e.flags, c.as_str()) {
            return false;
        },
        None => {},
    }
    match &f.entity_state {
        Some(st) => match &e.machine_state {
            Some(m) => if !crate::text::str_equal(m.as_str(), st.as_str()) {
                return false;
            },
            None => {
                return false;
            },
        },
        None => {},
    }
    true
}

/// The network ids a bulk change applies to: the explicit ids that name a
/// known entity (`known_ids`), in the order given, or else the ids of the
/// candidates that match every criterion, in the world's order. The number
/// of ids is what the request reports as matched and mutated.
pub fn bulk_select(f: &BulkFilter, known_ids: &Vec<u64>, entities: &Vec<BulkCandidate>) -> (r: Vec<u64>)
    ensures
        r@ == match f.ids {
            Some(ids) => known_ids_prefix(ids@, known_ids@, ids@.len() as int),
            None => bulk_matched_prefix(*f, entities@, entities@.len() as int),
        },
{
    let mut out: Vec<u64> = Vec::new();
    match &f.ids {
        Some(ids) => {
            let mut i: usize = 0;
            while i < ids.len()
                invariant
                    i <= ids.len(),
                    out@ == known_ids_prefix(ids@, known_ids@, i as int),
                decreases ids.len() - i,
            {
                if contains_id(known_ids, ids[i]) {
                    out.push(ids[i]);
                }
                i += 1;
            }
        },
        None => {
            let mut i: usize = 0;
            while i < entities.len()
                invariant
                    i <= entities.len(),
                    f.ids is None,
                    out@ == bulk_matched_prefix(*f, entities@, i as int),
                decreases entities.len() - i,
            {
                if bulk_candidate_matches(f, &entities[i]) {
                    match entities[i].network_id {
                        Some(nid) => out.push(nid),
                        None => {},
                    }
                }
                i += 1;
            }
        },
    }
    out
}

// ── Game evaluation and health ────────────────────────────────────────

/// Whether the tile value `v` occurs in the map.
pub open spec fn tile_present(tiles: Seq<u8>, v: int) -> bool {
    exists|i: int| 0 <= i < tiles.len() && tiles[i] == v
}

/// How many of the tile values 1..=k occur in the map.
pub open spec fn variety_upto(tiles: Seq<u8>, k: int) -> nat
    decreases k,
{
    if k <= 0 {
        0
    } else {
        variety_upto(tiles, k - 1) + if tile_present(tiles, k) { 1nat } else { 0nat }
    }
}

/// The number of distinct non-empty tile values in the map.
pub open spec fn tile_variety_spec(tiles: Seq<u8>) -> nat {
    variety_upto(tiles, 255)
}

proof fn lemma_variety_bound(tiles: Seq<u8>, k: int)
    requires
        0 <= k,
    ensures
        variety_upto(tiles, k) <= k,
    decreases k,
{
    if k > 0 {
        lemma_variety_bound(tiles, k - 1);
    }
}

/// The number of distinct non-empty tile values in `tiles`.
pub fn tile_variety(tiles: &Vec<u8>) -> (r: usize)
    ensures
        r == tile_variety_spec(tiles@),
{
    let mut seen: Vec<bool> = Vec::new();
    let mut v: usize = 0;
    while v < 256
        invariant
            v <= 256,
            seen@.len() == v,
            forall|j: int| 0 <= j < v ==> !seen@[j],
        decreases 256 - v,
    {
        seen.push(false);
        v += 1;
    }
    let mut i: usize = 0;
    while i < tiles.len()
        invariant
            i <= tiles.len(),
            seen@.len() == 256,
            forall|t: int| 0 <= t < 256 ==> (#[trigger] seen@[t] <==> exists|j: int| 0 <= j < i && tiles@[j] == t),
        decreases tiles.len() - i,
    {
        let t = tiles[i] as usize;
        seen.set(t, true);
        proof {
            assert forall|u: int| 0 <= u < 256 implies (#[trigger] seen@[u] <==> exists|j: int|
                0 <= j < i + 1 && tiles@[j] == u) by {
                if u == t {
                    assert(tiles@[i as int] == u);
                } else {
                    if exists|j: int| 0 <= j < i + 1 && tiles@[j] == u {
                        let j = choose|j: int| 0 <= j < i + 1 && tiles@[j] == u;
                        assert(j != i);
                    }
                }
            }
        }
        i += 1;
    }
    let mut count: usize = 0;
    let mut k: usize = 1;
    while k < 256
        invariant
            1 <= k <= 256,
            seen@.len() == 256,
            i == tiles.len(),
            forall|t: int| 0 <= t < 256 ==> (#[trigger] seen@[t] <==> exists|j: int| 0 <= j < i && tiles@[j] == t),
            count == variety_upto(tiles@, k - 1),
            count <= k - 1,
        decreases 256 - k,
    {
        proof {
            lemma_variety_bound(tiles@, k as int);
        }
        if seen[k] {
            assert(tile_present(tiles@, k as int));
            count += 1;
        } else {
            assert(!tile_present(tiles@, k as int));
        }
        k += 1;
    }
    count
}

/// What an evaluation of the current game is computed from.
pub struct GameCensus {
    pub has_player: bool,
    pub has_enemies: bool,
    pub has_scripts: bool,
    pub script_errors: usize,
    pub entity_count: usize,
    pub game_vars_count: usize,
    pub has_goal: bool,
}

/// An evaluation of the current game: the distinct tile values, the problems
/// found, and an overall grade.
pub struct GameEvaluation {
    pub tile_variety: usize,
    pub issues: Vec<String>,
    pub overall: String,
}

/// The problems an evaluation reports, in order.
pub open spec fn evaluation_issues(c: GameCensus) -> Seq<Seq<char>> {
    let s = name_if(!c.has_player, "No player entity"@);
    let s = s + name_if(!c.has_enemies, "No enemy entities"@);
    let s = s + name_if(c.script_errors > 0, decimal_seq(c.script_errors as nat) + " script errors"@);
    s + name_if(!c.has_goal, "No goal tile set"@)
}

/// The overall grade of a game.
pub open spec fn evaluation_grade(c: GameCensus, variety: nat) -> Seq<char> {
    if !c.has_player || c.script_errors > 2 {
        "poor"@
    } else if !c.has_goal || c.script_errors > 0 || c.entity_count < 3 {
        "fair"@
    } else if !c.has_enemies || variety < 2 {
        "okay"@
    } else {
        "good"@
    }
}

/// Evaluates the current game from its census and its tile map.
pub fn evaluate_game(c: &GameCensus, tiles: &Vec<u8>) -> (r: GameEvaluation)
    ensures
        r.tile_variety == tile_variety_spec(tiles@),
        views(r.issues@) == evaluation_issues(*c),
        r.overall@ == evaluation_grade(*c, tile_variety_spec(tiles@)),
{
    let mut issues: Vec<String> = Vec::new();
    assert(views(issues@) =~= Seq::<Seq<char>>::empty());
    push_name_if(&mut issues, !c.has_player, "No player entity");
    assert(views(issues@) =~= name_if(!c.has_player, "No player entity"@));
    push_name_if(&mut issues, !c.has_enemies, "No enemy entities");
    let mut e = decimal_string(c.script_errors as u64);
    e.append(" script errors");
    push_name_if(&mut issues, c.script_errors > 0, e.as_str());
    push_name_if(&mut issues, !c.has_goal, "No goal tile set");
    let variety = tile_variety(tiles);
    let overall = if !c.has_player || c.script_errors > 2 {
        owned("poor")
    } else if !c.has_goal || c.script_errors > 0 || c.entity_count < 3 {
        owned("fair")
    } else if !c.has_enemies || variety < 2 {
        owned("okay")
    } else {
        owned("good")
    };
    GameEvaluation { tile_variety: variety, issues, overall }
}

/// What a health check reports besides the facts it was given.
pub struct HealthReport {
    pub tilemap_set: bool,
    pub issues: Vec<String>,
    pub status: String,
}

/// The problems a health check reports, in order.
pub open spec fn health_issues(has_player: bool, script_errors: usize, tilemap_set: bool) -> Seq<Seq<char>> {
    let s = name_if(!has_player, "No player entity"@);
    let s = s + name_if(script_errors > 0, decimal_seq(script_errors as nat) + " script error(s)"@);
    s + name_if(!tilemap_set, "No tilemap loaded"@)
}

/// Checks the health of the running game: a tile map is set when it has a
/// size and tiles; the status is healthy with no problem, unhealthy when a
/// script failed or the player is missing, else a warning.
pub fn health_check(has_player: bool, script_errors: usize, map_width: usize, map_height: usize, tile_count: usize) -> (r:
    HealthReport)
    ensures
        r.tilemap_set == (map_width > 0 && map_height > 0 && tile_count > 0),
        views(r.issues@) == health_issues(has_player, script_errors, r.tilemap_set),
        r.status@ == (if health_issues(has_player, script_errors, r.tilemap_set).len() == 0 {
            "healthy"@
        } else if script_errors > 0 || !has_player {
            "unhealthy"@
        } else {
            "warning"@
        }),
{
    let tilemap_set = map_width > 0 && map_height > 0 && tile_count > 0;
    let mut issues: Vec<String> = Vec::new();
    assert(views(issues@) =~= Seq::<Seq<char>>::empty());
    push_name_if(&mut issues, !has_player, "No player entity");
    assert(views(issues@) =~= name_if(!has_player, "No player entity"@));
    let mut e = decimal_string(script_errors as u64);
    e.append(" script error(s)");
    push_name_if(&mut issues, script_errors > 0, e.as_str());
    push_name_if(&mut issues, !tilemap_set, "No tilemap loaded");
    let status = if issues.len() == 0 {
        owned("healthy")
    } else if script_errors > 0 || !has_player {
        owned("unhealthy")
    } else {
        owned("warning")
    };
    HealthReport { tilemap_set, issues, status }
}

// ── Tile layers ───────────────────────────────────────────────────────

/// A decorative tile layer: its name and its tiles, one per map cell. (Its
/// drawing depth is kept by the caller, by the layer's position.)
pub struct TileLayerData {
    pub name: String,
    pub tiles: Vec<u8>,
}

pub open spec fn layer_views(s: Seq<TileLayerData>) -> Seq<(Seq<char>, Seq<u8>)> {
    s.map_values(|l: TileLayerData| (l.name@, l.tiles@))
}

/// The position of the first of the first `n` layers named `name`.
pub open spec fn find_layer(s: Seq<(Seq<char>, Seq<u8>)>, name: Seq<char>, n: int) -> Option<int>
    decreases n,
{
    if n <= 0 {
        None
    } else {
        match find_layer(s, name, n - 1) {
            Some(i) => Some(i),
            None => if s[n - 1].0 == name { Some(n - 1) } else { None },
        }
    }
}

/// The error for a layer whose tile count does not fit the map.
pub open spec fn layer_size_error(len: nat, width: nat, height: nat) -> Seq<char> {
    "Layer tiles length "@ + decimal_seq(len) + " doesn't match tilemap "@ + decimal_seq(width) + "x"@
        + decimal_seq(height) + " (expected "@ + decimal_seq(width * height) + ")"@
}

/// The layers after a layer `name` with `tiles` is stored: it replaces the
/// first layer of that name, or is added after the others.
pub open spec fn set_layer_spec(s: Seq<(Seq<char>, Seq<u8>)>, name: Seq<char>, tiles: Seq<u8>) -> Seq<
    (Seq<char>, Seq<u8>),
> {
    match find_layer(s, name, s.len() as int) {
        Some(i) => s.update(i, (name, tiles)),
        None => s.push((name, tiles)),
    }
}

/// Stores a tile layer: it replaces the tiles of the first layer of the same
/// name, or is added after the others. A layer must have one tile per map
/// cell. Returns the layer's position.
pub fn set_tile_layer(
    layers: &mut Vec<TileLayerData>,
    width: usize,
    height: usize,
    name: String,
    tiles: Vec<u8>,
) -> (r: Result<usize, String>)
    requires
        width * height <= usize::MAX,
    ensures
        tiles@.len() != width * height ==> r is Err && r->Err_0@ == layer_size_error(
            tiles@.len(),
            width as nat,
            height as nat,
        ) && final(layers)@ == old(layers)@,
        tiles@.len() == width * height ==> r is Ok && layer_views(final(layers)@) == set_layer_spec(
            layer_views(old(layers)@),
            name@,
            tiles@,
        ) && r->Ok_0 == match find_layer(layer_views(old(layers)@), name@, old(layers)@.len() as int) {
            Some(i) => i,
            None => old(layers)@.len() as int,
        },
{
    let cells: usize = width * height;
    if tiles.len() != cells {
        let mut m = owned("Layer tiles length ");
        m.append(decimal_string(tiles.len() as u64).as_str());
        m.append(" doesn't match tilemap ");
        m.append(decimal_string(width as u64).as_str());
        m.append("x");
        m.append(decimal_string(height as u64).as_str());
        m.append(" (expected ");
        m.append(decimal_string(cells as u64).as_str());
        m.append(")");
        return Err(m);
    }
    let ghost lv = layer_views(layers@);
    let mut i: usize = 0;
    while i < layers.len()
        invariant
            i <= layers.len(),
            layers@ == old(layers)@,
            lv == layer_views(layers@),
            tiles@.len() == width * height,
            find_layer(lv, name@, i as int) is None,
        decreases layers.len() - i,
    {
        if crate::text::str_equal(layers[i].name.as_str(), name.as_str()) {
            assert(lv[i as int].0 == name@);
            assert(find_layer(lv, name@, i + 1) == Some(i as int));
            proof {
                lemma_find_layer_stable(lv, name@, i + 1, lv.len() as int);
            }
            let ghost new_layer = (name@, tiles@);
            layers.set(i, TileLayerData { name, tiles });
            assert(layer_views(layers@) =~= lv.update(i as int, new_layer));
            return Ok(i);
        }
        i += 1;
    }
    let k = layers.len();
    let ghost new_layer = (name@, tiles@);
    layers.push(TileLayerData { name, tiles });
    assert(layer_views(layers@) =~= lv.push(new_layer));
    Ok(k)
}

proof fn lemma_find_layer_stable(s: Seq<(Seq<char>, Seq<u8>)>, name: Seq<char>, n: int, m: int)
    requires
        0 <= n <= m,
        find_layer(s, name, n) is Some,
    ensures
        find_layer(s, name, m) == find_layer(s, name, n),
    decreases m - n,
{
    if n < m {
        lemma_find_layer_stable(s, name, n, m - 1);
    }
}

/// The layers of `s` not named `name`, in order.
pub open spec fn layers_without(s: Seq<(Seq<char>, Seq<u8>)>, name: Seq<char>) -> Seq<(Seq<char>, Seq<u8>)>
    decreases s.len(),
{
    if s.len() == 0 {
        s
    } else if s.last().0 == name {
        layers_without(s.drop_last(), name)
    } else {
        layers_without(s.drop_last(), name).push(s.last())
    }
}

proof fn lemma_layers_without_len(s: Seq<(Seq<char>, Seq<u8>)>, name: Seq<char>)
    ensures
        layers_without(s, name).len() <= s.len(),
        layers_without(s, name).len() == s.len() <==> forall|i: int| 0 <= i < s.len() ==> s[i].0 != name,
    decreases s.len(),
{
    if s.len() > 0 {
        lemma_layers_without_len(s.drop_last(), name);
        if s.last().0 != name {
            assert forall|i: int| 0 <= i < s.len() - 1 implies s.drop_last()[i] == s[i] by {}
            if forall|i: int| 0 <= i < s.len() - 1 ==> s.drop_last()[i].0 != name {
                assert forall|i: int| 0 <= i < s.len() implies s[i].0 != name by {
                    if i < s.len() - 1 {
                        assert(s.drop_last()[i] == s[i]);
                    }
                }
            } else {
                let j = choose|j: int| 0 <= j < s.len() - 1 && !(s.drop_last()[j].0 != name);
                assert(s[j] == s.drop_last()[j]);
            }
        } else {
            assert(s[s.len() - 1].0 == name);
        }
    }
}

proof fn lemma_find_layer_names(s: Seq<(Seq<char>, Seq<u8>)>, name: Seq<char>, n: int)
    requires
        0 <= n <= s.len(),
    ensures
        find_layer(s, name, n) matches Some(i) ==> 0 <= i < n && s[i].0 == name,
    decreases n,
{
    if n > 0 {
        lemma_find_layer_names(s, name, n - 1);
    }
}

proof fn lemma_without_replaced(s: Seq<(Seq<char>, Seq<u8>)>, name: Seq<char>, i: int, tiles: Seq<u8>)
    requires
        0 <= i < s.len(),
        s[i].0 == name,
    ensures
        layers_without(s.update(i, (name, tiles)), name) == layers_without(s, name),
    decreases s.len(),
{
    let u = s.update(i, (name, tiles));
    if i == s.len() - 1 {
        assert(u.drop_last() =~= s.drop_last());
    } else {
        assert(u.drop_last() =~= s.drop_last().update(i, (name, tiles)));
        lemma_without_replaced(s.drop_last(), name, i, tiles);
    }
}

/// Deleting a layer undoes storing it: after a layer is stored under a name
/// and the layers of that name are deleted, the remaining layers are those
/// there were before, without that name.
pub proof fn lemma_delete_undoes_set(s: Seq<(Seq<char>, Seq<u8>)>, name: Seq<char>, tiles: Seq<u8>)
    ensures
        layers_without(set_layer_spec(s, name, tiles), name) == layers_without(s, name),
{
    lemma_find_layer_names(s, name, s.len() as int);
    match find_layer(s, name, s.len() as int) {
        Some(i) => {
            lemma_without_replaced(s, name, i, tiles);
        },
        None => {
            let p = s.push((name, tiles));
            assert(p.drop_last() =~= s);
        },
    }
}

/// Removes every layer named `name`; it is an error when there is none.
pub fn delete_tile_layer(layers: &mut Vec<TileLayerData>, name: &str) -> (r: Result<(), String>)
    ensures
        layer_views(final(layers)@) == layers_without(layer_views(old(layers)@), name@),
        r is Err <==> forall|i: int| 0 <= i < old(layers)@.len() ==> old(layers)@[i].name@ != name@,
        r is Err ==> r->Err_0@ == "Layer '"@ + name@ + "' not found"@,
{
    let mut rest: Vec<TileLayerData> = Vec::new();
    std::mem::swap(layers, &mut rest);
    let ghost orig = rest@;
    let before = rest.len();
    let mut k: usize = 0;
    while rest.len() > 0
        invariant
            orig.len() <= usize::MAX,
            k + rest@.len() == orig.len(),
            rest@ == orig.skip(k as int),
            layer_views(layers@) == layers_without(layer_views(orig.take(k as int)), name@),
        decreases rest@.len(),
    {
        let l = rest.remove(0);
        assert(l == orig[k as int]);
        assert(layer_views(orig.take(k + 1)).drop_last() =~= layer_views(orig.take(k as int)));
        assert(layer_views(orig.take(k + 1)).last() == (l.name@, l.tiles@));
        if !crate::text::str_equal(l.name.as_str(), name) {
            let ghost lv = (l.name@, l.tiles@);
            layers.push(l);
            assert(layer_views(layers@) =~= layers_without(layer_views(orig.take(k as int)), name@).push(lv));
        }
        k += 1;
        assert(rest@ =~= orig.skip(k as int));
    }
    assert(orig.take(k as int) =~= orig);
    proof {
        lemma_layers_without_len(layer_views(orig), name@);
        assert(layer_views(orig).len() == orig.len());
        assert(layer_views(layers@).len() == layers@.len());
        assert forall|i: int| 0 <= i < orig.len() implies (layer_views(orig)[i].0 == orig[i].name@) by {}
        if forall|i: int| 0 <= i < orig.len() ==> orig[i].name@ != name@ {
            assert forall|i: int| 0 <= i < layer_views(orig).len() implies layer_views(orig)[i].0 != name@ by {
                assert(layer_views(orig)[i].0 == orig[i].name@);
            }
        }
        if layers@.len() == orig.len() {
            assert forall|i: int| 0 <= i < orig.len() implies orig[i].name@ != name@ by {
                assert(layer_views(orig)[i].0 == orig[i].name@);
            }
        }
    }
    if layers.len() == before {
        let mut m = owned("Layer '");
        m.append(name);
        m.append("' not found");
        return Err(m);
    }
    Ok(())
}

/// The number of non-empty tiles of a layer.
pub open spec fn non_empty_tiles(t: Seq<u8>) -> nat
    decreases t.len(),
{
    if t.len() == 0 {
        0
    } else {
        non_empty_tiles(t.drop_last()) + if t.last() != 0 { 1nat } else { 0nat }
    }
}

/// The number of non-empty tiles in `tiles`.
pub fn count_non_empty_tiles(tiles: &Vec<u8>) -> (r: usize)
    ensures
        r == non_empty_tiles(tiles@),
{
    let mut c: usize = 0;
    let mut i: usize = 0;
    while i < tiles.len()
        invariant
            i <= tiles.len(),
            c == non_empty_tiles(tiles@.take(i as int)),
            c <= i,
        decreases tiles.len() - i,
    {
        assert(tiles@.take(i + 1).drop_last() =~= tiles@.take(i as int));
        if tiles[i] != 0 {
            c += 1;
        }
        i += 1;
    }
    assert(tiles@.take(tiles.len() as int) =~= tiles@);
    c
}

// ── Terrain materials ─────────────────────────────────────────────────

/// The names of the tile types after a terrain material named `name` is
/// registered for the tile id `tile_id`: missing types up to the id are added
/// as `auto_<index>`, and the id's type takes the material's name.
pub open spec fn registered_type_names(names: Seq<Seq<char>>, tile_id: nat, name: Seq<char>) -> Seq<Seq<char>> {
    let grown = if names.len() > tile_id {
        names
    } else {
        names + Seq::new((tile_id + 1 - names.len()) as nat, |k: int| "auto_"@ + decimal_seq((names.len() + k) as nat))
    };
    grown.update(tile_id as int, name)
}

/// Registers the tile type names for a terrain material (see
/// `registered_type_names`).
pub fn register_terrain_type(names: &mut Vec<String>, tile_id: u8, name: &str)
    ensures
        views(final(names)@) == registered_type_names(views(old(names)@), tile_id as nat, name@),
{
    let ghost start = views(names@);
    let id = tile_id as usize;
    while names.len() <= id
        invariant
            id == tile_id as usize,
            start.len() <= names@.len(),
            names@.len() <= (if start.len() > id { start.len() } else { id as nat + 1 }),
            views(names@) == start + Seq::new(
                (names@.len() - start.len()) as nat,
                |k: int| "auto_"@ + decimal_seq((start.len() + k) as nat),
            ),
        decreases id + 1 - names.len(),
    {
        let n = names.len();
        let mut auto = owned("auto_");
        auto.append(decimal_string(n as u64).as_str());
        let ghost a = auto@;
        let ghost before = views(names@);
        let ghost f = |k: int| "auto_"@ + decimal_seq((start.len() + k) as nat);
        assert(a == f(n - start.len()));
        names.push(auto);
        assert(views(names@) =~= before.push(a));
        assert(Seq::new((n + 1 - start.len()) as nat, f) =~= Seq::new((n - start.len()) as nat, f).push(a));
        assert(views(names@) =~= start + Seq::new((names@.len() - start.len()) as nat, f));
    }
    names.set(id, owned(name));
    proof {
        let grown = if start.len() > tile_id as nat {
            start
        } else {
            start + Seq::new(
                (tile_id as nat + 1 - start.len()) as nat,
                |k: int| "auto_"@ + decimal_seq((start.len() + k) as nat),
            )
        };
        if start.len() > tile_id as nat {
            assert(Seq::new(
                (names@.len() - start.len()) as nat,
                |k: int| "auto_"@ + decimal_seq((start.len() + k) as nat),
            ) =~= Seq::empty());
        }
        assert(views(names@) =~= grown.update(tile_id as int, name@));
    }
}

/// The atlas columns of a terrain material: the requested count (13 when
/// none is given) for an autotiled material, else 1.
pub fn terrain_columns(autotile: bool, columns: Option<u32>) -> (r: u32)
    ensures
        r == (if autotile {
            match columns {
                Some(c) => c,
                None => 13,
            }
        } else {
            1
        }),
{
    if autotile {
        match columns {
            Some(c) => c,
            None => 13,
        }
    } else {
        1
    }
}

// ── Generated assets ──────────────────────────────────────────────────

/// The largest side of a generated asset.
pub const MAX_ASSET_SIDE: u32 = 512;

/// `v` clamped to `1..=512`.
pub open spec fn asset_side(v: u32) -> u32 {
    if v < 1 { 1 } else if v > MAX_ASSET_SIDE { MAX_ASSET_SIDE } else { v }
}

/// Where a generated asset's label is drawn: a band four pixels high around
/// the middle row, as wide as four pixels per label byte (at most the whole
/// width), centred.
pub struct LabelBand {
    pub x0: u32,
    pub x1: u32,
    pub y0: u32,
}

pub open spec fn label_band_spec(w: u32, h: u32, label_len: nat) -> LabelBand {
    let text_y = h / 2;
    let text_w: u32 = if label_len * 4 < w { (label_len * 4) as u32 } else { w };
    let x0: u32 = ((w - text_w) / 2) as u32;
    let x1: u32 = if x0 + text_w < w { (x0 + text_w) as u32 } else { w };
    let y0: u32 = if text_y >= 2 { (text_y - 2) as u32 } else { 0 };
    LabelBand { x0, x1, y0 }
}

/// Byte `i` of a generated asset's RGBA pixels, row by row: the colour, with
/// the label band (when there is a label) in the inverse colour; alpha is
/// always 255.
pub open spec fn asset_byte(w: u32, h: u32, color: (u8, u8, u8), band: Option<LabelBand>, i: int) -> u8 {
    let p = i / 4;
    let c = i % 4;
    let x = p % (w as int);
    let y = p / (w as int);
    let base: u8 = if c == 0 { color.0 } else if c == 1 { color.1 } else { color.2 };
    let inside = match band {
        Some(b) => b.x0 <= x < b.x1 && b.y0 <= y < b.y0 + 4 && y < h,
        None => false,
    };
    if c == 3 {
        255
    } else if inside {
        (255 - base) as u8
    } else {
        base
    }
}

/// A generated asset: its size and its RGBA pixels.
pub struct GeneratedAsset {
    pub width: u32,
    pub height: u32,
    pub rgba: Vec<u8>,
}

/// Draws a placeholder asset: a `width` x `height` image (each side clamped
/// to 1..=512) filled with `color`, with a band marking the label when one
/// of `label_len` bytes (more than none) is given.
pub fn generate_asset_pixels(width: u32, height: u32, color: (u8, u8, u8), label_len: Option<usize>) -> (r:
    GeneratedAsset)
    requires
        label_len matches Some(n) ==> n * 4 <= u32::MAX,
    ensures
        r.width == asset_side(width),
        r.height == asset_side(height),
        r.rgba@.len() == r.width * r.height * 4,
        ({
            let band = match label_len {
                Some(n) => if n > 0 { Some(label_band_spec(r.width, r.height, n as nat)) } else { None },
                None => None,
            };
            forall|i: int| 0 <= i < r.rgba@.len() ==> #[trigger] r.rgba@[i] == asset_byte(r.width, r.height, color, band, i)
        }),
{
    let w: u32 = if width < 1 { 1 } else if width > MAX_ASSET_SIDE { MAX_ASSET_SIDE } else { width };
    let h: u32 = if height < 1 { 1 } else if height > MAX_ASSET_SIDE { MAX_ASSET_SIDE } else { height };
    let band: Option<LabelBand> = match label_len {
        Some(n) => if n > 0 {
            let text_y: u32 = h / 2;
            let text_w: u32 = if (n as u64) * 4 < w as u64 { (n * 4) as u32 } else { w };
            let x0: u32 = (w - text_w) / 2;
            let x1: u32 = if (x0 as u64) + (text_w as u64) < w as u64 { x0 + text_w } else { w };
            let y0: u32 = if text_y >= 2 { text_y - 2 } else { 0 };
            Some(LabelBand { x0, x1, y0 })
        } else {
            None
        },
        None => None,
    };
    let ghost band_spec = match label_len {
        Some(n) => if n > 0 { Some(label_band_spec(w, h, n as nat)) } else { None },
        None => None,
    };
    assert(band == band_spec);
    assert(w * h <= 512 * 512) by (nonlinear_arith)
        requires
            1 <= w <= 512,
            1 <= h <= 512,
    ;
    let total: usize = (w as usize) * (h as usize) * 4;
    let mut rgba: Vec<u8> = Vec::new();
    let mut k: usize = 0;
    while k < total
        invariant
            k <= total,
            total == w * h * 4,
            1 <= w <= 512,
            rgba@.len() == k,
            band == band_spec,
            forall|i: int| 0 <= i < k ==> #[trigger] rgba@[i] == asset_byte(w, h, color, band_spec, i),
        decreases total - k,
    {
        let p: usize = k / 4;
        let c: usize = k % 4;
        let x: usize = p % (w as usize);
        let y: usize = p / (w as usize);
        let base: u8 = if c == 0 { color.0 } else if c == 1 { color.1 } else { color.2 };
        let inside: bool = match &band {
            Some(b) => (b.x0 as usize) <= x && x < (b.x1 as usize) && (b.y0 as usize) <= y && y < (b.y0 as usize) + 4
                && y < (h as usize),
            None => false,
        };
        let byte: u8 = if c == 3 {
            255
        } else if inside {
            255 - base
        } else {
            base
        };
        assert(byte == asset_byte(w, h, color, band_spec, k as int));
        rgba.push(byte);
        k += 1;
    }
    GeneratedAsset { width: w, height: h, rgba }
}

/// The file extensions listed as image assets.
pub open spec fn image_extensions() -> Seq<Seq<char>> {
    seq!["png"@, "jpg"@, "jpeg"@, "bmp"@, "gif"@]
}

/// Whether a file extension marks an image asset, in any letter case. (For
/// these extensions lower-casing ASCII letters only is the same as full
/// lower-casing: no other character lower-cases to one of their letters.)
pub fn is_image_extension(ext: &str) -> (r: bool)
    ensures
        r == image_extensions().contains(crate::text::ascii_lower_seq(ext@)),
{
    let lower = crate::text::ascii_lower_chars(&chars_of(ext));
    let s = string_of(&lower);
    let mut names: Vec<String> = Vec::new();
    names.push(owned("png"));
    names.push(owned("jpg"));
    names.push(owned("jpeg"));
    names.push(owned("bmp"));
    names.push(owned("gif"));
    assert(views(names@) =~= image_extensions());
    contains_name(&names, s.as_str())
}

// ── Entity id index ───────────────────────────────────────────────────

/// The value stored for `k` among the (key, value) pairs of `s`, looking
/// from the end.
pub open spec fn lookup(s: Seq<(u64, u64)>, k: u64) -> Option<u64>
    decreases s.len(),
{
    if s.len() == 0 {
        None
    } else if s.last().0 == k {
        Some(s.last().1)
    } else {
        lookup(s.drop_last(), k)
    }
}

/// No key occurs twice.
pub open spec fn keys_distinct(s: Seq<(u64, u64)>) -> bool {
    forall|i: int, j: int| 0 <= i < s.len() && 0 <= j < s.len() && i != j ==> s[i].0 != s[j].0
}

proof fn lemma_lookup_index(s: Seq<(u64, u64)>, x: u64)
    requires
        keys_distinct(s),
    ensures
        lookup(s, x) is Some <==> exists|i: int| 0 <= i < s.len() && s[i].0 == x,
        forall|i: int| 0 <= i < s.len() && s[i].0 == x ==> lookup(s, x) == Some(s[i].1),
    decreases s.len(),
{
    if s.len() > 0 {
        let d = s.drop_last();
        assert(keys_distinct(d)) by {
            assert forall|i: int, j: int| 0 <= i < d.len() && 0 <= j < d.len() && i != j implies d[i].0 != d[j].0 by {
                assert(d[i] == s[i] && d[j] == s[j]);
            }
        }
        lemma_lookup_index(d, x);
        if s.last().0 == x {
            assert(s[s.len() - 1].0 == x);
        } else {
            if exists|i: int| 0 <= i < s.len() && s[i].0 == x {
                let i = choose|i: int| 0 <= i < s.len() && s[i].0 == x;
                assert(i != s.len() - 1);
                assert(d[i] == s[i]);
            }
            assert forall|i: int| 0 <= i < s.len() && s[i].0 == x implies lookup(s, x) == Some(s[i].1) by {
                assert(i != s.len() - 1);
                assert(d[i] == s[i]);
            }
            if exists|i: int| 0 <= i < d.len() && d[i].0 == x {
                let i = choose|i: int| 0 <= i < d.len() && d[i].0 == x;
                assert(s[i] == d[i]);
            }
        }
    }
}

/// The map that a sequence of (key, value) pairs stands for.
pub open spec fn pairs_map(s: Seq<(u64, u64)>) -> Map<u64, u64> {
    Map::new(|k: u64| lookup(s, k) is Some, |k: u64| lookup(s, k)->0)
}

/// Which entity (by its handle) each network id names.
pub struct EntityIdIndex {
    entries: Vec<(u64, u64)>,
}

impl View for EntityIdIndex {
    type V = Map<u64, u64>;

    closed spec fn view(&self) -> Map<u64, u64> {
        pairs_map(self.entries@)
    }
}

impl EntityIdIndex {
    #[verifier::type_invariant]
    closed spec fn ids_distinct(self) -> bool {
        keys_distinct(self.entries@)
    }

    /// An index that names no entity.
    pub fn new() -> (r: EntityIdIndex)
        ensures
            r@ == Map::<u64, u64>::empty(),
    {
        let r = EntityIdIndex { entries: Vec::new() };
        assert(r@ =~= Map::<u64, u64>::empty());
        r
    }

    fn position(&self, id: u64) -> (r: Option<usize>)
        ensures
            match r {
                Some(i) => i < self.entries@.len() && self.entries@[i as int].0 == id,
                None => forall|i: int| 0 <= i < self.entries@.len() ==> self.entries@[i].0 != id,
            },
    {
        let mut i: usize = 0;
        while i < self.entries.len()
            invariant
                i <= self.entries@.len(),
                forall|j: int| 0 <= j < i ==> self.entries@[j].0 != id,
            decreases self.entries@.len() - i,
        {
            if self.entries[i].0 == id {
                return Some(i);
            }
            i += 1;
        }
        None
    }

    /// The entity the network id `id` names, if any.
    pub fn get(&self, id: u64) -> (r: Option<u64>)
        ensures
            r == (if self@.dom().contains(id) { Some(self@[id]) } else { None }),
    {
        proof {
            use_type_invariant(self);
            lemma_lookup_index(self.entries@, id);
        }
        match self.position(id) {
            Some(i) => Some(self.entries[i].1),
            None => None,
        }
    }

    /// Records that the network id `id` names `entity`.
    pub fn insert(&mut self, id: u64, entity: u64)
        ensures
            final(self)@ == old(self)@.insert(id, entity),
    {
        proof {
            use_type_invariant(&*self);
        }
        let pos = self.position(id);
        let mut entries: Vec<(u64, u64)> = Vec::new();
        std::mem::swap(&mut entries, &mut self.entries);
        let ghost s = entries@;
        match pos {
            Some(i) => {
                entries.set(i, (id, entity));
                proof {
                    lemma_pairs_update(s, i as int, id, entity);
                }
            },
            None => {
                entries.push((id, entity));
                proof {
                    lemma_pairs_push(s, id, entity);
                }
            },
        }
        self.entries = entries;
    }

    /// Registers a newly spawned entity under the next network id, which no
    /// entity holds yet; returns the id it got and the counter after it.
    pub fn register_spawn(&mut self, next: u64, entity: u64) -> (r: (u64, u64))
        requires
            next < u64::MAX,
            !old(self)@.dom().contains(next),
        ensures
            r == (next, (next + 1) as u64),
            final(self)@ == old(self)@.insert(next, entity),
    {
        let (id, after) = allocate_network_id(next);
        self.insert(id, entity);
        (id, after)
    }

    /// Forgets every network id that names `entity`.
    pub fn remove_entity(&mut self, entity: u64)
        ensures
            final(self)@ == without_entity(old(self)@, entity),
    {
        proof {
            use_type_invariant(&*self);
        }
        let mut entries: Vec<(u64, u64)> = Vec::new();
        std::mem::swap(&mut entries, &mut self.entries);
        let ghost s = entries@;
        let mut kept: Vec<(u64, u64)> = Vec::new();
        let mut i: usize = 0;
        assert(s.take(0) =~= Seq::<(u64, u64)>::empty());
        assert(pairs_map(kept@) =~= without_entity(pairs_map(s.take(0)), entity));
        while i < entries.len()
            invariant
                entries@ == s,
                keys_distinct(s),
                i <= s.len(),
                keys_distinct(kept@),
                forall|j: int| 0 <= j < kept@.len() ==> exists|t: int| 0 <= t < i && s[t] == #[trigger] kept@[j],
                pairs_map(kept@) == without_entity(pairs_map(s.take(i as int)), entity),
            decreases s.len() - i,
        {
            let p = entries[i];
            proof {
                assert(s.take(i + 1) =~= s.take(i as int).push(p));
                assert(keys_distinct(s.take(i as int))) by {
                    assert forall|a: int, b: int|
                        0 <= a < i && 0 <= b < i && a != b implies s.take(i as int)[a].0 != s.take(i as int)[b].0 by {
                        assert(s.take(i as int)[a] == s[a] && s.take(i as int)[b] == s[b]);
                    }
                }
                assert forall|j: int| 0 <= j < i implies s.take(i as int)[j].0 != p.0 by {
                    assert(s.take(i as int)[j] == s[j]);
                }
                lemma_pairs_push(s.take(i as int), p.0, p.1);
                assert forall|j: int| 0 <= j < kept@.len() implies kept@[j].0 != p.0 by {
                    let t = choose|t: int| 0 <= t < i && s[t] == kept@[j];
                }
                lemma_pairs_not_key(s.take(i as int), p.0);
            }
            if p.1 != entity {
                let ghost before = kept@;
                kept.push(p);
                proof {
                    lemma_pairs_push(before, p.0, p.1);
                    assert(pairs_map(kept@) =~= without_entity(pairs_map(s.take(i + 1)), entity));
                    assert forall|j: int| 0 <= j < kept@.len() implies exists|t: int|
                        0 <= t < i + 1 && s[t] == #[trigger] kept@[j] by {
                        if j < before.len() {
                            assert(kept@[j] == before[j]);
                            let t = choose|t: int| 0 <= t < i && s[t] == before[j];
                        } else {
                            assert(s[i as int] == kept@[j]);
                        }
                    }
                }
            } else {
                proof {
                    assert(pairs_map(kept@) =~= without_entity(pairs_map(s.take(i + 1)), entity));
                }
            }
            i += 1;
        }
        assert(s.take(s.len() as int) =~= s);
        self.entries = kept;
    }

    /// Deletes the entity the network id `id` names: every id naming that
    /// entity is forgotten and the entity is returned, for the caller to
    /// despawn. An unknown id is refused.
    pub fn delete_entity(&mut self, id: u64) -> (r: Result<u64, String>)
        ensures
            old(self)@.dom().contains(id) ==> r == Ok::<u64, String>(old(self)@[id]) && final(self)@
                == without_entity(old(self)@, old(self)@[id]),
            !old(self)@.dom().contains(id) ==> r is Err && r->Err_0@ == "Entity not found"@ && final(self)@
                == old(self)@,
    {
        match self.get(id) {
            Some(entity) => {
                self.remove_entity(entity);
                Ok(entity)
            },
            None => Err(owned("Entity not found")),
        }
    }
}

/// The map without the keys that name `e`.
pub open spec fn without_entity(m: Map<u64, u64>, e: u64) -> Map<u64, u64> {
    Map::new(|k: u64| m.dom().contains(k) && m[k] != e, |k: u64| m[k])
}

proof fn lemma_pairs_push(s: Seq<(u64, u64)>, k: u64, v: u64)
    requires
        keys_distinct(s),
        forall|j: int| 0 <= j < s.len() ==> s[j].0 != k,
    ensures
        keys_distinct(s.push((k, v))),
        pairs_map(s.push((k, v))) == pairs_map(s).insert(k, v),
{
    let p = s.push((k, v));
    assert(p.drop_last() =~= s);
    assert forall|i: int, j: int| 0 <= i < p.len() && 0 <= j < p.len() && i != j implies p[i].0 != p[j].0 by {
        if i < s.len() && j < s.len() {
            assert(p[i] == s[i] && p[j] == s[j]);
        } else if i < s.len() {
            assert(p[i] == s[i]);
        } else {
            assert(p[j] == s[j]);
        }
    }
    assert(pairs_map(p) =~= pairs_map(s).insert(k, v));
}

proof fn lemma_pairs_not_key(s: Seq<(u64, u64)>, k: u64)
    requires
        keys_distinct(s),
        forall|j: int| 0 <= j < s.len() ==> s[j].0 != k,
    ensures
        !pairs_map(s).dom().contains(k),
{
    lemma_lookup_index(s, k);
}

proof fn lemma_pairs_update(s: Seq<(u64, u64)>, i: int, k: u64, v: u64)
    requires
        keys_distinct(s),
        0 <= i < s.len(),
        s[i].0 == k,
    ensures
        keys_distinct(s.update(i, (k, v))),
        pairs_map(s.update(i, (k, v))) == pairs_map(s).insert(k, v),
{
    let u = s.update(i, (k, v));
    assert forall|a: int, b: int| 0 <= a < u.len() && 0 <= b < u.len() && a != b implies u[a].0 != u[b].0 by {
        assert(u[a].0 == s[a].0 && u[b].0 == s[b].0);
    }
    assert forall|x: u64| #[trigger] lookup(u, x) == (if x == k { Some(v) } else { lookup(s, x) }) by {
        lemma_lookup_index(u, x);
        lemma_lookup_index(s, x);
        if x == k {
            assert(u[i].0 == x);
        } else {
            if exists|j: int| 0 <= j < s.len() && s[j].0 == x {
                let j = choose|j: int| 0 <= j < s.len() && s[j].0 == x;
                assert(u[j] == s[j]);
            }
            if exists|j: int| 0 <= j < u.len() && u[j].0 == x {
                let j = choose|j: int| 0 <= j < u.len() && u[j].0 == x;
                assert(u[j] == s[j]);
            }
        }
    }
    assert(pairs_map(u) =~= pairs_map(s).insert(k, v));
}

// ── Script runtime settings ───────────────────────────────────────────

/// A whole-number setting: its trimmed value read as `u64`, or `default`
/// when it is missing or not such a number.
pub open spec fn setting_u64_spec(value: Option<Seq<char>>, default: u64) -> u64 {
    match value {
        Some(v) => match crate::text::parse_u64_spec(trim_seq(v)) {
            Some(n) => n,
            None => default,
        },
        None => default,
    }
}

/// Reads a whole-number setting (see `setting_u64_spec`).
pub fn setting_u64(value: Option<&str>, default: u64) -> (r: u64)
    ensures
        r == setting_u64_spec(opt_string_view(value), default),
{
    match value {
        Some(v) => {
            let t = trim_str(v);
            match crate::text::parse_u64(t.as_str()) {
                Some(n) => n,
                None => default,
            }
        },
        None => default,
    }
}

/// Milliseconds one entity script may run per frame when nothing is set.
pub const DEFAULT_ENTITY_SCRIPT_BUDGET_MS: u64 = 1;

/// Milliseconds the global scripts may run per frame when nothing is set.
pub const DEFAULT_GLOBAL_SCRIPT_BUDGET_MS: u64 = 5;

/// The per-frame time budgets of entity scripts and of global scripts, in
/// milliseconds, from the values of `AXIOM_SCRIPT_ENTITY_BUDGET_MS` and
/// `AXIOM_SCRIPT_GLOBAL_BUDGET_MS`.
pub fn script_budgets_ms(entity: Option<&str>, global: Option<&str>) -> (r: (u64, u64))
    ensures
        r.0 == setting_u64_spec(opt_string_view(entity), DEFAULT_ENTITY_SCRIPT_BUDGET_MS),
        r.1 == setting_u64_spec(opt_string_view(global), DEFAULT_GLOBAL_SCRIPT_BUDGET_MS),
{
    (setting_u64(entity, DEFAULT_ENTITY_SCRIPT_BUDGET_MS), setting_u64(global, DEFAULT_GLOBAL_SCRIPT_BUDGET_MS))
}

// ── Resetting the level's entities ────────────────────────────────────

/// An entity as a reset sees it.
pub struct ResetCandidate {
    /// The entity's handle.
    pub entity: u64,
    pub is_player: bool,
}

/// The handles of the non-player entities among the first `n`, in order.
pub open spec fn reset_targets(es: Seq<ResetCandidate>, n: int) -> Seq<u64>
    decreases n,
{
    if n <= 0 {
        Seq::empty()
    } else if es[n - 1].is_player {
        reset_targets(es, n - 1)
    } else {
        reset_targets(es, n - 1).push(es[n - 1].entity)
    }
}

/// The entities a reset despawns: every one that is not a player, in the
/// world's order. (Their ids are then forgotten, see
/// `EntityIdIndex::remove_entity`.)
pub fn non_player_entities(es: &Vec<ResetCandidate>) -> (r: Vec<u64>)
    ensures
        r@ == reset_targets(es@, es@.len() as int),
{
    let mut out: Vec<u64> = Vec::new();
    let mut i: usize = 0;
    while i < es.len()
        invariant
            i <= es@.len(),
            out@ == reset_targets(es@, i as int),
        decreases es@.len() - i,
    {
        if !es[i].is_player {
            out.push(es[i].entity);
        }
        i += 1;
    }
    out
}

// ── Path following ────────────────────────────────────────────────────

/// One frame of a path follower's schedule: whether its path is computed
/// again this frame, and its countdown after the frame. The path is computed
/// again when it is empty, when the countdown has run out, or when the target
/// moved away from the path's end; the countdown then restarts at the
/// follower's interval (at least 1), else it counts down by one.
pub fn path_recalc_step(path_empty: bool, frames_until_recalc: u32, target_moved: bool, recalculate_interval: u32) -> (r:
    (bool, u32))
    ensures
        r.0 == (path_empty || frames_until_recalc == 0 || target_moved),
        r.0 ==> r.1 == (if recalculate_interval >= 1 { recalculate_interval } else { 1 }),
        !r.0 ==> r.1 == frames_until_recalc - 1,
{
    if path_empty || frames_until_recalc == 0 || target_moved {
        (true, if recalculate_interval >= 1 { recalculate_interval } else { 1 })
    } else {
        (false, frames_until_recalc - 1)
    }
}

// ── Particles ─────────────────────────────────────────────────────────

/// Where an entity's particle emitter comes from.
pub enum ParticleSource {
    /// The emitter definition given in the request.
    Definition,
    /// The named preset of the library.
    Preset(String),
    /// A preset the library does not hold yet, by name only.
    PresetOnly(String),
}

/// Decides a request to attach particles to an entity: the definition when
/// one is given, else the trimmed preset name (a library preset when the
/// library holds it); a blank preset name, or neither, is refused.
pub fn particle_source(
    entity_found: bool,
    has_definition: bool,
    preset: Option<&str>,
    known_presets: &Vec<String>,
) -> (r: Result<ParticleSource, String>)
    ensures
        !entity_found ==> r is Err && r->Err_0@ == "Entity not found"@,
        entity_found && has_definition ==> r matches Ok(ParticleSource::Definition),
        entity_found && !has_definition ==> match preset {
            Some(p) => {
                let t = trim_seq(p@);
                if t.len() == 0 {
                    r is Err && r->Err_0@ == "Particle preset name cannot be empty"@
                } else if views(known_presets@).contains(t) {
                    r matches Ok(ParticleSource::Preset(n)) && n@ == t
                } else {
                    r matches Ok(ParticleSource::PresetOnly(n)) && n@ == t
                }
            },
            None => r is Err && r->Err_0@ == "Provide either preset or emitter definition for particles"@,
        },
{
    if !entity_found {
        return Err(owned("Entity not found"));
    }
    if has_definition {
        return Ok(ParticleSource::Definition);
    }
    match preset {
        Some(p) => {
            let t = trim_str(p);
            if chars_of(t.as_str()).len() == 0 {
                Err(owned("Particle preset name cannot be empty"))
            } else if contains_name(known_presets, t.as_str()) {
                Ok(ParticleSource::Preset(t))
            } else {
                Ok(ParticleSource::PresetOnly(t))
            }
        },
        None => Err(owned("Provide either preset or emitter definition for particles")),
    }
}

// ── Saving entities ───────────────────────────────────────────────────

/// The collision layer every entity has unless set otherwise.
pub const DEFAULT_COLLISION_LAYER: u16 = 1;

/// The collision mask every entity has unless set otherwise.
pub const DEFAULT_COLLISION_MASK: u16 = 0xFFFF;

/// What a saved entity records of its layers and liveness.
pub struct SavedLayers {
    /// The render layer, when it is not the default layer 0.
    pub render_layer: Option<i32>,
    /// The collision layer and mask, when they are not the defaults.
    pub collision: Option<(u16, u16)>,
    /// Whether the entity is alive; one without an alive flag is.
    pub alive: bool,
}

/// The layer and liveness part of an entity's saved form: default layers are
/// left out, and a missing alive flag counts as alive.
pub fn saved_layers(render_layer: Option<i32>, collision: Option<(u16, u16)>, alive: Option<bool>) -> (r: SavedLayers)
    ensures
        r.render_layer == match render_layer {
            Some(l) => if l != 0 { Some(l) } else { None },
            None => None,
        },
        r.collision == match collision {
            Some((layer, mask)) => if layer != DEFAULT_COLLISION_LAYER || mask != DEFAULT_COLLISION_MASK {
                Some((layer, mask))
            } else {
                None
            },
            None => None,
        },
        r.alive == match alive {
            Some(a) => a,
            None => true,
        },
{
    let rl = match render_layer {
        Some(l) => if l != 0 { Some(l) } else { None },
        None => None,
    };
    let cl = match collision {
        Some((layer, mask)) => if layer != DEFAULT_COLLISION_LAYER || mask != DEFAULT_COLLISION_MASK {
            Some((layer, mask))
        } else {
            None
        },
        None => None,
    };
    let a = match alive {
        Some(a) => a,
        None => true,
    };
    SavedLayers { render_layer: rl, collision: cl, alive: a }
}

/// The grade of a game follows from its census: "poor" exactly when the
/// player is missing or there are more than two script errors; a game without
/// a goal tile is never better than "fair"; and "good" requires a player, a
/// goal, no script error, at least three entities, enemies and at least two
/// kinds of tile, which is exactly when no issue is reported and the map has
/// enough entities and variety.
pub proof fn lemma_evaluation_grade(c: GameCensus, variety: nat)
    ensures
        ({
            let g = evaluation_grade(c, variety);
            &&& g == "poor"@ <==> (!c.has_player || c.script_errors > 2)
            &&& !c.has_goal ==> (g == "poor"@ || g == "fair"@)
            &&& g == "good"@ <==> (c.has_player && c.has_goal && c.script_errors == 0 && c.entity_count >= 3
                && c.has_enemies && variety >= 2)
            &&& g == "good"@ <==> (evaluation_issues(c).len() == 0 && c.entity_count >= 3 && variety >= 2)
            &&& (g == "poor"@ || g == "fair"@ || g == "okay"@ || g == "good"@)
        }),
{
    reveal_strlit("poor");
    reveal_strlit("fair");
    reveal_strlit("okay");
    reveal_strlit("good");
    reveal(name_if);
    assert("poor"@[0] != "good"@[0] && "poor"@[0] != "fair"@[0] && "poor"@[0] != "okay"@[0]);
    assert("good"@[0] != "fair"@[0] && "good"@[0] != "okay"@[0] && "fair"@[0] != "okay"@[0]);
}

/// The status of a health check follows from its report: healthy exactly
/// when no issue is reported; unhealthy exactly when the player is missing or
/// a script failed; a warning otherwise, which is exactly when the only issue
/// is a missing tile map.
pub proof fn lemma_health_status(has_player: bool, script_errors: usize, tilemap_set: bool)
    ensures
        ({
            let issues = health_issues(has_player, script_errors, tilemap_set);
            let status = if issues.len() == 0 {
                "healthy"@
            } else if script_errors > 0 || !has_player {
                "unhealthy"@
            } else {
                "warning"@
            };
            &&& issues.len() == 0 <==> (has_player && script_errors == 0 && tilemap_set)
            &&& status == "unhealthy"@ <==> (!has_player || script_errors > 0)
            &&& status == "warning"@ <==> (has_player && script_errors == 0 && !tilemap_set)
        }),
{
    reveal_strlit("healthy");
    reveal_strlit("unhealthy");
    reveal_strlit("warning");
    reveal(name_if);
    assert("healthy"@[0] != "unhealthy"@[0] && "healthy"@[0] != "warning"@[0] && "unhealthy"@[0] != "warning"@[0]);
}

/// Every id a bulk change selects by its criteria is the network id of a
/// candidate that meets each criterion that is set (and, with explicit ids,
/// every selected id is one of them that the index knows).
pub proof fn lemma_bulk_selection_meets_filter(f: BulkFilter, known: Seq<u64>, es: Seq<BulkCandidate>, n: int)
    requires
        0 <= n <= es.len(),
    ensures
        forall|k: int| 0 <= k < bulk_matched_prefix(f, es, n).len() ==> exists|i: int|
            0 <= i < n && es[i].network_id == Some(#[trigger] bulk_matched_prefix(f, es, n)[k]) && {
                let e = es[i];
                &&& (f.tag matches Some(t) ==> views(e.tags@).contains(t@))
                &&& (f.alive matches Some(a) ==> (if e.alive is Some { e.alive->0 } else { true }) == a)
                &&& (f.has_script matches Some(h) ==> e.has_script == h)
                &&& (f.component matches Some(c) ==> bulk_components(e.flags).contains(c@))
                &&& (f.entity_state matches Some(st) ==> (e.machine_state matches Some(m) && m@ == st@))
            },
    decreases n,
{
    if n > 0 {
        lemma_bulk_selection_meets_filter(f, known, es, n - 1);
        let rest = bulk_matched_prefix(f, es, n - 1);
        let r = bulk_matched_prefix(f, es, n);
        assert forall|k: int| 0 <= k < r.len() implies exists|i: int|
            0 <= i < n && es[i].network_id == Some(#[trigger] r[k]) && {
                let e = es[i];
                &&& (f.tag matches Some(t) ==> views(e.tags@).contains(t@))
                &&& (f.alive matches Some(a) ==> (if e.alive is Some { e.alive->0 } else { true }) == a)
                &&& (f.has_script matches Some(h) ==> e.has_script == h)
                &&& (f.component matches Some(c) ==> bulk_components(e.flags).contains(c@))
                &&& (f.entity_state matches Some(st) ==> (e.machine_state matches Some(m) && m@ == st@))
            } by {
            if k < rest.len() {
                assert(r[k] == rest[k]);
                let i = choose|i: int|
                    0 <= i < n - 1 && es[i].network_id == Some(#[trigger] rest[k]) && {
                        let e = es[i];
                        &&& (f.tag matches Some(t) ==> views(e.tags@).contains(t@))
                        &&& (f.alive matches Some(a) ==> (if e.alive is Some { e.alive->0 } else { true }) == a)
                        &&& (f.has_script matches Some(h) ==> e.has_script == h)
                        &&& (f.component matches Some(c) ==> bulk_components(e.flags).contains(c@))
                        &&& (f.entity_state matches Some(st) ==> (e.machine_state matches Some(m) && m@ == st@))
                    };
            } else {
                assert(bulk_matches(f, es[n - 1]));
                assert(r[k] == es[n - 1].network_id->0);
            }
        }
    }
}

} // verus!
