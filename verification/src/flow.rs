//! Game-flow decisions: runtime state transitions, bounded histories, level
//! pack progression, and the requests that drive them.
use vstd::prelude::*;
use crate::api_types::InventoryActionRequest;
use crate::text::{
    ascii_lower_chars, ascii_lower_seq, chars_equal, chars_of, owned, string_of, trim_chars, trim_seq,
};

verus! {

/// Runtime transitions kept in the history.
pub const MAX_TRANSITION_HISTORY: usize = 256;

/// Audio events kept in the log.
pub const MAX_AUDIO_EVENTS: usize = 256;

/// The last `cap` elements of `s` (all of it when it is shorter).
pub open spec fn keep_last<T>(s: Seq<T>, cap: nat) -> Seq<T> {
    if s.len() > cap {
        s.subrange(s.len() - cap, s.len() as int)
    } else {
        s
    }
}

/// Appends `item` and drops the oldest entries beyond `cap`.
pub fn push_bounded<T>(log: &mut Vec<T>, item: T, cap: usize)
    ensures
        final(log)@ == keep_last(old(log)@.push(item), cap as nat),
{
    log.push(item);
    if log.len() > cap {
        let excess = log.len() - cap;
        let tail = log.split_off(excess);
        *log = tail;
    }
}

/// A trimmed effect name, `None` when missing or blank.
pub open spec fn normalize_effect_spec(effect: Option<Seq<char>>) -> Option<Seq<char>> {
    match effect {
        Some(e) => if trim_seq(e).len() == 0 {
            None
        } else {
            Some(trim_seq(e))
        },
        None => None,
    }
}

/// The effect name trimmed; `None` when it is missing or blank.
pub fn normalize_effect(effect: Option<String>) -> (r: Option<String>)
    ensures
        match r {
            Some(s) => normalize_effect_spec(
                match effect {
                    Some(e) => Some(e@),
                    None => None,
                },
            ) == Some(s@),
            None => normalize_effect_spec(
                match effect {
                    Some(e) => Some(e@),
                    None => None,
                },
            ) is None,
        },
{
    match effect {
        Some(e) => {
            let t = trim_chars(&chars_of(e.as_str()));
            if t.len() == 0 {
                None
            } else {
                Some(string_of(&t))
            }
        },
        None => None,
    }
}

/// `str::eq_ignore_ascii_case`.
pub open spec fn eq_ignore_ascii_case_spec(a: Seq<char>, b: Seq<char>) -> bool {
    ascii_lower_seq(a) == ascii_lower_seq(b)
}

/// A runtime transition to be recorded.
pub struct TransitionPlan {
    pub from: String,
    pub to: String,
    /// The effect, `Instant` when none was given.
    pub effect: String,
    /// Whether the transition plays out over its duration.
    pub animated: bool,
}

/// The transition from `current` to `to`: the effect name trimmed, `Instant`
/// when missing or blank; it plays out over time only when its duration is
/// positive and the effect is not `instant` in any ASCII case.
pub fn plan_runtime_transition(current: &str, to: &str, effect: Option<String>, duration_positive: bool) -> (r:
    TransitionPlan)
    ensures
        r.from@ == current@,
        r.to@ == to@,
        r.effect@ == match normalize_effect_spec(
            match effect {
                Some(e) => Some(e@),
                None => None,
            },
        ) {
            Some(e) => e,
            None => "Instant"@,
        },
        r.animated == (duration_positive && !eq_ignore_ascii_case_spec(r.effect@, "instant"@)),
{
    let effect = match normalize_effect(effect) {
        Some(e) => e,
        None => owned("Instant"),
    };
    let lowered = ascii_lower_chars(&chars_of(effect.as_str()));
    let instant = ascii_lower_chars(&chars_of("instant"));
    let animated = duration_positive && !chars_equal(&lowered, &instant);
    TransitionPlan { from: owned(current), to: owned(to), effect, animated }
}

// ---- level packs ----------------------------------------------------------

/// What advancing a level pack does.
#[derive(PartialEq, Eq, Structural, Clone, Copy, Debug)]
pub enum PackStep {
    /// The pack is already complete (or has no levels); nothing changes.
    AlreadyComplete,
    /// The last level was finished: the pack is now complete.
    Finished { finished_level: usize },
    /// A level was finished and the next one starts.
    Advance { finished_level: usize, next_level: usize },
}

pub open spec fn pack_step_spec(current_level: usize, completed: bool, total_levels: usize) -> PackStep {
    if completed || total_levels == 0 {
        PackStep::AlreadyComplete
    } else {
        let finished = if current_level < total_levels - 1 {
            current_level
        } else {
            (total_levels - 1) as usize
        };
        if finished + 1 >= total_levels {
            PackStep::Finished { finished_level: finished }
        } else {
            PackStep::Advance { finished_level: finished, next_level: (finished + 1) as usize }
        }
    }
}

/// The step taken when the player finishes the current level of a pack with
/// `total_levels` levels.
pub fn level_pack_next_step(current_level: usize, completed: bool, total_levels: usize) -> (r: PackStep)
    ensures
        r == pack_step_spec(current_level, completed, total_levels),
{
    if completed || total_levels == 0 {
        return PackStep::AlreadyComplete;
    }
    let finished = if current_level < total_levels - 1 {
        current_level
    } else {
        total_levels - 1
    };
    if finished + 1 >= total_levels {
        PackStep::Finished { finished_level: finished }
    } else {
        PackStep::Advance { finished_level: finished, next_level: finished + 1 }
    }
}

/// Progress through a pack as (current level, completed) after one step.
pub open spec fn pack_progress_after(current_level: usize, completed: bool, total_levels: usize) -> (usize, bool) {
    match pack_step_spec(current_level, completed, total_levels) {
        PackStep::AlreadyComplete => (current_level, completed),
        PackStep::Finished { finished_level } => (current_level, true),
        PackStep::Advance { finished_level, next_level } => (next_level, false),
    }
}

/// Progress after `k` steps from a fresh start at level 0.
pub open spec fn pack_progress_after_steps(total_levels: usize, k: nat) -> (usize, bool)
    decreases k,
{
    if k == 0 {
        (0, false)
    } else {
        let p = pack_progress_after_steps(total_levels, (k - 1) as nat);
        pack_progress_after(p.0, p.1, total_levels)
    }
}

/// Started at level 0, a pack with `n` levels plays them in order: after `k`
/// steps with `k < n` it is at level `k` and not complete; after `n` steps
/// (and any later ones) it is complete.
pub proof fn lemma_pack_plays_levels_in_order(total_levels: usize, k: nat)
    requires
        total_levels > 0,
    ensures
        k < total_levels ==> pack_progress_after_steps(total_levels, k) == (k as usize, false),
        k >= total_levels ==> pack_progress_after_steps(total_levels, k).1,
    decreases k,
{
    if k > 0 {
        lemma_pack_plays_levels_in_order(total_levels, (k - 1) as nat);
    }
}

/// Why a level-pack definition is refused, when it is.
pub enum LevelOverrides {
    /// The level gives no configuration overrides.
    Null,
    /// The level's overrides are a JSON object.
    Object,
    /// The level's overrides are some other JSON value.
    Other,
}

impl LevelOverrides {
    /// Whether the overrides are neither absent nor an object.
    pub fn is_other(&self) -> (r: bool)
        ensures
            r == (*self is Other),
    {
        match self {
            LevelOverrides::Other => true,
            _ => false,
        }
    }
}

/// Checks a level-pack definition: the name (trimmed) must not be empty, there
/// must be at least one level, and, level by level, each template must not be
/// blank and each overrides value must be absent or an object.  Returns the
/// trimmed name, or the first problem found.
pub fn validate_level_pack(name: &str, templates: &Vec<String>, overrides: &Vec<LevelOverrides>) -> (r: Result<
    String,
    String,
>)
    requires
        templates@.len() == overrides@.len(),
    ensures
        match r {
            Ok(n) => {
                &&& n@ == trim_seq(name@)
                &&& n@.len() > 0
                &&& templates@.len() > 0
                &&& forall|i: int|
                    0 <= i < templates@.len() ==> trim_seq(#[trigger] templates@[i]@).len() > 0
                        && !(overrides@[i] is Other)
            },
            Err(e) => {
                ||| (trim_seq(name@).len() == 0 && e@ == "Level pack name cannot be empty"@)
                ||| (trim_seq(name@).len() > 0 && templates@.len() == 0 && e@
                    == "Level pack must contain at least one level"@)
                ||| (trim_seq(name@).len() > 0 && exists|i: int|
                    0 <= i < templates@.len() && (forall|j: int|
                        0 <= j < i ==> trim_seq(#[trigger] templates@[j]@).len() > 0 && !(
                        overrides@[j] is Other)) && ((trim_seq(templates@[i]@).len() == 0 && e@
                        == "Each level must provide a non-empty template"@) || (trim_seq(
                        templates@[i]@,
                    ).len() > 0 && overrides@[i] is Other && e@
                        == "config_overrides must be an object"@)))
            },
        },
{
    let trimmed = trim_chars(&chars_of(name));
    if trimmed.len() == 0 {
        return Err(owned("Level pack name cannot be empty"));
    }
    if templates.len() == 0 {
        return Err(owned("Level pack must contain at least one level"));
    }
    let mut i: usize = 0;
    while i < templates.len()
        invariant
            i <= templates@.len(),
            templates@.len() == overrides@.len(),
            trimmed@ == trim_seq(name@),
            trimmed@.len() > 0,
            forall|j: int|
                0 <= j < i ==> trim_seq(#[trigger] templates@[j]@).len() > 0 && !(overrides@[j] is Other),
        decreases templates@.len() - i,
    {
        let t = trim_chars(&chars_of(templates[i].as_str()));
        if t.len() == 0 {
            return Err(owned("Each level must provide a non-empty template"));
        }
        if overrides[i].is_other() {
            return Err(owned("config_overrides must be an object"));
        }
        i += 1;
    }
    Ok(string_of(&trimmed))
}

// ---- inventory ------------------------------------------------------------

/// An inventory change requested through the API.
pub enum InventoryOp {
    Add { item_id: String, count: u32 },
    Remove { item_id: String, count: u32 },
    Clear,
}

/// Reads an inventory request: `add` and `remove` need an item id; `clear`
/// needs nothing; any other action is refused.
pub fn parse_inventory_action(req: &InventoryActionRequest) -> (r: Result<InventoryOp, String>)
    ensures
        req.action@ == "add"@ ==> match r {
            Ok(InventoryOp::Add { item_id, count }) => req.item_id matches Some(i) && item_id@ == i@
                && count == req.count,
            Err(e) => req.item_id is None && e@ == "item_id required for add"@,
            _ => false,
        },
        req.action@ == "remove"@ ==> match r {
            Ok(InventoryOp::Remove { item_id, count }) => req.item_id matches Some(i) && item_id@
                == i@ && count == req.count,
            Err(e) => req.item_id is None && e@ == "item_id required for remove"@,
            _ => false,
        },
        req.action@ == "clear"@ ==> r matches Ok(InventoryOp::Clear),
        (req.action@ != "add"@ && req.action@ != "remove"@ && req.action@ != "clear"@) ==> (r matches Err(
            e,
        ) && e@ == "Unknown inventory action: "@ + req.action@),
{
    proof {
        reveal_strlit("add");
        reveal_strlit("remove");
        reveal_strlit("clear");
        assert("add"@.len() == 3 && "remove"@.len() == 6 && "clear"@.len() == 5);
        assert("add"@ != "remove"@ && "add"@ != "clear"@);
    }
    let a = chars_of(req.action.as_str());
    if chars_equal(&a, &chars_of("add")) {
        match &req.item_id {
            Some(id) => Ok(InventoryOp::Add { item_id: id.clone(), count: req.count }),
            None => Err(owned("item_id required for add")),
        }
    } else if chars_equal(&a, &chars_of("remove")) {
        match &req.item_id {
            Some(id) => Ok(InventoryOp::Remove { item_id: id.clone(), count: req.count }),
            None => Err(owned("item_id required for remove")),
        }
    } else if chars_equal(&a, &chars_of("clear")) {
        Ok(InventoryOp::Clear)
    } else {
        let mut msg = owned("Unknown inventory action: ");
        msg.append(req.action.as_str());
        Err(msg)
    }
}

// ---- audio ----------------------------------------------------------------

/// A volume channel.
#[derive(PartialEq, Eq, Structural, Clone, Copy, Debug)]
pub enum VolumeChannel {
    Master,
    Sfx,
    Music,
}

/// The channel named `master`, `sfx` or `music`; otherwise the error message.
pub fn parse_volume_channel(channel: &str) -> (r: Result<VolumeChannel, String>)
    ensures
        channel@ == "master"@ ==> r == Ok::<VolumeChannel, String>(VolumeChannel::Master),
        channel@ == "sfx"@ ==> r == Ok::<VolumeChannel, String>(VolumeChannel::Sfx),
        channel@ == "music"@ ==> r == Ok::<VolumeChannel, String>(VolumeChannel::Music),
        (channel@ != "master"@ && channel@ != "sfx"@ && channel@ != "music"@) ==> (r matches Err(e)
            && e@ == "Unknown volume channel: "@ + channel@),
{
    proof {
        reveal_strlit("master");
        reveal_strlit("sfx");
        reveal_strlit("music");
        assert("master"@.len() == 6 && "sfx"@.len() == 3 && "music"@.len() == 5);
        assert("master"@ != "sfx"@ && "master"@ != "music"@ && "sfx"@ != "music"@);
    }
    let c = chars_of(channel);
    if chars_equal(&c, &chars_of("master")) {
        Ok(VolumeChannel::Master)
    } else if chars_equal(&c, &chars_of("sfx")) {
        Ok(VolumeChannel::Sfx)
    } else if chars_equal(&c, &chars_of("music")) {
        Ok(VolumeChannel::Music)
    } else {
        let mut msg = owned("Unknown volume channel: ");
        msg.append(channel);
        Err(msg)
    }
}

} // verus!
