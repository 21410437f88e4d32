//! Frame stepping and state selection of sprite animations.
use vstd::prelude::*;
use crate::order::{lemma_lex_le_total_order, lex_le, lex_le_chars, sort_strings, sorted_views, views};
use crate::text::{chars_equal, chars_of, occurs_at, occurs_at_exec, owned, string_of, trim_chars, trim_seq};

verus! {

/// An event fired when an animation reaches a frame.
pub struct AnimFrameEventDef {
    pub frame: usize,
    pub event: String,
}

/// Number of frames a clip cycles through: its explicit frame list when it has
/// one, else its frame count, and at least one.
pub open spec fn clip_len_spec(frames_len: nat, frame_count: nat) -> nat {
    if frames_len == 0 {
        if frame_count == 0 {
            1
        } else {
            frame_count
        }
    } else {
        frames_len
    }
}

/// Number of frames a clip cycles through.
pub fn clip_frame_count(frames_len: usize, frame_count: usize) -> (r: usize)
    ensures
        r == clip_len_spec(frames_len as nat, frame_count as nat),
        r >= 1,
{
    if frames_len == 0 {
        if frame_count == 0 {
            1
        } else {
            frame_count
        }
    } else {
        frames_len
    }
}

/// The sprite frame shown at animation frame `frame`: the frame itself modulo
/// the frame count (at least one) when the clip has no frame list, else the
/// listed frame at `frame` modulo the list's length.
pub fn resolve_clip_frame(frames: &Vec<usize>, frame_count: usize, frame: usize) -> (r: usize)
    ensures
        frames@.len() == 0 ==> r == (frame as nat) % clip_len_spec(0, frame_count as nat),
        frames@.len() > 0 ==> r == frames@[(frame as int) % (frames@.len() as int)],
{
    if frames.len() == 0 {
        frame % clip_frame_count(0, frame_count)
    } else {
        frames[frame % frames.len()]
    }
}

/// What happens when an animation's frame time elapses.
#[derive(PartialEq, Eq, Structural, Clone, Copy, Debug)]
pub enum FrameStep {
    /// Show this frame next.
    Advance(usize),
    /// The clip ended; switch to the clip's `next` state at frame 0.
    SwitchToNext,
    /// The clip ended; stop on this (its last) frame.
    Stop(usize),
}

pub open spec fn frame_step_spec(frame: nat, len: nat, looping: bool, next_exists: bool) -> FrameStep {
    if looping {
        FrameStep::Advance(((frame + 1) % len) as usize)
    } else if frame + 1 < len {
        FrameStep::Advance((frame + 1) as usize)
    } else if next_exists {
        FrameStep::SwitchToNext
    } else {
        FrameStep::Stop((len - 1) as usize)
    }
}

/// One frame step of a clip of `len` frames: a looping clip wraps around; a
/// one-shot clip advances until its last frame, then switches to its `next`
/// state when that state exists, and stops on its last frame otherwise.
pub fn step_frame(frame: usize, len: usize, looping: bool, next_exists: bool) -> (r: FrameStep)
    requires
        len >= 1,
        frame < usize::MAX,
    ensures
        r == frame_step_spec(frame as nat, len as nat, looping, next_exists),
{
    if looping {
        FrameStep::Advance((frame + 1) % len)
    } else if frame + 1 < len {
        FrameStep::Advance(frame + 1)
    } else if next_exists {
        FrameStep::SwitchToNext
    } else {
        FrameStep::Stop(len - 1)
    }
}

/// Stepping never leaves the clip: a looping clip stays below its length, a
/// one-shot clip's frames stay below its length and only grow until it ends.
pub proof fn lemma_step_stays_in_clip(frame: usize, len: usize, looping: bool, next_exists: bool)
    requires
        len >= 1,
        frame < len,
    ensures
        frame_step_spec(frame as nat, len as nat, looping, next_exists) matches FrameStep::Advance(f)
            ==> f < len,
        frame_step_spec(frame as nat, len as nat, looping, next_exists) matches FrameStep::Stop(f) ==> f
            == len - 1,
        !looping ==> (frame_step_spec(frame as nat, len as nat, looping, next_exists) matches FrameStep::Advance(
            f,
        ) ==> f == frame + 1),
{
}

/// The name an animation event is emitted under: trimmed, with `anim:` put in
/// front unless it is already there.
pub open spec fn anim_event_name(event: Seq<char>) -> Seq<char> {
    let t = trim_seq(event);
    if occurs_at(t, "anim:"@, 0) {
        t
    } else {
        "anim:"@ + t
    }
}

/// The events emitted on reaching `frame`, in clip order, among the first `n`
/// events of the clip.
pub open spec fn frame_event_names(events: Seq<AnimFrameEventDef>, frame: usize, n: int) -> Seq<Seq<char>>
    decreases n,
{
    if n <= 0 {
        Seq::empty()
    } else {
        let rest = frame_event_names(events, frame, n - 1);
        let ev = events[n - 1];
        if ev.frame == frame && trim_seq(ev.event@).len() > 0 {
            rest.push(anim_event_name(ev.event@))
        } else {
            rest
        }
    }
}

/// Names of the events a clip emits on reaching `frame`: the events set for
/// that frame, in order, blank ones skipped, each under its `anim:` name.
pub fn animation_event_names(events: &Vec<AnimFrameEventDef>, frame: usize) -> (r: Vec<String>)
    ensures
        views(r@) == frame_event_names(events@, frame, events@.len() as int),
{
    let prefix = chars_of("anim:");
    let mut out: Vec<String> = Vec::new();
    let mut i: usize = 0;
    while i < events.len()
        invariant
            i <= events@.len(),
            prefix@ == "anim:"@,
            views(out@) == frame_event_names(events@, frame, i as int),
        decreases events@.len() - i,
    {
        let ev = &events[i];
        if ev.frame == frame {
            let t = trim_chars(&chars_of(ev.event.as_str()));
            if t.len() > 0 {
                let name = if occurs_at_exec(&t, &prefix, 0) {
                    string_of(&t)
                } else {
                    let mut s = owned("anim:");
                    s.append(string_of(&t).as_str());
                    s
                };
                let ghost before = out@;
                out.push(name);
                assert(views(out@) =~= views(before).push(anim_event_name(ev.event@)));
            }
        }
        i += 1;
    }
    out
}

pub open spec fn has_state(states: Seq<Seq<char>>, name: Seq<char>) -> bool {
    states.contains(name)
}

/// The state an animation driven by velocity should show: `jump` while rising,
/// `fall` while falling, `run` while moving sideways, else `idle`, each only
/// when the graph has that state; the graph's default state otherwise.
pub open spec fn motion_state_spec(
    rising: bool,
    falling: bool,
    moving: bool,
    states: Seq<Seq<char>>,
    default_state: Seq<char>,
) -> Seq<char> {
    if rising && has_state(states, "jump"@) {
        "jump"@
    } else if falling && has_state(states, "fall"@) {
        "fall"@
    } else if moving && has_state(states, "run"@) {
        "run"@
    } else if has_state(states, "idle"@) {
        "idle"@
    } else {
        default_state
    }
}

fn has_state_exec(states: &Vec<String>, name: &str) -> (r: bool)
    ensures
        r == has_state(views(states@), name@),
{
    let target = chars_of(name);
    let mut i: usize = 0;
    while i < states.len()
        invariant
            i <= states@.len(),
            target@ == name@,
            forall|j: int| 0 <= j < i ==> states@[j]@ != name@,
        decreases states@.len() - i,
    {
        if chars_equal(&chars_of(states[i].as_str()), &target) {
            assert(views(states@)[i as int] == name@);
            return true;
        }
        i += 1;
    }
    proof {
        if views(states@).contains(name@) {
            let j = views(states@).index_of(name@);
            assert(views(states@)[j] == states@[j]@);
        }
    }
    false
}

/// The state an animation driven by velocity should show (see
/// `motion_state_spec`); `rising`, `falling` and `moving` say whether the
/// vertical speed is above 1, below -1, and the horizontal speed beyond ±1.
pub fn select_motion_state(
    rising: bool,
    falling: bool,
    moving: bool,
    states: &Vec<String>,
    default_state: &str,
) -> (r: String)
    ensures
        r@ == motion_state_spec(rising, falling, moving, views(states@), default_state@),
{
    if rising && has_state_exec(states, "jump") {
        owned("jump")
    } else if falling && has_state_exec(states, "fall") {
        owned("fall")
    } else if moving && has_state_exec(states, "run") {
        owned("run")
    } else if has_state_exec(states, "idle") {
        owned("idle")
    } else {
        owned(default_state)
    }
}

/// The state an animation falls back to when its graph has no state of its
/// current name: the graph's default state when that is set and exists, else
/// the graph's first state.  `None` when nothing changes: the current state
/// exists, or the graph has no states.
pub fn fallback_state(states: &Vec<String>, default_state: &str, current: &str) -> (r: Option<String>)
    ensures
        (states@.len() == 0 || views(states@).contains(current@)) ==> r is None,
        (states@.len() > 0 && !views(states@).contains(current@)) ==> (r matches Some(s) && (if default_state@.len()
            > 0 && views(states@).contains(default_state@) {
            s@ == default_state@
        } else {
            s@ == states@[0]@
        })),
{
    if states.len() == 0 {
        return None;
    }
    if has_state_exec(states, current) {
        return None;
    }
    let d = chars_of(default_state);
    if d.len() > 0 && has_state_exec(states, default_state) {
        Some(owned(default_state))
    } else {
        Some(states[0].clone())
    }
}

/// A graph's summary: its name, its states sorted, and its default state.
pub struct AnimationGraphInfo {
    pub name: String,
    pub states: Vec<String>,
    pub default_state: String,
}

/// The summary of one graph, its state names sorted.
pub fn graph_info(name: &str, states: &Vec<String>, default_state: &str) -> (r: AnimationGraphInfo)
    ensures
        r.name@ == name@,
        r.default_state@ == default_state@,
        sorted_views(r.states@),
        views(r.states@).to_multiset() == views(states@).to_multiset(),
{
    AnimationGraphInfo { name: owned(name), states: sort_strings(states), default_state: owned(default_state) }
}


/// `info` summarises `g`: same name and default state, and the same states,
/// sorted.
pub open spec fn summarises(info: AnimationGraphInfo, g: AnimationGraphInfo) -> bool {
    &&& info.name@ == g.name@
    &&& info.default_state@ == g.default_state@
    &&& sorted_views(info.states@)
    &&& views(info.states@).to_multiset() == views(g.states@).to_multiset()
}

/// Some graph of `graphs` is summarised by `info`.
pub open spec fn summarises_some(info: AnimationGraphInfo, graphs: Seq<AnimationGraphInfo>) -> bool {
    exists|j: int| 0 <= j < graphs.len() && #[trigger] summarises(info, graphs[j])
}

pub open spec fn info_names(v: Seq<AnimationGraphInfo>) -> Seq<Seq<char>> {
    v.map_values(|g: AnimationGraphInfo| g.name@)
}

/// The summaries of all graphs, ordered by graph name (graphs of equal name
/// keep their order), each with its states sorted.
pub fn list_graph_infos(graphs: &Vec<AnimationGraphInfo>) -> (r: Vec<AnimationGraphInfo>)
    ensures
        r@.len() == graphs@.len(),
        forall|a: int, b: int| 0 <= a < b < r@.len() ==> lex_le(#[trigger] r@[a].name@, #[trigger] r@[b].name@),
        info_names(r@).to_multiset() == info_names(graphs@).to_multiset(),
        forall|k: int| 0 <= k < r@.len() ==> summarises_some(#[trigger] r@[k], graphs@),
{
    let mut out: Vec<AnimationGraphInfo> = Vec::new();
    let mut i: usize = 0;
    assert(info_names(out@) =~= info_names(graphs@.take(0)));
    while i < graphs.len()
        invariant
            i <= graphs@.len(),
            out@.len() == i,
            forall|a: int, b: int| 0 <= a < b < out@.len() ==> lex_le(#[trigger] out@[a].name@, #[trigger] out@[b].name@),
            info_names(out@).to_multiset() == info_names(graphs@.take(i as int)).to_multiset(),
            forall|k: int| 0 <= k < out@.len() ==> summarises_some(#[trigger] out@[k], graphs@),
        decreases graphs@.len() - i,
    {
        let g = &graphs[i];
        let x = graph_info(g.name.as_str(), &g.states, g.default_state.as_str());
        assert(summarises(x, graphs@[i as int]));
        let xc = chars_of(x.name.as_str());
        let mut pos: usize = 0;
        while pos < out.len() && lex_le_chars(&chars_of(out[pos].name.as_str()), &xc)
            invariant
                pos <= out.len(),
                xc@ == x.name@,
                forall|j: int| 0 <= j < pos ==> lex_le(#[trigger] out@[j].name@, x.name@),
            decreases out.len() - pos,
        {
            pos += 1;
        }
        let ghost before = out@;
        let ghost xv = x;
        proof {
            assert forall|j: int| pos <= j < before.len() implies lex_le(xv.name@, #[trigger] before[j].name@) by {
                lemma_lex_le_total_order(before[pos as int].name@, xv.name@, before[j].name@);
                lemma_lex_le_total_order(xv.name@, before[pos as int].name@, before[j].name@);
                if j > pos {
                    assert(lex_le(before[pos as int].name@, before[j].name@));
                }
            }
        }
        out.insert(pos, x);
        proof {
            assert forall|a: int, b: int| 0 <= a < b < out@.len() implies lex_le(
                #[trigger] out@[a].name@,
                #[trigger] out@[b].name@,
            ) by {
                if a < pos && b < pos {
                    assert(out@[a] == before[a] && out@[b] == before[b]);
                } else if a < pos && b == pos {
                } else if a < pos {
                    assert(out@[a] == before[a] && out@[b] == before[b - 1]);
                    lemma_lex_le_total_order(before[a].name@, xv.name@, before[b - 1].name@);
                } else if a == pos {
                    assert(out@[b] == before[b - 1]);
                } else {
                    assert(out@[a] == before[a - 1] && out@[b] == before[b - 1]);
                }
            }
            assert forall|k: int| 0 <= k < out@.len() implies summarises_some(#[trigger] out@[k], graphs@) by {
                if k < pos {
                    assert(out@[k] == before[k]);
                } else if k == pos {
                    assert(summarises(out@[k], graphs@[i as int]));
                } else {
                    assert(out@[k] == before[k - 1]);
                }
            }
            assert(info_names(out@) =~= info_names(before).insert(pos as int, xv.name@));
            vstd::seq_lib::to_multiset_insert(info_names(before), pos as int, xv.name@);
            assert(info_names(graphs@.take(i + 1)) =~= info_names(graphs@.take(i as int)).push(graphs@[i as int].name@));
            vstd::seq_lib::to_multiset_build(info_names(graphs@.take(i as int)), graphs@[i as int].name@);
        }
        i += 1;
    }
    assert(graphs@.take(graphs@.len() as int) =~= graphs@);
    out
}

/// A clip of a built-in animation graph: its state, frame count, frames per
/// second, whether it loops, and the state that follows it.
pub struct BuiltinClip {
    pub state: &'static str,
    pub frame_count: usize,
    pub fps: u32,
    pub looping: bool,
    pub next: Option<&'static str>,
}

/// A built-in animation graph.
pub struct BuiltinGraph {
    pub name: &'static str,
    pub default_state: &'static str,
    pub clips: Vec<BuiltinClip>,
}

pub open spec fn clip_view(c: BuiltinClip) -> (Seq<char>, usize, u32, bool, Option<Seq<char>>) {
    (c.state@, c.frame_count, c.fps, c.looping, match c.next {
        Some(n) => Some(n@),
        None => None,
    })
}

pub open spec fn graph_view(g: BuiltinGraph) -> (Seq<char>, Seq<char>, Seq<(Seq<char>, usize, u32, bool, Option<Seq<char>>)>) {
    (g.name@, g.default_state@, g.clips@.map_values(|c: BuiltinClip| clip_view(c)))
}

/// The graphs the engine starts with.
pub open spec fn builtin_graphs_spec() -> Seq<(Seq<char>, Seq<char>, Seq<(Seq<char>, usize, u32, bool, Option<Seq<char>>)>)> {
    seq![
        ("basic_actor"@, "idle"@, seq![
            ("idle"@, 1usize, 8u32, true, None),
            ("run"@, 6usize, 12u32, true, None),
        ]),
        ("samurai_player"@, "idle"@, seq![
            ("idle"@, 10usize, 8u32, true, None),
            ("run"@, 16usize, 12u32, true, None),
            ("attack"@, 7usize, 15u32, false, Some("idle"@)),
            ("hurt"@, 4usize, 10u32, false, Some("idle"@)),
        ]),
    ]
}

/// The animation graphs the engine starts with.
pub fn builtin_animation_graphs() -> (r: Vec<BuiltinGraph>)
    ensures
        r@.map_values(|g: BuiltinGraph| graph_view(g)) == builtin_graphs_spec(),
{
    let mut basic: Vec<BuiltinClip> = Vec::new();
    basic.push(BuiltinClip { state: "idle", frame_count: 1, fps: 8, looping: true, next: None });
    basic.push(BuiltinClip { state: "run", frame_count: 6, fps: 12, looping: true, next: None });
    let mut samurai: Vec<BuiltinClip> = Vec::new();
    samurai.push(BuiltinClip { state: "idle", frame_count: 10, fps: 8, looping: true, next: None });
    samurai.push(BuiltinClip { state: "run", frame_count: 16, fps: 12, looping: true, next: None });
    samurai.push(BuiltinClip { state: "attack", frame_count: 7, fps: 15, looping: false, next: Some("idle") });
    samurai.push(BuiltinClip { state: "hurt", frame_count: 4, fps: 10, looping: false, next: Some("idle") });
    let mut r: Vec<BuiltinGraph> = Vec::new();
    r.push(BuiltinGraph { name: "basic_actor", default_state: "idle", clips: basic });
    r.push(BuiltinGraph { name: "samurai_player", default_state: "idle", clips: samurai });
    assert(r@.map_values(|g: BuiltinGraph| graph_view(g)) =~~= builtin_graphs_spec());
    r
}

/// A graph is well formed: it has a state, its default state is one of its
/// states, every clip has a frame, and every clip's next state is one of its
/// states.
pub open spec fn graph_well_formed(g: (Seq<char>, Seq<char>, Seq<(Seq<char>, usize, u32, bool, Option<Seq<char>>)>)) -> bool {
    let states = g.2.map_values(|c: (Seq<char>, usize, u32, bool, Option<Seq<char>>)| c.0);
    &&& g.2.len() > 0
    &&& states.contains(g.1)
    &&& forall|i: int| 0 <= i < g.2.len() ==> (#[trigger] g.2[i]).1 >= 1
    &&& forall|i: int| 0 <= i < g.2.len() ==> ((#[trigger] g.2[i]).4 matches Some(n) ==> states.contains(n))
}

/// The graphs the engine starts with are well formed.
pub proof fn lemma_builtin_graphs_well_formed()
    ensures
        forall|i: int| 0 <= i < builtin_graphs_spec().len() ==> graph_well_formed(#[trigger] builtin_graphs_spec()[i]),
{
    let g0 = builtin_graphs_spec()[0];
    let g1 = builtin_graphs_spec()[1];
    let s0 = g0.2.map_values(|c: (Seq<char>, usize, u32, bool, Option<Seq<char>>)| c.0);
    let s1 = g1.2.map_values(|c: (Seq<char>, usize, u32, bool, Option<Seq<char>>)| c.0);
    assert(s0[0] == "idle"@);
    assert(s1[0] == "idle"@);
    assert(graph_well_formed(g0));
    assert(graph_well_formed(g1));
}

/// Vertical motion only matters when the graph can show it: a rising actor
/// in a graph without `jump` is shown as if it were not rising, and a falling
/// one in a graph without `fall` as if it were not falling.
pub proof fn lemma_missing_air_states_are_ignored(
    rising: bool,
    falling: bool,
    moving: bool,
    states: Seq<Seq<char>>,
    default_state: Seq<char>,
)
    ensures
        !states.contains("jump"@) ==> motion_state_spec(rising, falling, moving, states, default_state)
            == motion_state_spec(false, falling, moving, states, default_state),
        !states.contains("fall"@) ==> motion_state_spec(rising, falling, moving, states, default_state)
            == motion_state_spec(rising, false, moving, states, default_state),
{
}

/// The state chosen from velocity, case by case: `jump` while rising when the
/// graph has it; else `fall` while falling when it has that; else `run` while
/// moving sideways when it has that; else `idle` when it has that; else the
/// default state. Whatever is chosen is a state of the graph or the default.
pub proof fn lemma_motion_state_choice(
    rising: bool,
    falling: bool,
    moving: bool,
    states: Seq<Seq<char>>,
    default_state: Seq<char>,
)
    ensures
        ({
            let r = motion_state_spec(rising, falling, moving, states, default_state);
            let jump = rising && states.contains("jump"@);
            let fall = falling && states.contains("fall"@);
            let run = moving && states.contains("run"@);
            &&& jump ==> r == "jump"@
            &&& !jump && fall ==> r == "fall"@
            &&& !jump && !fall && run ==> r == "run"@
            &&& !jump && !fall && !run && states.contains("idle"@) ==> r == "idle"@
            &&& !jump && !fall && !run && !states.contains("idle"@) ==> r == default_state
            &&& states.contains(r) || r == default_state
        }),
{
}

/// What happens at the end of a clip: a looping clip goes back to its first
/// frame, a one-shot clip switches to its next state when there is one and
/// otherwise stays on its last frame; before the end every clip moves on by
/// one frame.
pub proof fn lemma_clip_end(frame: usize, len: usize, looping: bool, next_exists: bool)
    requires
        len >= 1,
        frame < len,
    ensures
        frame + 1 < len ==> frame_step_spec(frame as nat, len as nat, looping, next_exists) == FrameStep::Advance(
            (frame + 1) as usize,
        ),
        frame + 1 == len && looping ==> frame_step_spec(frame as nat, len as nat, looping, next_exists)
            == FrameStep::Advance(0),
        frame + 1 == len && !looping && next_exists ==> frame_step_spec(frame as nat, len as nat, looping, next_exists)
            == FrameStep::SwitchToNext,
        frame + 1 == len && !looping && !next_exists ==> frame_step_spec(frame as nat, len as nat, looping, next_exists)
            == FrameStep::Stop(frame),
{
    if frame + 1 < len {
        vstd::arithmetic::div_mod::lemma_small_mod((frame + 1) as nat, len as nat);
    } else {
        assert(((frame + 1) as int) % (len as int) == 0) by (nonlinear_arith)
            requires
                frame + 1 == len,
                len >= 1,
        ;
    }
}

/// Every emitted animation event name carries the `anim:` prefix, and a
/// name that already has it is kept as it was (trimmed).
pub proof fn lemma_anim_event_names_are_prefixed(event: Seq<char>)
    ensures
        occurs_at(anim_event_name(event), "anim:"@, 0),
        occurs_at(trim_seq(event), "anim:"@, 0) ==> anim_event_name(event) == trim_seq(event),
{
    let t = trim_seq(event);
    if !occurs_at(t, "anim:"@, 0) {
        let r = "anim:"@ + t;
        assert(r.subrange(0, 5) =~= "anim:"@) by {
            reveal_strlit("anim:");
        }
        reveal_strlit("anim:");
    }
}

} // verus!
