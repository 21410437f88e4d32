//! The paths the HTTP API registers, and the law that the API's
//! self-description documents each of them.
use vstd::prelude::*;
use crate::docs::{
    endpoints_part0, endpoints_part1, endpoints_part2, endpoints_part3, endpoints_part4, endpoints_part5,
    endpoints_part6, endpoints_part7, endpoints_part8, endpoints_part9, endpoints_spec, str_views,
};

verus! {

pub open spec fn routes_group0() -> Seq<Seq<char>> {
    seq![
        "/state"@,
        "/player"@,
        "/level"@,
        "/player/position"@,
        "/physics"@,
        "/physics/raycast"@,
        "/physics/raycast_entities"@,
        "/ai/pathfind"@,
        "/ai/line_of_sight"@,
        "/simulate"@,
        "/save"@,
        "/load"@,
        "/saves"@,
        "/levels/pack"@,
        "/levels/pack/{name}/start"@,
    ]
}

pub open spec fn routes_group1() -> Seq<Seq<char>> {
    seq![
        "/levels/pack/{name}/next"@,
        "/levels/pack/{name}/progress"@,
        "/levels/export"@,
        "/levels/import"@,
        "/game/export"@,
        "/game/import"@,
        "/export/web"@,
        "/export/desktop"@,
        "/examples"@,
        "/examples/{name}/load"@,
        "/game/state"@,
        "/game/transitions"@,
        "/game/transition"@,
        "/game/restart"@,
        "/game/load_level"@,
    ]
}

pub open spec fn routes_group2() -> Seq<Seq<char>> {
    seq![
        "/replay/record"@,
        "/replay/stop"@,
        "/replay/play"@,
        "/replay/list"@,
        "/debug/overlay"@,
        "/debug/input"@,
        "/audio/sfx"@,
        "/audio/music"@,
        "/audio/play"@,
        "/audio/stop"@,
        "/audio/config"@,
        "/audio/triggers"@,
        "/particles/presets"@,
        "/audio/state"@,
        "/camera/config"@,
    ]
}

pub open spec fn routes_group3() -> Seq<Seq<char>> {
    seq![
        "/camera/shake"@,
        "/camera/look_at"@,
        "/camera/state"@,
        "/ui/screens"@,
        "/ui/screens/{name}/show"@,
        "/ui/screens/{name}/hide"@,
        "/ui/screens/{name}/nodes/{id}"@,
        "/ui/state"@,
        "/dialogue/conversations"@,
        "/dialogue/start"@,
        "/dialogue/state"@,
        "/dialogue/choose"@,
        "/scene/describe"@,
        "/validate"@,
        "/feel/jump"@,
    ]
}

pub open spec fn routes_group4() -> Seq<Seq<char>> {
    seq![
        "/feel/compare"@,
        "/feel/tune"@,
        "/generate"@,
        "/sprites"@,
        "/sprites/sheets"@,
        "/screenshot"@,
        "/solve"@,
        "/config"@,
        "/config/tile_types"@,
        "/entities"@,
        "/entities/preset"@,
        "/entities/reset_non_player"@,
        "/entities/{id}"@,
        "/entities/{id}/damage"@,
        "/entities/{id}/animation"@,
    ]
}

pub open spec fn routes_group5() -> Seq<Seq<char>> {
    seq![
        "/entities/{id}/particles"@,
        "/entities/{id}/tween"@,
        "/entities/{id}/tween_sequence"@,
        "/events"@,
        "/events/subscribe"@,
        "/perf"@,
        "/perf/history"@,
        "/scripts"@,
        "/scripts/{name}"@,
        "/scripts/{name}/test"@,
        "/scripts/errors"@,
        "/scripts/vars"@,
        "/scripts/events"@,
        "/scripts/stats"@,
        "/scripts/logs"@,
    ]
}

pub open spec fn routes_group6() -> Seq<Seq<char>> {
    seq![
        "/animations"@,
        "/animations/{name}"@,
        "/animations/state"@,
        "/input/gamepad"@,
        "/screen/effect"@,
        "/screen/state"@,
        "/lighting/config"@,
        "/lighting/state"@,
        "/entities/{id}/tint"@,
        "/entities/{id}/trail"@,
        "/input/bindings"@,
        "/lighting/day_night"@,
        "/world_text"@,
        "/entities/{id}/state"@,
        "/tilemap/auto_tile"@,
    ]
}

pub open spec fn routes_group7() -> Seq<Seq<char>> {
    seq![
        "/tilemap/layers"@,
        "/tilemap/layers/{name}"@,
        "/parallax/layers"@,
        "/weather"@,
        "/items/define"@,
        "/entities/{id}/inventory"@,
        "/cutscene/define"@,
        "/cutscene/play"@,
        "/cutscene/stop"@,
        "/cutscene/state"@,
        "/presets"@,
        "/pool/init"@,
        "/pool/acquire"@,
        "/pool/release/{id}"@,
        "/pool/status"@,
    ]
}

pub open spec fn routes_group8() -> Seq<Seq<char>> {
    seq![
        "/telemetry"@,
        "/simulate/world"@,
        "/test/scenario"@,
        "/test/playtest"@,
        "/screenshot/baseline"@,
        "/screenshot/diff"@,
        "/build"@,
        "/validate/manifest"@,
        "/assets/upload"@,
        "/assets/generate"@,
        "/assets/list"@,
        "/docs"@,
        "/docs/html"@,
        "/docs/endpoints"@,
        "/docs/components"@,
    ]
}

pub open spec fn routes_group9() -> Seq<Seq<char>> {
    seq![
        "/docs/presets"@,
        "/docs/templates"@,
        "/docs/constraints"@,
        "/docs/scripts"@,
        "/docs/examples"@,
        "/docs/security"@,
    ]
}

/// The paths the router registers, in the order it registers them (a path
/// that serves several methods appears once).
pub open spec fn routes_spec() -> Seq<Seq<char>> {
    routes_group0() + routes_group1() + routes_group2() + routes_group3() + routes_group4() + routes_group5() + routes_group6() + routes_group7() + routes_group8() + routes_group9()
}

fn push_routes_group0(r: &mut Vec<&'static str>)
    ensures
        str_views(final(r)@) == str_views(old(r)@) + routes_group0(),
{
    r.push("/state");
    r.push("/player");
    r.push("/level");
    r.push("/player/position");
    r.push("/physics");
    r.push("/physics/raycast");
    r.push("/physics/raycast_entities");
    r.push("/ai/pathfind");
    r.push("/ai/line_of_sight");
    r.push("/simulate");
    r.push("/save");
    r.push("/load");
    r.push("/saves");
    r.push("/levels/pack");
    r.push("/levels/pack/{name}/start");
    assert(str_views(r@) =~= str_views(old(r)@) + routes_group0());
}

fn push_routes_group1(r: &mut Vec<&'static str>)
    ensures
        str_views(final(r)@) == str_views(old(r)@) + routes_group1(),
{
    r.push("/levels/pack/{name}/next");
    r.push("/levels/pack/{name}/progress");
    r.push("/levels/export");
    r.push("/levels/import");
    r.push("/game/export");
    r.push("/game/import");
    r.push("/export/web");
    r.push("/export/desktop");
    r.push("/examples");
    r.push("/examples/{name}/load");
    r.push("/game/state");
    r.push("/game/transitions");
    r.push("/game/transition");
    r.push("/game/restart");
    r.push("/game/load_level");
    assert(str_views(r@) =~= str_views(old(r)@) + routes_group1());
}

fn push_routes_group2(r: &mut Vec<&'static str>)
    ensures
        str_views(final(r)@) == str_views(old(r)@) + routes_group2(),
{
    r.push("/replay/record");
    r.push("/replay/stop");
    r.push("/replay/play");
    r.push("/replay/list");
    r.push("/debug/overlay");
    r.push("/debug/input");
    r.push("/audio/sfx");
    r.push("/audio/music");
    r.push("/audio/play");
    r.push("/audio/stop");
    r.push("/audio/config");
    r.push("/audio/triggers");
    r.push("/particles/presets");
    r.push("/audio/state");
    r.push("/camera/config");
    assert(str_views(r@) =~= str_views(old(r)@) + routes_group2());
}

fn push_routes_group3(r: &mut Vec<&'static str>)
    ensures
        str_views(final(r)@) == str_views(old(r)@) + routes_group3(),
{
    r.push("/camera/shake");
    r.push("/camera/look_at");
    r.push("/camera/state");
    r.push("/ui/screens");
    r.push("/ui/screens/{name}/show");
    r.push("/ui/screens/{name}/hide");
    r.push("/ui/screens/{name}/nodes/{id}");
    r.push("/ui/state");
    r.push("/dialogue/conversations");
    r.push("/dialogue/start");
    r.push("/dialogue/state");
    r.push("/dialogue/choose");
    r.push("/scene/describe");
    r.push("/validate");
    r.push("/feel/jump");
    assert(str_views(r@) =~= str_views(old(r)@) + routes_group3());
}

fn push_routes_group4(r: &mut Vec<&'static str>)
    ensures
        str_views(final(r)@) == str_views(old(r)@) + routes_group4(),
{
    r.push("/feel/compare");
    r.push("/feel/tune");
    r.push("/generate");
    r.push("/sprites");
    r.push("/sprites/sheets");
    r.push("/screenshot");
    r.push("/solve");
    r.push("/config");
    r.push("/config/tile_types");
    r.push("/entities");
    r.push("/entities/preset");
    r.push("/entities/reset_non_player");
    r.push("/entities/{id}");
    r.push("/entities/{id}/damage");
    r.push("/entities/{id}/animation");
    assert(str_views(r@) =~= str_views(old(r)@) + routes_group4());
}

fn push_routes_group5(r: &mut Vec<&'static str>)
    ensures
        str_views(final(r)@) == str_views(old(r)@) + routes_group5(),
{
    r.push("/entities/{id}/particles");
    r.push("/entities/{id}/tween");
    r.push("/entities/{id}/tween_sequence");
    r.push("/events");
    r.push("/events/subscribe");
    r.push("/perf");
    r.push("/perf/history");
    r.push("/scripts");
    r.push("/scripts/{name}");
    r.push("/scripts/{name}/test");
    r.push("/scripts/errors");
    r.push("/scripts/vars");
    r.push("/scripts/events");
    r.push("/scripts/stats");
    r.push("/scripts/logs");
    assert(str_views(r@) =~= str_views(old(r)@) + routes_group5());
}

fn push_routes_group6(r: &mut Vec<&'static str>)
    ensures
        str_views(final(r)@) == str_views(old(r)@) + routes_group6(),
{
    r.push("/animations");
    r.push("/animations/{name}");
    r.push("/animations/state");
    r.push("/input/gamepad");
    r.push("/screen/effect");
    r.push("/screen/state");
    r.push("/lighting/config");
    r.push("/lighting/state");
    r.push("/entities/{id}/tint");
    r.push("/entities/{id}/trail");
    r.push("/input/bindings");
    r.push("/lighting/day_night");
    r.push("/world_text");
    r.push("/entities/{id}/state");
    r.push("/tilemap/auto_tile");
    assert(str_views(r@) =~= str_views(old(r)@) + routes_group6());
}

fn push_routes_group7(r: &mut Vec<&'static str>)
    ensures
        str_views(final(r)@) == str_views(old(r)@) + routes_group7(),
{
    r.push("/tilemap/layers");
    r.push("/tilemap/layers/{name}");
    r.push("/parallax/layers");
    r.push("/weather");
    r.push("/items/define");
    r.push("/entities/{id}/inventory");
    r.push("/cutscene/define");
    r.push("/cutscene/play");
    r.push("/cutscene/stop");
    r.push("/cutscene/state");
    r.push("/presets");
    r.push("/pool/init");
    r.push("/pool/acquire");
    r.push("/pool/release/{id}");
    r.push("/pool/status");
    assert(str_views(r@) =~= str_views(old(r)@) + routes_group7());
}

fn push_routes_group8(r: &mut Vec<&'static str>)
    ensures
        str_views(final(r)@) == str_views(old(r)@) + routes_group8(),
{
    r.push("/telemetry");
    r.push("/simulate/world");
    r.push("/test/scenario");
    r.push("/test/playtest");
    r.push("/screenshot/baseline");
    r.push("/screenshot/diff");
    r.push("/build");
    r.push("/validate/manifest");
    r.push("/assets/upload");
    r.push("/assets/generate");
    r.push("/assets/list");
    r.push("/docs");
    r.push("/docs/html");
    r.push("/docs/endpoints");
    r.push("/docs/components");
    assert(str_views(r@) =~= str_views(old(r)@) + routes_group8());
}

fn push_routes_group9(r: &mut Vec<&'static str>)
    ensures
        str_views(final(r)@) == str_views(old(r)@) + routes_group9(),
{
    r.push("/docs/presets");
    r.push("/docs/templates");
    r.push("/docs/constraints");
    r.push("/docs/scripts");
    r.push("/docs/examples");
    r.push("/docs/security");
    assert(str_views(r@) =~= str_views(old(r)@) + routes_group9());
}

/// The paths the HTTP API registers.
pub fn registered_routes() -> (r: Vec<&'static str>)
    ensures
        str_views(r@) == routes_spec(),
{
    let mut r: Vec<&'static str> = Vec::new();
    assert(str_views(r@) =~= Seq::<Seq<char>>::empty());
    push_routes_group0(&mut r);
    push_routes_group1(&mut r);
    push_routes_group2(&mut r);
    push_routes_group3(&mut r);
    push_routes_group4(&mut r);
    push_routes_group5(&mut r);
    push_routes_group6(&mut r);
    push_routes_group7(&mut r);
    push_routes_group8(&mut r);
    push_routes_group9(&mut r);
    assert(str_views(r@) =~= routes_spec());
    r
}

/// Some documented endpoint has the path `p`.
pub open spec fn documents_path(eps: Seq<(Seq<char>, Seq<char>, Seq<char>)>, p: Seq<char>) -> bool {
    exists|j: int| 0 <= j < eps.len() && #[trigger] eps[j].1 == p
}

/// Every element of `s` is the path of a documented endpoint.
pub open spec fn all_documented(s: Seq<Seq<char>>) -> bool {
    forall|n: int| 0 <= n < s.len() ==> documents_path(endpoints_spec(), #[trigger] s[n])
}

spec fn endpoint_part(k: int) -> Seq<(Seq<char>, Seq<char>, Seq<char>)> {
    if k == 0 {
        endpoints_part0()
    } else if k == 1 {
        endpoints_part1()
    } else if k == 2 {
        endpoints_part2()
    } else if k == 3 {
        endpoints_part3()
    } else if k == 4 {
        endpoints_part4()
    } else if k == 5 {
        endpoints_part5()
    } else if k == 6 {
        endpoints_part6()
    } else if k == 7 {
        endpoints_part7()
    } else if k == 8 {
        endpoints_part8()
    } else {
        endpoints_part9()
    }
}

spec fn endpoint_prefix(k: int) -> Seq<(Seq<char>, Seq<char>, Seq<char>)>
    decreases k,
{
    if k <= 0 {
        endpoint_part(0)
    } else {
        endpoint_prefix(k - 1) + endpoint_part(k)
    }
}

proof fn lemma_documented_in_concat(a: Seq<(Seq<char>, Seq<char>, Seq<char>)>, b: Seq<(Seq<char>, Seq<char>, Seq<char>)>, p: Seq<char>)
    ensures
        documents_path(a, p) ==> documents_path(a + b, p),
        documents_path(b, p) ==> documents_path(a + b, p),
{
    if documents_path(a, p) {
        let j = choose|j: int| 0 <= j < a.len() && #[trigger] a[j].1 == p;
        assert((a + b)[j] == a[j]);
    }
    if documents_path(b, p) {
        let j = choose|j: int| 0 <= j < b.len() && #[trigger] b[j].1 == p;
        assert((a + b)[a.len() + j] == b[j]);
    }
}

proof fn lemma_prefix_documented(k: int, p: Seq<char>)
    requires
        0 <= k <= 9,
        documents_path(endpoint_prefix(k), p),
    ensures
        documents_path(endpoint_prefix(9), p),
    decreases 9 - k,
{
    if k < 9 {
        lemma_documented_in_concat(endpoint_prefix(k), endpoint_part(k + 1), p);
        lemma_prefix_documented(k + 1, p);
    }
}

/// The path of the `j`-th endpoint of part `k` of the documentation is documented.
proof fn lemma_part_entry_documented(k: int, j: int)
    requires
        0 <= k <= 9,
        0 <= j < endpoint_part(k).len(),
    ensures
        documents_path(endpoints_spec(), endpoint_part(k)[j].1),
{
    let p = endpoint_part(k)[j].1;
    assert(documents_path(endpoint_part(k), p));
    if k > 0 {
        lemma_documented_in_concat(endpoint_prefix(k - 1), endpoint_part(k), p);
    }
    assert(documents_path(endpoint_prefix(k), p));
    lemma_prefix_documented(k, p);
    reveal_with_fuel(endpoint_prefix, 10);
    assert(endpoint_prefix(9) =~= endpoints_spec());
}

proof fn lemma_all_documented_concat(a: Seq<Seq<char>>, b: Seq<Seq<char>>)
    requires
        all_documented(a),
        all_documented(b),
    ensures
        all_documented(a + b),
{
    assert forall|n: int| 0 <= n < (a + b).len() implies documents_path(endpoints_spec(), #[trigger] (a + b)[n]) by {
        if n < a.len() {
            assert((a + b)[n] == a[n]);
        } else {
            assert((a + b)[n] == b[n - a.len()]);
        }
    }
}

proof fn lemma_routes_group0_documented()
    ensures
        all_documented(routes_group0()),
{
    let g = routes_group0();
    lemma_part_entry_documented(0, 0);
    assert(g[0] == endpoint_part(0)[0].1);
    lemma_part_entry_documented(0, 1);
    assert(g[1] == endpoint_part(0)[1].1);
    lemma_part_entry_documented(0, 2);
    assert(g[2] == endpoint_part(0)[2].1);
    lemma_part_entry_documented(0, 3);
    assert(g[3] == endpoint_part(0)[3].1);
    lemma_part_entry_documented(0, 4);
    assert(g[4] == endpoint_part(0)[4].1);
    lemma_part_entry_documented(0, 6);
    assert(g[5] == endpoint_part(0)[6].1);
    lemma_part_entry_documented(0, 7);
    assert(g[6] == endpoint_part(0)[7].1);
    lemma_part_entry_documented(0, 8);
    assert(g[7] == endpoint_part(0)[8].1);
    lemma_part_entry_documented(0, 9);
    assert(g[8] == endpoint_part(0)[9].1);
    lemma_part_entry_documented(0, 13);
    assert(g[9] == endpoint_part(0)[13].1);
    lemma_part_entry_documented(0, 14);
    assert(g[10] == endpoint_part(0)[14].1);
    lemma_part_entry_documented(0, 15);
    assert(g[11] == endpoint_part(0)[15].1);
    lemma_part_entry_documented(0, 16);
    assert(g[12] == endpoint_part(0)[16].1);
    lemma_part_entry_documented(1, 0);
    assert(g[13] == endpoint_part(1)[0].1);
    lemma_part_entry_documented(1, 1);
    assert(g[14] == endpoint_part(1)[1].1);
    // Each element of the group is covered by the facts above; split on its index.
    assert forall|n: int| 0 <= n < g.len() implies documents_path(endpoints_spec(), #[trigger] g[n]) by {
        assert(0 <= n < 15);
        if n == 0 {
        } else if n == 1 {
        } else if n == 2 {
        } else if n == 3 {
        } else if n == 4 {
        } else if n == 5 {
        } else if n == 6 {
        } else if n == 7 {
        } else if n == 8 {
        } else if n == 9 {
        } else if n == 10 {
        } else if n == 11 {
        } else if n == 12 {
        } else if n == 13 {
        } else if n == 14 {
        }
    }
}

proof fn lemma_routes_group1_documented()
    ensures
        all_documented(routes_group1()),
{
    let g = routes_group1();
    lemma_part_entry_documented(1, 2);
    assert(g[0] == endpoint_part(1)[2].1);
    lemma_part_entry_documented(1, 3);
    assert(g[1] == endpoint_part(1)[3].1);
    lemma_part_entry_documented(1, 4);
    assert(g[2] == endpoint_part(1)[4].1);
    lemma_part_entry_documented(1, 5);
    assert(g[3] == endpoint_part(1)[5].1);
    lemma_part_entry_documented(1, 6);
    assert(g[4] == endpoint_part(1)[6].1);
    lemma_part_entry_documented(1, 7);
    assert(g[5] == endpoint_part(1)[7].1);
    lemma_part_entry_documented(1, 8);
    assert(g[6] == endpoint_part(1)[8].1);
    lemma_part_entry_documented(1, 9);
    assert(g[7] == endpoint_part(1)[9].1);
    lemma_part_entry_documented(1, 10);
    assert(g[8] == endpoint_part(1)[10].1);
    lemma_part_entry_documented(1, 11);
    assert(g[9] == endpoint_part(1)[11].1);
    lemma_part_entry_documented(1, 12);
    assert(g[10] == endpoint_part(1)[12].1);
    lemma_part_entry_documented(1, 15);
    assert(g[11] == endpoint_part(1)[15].1);
    lemma_part_entry_documented(1, 14);
    assert(g[12] == endpoint_part(1)[14].1);
    lemma_part_entry_documented(1, 16);
    assert(g[13] == endpoint_part(1)[16].1);
    lemma_part_entry_documented(2, 0);
    assert(g[14] == endpoint_part(2)[0].1);
    // Each element of the group is covered by the facts above; split on its index.
    assert forall|n: int| 0 <= n < g.len() implies documents_path(endpoints_spec(), #[trigger] g[n]) by {
        assert(0 <= n < 15);
        if n == 0 {
        } else if n == 1 {
        } else if n == 2 {
        } else if n == 3 {
        } else if n == 4 {
        } else if n == 5 {
        } else if n == 6 {
        } else if n == 7 {
        } else if n == 8 {
        } else if n == 9 {
        } else if n == 10 {
        } else if n == 11 {
        } else if n == 12 {
        } else if n == 13 {
        } else if n == 14 {
        }
    }
}

proof fn lemma_routes_group2_documented()
    ensures
        all_documented(routes_group2()),
{
    let g = routes_group2();
    lemma_part_entry_documented(2, 1);
    assert(g[0] == endpoint_part(2)[1].1);
    lemma_part_entry_documented(2, 2);
    assert(g[1] == endpoint_part(2)[2].1);
    lemma_part_entry_documented(2, 3);
    assert(g[2] == endpoint_part(2)[3].1);
    lemma_part_entry_documented(2, 4);
    assert(g[3] == endpoint_part(2)[4].1);
    lemma_part_entry_documented(2, 5);
    assert(g[4] == endpoint_part(2)[5].1);
    lemma_part_entry_documented(9, 3);
    assert(g[5] == endpoint_part(9)[3].1);
    lemma_part_entry_documented(2, 7);
    assert(g[6] == endpoint_part(2)[7].1);
    lemma_part_entry_documented(2, 8);
    assert(g[7] == endpoint_part(2)[8].1);
    lemma_part_entry_documented(2, 9);
    assert(g[8] == endpoint_part(2)[9].1);
    lemma_part_entry_documented(2, 10);
    assert(g[9] == endpoint_part(2)[10].1);
    lemma_part_entry_documented(2, 11);
    assert(g[10] == endpoint_part(2)[11].1);
    lemma_part_entry_documented(2, 12);
    assert(g[11] == endpoint_part(2)[12].1);
    lemma_part_entry_documented(2, 13);
    assert(g[12] == endpoint_part(2)[13].1);
    lemma_part_entry_documented(2, 14);
    assert(g[13] == endpoint_part(2)[14].1);
    lemma_part_entry_documented(2, 15);
    assert(g[14] == endpoint_part(2)[15].1);
    // Each element of the group is covered by the facts above; split on its index.
    assert forall|n: int| 0 <= n < g.len() implies documents_path(endpoints_spec(), #[trigger] g[n]) by {
        assert(0 <= n < 15);
        if n == 0 {
        } else if n == 1 {
        } else if n == 2 {
        } else if n == 3 {
        } else if n == 4 {
        } else if n == 5 {
        } else if n == 6 {
        } else if n == 7 {
        } else if n == 8 {
        } else if n == 9 {
        } else if n == 10 {
        } else if n == 11 {
        } else if n == 12 {
        } else if n == 13 {
        } else if n == 14 {
        }
    }
}

proof fn lemma_routes_group3_documented()
    ensures
        all_documented(routes_group3()),
{
    let g = routes_group3();
    lemma_part_entry_documented(2, 16);
    assert(g[0] == endpoint_part(2)[16].1);
    lemma_part_entry_documented(3, 0);
    assert(g[1] == endpoint_part(3)[0].1);
    lemma_part_entry_documented(3, 1);
    assert(g[2] == endpoint_part(3)[1].1);
    lemma_part_entry_documented(3, 2);
    assert(g[3] == endpoint_part(3)[2].1);
    lemma_part_entry_documented(3, 3);
    assert(g[4] == endpoint_part(3)[3].1);
    lemma_part_entry_documented(3, 4);
    assert(g[5] == endpoint_part(3)[4].1);
    lemma_part_entry_documented(3, 5);
    assert(g[6] == endpoint_part(3)[5].1);
    lemma_part_entry_documented(3, 6);
    assert(g[7] == endpoint_part(3)[6].1);
    lemma_part_entry_documented(3, 7);
    assert(g[8] == endpoint_part(3)[7].1);
    lemma_part_entry_documented(3, 8);
    assert(g[9] == endpoint_part(3)[8].1);
    lemma_part_entry_documented(3, 9);
    assert(g[10] == endpoint_part(3)[9].1);
    lemma_part_entry_documented(3, 10);
    assert(g[11] == endpoint_part(3)[10].1);
    lemma_part_entry_documented(3, 11);
    assert(g[12] == endpoint_part(3)[11].1);
    lemma_part_entry_documented(3, 12);
    assert(g[13] == endpoint_part(3)[12].1);
    lemma_part_entry_documented(3, 15);
    assert(g[14] == endpoint_part(3)[15].1);
    // Each element of the group is covered by the facts above; split on its index.
    assert forall|n: int| 0 <= n < g.len() implies documents_path(endpoints_spec(), #[trigger] g[n]) by {
        assert(0 <= n < 15);
        if n == 0 {
        } else if n == 1 {
        } else if n == 2 {
        } else if n == 3 {
        } else if n == 4 {
        } else if n == 5 {
        } else if n == 6 {
        } else if n == 7 {
        } else if n == 8 {
        } else if n == 9 {
        } else if n == 10 {
        } else if n == 11 {
        } else if n == 12 {
        } else if n == 13 {
        } else if n == 14 {
        }
    }
}

proof fn lemma_routes_group4_documented()
    ensures
        all_documented(routes_group4()),
{
    let g = routes_group4();
    lemma_part_entry_documented(3, 16);
    assert(g[0] == endpoint_part(3)[16].1);
    lemma_part_entry_documented(4, 0);
    assert(g[1] == endpoint_part(4)[0].1);
    lemma_part_entry_documented(3, 14);
    assert(g[2] == endpoint_part(3)[14].1);
    lemma_part_entry_documented(4, 1);
    assert(g[3] == endpoint_part(4)[1].1);
    lemma_part_entry_documented(4, 3);
    assert(g[4] == endpoint_part(4)[3].1);
    lemma_part_entry_documented(4, 5);
    assert(g[5] == endpoint_part(4)[5].1);
    lemma_part_entry_documented(3, 13);
    assert(g[6] == endpoint_part(3)[13].1);
    lemma_part_entry_documented(0, 10);
    assert(g[7] == endpoint_part(0)[10].1);
    lemma_part_entry_documented(0, 12);
    assert(g[8] == endpoint_part(0)[12].1);
    lemma_part_entry_documented(4, 6);
    assert(g[9] == endpoint_part(4)[6].1);
    lemma_part_entry_documented(4, 8);
    assert(g[10] == endpoint_part(4)[8].1);
    lemma_part_entry_documented(4, 9);
    assert(g[11] == endpoint_part(4)[9].1);
    lemma_part_entry_documented(4, 10);
    assert(g[12] == endpoint_part(4)[10].1);
    lemma_part_entry_documented(4, 13);
    assert(g[13] == endpoint_part(4)[13].1);
    lemma_part_entry_documented(4, 14);
    assert(g[14] == endpoint_part(4)[14].1);
    // Each element of the group is covered by the facts above; split on its index.
    assert forall|n: int| 0 <= n < g.len() implies documents_path(endpoints_spec(), #[trigger] g[n]) by {
        assert(0 <= n < 15);
        if n == 0 {
        } else if n == 1 {
        } else if n == 2 {
        } else if n == 3 {
        } else if n == 4 {
        } else if n == 5 {
        } else if n == 6 {
        } else if n == 7 {
        } else if n == 8 {
        } else if n == 9 {
        } else if n == 10 {
        } else if n == 11 {
        } else if n == 12 {
        } else if n == 13 {
        } else if n == 14 {
        }
    }
}

proof fn lemma_routes_group5_documented()
    ensures
        all_documented(routes_group5()),
{
    let g = routes_group5();
    lemma_part_entry_documented(4, 16);
    assert(g[0] == endpoint_part(4)[16].1);
    lemma_part_entry_documented(5, 0);
    assert(g[1] == endpoint_part(5)[0].1);
    lemma_part_entry_documented(5, 1);
    assert(g[2] == endpoint_part(5)[1].1);
    lemma_part_entry_documented(5, 2);
    assert(g[3] == endpoint_part(5)[2].1);
    lemma_part_entry_documented(5, 3);
    assert(g[4] == endpoint_part(5)[3].1);
    lemma_part_entry_documented(5, 4);
    assert(g[5] == endpoint_part(5)[4].1);
    lemma_part_entry_documented(5, 5);
    assert(g[6] == endpoint_part(5)[5].1);
    lemma_part_entry_documented(5, 6);
    assert(g[7] == endpoint_part(5)[6].1);
    lemma_part_entry_documented(5, 8);
    assert(g[8] == endpoint_part(5)[8].1);
    lemma_part_entry_documented(5, 10);
    assert(g[9] == endpoint_part(5)[10].1);
    lemma_part_entry_documented(5, 11);
    assert(g[10] == endpoint_part(5)[11].1);
    lemma_part_entry_documented(5, 13);
    assert(g[11] == endpoint_part(5)[13].1);
    lemma_part_entry_documented(5, 15);
    assert(g[12] == endpoint_part(5)[15].1);
    lemma_part_entry_documented(5, 16);
    assert(g[13] == endpoint_part(5)[16].1);
    lemma_part_entry_documented(5, 12);
    assert(g[14] == endpoint_part(5)[12].1);
    // Each element of the group is covered by the facts above; split on its index.
    assert forall|n: int| 0 <= n < g.len() implies documents_path(endpoints_spec(), #[trigger] g[n]) by {
        assert(0 <= n < 15);
        if n == 0 {
        } else if n == 1 {
        } else if n == 2 {
        } else if n == 3 {
        } else if n == 4 {
        } else if n == 5 {
        } else if n == 6 {
        } else if n == 7 {
        } else if n == 8 {
        } else if n == 9 {
        } else if n == 10 {
        } else if n == 11 {
        } else if n == 12 {
        } else if n == 13 {
        } else if n == 14 {
        }
    }
}

proof fn lemma_routes_group6_documented()
    ensures
        all_documented(routes_group6()),
{
    let g = routes_group6();
    lemma_part_entry_documented(6, 0);
    assert(g[0] == endpoint_part(6)[0].1);
    lemma_part_entry_documented(6, 1);
    assert(g[1] == endpoint_part(6)[1].1);
    lemma_part_entry_documented(6, 4);
    assert(g[2] == endpoint_part(6)[4].1);
    lemma_part_entry_documented(6, 5);
    assert(g[3] == endpoint_part(6)[5].1);
    lemma_part_entry_documented(6, 7);
    assert(g[4] == endpoint_part(6)[7].1);
    lemma_part_entry_documented(6, 8);
    assert(g[5] == endpoint_part(6)[8].1);
    lemma_part_entry_documented(6, 9);
    assert(g[6] == endpoint_part(6)[9].1);
    lemma_part_entry_documented(6, 10);
    assert(g[7] == endpoint_part(6)[10].1);
    lemma_part_entry_documented(6, 11);
    assert(g[8] == endpoint_part(6)[11].1);
    lemma_part_entry_documented(6, 12);
    assert(g[9] == endpoint_part(6)[12].1);
    lemma_part_entry_documented(6, 13);
    assert(g[10] == endpoint_part(6)[13].1);
    lemma_part_entry_documented(6, 15);
    assert(g[11] == endpoint_part(6)[15].1);
    lemma_part_entry_documented(7, 0);
    assert(g[12] == endpoint_part(7)[0].1);
    lemma_part_entry_documented(7, 1);
    assert(g[13] == endpoint_part(7)[1].1);
    lemma_part_entry_documented(7, 3);
    assert(g[14] == endpoint_part(7)[3].1);
    // Each element of the group is covered by the facts above; split on its index.
    assert forall|n: int| 0 <= n < g.len() implies documents_path(endpoints_spec(), #[trigger] g[n]) by {
        assert(0 <= n < 15);
        if n == 0 {
        } else if n == 1 {
        } else if n == 2 {
        } else if n == 3 {
        } else if n == 4 {
        } else if n == 5 {
        } else if n == 6 {
        } else if n == 7 {
        } else if n == 8 {
        } else if n == 9 {
        } else if n == 10 {
        } else if n == 11 {
        } else if n == 12 {
        } else if n == 13 {
        } else if n == 14 {
        }
    }
}

proof fn lemma_routes_group7_documented()
    ensures
        all_documented(routes_group7()),
{
    let g = routes_group7();
    lemma_part_entry_documented(7, 4);
    assert(g[0] == endpoint_part(7)[4].1);
    lemma_part_entry_documented(7, 6);
    assert(g[1] == endpoint_part(7)[6].1);
    lemma_part_entry_documented(7, 7);
    assert(g[2] == endpoint_part(7)[7].1);
    lemma_part_entry_documented(7, 9);
    assert(g[3] == endpoint_part(7)[9].1);
    lemma_part_entry_documented(7, 12);
    assert(g[4] == endpoint_part(7)[12].1);
    lemma_part_entry_documented(7, 13);
    assert(g[5] == endpoint_part(7)[13].1);
    lemma_part_entry_documented(7, 15);
    assert(g[6] == endpoint_part(7)[15].1);
    lemma_part_entry_documented(7, 16);
    assert(g[7] == endpoint_part(7)[16].1);
    lemma_part_entry_documented(8, 0);
    assert(g[8] == endpoint_part(8)[0].1);
    lemma_part_entry_documented(8, 1);
    assert(g[9] == endpoint_part(8)[1].1);
    lemma_part_entry_documented(8, 2);
    assert(g[10] == endpoint_part(8)[2].1);
    lemma_part_entry_documented(8, 4);
    assert(g[11] == endpoint_part(8)[4].1);
    lemma_part_entry_documented(8, 5);
    assert(g[12] == endpoint_part(8)[5].1);
    lemma_part_entry_documented(8, 6);
    assert(g[13] == endpoint_part(8)[6].1);
    lemma_part_entry_documented(8, 7);
    assert(g[14] == endpoint_part(8)[7].1);
    // Each element of the group is covered by the facts above; split on its index.
    assert forall|n: int| 0 <= n < g.len() implies documents_path(endpoints_spec(), #[trigger] g[n]) by {
        assert(0 <= n < 15);
        if n == 0 {
        } else if n == 1 {
        } else if n == 2 {
        } else if n == 3 {
        } else if n == 4 {
        } else if n == 5 {
        } else if n == 6 {
        } else if n == 7 {
        } else if n == 8 {
        } else if n == 9 {
        } else if n == 10 {
        } else if n == 11 {
        } else if n == 12 {
        } else if n == 13 {
        } else if n == 14 {
        }
    }
}

proof fn lemma_routes_group8_documented()
    ensures
        all_documented(routes_group8()),
{
    let g = routes_group8();
    lemma_part_entry_documented(8, 8);
    assert(g[0] == endpoint_part(8)[8].1);
    lemma_part_entry_documented(8, 10);
    assert(g[1] == endpoint_part(8)[10].1);
    lemma_part_entry_documented(8, 11);
    assert(g[2] == endpoint_part(8)[11].1);
    lemma_part_entry_documented(8, 12);
    assert(g[3] == endpoint_part(8)[12].1);
    lemma_part_entry_documented(8, 13);
    assert(g[4] == endpoint_part(8)[13].1);
    lemma_part_entry_documented(8, 14);
    assert(g[5] == endpoint_part(8)[14].1);
    lemma_part_entry_documented(8, 15);
    assert(g[6] == endpoint_part(8)[15].1);
    lemma_part_entry_documented(8, 16);
    assert(g[7] == endpoint_part(8)[16].1);
    lemma_part_entry_documented(9, 0);
    assert(g[8] == endpoint_part(9)[0].1);
    lemma_part_entry_documented(9, 1);
    assert(g[9] == endpoint_part(9)[1].1);
    lemma_part_entry_documented(9, 2);
    assert(g[10] == endpoint_part(9)[2].1);
    lemma_part_entry_documented(9, 4);
    assert(g[11] == endpoint_part(9)[4].1);
    lemma_part_entry_documented(9, 5);
    assert(g[12] == endpoint_part(9)[5].1);
    lemma_part_entry_documented(9, 6);
    assert(g[13] == endpoint_part(9)[6].1);
    lemma_part_entry_documented(9, 7);
    assert(g[14] == endpoint_part(9)[7].1);
    // Each element of the group is covered by the facts above; split on its index.
    assert forall|n: int| 0 <= n < g.len() implies documents_path(endpoints_spec(), #[trigger] g[n]) by {
        assert(0 <= n < 15);
        if n == 0 {
        } else if n == 1 {
        } else if n == 2 {
        } else if n == 3 {
        } else if n == 4 {
        } else if n == 5 {
        } else if n == 6 {
        } else if n == 7 {
        } else if n == 8 {
        } else if n == 9 {
        } else if n == 10 {
        } else if n == 11 {
        } else if n == 12 {
        } else if n == 13 {
        } else if n == 14 {
        }
    }
}

proof fn lemma_routes_group9_documented()
    ensures
        all_documented(routes_group9()),
{
    let g = routes_group9();
    lemma_part_entry_documented(9, 8);
    assert(g[0] == endpoint_part(9)[8].1);
    lemma_part_entry_documented(9, 9);
    assert(g[1] == endpoint_part(9)[9].1);
    lemma_part_entry_documented(9, 10);
    assert(g[2] == endpoint_part(9)[10].1);
    lemma_part_entry_documented(9, 11);
    assert(g[3] == endpoint_part(9)[11].1);
    lemma_part_entry_documented(9, 12);
    assert(g[4] == endpoint_part(9)[12].1);
    lemma_part_entry_documented(9, 13);
    assert(g[5] == endpoint_part(9)[13].1);
    // Each element of the group is covered by the facts above; split on its index.
    assert forall|n: int| 0 <= n < g.len() implies documents_path(endpoints_spec(), #[trigger] g[n]) by {
        assert(0 <= n < 6);
        if n == 0 {
        } else if n == 1 {
        } else if n == 2 {
        } else if n == 3 {
        } else if n == 4 {
        } else if n == 5 {
        }
    }
}

/// The API's self-description documents every path the router registers.
pub proof fn lemma_docs_cover_registered_routes()
    ensures
        routes_spec().len() > 0,
        forall|n: int| 0 <= n < routes_spec().len() ==> documents_path(endpoints_spec(), #[trigger] routes_spec()[n]),
{
    lemma_routes_group0_documented();
    lemma_routes_group1_documented();
    lemma_routes_group2_documented();
    lemma_routes_group3_documented();
    lemma_routes_group4_documented();
    lemma_routes_group5_documented();
    lemma_routes_group6_documented();
    lemma_routes_group7_documented();
    lemma_routes_group8_documented();
    lemma_routes_group9_documented();
    lemma_all_documented_concat(routes_group0(), routes_group1());
    lemma_all_documented_concat(routes_group0() + routes_group1(), routes_group2());
    lemma_all_documented_concat(routes_group0() + routes_group1() + routes_group2(), routes_group3());
    lemma_all_documented_concat(routes_group0() + routes_group1() + routes_group2() + routes_group3(), routes_group4());
    lemma_all_documented_concat(routes_group0() + routes_group1() + routes_group2() + routes_group3() + routes_group4(), routes_group5());
    lemma_all_documented_concat(routes_group0() + routes_group1() + routes_group2() + routes_group3() + routes_group4() + routes_group5(), routes_group6());
    lemma_all_documented_concat(routes_group0() + routes_group1() + routes_group2() + routes_group3() + routes_group4() + routes_group5() + routes_group6(), routes_group7());
    lemma_all_documented_concat(routes_group0() + routes_group1() + routes_group2() + routes_group3() + routes_group4() + routes_group5() + routes_group6() + routes_group7(), routes_group8());
    lemma_all_documented_concat(routes_group0() + routes_group1() + routes_group2() + routes_group3() + routes_group4() + routes_group5() + routes_group6() + routes_group7() + routes_group8(), routes_group9());
    assert(routes_spec().len() > 0);
}

} // verus!
