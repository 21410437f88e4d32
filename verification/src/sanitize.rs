//! File-name-safe versions of user-supplied names (save slots, replays,
//! export titles).
use vstd::prelude::*;
use crate::text::{chars_of, decimal_seq, decimal_string, is_ascii_alnum, is_ascii_alnum_char, owned, string_of};

verus! {

/// Characters kept in a sanitized name: ASCII letters and digits, `-` and `_`.
pub open spec fn is_name_char(c: char) -> bool {
    is_ascii_alnum(c) || c == '-' || c == '_'
}

/// The characters of `s` that are kept in a sanitized name, in order.
pub open spec fn name_chars(s: Seq<char>) -> Seq<char>
    decreases s.len(),
{
    if s.len() == 0 {
        Seq::empty()
    } else if is_name_char(s.last()) {
        name_chars(s.drop_last()).push(s.last())
    } else {
        name_chars(s.drop_last())
    }
}

/// The kept characters of `s`, or `fallback` when none are kept.
pub open spec fn sanitize_spec(s: Seq<char>, fallback: Seq<char>) -> Seq<char> {
    if name_chars(s).len() == 0 {
        fallback
    } else {
        name_chars(s)
    }
}

/// The fallback name of a replay recorded at `now_ms`.
pub open spec fn replay_fallback(now_ms: u64) -> Seq<char> {
    "replay_"@ + decimal_seq(now_ms as nat)
}

/// Every kept character is a name character.
pub proof fn lemma_name_chars_only_name_chars(s: Seq<char>)
    ensures
        forall|i: int| 0 <= i < name_chars(s).len() ==> is_name_char(#[trigger] name_chars(s)[i]),
        name_chars(s).len() <= s.len(),
    decreases s.len(),
{
    if s.len() > 0 {
        lemma_name_chars_only_name_chars(s.drop_last());
    }
}

/// Sanitizing twice gives what sanitizing once gave.
pub proof fn lemma_name_chars_idempotent(s: Seq<char>)
    ensures
        name_chars(name_chars(s)) == name_chars(s),
    decreases s.len(),
{
    if s.len() > 0 {
        lemma_name_chars_idempotent(s.drop_last());
        let t = name_chars(s.drop_last());
        if is_name_char(s.last()) {
            assert(t.push(s.last()).drop_last() == t);
        }
    }
}

fn name_chars_of(s: &str) -> (r: Vec<char>)
    ensures
        r@ == name_chars(s@),
{
    let v = chars_of(s);
    let mut r: Vec<char> = Vec::new();
    let mut i: usize = 0;
    while i < v.len()
        invariant
            i <= v.len(),
            v@ == s@,
            r@ == name_chars(v@.take(i as int)),
        decreases v.len() - i,
    {
        let c = v[i];
        assert(v@.take(i + 1).drop_last() == v@.take(i as int));
        if is_ascii_alnum_char(c) || c == '-' || c == '_' {
            r.push(c);
        }
        i += 1;
    }
    assert(v@.take(v.len() as int) == v@);
    r
}

/// Keeps only ASCII letters, digits, `-` and `_`; `save` when nothing is left.
pub fn sanitize_slot(slot: &str) -> (r: String)
    ensures
        r@ == sanitize_spec(slot@, "save"@),
{
    let kept = name_chars_of(slot);
    if kept.len() == 0 {
        owned("save")
    } else {
        string_of(&kept)
    }
}

/// Keeps only ASCII letters, digits, `-` and `_`; `fallback` when nothing is left.
pub fn sanitize_name(name: &str, fallback: &str) -> (r: String)
    ensures
        r@ == sanitize_spec(name@, fallback@),
{
    let kept = name_chars_of(name);
    if kept.len() == 0 {
        owned(fallback)
    } else {
        string_of(&kept)
    }
}

/// Keeps only ASCII letters, digits, `-` and `_`; when nothing is left, names
/// the replay after the time `now_ms` (milliseconds since the Unix epoch).
pub fn sanitize_replay_name_at(name: &str, now_ms: u64) -> (r: String)
    ensures
        r@ == sanitize_spec(name@, replay_fallback(now_ms)),
{
    let kept = name_chars_of(name);
    if kept.len() == 0 {
        let mut s = owned("replay_");
        let digits = decimal_string(now_ms);
        s.append(digits.as_str());
        s
    } else {
        string_of(&kept)
    }
}

/// Milliseconds since the Unix epoch by the system clock (`SystemTime::now`),
/// 0 when the clock reads earlier than the epoch.  Nothing is promised of the
/// value: it is the time.
#[verifier::external_body]
fn unix_ms_now() -> u64 {
    std::time::SystemTime::now().duration_since(std::time::UNIX_EPOCH).map(|d| d.as_millis() as u64).unwrap_or(0)
}

/// Keeps only ASCII letters, digits, `-` and `_`; when nothing is left, names
/// the replay after the current time.
pub fn sanitize_replay_name(name: &str) -> (r: String)
    ensures
        name_chars(name@).len() > 0 ==> r@ == name_chars(name@),
        name_chars(name@).len() == 0 ==> exists|t: u64| r@ == #[trigger] replay_fallback(t),
{
    let kept = name_chars_of(name);
    if kept.len() == 0 {
        let now = unix_ms_now();
        let r = sanitize_replay_name_at(name, now);
        assert(r@ == replay_fallback(now));
        r
    } else {
        string_of(&kept)
    }
}

} // verus!
