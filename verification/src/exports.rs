//! Planning of web and desktop export bundles: build targets, artifact paths,
//! export settings, and the scripts that can ship with a web build.
use vstd::prelude::*;
use crate::api_types::{ExportDesktopRequest, ExportWebRequest};
use crate::order::views;
use crate::sanitize::{sanitize_name, sanitize_spec};
use crate::web_scripts::ScriptStripSummary;
use crate::text::{
    decimal_seq, decimal_string,
    ascii_lower_chars, ascii_lower_seq, chars_equal, chars_of, contains_chars, contains_seq,
    contains_str, contains_word_token_chars, contains_word_token_spec, owned, string_of, trim_chars,
    trim_seq,
};

verus! {

pub open spec fn windows_triple() -> Seq<char> {
    "x86_64-pc-windows-msvc"@
}

pub open spec fn linux_triple() -> Seq<char> {
    "x86_64-unknown-linux-gnu"@
}

pub open spec fn macos_triple() -> Seq<char> {
    "x86_64-apple-darwin"@
}

/// The build target of the machine the engine runs on, from its operating
/// system name (`windows`, `macos`, anything else builds for Linux).
pub open spec fn host_target_spec(os: Seq<char>) -> Seq<char> {
    if os == "windows"@ {
        windows_triple()
    } else if os == "macos"@ {
        macos_triple()
    } else {
        linux_triple()
    }
}

/// The build target for a requested desktop target: the host when none or
/// only whitespace is given; the triples for the aliases `windows`/`win`,
/// `linux`, `macos`/`mac`/`darwin` (in any ASCII case); else the request as
/// given, trimmed.
pub open spec fn resolve_target_spec(input: Option<Seq<char>>, host: Seq<char>) -> Seq<char> {
    let target = trim_seq(
        match input {
            Some(s) => s,
            None => host,
        },
    );
    let lower = ascii_lower_seq(target);
    if target.len() == 0 {
        host
    } else if lower == "windows"@ || lower == "win"@ {
        windows_triple()
    } else if lower == "linux"@ {
        linux_triple()
    } else if lower == "macos"@ || lower == "mac"@ || lower == "darwin"@ {
        macos_triple()
    } else {
        target
    }
}

/// Joining a relative path component onto a directory, as `Path::join` does
/// on Unix: an absolute component replaces the directory, an empty directory
/// gives the component, and a separator is added unless the directory ends
/// with one.
pub open spec fn join_spec(base: Seq<char>, comp: Seq<char>) -> Seq<char> {
    if comp.len() > 0 && comp[0] == '/' {
        comp
    } else if base.len() == 0 {
        comp
    } else if base.last() == '/' {
        base + comp
    } else {
        base + "/"@ + comp
    }
}

/// Where the wasm build of the engine is written.
pub open spec fn wasm_artifact_spec(target_dir: Seq<char>, profile: Seq<char>) -> Seq<char> {
    join_spec(join_spec(join_spec(target_dir, "wasm32-unknown-unknown"@), profile), "axiom.wasm"@)
}

/// The executable's file name for a target triple.
pub open spec fn exe_name_spec(triple: Seq<char>) -> Seq<char> {
    if contains_seq(triple, "windows"@) {
        "axiom.exe"@
    } else {
        "axiom"@
    }
}

/// Where the desktop build of the engine is written.
pub open spec fn desktop_artifact_spec(target_dir: Seq<char>, triple: Seq<char>, profile: Seq<char>) -> Seq<char> {
    join_spec(join_spec(join_spec(target_dir, triple), profile), exe_name_spec(triple))
}

/// The desktop target for the host operating system named by `os` (the value
/// of `std::env::consts::OS`).
pub fn host_desktop_target(os: &str) -> (r: String)
    ensures
        r@ == host_target_spec(os@),
{
    let v = chars_of(os);
    if chars_equal(&v, &chars_of("windows")) {
        owned("x86_64-pc-windows-msvc")
    } else if chars_equal(&v, &chars_of("macos")) {
        owned("x86_64-apple-darwin")
    } else {
        owned("x86_64-unknown-linux-gnu")
    }
}

/// Resolves a requested desktop target to a target triple; `host` is the
/// target of the machine the engine runs on.  Always succeeds.
pub fn resolve_desktop_target(input: Option<&str>, host: &str) -> (r: Result<String, String>)
    ensures
        r matches Ok(s) && s@ == resolve_target_spec(
            match input {
                Some(s) => Some(s@),
                None => None,
            },
            host@,
        ),
{
    let raw = match input {
        Some(s) => chars_of(s),
        None => chars_of(host),
    };
    let target = trim_chars(&raw);
    if target.len() == 0 {
        return Ok(owned(host));
    }
    let lower = ascii_lower_chars(&target);
    if chars_equal(&lower, &chars_of("windows")) || chars_equal(&lower, &chars_of("win")) {
        Ok(owned("x86_64-pc-windows-msvc"))
    } else if chars_equal(&lower, &chars_of("linux")) {
        Ok(owned("x86_64-unknown-linux-gnu"))
    } else if chars_equal(&lower, &chars_of("macos")) || chars_equal(&lower, &chars_of("mac"))
        || chars_equal(&lower, &chars_of("darwin")) {
        Ok(owned("x86_64-apple-darwin"))
    } else {
        Ok(string_of(&target))
    }
}

/// `Path::join` on Unix for a directory and one component.
pub fn path_join(base: &str, comp: &str) -> (r: String)
    ensures
        r@ == join_spec(base@, comp@),
{
    let b = chars_of(base);
    let c = chars_of(comp);
    if c.len() > 0 && c[0] == '/' {
        return owned(comp);
    }
    if b.len() == 0 {
        return owned(comp);
    }
    let mut r = owned(base);
    if b[b.len() - 1] != '/' {
        r.append("/");
    }
    r.append(comp);
    r
}

/// Where the wasm build is found under `target_dir` for a build profile.
pub fn wasm_artifact_path(target_dir: &str, profile: &str) -> (r: String)
    ensures
        r@ == wasm_artifact_spec(target_dir@, profile@),
{
    let a = path_join(target_dir, "wasm32-unknown-unknown");
    let b = path_join(a.as_str(), profile);
    path_join(b.as_str(), "axiom.wasm")
}

/// Where the desktop build for `triple` is found under `target_dir`; the
/// executable is `axiom.exe` for Windows triples, `axiom` otherwise.
pub fn desktop_artifact_path(target_dir: &str, triple: &str, profile: &str) -> (r: String)
    ensures
        r@ == desktop_artifact_spec(target_dir@, triple@, profile@),
{
    let exe = if contains_str(triple, "windows") {
        "axiom.exe"
    } else {
        "axiom"
    };
    let a = path_join(target_dir, triple);
    let b = path_join(a.as_str(), profile);
    path_join(b.as_str(), exe)
}

/// The entry point appended to an entity script for the web backend.
pub open spec fn entity_entry_suffix() -> Seq<char> {
    "\nfn __axiom_entity_entry(entity, world, dt) { update(entity, world, dt); }"@
}

/// The entry point appended to a global script for the web backend.
pub open spec fn global_entry_suffix() -> Seq<char> {
    "\nfn __axiom_global_entry(world, dt) { update(world, dt); }"@
}

pub open spec fn wrap_rhai_spec(source: Seq<char>, entity_script: bool) -> Seq<char> {
    source + if entity_script {
        entity_entry_suffix()
    } else {
        global_entry_suffix()
    }
}

/// The script source with the web backend's entry point appended: one that
/// calls `update(entity, world, dt)` for entity scripts, `update(world, dt)`
/// for global scripts.
pub fn wrap_rhai_source(source: &str, entity_script: bool) -> (r: String)
    ensures
        r@ == wrap_rhai_spec(source@, entity_script),
{
    let mut r = owned(source);
    if entity_script {
        r.append("\nfn __axiom_entity_entry(entity, world, dt) { update(entity, world, dt); }");
    } else {
        r.append("\nfn __axiom_global_entry(world, dt) { update(world, dt); }");
    }
    r
}

/// Lua constructs the web backend cannot take: in a source that is not blank,
/// the words `repeat`, `until`, `goto`, `break` or `continue`, a numeric
/// `for` loop's ` do` at the end of a line or before `;`, or a `::` label.
pub open spec fn unhandled_lua_spec(s: Seq<char>) -> bool {
    &&& trim_seq(s).len() > 0
    &&& {
        ||| contains_word_token_spec(s, "repeat"@)
        ||| contains_word_token_spec(s, "until"@)
        ||| contains_word_token_spec(s, "goto"@)
        ||| contains_word_token_spec(s, "break"@)
        ||| contains_word_token_spec(s, "continue"@)
        ||| contains_seq(s, " do\n"@)
        ||| contains_seq(s, " do\r\n"@)
        ||| contains_seq(s, " do;"@)
        ||| contains_seq(s, "::"@)
    }
}

/// Whether a script uses Lua syntax that the web backend cannot run.
pub fn has_unhandled_lua_syntax(source: &str) -> (r: bool)
    ensures
        r == unhandled_lua_spec(source@),
{
    let s = chars_of(source);
    let trimmed = trim_chars(&s);
    if trimmed.len() == 0 {
        return false;
    }
    contains_word_token_chars(&s, &chars_of("repeat")) || contains_word_token_chars(
        &s,
        &chars_of("until"),
    ) || contains_word_token_chars(&s, &chars_of("goto")) || contains_word_token_chars(
        &s,
        &chars_of("break"),
    ) || contains_word_token_chars(&s, &chars_of("continue")) || contains_chars(
        &s,
        &chars_of(" do\n"),
    ) || contains_chars(&s, &chars_of(" do\r\n")) || contains_chars(&s, &chars_of(" do;"))
        || contains_chars(&s, &chars_of("::"))
}

/// Settings of a web export.
pub struct WebExportPlan {
    pub title: String,
    /// The title reduced to file-name-safe characters.
    pub safe_title: String,
    pub width: u32,
    pub height: u32,
    pub levels: String,
    pub embed_assets: bool,
    pub strip_incompatible_scripts: bool,
    pub release: bool,
    /// `release` or `debug`.
    pub profile: String,
}

pub open spec fn opt_or(o: Option<String>, d: Seq<char>) -> Seq<char> {
    match o {
        Some(s) => s@,
        None => d,
    }
}

pub open spec fn clamp_spec(v: u32, lo: u32, hi: u32) -> u32 {
    if v < lo {
        lo
    } else if v > hi {
        hi
    } else {
        v
    }
}

pub open spec fn profile_spec(release: bool) -> Seq<char> {
    if release {
        "release"@
    } else {
        "debug"@
    }
}

fn opt_string_or(o: &Option<String>, d: &str) -> (r: String)
    ensures
        r@ == opt_or(*o, d@),
{
    match o {
        Some(s) => s.clone(),
        None => owned(d),
    }
}

fn clamp_u32(v: u32, lo: u32, hi: u32) -> (r: u32)
    ensures
        r == clamp_spec(v, lo, hi),
{
    if v < lo {
        lo
    } else if v > hi {
        hi
    } else {
        v
    }
}

fn profile_name(release: bool) -> (r: String)
    ensures
        r@ == profile_spec(release),
{
    if release {
        owned("release")
    } else {
        owned("debug")
    }
}

/// The settings of a web export: title `AxiomGame`, 960x540 (width clamped to
/// 320..=4096, height to 180..=4096), levels `all`, assets embedded and
/// incompatible scripts stripped, debug build, unless the request says
/// otherwise.
pub fn plan_web_export(req: &ExportWebRequest) -> (r: WebExportPlan)
    ensures
        r.title@ == opt_or(req.title, "AxiomGame"@),
        r.safe_title@ == sanitize_spec(r.title@, "AxiomGame"@),
        r.width == clamp_spec(
            match req.width {
                Some(w) => w,
                None => 960,
            },
            320,
            4096,
        ),
        r.height == clamp_spec(
            match req.height {
                Some(h) => h,
                None => 540,
            },
            180,
            4096,
        ),
        r.levels@ == opt_or(req.levels, "all"@),
        r.embed_assets == (match req.embed_assets {
            Some(b) => b,
            None => true,
        }),
        r.strip_incompatible_scripts == (match req.strip_incompatible_scripts {
            Some(b) => b,
            None => true,
        }),
        r.release == (match req.release {
            Some(b) => b,
            None => false,
        }),
        r.profile@ == profile_spec(r.release),
{
    let title = opt_string_or(&req.title, "AxiomGame");
    let safe_title = sanitize_name(title.as_str(), "AxiomGame");
    let width = clamp_u32(
        match req.width {
            Some(w) => w,
            None => 960,
        },
        320,
        4096,
    );
    let height = clamp_u32(
        match req.height {
            Some(h) => h,
            None => 540,
        },
        180,
        4096,
    );
    let levels = opt_string_or(&req.levels, "all");
    let embed_assets = match req.embed_assets {
        Some(b) => b,
        None => true,
    };
    let strip_incompatible_scripts = match req.strip_incompatible_scripts {
        Some(b) => b,
        None => true,
    };
    let release = match req.release {
        Some(b) => b,
        None => false,
    };
    let profile = profile_name(release);
    WebExportPlan {
        title,
        safe_title,
        width,
        height,
        levels,
        embed_assets,
        strip_incompatible_scripts,
        release,
        profile,
    }
}

/// Settings and output locations of a desktop export.
pub struct DesktopExportPlan {
    pub title: String,
    pub safe_title: String,
    pub release: bool,
    pub profile: String,
    /// The target triple built for.
    pub triple: String,
    /// The directory the bundle is written to.
    pub out_dir: String,
    /// Where the project data is written.
    pub game_data_json: String,
    /// Where the executable is copied to.
    pub binary: String,
}

/// The executable's name in the bundle: the safe title, with `.exe` for a
/// Windows target.
pub open spec fn bundle_binary_name(safe_title: Seq<char>, triple: Seq<char>) -> Seq<char> {
    if contains_seq(triple, "windows"@) {
        safe_title + ".exe"@
    } else {
        safe_title
    }
}

/// The settings of a desktop export: title `AxiomGame` and a release build
/// unless the request says otherwise; the target resolved from the request
/// (the host's when none); the bundle under `<export_dir>/desktop/<target>`,
/// holding `game_data.json` and the executable named after the title.
pub fn plan_desktop_export(req: &ExportDesktopRequest, host: &str, export_dir: &str) -> (r: Result<
    DesktopExportPlan,
    String,
>)
    ensures
        r matches Ok(p) && {
            &&& p.title@ == opt_or(req.title, "AxiomGame"@)
            &&& p.safe_title@ == sanitize_spec(p.title@, "AxiomGame"@)
            &&& p.release == (match req.release {
                Some(b) => b,
                None => true,
            })
            &&& p.profile@ == profile_spec(p.release)
            &&& p.triple@ == resolve_target_spec(
                match req.target {
                    Some(s) => Some(s@),
                    None => None,
                },
                host@,
            )
            &&& p.out_dir@ == join_spec(
                join_spec(export_dir@, "desktop"@),
                sanitize_spec(p.triple@, "desktop"@),
            )
            &&& p.game_data_json@ == join_spec(p.out_dir@, "game_data.json"@)
            &&& p.binary@ == join_spec(p.out_dir@, bundle_binary_name(p.safe_title@, p.triple@))
        },
{
    let title = opt_string_or(&req.title, "AxiomGame");
    let safe_title = sanitize_name(title.as_str(), "AxiomGame");
    let release = match req.release {
        Some(b) => b,
        None => true,
    };
    let profile = profile_name(release);
    let target_ref: Option<&str> = match &req.target {
        Some(s) => Some(s.as_str()),
        None => None,
    };
    let triple = match resolve_desktop_target(target_ref, host) {
        Ok(t) => t,
        Err(e) => {
            return Err(e);
        },
    };
    let desktop = path_join(export_dir, "desktop");
    let dir_name = sanitize_name(triple.as_str(), "desktop");
    let out_dir = path_join(desktop.as_str(), dir_name.as_str());
    let game_data_json = path_join(out_dir.as_str(), "game_data.json");
    let bin_name = if contains_str(triple.as_str(), "windows") {
        let mut n = safe_title.clone();
        n.append(".exe");
        n
    } else {
        safe_title.clone()
    };
    let binary = path_join(out_dir.as_str(), bin_name.as_str());
    Ok(DesktopExportPlan { title, safe_title, release, profile, triple, out_dir, game_data_json, binary })
}

/// The first `n` names joined with `, `.
pub open spec fn join_names(names: Seq<Seq<char>>, n: int) -> Seq<char>
    decreases n,
{
    if n <= 0 {
        Seq::empty()
    } else if n == 1 {
        names[0]
    } else {
        join_names(names, n - 1) + ", "@ + names[n - 1]
    }
}

/// The names shown in a warning: the first six joined with `, `, and `, ...`
/// after them when there are more.
pub open spec fn preview_spec(names: Seq<Seq<char>>) -> Seq<char> {
    if names.len() > 6 {
        join_names(names, 6) + ", ..."@
    } else {
        join_names(names, names.len() as int)
    }
}

pub open spec fn stripped_warning_spec(removed: nat, bindings: nat, names: Seq<Seq<char>>) -> Seq<char> {
    "Stripped "@ + decimal_seq(removed) + " script source(s) and "@ + decimal_seq(bindings)
        + " entity script binding(s) for web export compatibility (Rhai backend): ["@ + preview_spec(names)
        + "]."@
}

pub open spec fn transpiled_warning_spec(transpiled: nat, names: Seq<Seq<char>>) -> Seq<char> {
    "Transpiled "@ + decimal_seq(transpiled) + " script source(s) from Lua-compat to Rhai for web export: ["@
        + preview_spec(names) + "]."@
}

/// The warnings a web export reports about its scripts, in this order: one
/// when scripts or bindings were dropped, one when scripts were converted.
pub open spec fn strip_warnings_spec(s: ScriptStripSummary) -> Seq<Seq<char>> {
    let first = if s.scripts_removed > 0 || s.entity_bindings_removed > 0 {
        seq![stripped_warning_spec(s.scripts_removed as nat, s.entity_bindings_removed as nat, views(s.removed_script_names@))]
    } else {
        Seq::empty()
    };
    let second = if s.scripts_transpiled > 0 {
        seq![transpiled_warning_spec(s.scripts_transpiled as nat, views(s.transpiled_script_names@))]
    } else {
        Seq::empty()
    };
    first + second
}

fn preview(names: &Vec<String>) -> (r: String)
    ensures
        r@ == preview_spec(views(names@)),
{
    let shown: usize = if names.len() > 6 {
        6
    } else {
        names.len()
    };
    let mut out = String::new();
    let mut i: usize = 0;
    while i < shown
        invariant
            i <= shown <= names@.len(),
            out@ == join_names(views(names@), i as int),
        decreases shown - i,
    {
        if i > 0 {
            out.append(", ");
        }
        let ghost before = out@;
        out.append(names[i].as_str());
        assert(views(names@)[i as int] == names@[i as int]@);
        if i == 0 {
            assert(out@ =~= join_names(views(names@), 1));
        }
        i += 1;
    }
    if names.len() > 6 {
        out.append(", ...");
    }
    out
}

/// The warnings a web export reports about the scripts it stripped or
/// converted (see `strip_warnings_spec`).
pub fn strip_warnings(summary: &ScriptStripSummary) -> (r: Vec<String>)
    ensures
        views(r@) == strip_warnings_spec(*summary),
{
    let mut out: Vec<String> = Vec::new();
    if summary.scripts_removed > 0 || summary.entity_bindings_removed > 0 {
        let mut m = owned("Stripped ");
        m.append(decimal_string(summary.scripts_removed as u64).as_str());
        m.append(" script source(s) and ");
        m.append(decimal_string(summary.entity_bindings_removed as u64).as_str());
        m.append(" entity script binding(s) for web export compatibility (Rhai backend): [");
        m.append(preview(&summary.removed_script_names).as_str());
        m.append("].");
        out.push(m);
    }
    if summary.scripts_transpiled > 0 {
        let mut m = owned("Transpiled ");
        m.append(decimal_string(summary.scripts_transpiled as u64).as_str());
        m.append(" script source(s) from Lua-compat to Rhai for web export: [");
        m.append(preview(&summary.transpiled_script_names).as_str());
        m.append("].");
        out.push(m);
    }
    assert(views(out@) =~= strip_warnings_spec(*summary));
    out
}

/// A line without the carriage return that ended it, if any.
pub open spec fn strip_cr(c: Seq<char>) -> Seq<char> {
    if c.len() > 0 && c.last() == '\r' {
        c.drop_last()
    } else {
        c
    }
}

/// The lines of `s` that a newline has closed, and the text after the last
/// newline.
pub open spec fn line_split(s: Seq<char>) -> (Seq<Seq<char>>, Seq<char>)
    decreases s.len(),
{
    if s.len() == 0 {
        (Seq::empty(), Seq::empty())
    } else {
        let (done, cur) = line_split(s.drop_last());
        if s.last() == '\n' {
            (done.push(strip_cr(cur)), Seq::empty())
        } else {
            (done, cur.push(s.last()))
        }
    }
}

/// `str::lines`: the text split at `\n` or `\r\n`, where a final line ending
/// adds no empty line.
pub open spec fn lines_spec(s: Seq<char>) -> Seq<Seq<char>> {
    let (done, cur) = line_split(s);
    if cur.len() == 0 {
        done
    } else {
        done.push(cur)
    }
}

/// The first `n` parts joined with `sep` between them.
pub open spec fn join_with(parts: Seq<Seq<char>>, n: int, sep: Seq<char>) -> Seq<char>
    decreases n,
{
    if n <= 0 {
        Seq::empty()
    } else if n == 1 {
        parts[0]
    } else {
        join_with(parts, n - 1, sep) + sep + parts[n - 1]
    }
}

/// The most lines of a command's output that an error message quotes.
pub const ERROR_LINES_SHOWN: usize = 12;

/// At most the first twelve lines of `text`, joined with ` | `.
pub open spec fn quoted_lines(text: Seq<char>) -> Seq<char> {
    let lines = lines_spec(text);
    let n = if lines.len() > ERROR_LINES_SHOWN { ERROR_LINES_SHOWN as int } else { lines.len() as int };
    join_with(lines, n, " | "@)
}

/// The message for a failed build command: its error output if any, else its
/// standard output, else its exit status; output is trimmed and quoted by
/// `quoted_lines`.
pub open spec fn command_error_spec(stderr: Seq<char>, stdout: Seq<char>, status: Seq<char>) -> Seq<char> {
    let e = trim_seq(stderr);
    let o = trim_seq(stdout);
    if e.len() > 0 {
        quoted_lines(e)
    } else if o.len() > 0 {
        quoted_lines(o)
    } else {
        "exit status "@ + status
    }
}

fn split_lines(s: &Vec<char>) -> (r: Vec<String>)
    ensures
        views(r@) == lines_spec(s@),
{
    let mut done: Vec<String> = Vec::new();
    let mut cur: Vec<char> = Vec::new();
    let mut i: usize = 0;
    while i < s.len()
        invariant
            i <= s.len(),
            (views(done@), cur@) == line_split(s@.take(i as int)),
        decreases s.len() - i,
    {
        assert(s@.take(i + 1).drop_last() =~= s@.take(i as int));
        let c = s[i];
        if c == '\n' {
            let n = cur.len();
            if n > 0 && cur[n - 1] == '\r' {
                cur.pop();
                assert(cur@ =~= strip_cr(line_split(s@.take(i as int)).1));
            }
            done.push(string_of(&cur));
            assert(views(done@) =~= line_split(s@.take(i as int)).0.push(strip_cr(line_split(s@.take(i as int)).1)));
            cur = Vec::new();
        } else {
            cur.push(c);
        }
        i += 1;
    }
    assert(s@.take(s.len() as int) =~= s@);
    if cur.len() > 0 {
        done.push(string_of(&cur));
        assert(views(done@) =~= lines_spec(s@));
    }
    done
}

pub(crate) fn join_first(parts: &Vec<String>, n: usize, sep: &str) -> (r: String)
    requires
        n <= parts.len(),
    ensures
        r@ == join_with(views(parts@), n as int, sep@),
{
    let mut out = String::new();
    let mut i: usize = 0;
    while i < n
        invariant
            i <= n <= parts@.len(),
            out@ == join_with(views(parts@), i as int, sep@),
        decreases n - i,
    {
        if i > 0 {
            out.append(sep);
        }
        out.append(parts[i].as_str());
        assert(views(parts@)[i as int] == parts@[i as int]@);
        if i == 0 {
            assert(out@ =~= join_with(views(parts@), 1, sep@));
        }
        i += 1;
    }
    out
}

fn quote_lines(text: &Vec<char>) -> (r: String)
    ensures
        r@ == quoted_lines(text@),
{
    let lines = split_lines(text);
    let n: usize = if lines.len() > ERROR_LINES_SHOWN {
        ERROR_LINES_SHOWN
    } else {
        lines.len()
    };
    join_first(&lines, n, " | ")
}

/// The message reported when a build command fails, from its error output,
/// its standard output and its exit status as displayed (see
/// `command_error_spec`).
pub fn format_command_error(stderr: &str, stdout: &str, status: &str) -> (r: String)
    ensures
        r@ == command_error_spec(stderr@, stdout@, status@),
{
    let e = trim_chars(&chars_of(stderr));
    let o = trim_chars(&chars_of(stdout));
    if e.len() > 0 {
        quote_lines(&e)
    } else if o.len() > 0 {
        quote_lines(&o)
    } else {
        let mut m = owned("exit status ");
        m.append(status);
        m
    }
}

pub const INDEX_HTML_HEAD: &'static str = "<!doctype html>\n<html lang=\"en\">\n<head>\n  <meta charset=\"utf-8\" />\n  <meta name=\"viewport\" content=\"width=device-width,initial-scale=1\" />\n  <title>";

pub const INDEX_HTML_STYLE: &'static str = "</title>\n  <style>\n    body { margin: 0; background: #111; color: #eee; font-family: monospace; }\n    #app { width: 100vw; height: 100vh; display: grid; place-items: center; }\n    canvas { width: min(100vw, ";

pub const INDEX_HTML_STYLE_HEIGHT: &'static str = "px); height: min(100vh, ";

pub const INDEX_HTML_CANVAS: &'static str = "px); image-rendering: pixelated; }\n    #status { position: fixed; left: 8px; top: 8px; background: rgba(0,0,0,0.5); padding: 6px 8px; border-radius: 4px; }\n  </style>\n</head>\n<body>\n  <div id=\"app\">\n    <canvas id=\"bevy\" width=\"";

pub const INDEX_HTML_CANVAS_HEIGHT: &'static str = "\" height=\"";

pub const INDEX_HTML_STATUS: &'static str = "\"></canvas>\n  </div>\n  <div id=\"status\">Loading ";

pub const INDEX_HTML_TAIL: &'static str = "...</div>\n  <script type=\"module\" src=\"./bootstrap.js\"></script>\n</body>\n</html>\n";

/// The page of a web export: the game's canvas at the export's size, a
/// status line naming the game, and the bootstrap script.  The title is
/// written as given.
pub open spec fn web_index_spec(title: Seq<char>, width: u32, height: u32) -> Seq<char> {
    INDEX_HTML_HEAD@ + title + INDEX_HTML_STYLE@ + decimal_seq(width as nat) + INDEX_HTML_STYLE_HEIGHT@ + decimal_seq(height as nat) + INDEX_HTML_CANVAS@ + decimal_seq(width as nat) + INDEX_HTML_CANVAS_HEIGHT@ + decimal_seq(height as nat) + INDEX_HTML_STATUS@ + title + INDEX_HTML_TAIL@
}

/// The `index.html` of a web export (see `web_index_spec`).
pub fn web_index_html(title: &str, width: u32, height: u32) -> (r: String)
    ensures
        r@ == web_index_spec(title@, width, height),
{
    let w = decimal_string(width as u64);
    let h = decimal_string(height as u64);
    let mut out = owned(INDEX_HTML_HEAD);
    out.append(title);
    out.append(INDEX_HTML_STYLE);
    out.append(w.as_str());
    out.append(INDEX_HTML_STYLE_HEIGHT);
    out.append(h.as_str());
    out.append(INDEX_HTML_CANVAS);
    out.append(w.as_str());
    out.append(INDEX_HTML_CANVAS_HEIGHT);
    out.append(h.as_str());
    out.append(INDEX_HTML_STATUS);
    out.append(title);
    out.append(INDEX_HTML_TAIL);
    out
}

/// The bootstrap script when the JavaScript glue was generated: it starts the
/// game and reports its state.
pub const BOOTSTRAP_JS_READY: &'static str = "import init from \"./axiom.js\";\nconst status = document.getElementById(\"status\");\ninit().then(() => {\n  if (status) status.textContent = \"Running\";\n}).catch((err) => {\n  const text = String(err || \"\");\n  if (text.includes(\"Using exceptions for control flow\")) {\n    if (status) status.textContent = \"Running\";\n    console.warn(\"[Axiom export] Ignoring expected wasm control-flow exception.\");\n    return;\n  }\n  if (status) status.textContent = \"Failed to start\";\n  console.error(err);\n});\n";

/// The bootstrap script when the JavaScript glue is missing: it says how to
/// finish the export.
pub const BOOTSTRAP_JS_INCOMPLETE: &'static str = "const status = document.getElementById(\"status\");\nif (status) {\n  status.textContent = \"Build incomplete: install wasm-bindgen-cli to finish export.\";\n}\n";

/// The `bootstrap.js` of a web export, by whether the JavaScript glue was
/// generated.
pub fn web_bootstrap_js(glue_ready: bool) -> (r: &'static str)
    ensures
        r@ == (if glue_ready { BOOTSTRAP_JS_READY@ } else { BOOTSTRAP_JS_INCOMPLETE@ }),
{
    if glue_ready {
        BOOTSTRAP_JS_READY
    } else {
        BOOTSTRAP_JS_INCOMPLETE
    }
}

/// Every spelling of a platform name, in any ASCII case and with surrounding
/// whitespace, resolves to that platform's triple: `macos`, `mac` and
/// `darwin` to the macOS triple, `windows` and `win` to the Windows triple,
/// `linux` to the Linux triple. Any other non-blank request is kept as written
/// (trimmed), and a blank one gives the host.
pub proof fn lemma_platform_aliases_resolve(input: Seq<char>, host: Seq<char>)
    ensures
        ({
            let lower = ascii_lower_seq(trim_seq(input));
            let r = resolve_target_spec(Some(input), host);
            &&& (lower == "macos"@ || lower == "mac"@ || lower == "darwin"@) ==> r == "x86_64-apple-darwin"@
            &&& (lower == "windows"@ || lower == "win"@) ==> r == "x86_64-pc-windows-msvc"@
            &&& lower == "linux"@ ==> r == "x86_64-unknown-linux-gnu"@
            &&& trim_seq(input).len() == 0 ==> r == host
            &&& (trim_seq(input).len() > 0 && lower != "macos"@ && lower != "mac"@ && lower != "darwin"@
                && lower != "windows"@ && lower != "win"@ && lower != "linux"@) ==> r == trim_seq(input)
        }),
{
    reveal_strlit("macos");
    reveal_strlit("mac");
    reveal_strlit("darwin");
    reveal_strlit("windows");
    reveal_strlit("win");
    reveal_strlit("linux");
    let t = trim_seq(input);
    let lower = ascii_lower_seq(t);
    assert(lower.len() == t.len());
    assert("windows"@[0] == 'w' && "win"@[0] == 'w' && "linux"@[0] == 'l');
    if lower == "mac"@ || lower == "macos"@ {
        assert(lower[0] == 'm');
        assert(lower != "windows"@ && lower != "win"@ && lower != "linux"@);
    }
    if lower == "darwin"@ {
        assert(lower[0] == 'd');
        assert(lower != "windows"@ && lower != "win"@ && lower != "linux"@);
    }
    if lower == "win"@ || lower == "windows"@ {
        assert(lower[0] == 'w');
        assert(lower != "linux"@);
    }
}

/// A clamped setting lies within its bounds, and a value already within them
/// is kept.
pub proof fn lemma_clamp_within(v: u32, lo: u32, hi: u32)
    requires
        lo <= hi,
    ensures
        lo <= clamp_spec(v, lo, hi) <= hi,
        lo <= v <= hi ==> clamp_spec(v, lo, hi) == v,
{
}

/// The desktop build is an `.exe` exactly for the Windows triple among the
/// three platform triples.
pub proof fn lemma_exe_names()
    ensures
        exe_name_spec(windows_triple()) == "axiom.exe"@,
        exe_name_spec(linux_triple()) == "axiom"@,
        exe_name_spec(macos_triple()) == "axiom"@,
{
    reveal_strlit("x86_64-pc-windows-msvc");
    reveal_strlit("x86_64-unknown-linux-gnu");
    reveal_strlit("x86_64-apple-darwin");
    reveal_strlit("windows");
    let w = "windows"@;
    assert(crate::text::occurs_at(windows_triple(), w, 10)) by {
        assert(windows_triple().subrange(10, 17) =~= w);
    }
    assert forall|i: int| !crate::text::occurs_at(linux_triple(), w, i) by {
        if crate::text::occurs_at(linux_triple(), w, i) {
            assert(linux_triple().subrange(i, i + 7)[0] == w[0]);
            assert(linux_triple().subrange(i, i + 7)[1] == w[1]);
            assert(linux_triple()[i] == 'w');
            assert(linux_triple()[i + 1] == 'i');
        }
    }
    assert forall|i: int| !crate::text::occurs_at(macos_triple(), w, i) by {
        if crate::text::occurs_at(macos_triple(), w, i) {
            assert(macos_triple().subrange(i, i + 7)[0] == w[0]);
            assert(macos_triple()[i] == 'w');
        }
    }
}

} // verus!
