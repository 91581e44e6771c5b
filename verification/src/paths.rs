//! Path composition and the search orders for the Chromium binary, the
//! agent-browser binary and programs on `$PATH`.

use vstd::prelude::*;
use crate::text::{chars_of, push_all, split_on, split_str, str_is_empty, string_from_chars, strings_view};

verus! {

/// `base` joined with `rel` as `Path::join` does on Unix: an absolute
/// `rel` replaces `base`; otherwise a `/` separates them unless `base` is
/// empty or already ends with one.
pub open spec fn join(base: Seq<char>, rel: Seq<char>) -> Seq<char> {
    if rel.len() > 0 && rel[0] == '/' {
        rel
    } else if base.len() == 0 || base.last() == '/' {
        base + rel
    } else {
        base + seq!['/'] + rel
    }
}

pub fn join_path(base: &str, rel: &str) -> (r: String)
    ensures
        r@ == join(base@, rel@),
{
    let b = chars_of(base);
    let r = chars_of(rel);
    let mut out: Vec<char> = Vec::new();
    if r.len() > 0 && r[0] == '/' {
        push_all(&mut out, &r);
    } else {
        push_all(&mut out, &b);
        if !(b.len() == 0 || b[b.len() - 1] == '/') {
            out.push('/');
        }
        push_all(&mut out, &r);
    }
    string_from_chars(&out)
}

/// Where a candidate Chromium binary comes from.
#[derive(Clone, Copy, Debug, PartialEq, Eq, Structural)]
pub enum ChromiumSource {
    Config,
    Bundled,
    Path,
    Flatpak,
}

/// The program names looked up on `$PATH` for Chromium, in order.
pub open spec fn chromium_names() -> Seq<Seq<char>> {
    seq!["chromium"@, "chromium-browser"@, "google-chrome"@, "google-chrome-stable"@, "chrome"@]
}

/// The Flatpak exports checked for Chromium, in order.
pub open spec fn flatpak_paths() -> Seq<Seq<char>> {
    seq![
        "/var/lib/flatpak/exports/bin/com.google.Chrome"@,
        "/var/lib/flatpak/exports/bin/org.chromium.Chromium"@,
        "/var/lib/flatpak/exports/bin/io.github.ungoogled_software.ungoogled_chromium"@,
    ]
}

/// `name` joined to every non-empty directory of `dirs`, in order. An
/// empty `$PATH` entry would mean the working directory, which is never
/// searched.
pub open spec fn in_dirs(dirs: Seq<Seq<char>>, name: Seq<char>) -> Seq<Seq<char>>
    decreases dirs.len(),
{
    if dirs.len() == 0 {
        seq![]
    } else if dirs.last().len() == 0 {
        in_dirs(dirs.drop_last(), name)
    } else {
        in_dirs(dirs.drop_last(), name).push(join(dirs.last(), name))
    }
}

/// The `$PATH` candidates for every Chromium name, name by name.
pub open spec fn path_candidates(dirs: Seq<Seq<char>>, names: Seq<Seq<char>>) -> Seq<Seq<char>>
    decreases names.len(),
{
    if names.len() == 0 {
        seq![]
    } else {
        path_candidates(dirs, names.drop_last()) + in_dirs(dirs, names.last())
    }
}

pub open spec fn tagged(ps: Seq<Seq<char>>, src: ChromiumSource) -> Seq<(Seq<char>, ChromiumSource)> {
    ps.map_values(|p: Seq<char>| (p, src))
}

/// The Chromium binaries to try, in the order they are tried: the
/// configured path when it is not empty, the bundled binary, each name on
/// each non-empty `$PATH` directory, then the Flatpak exports.
pub open spec fn chromium_candidates_model(
    config_override: Option<Seq<char>>,
    bundled: Seq<char>,
    path_var: Seq<char>,
) -> Seq<(Seq<char>, ChromiumSource)> {
    let cfg = match config_override {
        Some(p) => if p.len() > 0 {
            seq![(p, ChromiumSource::Config)]
        } else {
            seq![]
        },
        None => seq![],
    };
    cfg + seq![(bundled, ChromiumSource::Bundled)] + tagged(
        path_candidates(split_on(path_var, ':'), chromium_names()),
        ChromiumSource::Path,
    ) + tagged(flatpak_paths(), ChromiumSource::Flatpak)
}

/// A candidate binary and where it comes from.
pub struct Candidate {
    pub path: String,
    pub source: ChromiumSource,
}

pub open spec fn candidates_view(cs: Seq<Candidate>) -> Seq<(Seq<char>, ChromiumSource)> {
    cs.map_values(|c: Candidate| (c.path@, c.source))
}

fn push_candidate(out: &mut Vec<Candidate>, path: String, source: ChromiumSource)
    ensures
        candidates_view(final(out)@) == candidates_view(old(out)@).push((path@, source)),
{
    out.push(Candidate { path, source });
    assert(candidates_view(final(out)@) =~= candidates_view(old(out)@).push((path@, source)));
}

fn static_strings(which: u8) -> (r: Vec<String>)
    requires
        which < 2,
    ensures
        which == 0 ==> r@.map_values(|s: String| s@) == chromium_names(),
        which == 1 ==> r@.map_values(|s: String| s@) == flatpak_paths(),
{
    let mut v: Vec<String> = Vec::new();
    if which == 0 {
        v.push(crate::text::string_of("chromium"));
        v.push(crate::text::string_of("chromium-browser"));
        v.push(crate::text::string_of("google-chrome"));
        v.push(crate::text::string_of("google-chrome-stable"));
        v.push(crate::text::string_of("chrome"));
        assert(v@.map_values(|s: String| s@) =~= chromium_names());
    } else {
        v.push(crate::text::string_of("/var/lib/flatpak/exports/bin/com.google.Chrome"));
        v.push(crate::text::string_of("/var/lib/flatpak/exports/bin/org.chromium.Chromium"));
        v.push(
            crate::text::string_of(
                "/var/lib/flatpak/exports/bin/io.github.ungoogled_software.ungoogled_chromium",
            ),
        );
        assert(v@.map_values(|s: String| s@) =~= flatpak_paths());
    }
    v
}

/// Appends `name` joined to each non-empty directory of `dirs`.
fn push_in_dirs(out: &mut Vec<Candidate>, dirs: &Vec<String>, name: &String, source: ChromiumSource)
    ensures
        candidates_view(final(out)@) == candidates_view(old(out)@) + tagged(
            in_dirs(strings_view(dirs@), name@),
            source,
        ),
{
    let ghost ds = strings_view(dirs@);
    let ghost start = candidates_view(out@);
    let mut k: usize = 0;
    assert(ds.subrange(0, 0) =~= Seq::<Seq<char>>::empty());
    assert(tagged(in_dirs(Seq::<Seq<char>>::empty(), name@), source) =~= Seq::<
        (Seq<char>, ChromiumSource),
    >::empty());
    assert(start + Seq::<(Seq<char>, ChromiumSource)>::empty() =~= start);
    while k < dirs.len()
        invariant
            k <= dirs@.len(),
            ds == strings_view(dirs@),
            candidates_view(out@) == start + tagged(in_dirs(ds.subrange(0, k as int), name@), source),
        decreases dirs.len() - k,
    {
        let ghost d = ds[k as int];
        assert(ds.subrange(0, k + 1).drop_last() =~= ds.subrange(0, k as int));
        assert(ds.subrange(0, k + 1).last() == d);
        assert(d == dirs@[k as int]@);
        if !str_is_empty(dirs[k].as_str()) {
            let p = join_path(dirs[k].as_str(), name.as_str());
            push_candidate(out, p, source);
            assert(tagged(in_dirs(ds.subrange(0, k + 1), name@), source) =~= tagged(
                in_dirs(ds.subrange(0, k as int), name@),
                source,
            ).push((join(d, name@), source)));
        } else {
            assert(in_dirs(ds.subrange(0, k + 1), name@) == in_dirs(ds.subrange(0, k as int), name@));
        }
        k = k + 1;
    }
    assert(ds.subrange(0, dirs@.len() as int) =~= ds);
}

/// The Chromium binaries to try, in order (see
/// [`chromium_candidates_model`]).
pub fn chromium_candidates(config_override: Option<&str>, bundled: &str, path_var: &str) -> (r: Vec<
    Candidate,
>)
    ensures
        candidates_view(r@) == chromium_candidates_model(
            match config_override {
                Some(p) => Some(p@),
                None => None,
            },
            bundled@,
            path_var@,
        ),
{
    let mut out: Vec<Candidate> = Vec::new();
    if let Some(p) = config_override {
        let pc = chars_of(p);
        if pc.len() > 0 {
            push_candidate(&mut out, crate::text::string_of(p), ChromiumSource::Config);
        }
    }
    push_candidate(&mut out, crate::text::string_of(bundled), ChromiumSource::Bundled);
    let ghost head = candidates_view(out@);
    let dirs_v = split_str(path_var, ':');
    let names = static_strings(0);
    let ghost dirs = split_on(path_var@, ':');
    let mut i: usize = 0;
    assert(chromium_names().subrange(0, 0) =~= Seq::<Seq<char>>::empty());
    assert(tagged(Seq::<Seq<char>>::empty(), ChromiumSource::Path) =~= Seq::<
        (Seq<char>, ChromiumSource),
    >::empty());
    assert(head + Seq::<(Seq<char>, ChromiumSource)>::empty() =~= head);
    while i < names.len()
        invariant
            i <= names@.len(),
            names@.map_values(|s: String| s@) == chromium_names(),
            dirs == split_on(path_var@, ':'),
            dirs == strings_view(dirs_v@),
            candidates_view(out@) == head + tagged(
                path_candidates(dirs, chromium_names().subrange(0, i as int)),
                ChromiumSource::Path,
            ),
        decreases names.len() - i,
    {
        let ghost before = candidates_view(out@);
        push_in_dirs(&mut out, &dirs_v, &names[i], ChromiumSource::Path);
        proof {
            let ns = chromium_names().subrange(0, i + 1);
            assert(ns.drop_last() =~= chromium_names().subrange(0, i as int));
            assert(ns.last() == names@[i as int]@);
            assert(tagged(path_candidates(dirs, ns), ChromiumSource::Path) =~= tagged(
                path_candidates(dirs, chromium_names().subrange(0, i as int)),
                ChromiumSource::Path,
            ) + tagged(in_dirs(dirs, names@[i as int]@), ChromiumSource::Path));
        }
        i = i + 1;
    }
    assert(chromium_names().subrange(0, 5) =~= chromium_names());
    let flat = static_strings(1);
    let ghost mid = candidates_view(out@);
    let mut j: usize = 0;
    while j < flat.len()
        invariant
            j <= flat@.len(),
            flat@.map_values(|s: String| s@) == flatpak_paths(),
            candidates_view(out@) == mid + tagged(
                flatpak_paths().subrange(0, j as int),
                ChromiumSource::Flatpak,
            ),
        decreases flat.len() - j,
    {
        push_candidate(&mut out, flat[j].clone(), ChromiumSource::Flatpak);
        assert(tagged(flatpak_paths().subrange(0, j + 1), ChromiumSource::Flatpak) =~= tagged(
            flatpak_paths().subrange(0, j as int),
            ChromiumSource::Flatpak,
        ).push((flat@[j as int]@, ChromiumSource::Flatpak)));
        j = j + 1;
    }
    assert(flatpak_paths().subrange(0, 3) =~= flatpak_paths());
    out
}

/// Every `$PATH` candidate is a name joined to a non-empty `$PATH` entry:
/// an empty entry, which would stand for the working directory, never
/// yields a candidate.
pub proof fn lemma_in_dirs_nonempty(dirs: Seq<Seq<char>>, name: Seq<char>, k: int)
    requires
        0 <= k < in_dirs(dirs, name).len(),
    ensures
        exists|d: Seq<char>| d.len() > 0 && dirs.contains(d) && in_dirs(dirs, name)[k] == join(d, name),
    decreases dirs.len(),
{
    let prev = in_dirs(dirs.drop_last(), name);
    if dirs.last().len() == 0 {
        lemma_in_dirs_nonempty(dirs.drop_last(), name, k);
        let d = choose|d: Seq<char>| d.len() > 0 && dirs.drop_last().contains(d) && prev[k] == join(d, name);
        let j = choose|j: int| 0 <= j < dirs.drop_last().len() && dirs.drop_last()[j] == d;
        assert(dirs[j] == d);
    } else if k < prev.len() {
        lemma_in_dirs_nonempty(dirs.drop_last(), name, k);
        let d = choose|d: Seq<char>| d.len() > 0 && dirs.drop_last().contains(d) && prev[k] == join(d, name);
        let j = choose|j: int| 0 <= j < dirs.drop_last().len() && dirs.drop_last()[j] == d;
        assert(dirs[j] == d);
    } else {
        assert(dirs[dirs.len() - 1] == dirs.last());
    }
}

/// The index of the first path of `ps` that `avail` lists, if any.
pub open spec fn is_first_available(ps: Seq<Seq<char>>, avail: Seq<Seq<char>>, r: Option<int>) -> bool {
    match r {
        Some(i) => 0 <= i < ps.len() && avail.contains(ps[i]) && forall|j: int|
            0 <= j < i ==> !avail.contains(#[trigger] ps[j]),
        None => forall|j: int| 0 <= j < ps.len() ==> !avail.contains(#[trigger] ps[j]),
    }
}

fn listed(avail: &Vec<String>, p: &String) -> (b: bool)
    ensures
        b == strings_view(avail@).contains(p@),
{
    let mut i: usize = 0;
    while i < avail.len()
        invariant
            i <= avail@.len(),
            forall|j: int| 0 <= j < i ==> avail@[j]@ != p@,
        decreases avail.len() - i,
    {
        if avail[i] == *p {
            assert(strings_view(avail@)[i as int] == p@);
            return true;
        }
        i = i + 1;
    }
    assert forall|j: int| 0 <= j < strings_view(avail@).len() implies strings_view(avail@)[j] != p@ by {
        assert(avail@[j]@ != p@);
    }
    false
}

/// The position of the first path of `ps` that `avail` lists.
pub fn first_available(ps: &Vec<String>, avail: &Vec<String>) -> (r: Option<usize>)
    ensures
        is_first_available(
            strings_view(ps@),
            strings_view(avail@),
            match r {
                Some(i) => Some(i as int),
                None => None,
            },
        ),
{
    let ghost pv = strings_view(ps@);
    let ghost av = strings_view(avail@);
    let mut i: usize = 0;
    while i < ps.len()
        invariant
            i <= ps@.len(),
            pv == strings_view(ps@),
            av == strings_view(avail@),
            forall|j: int| 0 <= j < i ==> !av.contains(#[trigger] pv[j]),
        decreases ps.len() - i,
    {
        if listed(avail, &ps[i]) {
            assert(pv[i as int] == ps@[i as int]@);
            return Some(i);
        }
        i = i + 1;
    }
    None
}

fn candidate_paths(cs: &Vec<Candidate>) -> (r: Vec<String>)
    ensures
        strings_view(r@) == candidates_view(cs@).map_values(|c: (Seq<char>, ChromiumSource)| c.0),
{
    let mut out: Vec<String> = Vec::new();
    let mut i: usize = 0;
    while i < cs.len()
        invariant
            i <= cs@.len(),
            strings_view(out@) == candidates_view(cs@).subrange(0, i as int).map_values(
                |c: (Seq<char>, ChromiumSource)| c.0,
            ),
        decreases cs.len() - i,
    {
        let ghost before = out@;
        out.push(cs[i].path.clone());
        assert(candidates_view(cs@)[i as int].0 == cs@[i as int].path@);
        assert(strings_view(out@) =~= strings_view(before).push(cs@[i as int].path@));
        assert(strings_view(out@) =~= candidates_view(cs@).subrange(0, i + 1).map_values(
            |c: (Seq<char>, ChromiumSource)| c.0,
        ));
        i = i + 1;
    }
    assert(candidates_view(cs@).subrange(0, cs@.len() as int) =~= candidates_view(cs@));
    out
}

/// The Chromium binary to use: the first candidate, in the order of
/// `candidates`, that `executables` lists; `None` lets agent-browser look
/// for one itself.
pub fn resolve_chromium_path(candidates: &Vec<Candidate>, executables: &Vec<String>) -> (r: Option<
    Candidate,
>)
    ensures
        match r {
            Some(c) => exists|i: int|
                is_first_available(
                    candidates_view(candidates@).map_values(|c: (Seq<char>, ChromiumSource)| c.0),
                    strings_view(executables@),
                    Some(i),
                ) && candidates_view(candidates@)[i] == (c.path@, c.source),
            None => is_first_available(
                candidates_view(candidates@).map_values(|c: (Seq<char>, ChromiumSource)| c.0),
                strings_view(executables@),
                None,
            ),
        },
{
    let ps = candidate_paths(candidates);
    match first_available(&ps, executables) {
        Some(i) => {
            let c = Candidate { path: candidates[i].path.clone(), source: candidates[i].source };
            assert(candidates_view(candidates@)[i as int] == (c.path@, c.source));
            Some(c)
        },
        None => None,
    }
}

/// Whether file metadata describes an executable: a regular file with at
/// least one execute bit.
pub fn mode_is_executable(is_file: bool, mode: u32) -> (b: bool)
    ensures
        b == (is_file && mode & 0o111 != 0),
{
    is_file && mode & 0o111 != 0
}

/// What `Path::starts_with` decides for `path` and `base`: whether the
/// components of `base` are the first components of `path`.
pub uninterp spec fn path_has_prefix(path: Seq<char>, base: Seq<char>) -> bool;

/// Asks `std::path::Path::starts_with`, which compares whole components.
/// The contract claims only that the answer depends on the two paths
/// alone, as `path_has_prefix` names it.
#[verifier::external_body]
fn path_starts_with(path: &str, base: &str) -> (b: bool)
    ensures
        b == path_has_prefix(path@, base@),
{
    std::path::Path::new(path).starts_with(std::path::Path::new(base))
}

/// The environment and filesystem facts that decide where a bundled
/// Chromium is installed: `$HOME`, `$XDG_DATA_HOME`, and what each
/// canonicalizes to (`None` where canonicalization failed).
pub struct BundledProbe {
    pub home: Option<String>,
    pub xdg_data_home: Option<String>,
    pub xdg_canonical: Option<String>,
    pub home_canonical: Option<String>,
}

pub open spec fn or_self(c: Option<String>, raw: Seq<char>) -> Seq<char> {
    match c {
        Some(s) => s@,
        None => raw,
    }
}

pub open spec fn chromium_under(dir: Seq<char>) -> Seq<char> {
    join(join(join(dir, "cmux"@), "chromium"@), "chrome"@)
}

/// The two paths compared when `$HOME` and a non-empty `$XDG_DATA_HOME`
/// are both set: the data directory and the home directory, each
/// canonicalized where possible.
pub open spec fn xdg_comparison(p: BundledProbe) -> Option<(Seq<char>, Seq<char>)> {
    match (p.home, p.xdg_data_home) {
        (Some(h), Some(x)) => if x@.len() > 0 {
            Some((or_self(p.xdg_canonical, x@), or_self(p.home_canonical, h@)))
        } else {
            None
        },
        _ => None,
    }
}

/// The bundled Chromium location, given whether the data directory lies
/// inside the home directory: under the (canonical) data directory when
/// there is one to compare and it does; otherwise under
/// `$HOME/.local/share`; with no `$HOME`, under `/tmp`.
pub open spec fn bundled_from(p: BundledProbe, xdg_inside_home: bool) -> Seq<char> {
    let fallback = match p.home {
        Some(h) => chromium_under(join(h@, ".local/share"@)),
        None => "/tmp/cmux/chromium/chrome"@,
    };
    match xdg_comparison(p) {
        Some((x, _)) => if xdg_inside_home {
            chromium_under(x)
        } else {
            fallback
        },
        None => fallback,
    }
}

/// The bundled Chromium location: under a non-empty `$XDG_DATA_HOME` only
/// when it (canonicalized where possible) lies inside `$HOME`, as
/// `Path::starts_with` decides; otherwise under `$HOME/.local/share`; with
/// no `$HOME`, under `/tmp`.
pub open spec fn bundled_model(p: BundledProbe) -> Seq<char> {
    match xdg_comparison(p) {
        Some((x, h)) => bundled_from(p, path_has_prefix(x, h)),
        None => bundled_from(p, false),
    }
}

fn chromium_under_exec(dir: &str) -> (r: String)
    ensures
        r@ == chromium_under(dir@),
{
    let a = join_path(dir, "cmux");
    let b = join_path(a.as_str(), "chromium");
    join_path(b.as_str(), "chrome")
}

/// The data and home directories to compare, when both are set and the
/// data directory is not empty (see [`xdg_comparison`]).
pub fn xdg_comparison_paths(p: &BundledProbe) -> (r: Option<(String, String)>)
    ensures
        match r {
            Some((x, h)) => xdg_comparison(*p) == Some((x@, h@)),
            None => xdg_comparison(*p) is None,
        },
{
    if let (Some(h), Some(x)) = (&p.home, &p.xdg_data_home) {
        if !str_is_empty(x.as_str()) {
            let canon = match &p.xdg_canonical {
                Some(c) => c.clone(),
                None => x.clone(),
            };
            let home_canon = match &p.home_canonical {
                Some(c) => c.clone(),
                None => h.clone(),
            };
            return Some((canon, home_canon));
        }
    }
    None
}

/// Where a bundled Chromium is installed, given whether the data directory
/// lies inside the home directory (see [`bundled_from`]).
pub fn bundled_location(p: &BundledProbe, xdg_inside_home: bool) -> (r: String)
    ensures
        r@ == bundled_from(*p, xdg_inside_home),
{
    if xdg_inside_home {
        if let Some((x, _h)) = xdg_comparison_paths(p) {
            return chromium_under_exec(x.as_str());
        }
    }
    match &p.home {
        Some(h) => {
            let share = join_path(h.as_str(), ".local/share");
            chromium_under_exec(share.as_str())
        },
        None => crate::text::string_of("/tmp/cmux/chromium/chrome"),
    }
}

/// Where a bundled Chromium is installed (see [`bundled_model`]).
pub fn bundled_chromium_path(p: &BundledProbe) -> (r: String)
    ensures
        r@ == bundled_model(*p),
{
    let inside = match xdg_comparison_paths(p) {
        Some((x, h)) => path_starts_with(x.as_str(), h.as_str()),
        None => false,
    };
    bundled_location(p, inside)
}

/// `name` joined to every entry of a `$PATH` value, empty entries
/// included (an empty entry joins to `name` itself).
pub open spec fn search_model(dirs: Seq<Seq<char>>, name: Seq<char>) -> Seq<Seq<char>> {
    dirs.map_values(|d: Seq<char>| join(d, name))
}

/// The places where a program `name` is looked for on `$PATH`, in order.
pub fn path_search_candidates(path_var: &str, name: &str) -> (r: Vec<String>)
    ensures
        strings_view(r@) == search_model(split_on(path_var@, ':'), name@),
{
    let dirs = split_str(path_var, ':');
    let mut out: Vec<String> = Vec::new();
    let mut i: usize = 0;
    while i < dirs.len()
        invariant
            i <= dirs@.len(),
            strings_view(out@) == search_model(strings_view(dirs@).subrange(0, i as int), name@),
        decreases dirs.len() - i,
    {
        let ghost before = out@;
        out.push(join_path(dirs[i].as_str(), name));
        assert(strings_view(dirs@)[i as int] == dirs@[i as int]@);
        assert(strings_view(out@) =~= strings_view(before).push(join(dirs@[i as int]@, name@)));
        assert(strings_view(out@) =~= search_model(strings_view(dirs@).subrange(0, i + 1), name@));
        i = i + 1;
    }
    assert(strings_view(dirs@).subrange(0, dirs@.len() as int) =~= strings_view(dirs@));
    out
}

/// Where agent-browser is looked for, in order: each `$PATH` entry (when
/// `$PATH` is set), the directory of the running executable (when known),
/// then `/usr/lib/cmux`.
pub open spec fn agent_browser_model(path_var: Option<Seq<char>>, exe_dir: Option<Seq<char>>) -> Seq<
    Seq<char>,
> {
    let on_path = match path_var {
        Some(pv) => search_model(split_on(pv, ':'), "agent-browser"@),
        None => seq![],
    };
    let beside = match exe_dir {
        Some(d) => seq![join(d, "agent-browser"@)],
        None => seq![],
    };
    on_path + beside + seq!["/usr/lib/cmux/agent-browser"@]
}

pub fn agent_browser_candidates(path_var: Option<&str>, exe_dir: Option<&str>) -> (r: Vec<String>)
    ensures
        strings_view(r@) == agent_browser_model(
            match path_var {
                Some(p) => Some(p@),
                None => None,
            },
            match exe_dir {
                Some(d) => Some(d@),
                None => None,
            },
        ),
{
    let mut out: Vec<String> = match path_var {
        Some(pv) => path_search_candidates(pv, "agent-browser"),
        None => Vec::new(),
    };
    let ghost a = strings_view(out@);
    if let Some(d) = exe_dir {
        out.push(join_path(d, "agent-browser"));
    }
    let ghost b = strings_view(out@);
    out.push(crate::text::string_of("/usr/lib/cmux/agent-browser"));
    assert(strings_view(out@) =~= b.push("/usr/lib/cmux/agent-browser"@));
    proof {
        if exe_dir is Some {
            assert(b =~= a.push(join(exe_dir->0@, "agent-browser"@)));
        } else {
            assert(b =~= a);
        }
        if path_var is None {
            assert(a =~= Seq::<Seq<char>>::empty());
        }
    }
    assert(strings_view(out@) =~= agent_browser_model(
        match path_var {
            Some(p) => Some(p@),
            None => None,
        },
        match exe_dir {
            Some(d) => Some(d@),
            None => None,
        },
    ));
    out
}

} // verus!
