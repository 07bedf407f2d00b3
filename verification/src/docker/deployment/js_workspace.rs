//! JavaScript workspaces: a package inside a workspace is built from the
//! workspace root with commands scoped to the package. This module holds the
//! package managers' commands, the reading of `pnpm-workspace.yaml`, and the
//! workspace glob matching that decides membership.
use crate::text::{views, 
    after, chars_eq, chars_of, ends_with, find_sub, find_sub_exec, lemma_find_sub_bounds, lines,
    lines_vec, lit, slice_to_vec, split_on, split_vec, starts_with, starts_with_at, string_of,
    strip_prefix, trim, trim_end_char, trim_end_char_vec, trim_quotes, trim_quotes_vec,
    trim_start_text, trim_start_text_vec, trim_vec,
};
use vstd::prelude::*;
use vstd::string::StringExecFns;

verus! {

/// The package manager a workspace uses, known by its lockfile.
#[derive(Clone, Copy, Debug, PartialEq, Eq, Structural)]
pub enum PackageManager {
    Pnpm,
    Npm,
    Yarn,
    Bun,
}

pub open spec fn manager_label(m: PackageManager) -> Seq<char> {
    match m {
        PackageManager::Pnpm => "pnpm"@,
        PackageManager::Npm => "npm"@,
        PackageManager::Yarn => "yarn"@,
        PackageManager::Bun => "bun"@,
    }
}

/// The command that builds the package `selector` (and, for pnpm, the
/// packages it depends on) from the workspace root.
pub open spec fn build_command_spec(m: PackageManager, selector: Seq<char>, has_build_script: bool) -> Seq<char> {
    match m {
        PackageManager::Pnpm => "pnpm --filter \""@ + selector + "...\" run build"@,
        PackageManager::Npm => "npm run build --workspace \""@ + selector + "\" --if-present"@,
        PackageManager::Bun => "bun run --if-present --filter \""@ + selector + "\" build"@,
        PackageManager::Yarn => if has_build_script {
            "yarn workspace \""@ + selector + "\" run build"@
        } else {
            "echo \"no build script for "@ + selector + "\""@
        },
    }
}

/// The command that starts the package `selector` from the workspace root.
pub open spec fn start_command_spec(m: PackageManager, selector: Seq<char>) -> Seq<char> {
    match m {
        PackageManager::Pnpm => "pnpm --filter \""@ + selector + "\" start"@,
        PackageManager::Npm => "npm start --workspace \""@ + selector + "\""@,
        PackageManager::Bun => "bun run --filter \""@ + selector + "\" start"@,
        PackageManager::Yarn => "yarn workspace \""@ + selector + "\" start"@,
    }
}

impl PackageManager {
    /// The manager's command name.
    pub fn label(&self) -> (s: String)
        ensures
            s@ == manager_label(*self),
    {
        match self {
            PackageManager::Pnpm => lit("pnpm"),
            PackageManager::Npm => lit("npm"),
            PackageManager::Yarn => lit("yarn"),
            PackageManager::Bun => lit("bun"),
        }
    }

    /// The command that builds the package `selector`; yarn, which has no
    /// "if present", only echoes a note when the package has no build script.
    pub fn build_command(&self, selector: &str, has_build_script: bool) -> (s: String)
        ensures
            s@ == build_command_spec(*self, selector@, has_build_script),
    {
        let (head, tail) = match self {
            PackageManager::Pnpm => ("pnpm --filter \"", "...\" run build"),
            PackageManager::Npm => ("npm run build --workspace \"", "\" --if-present"),
            PackageManager::Bun => ("bun run --if-present --filter \"", "\" build"),
            PackageManager::Yarn => if has_build_script {
                ("yarn workspace \"", "\" run build")
            } else {
                ("echo \"no build script for ", "\"")
            },
        };
        let mut s = lit(head);
        s.append(selector);
        s.append(tail);
        s
    }

    /// The command that starts the package `selector`.
    pub fn start_command(&self, selector: &str) -> (s: String)
        ensures
            s@ == start_command_spec(*self, selector@),
    {
        let (head, tail) = match self {
            PackageManager::Pnpm => ("pnpm --filter \"", "\" start"),
            PackageManager::Npm => ("npm start --workspace \"", "\""),
            PackageManager::Bun => ("bun run --filter \"", "\" start"),
            PackageManager::Yarn => ("yarn workspace \"", "\" start"),
        };
        let mut s = lit(head);
        s.append(selector);
        s.append(tail);
        s
    }
}

/// A package built from its workspace root.
#[derive(Clone, Debug, PartialEq, Eq)]
pub struct JsWorkspace {
    /// The workspace root.
    pub root: String,
    pub package_manager: PackageManager,
    pub build_command: String,
    pub start_command: String,
}

/// The lockfiles that identify a package manager, in the order they are
/// looked for.
pub open spec fn lockfiles() -> Seq<(Seq<char>, PackageManager)> {
    seq![
        ("pnpm-lock.yaml"@, PackageManager::Pnpm),
        ("bun.lock"@, PackageManager::Bun),
        ("bun.lockb"@, PackageManager::Bun),
        ("yarn.lock"@, PackageManager::Yarn),
        ("package-lock.json"@, PackageManager::Npm),
        ("npm-shrinkwrap.json"@, PackageManager::Npm),
    ]
}

/// The manager of the first lockfile, from `k` on, among the files present.
pub open spec fn first_lockfile(present: Seq<Seq<char>>, k: int) -> Option<PackageManager>
    decreases lockfiles().len() - k,
{
    if k < 0 || k >= lockfiles().len() {
        None
    } else if present.contains(lockfiles()[k].0) {
        Some(lockfiles()[k].1)
    } else {
        first_lockfile(present, k + 1)
    }
}

fn name_present(present: &Vec<String>, name: &str) -> (b: bool)
    ensures
        b == present@.map_values(|x: String| x@).contains(name@),
{
    let ghost pv = present@.map_values(|x: String| x@);
    let n = chars_of(name);
    let mut i: usize = 0;
    while i < present.len()
        invariant
            i <= present@.len(),
            n@ == name@,
            pv == present@.map_values(|x: String| x@),
            forall|q: int| 0 <= q < i ==> pv[q] != name@,
        decreases present@.len() - i,
    {
        let c = chars_of(present[i].as_str());
        if chars_eq(c.as_slice(), n.as_slice()) {
            assert(pv[i as int] == name@);
            return true;
        }
        i = i + 1;
    }
    false
}

/// The package manager of a directory, by the first lockfile found among
/// the names of the files in it: `pnpm-lock.yaml`, `bun.lock`, `bun.lockb`,
/// `yarn.lock`, `package-lock.json`, `npm-shrinkwrap.json`.
pub fn lockfile_manager(present: &Vec<String>) -> (r: Option<PackageManager>)
    ensures
        r == first_lockfile(present@.map_values(|x: String| x@), 0),
{
    let ghost pv = present@.map_values(|x: String| x@);
    proof {
        reveal_strlit("pnpm-lock.yaml");
        reveal_strlit("bun.lock");
        reveal_strlit("bun.lockb");
        reveal_strlit("yarn.lock");
        reveal_strlit("package-lock.json");
        reveal_strlit("npm-shrinkwrap.json");
        reveal_with_fuel(first_lockfile, 7);
    }
    if name_present(present, "pnpm-lock.yaml") {
        return Some(PackageManager::Pnpm);
    }
    if name_present(present, "bun.lock") {
        return Some(PackageManager::Bun);
    }
    if name_present(present, "bun.lockb") {
        return Some(PackageManager::Bun);
    }
    if name_present(present, "yarn.lock") {
        return Some(PackageManager::Yarn);
    }
    if name_present(present, "package-lock.json") {
        return Some(PackageManager::Npm);
    }
    if name_present(present, "npm-shrinkwrap.json") {
        return Some(PackageManager::Npm);
    }
    None
}

/// Whether a line is indented by a space or a tab.
pub open spec fn indented(line: Seq<char>) -> bool {
    line.len() > 0 && (line[0] == ' ' || line[0] == '\t')
}

/// Reading `pnpm-workspace.yaml` line by line: the state is whether the
/// lines are inside the top-level `packages:` key, and the globs so far.
pub open spec fn pnpm_step(state: (bool, Seq<Seq<char>>), line: Seq<char>) -> (bool, Seq<Seq<char>>) {
    let t = trim(line);
    if t.len() == 0 || t[0] == '#' {
        state
    } else if !indented(line) {
        (starts_with(t, "packages:"@), state.1)
    } else if !state.0 {
        state
    } else {
        match strip_prefix(t, "- "@) {
            Some(entry) => (state.0, state.1.push(trim_quotes(trim(entry)))),
            None => state,
        }
    }
}

pub open spec fn pnpm_fold(ls: Seq<Seq<char>>) -> (bool, Seq<Seq<char>>)
    decreases ls.len(),
{
    if ls.len() == 0 {
        (false, Seq::empty())
    } else {
        pnpm_step(pnpm_fold(ls.drop_last()), ls.last())
    }
}

/// The workspace globs listed under `packages:` in `pnpm-workspace.yaml`,
/// in order, unquoted.
pub fn pnpm_workspace_globs(contents: &str) -> (r: Vec<String>)
    ensures
        r@.map_values(|x: String| x@) == pnpm_fold(lines(contents@)).1,
{
    let v = chars_of(contents);
    let ls = lines_vec(v.as_slice());
    let ghost lsv = lines(contents@);
    let packages = chars_of("packages:");
    let dash = chars_of("- ");
    proof {
        reveal_strlit("packages:");
        reveal_strlit("- ");
    }
    let mut in_packages = false;
    let mut globs: Vec<String> = Vec::new();
    let mut i: usize = 0;
    while i < ls.len()
        invariant
            i <= ls@.len(),
            ls@.map_values(|x: Vec<char>| x@) == lsv,
            packages@ == "packages:"@,
            dash@ == "- "@,
            (in_packages, globs@.map_values(|x: String| x@)) == pnpm_fold(lsv.take(i as int)),
        decreases ls@.len() - i,
    {
        proof {
            assert(lsv.take(i + 1).drop_last() == lsv.take(i as int));
            assert(lsv.take(i + 1).last() == ls@[i as int]@);
        }
        proof {
            reveal_strlit("packages:");
            reveal_strlit("- ");
        }
        let line = &ls[i];
        let is_indented = line.len() > 0 && (line[0] == ' ' || line[0] == '\t');
        let t = trim_vec(line.as_slice());
        proof {
            assert(t@.subrange(0, t@.len() as int) == t@);
        }
        if t.len() == 0 || t[0] == '#' {
        } else if !is_indented {
            in_packages = starts_with_at(t.as_slice(), 0, packages.as_slice());
        } else if in_packages {
            if starts_with_at(t.as_slice(), 0, dash.as_slice()) {
                assert(strip_prefix(t@, "- "@) == Some(t@.subrange(2, t@.len() as int)));
                let entry = slice_to_vec(t.as_slice(), 2, t.len());
                let et = trim_vec(entry.as_slice());
                let g = trim_quotes_vec(et.as_slice());
                let ghost before = globs@.map_values(|x: String| x@);
                globs.push(string_of(g.as_slice()));
                proof {
                    assert(globs@.map_values(|x: String| x@) == before.push(g@));
                }
            }
        }
        i = i + 1;
    }
    proof {
        assert(lsv.take(ls@.len() as int) == lsv);
    }
    globs
}

/// The middle parts of a segment pattern, from part `k`, each found in turn
/// (leftmost) in `name[cursor..end]`.
pub open spec fn middle_ok(parts: Seq<Seq<char>>, k: int, name: Seq<char>, cursor: int, end: int) -> bool
    decreases parts.len() - k,
{
    if k < 1 || k >= parts.len() - 1 {
        true
    } else {
        let at = find_sub(name.subrange(cursor, end), parts[k], 0);
        if at < 0 {
            false
        } else {
            middle_ok(parts, k + 1, name, cursor + at + parts[k].len(), end)
        }
    }
}

/// Whether a path segment matches a pattern segment, where `*` stands for
/// any run of characters.
pub open spec fn segment_matches(segment: Seq<char>, name: Seq<char>) -> bool {
    let parts = split_on(segment, '*');
    if parts.len() == 1 {
        segment == name
    } else {
        let first = parts[0];
        let last = parts.last();
        &&& starts_with(name, first)
        &&& ends_with(name, last)
        &&& name.len() >= first.len() + last.len()
        &&& middle_ok(parts, 1, name, first.len() as int, name.len() - last.len())
    }
}

/// Whether a path, as segments, matches a pattern, as segments: `**` stands
/// for any number of segments, other pattern segments match one segment.
pub open spec fn path_matches(pattern: Seq<Seq<char>>, path: Seq<Seq<char>>) -> bool
    decreases pattern.len(), path.len(),
{
    if pattern.len() == 0 {
        path.len() == 0
    } else if pattern[0] == "**"@ {
        skip_matches(pattern.drop_first(), path, 0)
    } else if path.len() == 0 {
        false
    } else {
        segment_matches(pattern[0], path[0]) && path_matches(pattern.drop_first(), path.drop_first())
    }
}

/// Whether the pattern `rest` matches the path without its first `k` or
/// more segments.
pub open spec fn skip_matches(rest: Seq<Seq<char>>, path: Seq<Seq<char>>, k: int) -> bool
    decreases rest.len(), path.len() + 1 - k,
{
    if k < 0 || k > path.len() {
        false
    } else {
        path_matches(rest, path.subrange(k, path.len() as int)) || skip_matches(rest, path, k + 1)
    }
}

/// A workspace glob without surrounding space, leading `./` and trailing `/`.
pub open spec fn normalized_glob(glob: Seq<char>) -> Seq<char> {
    trim_end_char(trim_start_text(trim(glob), "./"@), '/')
}

/// Whether a package directory, relative to the workspace root, matches a
/// workspace glob such as `apps/*` or `packages/**`.
pub open spec fn glob_matches_spec(glob: Seq<char>, relative_dir: Seq<char>) -> bool {
    path_matches(split_on(normalized_glob(glob), '/'), split_on(relative_dir, '/'))
}

fn middle_ok_exec(parts: &Vec<Vec<char>>, name: &[char], cursor0: usize, end: usize) -> (b: bool)
    requires
        parts@.len() >= 2,
        cursor0 <= end <= name@.len(),
    ensures
        b == middle_ok(parts@.map_values(|x: Vec<char>| x@), 1, name@, cursor0 as int, end as int),
{
    let ghost pv = parts@.map_values(|x: Vec<char>| x@);
    let mut k: usize = 1;
    let mut cursor = cursor0;
    while k < parts.len() - 1
        invariant
            1 <= k <= parts@.len() - 1,
            parts@.len() >= 2,
            pv == parts@.map_values(|x: Vec<char>| x@),
            cursor <= end <= name@.len(),
            middle_ok(pv, 1, name@, cursor0 as int, end as int) == middle_ok(pv, k as int, name@, cursor as int, end as int),
        decreases parts@.len() - k,
    {
        assert(pv[k as int] == parts@[k as int]@);
        match find_sub_exec(name, cursor, end, parts[k].as_slice()) {
            None => {
                return false;
            },
            Some(at) => {
                proof {
                    lemma_find_sub_bounds(name@.subrange(cursor as int, end as int), parts@[k as int]@, 0);
                }
                cursor = cursor + at + parts[k].len();
            },
        }
        k = k + 1;
    }
    true
}

fn segment_matches_exec(segment: &[char], name: &[char]) -> (b: bool)
    ensures
        b == segment_matches(segment@, name@),
{
    let parts = split_vec(segment, '*');
    let ghost pv = parts@.map_values(|x: Vec<char>| x@);
    if parts.len() == 1 {
        return chars_eq(segment, name);
    }
    let first = &parts[0];
    let last = &parts[parts.len() - 1];
    assert(pv[0] == first@);
    assert(pv.last() == last@);
    proof {
        assert(name@.subrange(0, name@.len() as int) == name@);
    }
    if !starts_with_at(name, 0, first.as_slice()) {
        return false;
    }
    if last.len() > name.len() {
        return false;
    }
    let end = name.len() - last.len();
    if !starts_with_at(name, end, last.as_slice()) {
        proof {
            if ends_with(name@, last@) {
                assert(name@.subrange(end as int, name@.len() as int).subrange(0, last@.len() as int)
                    == name@.subrange(end as int, name@.len() as int));
            }
        }
        return false;
    }
    proof {
        assert(name@.subrange(end as int, name@.len() as int).subrange(0, last@.len() as int)
            == name@.subrange(end as int, name@.len() as int));
    }
    if end < first.len() {
        return false;
    }
    middle_ok_exec(&parts, name, first.len(), end)
}

fn path_matches_exec(pattern: &Vec<Vec<char>>, pi: usize, path: &Vec<Vec<char>>, qi: usize) -> (b: bool)
    requires
        pi <= pattern@.len(),
        qi <= path@.len(),
    ensures
        b == path_matches(
            pattern@.map_values(|x: Vec<char>| x@).subrange(pi as int, pattern@.len() as int),
            path@.map_values(|x: Vec<char>| x@).subrange(qi as int, path@.len() as int),
        ),
    decreases pattern@.len() - pi,
{
    let ghost pv = pattern@.map_values(|x: Vec<char>| x@);
    let ghost qv = path@.map_values(|x: Vec<char>| x@);
    let ghost pat = pv.subrange(pi as int, pv.len() as int);
    let ghost pth = qv.subrange(qi as int, qv.len() as int);
    if pi == pattern.len() {
        return qi == path.len();
    }
    let star2 = chars_of("**");
    proof {
        reveal_strlit("**");
        assert(pat[0] == pattern@[pi as int]@);
        assert(pat.drop_first() == pv.subrange(pi + 1, pv.len() as int));
    }
    if chars_eq(pattern[pi].as_slice(), star2.as_slice()) {
        let n = path.len();
        let plen = pattern.len();
        let mut s = qi;
        while s < n
            invariant
                qi <= s <= n,
                n == path@.len(),
                plen == pattern@.len(),
                pi < plen,
                pv == pattern@.map_values(|x: Vec<char>| x@),
                qv == path@.map_values(|x: Vec<char>| x@),
                pat == pv.subrange(pi as int, pv.len() as int),
                pth == qv.subrange(qi as int, qv.len() as int),
                pat.drop_first() == pv.subrange(pi + 1, pv.len() as int),
                pat[0] == "**"@,
                skip_matches(pat.drop_first(), pth, 0) == skip_matches(pat.drop_first(), pth, s - qi),
            decreases n - s,
        {
            let m = path_matches_exec(pattern, pi + 1, path, s);
            proof {
                assert(pth.subrange(s - qi, pth.len() as int) == qv.subrange(s as int, qv.len() as int));
            }
            if m {
                return true;
            }
            s = s + 1;
        }
        let m = path_matches_exec(pattern, pi + 1, path, n);
        proof {
            assert(pth.subrange(n - qi, pth.len() as int) == qv.subrange(n as int, qv.len() as int));
            assert(!skip_matches(pat.drop_first(), pth, n - qi + 1));
        }
        return m;
    }
    if qi == path.len() {
        return false;
    }
    proof {
        assert(pth[0] == path@[qi as int]@);
        assert(pth.drop_first() == qv.subrange(qi + 1, qv.len() as int));
    }
    if !segment_matches_exec(pattern[pi].as_slice(), path[qi].as_slice()) {
        return false;
    }
    path_matches_exec(pattern, pi + 1, path, qi + 1)
}

/// Whether the package directory `relative_dir` (relative to the workspace
/// root, `/`-separated) matches the workspace glob `glob`.
pub fn glob_matches(glob: &str, relative_dir: &str) -> (b: bool)
    ensures
        b == glob_matches_spec(glob@, relative_dir@),
{
    let g = chars_of(glob);
    let t = trim_vec(g.as_slice());
    let dot_slash = chars_of("./");
    let s = trim_start_text_vec(t.as_slice(), dot_slash.as_slice());
    let n = trim_end_char_vec(s.as_slice(), '/');
    let pattern = split_vec(n.as_slice(), '/');
    let d = chars_of(relative_dir);
    let path = split_vec(d.as_slice(), '/');
    proof {
        reveal_strlit("./");
        let pv = pattern@.map_values(|x: Vec<char>| x@);
        let qv = path@.map_values(|x: Vec<char>| x@);
        assert(pv.subrange(0, pv.len() as int) == pv);
        assert(qv.subrange(0, qv.len() as int) == qv);
    }
    path_matches_exec(&pattern, 0, &path, 0)
}

/// Whether a directory belongs to a workspace: it matches some glob and no
/// glob negated with a leading `!`.
pub open spec fn is_member_spec(globs: Seq<Seq<char>>, relative_dir: Seq<char>) -> bool {
    &&& exists|i: int| 0 <= i < globs.len() && !starts_with(globs[i], "!"@) && #[trigger] glob_matches_spec(globs[i], relative_dir)
    &&& !exists|i: int| 0 <= i < globs.len() && starts_with(globs[i], "!"@) && #[trigger] glob_matches_spec(after(globs[i], 1), relative_dir)
}

/// Whether the package directory `relative_dir` is a member of a workspace
/// with the given globs.
pub fn is_workspace_member(globs: &Vec<String>, relative_dir: &str) -> (b: bool)
    ensures
        b == is_member_spec(globs@.map_values(|x: String| x@), relative_dir@),
{
    let ghost gv = globs@.map_values(|x: String| x@);
    let mut included = false;
    let mut excluded = false;
    let mut i: usize = 0;
    proof {
        reveal_strlit("!");
        assert("!"@ == seq!['!']);
    }
    while i < globs.len()
        invariant
            i <= globs@.len(),
            gv == globs@.map_values(|x: String| x@),
            "!"@ == seq!['!'],
            included == exists|k: int| 0 <= k < i && !starts_with(gv[k], "!"@) && #[trigger] glob_matches_spec(gv[k], relative_dir@),
            excluded == exists|k: int| 0 <= k < i && starts_with(gv[k], "!"@) && #[trigger] glob_matches_spec(after(gv[k], 1), relative_dir@),
        decreases globs@.len() - i,
    {
        let g = chars_of(globs[i].as_str());
        assert(gv[i as int] == g@);
        let negated = g.len() > 0 && g[0] == '!';
        proof {
            if g@.len() > 0 {
                assert(starts_with(g@, "!"@) == (g@[0] == '!')) by {
                    if starts_with(g@, "!"@) {
                        assert(g@.subrange(0, 1)[0] == g@[0]);
                    }
                    if g@[0] == '!' {
                        assert(g@.subrange(0, 1) =~= seq!['!']);
                    }
                }
            }
        }
        if negated {
            let rest = slice_to_vec(g.as_slice(), 1, g.len());
            let rs = string_of(rest.as_slice());
            assert(after(gv[i as int], 1) == rs@);
            let m = glob_matches(rs.as_str(), relative_dir);
            assert(m == glob_matches_spec(after(gv[i as int], 1), relative_dir@));
            if m {
                excluded = true;
            }
        } else {
            let m = glob_matches(globs[i].as_str(), relative_dir);
            assert(m == glob_matches_spec(gv[i as int], relative_dir@));
            if m {
                included = true;
            }
        }
        i = i + 1;
    }
    included && !excluded
}

/// The selector that names a package to its manager: its `name` when that is
/// not blank, else `./` and its directory relative to the workspace root.
pub fn package_selector(name: Option<String>, relative: &str) -> (s: String)
    ensures
        s@ == (match name {
            Some(n) => if trim(n@).len() > 0 {
                n@
            } else {
                "./"@ + relative@
            },
            None => "./"@ + relative@,
        }),
{
    match name {
        Some(n) => {
            let c = chars_of(n.as_str());
            let t = trim_vec(c.as_slice());
            if t.len() > 0 {
                return n;
            }
        },
        None => {},
    }
    let mut s = lit("./");
    s.append(relative);
    s
}

/// A JSON value, as read from a `package.json`.
#[derive(Debug)]
pub enum JsonValue {
    Null,
    Bool(bool),
    /// A number, in its text form.
    Number(String),
    String(String),
    Array(Vec<JsonValue>),
    Object(Vec<(String, JsonValue)>),
}

/// The value of `key` in an object's entries: the first entry with it.
pub open spec fn object_get(entries: Seq<(String, JsonValue)>, key: Seq<char>) -> Option<JsonValue>
    decreases entries.len(),
{
    if entries.len() == 0 {
        None
    } else if entries[0].0@ == key {
        Some(entries[0].1)
    } else {
        object_get(entries.drop_first(), key)
    }
}

/// The strings among array entries, in order.
pub open spec fn strings_among(entries: Seq<JsonValue>) -> Seq<Seq<char>>
    decreases entries.len(),
{
    if entries.len() == 0 {
        Seq::empty()
    } else {
        let prev = strings_among(entries.drop_last());
        match entries.last() {
            JsonValue::String(x) => prev.push(x@),
            _ => prev,
        }
    }
}

/// The workspace globs of a `package.json` `workspaces` field: the strings
/// of the array, or of the `packages` array of an object; none otherwise.
pub open spec fn package_json_globs(workspaces: JsonValue) -> Seq<Seq<char>> {
    match workspaces {
        JsonValue::Array(entries) => strings_among(entries@),
        JsonValue::Object(map) => match object_get(map@, "packages"@) {
            Some(JsonValue::Array(entries)) => strings_among(entries@),
            _ => Seq::empty(),
        },
        _ => Seq::empty(),
    }
}

fn object_get_exec<'a>(entries: &'a Vec<(String, JsonValue)>, key: &str) -> (r: Option<&'a JsonValue>)
    ensures
        match r {
            Some(v) => object_get(entries@, key@) == Some(*v),
            None => object_get(entries@, key@) is None,
        },
{
    let k = chars_of(key);
    let mut i: usize = 0;
    assert(entries@.skip(0) =~= entries@);
    while i < entries.len()
        invariant
            i <= entries@.len(),
            k@ == key@,
            object_get(entries@, key@) == object_get(entries@.skip(i as int), key@),
        decreases entries@.len() - i,
    {
        proof {
            assert(entries@.skip(i as int).drop_first() =~= entries@.skip(i + 1));
            assert(entries@.skip(i as int)[0] == entries@[i as int]);
        }
        if chars_eq(chars_of(entries[i].0.as_str()).as_slice(), k.as_slice()) {
            return Some(&entries[i].1);
        }
        i = i + 1;
    }
    None
}

fn strings_among_exec(entries: &Vec<JsonValue>) -> (r: Vec<String>)
    ensures
        views(r@) == strings_among(entries@),
{
    let mut r: Vec<String> = Vec::new();
    let mut i: usize = 0;
    while i < entries.len()
        invariant
            i <= entries@.len(),
            views(r@) == strings_among(entries@.take(i as int)),
        decreases entries@.len() - i,
    {
        proof {
            assert(entries@.take(i + 1).drop_last() =~= entries@.take(i as int));
            assert(entries@.take(i + 1).last() == entries@[i as int]);
        }
        match &entries[i] {
            JsonValue::String(x) => {
                let ghost before = r@;
                r.push(x.clone());
                assert(views(r@) =~= views(before).push(x@));
            },
            _ => {},
        }
        i = i + 1;
    }
    assert(entries@.take(entries@.len() as int) =~= entries@);
    r
}

/// The workspace globs of a `package.json` `workspaces` field (see
/// `package_json_globs`).
pub fn package_json_workspace_globs(workspaces: &JsonValue) -> (r: Vec<String>)
    ensures
        views(r@) == package_json_globs(*workspaces),
{
    match workspaces {
        JsonValue::Array(entries) => strings_among_exec(entries),
        JsonValue::Object(map) => match object_get_exec(map, "packages") {
            Some(JsonValue::Array(entries)) => strings_among_exec(entries),
            _ => {
                let r: Vec<String> = Vec::new();
                assert(views(r@) =~= Seq::<Seq<char>>::empty());
                r
            },
        },
        _ => {
            let r: Vec<String> = Vec::new();
            assert(views(r@) =~= Seq::<Seq<char>>::empty());
            r
        },
    }
}

/// The nearest directory with a lockfile, looking from the deepest one up:
/// `dirs` are the directories from the build context root down to the
/// application's parent, each with the names of its files.
pub open spec fn nearest_lockfile_dir(dirs: Seq<(String, Vec<String>)>) -> Option<(Seq<char>, PackageManager)>
    decreases dirs.len(),
{
    if dirs.len() == 0 {
        None
    } else {
        match first_lockfile(dirs.last().1@.map_values(|x: String| x@), 0) {
            Some(m) => Some((dirs.last().0@, m)),
            None => nearest_lockfile_dir(dirs.drop_last()),
        }
    }
}

/// The workspace root above the application and its package manager (see
/// `nearest_lockfile_dir`).
pub fn workspace_root(dirs: &Vec<(String, Vec<String>)>) -> (r: Option<(String, PackageManager)>)
    ensures
        match r {
            Some((d, m)) => nearest_lockfile_dir(dirs@) == Some((d@, m)),
            None => nearest_lockfile_dir(dirs@) is None,
        },
{
    let mut k = dirs.len();
    assert(dirs@.take(k as int) =~= dirs@);
    while k > 0
        invariant
            k <= dirs@.len(),
            nearest_lockfile_dir(dirs@) == nearest_lockfile_dir(dirs@.take(k as int)),
        decreases k,
    {
        proof {
            assert(dirs@.take(k as int).drop_last() =~= dirs@.take(k - 1));
            assert(dirs@.take(k as int).last() == dirs@[k - 1]);
        }
        match lockfile_manager(&dirs[k - 1].1) {
            Some(m) => return Some((dirs[k - 1].0.clone(), m)),
            None => {},
        }
        k = k - 1;
    }
    None
}

/// Why a workspace package cannot be built.
#[derive(Clone, Debug, PartialEq, Eq)]
pub enum WorkspaceError {
    /// The package (by its directory) has no `start` script.
    StartScriptMissing(String),
}

/// What is known of an application directory that may be a workspace
/// package.
#[derive(Clone, Debug)]
pub struct PackageFacts {
    /// It has a `package.json`.
    pub has_manifest: bool,
    /// It has a lockfile of its own (then it is built on its own).
    pub has_own_lockfile: bool,
    /// The nearest directory above it with a lockfile, and that lockfile's
    /// manager.
    pub root: Option<(String, PackageManager)>,
    /// The root's workspace globs, when it declares any (`None` when it has
    /// no workspace manifest).
    pub globs: Option<Vec<String>>,
    /// The directory relative to the root, with `/` separators.
    pub relative: String,
    /// The package's `name`.
    pub name: Option<String>,
    pub has_start_script: bool,
    pub has_build_script: bool,
}

/// Whether the directory is built as a package of a workspace: it has a
/// manifest but no lockfile of its own, a root with a lockfile lies above
/// it, the root declares workspaces, and (when it lists globs) they include
/// the package.
pub open spec fn is_workspace_package(f: PackageFacts) -> bool {
    &&& f.has_manifest
    &&& !f.has_own_lockfile
    &&& f.root is Some
    &&& f.globs is Some
    &&& (f.globs.unwrap()@.len() == 0 || is_member_spec(views(f.globs.unwrap()@), f.relative@))
}

/// The workspace build of an application directory, if it is a workspace
/// package (see `is_workspace_package`): built and started from the root
/// with commands scoped to the package. A workspace package without a
/// `start` script is refused.
pub fn workspace_build(f: &PackageFacts, root_dir: &str) -> (r: Result<Option<JsWorkspace>, WorkspaceError>)
    ensures
        !is_workspace_package(*f) ==> r == Ok::<Option<JsWorkspace>, WorkspaceError>(None),
        is_workspace_package(*f) && !f.has_start_script ==> (r matches Err(WorkspaceError::StartScriptMissing(d)) && d@ == root_dir@),
        is_workspace_package(*f) && f.has_start_script ==> (r matches Ok(Some(w)) && {
            let (root, m) = f.root.unwrap();
            let selector = match f.name {
                Some(n) => if trim(n@).len() > 0 {
                    n@
                } else {
                    "./"@ + f.relative@
                },
                None => "./"@ + f.relative@,
            };
            &&& w.root@ == root@
            &&& w.package_manager == m
            &&& w.build_command@ == build_command_spec(m, selector, f.has_build_script)
            &&& w.start_command@ == start_command_spec(m, selector)
        }),
{
    if !f.has_manifest || f.has_own_lockfile {
        return Ok(None);
    }
    let (root, manager) = match &f.root {
        None => return Ok(None),
        Some((d, m)) => (d, *m),
    };
    let globs = match &f.globs {
        None => return Ok(None),
        Some(g) => g,
    };
    if globs.len() > 0 && !is_workspace_member(globs, f.relative.as_str()) {
        return Ok(None);
    }
    if !f.has_start_script {
        return Err(WorkspaceError::StartScriptMissing(lit(root_dir)));
    }
    let selector = package_selector(f.name.clone(), f.relative.as_str());
    Ok(Some(JsWorkspace {
        root: root.clone(),
        package_manager: manager,
        build_command: manager.build_command(selector.as_str(), f.has_build_script),
        start_command: manager.start_command(selector.as_str()),
    }))
}

} // verus!
