//! What a `Dockerfile` declares that the deployment needs: the port the
//! image exposes and the paths its final stage keeps in volumes.
use crate::text::{trim_end_char, trim_end_char_vec, trim_quotes, trim_quotes_vec, trim_start_char, trim_start_char_vec, after, after_vec, before_char, before_char_vec, chars_of, lines, lines_vec, parse_unsigned, parse_unsigned_exec, split_on, split_vec, starts_with, starts_with_at, string_of, to_uppercase, trim, trim_start, trim_start_vec, trim_vec, upper, words, words_vec};
use vstd::prelude::*;

verus! {

/// How the image of a deployment is built.
#[derive(Clone, Debug, PartialEq, Eq)]
pub enum BuildStrategy {
    /// From the repository's `Dockerfile`, with this content.
    Dockerfile { content: String },
    /// By Railpack, which infers the build.
    Railpack,
}

impl BuildStrategy {
    /// The name of the strategy.
    pub fn name(&self) -> (s: String)
        ensures
            s@ == (match self {
                BuildStrategy::Dockerfile { .. } => "Dockerfile"@,
                BuildStrategy::Railpack => "Railpack"@,
            }),
    {
        match self {
            BuildStrategy::Dockerfile { .. } => crate::text::lit("Dockerfile"),
            BuildStrategy::Railpack => crate::text::lit("Railpack"),
        }
    }
}

/// The port an `EXPOSE` line declares: after the seven characters of
/// `EXPOSE ` (matched without regard to case), the text up to a `/`,
/// trimmed, read as a port number.
pub open spec fn expose_port(line: Seq<char>) -> Option<nat> {
    let t = trim(line);
    if starts_with(upper(t), "EXPOSE "@) {
        parse_unsigned(trim(before_char(trim(after(t, 7)), '/')), 65535)
    } else {
        None
    }
}

/// The first port declared by the lines from `i` on.
pub open spec fn first_expose(ls: Seq<Seq<char>>, i: int) -> Option<nat>
    decreases ls.len() - i,
{
    if i < 0 || i >= ls.len() {
        None
    } else {
        match expose_port(ls[i]) {
            Some(p) => Some(p),
            None => first_expose(ls, i + 1),
        }
    }
}

fn upper_vec(v: &[char]) -> (r: Vec<char>)
    ensures
        r@ == upper(v@),
{
    let s = string_of(v);
    let u = to_uppercase(s.as_str());
    chars_of(u.as_str())
}

fn expose_port_exec(line: &[char]) -> (r: Option<u16>)
    ensures
        match r {
            Some(p) => expose_port(line@) == Some(p as nat),
            None => expose_port(line@) is None,
        },
{
    let t = trim_vec(line);
    let u = upper_vec(t.as_slice());
    let prefix = chars_of("EXPOSE ");
    proof {
        assert(u@.subrange(0, u@.len() as int) == u@);
    }
    if !starts_with_at(u.as_slice(), 0, prefix.as_slice()) {
        return None;
    }
    let rest = after_vec(t.as_slice(), 7);
    let rest_t = trim_vec(rest.as_slice());
    let head = before_char_vec(rest_t.as_slice(), '/');
    let port = trim_vec(head.as_slice());
    match parse_unsigned_exec(port.as_slice(), 65535) {
        Some(p) => Some(p as u16),
        None => None,
    }
}

/// The port of the first `EXPOSE` line that names one.
pub fn parse_expose(dockerfile_content: &str) -> (r: Option<u16>)
    ensures
        match r {
            Some(p) => first_expose(lines(dockerfile_content@), 0) == Some(p as nat),
            None => first_expose(lines(dockerfile_content@), 0) is None,
        },
{
    let v = chars_of(dockerfile_content);
    let ls = lines_vec(v.as_slice());
    let ghost lsv = lines(dockerfile_content@);
    let mut i: usize = 0;
    while i < ls.len()
        invariant
            i <= ls@.len(),
            ls@.map_values(|x: Vec<char>| x@) == lsv,
            lsv == lines(dockerfile_content@),
            first_expose(lsv, 0) == first_expose(lsv, i as int),
        decreases ls@.len() - i,
    {
        assert(ls@[i as int]@ == lsv[i as int]);
        assert(lsv.len() == ls@.len());
        match expose_port_exec(ls[i].as_slice()) {
            Some(p) => {
                assert(first_expose(lsv, i as int) == Some(p as nat));
                return Some(p);
            },
            None => {},
        }
        i = i + 1;
    }
    None
}

/// The non-empty paths of an exec-form list, in order: the text between
/// the brackets split at commas, each part trimmed and unquoted.
pub open spec fn exec_form_paths(parts: Seq<Seq<char>>) -> Seq<Seq<char>>
    decreases parts.len(),
{
    if parts.len() == 0 {
        Seq::empty()
    } else {
        let prev = exec_form_paths(parts.drop_last());
        let p = trim_quotes(trim(parts.last()));
        if p.len() > 0 {
            prev.push(p)
        } else {
            prev
        }
    }
}

/// The paths of a `VOLUME` instruction: the JSON-like exec form
/// `["/a", "/b"]` or the shell form `/a /b`.
pub open spec fn volume_paths(s: Seq<char>) -> Seq<Seq<char>> {
    parse_volume_exec_form_spec(s, starts_with(s, "["@))
}

pub open spec fn parse_volume_exec_form_spec(s: Seq<char>, exec_form: bool) -> Seq<Seq<char>> {
    if exec_form {
        exec_form_paths(split_on(trim_end_char(trim_start_char(s, '['), ']'), ','))
    } else {
        words(s)
    }
}

/// The stage's volume list after adding `paths`: each trimmed, non-empty
/// path not yet listed is appended.
pub open spec fn add_paths(stage: Seq<Seq<char>>, paths: Seq<Seq<char>>) -> Seq<Seq<char>>
    decreases paths.len(),
{
    if paths.len() == 0 {
        stage
    } else {
        let prev = add_paths(stage, paths.drop_last());
        let p = trim(paths.last());
        if p.len() > 0 && !prev.contains(p) {
            prev.push(p)
        } else {
            prev
        }
    }
}

/// The volume list after one line: comments and blank lines change nothing,
/// a `FROM` line starts a new stage with no volumes, a `VOLUME` line adds
/// its paths (instructions are matched without regard to case).
pub open spec fn volume_step(stage: Seq<Seq<char>>, raw: Seq<char>) -> Seq<Seq<char>> {
    let line = trim(raw);
    if line.len() == 0 || line[0] == '#' {
        stage
    } else if starts_with(upper(line), "FROM "@) {
        Seq::empty()
    } else if !starts_with(upper(line), "VOLUME"@) {
        stage
    } else {
        add_paths(stage, volume_paths(trim_start(after(line, 6))))
    }
}

pub open spec fn volumes_of(ls: Seq<Seq<char>>) -> Seq<Seq<char>>
    decreases ls.len(),
{
    if ls.len() == 0 {
        Seq::empty()
    } else {
        volume_step(volumes_of(ls.drop_last()), ls.last())
    }
}

/// The non-empty paths of an exec-form `VOLUME` list such as `["/a", "/b"]`.
pub fn parse_volume_exec_form(s: &[char]) -> (r: Vec<Vec<char>>)
    ensures
        r@.map_values(|x: Vec<char>| x@) == parse_volume_exec_form_spec(s@, true),
{
    let a = trim_start_char_vec(s, '[');
    let inner = trim_end_char_vec(a.as_slice(), ']');
    let parts = split_vec(inner.as_slice(), ',');
    let ghost pv = parts@.map_values(|x: Vec<char>| x@);
    let mut r: Vec<Vec<char>> = Vec::new();
    let mut k: usize = 0;
    while k < parts.len()
        invariant
            k <= parts@.len(),
            pv == parts@.map_values(|x: Vec<char>| x@),
            r@.map_values(|x: Vec<char>| x@) == exec_form_paths(pv.take(k as int)),
        decreases parts@.len() - k,
    {
        proof {
            assert(pv.take(k + 1).drop_last() == pv.take(k as int));
            assert(pv.take(k + 1).last() == parts@[k as int]@);
        }
        let t = trim_vec(parts[k].as_slice());
        let p = trim_quotes_vec(t.as_slice());
        if p.len() > 0 {
            let ghost before = r@.map_values(|x: Vec<char>| x@);
            r.push(p);
            proof {
                assert(r@.map_values(|x: Vec<char>| x@) == before.push(trim_quotes(trim(pv[k as int]))));
            }
        }
        k = k + 1;
    }
    proof {
        assert(pv.take(parts@.len() as int) == pv);
    }
    r
}

/// The whitespace-separated paths of a shell-form `VOLUME` line.
pub fn parse_volume_shell_form(s: &[char]) -> (r: Vec<Vec<char>>)
    ensures
        r@.map_values(|x: Vec<char>| x@) == parse_volume_exec_form_spec(s@, false),
{
    words_vec(s)
}

fn contains_path(stage: &Vec<Vec<char>>, p: &[char]) -> (b: bool)
    ensures
        b == stage@.map_values(|x: Vec<char>| x@).contains(p@),
{
    let ghost sv = stage@.map_values(|x: Vec<char>| x@);
    let mut i: usize = 0;
    while i < stage.len()
        invariant
            i <= stage@.len(),
            sv == stage@.map_values(|x: Vec<char>| x@),
            forall|q: int| 0 <= q < i ==> sv[q] != p@,
        decreases stage@.len() - i,
    {
        if crate::text::chars_eq(stage[i].as_slice(), p) {
            assert(sv[i as int] == p@);
            return true;
        }
        i = i + 1;
    }
    false
}

fn add_paths_exec(stage: &mut Vec<Vec<char>>, paths: &Vec<Vec<char>>)
    ensures
        final(stage)@.map_values(|x: Vec<char>| x@) == add_paths(
            old(stage)@.map_values(|x: Vec<char>| x@),
            paths@.map_values(|x: Vec<char>| x@),
        ),
{
    let ghost start = stage@.map_values(|x: Vec<char>| x@);
    let ghost pv = paths@.map_values(|x: Vec<char>| x@);
    let mut k: usize = 0;
    while k < paths.len()
        invariant
            k <= paths@.len(),
            pv == paths@.map_values(|x: Vec<char>| x@),
            stage@.map_values(|x: Vec<char>| x@) == add_paths(start, pv.take(k as int)),
        decreases paths@.len() - k,
    {
        proof {
            assert(pv.take(k + 1).drop_last() == pv.take(k as int));
            assert(pv.take(k + 1).last() == paths@[k as int]@);
        }
        let p = trim_vec(paths[k].as_slice());
        if p.len() > 0 && !contains_path(stage, p.as_slice()) {
            let ghost before = stage@.map_values(|x: Vec<char>| x@);
            stage.push(p);
            proof {
                assert(stage@.map_values(|x: Vec<char>| x@) == before.push(trim(pv[k as int])));
            }
        }
        k = k + 1;
    }
    proof {
        assert(pv.take(paths@.len() as int) == pv);
    }
}

/// The paths the final stage of a `Dockerfile` declares as volumes, each
/// once, in the order first declared.
pub fn parse_volumes(dockerfile_content: &str) -> (r: Vec<String>)
    ensures
        r@.map_values(|x: String| x@) == volumes_of(lines(dockerfile_content@)),
{
    let v = chars_of(dockerfile_content);
    let ls = lines_vec(v.as_slice());
    let ghost lsv = lines(dockerfile_content@);
    let from = chars_of("FROM ");
    let volume = chars_of("VOLUME");
    let open = chars_of("[");
    let mut stage: Vec<Vec<char>> = Vec::new();
    let mut i: usize = 0;
    while i < ls.len()
        invariant
            i <= ls@.len(),
            ls@.map_values(|x: Vec<char>| x@) == lsv,
            from@ == "FROM "@,
            volume@ == "VOLUME"@,
            open@ == "["@,
            stage@.map_values(|x: Vec<char>| x@) == volumes_of(lsv.take(i as int)),
        decreases ls@.len() - i,
    {
        proof {
            assert(lsv.take(i + 1).drop_last() == lsv.take(i as int));
            assert(lsv.take(i + 1).last() == ls@[i as int]@);
        }
        let line = trim_vec(ls[i].as_slice());
        if line.len() == 0 || line[0] == '#' {
        } else {
            let u = upper_vec(line.as_slice());
            proof {
                assert(u@.subrange(0, u@.len() as int) == u@);
            }
            if starts_with_at(u.as_slice(), 0, from.as_slice()) {
                stage = Vec::new();
                proof {
                    assert(stage@.map_values(|x: Vec<char>| x@) == Seq::<Seq<char>>::empty());
                }
            } else if starts_with_at(u.as_slice(), 0, volume.as_slice()) {
                let tail = after_vec(line.as_slice(), 6);
                let rest = trim_start_vec(tail.as_slice());
                proof {
                    assert(rest@.subrange(0, rest@.len() as int) == rest@);
                }
                let paths = if starts_with_at(rest.as_slice(), 0, open.as_slice()) {
                    parse_volume_exec_form(rest.as_slice())
                } else {
                    parse_volume_shell_form(rest.as_slice())
                };
                add_paths_exec(&mut stage, &paths);
            }
        }
        i = i + 1;
    }
    proof {
        assert(lsv.take(ls@.len() as int) == lsv);
    }
    let mut r: Vec<String> = Vec::new();
    let mut k: usize = 0;
    while k < stage.len()
        invariant
            k <= stage@.len(),
            r@.len() == k,
            forall|q: int| 0 <= q < k ==> (#[trigger] r@[q])@ == stage@[q]@,
        decreases stage@.len() - k,
    {
        r.push(string_of(stage[k].as_slice()));
        k = k + 1;
    }
    proof {
        assert(r@.map_values(|x: String| x@) =~= stage@.map_values(|x: Vec<char>| x@));
    }
    r
}

} // verus!
