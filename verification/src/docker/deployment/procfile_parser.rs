//! `Procfile`s: which command each process type of an application runs.
use crate::models::{process_type_named, ProcessType};
use crate::text::{
    chars_of, find_exec, lemma_find_from_bounds, lines, lines_vec, lower, slice_to_vec, split_once,
    string_of, to_lowercase, trim, trim_vec,
};
use vstd::prelude::*;

verus! {

/// The commands of a `Procfile`, each process type at most once.
#[derive(Clone, Debug, Default)]
pub struct Procfile {
    pub commands: Vec<(ProcessType, String)>,
}

/// Each process type occurs at most once.
pub open spec fn commands_ok(c: Seq<(ProcessType, String)>) -> bool {
    forall|i: int, j: int| 0 <= i < j < c.len() ==> c[i].0 != c[j].0
}

/// The command of `p`, if the list names one.
pub open spec fn command_of(c: Seq<(ProcessType, String)>, p: ProcessType) -> Option<Seq<char>>
    decreases c.len(),
{
    if c.len() == 0 {
        None
    } else if c.last().0 == p {
        Some(c.last().1@)
    } else {
        command_of(c.drop_last(), p)
    }
}

impl Procfile {
    /// The commands as a map from process type.
    pub open spec fn view_map(&self) -> Map<ProcessType, Seq<char>> {
        Map::new(|p: ProcessType| command_of(self.commands@, p) is Some, |p: ProcessType| command_of(self.commands@, p)->0)
    }

    /// A `Procfile` without commands.
    pub fn new() -> (r: Self)
        ensures
            r.commands@.len() == 0,
            r.view_map() == Map::<ProcessType, Seq<char>>::empty(),
    {
        let r = Procfile { commands: Vec::new() };
        assert(r.view_map() =~= Map::<ProcessType, Seq<char>>::empty());
        r
    }

    /// The command of `process_type`, if there is one.
    pub fn get(&self, process_type: &ProcessType) -> (r: Option<&str>)
        ensures
            match r {
                Some(s) => command_of(self.commands@, *process_type) == Some(s@),
                None => command_of(self.commands@, *process_type) is None,
            },
    {
        let mut k = self.commands.len();
        proof {
            assert(self.commands@.take(k as int) == self.commands@);
        }
        while k > 0
            invariant
                k <= self.commands@.len(),
                command_of(self.commands@, *process_type) == command_of(self.commands@.take(k as int), *process_type),
            decreases k,
        {
            proof {
                assert(self.commands@.take(k as int).drop_last() == self.commands@.take(k - 1));
                assert(self.commands@.take(k as int).last() == self.commands@[k - 1]);
            }
            if self.commands[k - 1].0 == *process_type {
                return Some(self.commands[k - 1].1.as_str());
            }
            k = k - 1;
        }
        proof {
            assert(self.commands@.take(0) == Seq::<(ProcessType, String)>::empty());
        }
        None
    }

    /// The command of `process_type`, if there is one.
    pub fn get_process_command(&self, process_type: ProcessType) -> (r: Option<&str>)
        ensures
            match r {
                Some(s) => command_of(self.commands@, process_type) == Some(s@),
                None => command_of(self.commands@, process_type) is None,
            },
    {
        self.get(&process_type)
    }

    /// Whether `process_type` has a command.
    pub fn contains(&self, process_type: &ProcessType) -> (b: bool)
        ensures
            b == (command_of(self.commands@, *process_type) is Some),
    {
        self.get(process_type).is_some()
    }

    /// Whether no process type has a command.
    pub fn is_empty(&self) -> (b: bool)
        ensures
            b == (self.commands@.len() == 0),
    {
        self.commands.len() == 0
    }

    /// Sets the command of `process_type`, replacing an earlier one.
    pub fn insert(&mut self, process_type: ProcessType, command: String)
        requires
            commands_ok(old(self).commands@),
        ensures
            commands_ok(final(self).commands@),
            forall|p: ProcessType|
                #[trigger] command_of(final(self).commands@, p) == if p == process_type {
                    Some(command@)
                } else {
                    command_of(old(self).commands@, p)
                },
    {
        let mut i: usize = 0;
        while i < self.commands.len()
            invariant
                i <= self.commands@.len(),
                self.commands@ == old(self).commands@,
                commands_ok(self.commands@),
                forall|q: int| 0 <= q < i ==> self.commands@[q].0 != process_type,
            decreases self.commands@.len() - i,
        {
            if self.commands[i].0 == process_type {
                let ghost before = self.commands@;
                self.commands.set(i, (process_type, command));
                proof {
                    lemma_command_of_set(before, i as int, process_type, command, process_type);
                    assert forall|p: ProcessType|
                        #[trigger] command_of(self.commands@, p) == if p == process_type {
                            Some(command@)
                        } else {
                            command_of(before, p)
                        } by {
                        lemma_command_of_set(before, i as int, process_type, command, p);
                    }
                }
                return;
            }
            i = i + 1;
        }
        let ghost before = self.commands@;
        self.commands.push((process_type, command));
        proof {
            assert(self.commands@.drop_last() == before);
        }
    }
}

proof fn lemma_command_of_set(c: Seq<(ProcessType, String)>, i: int, pt: ProcessType, cmd: String, p: ProcessType)
    requires
        commands_ok(c),
        0 <= i < c.len(),
        c[i].0 == pt,
    ensures
        command_of(c.update(i, (pt, cmd)), p) == if p == pt {
            Some(cmd@)
        } else {
            command_of(c, p)
        },
        commands_ok(c.update(i, (pt, cmd))),
    decreases c.len(),
{
    let u = c.update(i, (pt, cmd));
    if i == c.len() - 1 {
        assert(u.drop_last() == c.drop_last());
    } else {
        assert(u.drop_last() == c.drop_last().update(i, (pt, cmd)));
        lemma_command_of_set(c.drop_last(), i, pt, cmd, p);
        if p == pt {
            assert(c.last().0 != pt);
        }
    }
}

/// The process type and command a line sets: blank lines and comments set
/// nothing; otherwise the text before the first `:`, trimmed and lower-cased,
/// names the process type and the trimmed rest is the command, which must not
/// be empty.
pub open spec fn procfile_line(line: Seq<char>) -> Option<(ProcessType, Seq<char>)> {
    let t = trim(line);
    if t.len() == 0 || t[0] == '#' {
        None
    } else {
        match split_once(t, ':') {
            None => None,
            Some((name, cmd)) => match process_type_named(lower(trim(name))) {
                None => None,
                Some(p) => if trim(cmd).len() > 0 {
                    Some((p, trim(cmd)))
                } else {
                    None
                },
            },
        }
    }
}

/// The commands set by the lines, a later line replacing an earlier one.
pub open spec fn procfile_of(ls: Seq<Seq<char>>) -> Map<ProcessType, Seq<char>>
    decreases ls.len(),
{
    if ls.len() == 0 {
        Map::empty()
    } else {
        let prev = procfile_of(ls.drop_last());
        match procfile_line(ls.last()) {
            Some((p, c)) => prev.insert(p, c),
            None => prev,
        }
    }
}

fn procfile_line_exec(line: &[char]) -> (r: Option<(ProcessType, String)>)
    ensures
        match r {
            Some((p, c)) => procfile_line(line@) == Some((p, c@)),
            None => procfile_line(line@) is None,
        },
{
    let t = trim_vec(line);
    if t.len() == 0 || t[0] == '#' {
        return None;
    }
    match find_exec(t.as_slice(), ':', 0) {
        None => None,
        Some(j) => {
            proof {
                lemma_find_from_bounds(t@, ':', 0);
            }
            let n = t.len();
            let name = slice_to_vec(t.as_slice(), 0, j);
            let cmd = slice_to_vec(t.as_slice(), j + 1, n);
            let name_t = trim_vec(name.as_slice());
            let lowered = to_lowercase(string_of(name_t.as_slice()).as_str());
            match ProcessType::from_name(lowered.as_str()) {
                None => None,
                Some(p) => {
                    let cmd_t = trim_vec(cmd.as_slice());
                    if cmd_t.len() > 0 {
                        Some((p, string_of(cmd_t.as_slice())))
                    } else {
                        None
                    }
                },
            }
        },
    }
}

/// Reads a `Procfile`: for each line that names a known process type before
/// a `:` and a non-empty command after it, that command (the last such line
/// for a process type wins).
pub fn parse_procfile_content(content: &str) -> (r: Procfile)
    ensures
        commands_ok(r.commands@),
        r.view_map() == procfile_of(lines(content@)),
{
    let v = chars_of(content);
    let ls = lines_vec(v.as_slice());
    let ghost lsv = lines(content@);
    let mut pf = Procfile::new();
    let mut i: usize = 0;
    while i < ls.len()
        invariant
            i <= ls@.len(),
            ls@.map_values(|x: Vec<char>| x@) == lsv,
            commands_ok(pf.commands@),
            pf.view_map() == procfile_of(lsv.take(i as int)),
        decreases ls@.len() - i,
    {
        proof {
            assert(lsv.take(i + 1).drop_last() == lsv.take(i as int));
            assert(lsv.take(i + 1).last() == ls@[i as int]@);
        }
        match procfile_line_exec(ls[i].as_slice()) {
            Some((p, c)) => {
                let ghost before = pf.view_map();
                pf.insert(p, c);
                proof {
                    assert(pf.view_map() =~= before.insert(p, c@));
                }
            },
            None => {},
        }
        i = i + 1;
    }
    proof {
        assert(lsv.take(ls@.len() as int) == lsv);
    }
    pf
}

/// A command inserted for a process type is the one read back for it, and
/// the other types keep theirs: for any `after` that `insert` produced from
/// `before`.
pub proof fn lemma_get_after_insert(
    before: Seq<(ProcessType, String)>,
    after: Seq<(ProcessType, String)>,
    process_type: ProcessType,
    command: Seq<char>,
    other: ProcessType,
)
    requires
        forall|p: ProcessType|
            #[trigger] command_of(after, p) == if p == process_type {
                Some(command)
            } else {
                command_of(before, p)
            },
    ensures
        command_of(after, process_type) == Some(command),
        other != process_type ==> command_of(after, other) == command_of(before, other),
{
    assert(command_of(after, process_type) == Some(command));
    assert(command_of(after, other) == if other == process_type { Some(command) } else { command_of(before, other) });
}

} // verus!
