//! Replicating an application's SQLite database with Litestream: the shell
//! script that wraps the application's command (restore, then replicate
//! while the command runs), its configuration, and reading the result of a
//! replica probe.
use crate::models::{AppBackup, Timestamp};
use crate::text::{
    after, before_char, before_char_vec, chars_of, find_sub, find_sub_exec, lemma_find_sub_bounds, lit,
    occurs_at, push_char, slice_to_vec, string_of, trim, trim_vec,
};
use vstd::prelude::*;
use vstd::string::StringExecFns;

verus! {

/// The command that replaces a process's command, and the variables it needs.
#[derive(Clone, Debug)]
pub struct LitestreamPlan {
    pub command: String,
    pub env: Vec<(String, String)>,
}

/// Where in the bucket the replica lives: the configured prefix, or
/// `litestream` when none (or an empty one) is set.
pub open spec fn replica_path_spec(path_prefix: Option<Seq<char>>) -> Seq<char> {
    match path_prefix {
        Some(p) => if p.len() > 0 {
            p
        } else {
            "litestream"@
        },
        None => "litestream"@,
    }
}

pub open spec fn prefix_view(o: Option<String>) -> Option<Seq<char>> {
    match o {
        Some(s) => Some(s@),
        None => None,
    }
}

/// The replica path of a backup.
pub fn replica_path(backup: &AppBackup) -> (r: String)
    ensures
        r@ == replica_path_spec(prefix_view(backup.path_prefix)),
{
    match &backup.path_prefix {
        Some(prefix) => {
            let v = crate::text::chars_of(prefix.as_str());
            if v.len() > 0 {
                return prefix.clone();
            }
            lit("litestream")
        },
        None => lit("litestream"),
    }
}

/// The Litestream configuration: one database replicated to an S3 bucket.
pub open spec fn config_yaml_spec(db_path: Seq<char>, bucket: Seq<char>, path: Seq<char>, endpoint: Seq<char>) -> Seq<char> {
    "dbs:\n  - path: "@ + db_path + "\n    replicas:\n      - type: s3\n        bucket: "@ + bucket
        + "\n        path: "@ + path + "\n        endpoint: "@ + endpoint
        + "\n        region: auto\n        force-path-style: true\n"@
}

/// The Litestream configuration of a backup.
pub fn config_yaml(backup: &AppBackup) -> (r: String)
    ensures
        r@ == config_yaml_spec(
            backup.db_path@,
            backup.bucket@,
            replica_path_spec(prefix_view(backup.path_prefix)),
            backup.endpoint@,
        ),
{
    let path = replica_path(backup);
    let mut r = lit("dbs:\n  - path: ");
    r.append(backup.db_path.as_str());
    r.append("\n    replicas:\n      - type: s3\n        bucket: ");
    r.append(backup.bucket.as_str());
    r.append("\n        path: ");
    r.append(path.as_str());
    r.append("\n        endpoint: ");
    r.append(backup.endpoint.as_str());
    r.append("\n        region: auto\n        force-path-style: true\n");
    r
}

/// Every `'` of the text written as `'\''`.
pub open spec fn escape_quotes(s: Seq<char>) -> Seq<char>
    decreases s.len(),
{
    if s.len() == 0 {
        Seq::empty()
    } else {
        escape_quotes(s.drop_last()) + if s.last() == '\'' {
            seq!['\'', '\\', '\'', '\'']
        } else {
            seq![s.last()]
        }
    }
}

/// The text as one single-quoted shell word.
pub open spec fn shell_single_quote_spec(s: Seq<char>) -> Seq<char> {
    seq!['\''] + escape_quotes(s) + seq!['\'']
}

/// Quotes a value as one shell word: in single quotes, each `'` closed,
/// escaped and reopened.
pub fn shell_single_quote(value: &str) -> (r: String)
    ensures
        r@ == shell_single_quote_spec(value@),
{
    let v = crate::text::chars_of(value);
    let mut r = String::new();
    push_char(&mut r, '\'');
    let mut i: usize = 0;
    while i < v.len()
        invariant
            i <= v@.len(),
            r@ == seq!['\''] + escape_quotes(v@.take(i as int)),
        decreases v@.len() - i,
    {
        proof {
            assert(v@.take(i + 1).drop_last() == v@.take(i as int));
            assert(v@.take(i + 1).last() == v@[i as int]);
        }
        if v[i] == '\'' {
            push_char(&mut r, '\'');
            push_char(&mut r, '\\');
            push_char(&mut r, '\'');
            push_char(&mut r, '\'');
        } else {
            push_char(&mut r, v[i]);
        }
        i = i + 1;
    }
    push_char(&mut r, '\'');
    proof {
        assert(v@.take(v@.len() as int) == v@);
    }
    r
}

/// The part of the script that restores the database before the command
/// starts. With a restore pending, the replica is restored into a temporary
/// file and kept only when SQLite finds it intact; otherwise a missing
/// database is restored, and the start aborts when that fails (rather than
/// replicate an empty database over the replica).
pub open spec fn restore_block(db: Seq<char>, restore_pending: bool) -> Seq<char> {
    if restore_pending {
        "TMP="@ + db + ".slasha-restore\nrm -f \"$TMP\" \"$TMP\"-wal \"$TMP\"-shm 2>/dev/null || true\nif /slasha/litestream restore -o \"$TMP\" -if-replica-exists -config /etc/litestream.yml "@
            + db
            + "; then\nif [ -f \"$TMP\" ] && /slasha/sqlite3 \"$TMP\" 'PRAGMA integrity_check;' 2>/dev/null | head -1 | grep -qx ok; then\nmv -f \"$TMP\" "@
            + db + "\nrm -f "@ + db + "-wal "@ + db
            + "-shm 2>/dev/null || true\necho 'slasha: restored database from replica'\nelse\nrm -f \"$TMP\" 2>/dev/null || true\necho 'slasha: no valid replica to restore; keeping existing database' >&2\nfi\nelse\nrm -f \"$TMP\" 2>/dev/null || true\necho 'slasha: restore failed; keeping existing database' >&2\nfi"@
    } else {
        "if [ ! -f "@ + db + " ]; then\nif /slasha/litestream restore -if-replica-exists -config /etc/litestream.yml "@
            + db
            + "; then :; else\necho 'slasha: database missing and restore failed; aborting to avoid replicating an empty database' >&2\nexit 1\nfi\nfi"@
    }
}

/// Puts an existing database into WAL mode, which Litestream needs.
pub open spec fn ensure_wal(db: Seq<char>) -> Seq<char> {
    "if [ -f "@ + db + " ]; then /slasha/sqlite3 "@ + db + " 'PRAGMA journal_mode=WAL;' >/dev/null 2>&1 || true; fi"@
}

/// The whole wrapper script.
pub open spec fn plan_command(backup_db: Seq<char>, yaml: Seq<char>, app_cmd: Seq<char>, restore_pending: bool) -> Seq<char> {
    let db = shell_single_quote_spec(backup_db);
    "set -e\nmkdir -p \"$(dirname "@ + db + ")\"\ncat > /etc/litestream.yml <<'SLASHA_LITESTREAM_EOF'\n"@ + yaml
        + "SLASHA_LITESTREAM_EOF\n"@ + restore_block(db, restore_pending) + "\n"@ + ensure_wal(db)
        + "\nexec /slasha/litestream replicate -config /etc/litestream.yml -exec "@
        + shell_single_quote_spec(app_cmd)
}

fn restore_block_exec(db: &str, restore_pending: bool) -> (r: String)
    ensures
        r@ == restore_block(db@, restore_pending),
{
    if restore_pending {
        let mut r = lit("TMP=");
        r.append(db);
        r.append(".slasha-restore\nrm -f \"$TMP\" \"$TMP\"-wal \"$TMP\"-shm 2>/dev/null || true\nif /slasha/litestream restore -o \"$TMP\" -if-replica-exists -config /etc/litestream.yml ");
        r.append(db);
        r.append("; then\nif [ -f \"$TMP\" ] && /slasha/sqlite3 \"$TMP\" 'PRAGMA integrity_check;' 2>/dev/null | head -1 | grep -qx ok; then\nmv -f \"$TMP\" ");
        r.append(db);
        r.append("\nrm -f ");
        r.append(db);
        r.append("-wal ");
        r.append(db);
        r.append("-shm 2>/dev/null || true\necho 'slasha: restored database from replica'\nelse\nrm -f \"$TMP\" 2>/dev/null || true\necho 'slasha: no valid replica to restore; keeping existing database' >&2\nfi\nelse\nrm -f \"$TMP\" 2>/dev/null || true\necho 'slasha: restore failed; keeping existing database' >&2\nfi");
        r
    } else {
        let mut r = lit("if [ ! -f ");
        r.append(db);
        r.append(" ]; then\nif /slasha/litestream restore -if-replica-exists -config /etc/litestream.yml ");
        r.append(db);
        r.append("; then :; else\necho 'slasha: database missing and restore failed; aborting to avoid replicating an empty database' >&2\nexit 1\nfi\nfi");
        r
    }
}

/// The command a process runs when its database is replicated: write the
/// configuration, restore as `restore_pending` asks, switch the database to
/// WAL mode, then run the application's command under `litestream replicate`.
/// The bucket credentials go in the environment, never in the script.
pub fn plan(backup: &AppBackup, app_cmd: &str, restore_pending: bool) -> (p: LitestreamPlan)
    ensures
        p.command@ == plan_command(
            backup.db_path@,
            config_yaml_spec(
                backup.db_path@,
                backup.bucket@,
                replica_path_spec(prefix_view(backup.path_prefix)),
                backup.endpoint@,
            ),
            app_cmd@,
            restore_pending,
        ),
        p.env@.len() == 2,
        p.env@[0].0@ == "LITESTREAM_ACCESS_KEY_ID"@,
        p.env@[0].1@ == backup.access_key_id@,
        p.env@[1].0@ == "LITESTREAM_SECRET_ACCESS_KEY"@,
        p.env@[1].1@ == backup.secret_access_key@,
{
    let db = shell_single_quote(backup.db_path.as_str());
    let yaml = config_yaml(backup);
    let exec_cmd = shell_single_quote(app_cmd);
    let restore = restore_block_exec(db.as_str(), restore_pending);
    let mut wal = lit("if [ -f ");
    wal.append(db.as_str());
    wal.append(" ]; then /slasha/sqlite3 ");
    wal.append(db.as_str());
    wal.append(" 'PRAGMA journal_mode=WAL;' >/dev/null 2>&1 || true; fi");
    let mut command = lit("set -e\nmkdir -p \"$(dirname ");
    command.append(db.as_str());
    command.append(")\"\ncat > /etc/litestream.yml <<'SLASHA_LITESTREAM_EOF'\n");
    command.append(yaml.as_str());
    command.append("SLASHA_LITESTREAM_EOF\n");
    command.append(restore.as_str());
    command.append("\n");
    command.append(wal.as_str());
    command.append("\nexec /slasha/litestream replicate -config /etc/litestream.yml -exec ");
    command.append(exec_cmd.as_str());
    let mut env: Vec<(String, String)> = Vec::new();
    env.push((lit("LITESTREAM_ACCESS_KEY_ID"), backup.access_key_id.clone()));
    env.push((lit("LITESTREAM_SECRET_ACCESS_KEY"), backup.secret_access_key.clone()));
    LitestreamPlan { command, env }
}

/// The script that fills the shared volume with the Litestream, SQLite and
/// MinIO client binaries for the machine's architecture, unless they are
/// already there.
pub open spec fn populate_script_spec() -> Seq<char> {
    "set -e\nif [ -f /dst/litestream ] && [ -f /dst/sqlite3 ] && [ -f /dst/mc ]; then exit 0; fi\napk add -q --no-cache wget tar unzip gcc musl-dev >/dev/null 2>&1\nARCH=$(uname -m)\ncase \"$ARCH\" in x86_64) A=amd64;; aarch64) A=arm64;; *) echo \"unsupported arch $ARCH\" >&2; exit 1;; esac\nwget -qO /tmp/ls.tar.gz \"https://github.com/benbjohnson/litestream/releases/download/v0.3.13/litestream-v0.3.13-linux-${A}.tar.gz\"\ntar -xzf /tmp/ls.tar.gz -C /dst litestream\nchmod +x /dst/litestream\nwget -qO /dst/mc \"https://dl.min.io/client/mc/release/linux-${A}/mc\"\nchmod +x /dst/mc\nwget -qO /tmp/sqlite.zip \"https://sqlite.org/2024/sqlite-amalgamation-3460100.zip\"\nunzip -q /tmp/sqlite.zip -d /tmp\ngcc -Os -static -DSQLITE_THREADSAFE=0 -DSQLITE_OMIT_LOAD_EXTENSION -o /dst/sqlite3 /tmp/sqlite-amalgamation-3460100/shell.c /tmp/sqlite-amalgamation-3460100/sqlite3.c -lm\nchmod +x /dst/sqlite3\n"@
}

/// The script that installs the replication binaries into the shared volume.
pub fn populate_script() -> (r: String)
    ensures
        r@ == populate_script_spec(),
{
    lit("set -e\nif [ -f /dst/litestream ] && [ -f /dst/sqlite3 ] && [ -f /dst/mc ]; then exit 0; fi\napk add -q --no-cache wget tar unzip gcc musl-dev >/dev/null 2>&1\nARCH=$(uname -m)\ncase \"$ARCH\" in x86_64) A=amd64;; aarch64) A=arm64;; *) echo \"unsupported arch $ARCH\" >&2; exit 1;; esac\nwget -qO /tmp/ls.tar.gz \"https://github.com/benbjohnson/litestream/releases/download/v0.3.13/litestream-v0.3.13-linux-${A}.tar.gz\"\ntar -xzf /tmp/ls.tar.gz -C /dst litestream\nchmod +x /dst/litestream\nwget -qO /dst/mc \"https://dl.min.io/client/mc/release/linux-${A}/mc\"\nchmod +x /dst/mc\nwget -qO /tmp/sqlite.zip \"https://sqlite.org/2024/sqlite-amalgamation-3460100.zip\"\nunzip -q /tmp/sqlite.zip -d /tmp\ngcc -Os -static -DSQLITE_THREADSAFE=0 -DSQLITE_OMIT_LOAD_EXTENSION -o /dst/sqlite3 /tmp/sqlite-amalgamation-3460100/shell.c /tmp/sqlite-amalgamation-3460100/sqlite3.c -lm\nchmod +x /dst/sqlite3\n")
}

/// The script that checks, from a helper container, that the replica's
/// bucket is reachable with the backup's credentials (which it reads from
/// the environment), and lists the replica's files.
pub open spec fn probe_script_spec(endpoint: Seq<char>, bucket: Seq<char>, prefix: Seq<char>) -> Seq<char> {
    "OUT=$(/slasha/mc alias set slasha "@ + shell_single_quote_spec(endpoint)
        + " \"$LITESTREAM_ACCESS_KEY_ID\" \"$LITESTREAM_SECRET_ACCESS_KEY\" 2>&1 && /slasha/mc ls --recursive --json slasha/"@
        + shell_single_quote_spec(bucket) + "/"@ + shell_single_quote_spec(prefix)
        + "/ 2>&1)\nRC=$?\nif [ $RC -eq 0 ]; then printf 'SLASHA_REACHABLE\\n%s\\n' \"$OUT\"; else printf '%s\\n' \"$OUT\"; fi"@
}

/// The probe script of a backup.
pub fn probe_script(backup: &AppBackup) -> (r: String)
    ensures
        r@ == probe_script_spec(
            backup.endpoint@,
            backup.bucket@,
            replica_path_spec(prefix_view(backup.path_prefix)),
        ),
{
    let endpoint = shell_single_quote(backup.endpoint.as_str());
    let bucket = shell_single_quote(backup.bucket.as_str());
    let path = replica_path(backup);
    let prefix = shell_single_quote(path.as_str());
    let mut r = lit("OUT=$(/slasha/mc alias set slasha ");
    r.append(endpoint.as_str());
    r.append(" \"$LITESTREAM_ACCESS_KEY_ID\" \"$LITESTREAM_SECRET_ACCESS_KEY\" 2>&1 && /slasha/mc ls --recursive --json slasha/");
    r.append(bucket.as_str());
    r.append("/");
    r.append(prefix.as_str());
    r.append("/ 2>&1)\nRC=$?\nif [ $RC -eq 0 ]; then printf 'SLASHA_REACHABLE\\n%s\\n' \"$OUT\"; else printf '%s\\n' \"$OUT\"; fi");
    r
}

/// The environment of the probe container: the credentials, as
/// `NAME=value` entries.
pub fn probe_env(backup: &AppBackup) -> (r: Vec<String>)
    ensures
        r@.len() == 2,
        r@[0]@ == "LITESTREAM_ACCESS_KEY_ID="@ + backup.access_key_id@,
        r@[1]@ == "LITESTREAM_SECRET_ACCESS_KEY="@ + backup.secret_access_key@,
{
    let mut a = lit("LITESTREAM_ACCESS_KEY_ID=");
    a.append(backup.access_key_id.as_str());
    let mut b = lit("LITESTREAM_SECRET_ACCESS_KEY=");
    b.append(backup.secret_access_key.as_str());
    let mut r: Vec<String> = Vec::new();
    r.push(a);
    r.push(b);
    r
}

/// The instant an RFC 3339 timestamp denotes, as `DateTime::parse_from_rfc3339`
/// of chrono reads it, in UTC; nothing when chrono refuses the text.
pub uninterp spec fn rfc3339_instant(s: Seq<char>) -> Option<Timestamp>;

/// `chrono::DateTime::parse_from_rfc3339`, the result taken in UTC as seconds
/// since the epoch and nanoseconds (chrono keeps the nanoseconds below two
/// seconds, the second one only for a leap second).
#[verifier::external_body]
fn parse_rfc3339(ts: &str) -> (r: Option<Timestamp>)
    ensures
        r == rfc3339_instant(ts@),
        r matches Some(t) ==> t.nanos < 2_000_000_000,
{
    match chrono::DateTime::parse_from_rfc3339(ts) {
        Ok(dt) => Some(Timestamp { secs: dt.timestamp(), nanos: dt.timestamp_subsec_nanos() }),
        Err(_) => None,
    }
}

/// The text after each occurrence of `p` from `i` on, up to the next one
/// (`str::split(p)` without its first piece).
pub open spec fn chunks_after(s: Seq<char>, p: Seq<char>, i: int) -> Seq<Seq<char>>
    decreases s.len() - i,
{
    let j = find_sub(s, p, i);
    if i < 0 || p.len() == 0 || j < 0 {
        Seq::empty()
    } else {
        let start = j + p.len();
        let next = find_sub(s, p, start);
        proof {
            lemma_find_sub_bounds(s, p, i);
        }
        seq![s.subrange(start, if next < 0 { s.len() as int } else { next })] + chunks_after(s, p, start)
    }
}

/// The later of two instants.
pub open spec fn later(a: Timestamp, b: Timestamp) -> Timestamp {
    if a.secs > b.secs || (a.secs == b.secs && a.nanos >= b.nanos) {
        a
    } else {
        b
    }
}

/// The latest instant among the timestamps the chunks start with.
pub open spec fn latest_of(chunks: Seq<Seq<char>>) -> Option<Timestamp>
    decreases chunks.len(),
{
    if chunks.len() == 0 {
        None
    } else {
        let prev = latest_of(chunks.drop_last());
        match rfc3339_instant(before_char(chunks.last(), '"')) {
            None => prev,
            Some(t) => match prev {
                None => Some(t),
                Some(p) => Some(later(p, t)),
            },
        }
    }
}

pub open spec fn last_modified_key() -> Seq<char> {
    "\"lastModified\":\""@
}

/// The latest `lastModified` time in the JSON lines `mc ls --json` prints;
/// times chrono cannot read are skipped.
pub fn parse_last_modified(output: &str) -> (r: Option<Timestamp>)
    ensures
        r == latest_of(chunks_after(output@, last_modified_key(), 0)),
{
    let v = chars_of(output);
    let key = chars_of("\"lastModified\":\"");
    proof {
        reveal_strlit("\"lastModified\":\"");
    }
    let ghost kv = last_modified_key();
    let n = v.len();
    let mut best: Option<Timestamp> = None;
    let ghost mut done: Seq<Seq<char>> = Seq::empty();
    let mut pos: usize = 0;
    proof {
        assert(v@.subrange(0, n as int) == v@);
    }
    loop
        invariant
            pos <= n,
            n == v@.len(),
            key@ == kv,
            kv.len() == 16,
            kv == last_modified_key(),
            v@ == output@,
            chunks_after(v@, kv, 0) == done + chunks_after(v@, kv, pos as int),
            best == latest_of(done),
        decreases n - pos,
    {
        match find_sub_exec(v.as_slice(), pos, n, key.as_slice()) {
            None => {
                proof {
                    lemma_find_sub_shift(v@, kv, pos as int);
                    assert(chunks_after(v@, kv, pos as int) == Seq::<Seq<char>>::empty());
                    assert(done + Seq::<Seq<char>>::empty() == done);
                }
                return best;
            },
            Some(at) => {
                proof {
                    lemma_find_sub_shift(v@, kv, pos as int);
                    lemma_find_sub_bounds(v@.subrange(pos as int, n as int), kv, 0);
                }
                let start = pos + at + key.len();
                let next = find_sub_exec(v.as_slice(), start, n, key.as_slice());
                proof {
                    lemma_find_sub_shift(v@, kv, start as int);
                    lemma_find_sub_bounds(v@.subrange(start as int, n as int), kv, 0);
                }
                let stop = match next {
                    Some(k) => start + k,
                    None => n,
                };
                let chunk = slice_to_vec(v.as_slice(), start, stop);
                let ts = before_char_vec(chunk.as_slice(), '"');
                let parsed = parse_rfc3339(string_of(ts.as_slice()).as_str());
                best = match parsed {
                    None => best,
                    Some(t) => match best {
                        None => Some(t),
                        Some(p) => {
                            if p.secs > t.secs || (p.secs == t.secs && p.nanos >= t.nanos) {
                                Some(p)
                            } else {
                                Some(t)
                            }
                        },
                    },
                };
                proof {
                    let c = v@.subrange(start as int, stop as int);
                    assert(chunks_after(v@, kv, pos as int) == seq![c] + chunks_after(v@, kv, start as int));
                    assert(done.push(c).drop_last() == done);
                    assert(done.push(c).last() == c);
                    assert(ts@ == before_char(c, '"'));
                    assert(done + (seq![c] + chunks_after(v@, kv, start as int)) == done.push(c) + chunks_after(v@, kv, start as int));
                    done = done.push(c);
                }
                pos = start;
            },
        }
    }
}

/// What a replica probe found.
#[derive(Clone, Debug)]
pub struct ReplicaProbe {
    pub reachable: bool,
    /// What the probe printed when the bucket was not reachable (at most
    /// 300 characters), if anything.
    pub error: Option<String>,
    /// When the replica last changed.
    pub last_synced_at: Option<Timestamp>,
}

pub open spec fn probe_marker() -> Seq<char> {
    "SLASHA_REACHABLE"@
}

/// Reads what the probe script printed: after the marker that a successful
/// listing prints, the listing gives the time of the last change; without
/// the marker the trimmed output (its first 300 characters) is the error.
pub fn read_probe_output(output: &str) -> (r: ReplicaProbe)
    ensures
        ({
            let j = find_sub(output@, probe_marker(), 0);
            if j >= 0 {
                &&& r.reachable
                &&& r.error is None
                &&& r.last_synced_at == latest_of(chunks_after(after(output@, j + 16), last_modified_key(), 0))
            } else {
                &&& !r.reachable
                &&& r.last_synced_at is None
                &&& match r.error {
                    Some(e) => trim(output@).len() > 0 && e@ == trim(output@).take(
                        if trim(output@).len() < 300 { trim(output@).len() as int } else { 300 },
                    ),
                    None => trim(output@).len() == 0,
                }
            }
        }),
{
    let v = chars_of(output);
    let marker = chars_of("SLASHA_REACHABLE");
    proof {
        reveal_strlit("SLASHA_REACHABLE");
        assert(v@.subrange(0, v@.len() as int) == v@);
    }
    match find_sub_exec(v.as_slice(), 0, v.len(), marker.as_slice()) {
        Some(j) => {
            proof {
                lemma_find_sub_bounds(v@, marker@, 0);
            }
            let rest = slice_to_vec(v.as_slice(), j + 16, v.len());
            let last = parse_last_modified(string_of(rest.as_slice()).as_str());
            ReplicaProbe { reachable: true, error: None, last_synced_at: last }
        },
        None => {
            let t = trim_vec(v.as_slice());
            let error = if t.len() > 0 {
                let k = if t.len() < 300 { t.len() } else { 300 };
                Some(string_of(slice_to_vec(t.as_slice(), 0, k).as_slice()))
            } else {
                None
            };
            ReplicaProbe { reachable: false, error, last_synced_at: None }
        },
    }
}

proof fn lemma_find_sub_shift(s: Seq<char>, p: Seq<char>, i: int)
    requires
        0 <= i <= s.len(),
    ensures
        find_sub(s, p, i) == if find_sub(s.subrange(i, s.len() as int), p, 0) < 0 {
            -1
        } else {
            find_sub(s.subrange(i, s.len() as int), p, 0) + i
        },
{
    lemma_find_sub_shift_from(s, p, i, 0);
}

proof fn lemma_find_sub_shift_from(s: Seq<char>, p: Seq<char>, i: int, k: int)
    requires
        0 <= i <= s.len(),
        0 <= k,
    ensures
        find_sub(s, p, i + k) == if find_sub(s.subrange(i, s.len() as int), p, k) < 0 {
            -1
        } else {
            find_sub(s.subrange(i, s.len() as int), p, k) + i
        },
    decreases s.len() - i - k,
{
    let t = s.subrange(i, s.len() as int);
    if i + k + p.len() <= s.len() {
        assert(t.subrange(k, k + p.len()) == s.subrange(i + k, i + k + p.len()));
        if !occurs_at(s, p, i + k) {
            assert(p.len() == 0 ==> s.subrange(i + k, i + k + p.len()) =~= p);
            lemma_find_sub_shift_from(s, p, i, k + 1);
        }
    }
}

/// A character the shell treats specially outside quotes.
pub open spec fn shell_special(c: char) -> bool {
    crate::text::is_ws(c) || c == '|' || c == '&' || c == ';' || c == '<' || c == '>' || c == '('
        || c == ')' || c == '$' || c == '`' || c == '"' || c == '*' || c == '?' || c == '[' || c == '#'
        || c == '~'
}

/// The one word a POSIX shell reads from `s`, when `s` is exactly one word
/// built from plain characters, single-quoted stretches and
/// backslash-escaped characters (`quoted` says whether a single quote is
/// open); `None` when `s` is not such a word.
pub open spec fn shell_word(s: Seq<char>, quoted: bool) -> Option<Seq<char>>
    decreases s.len(),
{
    if s.len() == 0 {
        if quoted {
            None
        } else {
            Some(Seq::empty())
        }
    } else if quoted {
        if s[0] == '\'' {
            shell_word(s.drop_first(), false)
        } else {
            match shell_word(s.drop_first(), true) {
                Some(w) => Some(seq![s[0]] + w),
                None => None,
            }
        }
    } else if s[0] == '\'' {
        shell_word(s.drop_first(), true)
    } else if s[0] == '\\' {
        if s.len() < 2 {
            None
        } else {
            match shell_word(s.skip(2), false) {
                Some(w) => Some(seq![s[1]] + w),
                None => None,
            }
        }
    } else if shell_special(s[0]) {
        None
    } else {
        match shell_word(s.drop_first(), false) {
            Some(w) => Some(seq![s[0]] + w),
            None => None,
        }
    }
}

proof fn lemma_escape_quotes_front(s: Seq<char>)
    requires
        s.len() > 0,
    ensures
        escape_quotes(s) == (if s[0] == '\'' {
            seq!['\'', '\\', '\'', '\'']
        } else {
            seq![s[0]]
        }) + escape_quotes(s.drop_first()),
    decreases s.len(),
{
    if s.len() == 1 {
        assert(s.drop_last() =~= Seq::<char>::empty());
        assert(s.drop_first() =~= Seq::<char>::empty());
        assert(escape_quotes(s.drop_last()) =~= Seq::<char>::empty());
    } else {
        lemma_escape_quotes_front(s.drop_last());
        assert(s.drop_last().drop_first() =~= s.drop_first().drop_last());
        assert(s.drop_first().last() == s.last());
        assert(s.drop_last()[0] == s[0]);
    }
}

proof fn lemma_read_escaped(s: Seq<char>)
    ensures
        shell_word(escape_quotes(s) + seq!['\''], true) == Some(s),
    decreases s.len(),
{
    if s.len() == 0 {
        assert(escape_quotes(s) + seq!['\''] =~= seq!['\'']);
        assert(seq!['\''].drop_first() =~= Seq::<char>::empty());
        assert(shell_word(seq!['\''], true) == shell_word(Seq::<char>::empty(), false));
        assert(s =~= Seq::<char>::empty());
    } else {
        lemma_escape_quotes_front(s);
        lemma_read_escaped(s.drop_first());
        let tail = escape_quotes(s.drop_first()) + seq!['\''];
        if s[0] == '\'' {
            let w = seq!['\'', '\\', '\'', '\''] + tail;
            assert(escape_quotes(s) + seq!['\''] =~= w);
            assert(w.drop_first() =~= seq!['\\', '\'', '\''] + tail);
            assert(w.drop_first().skip(2) =~= seq!['\''] + tail);
            assert((seq!['\''] + tail).drop_first() =~= tail);
            assert(shell_word(seq!['\''] + tail, false) == shell_word(tail, true));
            assert(shell_word(w.drop_first(), false) == Some(seq!['\''] + s.drop_first()));
            assert(shell_word(w, true) == shell_word(w.drop_first(), false));
            assert(seq![s[0]] + s.drop_first() =~= s);
        } else {
            let w = seq![s[0]] + tail;
            assert(escape_quotes(s) + seq!['\''] =~= w);
            assert(w.drop_first() =~= tail);
            assert(shell_word(w, true) == Some(seq![s[0]] + s.drop_first()));
            assert(seq![s[0]] + s.drop_first() =~= s);
        }
    }
}

/// A quoted value is read back by the shell as exactly one word, the value
/// itself, whatever characters it holds.
pub proof fn lemma_shell_quote_reads_back(s: Seq<char>)
    ensures
        shell_word(shell_single_quote_spec(s), false) == Some(s),
{
    lemma_read_escaped(s);
    let q = shell_single_quote_spec(s);
    assert(q.drop_first() =~= escape_quotes(s) + seq!['\'']);
}

} // verus!
