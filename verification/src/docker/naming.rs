//! Names of the Docker containers, volumes and networks the platform manages.
//! Every name starts with a fixed `slasha-` prefix that says what the object is.
use crate::models::{process_type_name, ProcessType};
use crate::text::{decimal, decimal_string, lit};
use sha2::{Digest, Sha256};
use vstd::prelude::*;
use vstd::string::StringExecFns;
use vstd::utf8::encode_utf8;

verus! {

/// The SHA-256 digest of a byte string.
pub uninterp spec fn sha256(data: Seq<u8>) -> Seq<u8>;

/// `Sha256::digest` of the sha2 crate: the 32-byte SHA-256 digest of `data`.
#[verifier::external_body]
fn sha256_digest(data: &[u8]) -> (d: Vec<u8>)
    ensures
        d@ == sha256(data@),
        d@.len() == 32,
{
    Sha256::digest(data).to_vec()
}

/// The lower-case hexadecimal digit for `d < 16`.
pub open spec fn hex_digit(d: u8) -> char {
    if d < 10 {
        (d + 48) as u8 as char
    } else {
        (d + 87) as u8 as char
    }
}

/// A byte as two lower-case hexadecimal digits (`{:02x}`).
pub open spec fn hex_byte(b: u8) -> Seq<char> {
    seq![hex_digit(b / 16), hex_digit(b % 16)]
}

/// Bytes as lower-case hexadecimal, two digits each.
pub open spec fn hex_of(bytes: Seq<u8>) -> Seq<char>
    decreases bytes.len(),
{
    if bytes.len() == 0 {
        Seq::empty()
    } else {
        hex_of(bytes.drop_last()) + hex_byte(bytes.last())
    }
}

fn hex_digit_exec(d: u8) -> (c: char)
    requires
        d < 16,
    ensures
        c == hex_digit(d),
{
    if d < 10 {
        (d + 48) as char
    } else {
        (d + 87) as char
    }
}

/// Appends `bytes` as lower-case hexadecimal.
fn push_hex(out: &mut String, bytes: &[u8])
    ensures
        final(out)@ == old(out)@ + hex_of(bytes@),
{
    let mut i: usize = 0;
    let ghost start = out@;
    while i < bytes.len()
        invariant
            i <= bytes@.len(),
            out@ == start + hex_of(bytes@.take(i as int)),
        decreases bytes@.len() - i,
    {
        let b = bytes[i];
        crate::text::push_char(out, hex_digit_exec(b / 16));
        crate::text::push_char(out, hex_digit_exec(b % 16));
        proof {
            assert(bytes@.take(i + 1).drop_last() == bytes@.take(i as int));
            assert(bytes@.take(i + 1).last() == b);
        }
        i = i + 1;
    }
    proof {
        assert(bytes@.take(bytes@.len() as int) == bytes@);
    }
}

pub open spec fn process_container_name_spec(
    app_id: Seq<char>,
    deployment_id: Seq<char>,
    process_type: ProcessType,
    index: nat,
) -> Seq<char> {
    "slasha-app-ctr-"@ + app_id + "-"@ + deployment_id + "-"@ + process_type_name(process_type) + "-"@
        + decimal(index)
}

/// The container name of replica `index` of a process of a deployment:
/// `slasha-app-ctr-<app>-<deployment>-<process type>-<index>`.
pub fn process_container_name(
    app_id: &str,
    deployment_id: &str,
    process_type: &ProcessType,
    index: u32,
) -> (r: String)
    ensures
        r@ == process_container_name_spec(app_id@, deployment_id@, *process_type, index as nat),
{
    let mut r = lit("slasha-app-ctr-");
    r.append(app_id);
    r.append("-");
    r.append(deployment_id);
    r.append("-");
    r.append(process_type.as_str().as_str());
    r.append("-");
    r.append(decimal_string(index as u64).as_str());
    r
}

/// The container name of a database service: `slasha-svc-ctr-<service>`.
pub fn service_container_name(service_id: &str) -> (r: String)
    ensures
        r@ == "slasha-svc-ctr-"@ + service_id@,
{
    let mut r = lit("slasha-svc-ctr-");
    r.append(service_id);
    r
}

pub open spec fn app_volume_prefix_spec(app_id: Seq<char>) -> Seq<char> {
    "slasha-app-vol-"@ + app_id + "-"@
}

/// The prefix shared by the names of an application's volumes:
/// `slasha-app-vol-<app>-`.
pub fn app_volume_prefix(app_id: &str) -> (r: String)
    ensures
        r@ == app_volume_prefix_spec(app_id@),
{
    let mut r = lit("slasha-app-vol-");
    r.append(app_id);
    r.append("-");
    r
}

/// A lower-case hexadecimal digit.
pub open spec fn is_lower_hex(c: char) -> bool {
    ('0' <= c && c <= '9') || ('a' <= c && c <= 'f')
}

/// Hexadecimal text has two lower-case digits per byte.
pub proof fn lemma_hex_of_shape(bytes: Seq<u8>)
    ensures
        hex_of(bytes).len() == 2 * bytes.len(),
        forall|i: int| 0 <= i < hex_of(bytes).len() ==> is_lower_hex(#[trigger] hex_of(bytes)[i]),
    decreases bytes.len(),
{
    if bytes.len() > 0 {
        lemma_hex_of_shape(bytes.drop_last());
        let b = bytes.last();
        let prev = hex_of(bytes.drop_last());
        assert(hex_of(bytes) == prev + hex_byte(b));
        assert(b / 16 < 16 && b % 16 < 16) by (nonlinear_arith);
        assert(is_lower_hex(hex_digit(b / 16)) && is_lower_hex(hex_digit(b % 16))) by {
            assert(b / 16 < 16 && b % 16 < 16) by (nonlinear_arith);
        }
        assert forall|i: int| 0 <= i < hex_of(bytes).len() implies is_lower_hex(#[trigger] hex_of(bytes)[i]) by {
            if i < prev.len() {
                assert(hex_of(bytes)[i] == prev[i]);
            } else if i == prev.len() {
                assert(hex_of(bytes)[i] == hex_digit(b / 16));
            } else {
                assert(hex_of(bytes)[i] == hex_digit(b % 16));
            }
        }
    }
}

pub open spec fn app_volume_name_spec(app_id: Seq<char>, mount_path: Seq<char>) -> Seq<char> {
    app_volume_prefix_spec(app_id) + hex_of(sha256(encode_utf8(mount_path)).take(4))
}

/// The volume an application mounts at `mount_path`: the application's
/// volume prefix followed by the first four bytes of the SHA-256 digest of
/// the path, in hexadecimal: exactly eight lower-case hexadecimal digits
/// after the prefix.
pub fn app_volume_name(app_id: &str, mount_path: &str) -> (r: String)
    ensures
        r@ == app_volume_name_spec(app_id@, mount_path@),
        r@.len() == app_volume_prefix_spec(app_id@).len() + 8,
        forall|i: int| app_volume_prefix_spec(app_id@).len() <= i < r@.len() ==> is_lower_hex(#[trigger] r@[i]),
{
    let digest = sha256_digest(mount_path.as_bytes());
    let mut r = app_volume_prefix(app_id);
    push_hex(&mut r, &digest.as_slice()[0..4]);
    proof {
        let d = sha256(encode_utf8(mount_path@));
        let pre = app_volume_prefix_spec(app_id@);
        assert(d.take(4).len() == 4);
        lemma_hex_of_shape(d.take(4));
        assert(r@ == pre + hex_of(d.take(4)));
        assert forall|i: int| pre.len() <= i < r@.len() implies is_lower_hex(#[trigger] r@[i]) by {
            assert(r@[i] == hex_of(d.take(4))[i - pre.len()]);
        }
    }
    r
}

/// The volume of a database service: `slasha-svc-vol-<service>`.
pub fn service_volume_name(service_id: &str) -> (r: String)
    ensures
        r@ == "slasha-svc-vol-"@ + service_id@,
{
    let mut r = lit("slasha-svc-vol-");
    r.append(service_id);
    r
}

/// The bridge network of an application: `slasha-app-net-<app>`.
pub fn app_network_name(app_id: &str) -> (r: String)
    ensures
        r@ == "slasha-app-net-"@ + app_id@,
{
    let mut r = lit("slasha-app-net-");
    r.append(app_id);
    r
}

/// The container of one run of a cron job: `slasha-cron-<run>`.
pub fn cron_container_name(run_id: &str) -> (r: String)
    ensures
        r@ == "slasha-cron-"@ + run_id@,
{
    let mut r = lit("slasha-cron-");
    r.append(run_id);
    r
}

} // verus!
