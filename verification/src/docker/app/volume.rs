//! The volumes of an application, as the platform lists them.
use crate::docker::naming::app_volume_prefix_spec;
use crate::text::{chars_eq, chars_of, starts_with, starts_with_at};
use vstd::prelude::*;

verus! {

/// A volume of an application: the path it is mounted at, whether it is the
/// volume the platform manages, and its size when known.
#[derive(Clone, Debug)]
pub struct AppVolume {
    pub path: String,
    pub is_managed: bool,
    pub size_bytes: Option<i64>,
}

/// A volume on the node: its name and its `path` label, if any.
#[derive(Clone, Debug)]
pub struct VolumeListing {
    pub name: String,
    pub path_label: Option<String>,
}

/// The size recorded for a volume name: the last entry for it.
pub open spec fn size_of(sizes: Seq<(String, i64)>, name: Seq<char>) -> Option<i64>
    decreases sizes.len(),
{
    if sizes.len() == 0 {
        None
    } else if sizes.last().0@ == name {
        Some(sizes.last().1)
    } else {
        size_of(sizes.drop_last(), name)
    }
}

/// The entry for one listed volume.
pub open spec fn volume_entry(v: VolumeListing, sizes: Seq<(String, i64)>) -> (Seq<char>, bool, Option<i64>) {
    let path = match v.path_label {
        Some(p) => p@,
        None => v.name@,
    };
    let size = match size_of(sizes, v.name@) {
        Some(s) => if s >= 0 {
            Some(s)
        } else {
            None
        },
        None => None,
    };
    (path, path == "/data"@, size)
}

/// The application's volumes among the listed ones, in listing order.
pub open spec fn app_volumes_spec(prefix: Seq<char>, vols: Seq<VolumeListing>, sizes: Seq<(String, i64)>) -> Seq<(Seq<char>, bool, Option<i64>)>
    decreases vols.len(),
{
    if vols.len() == 0 {
        Seq::empty()
    } else {
        let prev = app_volumes_spec(prefix, vols.drop_last(), sizes);
        if starts_with(vols.last().name@, prefix) {
            prev.push(volume_entry(vols.last(), sizes))
        } else {
            prev
        }
    }
}

pub open spec fn volume_view(v: AppVolume) -> (Seq<char>, bool, Option<i64>) {
    (v.path@, v.is_managed, v.size_bytes)
}

fn size_lookup(sizes: &Vec<(String, i64)>, name: &[char]) -> (r: Option<i64>)
    ensures
        r == size_of(sizes@, name@),
{
    let mut k = sizes.len();
    proof {
        assert(sizes@.take(k as int) == sizes@);
    }
    while k > 0
        invariant
            k <= sizes@.len(),
            size_of(sizes@, name@) == size_of(sizes@.take(k as int), name@),
        decreases k,
    {
        proof {
            assert(sizes@.take(k as int).drop_last() == sizes@.take(k - 1));
            assert(sizes@.take(k as int).last() == sizes@[k - 1]);
        }
        let c = chars_of(sizes[k - 1].0.as_str());
        if chars_eq(c.as_slice(), name) {
            return Some(sizes[k - 1].1);
        }
        k = k - 1;
    }
    proof {
        assert(sizes@.take(0) == Seq::<(String, i64)>::empty());
    }
    None
}

/// The volumes of the application with id `app_id` among the volumes on the
/// node: those whose name starts with the application's volume prefix. Each
/// is known by its `path` label (by its name when it has none), is the
/// managed volume when that path is `/data`, and has the size recorded for
/// its name unless that is negative.
pub fn app_volumes(app_id: &str, vols: &Vec<VolumeListing>, sizes: &Vec<(String, i64)>) -> (r: Vec<AppVolume>)
    ensures
        r@.map_values(|v: AppVolume| volume_view(v)) == app_volumes_spec(app_volume_prefix_spec(app_id@), vols@, sizes@),
{
    let prefix = crate::docker::naming::app_volume_prefix(app_id);
    let pv = chars_of(prefix.as_str());
    let data = chars_of("/data");
    proof {
        reveal_strlit("/data");
    }
    let mut r: Vec<AppVolume> = Vec::new();
    let mut i: usize = 0;
    while i < vols.len()
        invariant
            i <= vols@.len(),
            pv@ == app_volume_prefix_spec(app_id@),
            data@ == "/data"@,
            r@.map_values(|v: AppVolume| volume_view(v)) == app_volumes_spec(pv@, vols@.take(i as int), sizes@),
        decreases vols@.len() - i,
    {
        proof {
            assert(vols@.take(i + 1).drop_last() == vols@.take(i as int));
            assert(vols@.take(i + 1).last() == vols@[i as int]);
        }
        let v = &vols[i];
        let name = chars_of(v.name.as_str());
        proof {
            assert(name@.subrange(0, name@.len() as int) == name@);
        }
        if starts_with_at(name.as_slice(), 0, pv.as_slice()) {
            let path = match &v.path_label {
                Some(p) => p.clone(),
                None => v.name.clone(),
            };
            let pc = chars_of(path.as_str());
            let is_managed = chars_eq(pc.as_slice(), data.as_slice());
            let size_bytes = match size_lookup(sizes, name.as_slice()) {
                Some(s) => if s >= 0 {
                    Some(s)
                } else {
                    None
                },
                None => None,
            };
            let ghost before = r@.map_values(|v: AppVolume| volume_view(v));
            let vol = AppVolume { path, is_managed, size_bytes };
            r.push(vol);
            proof {
                assert(r@.map_values(|v: AppVolume| volume_view(v)) == before.push(volume_entry(vols@[i as int], sizes@)));
            }
        }
        i = i + 1;
    }
    proof {
        assert(vols@.take(vols@.len() as int) == vols@);
    }
    r
}

} // verus!
