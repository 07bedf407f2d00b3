//! Names of an application's images, and which of them to keep.
use crate::models::{Deployment, DeploymentStatus};
use crate::text::lit;
use vstd::prelude::*;
use vstd::string::StringExecFns;
use vstd::seq_lib::lemma_seq_contains_after_push;

verus! {

/// How many deployments of an application keep their images.
pub open spec fn retained_images_per_app() -> nat {
    10
}

/// The image repository of an application: `slasha/<slug>`.
pub fn base_image_name(app_slug: &str) -> (r: String)
    ensures
        r@ == "slasha/"@ + app_slug@,
{
    let mut r = lit("slasha/");
    r.append(app_slug);
    r
}

pub open spec fn image_tag_spec(app_slug: Seq<char>, deployment_id: Seq<char>) -> Seq<char> {
    "slasha/"@ + app_slug + ":"@ + deployment_id
}

/// The image of one deployment: `slasha/<slug>:<deployment>`.
pub fn image_tag(app_slug: &str, deployment_id: &str) -> (r: String)
    ensures
        r@ == image_tag_spec(app_slug@, deployment_id@),
{
    let mut r = base_image_name(app_slug);
    r.append(":");
    r.append(deployment_id);
    r
}

/// The filter that lists every image of an application: `slasha/<slug>:*`.
pub fn image_reference_filter(app_slug: &str) -> (r: String)
    ensures
        r@ == "slasha/"@ + app_slug@ + ":*"@,
{
    let mut r = base_image_name(app_slug);
    r.append(":*");
    r
}

/// Whether a deployment's image is worth keeping: it runs or can run again.
pub open spec fn keeps_image(s: DeploymentStatus) -> bool {
    s == DeploymentStatus::Running || s == DeploymentStatus::Stopped
}

/// The image tags of the first `n` deployments (newest first) that keep
/// their images, among the first `k` deployments.
pub open spec fn kept_tags(app_slug: Seq<char>, deployments: Seq<Deployment>, k: int) -> Seq<Seq<char>>
    decreases k,
{
    if k <= 0 || k > deployments.len() {
        Seq::empty()
    } else {
        let prev = kept_tags(app_slug, deployments, k - 1);
        let d = deployments[k - 1];
        if keeps_image(d.status) && prev.len() < retained_images_per_app() {
            prev.push(image_tag_spec(app_slug, d.id@))
        } else {
            prev
        }
    }
}

/// The tags to remove: every listed tag that is not the image of one of the
/// ten newest deployments that are running or stopped, in listing order.
pub open spec fn prune_spec(keep: Seq<Seq<char>>, tags: Seq<Seq<char>>) -> Seq<Seq<char>>
    decreases tags.len(),
{
    if tags.len() == 0 {
        Seq::empty()
    } else {
        let prev = prune_spec(keep, tags.drop_last());
        if keep.contains(tags.last()) {
            prev
        } else {
            prev.push(tags.last())
        }
    }
}

fn contains_text(list: &Vec<String>, s: &str) -> (b: bool)
    ensures
        b == list@.map_values(|x: String| x@).contains(s@),
{
    let ghost lv = list@.map_values(|x: String| x@);
    let sv = crate::text::chars_of(s);
    let mut i: usize = 0;
    while i < list.len()
        invariant
            i <= list@.len(),
            lv == list@.map_values(|x: String| x@),
            sv@ == s@,
            forall|q: int| 0 <= q < i ==> lv[q] != s@,
        decreases list@.len() - i,
    {
        let c = crate::text::chars_of(list[i].as_str());
        if crate::text::chars_eq(c.as_slice(), sv.as_slice()) {
            assert(lv[i as int] == s@);
            return true;
        }
        i = i + 1;
    }
    false
}

/// The images to remove when pruning an application's images: `deployments`
/// lists the application's deployments newest first and `tags` the image
/// tags found on the node. The images of the ten newest running or stopped
/// deployments stay; every other tag is removed.
pub fn images_to_prune(app_slug: &str, deployments: &Vec<Deployment>, tags: &Vec<String>) -> (r: Vec<String>)
    ensures
        r@.map_values(|x: String| x@) == prune_spec(
            kept_tags(app_slug@, deployments@, deployments@.len() as int),
            tags@.map_values(|x: String| x@),
        ),
{
    let mut keep: Vec<String> = Vec::new();
    let mut k: usize = 0;
    while k < deployments.len()
        invariant
            k <= deployments@.len(),
            keep@.map_values(|x: String| x@) == kept_tags(app_slug@, deployments@, k as int),
        decreases deployments@.len() - k,
    {
        let d = &deployments[k];
        let keeps = d.status == DeploymentStatus::Running || d.status == DeploymentStatus::Stopped;
        if keeps && keep.len() < 10 {
            let ghost before = keep@.map_values(|x: String| x@);
            keep.push(image_tag(app_slug, d.id.as_str()));
            proof {
                assert(keep@.map_values(|x: String| x@) == before.push(image_tag_spec(app_slug@, d.id@)));
            }
        }
        k = k + 1;
    }
    let ghost kv = keep@.map_values(|x: String| x@);
    let ghost tv = tags@.map_values(|x: String| x@);
    let mut r: Vec<String> = Vec::new();
    let mut i: usize = 0;
    while i < tags.len()
        invariant
            i <= tags@.len(),
            kv == keep@.map_values(|x: String| x@),
            tv == tags@.map_values(|x: String| x@),
            r@.map_values(|x: String| x@) == prune_spec(kv, tv.take(i as int)),
        decreases tags@.len() - i,
    {
        proof {
            assert(tv.take(i + 1).drop_last() == tv.take(i as int));
            assert(tv.take(i + 1).last() == tags@[i as int]@);
        }
        if !contains_text(&keep, tags[i].as_str()) {
            let ghost before = r@.map_values(|x: String| x@);
            r.push(tags[i].clone());
            proof {
                assert(r@.map_values(|x: String| x@) == before.push(tags@[i as int]@));
            }
        }
        i = i + 1;
    }
    proof {
        assert(tv.take(tags@.len() as int) == tv);
    }
    r
}

proof fn lemma_prune_spec_members(keep: Seq<Seq<char>>, tags: Seq<Seq<char>>, t: Seq<char>)
    ensures
        prune_spec(keep, tags).contains(t) == (tags.contains(t) && !keep.contains(t)),
    decreases tags.len(),
{
    if tags.len() > 0 {
        lemma_prune_spec_members(keep, tags.drop_last(), t);
        let prev = prune_spec(keep, tags.drop_last());
        assert(tags == tags.drop_last().push(tags.last()));
        lemma_seq_contains_after_push(tags.drop_last(), tags.last(), t);
        lemma_seq_contains_after_push(prev, tags.last(), t);
    }
}

/// Pruning removes exactly the listed tags that are not kept: no kept image
/// is ever removed, and every other listed image is.
pub proof fn lemma_prune_removes_exactly_unkept(app_slug: Seq<char>, deployments: Seq<Deployment>, tags: Seq<Seq<char>>, t: Seq<char>)
    ensures
        prune_spec(kept_tags(app_slug, deployments, deployments.len() as int), tags).contains(t)
            == (tags.contains(t) && !kept_tags(app_slug, deployments, deployments.len() as int).contains(t)),
{
    lemma_prune_spec_members(kept_tags(app_slug, deployments, deployments.len() as int), tags, t);
}

} // verus!
