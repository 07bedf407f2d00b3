//! How images are built: the commands run for a Dockerfile or a Railpack
//! build, and what the build log says.
use crate::docker::deployment::js_workspace::{manager_label, JsWorkspace};
use crate::text::{chars_of, lit, string_of, trim_start_char, trim_start_char_vec, views, words, words_vec};
use vstd::prelude::*;

verus! {

/// The Railpack frontend used when the installed Railpack does not say
/// its version.
pub open spec fn fallback_frontend() -> Seq<char> {
    "ghcr.io/railwayapp/railpack-frontend:latest"@
}

/// The BuildKit frontend matching the installed Railpack, from the output
/// of `railpack --version` (`None` when it could not be run or failed): the
/// frontend tagged with the last word of the output, without its leading
/// `v`s; the latest frontend when there is no such word.
pub open spec fn frontend_for(version_output: Option<Seq<char>>) -> Seq<char> {
    match version_output {
        None => fallback_frontend(),
        Some(out) => if words(out).len() == 0 {
            fallback_frontend()
        } else {
            "ghcr.io/railwayapp/railpack-frontend:v"@ + trim_start_char(words(out).last(), 'v')
        },
    }
}

/// The frontend image for a Railpack build (see `frontend_for`).
pub fn railpack_frontend(version_output: Option<String>) -> (r: String)
    ensures
        r@ == frontend_for(match version_output {
            Some(o) => Some(o@),
            None => None,
        }),
{
    match version_output {
        None => lit("ghcr.io/railwayapp/railpack-frontend:latest"),
        Some(out) => {
            let ws = words_vec(chars_of(out.as_str()).as_slice());
            if ws.len() == 0 {
                proof {
                    assert(words(out@).len() == ws@.len());
                }
                return lit("ghcr.io/railwayapp/railpack-frontend:latest");
            }
            let last = &ws[ws.len() - 1];
            proof {
                assert(words(out@).len() == ws@.len());
                assert(words(out@).last() == ws@.map_values(|x: Vec<char>| x@)[ws@.len() - 1]);
            }
            let version = trim_start_char_vec(last.as_slice(), 'v');
            let mut r = lit("ghcr.io/railwayapp/railpack-frontend:v");
            r.append(string_of(version.as_slice()).as_str());
            r
        },
    }
}

fn push_str(args: &mut Vec<String>, s: &str)
    ensures
        views(final(args)@) == views(old(args)@).push(s@),
{
    let ghost before = args@;
    args.push(lit(s));
    assert(views(args@) =~= views(before).push(s@));
}

/// The arguments of `git` that write a commit's tree as a tar archive.
pub fn git_archive_args(commit_sha: &str) -> (r: Vec<String>)
    ensures
        views(r@) == seq!["archive"@, "--format=tar"@, commit_sha@],
{
    let mut r: Vec<String> = Vec::new();
    assert(views(r@) =~= Seq::<Seq<char>>::empty());
    push_str(&mut r, "archive");
    push_str(&mut r, "--format=tar");
    push_str(&mut r, commit_sha);
    assert(views(r@) =~= seq!["archive"@, "--format=tar"@, commit_sha@]);
    r
}

/// The arguments of `docker` that build an image: plain progress, the
/// tag, the Dockerfile, the BuildKit syntax when one is given, and the
/// context directory last.
pub fn docker_build_args(image_tag: &str, dockerfile: &str, context_dir: &str, buildkit_syntax: Option<&str>) -> (r: Vec<String>)
    ensures
        views(r@) == seq!["build"@, "--progress"@, "plain"@, "-t"@, image_tag@, "-f"@, dockerfile@] + (match buildkit_syntax {
            Some(s) => seq!["--build-arg"@, "BUILDKIT_SYNTAX="@ + s@],
            None => Seq::empty(),
        }) + seq![context_dir@],
{
    let mut r: Vec<String> = Vec::new();
    assert(views(r@) =~= Seq::<Seq<char>>::empty());
    push_str(&mut r, "build");
    push_str(&mut r, "--progress");
    push_str(&mut r, "plain");
    push_str(&mut r, "-t");
    push_str(&mut r, image_tag);
    push_str(&mut r, "-f");
    push_str(&mut r, dockerfile);
    let ghost head = views(r@);
    match buildkit_syntax {
        Some(s) => {
            push_str(&mut r, "--build-arg");
            let mut a = lit("BUILDKIT_SYNTAX=");
            a.append(s);
            let ghost before = r@;
            r.push(a);
            assert(views(r@) =~= views(before).push(a@));
        },
        None => {},
    }
    push_str(&mut r, context_dir);
    assert(views(r@) =~= seq!["build"@, "--progress"@, "plain"@, "-t"@, image_tag@, "-f"@, dockerfile@] + (match buildkit_syntax {
        Some(s) => seq!["--build-arg"@, "BUILDKIT_SYNTAX="@ + s@],
        None => Seq::empty(),
    }) + seq![context_dir@]);
    r
}

/// The arguments of `railpack` that prepare a build plan: the context, where
/// to write the plan and the info, and, for a workspace package, its build
/// and start commands.
pub fn railpack_prepare_args(build_context: &str, plan_path: &str, info_path: &str, workspace: &Option<JsWorkspace>) -> (r: Vec<String>)
    ensures
        views(r@) == seq!["prepare"@, build_context@, "--plan-out"@, plan_path@, "--info-out"@, info_path@] + (match workspace {
            Some(w) => seq!["--build-cmd"@, w.build_command@, "--start-cmd"@, w.start_command@],
            None => Seq::empty(),
        }),
{
    let mut r: Vec<String> = Vec::new();
    assert(views(r@) =~= Seq::<Seq<char>>::empty());
    push_str(&mut r, "prepare");
    push_str(&mut r, build_context);
    push_str(&mut r, "--plan-out");
    push_str(&mut r, plan_path);
    push_str(&mut r, "--info-out");
    push_str(&mut r, info_path);
    match workspace {
        Some(w) => {
            push_str(&mut r, "--build-cmd");
            push_str(&mut r, w.build_command.as_str());
            push_str(&mut r, "--start-cmd");
            push_str(&mut r, w.start_command.as_str());
        },
        None => {},
    }
    assert(views(r@) =~= seq!["prepare"@, build_context@, "--plan-out"@, plan_path@, "--info-out"@, info_path@] + (match workspace {
        Some(w) => seq!["--build-cmd"@, w.build_command@, "--start-cmd"@, w.start_command@],
        None => Seq::empty(),
    }));
    r
}

/// The log line after a successful build: `Image built and tagged as <tag>`.
pub fn built_message(image_tag: &str) -> (m: String)
    ensures
        m@ == "Image built and tagged as "@ + image_tag@,
{
    let mut m = lit("Image built and tagged as ");
    m.append(image_tag);
    m
}

/// The log line before a Railpack build checks out its commit.
pub fn checkout_message(commit_sha: &str) -> (m: String)
    ensures
        m@ == "Checking out commit "@ + commit_sha@ + " to temp dir"@,
{
    let mut m = lit("Checking out commit ");
    m.append(commit_sha);
    m.append(" to temp dir");
    m
}

/// The log line when the application's directory is a package of a
/// JavaScript workspace, which is then built from the workspace root.
pub fn workspace_message(root_dir: &str, workspace: &JsWorkspace) -> (m: String)
    ensures
        m@ == "\""@ + root_dir@ + "\" is a "@ + manager_label(workspace.package_manager)
            + " workspace package; building from the workspace root"@,
{
    let mut m = lit("\"");
    m.append(root_dir);
    m.append("\" is a ");
    m.append(workspace.package_manager.label().as_str());
    m.append(" workspace package; building from the workspace root");
    m
}

} // verus!
