//! Where the built files of the web application are.

use vstd::prelude::*;

use crate::path::{join_path, joined_path};

verus! {

/// The built files below a directory.
pub open spec fn web_dist(dir: Seq<char>) -> Seq<char> {
    join_path(join_path(dir, "web-app"@), "dist"@)
}

/// The built files below a directory.
pub fn web_dist_below(dir: &str) -> (r: String)
    ensures
        r@ == web_dist(dir@),
{
    joined_path(joined_path(dir, "web-app").as_str(), "dist")
}

/// A directory that may hold the built files, and whether it does.
pub struct WebDirCandidate<'a> {
    pub dir: &'a str,
    pub exists: bool,
}

/// Where the built files are: below the directory of the program, else below the base
/// directory, where they are there; else below the directory of the sources, whether or not
/// they are there.
pub fn resolve_web_dir(
    exe: Option<WebDirCandidate>,
    base: WebDirCandidate,
    source_dir: &str,
) -> (r: String)
    ensures
        r@ == (if exe is Some && exe->0.exists {
            web_dist(exe->0.dir@)
        } else if base.exists {
            web_dist(base.dir@)
        } else {
            web_dist(source_dir@)
        }),
{
    if let Some(candidate) = exe {
        if candidate.exists {
            return web_dist_below(candidate.dir);
        }
    }
    if base.exists {
        return web_dist_below(base.dir);
    }
    web_dist_below(source_dir)
}

/// The built files are two directories below the one that holds the application.
pub proof fn built_files_are_below_the_application(dir: Seq<char>)
    requires
        dir.len() > 0,
        dir.last() != '/',
    ensures
        web_dist(dir) == dir + "/web-app/dist"@,
{
    reveal_strlit("/");
    reveal_strlit("web-app");
    reveal_strlit("dist");
    reveal_strlit("/web-app/dist");
    assert("/"@.len() == 1 && "/"@[0] == '/');
    assert("web-app"@.len() == 7 && "web-app"@[0] == 'w' && "web-app"@[6] == 'p');
    assert("dist"@.len() == 4 && "dist"@[0] == 'd');
    let app = join_path(dir, "web-app"@);
    assert(app == dir + "/"@ + "web-app"@);
    assert(app.last() == 'p');
    assert("/web-app/dist"@ =~= "/"@ + "web-app"@ + "/"@ + "dist"@);
    assert(web_dist(dir) =~= dir + "/web-app/dist"@);
}

} // verus!
