//! Custom animations: where an animation file is looked for.

use vstd::prelude::*;
use crate::store::{join_path, path_join};
use crate::instance::views;

verus! {

/// A request for an animation file.
pub struct AnimationRequest {
    /// File name of the animation.
    pub animation_name: String,
    /// Root directory of the instance.
    pub instance_path: String,
    pub is_premium: bool,
    /// The user asks for their own animations to win over the instance's.
    pub user_prioritized: bool,
}

/// Finds animation files.
pub struct AnimationService;

/// `<dir>/piconfig/animations/<name>`.
pub open spec fn animation_path_spec(dir: Seq<char>, name: Seq<char>) -> Seq<char> {
    path_join(path_join(path_join(dir, "piconfig"@), "animations"@), name)
}

fn animation_path(dir: &str, name: &str) -> (r: String)
    ensures
        r@ == animation_path_spec(dir@, name@),
{
    let p = join_path(dir, "piconfig");
    let a = join_path(p.as_str(), "animations");
    join_path(a.as_str(), name)
}

impl AnimationService {
    /// The files to try, in order: the user's own copy first only for a
    /// premium user who asks for it, else the instance's first.
    pub fn search_order(app_data_dir: &str, req: &AnimationRequest) -> (r: Vec<String>)
        ensures
            views(r@) == (if req.is_premium && req.user_prioritized {
                seq![
                    animation_path_spec(app_data_dir@, req.animation_name@),
                    animation_path_spec(req.instance_path@, req.animation_name@),
                ]
            } else {
                seq![
                    animation_path_spec(req.instance_path@, req.animation_name@),
                    animation_path_spec(app_data_dir@, req.animation_name@),
                ]
            }),
    {
        let user = animation_path(app_data_dir, req.animation_name.as_str());
        let pack = animation_path(req.instance_path.as_str(), req.animation_name.as_str());
        let mut r: Vec<String> = Vec::new();
        if req.is_premium && req.user_prioritized {
            r.push(user);
            r.push(pack);
        } else {
            r.push(pack);
            r.push(user);
        }
        assert(views(r@) =~= seq![r@[0]@, r@[1]@]);
        r
    }
}

} // verus!
