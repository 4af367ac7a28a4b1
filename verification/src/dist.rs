//! Packaging: the arguments of the release build and where the results go.
use vstd::prelude::*;
use vstd::string::*;
use crate::paths::{join, parent, path_join, path_parent, views};

verus! {

/// The cargo argument that turns every feature on.
pub const ALL_FEATURES: &'static str = "--all-features";

/// Whether the program is built optimized or for debugging.
#[derive(Debug, Clone, Copy, PartialEq, Eq, Structural)]
pub enum Configuration {
    Release,
    Debug,
}

impl Default for Configuration {
    fn default() -> (r: Self)
        ensures
            r == Configuration::Release,
    {
        Configuration::Release
    }
}

impl Configuration {
    /// The cargo argument of the configuration.
    pub open spec fn spec_argument(self) -> Seq<char> {
        match self {
            Configuration::Release => "--release"@,
            Configuration::Debug => "--debug"@,
        }
    }
}

/// `--feature NAME` for each feature.
pub open spec fn feature_arguments(features: Seq<Seq<char>>) -> Seq<Seq<char>>
    decreases features.len(),
{
    if features.len() == 0 {
        Seq::empty()
    } else {
        feature_arguments(features.drop_last()).push("--feature "@ + features.last())
    }
}

/// The extra arguments of the build: every feature or the chosen ones, then
/// the configuration.
pub open spec fn spec_dist_arguments(all_features: bool, features: Seq<Seq<char>>, configuration: Configuration) -> Seq<Seq<char>> {
    (if all_features {
        seq![ALL_FEATURES@]
    } else {
        feature_arguments(features)
    }).push(configuration.spec_argument())
}

/// Whether the Nushell completions are built: when an argument enables the
/// `nushell` feature or every feature.
pub open spec fn spec_with_nushell(args: Seq<Seq<char>>) -> bool {
    exists|i: int| 0 <= i < args.len() && #[trigger] nushell_argument(args[i])
}

/// The argument ends with ` nushell` or is `--all-features`.
pub open spec fn nushell_argument(a: Seq<char>) -> bool {
    ||| (a.len() >= 8 && a.subrange(a.len() - 8, a.len() as int) == " nushell"@)
    ||| a == ALL_FEATURES@
}

/// The extra arguments of the build.
pub fn dist_arguments(all_features: bool, features: &Vec<String>, configuration: Configuration) -> (r: Vec<String>)
    ensures
        views(r@) == spec_dist_arguments(all_features, views(features@), configuration),
{
    let mut out: Vec<String> = Vec::new();
    if all_features {
        out.push(ALL_FEATURES.to_owned());
        assert(views(out@) =~= seq![ALL_FEATURES@]);
    } else {
        let mut i: usize = 0;
        while i < features.len()
            invariant
                i <= features@.len(),
                views(out@) == feature_arguments(views(features@).take(i as int)),
            decreases features.len() - i,
        {
            let mut a = "--feature ".to_owned();
            a.append(features[i].as_str());
            let ghost before = out@;
            out.push(a);
            proof {
                let t = views(features@).take(i + 1);
                assert(t.drop_last() =~= views(features@).take(i as int));
                assert(t.last() == features@[i as int]@);
                assert(views(out@) =~= views(before).push(a@));
            }
            i = i + 1;
        }
        assert(views(features@).take(features.len() as int) =~= views(features@));
    }
    let c = match configuration {
        Configuration::Release => "--release",
        Configuration::Debug => "--debug",
    };
    let ghost before = out@;
    out.push(c.to_owned());
    assert(views(out@) =~= views(before).push(configuration.spec_argument()));
    out
}

fn is_nushell_argument(a: &str) -> (r: bool)
    ensures
        r == nushell_argument(a@),
{
    let n = a.unicode_len();
    proof {
        reveal_strlit(" nushell");
    }
    let tail = n >= 8 && {
        let t = a.substring_char(n - 8, n).to_owned();
        t == " nushell".to_owned()
    };
    let all = {
        let t = a.to_owned();
        t == ALL_FEATURES.to_owned()
    };
    tail || all
}

/// Whether the Nushell completions are built.
pub fn with_nushell(args: &Vec<String>) -> (r: bool)
    ensures
        r == spec_with_nushell(views(args@)),
{
    let mut i: usize = 0;
    while i < args.len()
        invariant
            i <= args@.len(),
            forall|j: int| 0 <= j < i ==> !#[trigger] nushell_argument(views(args@)[j]),
        decreases args.len() - i,
    {
        if is_nushell_argument(args[i].as_str()) {
            assert(nushell_argument(views(args@)[i as int]));
            return true;
        }
        i = i + 1;
    }
    false
}

/// The project's root: the directory above the build tool's manifest directory.
pub fn project_root(manifest_dir: &str) -> (r: Option<String>)
    ensures
        match r {
            Some(p) => parent(manifest_dir@) == Some(p@),
            None => parent(manifest_dir@) is None,
        },
{
    path_parent(manifest_dir)
}

/// Where the package goes unless told: `target/dist` under the project's root.
pub fn default_dist_directory(manifest_dir: &str) -> (r: Option<String>)
    ensures
        match r {
            Some(p) => parent(manifest_dir@) matches Some(root) && p@ == join(root, "target/dist"@),
            None => parent(manifest_dir@) is None,
        },
{
    match project_root(manifest_dir) {
        Some(root) => Some(path_join(root.as_str(), "target/dist")),
        None => None,
    }
}

/// The name of the manual page of the subcommand `name`: `graft-NAME.1`.
pub fn manpage_file_name(name: &str) -> (r: String)
    ensures
        r@ == "graft-"@ + name@ + ".1"@,
{
    let mut r = "graft-".to_owned();
    r.append(name);
    r.append(".1");
    r
}

} // verus!
