//! The decisions of a tree copy: which directories remain to be listed,
//! and what each entry of a listed directory becomes in the copy.
use vstd::prelude::*;

use crate::naming::Naming;
use crate::replace::{substitute_all, substituted};

verus! {

/// The directory that the built-in base name lives in.
pub const DEFAULT_BASE_DIR: &'static str = "premiera_legal_entities";

/// The prefix of the directory made for a new name from the built-in base.
pub const TARGET_DIR_PREFIX: &'static str = "premiera_";

/// The built-in base name, singular.
pub const SINGULAR_BASE_NAME: &'static str = "legal_entity";

/// The built-in base name, plural.
pub const PLURAL_BASE_NAME: &'static str = "legal_entities";

/// The built-in base name in all its renderings.
pub fn default_base_naming() -> (r: Naming)
    ensures
        r.derived_from(SINGULAR_BASE_NAME@, PLURAL_BASE_NAME@),
{
    Naming::new(String::from_str(SINGULAR_BASE_NAME), String::from_str(PLURAL_BASE_NAME))
}

/// The name of the directory made for `target` from the built-in base: the
/// fixed prefix followed by the plural snake form.
pub fn default_target_dir(target: &Naming) -> (r: String)
    ensures
        r@ == TARGET_DIR_PREFIX@ + target.plural_snake@,
{
    String::from_str(TARGET_DIR_PREFIX).concat(target.plural_snake.as_str())
}

/// The path and contents that a file gets in the copy: both with every
/// rendering of `from` replaced by that of `to`.
pub fn rewrite_file(path: &str, contents: &str, from: &Naming, to: &Naming) -> (r: (String, String))
    ensures
        r.0@ == substituted(path@, *from, *to),
        r.1@ == substituted(contents@, *from, *to),
{
    (substitute_all(path, from, to), substitute_all(contents, from, to))
}

/// The directories of the source tree that are still to be listed, kept on
/// a stack so that the walk goes depth first without recursion.
pub struct TreeWalk {
    pending: Vec<String>,
}

impl TreeWalk {
    /// The paths still to be listed; the last one is listed next.
    pub closed spec fn pending(&self) -> Seq<Seq<char>> {
        self.pending@.map_values(|x: String| x@)
    }

    /// A walk that starts at `root`.
    pub fn new(root: String) -> (r: TreeWalk)
        ensures
            r.pending() == seq![root@],
    {
        let mut pending: Vec<String> = Vec::new();
        pending.push(root);
        let r = TreeWalk { pending };
        assert(r.pending() =~= seq![root@]);
        r
    }

    /// Takes the next directory to list, or `None` when the walk is over.
    pub fn next_dir(&mut self) -> (r: Option<String>)
        ensures
            old(self).pending().len() == 0 ==> r is None && final(self).pending() == old(
                self,
            ).pending(),
            old(self).pending().len() > 0 ==> r is Some && r->Some_0@ == old(self).pending().last()
                && final(self).pending() == old(self).pending().drop_last(),
    {
        let r = self.pending.pop();
        proof {
            if old(self).pending@.len() > 0 {
                assert(self.pending() =~= old(self).pending().drop_last());
            }
        }
        r
    }

    /// Records a subdirectory met in a listing: the source path is kept to
    /// be listed later, and the path of its copy is returned.
    pub fn enter_dir(&mut self, path: String, from: &Naming, to: &Naming) -> (r: String)
        ensures
            r@ == substituted(path@, *from, *to),
            final(self).pending() == old(self).pending().push(path@),
    {
        let target = substitute_all(path.as_str(), from, to);
        let ghost p = path@;
        self.pending.push(path);
        assert(self.pending() =~= old(self).pending().push(p));
        target
    }
}

} // verus!
