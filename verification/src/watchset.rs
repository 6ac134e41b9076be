//! The watch configuration: the set of root directories to monitor and the
//! extension-to-category mapping that routes a new file. The mapping is
//! built by inverting a category-to-extensions listing; an extension
//! declared under two categories keeps the last declaration.

use vstd::prelude::*;
use crate::paths::{copy_bytes, bytes_eq, path_set_of, lemma_path_set_contains};

verus! {

/// One routing rule: files with this extension go to this category.
pub struct Rule {
    pub ext: Vec<u8>,
    pub category: Vec<u8>,
}

/// Roots to monitor, and the extension-to-category rules.
pub struct WatchSet {
    pub roots: Vec<Vec<u8>>,
    pub rules: Vec<Rule>,
}

/// Mathematical model of a `WatchSet`: a set of root paths and a map from
/// extension to category.
#[verifier::ext_equal]
pub struct WatchSetView {
    pub roots: Set<Seq<u8>>,
    pub rules: Map<Seq<u8>, Seq<u8>>,
}

/// The map a listing of rules denotes; a later rule for the same
/// extension overrides an earlier one.
pub open spec fn rules_map_of(rules: Seq<Rule>) -> Map<Seq<u8>, Seq<u8>>
    decreases rules.len(),
{
    if rules.len() == 0 {
        Map::empty()
    } else {
        rules_map_of(rules.drop_last()).insert(rules.last().ext@, rules.last().category@)
    }
}

impl View for WatchSet {
    type V = WatchSetView;

    open spec fn view(&self) -> WatchSetView {
        WatchSetView { roots: path_set_of(self.roots@), rules: rules_map_of(self.rules@) }
    }
}

/// The rules map after registering every extension of `exts` under
/// `category`, in order.
pub open spec fn register_exts(
    rules: Map<Seq<u8>, Seq<u8>>,
    category: Seq<u8>,
    exts: Seq<Vec<u8>>,
) -> Map<Seq<u8>, Seq<u8>>
    decreases exts.len(),
{
    if exts.len() == 0 {
        rules
    } else {
        register_exts(rules, category, exts.drop_last()).insert(exts.last()@, category)
    }
}

impl WatchSet {
    /// An empty configuration: nothing watched, nothing routed.
    pub fn new() -> (r: WatchSet)
        ensures
            r@.roots == Set::<Seq<u8>>::empty(),
            r@.rules == Map::<Seq<u8>, Seq<u8>>::empty(),
    {
        WatchSet { roots: Vec::new(), rules: Vec::new() }
    }

    /// Add one directory to the watched roots.
    pub fn add_root(&mut self, root: Vec<u8>)
        ensures
            final(self)@.roots == old(self)@.roots.insert(root@),
            final(self)@.rules == old(self)@.rules,
    {
        let ghost before = self.roots@;
        self.roots.push(root);
        proof {
            assert(self.roots@.drop_last() =~= before);
        }
    }

    /// Register a category with its extensions, as an inverted
    /// category-to-extensions listing hands them over: each extension is
    /// mapped to `category`, overriding any earlier rule for it.
    #[verifier::loop_isolation(false)]
    pub fn add_category(&mut self, category: &Vec<u8>, exts: &Vec<Vec<u8>>)
        ensures
            final(self)@.roots == old(self)@.roots,
            final(self)@.rules == register_exts(old(self)@.rules, category@, exts@),
    {
        let mut i: usize = 0;
        while i < exts.len()
            invariant
                i <= exts.len(),
                self.roots@ == old(self).roots@,
                rules_map_of(self.rules@) == register_exts(
                    old(self)@.rules,
                    category@,
                    exts@.subrange(0, i as int),
                ),
            decreases exts.len() - i,
        {
            let ghost before = self.rules@;
            let rule = Rule { ext: copy_bytes(&exts[i]), category: copy_bytes(category) };
            self.rules.push(rule);
            i = i + 1;
            proof {
                assert(self.rules@.drop_last() =~= before);
                assert(exts@.subrange(0, i as int).drop_last() =~= exts@.subrange(0, i - 1));
                assert(exts@.subrange(0, i as int).last() == exts@[i - 1]);
            }
        }
        proof {
            assert(exts@.subrange(0, exts@.len() as int) =~= exts@);
        }
    }

    /// Whether `dir` is one of the watched roots.
    #[verifier::loop_isolation(false)]
    pub fn is_root(&self, dir: &Vec<u8>) -> (r: bool)
        ensures
            r == self@.roots.contains(dir@),
    {
        proof {
            lemma_path_set_contains(self.roots@, dir@);
        }
        let mut i: usize = 0;
        while i < self.roots.len()
            invariant
                i <= self.roots.len(),
                forall|j: int| 0 <= j < i ==> self.roots@[j]@ != dir@,
            decreases self.roots.len() - i,
        {
            if bytes_eq(&self.roots[i], dir) {
                return true;
            }
            i = i + 1;
        }
        false
    }

    /// Category configured for `ext`, if any.
    #[verifier::loop_isolation(false)]
    pub fn lookup_rule(&self, ext: &Vec<u8>) -> (r: Option<Vec<u8>>)
        ensures
            match r {
                Some(c) => self@.rules.contains_key(ext@) && self@.rules[ext@] == c@,
                None => !self@.rules.contains_key(ext@),
            },
    {
        let ghost full = self.rules@;
        let mut i: usize = self.rules.len();
        proof {
            assert(full.subrange(0, full.len() as int) =~= full);
        }
        while i > 0
            invariant
                i <= self.rules.len(),
                rules_map_of(full).contains_key(ext@) == rules_map_of(
                    full.subrange(0, i as int),
                ).contains_key(ext@),
                rules_map_of(full).contains_key(ext@) ==> rules_map_of(full)[ext@]
                    == rules_map_of(full.subrange(0, i as int))[ext@],
            decreases i,
        {
            i = i - 1;
            proof {
                assert(full.subrange(0, i + 1).drop_last() =~= full.subrange(0, i as int));
                assert(full.subrange(0, i + 1).last() == full[i as int]);
            }
            if bytes_eq(&self.rules[i].ext, ext) {
                return Some(copy_bytes(&self.rules[i].category));
            }
        }
        None
    }
}

} // verus!
