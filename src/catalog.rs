//! The table from an emote's text code to the identifier of its image.

use vstd::prelude::*;

verus! {

/// The identifier that `code` resolves to in `entries`: the last entry with
/// that code wins, as a later insertion replaces an earlier one.
pub open spec fn resolved(entries: Seq<(String, String)>, code: Seq<char>) -> Option<Seq<char>>
    decreases entries.len(),
{
    if entries.len() == 0 {
        None
    } else if entries.last().0@ == code {
        Some(entries.last().1@)
    } else {
        resolved(entries.drop_last(), code)
    }
}

/// Emote codes and their image identifiers, matched exactly.
pub struct EmoteCatalog {
    entries: Vec<(String, String)>,
}

impl EmoteCatalog {
    /// What `code` resolves to.
    pub closed spec fn spec_resolve(&self, code: Seq<char>) -> Option<Seq<char>> {
        resolved(self.entries@, code)
    }

    /// An empty catalog.
    pub fn new() -> (r: Self)
        ensures
            forall|code: Seq<char>| r.spec_resolve(code) is None,
    {
        EmoteCatalog { entries: Vec::new() }
    }

    /// Maps `code` to `id`, in place of what it mapped to before.
    pub fn insert(&mut self, code: String, id: String)
        ensures
            forall|c: Seq<char>|
                #[trigger] final(self).spec_resolve(c) == if c == code@ {
                    Some(id@)
                } else {
                    old(self).spec_resolve(c)
                },
    {
        let ghost before = self.entries@;
        self.entries.push((code, id));
        assert(self.entries@.drop_last() =~= before);
    }

    /// The image identifier of `code`, if the catalog has it.
    pub fn resolve(&self, code: &String) -> (r: Option<String>)
        ensures
            match r {
                Some(id) => self.spec_resolve(code@) == Some(id@),
                None => self.spec_resolve(code@) is None,
            },
    {
        let mut i: usize = self.entries.len();
        assert(self.entries@.subrange(0, i as int) =~= self.entries@);
        while i > 0
            invariant
                i <= self.entries@.len(),
                resolved(self.entries@, code@) == resolved(self.entries@.subrange(0, i as int), code@),
            decreases i,
        {
            proof {
                assert(self.entries@.subrange(0, i as int).drop_last()
                    =~= self.entries@.subrange(0, i - 1));
            }
            if self.entries[i - 1].0 == *code {
                return Some(self.entries[i - 1].1.clone());
            }
            i = i - 1;
        }
        None
    }
}

} // verus!
