//! The emotes that are on screen now, and their expiry.

use vstd::prelude::*;
use crate::bitmap::Bitmap;

verus! {

/// An emote that chat asked for: the text it is drawn over, when it was
/// asked for, and its image.
#[derive(Clone, Debug)]
pub struct ActiveEmote {
    /// The text on screen that the emote covers, matched exactly.
    pub pattern: String,
    /// When the emote was added, in microseconds of the monotonic clock.
    pub created_at: u64,
    /// The emote's image, fetched once when the emote was added.
    pub image: Bitmap,
}

/// How long an emote stays on screen: ten seconds, in microseconds.
pub const EMOTE_LIFETIME: u64 = 10_000_000;

/// How long ago `emote` was added, at `now`; never negative.
pub open spec fn age(emote: ActiveEmote, now: int) -> int {
    if now >= emote.created_at { now - emote.created_at } else { 0 }
}

/// `emote` has been shown for less than its lifetime at `now`.
pub open spec fn is_fresh(emote: ActiveEmote, now: int) -> bool {
    age(emote, now) < EMOTE_LIFETIME
}

/// The emotes of `emotes` that are still fresh at `now`, in their order.
pub open spec fn fresh_at(emotes: Seq<ActiveEmote>, now: int) -> Seq<ActiveEmote> {
    emotes.filter(|e: ActiveEmote| is_fresh(e, now))
}

/// Whether `emote` is still fresh at `now`.
pub fn still_fresh(emote: &ActiveEmote, now: u64) -> (r: bool)
    ensures
        r == is_fresh(*emote, now as int),
{
    let age: u64 = if now >= emote.created_at { now - emote.created_at } else { 0 };
    age < EMOTE_LIFETIME
}

/// Filtering one more element of a sequence.
proof fn lemma_filter_extend<A>(s: Seq<A>, j: int, pred: spec_fn(A) -> bool)
    requires
        0 <= j < s.len(),
    ensures
        s.subrange(0, j + 1).filter(pred) == if pred(s[j]) {
            s.subrange(0, j).filter(pred).push(s[j])
        } else {
            s.subrange(0, j).filter(pred)
        },
{
    reveal(Seq::filter);
    assert(s.subrange(0, j + 1).drop_last() =~= s.subrange(0, j));
}

/// The emotes on screen, oldest first.
pub struct EmoteRegistry {
    pub emotes: Vec<ActiveEmote>,
}

impl EmoteRegistry {
    /// Every emote's image holds four bytes per pixel.
    pub open spec fn wf(&self) -> bool {
        forall|i: int| 0 <= i < self.emotes@.len() ==> (#[trigger] self.emotes@[i]).image.wf()
    }

    /// No emotes.
    pub fn new() -> (r: Self)
        ensures
            r.wf(),
            r.emotes@.len() == 0,
    {
        EmoteRegistry { emotes: Vec::new() }
    }

    /// How many emotes are on screen.
    pub fn len(&self) -> (r: usize)
        ensures
            r == self.emotes@.len(),
    {
        self.emotes.len()
    }

    /// Adds an emote over `pattern`, stamped with `now`.
    pub fn insert(&mut self, pattern: String, image: Bitmap, now: u64)
        requires
            old(self).wf(),
            image.wf(),
        ensures
            final(self).wf(),
            final(self).emotes@ == old(self).emotes@.push(
                ActiveEmote { pattern, created_at: now, image },
            ),
    {
        self.emotes.push(ActiveEmote { pattern, created_at: now, image });
    }

    /// Removes every emote that has been on screen for its whole lifetime at
    /// `now`; the others stay, in their order.
    pub fn expire(&mut self, now: u64)
        requires
            old(self).wf(),
        ensures
            final(self).wf(),
            final(self).emotes@ == fresh_at(old(self).emotes@, now as int),
            forall|i: int|
                0 <= i < old(self).emotes@.len() ==> (final(self).emotes@.contains(
                    #[trigger] old(self).emotes@[i],
                ) <==> is_fresh(old(self).emotes@[i], now as int)),
    {
        let ghost before = self.emotes@;
        let ghost pred = |e: ActiveEmote| is_fresh(e, now as int);
        let mut i: usize = 0;
        let ghost mut j: int = 0;
        assert(before.subrange(0, 0).filter(pred) =~= Seq::<ActiveEmote>::empty()) by {
            reveal(Seq::filter);
        }
        assert(before.subrange(0, before.len() as int) =~= before);
        while i < self.emotes.len()
            invariant
                0 <= j <= before.len(),
                i <= self.emotes@.len(),
                self.emotes@.len() - i == before.len() - j,
                self.emotes@.subrange(0, i as int) == before.subrange(0, j).filter(pred),
                self.emotes@.subrange(i as int, self.emotes@.len() as int)
                    == before.subrange(j, before.len() as int),
                forall|k: int| 0 <= k < before.len() ==> (#[trigger] before[k]).image.wf(),
                pred == (|e: ActiveEmote| is_fresh(e, now as int)),
            decreases self.emotes@.len() - i,
        {
            proof {
                lemma_filter_extend(before, j, pred);
                assert(self.emotes@[i as int] == before[j]) by {
                    assert(self.emotes@.subrange(i as int, self.emotes@.len() as int)[0]
                        == self.emotes@[i as int]);
                }
            }
            let ghost prev = self.emotes@;
            if still_fresh(&self.emotes[i], now) {
                i = i + 1;
                proof {
                    assert(self.emotes@.subrange(0, i as int) =~= prev.subrange(0, i - 1).push(
                        before[j],
                    ));
                    assert(self.emotes@.subrange(i as int, self.emotes@.len() as int)
                        =~= before.subrange(j + 1, before.len() as int)) by {
                        assert(prev.subrange(i - 1, prev.len() as int).drop_first()
                            =~= self.emotes@.subrange(i as int, self.emotes@.len() as int));
                        assert(before.subrange(j, before.len() as int).drop_first()
                            =~= before.subrange(j + 1, before.len() as int));
                    }
                }
            } else {
                self.emotes.remove(i);
                proof {
                    assert(self.emotes@.subrange(0, i as int) =~= prev.subrange(0, i as int));
                    assert(self.emotes@.subrange(i as int, self.emotes@.len() as int)
                        =~= before.subrange(j + 1, before.len() as int)) by {
                        assert(prev.subrange(i as int, prev.len() as int).drop_first()
                            =~= self.emotes@.subrange(i as int, self.emotes@.len() as int));
                        assert(before.subrange(j, before.len() as int).drop_first()
                            =~= before.subrange(j + 1, before.len() as int));
                    }
                }
            }
            proof {
                j = j + 1;
            }
        }
        proof {
            assert(self.emotes@.subrange(0, i as int) =~= self.emotes@);
            assert(before.subrange(0, j) =~= before);
            assert forall|k: int| 0 <= k < before.len() implies (self.emotes@.contains(
                #[trigger] before[k],
            ) <==> is_fresh(before[k], now as int)) by {
                if is_fresh(before[k], now as int) {
                    before.lemma_filter_contains(pred, k);
                }
                if self.emotes@.contains(before[k]) {
                    before.lemma_filter_contains_rev(pred, before[k]);
                }
            }
            assert forall|k: int| 0 <= k < self.emotes@.len() implies (
            #[trigger] self.emotes@[k]).image.wf() by {
                before.lemma_filter_contains_rev(pred, self.emotes@[k]);
                assert(self.emotes@.contains(self.emotes@[k]));
            }
        }
    }
}

} // verus!
