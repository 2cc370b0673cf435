use vstd::prelude::*;

verus! {

/// One image held by one move operation.
#[derive(Debug, Clone, Copy, PartialEq, Eq, Structural)]
pub struct ImageLock {
    pub image_id: i32,
    pub owner: u64,
}

/// Some entry of `s` holds image `img`.
pub open spec fn is_held(s: Seq<ImageLock>, img: i32) -> bool {
    exists|i: int| 0 <= i < s.len() && s[i].image_id == img
}

/// The operation that holds image `img` (meaningful when `is_held(s, img)`).
pub open spec fn owner_of(s: Seq<ImageLock>, img: i32) -> u64 {
    s[choose|i: int| 0 <= i < s.len() && s[i].image_id == img].owner
}

/// Each image is held at most once.
pub open spec fn images_unique(s: Seq<ImageLock>) -> bool {
    forall|i: int, j: int|
        0 <= i < s.len() && 0 <= j < s.len() && i != j ==> s[i].image_id != s[j].image_id
}

/// The images held, each with the operation that holds it.
pub open spec fn holders(s: Seq<ImageLock>) -> Map<i32, u64> {
    Map::new(|img: i32| is_held(s, img), |img: i32| owner_of(s, img))
}

proof fn lemma_owner_at(s: Seq<ImageLock>, k: int)
    requires
        images_unique(s),
        0 <= k < s.len(),
    ensures
        owner_of(s, s[k].image_id) == s[k].owner,
{
    let img = s[k].image_id;
    assert(is_held(s, img));
}

/// Which image is held by which move operation, so that moves of one image
/// run one after the other. Moves of different images do not wait on each
/// other.
pub struct ImageLocks {
    entries: Vec<ImageLock>,
}

impl View for ImageLocks {
    type V = Map<i32, u64>;

    closed spec fn view(&self) -> Map<i32, u64> {
        holders(self.entries@)
    }
}

impl ImageLocks {
    /// Every image is held at most once.
    pub closed spec fn wf(&self) -> bool {
        images_unique(self.entries@)
    }

    /// No image held.
    pub fn new() -> (r: ImageLocks)
        ensures
            r.wf(),
            r@ == Map::<i32, u64>::empty(),
    {
        let r = ImageLocks { entries: Vec::new() };
        assert(r@ =~= Map::<i32, u64>::empty());
        r
    }

    fn find(&self, image_id: i32) -> (r: Option<usize>)
        ensures
            match r {
                Some(k) => k < self.entries.len() && self.entries@[k as int].image_id == image_id,
                None => !is_held(self.entries@, image_id),
            },
    {
        let mut i: usize = 0;
        while i < self.entries.len()
            invariant
                i <= self.entries.len(),
                forall|k: int| 0 <= k < i ==> self.entries@[k].image_id != image_id,
            decreases self.entries.len() - i,
        {
            if self.entries[i].image_id == image_id {
                return Some(i);
            }
            i += 1;
        }
        None
    }

    /// The operation that holds `image_id`, if any.
    pub fn holder(&self, image_id: i32) -> (r: Option<u64>)
        requires
            self.wf(),
        ensures
            r is Some <==> self@.contains_key(image_id),
            r matches Some(o) ==> o == self@[image_id],
    {
        match self.find(image_id) {
            Some(k) => {
                proof {
                    lemma_owner_at(self.entries@, k as int);
                }
                Some(self.entries[k].owner)
            },
            None => None,
        }
    }

    /// Gives `image_id` to `owner` if nobody holds it; otherwise changes
    /// nothing. Returns whether it was given.
    pub fn try_acquire(&mut self, image_id: i32, owner: u64) -> (r: bool)
        requires
            old(self).wf(),
        ensures
            final(self).wf(),
            r == !old(self)@.contains_key(image_id),
            r ==> final(self)@ == old(self)@.insert(image_id, owner),
            !r ==> final(self)@ == old(self)@,
    {
        if self.find(image_id).is_some() {
            return false;
        }
        let ghost s0 = self.entries@;
        self.entries.push(ImageLock { image_id, owner });
        proof {
            let s1 = self.entries@;
            assert forall|i: int| 0 <= i < s0.len() implies s1[i] == s0[i] by {}
            assert forall|img: i32| #[trigger] is_held(s1, img) <==> is_held(s0, img) || img
                == image_id by {
                if is_held(s0, img) {
                    let i = choose|i: int| 0 <= i < s0.len() && s0[i].image_id == img;
                    assert(s1[i].image_id == img);
                }
                if img == image_id {
                    assert(s1[s0.len() as int].image_id == img);
                }
            }
            assert forall|img: i32| is_held(s1, img) implies #[trigger] owner_of(s1, img) == (
            if img == image_id {
                owner
            } else {
                owner_of(s0, img)
            }) by {
                let i = choose|i: int| 0 <= i < s1.len() && s1[i].image_id == img;
                lemma_owner_at(s1, i);
                if img != image_id {
                    lemma_owner_at(s0, i);
                } else {
                    lemma_owner_at(s1, s0.len() as int);
                }
            }
            assert(holders(s1) =~= holders(s0).insert(image_id, owner));
        }
        true
    }

    /// Gives `image_id` back if `owner` holds it; otherwise changes nothing.
    /// Returns whether it was given back.
    pub fn release(&mut self, image_id: i32, owner: u64) -> (r: bool)
        requires
            old(self).wf(),
        ensures
            final(self).wf(),
            r == (old(self)@.contains_key(image_id) && old(self)@[image_id] == owner),
            r ==> final(self)@ == old(self)@.remove(image_id),
            !r ==> final(self)@ == old(self)@,
    {
        let k = match self.find(image_id) {
            Some(k) => k,
            None => {
                return false;
            },
        };
        proof {
            lemma_owner_at(self.entries@, k as int);
        }
        if self.entries[k].owner != owner {
            return false;
        }
        let ghost s0 = self.entries@;
        self.entries.remove(k);
        proof {
            let s1 = self.entries@;
            assert forall|i: int| 0 <= i < s1.len() implies #[trigger] s1[i] == (if i < k {
                s0[i]
            } else {
                s0[i + 1]
            }) by {}
            assert forall|img: i32| #[trigger] is_held(s1, img) <==> is_held(s0, img) && img
                != image_id by {
                if is_held(s0, img) && img != image_id {
                    let i = choose|i: int| 0 <= i < s0.len() && s0[i].image_id == img;
                    assert(i != k);
                    let j = if i < k {
                        i
                    } else {
                        i - 1
                    };
                    assert(s1[j].image_id == img);
                }
                if is_held(s1, img) {
                    let j = choose|j: int| 0 <= j < s1.len() && s1[j].image_id == img;
                    let i = if j < k {
                        j
                    } else {
                        j + 1
                    };
                    assert(s0[i].image_id == img);
                }
            }
            assert forall|i: int, j: int|
                0 <= i < s1.len() && 0 <= j < s1.len() && i != j implies s1[i].image_id
                != s1[j].image_id by {
                let a = if i < k {
                    i
                } else {
                    i + 1
                };
                let b = if j < k {
                    j
                } else {
                    j + 1
                };
                assert(s0[a].image_id != s0[b].image_id);
            }
            assert forall|img: i32| is_held(s1, img) implies #[trigger] owner_of(s1, img)
                == owner_of(s0, img) by {
                let j = choose|j: int| 0 <= j < s1.len() && s1[j].image_id == img;
                lemma_owner_at(s1, j);
                let i = if j < k {
                    j
                } else {
                    j + 1
                };
                lemma_owner_at(s0, i);
            }
            assert(holders(s1) =~= holders(s0).remove(image_id));
        }
        true
    }
}

} // verus!
