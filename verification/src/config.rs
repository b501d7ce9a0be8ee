//! The application configuration: the most-recently-used file list. The
//! surrounding layer persists it; only the list discipline lives here.

use vstd::prelude::*;

use std::collections::VecDeque;

verus! {

/// How many entries the most-recently-used list may reach before the
/// oldest is dropped.
pub const MRU_CAP: usize = 30;

#[derive(Debug)]
pub struct DiaryConfig {
    pub mru: VecDeque<String>,
}

/// What one update does to the list: over the cap the oldest entry
/// falls out, and a path not yet listed is appended at the back.
pub open spec fn spec_mru_update(mru: Seq<Seq<char>>, filepath: Seq<char>) -> Seq<Seq<char>> {
    let pre = if mru.len() > MRU_CAP {
        mru.drop_first()
    } else {
        mru
    };
    if pre.contains(filepath) {
        pre
    } else {
        pre.push(filepath)
    }
}

impl DiaryConfig {
    /// Record that a file was just used. The caller persists the changed
    /// configuration afterwards.
    pub fn update_mru_with(&mut self, filepath: String)
        ensures
            final(self).mru.deep_view() == spec_mru_update(old(self).mru.deep_view(), filepath@),
    {
        let ghost mru0 = self.mru.deep_view();
        if self.mru.len() > MRU_CAP {
            self.mru.pop_front();
            proof {
                assert(self.mru.deep_view() =~~= mru0.drop_first());
            }
        }
        let ghost pre = self.mru.deep_view();
        let n = self.mru.len();
        let mut i: usize = 0;
        let mut found = false;
        while i < n
            invariant
                i <= n,
                n == self.mru@.len(),
                pre == self.mru.deep_view(),
                !found ==> forall|j: int| 0 <= j < i ==> pre[j] != filepath@,
                found ==> pre.contains(filepath@),
            decreases n - i,
        {
            proof {
                assert(pre[i as int] == self.mru@[i as int]@);
            }
            let item: &String = &self.mru[i];
            if item.eq(&filepath) {
                found = true;
                proof {
                    assert(pre[i as int] == filepath@);
                    assert(pre.contains(filepath@));
                }
            }
            i = i + 1;
        }
        if !found {
            self.mru.push_back(filepath);
            proof {
                assert(!pre.contains(filepath@));
                assert(self.mru.deep_view() =~~= pre.push(filepath@));
            }
        }
    }
}

impl Default for DiaryConfig {
    /// An empty most-recently-used list.
    fn default() -> (r: DiaryConfig)
        ensures
            r.mru.deep_view() == Seq::<Seq<char>>::empty(),
    {
        let r = DiaryConfig { mru: VecDeque::new() };
        proof {
            assert(r.mru.deep_view() =~~= Seq::<Seq<char>>::empty());
        }
        r
    }
}

} // verus!
