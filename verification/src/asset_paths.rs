//! The renderer's store of image paths, which the controller sends when it
//! starts a session.

use std::collections::HashMap;

use vstd::prelude::*;

use crate::value_store::insert_all;

verus! {

broadcast use vstd::std_specs::hash::group_hash_axioms;

/// The last entry of `s` that is `Some`, if any.
pub open spec fn last_some<T>(s: Seq<Option<T>>) -> Option<T>
    decreases s.len(),
{
    if s.len() == 0 {
        None
    } else if s.last() is Some {
        s.last()
    } else {
        last_some(s.drop_last())
    }
}

/// The path under which the renderer loads each image asset, by asset id.
pub struct WebAssetPathStore {
    map: HashMap<u128, String>,
}

impl WebAssetPathStore {
    pub closed spec fn paths_view(&self) -> Map<u128, String> {
        self.map@
    }

    /// The path of the image asset `id`, if the controller sent one.
    pub fn get(&self, id: u128) -> (r: Option<&String>)
        ensures
            r == (if self.paths_view().contains_key(id) { Some(&self.paths_view()[id]) } else { None }),
    {
        self.map.get(&id)
    }

    /// Takes the start messages of this frame, one entry per received
    /// message with the images of a start message and `None` for any other
    /// message. The last start message wins: the store then holds exactly
    /// its paths (a later path for the same id wins) and the controller is
    /// told that the assets are loaded. Without a start message nothing
    /// changes and nothing is sent.
    pub fn assets_received(&mut self, messages: Vec<Option<Vec<(u128, String)>>>) -> (loaded: bool)
        ensures
            loaded == last_some(messages@) is Some,
            final(self).paths_view() == match last_some(messages@) {
                Some(v) => insert_all(Map::empty(), v@),
                None => old(self).paths_view(),
            },
    {
        let ghost all = messages@;
        let mut last: Option<Vec<(u128, String)>> = None;
        for message in it: messages
            invariant
                all == it.seq(),
                last == last_some(it.seq().take(it.index())),
        {
            proof {
                assert(it.seq().take(it.index() + 1).drop_last() =~= it.seq().take(it.index() as int));
            }
            if message.is_some() {
                last = message;
            }
        }
        proof {
            assert(all.take(all.len() as int) =~= all);
        }
        let images = match last {
            Some(v) => v,
            None => return false,
        };
        self.map.clear();
        let ghost images_all = images@;
        for image in it: images
            invariant
                images_all == it.seq(),
                self.map@ == insert_all(Map::empty(), it.seq().take(it.index())),
        {
            let (id, path) = image;
            proof {
                assert(it.seq().take(it.index() + 1).drop_last() =~= it.seq().take(it.index() as int));
            }
            self.map.insert(id, path);
        }
        proof {
            assert(images_all.take(images_all.len() as int) =~= images_all);
        }
        true
    }
}

impl Default for WebAssetPathStore {
    /// No paths yet.
    fn default() -> (r: Self)
        ensures
            r.paths_view() == Map::<u128, String>::empty(),
    {
        WebAssetPathStore { map: HashMap::new() }
    }
}

/// The last start message wins: `last_some` is `None` exactly when no
/// entry is `Some`, and otherwise it is an entry of `s` after which every
/// entry is `None`.
pub proof fn law_last_start_message_wins<T>(s: Seq<Option<T>>)
    ensures
        last_some(s) is None <==> forall|j: int| 0 <= j < s.len() ==> s[j] is None,
        last_some(s) is Some ==> exists|i: int| 0 <= i < s.len() && s[i] == last_some(s)
            && forall|j: int| i < j < s.len() ==> #[trigger] s[j] is None,
    decreases s.len(),
{
    if s.len() > 0 {
        let init = s.drop_last();
        law_last_start_message_wins(init);
        assert forall|j: int| 0 <= j < init.len() implies init[j] == s[j] by {}
        if s.last() is Some {
            assert(s[s.len() - 1] == last_some(s));
        } else if last_some(init) is Some {
            let i = choose|i: int| 0 <= i < init.len() && init[i] == last_some(init)
                && forall|j: int| i < j < init.len() ==> #[trigger] init[j] is None;
            assert(s[i] == last_some(s));
            assert forall|j: int| i < j < s.len() implies #[trigger] s[j] is None by {
                if j < init.len() {
                    assert(init[j] is None);
                }
            }
        } else {
            assert forall|j: int| 0 <= j < s.len() implies s[j] is None by {
                if j < init.len() {
                    assert(init[j] is None);
                }
            }
        }
    }
}

} // verus!
