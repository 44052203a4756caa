//! The visual-resource cache for images.  The actual fetch and decode is an
//! external concern; callers look a URL up, fetch only on a miss, and store
//! the handle they obtained — a placeholder handle on failure — so that a
//! given URL is fetched at most once per cache lifetime.

use vstd::prelude::*;
use vstd::string::StringExecFns;

verus! {

/// A handle to a fetched visual resource, as the surrounding renderer knows
/// it.  `placeholder` is set when the fetch failed and a stand-in visual is
/// shown instead.
#[derive(Clone, Copy, Debug, PartialEq, Eq, Structural)]
pub struct ImageHandle {
    pub id: u64,
    pub placeholder: bool,
}

/// A key-value store from URLs to resource handles with insert-if-absent
/// discipline.  Its view is the map it holds.
pub struct ResourceCache {
    entries: Vec<(String, ImageHandle)>,
}

pub open spec fn entries_map(s: Seq<(String, ImageHandle)>) -> Map<Seq<char>, ImageHandle>
    decreases s.len(),
{
    if s.len() == 0 {
        Map::empty()
    } else {
        entries_map(s.drop_last()).insert(s.last().0@, s.last().1)
    }
}

impl View for ResourceCache {
    type V = Map<Seq<char>, ImageHandle>;

    closed spec fn view(&self) -> Map<Seq<char>, ImageHandle> {
        entries_map(self.entries@)
    }
}

impl ResourceCache {
    /// An empty cache.
    pub fn new() -> (c: ResourceCache)
        ensures
            c@ == Map::<Seq<char>, ImageHandle>::empty(),
    {
        ResourceCache { entries: Vec::new() }
    }

    /// The handle stored for `url`, or `None` when the URL was never
    /// inserted: on `None` the caller fetches and inserts the outcome.
    pub fn lookup(&self, url: &String) -> (r: Option<ImageHandle>)
        ensures
            r == if self@.contains_key(url@) {
                Some(self@[url@])
            } else {
                None::<ImageHandle>
            },
    {
        proof {
            assert(self.entries@.subrange(0, self.entries@.len() as int) =~= self.entries@);
        }
        let mut i: usize = self.entries.len();
        while i > 0
            invariant
                0 <= i <= self.entries@.len(),
                entries_map(self.entries@).contains_key(url@) == entries_map(
                    self.entries@.subrange(0, i as int),
                ).contains_key(url@),
                entries_map(self.entries@).contains_key(url@) ==> entries_map(
                    self.entries@,
                )[url@] == entries_map(self.entries@.subrange(0, i as int))[url@],
            decreases i,
        {
            proof {
                assert(self.entries@.subrange(0, i as int).drop_last() =~= self.entries@.subrange(
                    0,
                    i - 1,
                ));
                assert(self.entries@.subrange(0, i as int).last() == self.entries@[i - 1]);
            }
            let hit = self.entries[i - 1].0.eq(url);
            if hit {
                return Some(self.entries[i - 1].1);
            }
            i -= 1;
        }
        proof {
            assert(self.entries@.subrange(0, 0) =~= Seq::<(String, ImageHandle)>::empty());
        }
        None
    }

    /// Stores the handle obtained for `url`; a later handle for the same URL
    /// replaces the earlier one.
    pub fn insert(&mut self, url: String, handle: ImageHandle)
        ensures
            final(self)@ == old(self)@.insert(url@, handle),
    {
        self.entries.push((url, handle));
        proof {
            assert(self.entries@.drop_last() =~= old(self).entries@);
        }
    }
}

/// The hover tooltip of an image: the title with the URL in parentheses, or
/// the raw URL alone when there is no title.  It always carries the URL.
pub open spec fn spec_tooltip(title: Seq<char>, url: Seq<char>) -> Seq<char> {
    if title.len() == 0 {
        url
    } else {
        title + " ("@ + url + ")"@
    }
}

pub fn image_tooltip(title: &String, url: &String) -> (r: String)
    ensures
        r@ == spec_tooltip(title@, url@),
{
    if title.as_str().is_empty() {
        url.clone()
    } else {
        let mut r = title.clone();
        r.append(" (");
        r.append(url.as_str());
        r.append(")");
        r
    }
}

} // verus!
