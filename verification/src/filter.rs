use vstd::prelude::*;

use crate::tags::TagMap;
use crate::text::{chars_of, has_prefix, slice_starts_with};

verus! {

/// Filter for lifecycle rules and object selection.
#[derive(Debug)]
pub struct Filter {
    /// Prefix that object keys must start with.
    pub prefix: Option<String>,
    /// Tags that objects must carry, with these values.
    pub tags: TagMap,
    /// Objects must be larger than this many bytes.
    pub object_size_greater_than: Option<u64>,
    /// Objects must be smaller than this many bytes.
    pub object_size_less_than: Option<u64>,
}

/// The view of an optional string.
pub open spec fn opt_view(s: Option<String>) -> Option<Seq<char>> {
    match s {
        Some(x) => Some(x@),
        None => None,
    }
}

impl Filter {
    /// The tag map is well formed.
    pub open spec fn wf(self) -> bool {
        self.tags.wf()
    }

    /// The object with this key, these tags and this size passes the filter: it starts with
    /// the prefix, carries every tag of the filter with the same value, and its size lies
    /// strictly between the bounds that are set.
    pub open spec fn spec_matches(
        self,
        key: Seq<char>,
        tags: Map<Seq<char>, Seq<char>>,
        size: u64,
    ) -> bool {
        &&& match self.prefix {
            Some(p) => has_prefix(key, p@),
            None => true,
        }
        &&& self.tags@.submap_of(tags)
        &&& match self.object_size_greater_than {
            Some(min) => size > min,
            None => true,
        }
        &&& match self.object_size_less_than {
            Some(max) => size < max,
            None => true,
        }
    }

    /// The filter sets nothing (and so passes every object).
    pub open spec fn spec_is_empty(self) -> bool {
        &&& self.prefix is None
        &&& self.tags@ == Map::<Seq<char>, Seq<char>>::empty()
        &&& self.object_size_greater_than is None
        &&& self.object_size_less_than is None
    }

    /// An empty filter.
    pub fn new() -> (r: Filter)
        ensures
            r.wf(),
            r.spec_is_empty(),
            r.tags.pairs().len() == 0,
    {
        Filter {
            prefix: None,
            tags: TagMap::new(),
            object_size_greater_than: None,
            object_size_less_than: None,
        }
    }

    /// Sets the prefix and returns a copy of the updated filter.
    pub fn with_prefix(&mut self, prefix: String) -> (r: Filter)
        requires
            old(self).wf(),
        ensures
            final(self).wf(),
            opt_view(final(self).prefix) == Some(prefix@),
            final(self).tags@ == old(self).tags@,
            final(self).object_size_greater_than == old(self).object_size_greater_than,
            final(self).object_size_less_than == old(self).object_size_less_than,
            r.same_as(*final(self)),
    {
        self.prefix = Some(prefix);
        self.clone()
    }

    /// Sets the tags and returns a copy of the updated filter.
    pub fn with_tags(&mut self, tags: TagMap) -> (r: Filter)
        requires
            old(self).wf(),
            tags.wf(),
        ensures
            final(self).wf(),
            final(self).tags@ == tags@,
            opt_view(final(self).prefix) == opt_view(old(self).prefix),
            final(self).object_size_greater_than == old(self).object_size_greater_than,
            final(self).object_size_less_than == old(self).object_size_less_than,
            r.same_as(*final(self)),
    {
        self.tags = tags;
        self.clone()
    }

    /// Sets both size bounds and returns a copy of the updated filter.
    pub fn with_size_constraints(&mut self, greater_than: Option<u64>, less_than: Option<u64>) -> (r:
        Filter)
        requires
            old(self).wf(),
        ensures
            final(self).wf(),
            final(self).object_size_greater_than == greater_than,
            final(self).object_size_less_than == less_than,
            opt_view(final(self).prefix) == opt_view(old(self).prefix),
            final(self).tags@ == old(self).tags@,
            r.same_as(*final(self)),
    {
        self.object_size_greater_than = greater_than;
        self.object_size_less_than = less_than;
        self.clone()
    }

    /// Two filters hold the same settings.
    pub open spec fn same_as(self, other: Filter) -> bool {
        &&& self.wf() == other.wf()
        &&& opt_view(self.prefix) == opt_view(other.prefix)
        &&& self.tags@ == other.tags@
        &&& self.tags.pairs() == other.tags.pairs()
        &&& self.object_size_greater_than == other.object_size_greater_than
        &&& self.object_size_less_than == other.object_size_less_than
    }

    /// The prefix, if set.
    pub fn get_prefix(&self) -> (r: Option<&String>)
        ensures
            match r {
                Some(p) => self.prefix matches Some(q) && p@ == q@,
                None => self.prefix is None,
            },
    {
        match &self.prefix {
            Some(p) => Some(p),
            None => None,
        }
    }

    /// The tags, unless there are none.
    pub fn get_tags(&self) -> (r: Option<TagMap>)
        requires
            self.wf(),
        ensures
            match r {
                Some(t) => t.wf() && t@ == self.tags@ && self.tags@.len() > 0,
                None => self.tags@.len() == 0,
            },
    {
        if self.tags.is_empty() {
            None
        } else {
            Some(self.tags.clone())
        }
    }

    /// The lower size bound, if set.
    pub fn get_object_size_greater_than(&self) -> (r: Option<u64>)
        ensures
            r == self.object_size_greater_than,
    {
        self.object_size_greater_than
    }

    /// The upper size bound, if set.
    pub fn get_object_size_less_than(&self) -> (r: Option<u64>)
        ensures
            r == self.object_size_less_than,
    {
        self.object_size_less_than
    }

    /// Whether the object with this key, these tags and this size passes the filter.
    pub fn matches(&self, key: &str, object_tags: &TagMap, object_size: u64) -> (r: bool)
        requires
            self.wf(),
            object_tags.wf(),
        ensures
            r == self.spec_matches(key@, object_tags@, object_size),
    {
        if let Some(prefix) = &self.prefix {
            let k = chars_of(key);
            let p = chars_of(prefix.as_str());
            if !slice_starts_with(k.as_slice(), p.as_slice()) {
                return false;
            }
        }
        if !self.tags.is_empty() {
            if !self.tags.is_contained_in(object_tags) {
                return false;
            }
        } else {
            assert(self.tags@.submap_of(object_tags@));
        }
        if let Some(min_size) = self.object_size_greater_than {
            if object_size <= min_size {
                return false;
            }
        }
        if let Some(max_size) = self.object_size_less_than {
            if object_size >= max_size {
                return false;
            }
        }
        true
    }

    /// Whether the filter sets nothing.
    pub fn is_empty(&self) -> (r: bool)
        requires
            self.wf(),
        ensures
            r == self.spec_is_empty(),
    {
        self.prefix.is_none() && self.tags.is_empty() && self.object_size_greater_than.is_none()
            && self.object_size_less_than.is_none()
    }
}

/// An empty filter passes every object.
pub proof fn lemma_empty_filter_matches_all(
    f: Filter,
    key: Seq<char>,
    tags: Map<Seq<char>, Seq<char>>,
    size: u64,
)
    requires
        f.wf(),
        f.spec_is_empty(),
    ensures
        f.spec_matches(key, tags, size),
{
    assert(f.tags@.submap_of(tags));
}

impl Clone for Filter {
    fn clone(&self) -> (r: Self)
        ensures
            r.same_as(*self),
    {
        let prefix = match &self.prefix {
            Some(p) => Some(p.clone()),
            None => None,
        };
        Filter {
            prefix,
            tags: self.tags.clone(),
            object_size_greater_than: self.object_size_greater_than,
            object_size_less_than: self.object_size_less_than,
        }
    }
}

impl Default for Filter {
    fn default() -> (r: Self)
        ensures
            r.wf(),
            r.spec_is_empty(),
    {
        Filter::new()
    }
}

} // verus!
