use vstd::prelude::*;

use object_store::memory::InMemory;
use object_store::path::Path as ObjectPath;
use object_store::ObjectStore as ApacheObjectStore;

use crate::text::has_prefix;

verus! {

/// `object_store`'s in-memory store.
#[verifier::external_type_specification]
#[verifier::external_body]
pub struct ExInMemory(InMemory);

/// `object_store::path::Path::from(s)` written out as a string: the path under which the
/// store files what is put at `s`.
#[verifier::external_body]
pub(crate) fn path_text(s: &str) -> (r: String)
    ensures
        r@ == object_path(s@),
{
    ObjectPath::from(s).to_string()
}

/// What an in-memory store holds: the bytes of each object, by path.
pub uninterp spec fn memory_contents(store: InMemory) -> Map<Seq<char>, Seq<u8>>;

/// The path that `object_store::path::Path::from(&str)` makes of a string: its non-empty
/// `/`-separated parts, each percent-encoded where `object_store` reserves characters,
/// joined by `/`.
pub uninterp spec fn object_path(s: Seq<char>) -> Seq<char>;

/// Why a call on the store failed.
#[derive(Debug, Clone, PartialEq)]
pub enum StoreFailure {
    /// No object at the path: the path that was looked up and the store's message.
    NotFound { path: String, message: String },
    /// Any other failure, with the store's message.
    Other(String),
}

/// `location` lies strictly below `prefix` in the path hierarchy (every non-empty path lies
/// below the empty prefix), which is what `InMemory::list` returns.
pub open spec fn listed_under(location: Seq<char>, prefix: Seq<char>) -> bool {
    if prefix.len() == 0 {
        location.len() > 0
    } else {
        has_prefix(location, prefix.push('/')) && location.len() > prefix.len() + 1
    }
}

/// `a` comes before `b` in the order of strings (by code point, a prefix first).
pub open spec fn str_less(a: Seq<char>, b: Seq<char>) -> bool
    decreases a.len(),
{
    if a.len() == 0 {
        b.len() > 0
    } else if b.len() == 0 {
        false
    } else if (a[0] as u32) < (b[0] as u32) {
        true
    } else if a[0] == b[0] {
        str_less(a.drop_first(), b.drop_first())
    } else {
        false
    }
}

/// Different characters have different code points.
proof fn lemma_code_points_differ(c: char, d: char)
    requires
        c != d,
    ensures
        (c as u32) != (d as u32),
{
    assert((c as int) != (d as int));
    assert(0 <= (c as int) <= 0x10FFFF);
}

/// The order of strings is transitive.
pub proof fn lemma_str_less_transitive(a: Seq<char>, b: Seq<char>, c: Seq<char>)
    requires
        str_less(a, b),
        str_less(b, c),
    ensures
        str_less(a, c),
    decreases a.len(),
{
    if a.len() > 0 && b.len() > 0 && c.len() > 0 && a[0] == b[0] && b[0] == c[0] {
        lemma_str_less_transitive(a.drop_first(), b.drop_first(), c.drop_first());
    }
}

/// Of two different strings, one comes before the other.
pub proof fn lemma_str_less_total(a: Seq<char>, b: Seq<char>)
    requires
        a != b,
    ensures
        str_less(a, b) || str_less(b, a),
    decreases a.len(),
{
    if a.len() > 0 && b.len() > 0 {
        if a[0] == b[0] {
            if a.drop_first() == b.drop_first() {
                assert(a =~= seq![a[0]] + a.drop_first());
                assert(b =~= seq![b[0]] + b.drop_first());
            }
            lemma_str_less_total(a.drop_first(), b.drop_first());
        } else {
            lemma_code_points_differ(a[0], b[0]);
        }
    } else if a.len() == 0 && b.len() == 0 {
        assert(a =~= b);
    }
}

/// Whether `a` comes before `b` in the order of strings.
pub fn string_less(a: &str, b: &str) -> (r: bool)
    ensures
        r == str_less(a@, b@),
{
    let x = crate::text::chars_of(a);
    let y = crate::text::chars_of(b);
    let mut i: usize = 0;
    assert(x@.skip(0) =~= x@);
    assert(y@.skip(0) =~= y@);
    while i < x.len() && i < y.len()
        invariant
            x@ == a@,
            y@ == b@,
            i <= x@.len(),
            i <= y@.len(),
            str_less(a@, b@) == str_less(x@.skip(i as int), y@.skip(i as int)),
        decreases x@.len() - i,
    {
        assert(x@.skip(i as int).drop_first() =~= x@.skip(i + 1));
        assert(y@.skip(i as int).drop_first() =~= y@.skip(i + 1));
        assert(x@.skip(i as int)[0] == x@[i as int]);
        assert(y@.skip(i as int)[0] == y@[i as int]);
        if x[i] != y[i] {
            return (x[i] as u32) < (y[i] as u32);
        }
        i = i + 1;
    }
    i < y.len()
}

/// An entry that a listing returns.
#[derive(Debug)]
pub struct ListedObject {
    pub location: String,
    pub size: u64,
    /// Modification time: whole seconds since the epoch.
    pub modified_secs: i64,
    /// Modification time: nanoseconds within the second.
    pub modified_nanos: u32,
    pub etag: Option<String>,
}

/// The path under which a listing looks: that of the prefix, or the root.
pub open spec fn listing_root(prefix: Option<Seq<char>>) -> Seq<char> {
    match prefix {
        Some(p) => object_path(p),
        None => Seq::empty(),
    }
}

/// The path under which a listing with this optional prefix looks.
pub open spec fn prefix_root(prefix: Option<&str>) -> Seq<char> {
    match prefix {
        Some(p) => object_path(p@),
        None => Seq::empty(),
    }
}

/// `listing` holds exactly the objects of `contents` below `root`, in increasing order of
/// their paths, each with its size.
pub open spec fn is_listing_of(
    listing: Seq<ListedObject>,
    contents: Map<Seq<char>, Seq<u8>>,
    root: Seq<char>,
) -> bool {
    &&& forall|i: int|
        0 <= i < listing.len() ==> {
            let o = #[trigger] listing[i];
            &&& contents.dom().contains(o.location@)
            &&& listed_under(o.location@, root)
            &&& o.size == contents[o.location@].len()
        }
    &&& forall|i: int, j: int|
        0 <= i < j < listing.len() ==> str_less(
            (#[trigger] listing[i]).location@,
            (#[trigger] listing[j]).location@,
        )
    &&& forall|k: Seq<char>|
        #[trigger] contents.dom().contains(k) && listed_under(k, root) ==> exists|i: int|
            0 <= i < listing.len() && (#[trigger] listing[i]).location@ == k
}

/// The contents of an empty store.
pub open spec fn no_objects() -> Map<Seq<char>, Seq<u8>> {
    Map::empty()
}

/// `InMemory::new`: an empty store.
#[verifier::external_body]
pub(crate) fn memory_new() -> (r: InMemory)
    ensures
        memory_contents(r) == no_objects(),
{
    InMemory::new()
}

/// `InMemory::put` at `Path::from(path)`: overwrites the object there with the bytes. The
/// in-memory store's put in overwrite mode does not fail.
#[verifier::external_body]
pub(crate) fn memory_put(store: &mut InMemory, path: &str, data: Vec<u8>)
    ensures
        memory_contents(*final(store)) == memory_contents(*old(store)).insert(object_path(path@), data@),
{
    let _ = futures::executor::block_on(store.put(&ObjectPath::from(path), data.into()));
}

/// `InMemory::get` at `Path::from(path)`, with the bytes collected: the bytes of the object,
/// or `NotFound` when there is none.
#[verifier::external_body]
pub(crate) fn memory_get(store: &InMemory, path: &str) -> (r: Result<Vec<u8>, StoreFailure>)
    ensures
        match r {
            Ok(d) => memory_contents(*store).dom().contains(object_path(path@)) && d@
                == memory_contents(*store)[object_path(path@)],
            Err(e) => !memory_contents(*store).dom().contains(object_path(path@)) && (e matches
                StoreFailure::NotFound { path: p, .. } && p@ == object_path(path@)),
        },
{
    let location = ObjectPath::from(path);
    match futures::executor::block_on(store.get(&location)) {
        Ok(found) => match futures::executor::block_on(found.bytes()) {
            Ok(b) => Ok(b.to_vec()),
            Err(e) => Err(StoreFailure::Other(e.to_string())),
        },
        Err(e) => {
            let message = e.to_string();
            match e {
                object_store::Error::NotFound { path: p, .. } => Err(StoreFailure::NotFound { path: p, message }),
                _ => Err(StoreFailure::Other(message)),
            }
        },
    }
}

/// `InMemory::head` at `Path::from(path)`: the size of the object, or `NotFound`.
#[verifier::external_body]
pub(crate) fn memory_head_size(store: &InMemory, path: &str) -> (r: Result<u64, StoreFailure>)
    ensures
        match r {
            Ok(n) => memory_contents(*store).dom().contains(object_path(path@)) && n
                == memory_contents(*store)[object_path(path@)].len(),
            Err(e) => !memory_contents(*store).dom().contains(object_path(path@)) && (e matches
                StoreFailure::NotFound { path: p, .. } && p@ == object_path(path@)),
        },
{
    match futures::executor::block_on(store.head(&ObjectPath::from(path))) {
        Ok(meta) => Ok(meta.size),
        Err(e) => {
            let message = e.to_string();
            match e {
                object_store::Error::NotFound { path: p, .. } => Err(StoreFailure::NotFound { path: p, message }),
                _ => Err(StoreFailure::Other(message)),
            }
        },
    }
}

/// `InMemory::delete` at `Path::from(path)`: removes the object there, if any; it does not
/// fail.
#[verifier::external_body]
pub(crate) fn memory_delete(store: &mut InMemory, path: &str)
    ensures
        memory_contents(*final(store)) == memory_contents(*old(store)).remove(object_path(path@)),
{
    let _ = futures::executor::block_on(store.delete(&ObjectPath::from(path)));
}

/// `InMemory::copy` from `Path::from(from)` to `Path::from(to)`: the object at `to` becomes a
/// copy of the one at `from`; `NotFound`, with nothing changed, when there is none at `from`.
#[verifier::external_body]
pub(crate) fn memory_copy(store: &mut InMemory, from: &str, to: &str) -> (r: Result<(), StoreFailure>)
    ensures
        match r {
            Ok(_) => memory_contents(*old(store)).dom().contains(object_path(from@))
                && memory_contents(*final(store)) == memory_contents(*old(store)).insert(
                object_path(to@),
                memory_contents(*old(store))[object_path(from@)],
            ),
            Err(e) => !memory_contents(*old(store)).dom().contains(object_path(from@)) && (e matches
                StoreFailure::NotFound { path: p, .. } && p@ == object_path(from@)) && memory_contents(
                *final(store),
            ) == memory_contents(*old(store)),
        },
{
    match futures::executor::block_on(store.copy(&ObjectPath::from(from), &ObjectPath::from(to))) {
        Ok(()) => Ok(()),
        Err(e) => {
            let message = e.to_string();
            match e {
                object_store::Error::NotFound { path: p, .. } => Err(StoreFailure::NotFound { path: p, message }),
                _ => Err(StoreFailure::Other(message)),
            }
        },
    }
}

/// `InMemory::list` under `Path::from(prefix)` (or the root), collected: the objects strictly
/// below the prefix, in the order of their paths, each with its path, size, modification time
/// and entity tag.
#[verifier::external_body]
pub(crate) fn memory_list(store: &InMemory, prefix: Option<&str>) -> (r: Result<Vec<ListedObject>, StoreFailure>)
    ensures
        match r {
            Ok(v) => is_listing_of(v@, memory_contents(*store), prefix_root(prefix)),
            Err(_) => false,
        },
{
    let root = prefix.map(ObjectPath::from);
    let listed = futures::executor::block_on(futures::TryStreamExt::try_collect::<Vec<_>>(
        store.list(root.as_ref()),
    ));
    match listed {
        Ok(items) => Ok(items.into_iter().map(|m| ListedObject {
            location: m.location.to_string(),
            size: m.size,
            modified_secs: m.last_modified.timestamp(),
            modified_nanos: m.last_modified.timestamp_subsec_nanos(),
            etag: m.e_tag,
        }).collect()),
        Err(e) => Err(StoreFailure::Other(e.to_string())),
    }
}

} // verus!
