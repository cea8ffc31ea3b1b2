//! Directory snapshots: the ids of one kind of asset found under a prefix,
//! and the two ways of walking them against a cache.

use vstd::prelude::*;
use vstd::string::StringExecFns;

verus! {

/// One entry of a directory listing, as the listing reports it.
pub struct DirEntry {
    /// The file name without its extension, where it is valid text.
    pub stem: Option<String>,
    /// The extension of the file name, if it has one.
    pub extension: Option<String>,
    /// Whether the entry is a plain file.
    pub is_file: bool,
}

/// The extension of an entry; an entry without one has the empty extension.
pub open spec fn extension_of(e: DirEntry) -> Seq<char> {
    match e.extension {
        Some(x) => x@,
        None => Seq::empty(),
    }
}

/// The name an entry contributes to a snapshot with extension `ext`, or
/// `None` where the entry is skipped: another extension, no valid name, or
/// not a plain file. An entry the listing could not read is skipped too.
pub open spec fn entry_name(e: Option<DirEntry>, ext: Seq<char>) -> Option<Seq<char>> {
    match e {
        Some(e) => if extension_of(e) == ext && e.stem is Some && e.is_file {
            Some(e.stem->0@)
        } else {
            None
        },
        None => None,
    }
}

/// The id of `name` under `prefix`: joined by a dot, or `name` alone under
/// the empty prefix.
pub open spec fn id_under(prefix: Seq<char>, name: Seq<char>) -> Seq<char> {
    if prefix.len() == 0 {
        name
    } else {
        prefix + seq!['.'] + name
    }
}

/// The ids a snapshot of `entries` records, in listing order.
pub open spec fn listed_ids(prefix: Seq<char>, ext: Seq<char>, entries: Seq<Option<DirEntry>>) -> Seq<Seq<char>>
    decreases entries.len(),
{
    if entries.len() == 0 {
        Seq::empty()
    } else {
        let rest = listed_ids(prefix, ext, entries.drop_last());
        match entry_name(entries.last(), ext) {
            Some(name) => rest.push(id_under(prefix, name)),
            None => rest,
        }
    }
}

/// An id is recorded from a listing exactly when some entry of it
/// contributes a name whose id under `prefix` it is.
pub proof fn lemma_listed_ids_members(prefix: Seq<char>, ext: Seq<char>, entries: Seq<Option<DirEntry>>, id: Seq<char>)
    ensures
        listed_ids(prefix, ext, entries).contains(id) <==> exists|i: int|
            0 <= i < entries.len() && #[trigger] entry_name(entries[i], ext) is Some
                && id == id_under(prefix, entry_name(entries[i], ext)->0),
    decreases entries.len(),
{
    if entries.len() > 0 {
        let init = entries.drop_last();
        lemma_listed_ids_members(prefix, ext, init, id);
        let rest = listed_ids(prefix, ext, init);
        if listed_ids(prefix, ext, entries).contains(id) {
            match entry_name(entries.last(), ext) {
                Some(name) => {
                    if !rest.contains(id) {
                        let k = listed_ids(prefix, ext, entries).index_of(id);
                        assert(k == rest.len());
                        assert(entry_name(entries[entries.len() - 1], ext) is Some);
                    } else {
                        let i = choose|i: int| 0 <= i < init.len() && #[trigger] entry_name(init[i], ext) is Some
                            && id == id_under(prefix, entry_name(init[i], ext)->0);
                        assert(entries[i] == init[i]);
                    }
                },
                None => {
                    let i = choose|i: int| 0 <= i < init.len() && #[trigger] entry_name(init[i], ext) is Some
                        && id == id_under(prefix, entry_name(init[i], ext)->0);
                    assert(entries[i] == init[i]);
                },
            }
        }
        if exists|i: int| 0 <= i < entries.len() && #[trigger] entry_name(entries[i], ext) is Some
            && id == id_under(prefix, entry_name(entries[i], ext)->0) {
            let i = choose|i: int| 0 <= i < entries.len() && #[trigger] entry_name(entries[i], ext) is Some
                && id == id_under(prefix, entry_name(entries[i], ext)->0);
            if i == entries.len() - 1 {
                assert(listed_ids(prefix, ext, entries).last() == id);
            } else {
                assert(init[i] == entries[i]);
                assert(rest.contains(id));
                let k = rest.index_of(id);
                assert(listed_ids(prefix, ext, entries)[k] == id);
            }
        }
    }
}

/// Loading a directory twice, with no change to what it holds, records the
/// same ids: the same list where the listing came in the same order, and the
/// same set of ids whatever order it came in.
pub proof fn lemma_load_idempotent(
    prefix: Seq<char>,
    ext: Seq<char>,
    first_listing: Seq<Option<DirEntry>>,
    second_listing: Seq<Option<DirEntry>>,
    first: CachedDir,
    second: CachedDir,
)
    requires
        first_listing.to_set() == second_listing.to_set(),
        first@ == listed_ids(prefix, ext, first_listing),
        second@ == listed_ids(prefix, ext, second_listing),
    ensures
        first@.to_set() == second@.to_set(),
        first_listing == second_listing ==> first@ == second@,
{
    assert forall|id: Seq<char>| first@.contains(id) implies second@.contains(id) by {
        lemma_listed_ids_members(prefix, ext, first_listing, id);
        lemma_listed_ids_members(prefix, ext, second_listing, id);
        let i = choose|i: int| 0 <= i < first_listing.len() && #[trigger] entry_name(first_listing[i], ext) is Some
            && id == id_under(prefix, entry_name(first_listing[i], ext)->0);
        assert(first_listing.to_set().contains(first_listing[i]));
        let j = second_listing.index_of(first_listing[i]);
        assert(second_listing[j] == first_listing[i]);
    }
    assert forall|id: Seq<char>| second@.contains(id) implies first@.contains(id) by {
        lemma_listed_ids_members(prefix, ext, first_listing, id);
        lemma_listed_ids_members(prefix, ext, second_listing, id);
        let i = choose|i: int| 0 <= i < second_listing.len() && #[trigger] entry_name(second_listing[i], ext) is Some
            && id == id_under(prefix, entry_name(second_listing[i], ext)->0);
        assert(second_listing.to_set().contains(second_listing[i]));
        let j = first_listing.index_of(second_listing[i]);
        assert(first_listing[j] == second_listing[i]);
    }
    assert(first@.to_set() =~= second@.to_set());
}

/// The texts of a list of strings.
pub open spec fn texts(ids: Seq<String>) -> Seq<Seq<char>> {
    ids.map_values(|s: String| s@)
}

/// The id of `name` under `prefix`.
pub fn join_id(prefix: &str, name: &str) -> (r: String)
    ensures
        r@ == id_under(prefix@, name@),
{
    let mut id = prefix.to_owned();
    if !prefix.is_empty() {
        id.append(".");
        proof {
            reveal_strlit(".");
        }
    }
    id.append(name);
    id
}

/// The name `entry` contributes to a snapshot with extension `ext`.
fn selected_name<'b>(entry: &'b Option<DirEntry>, ext: &String) -> (r: Option<&'b String>)
    ensures
        match r {
            Some(name) => entry_name(*entry, ext@) == Some(name@),
            None => entry_name(*entry, ext@) is None,
        },
{
    match entry {
        Some(e) => {
            let ext_matches = match &e.extension {
                Some(x) => *x == *ext,
                None => ext.as_str().is_empty(),
            };
            if !ext_matches || !e.is_file {
                return None;
            }
            assert(extension_of(*e) =~= ext@);
            match &e.stem {
                Some(name) => Some(name),
                None => None,
            }
        },
        None => None,
    }
}

/// A list of ids that is never changed once built, so that any number of
/// readers may walk it at once without a lock.
struct StringList {
    list: Vec<String>,
}

impl StringList {
    fn from(vec: Vec<String>) -> (r: Self)
        ensures
            r.list@ == vec@,
    {
        StringList { list: vec }
    }

    fn into_iter(&self) -> (r: StringIter<'_>)
        ensures
            r.wf(),
            r.remaining() == self.list@,
    {
        StringIter { list: &self.list, pos: 0 }
    }
}

/// A forward cursor over a list of ids.
struct StringIter<'a> {
    list: &'a Vec<String>,
    pos: usize,
}

impl<'a> StringIter<'a> {
    spec fn wf(&self) -> bool {
        self.pos <= self.list@.len()
    }

    spec fn remaining(&self) -> Seq<String> {
        self.list@.subrange(self.pos as int, self.list@.len() as int)
    }

    fn next(&mut self) -> (r: Option<&'a String>)
        requires
            old(self).wf(),
        ensures
            final(self).wf(),
            old(self).remaining().len() == 0 ==> r is None && final(self).remaining() == old(self).remaining(),
            old(self).remaining().len() > 0 ==> r == Some(&old(self).remaining()[0])
                && final(self).remaining() == old(self).remaining().drop_first(),
    {
        if self.pos == self.list.len() {
            None
        } else {
            let s = &self.list[self.pos];
            self.pos = self.pos + 1;
            assert(self.remaining() =~= old(self).remaining().drop_first());
            Some(s)
        }
    }
}

/// A snapshot of a directory: the ids of one kind of asset found under a
/// prefix, in listing order. It never changes once built.
pub struct CachedDir {
    assets: StringList,
}

impl CachedDir {
    /// The ids of the snapshot.
    pub closed spec fn ids(&self) -> Seq<String> {
        self.assets.list@
    }

    /// The ids of the snapshot, as text.
    pub open spec fn view(&self) -> Seq<Seq<char>> {
        texts(self.ids())
    }

    /// Builds the snapshot of the ids under `prefix` with extension `ext`
    /// from a directory listing. Each recorded id is first handed to `warm`,
    /// which may load it into a cache; what that does is not looked at, and
    /// the id is recorded either way. A listing that failed is returned as
    /// the error.
    pub fn load<E, F: Fn(&str)>(
        prefix: &str,
        ext: &str,
        listing: Result<Vec<Option<DirEntry>>, E>,
        warm: &F,
    ) -> (r: Result<CachedDir, E>)
        requires
            forall|s: &str| warm.requires((s,)),
        ensures
            match (listing, r) {
                (Ok(entries), Ok(dir)) => dir@ == listed_ids(prefix@, ext@, entries@),
                (Err(e1), Err(e2)) => e1 == e2,
                _ => false,
            },
    {
        let entries = match listing {
            Ok(entries) => entries,
            Err(e) => return Err(e),
        };
        let ext = ext.to_owned();
        let mut loaded: Vec<String> = Vec::new();
        let mut i: usize = 0;
        while i < entries.len()
            invariant
                i <= entries@.len(),
                forall|s: &str| warm.requires((s,)),
                texts(loaded@) == listed_ids(prefix@, ext@, entries@.subrange(0, i as int)),
            decreases entries@.len() - i,
        {
            assert(entries@.subrange(0, i + 1).drop_last() =~= entries@.subrange(0, i as int));
            if let Some(name) = selected_name(&entries[i], &ext) {
                let id = join_id(prefix, name.as_str());
                warm(id.as_str());
                let ghost before = loaded@;
                let ghost text = id@;
                loaded.push(id);
                assert(texts(loaded@) =~= texts(before).push(text));
            }
            i = i + 1;
        }
        assert(entries@.subrange(0, entries@.len() as int) =~= entries@);
        Ok(CachedDir { assets: StringList::from(loaded) })
    }

    /// A reader over this snapshot.
    pub fn read(&self) -> (r: DirReader<'_>)
        ensures
            r.ids() == self.ids(),
    {
        DirReader { assets: &self.assets }
    }
}

/// A view of a snapshot, from which its ids can be walked against a cache.
pub struct DirReader<'a> {
    assets: &'a StringList,
}

impl<'a> Clone for DirReader<'a> {
    fn clone(&self) -> (r: Self)
        ensures
            r.ids() == self.ids(),
    {
        DirReader { assets: self.assets }
    }
}

impl<'a> Copy for DirReader<'a> {}

impl<'a> DirReader<'a> {
    /// The ids of the snapshot read.
    pub closed spec fn ids(&self) -> Seq<String> {
        self.assets.list@
    }

    /// A walk over the assets of the snapshot that a cache holds now. It
    /// makes no load: each id is only looked up.
    pub fn iter(&self) -> (r: ReadDir<'a>)
        ensures
            r.wf(),
            r.remaining() == self.ids(),
    {
        ReadDir { iter: self.assets.into_iter() }
    }

    /// A walk over every id of the snapshot, each with the result of loading
    /// it through a cache.
    pub fn iter_all(&self) -> (r: ReadAllDir<'a>)
        ensures
            r.wf(),
            r.remaining() == self.ids(),
    {
        ReadAllDir { iter: self.assets.into_iter() }
    }
}

/// Whether `load_cached` found nothing for each of the first `n` of `ids`.
pub open spec fn found_none<R, F: Fn(&String) -> Option<R>>(load_cached: &F, ids: Seq<String>, n: int) -> bool {
    forall|i: int| 0 <= i < n ==> load_cached.ensures((&ids[i],), None::<R>)
}

/// A walk over the assets of a snapshot that a cache holds.
pub struct ReadDir<'a> {
    iter: StringIter<'a>,
}

impl<'a> ReadDir<'a> {
    /// Whether the cursor lies within the snapshot.
    pub closed spec fn wf(&self) -> bool {
        self.iter.wf()
    }

    /// The ids not walked yet, in order.
    pub closed spec fn remaining(&self) -> Seq<String> {
        self.iter.remaining()
    }

    /// Looks up the next ids with `load_cached`, which must only look in the
    /// cache, and returns the first asset found. The ids looked up without
    /// success are passed over; `None` once no id is left.
    pub fn next<R, F: Fn(&String) -> Option<R>>(&mut self, load_cached: &F) -> (r: Option<R>)
        requires
            old(self).wf(),
            forall|s: &String| load_cached.requires((s,)),
        ensures
            final(self).wf(),
            ({
                let before = old(self).remaining();
                let after = final(self).remaining();
                let walked = before.len() - after.len();
                &&& 0 <= walked
                &&& after == before.subrange(walked, before.len() as int)
                &&& r is None ==> after.len() == 0
                &&& r is Some ==> walked > 0 && load_cached.ensures((&before[walked - 1],), r)
                &&& found_none(load_cached, before, walked - (if r is Some { 1int } else { 0 }))
            }),
    {
        let ghost before = self.remaining();
        loop
            invariant
                self.wf(),
                before == old(self).remaining(),
                forall|s: &String| load_cached.requires((s,)),
                self.remaining().len() <= before.len(),
                self.remaining() == before.subrange(
                    before.len() - self.remaining().len(),
                    before.len() as int,
                ),
                found_none(load_cached, before, before.len() - self.remaining().len()),
            decreases self.remaining().len(),
        {
            let ghost rem = self.remaining();
            match self.iter.next() {
                None => {
                    return None;
                },
                Some(id) => {
                    let found = load_cached(id);
                    assert(self.remaining() =~= before.subrange(
                        before.len() - self.remaining().len(),
                        before.len() as int,
                    ));
                    assert(before[before.len() - rem.len()] == rem[0]);
                    if found.is_some() {
                        return found;
                    }
                },
            }
        }
    }
}

/// A walk over every id of a snapshot, each with the result of loading it.
pub struct ReadAllDir<'a> {
    iter: StringIter<'a>,
}

impl<'a> ReadAllDir<'a> {
    /// Whether the cursor lies within the snapshot.
    pub closed spec fn wf(&self) -> bool {
        self.iter.wf()
    }

    /// The ids not walked yet, in order.
    pub closed spec fn remaining(&self) -> Seq<String> {
        self.iter.remaining()
    }

    /// Takes the next id and returns it with the result of `load` on it;
    /// `None` once no id is left.
    pub fn next<R, F: Fn(&String) -> R>(&mut self, load: &F) -> (r: Option<(&'a str, R)>)
        requires
            old(self).wf(),
            forall|s: &String| load.requires((s,)),
        ensures
            final(self).wf(),
            old(self).remaining().len() == 0 ==> r is None
                && final(self).remaining() == old(self).remaining(),
            old(self).remaining().len() > 0 ==> final(self).remaining()
                == old(self).remaining().drop_first() && match r {
                Some((id, result)) => id@ == old(self).remaining()[0]@
                    && load.ensures((&old(self).remaining()[0],), result),
                None => false,
            },
    {
        match self.iter.next() {
            None => None,
            Some(id) => {
                let result = load(id);
                Some((id.as_str(), result))
            },
        }
    }
}

} // verus!
