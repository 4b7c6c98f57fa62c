//! The cache: a key-value store that holds copies of what the tables hold,
//! and the counters that live nowhere else. It is never the source of truth.

use vstd::prelude::*;
use vstd::string::*;
use crate::model::{CreateProjectView, PCreateProject, Project, ProjectView};
use crate::text::{same_text, signed_decimal, spec_signed_decimal};

verus! {

/// The key of a cache entry.
pub enum CacheKey {
    /// `project:{name}`: the record of a project.
    Project(String),
    /// `projects-by-owner:{owner}:offset{N}`: one page of an owner's projects.
    OwnerPage(String, i32),
    /// `project:{name}:path:{path}`: the content of a file, as base64 text.
    Path(String, String),
    /// `billing:requests:{name}`: the requests a project has served.
    Requests(String),
    /// `social:project-favorites:{name}`: the users who marked a project.
    Favorites(String),
}

/// The key of a cache entry, with its texts as sequences of characters.
pub enum CacheKeyView {
    Project(Seq<char>),
    OwnerPage(Seq<char>, i32),
    Path(Seq<char>, Seq<char>),
    Requests(Seq<char>),
    Favorites(Seq<char>),
}

impl View for CacheKey {
    type V = CacheKeyView;

    open spec fn view(&self) -> CacheKeyView {
        match self {
            CacheKey::Project(name) => CacheKeyView::Project(name@),
            CacheKey::OwnerPage(owner, offset) => CacheKeyView::OwnerPage(owner@, *offset),
            CacheKey::Path(name, path) => CacheKeyView::Path(name@, path@),
            CacheKey::Requests(name) => CacheKeyView::Requests(name@),
            CacheKey::Favorites(name) => CacheKeyView::Favorites(name@),
        }
    }
}

impl CacheKey {
    /// Whether two keys name the same entry.
    pub fn same(&self, other: &CacheKey) -> (r: bool)
        ensures
            r == (self@ == other@),
    {
        match (self, other) {
            (CacheKey::Project(a), CacheKey::Project(b)) => same_text(a.as_str(), b.as_str()),
            (CacheKey::OwnerPage(a, m), CacheKey::OwnerPage(b, n)) => *m == *n && same_text(
                a.as_str(),
                b.as_str(),
            ),
            (CacheKey::Path(a, p), CacheKey::Path(b, q)) => same_text(a.as_str(), b.as_str())
                && same_text(p.as_str(), q.as_str()),
            (CacheKey::Requests(a), CacheKey::Requests(b)) => same_text(a.as_str(), b.as_str()),
            (CacheKey::Favorites(a), CacheKey::Favorites(b)) => same_text(a.as_str(), b.as_str()),
            _ => false,
        }
    }
}

/// A family of keys that is dropped in one sweep.
pub enum CachePrefix {
    /// `projects-by-owner:{owner}:*`: every page of an owner's projects.
    OwnerPages(String),
    /// `project:{name}:*`: every file of a project.
    ProjectPaths(String),
}

/// A family of keys, with its text as a sequence of characters.
pub enum CachePrefixView {
    OwnerPages(Seq<char>),
    ProjectPaths(Seq<char>),
}

impl View for CachePrefix {
    type V = CachePrefixView;

    open spec fn view(&self) -> CachePrefixView {
        match self {
            CachePrefix::OwnerPages(owner) => CachePrefixView::OwnerPages(owner@),
            CachePrefix::ProjectPaths(name) => CachePrefixView::ProjectPaths(name@),
        }
    }
}

impl CachePrefixView {
    /// Whether a key belongs to the family.
    pub open spec fn covers(self, key: CacheKeyView) -> bool {
        match self {
            CachePrefixView::OwnerPages(owner) => key matches CacheKeyView::OwnerPage(o, _) && o
                == owner,
            CachePrefixView::ProjectPaths(name) => key matches CacheKeyView::Path(n, _) && n
                == name,
        }
    }

    /// The keys of the family.
    pub open spec fn keys(self) -> Set<CacheKeyView> {
        Set::new(|key: CacheKeyView| self.covers(key))
    }
}

impl CachePrefix {
    /// Whether a key belongs to the family.
    pub fn covers(&self, key: &CacheKey) -> (r: bool)
        ensures
            r == self@.covers(key@),
    {
        match (self, key) {
            (CachePrefix::OwnerPages(owner), CacheKey::OwnerPage(o, _)) => same_text(
                o.as_str(),
                owner.as_str(),
            ),
            (CachePrefix::ProjectPaths(name), CacheKey::Path(n, _)) => same_text(
                n.as_str(),
                name.as_str(),
            ),
            _ => false,
        }
    }
}

/// One page of a listing, each project by its view.
pub open spec fn page_views(page: Seq<PCreateProject>) -> Seq<CreateProjectView> {
    page.map_values(|p: PCreateProject| p@)
}

/// Copies one page of a listing.
pub fn clone_page(page: &Vec<PCreateProject>) -> (r: Vec<PCreateProject>)
    ensures
        r@ == page@,
{
    let mut out: Vec<PCreateProject> = Vec::new();
    let n: usize = page.len();
    let mut i: usize = 0;
    while i < n
        invariant
            n == page@.len(),
            i <= n,
            out@ == page@.take(i as int),
        decreases n - i,
    {
        out.push(page[i].clone());
        assert(page@.take(i + 1) =~= page@.take(i as int).push(page@[i as int]));
        i += 1;
    }
    assert(page@.take(n as int) =~= page@);
    out
}

/// What a cache entry holds.
pub enum CacheValue {
    Snapshot(Project),
    Page(Vec<PCreateProject>),
    Content(String),
    Count(i64),
}

/// What a cache entry holds, by its view.
pub enum CacheValueView {
    Snapshot(ProjectView),
    Page(Seq<CreateProjectView>),
    Content(Seq<char>),
    Count(i64),
}

impl View for CacheValue {
    type V = CacheValueView;

    open spec fn view(&self) -> CacheValueView {
        match self {
            CacheValue::Snapshot(p) => CacheValueView::Snapshot(p@),
            CacheValue::Page(page) => CacheValueView::Page(page_views(page@)),
            CacheValue::Content(c) => CacheValueView::Content(c@),
            CacheValue::Count(n) => CacheValueView::Count(*n),
        }
    }
}

impl Clone for CacheValue {
    fn clone(&self) -> (r: Self)
        ensures
            r@ == self@,
    {
        match self {
            CacheValue::Snapshot(p) => CacheValue::Snapshot(p.clone()),
            CacheValue::Page(page) => CacheValue::Page(clone_page(page)),
            CacheValue::Content(c) => CacheValue::Content(c.clone()),
            CacheValue::Count(n) => CacheValue::Count(*n),
        }
    }
}

/// One entry of the cache.
pub struct CacheEntry {
    pub key: CacheKey,
    pub value: CacheValue,
}

/// One entry of the cache, by its view.
pub struct CacheEntryView {
    pub key: CacheKeyView,
    pub value: CacheValueView,
}

impl View for CacheEntry {
    type V = CacheEntryView;

    open spec fn view(&self) -> CacheEntryView {
        CacheEntryView { key: self.key@, value: self.value@ }
    }
}

/// The entries of the cache, each by its view.
pub open spec fn entry_views(entries: Seq<CacheEntry>) -> Seq<CacheEntryView> {
    entries.map_values(|e: CacheEntry| e@)
}

/// The map a list of entries stands for: of two entries under one key the
/// later one counts.
pub open spec fn entries_map(entries: Seq<CacheEntryView>) -> Map<CacheKeyView, CacheValueView>
    decreases entries.len(),
{
    if entries.len() == 0 {
        Map::empty()
    } else {
        entries_map(entries.drop_last()).insert(entries.last().key, entries.last().value)
    }
}

/// The keys that one sweep drops: one key, or a family.
pub enum Swept {
    Key(CacheKeyView),
    Family(CachePrefixView),
}

impl Swept {
    /// Whether the sweep drops the key.
    pub open spec fn covers(self, key: CacheKeyView) -> bool {
        match self {
            Swept::Key(k) => key == k,
            Swept::Family(f) => f.covers(key),
        }
    }

    /// The keys that the sweep drops.
    pub open spec fn keys(self) -> Set<CacheKeyView> {
        Set::new(|key: CacheKeyView| self.covers(key))
    }

    /// The test that an entry passes which the sweep leaves.
    pub open spec fn keeps(self) -> spec_fn(CacheEntryView) -> bool {
        |e: CacheEntryView| !self.covers(e.key)
    }
}

/// Dropping the swept entries from the list drops the swept keys from the map.
pub proof fn lemma_filter_drops_keys(entries: Seq<CacheEntryView>, swept: Swept)
    ensures
        entries_map(entries.filter(swept.keeps())) == entries_map(entries).remove_keys(
            swept.keys(),
        ),
    decreases entries.len(),
{
    reveal(Seq::filter);
    if entries.len() == 0 {
        assert(entries_map(entries).remove_keys(swept.keys()) =~= Map::empty());
    } else {
        let front = entries.drop_last();
        let e = entries.last();
        lemma_filter_drops_keys(front, swept);
        if swept.covers(e.key) {
            assert(entries.filter(swept.keeps()) == front.filter(swept.keeps()));
            assert(entries_map(front).insert(e.key, e.value).remove_keys(swept.keys())
                =~= entries_map(front).remove_keys(swept.keys()));
        } else {
            assert(entries.filter(swept.keeps()) == front.filter(swept.keeps()).push(e));
            assert(front.filter(swept.keeps()).push(e).drop_last() =~= front.filter(
                swept.keeps(),
            ));
            assert(entries_map(front).insert(e.key, e.value).remove_keys(swept.keys())
                =~= entries_map(front).remove_keys(swept.keys()).insert(e.key, e.value));
        }
    }
}

/// What a sweep of one key, or else of a family, drops.
pub open spec fn spec_swept(key: Option<&CacheKey>, family: Option<&CachePrefix>) -> Swept {
    match key {
        Some(k) => Swept::Key(k@),
        None => Swept::Family(family.unwrap()@),
    }
}

/// The cache itself.
pub struct Cache {
    pub(crate) entries: Vec<CacheEntry>,
}

impl View for Cache {
    type V = Map<CacheKeyView, CacheValueView>;

    closed spec fn view(&self) -> Map<CacheKeyView, CacheValueView> {
        entries_map(entry_views(self.entries@))
    }
}

/// What `incr` leaves under a key: a counter goes up by one, unless it is at
/// its greatest value; a key that holds nothing gets the counter 1; an entry
/// that is no counter stays.
pub open spec fn spec_incr(held: Option<CacheValueView>) -> CacheValueView {
    match held {
        Some(CacheValueView::Count(n)) => CacheValueView::Count(
            if n < i64::MAX {
                (n + 1) as i64
            } else {
                n
            },
        ),
        Some(other) => other,
        None => CacheValueView::Count(1),
    }
}

/// What `decr` leaves under a key: a counter goes down by one, unless it is at
/// its least value; a key that holds nothing gets the counter -1; an entry
/// that is no counter stays.
pub open spec fn spec_decr(held: Option<CacheValueView>) -> CacheValueView {
    match held {
        Some(CacheValueView::Count(n)) => CacheValueView::Count(
            if n > i64::MIN {
                (n - 1) as i64
            } else {
                n
            },
        ),
        Some(other) => other,
        None => CacheValueView::Count(-1i64),
    }
}

/// What the cache holds under a key, if anything.
pub open spec fn held(map: Map<CacheKeyView, CacheValueView>, key: CacheKeyView) -> Option<
    CacheValueView,
> {
    if map.contains_key(key) {
        Some(map[key])
    } else {
        None
    }
}

/// The counter under a key; 0 where the key holds none.
pub open spec fn spec_count(map: Map<CacheKeyView, CacheValueView>, key: CacheKeyView) -> i64 {
    match held(map, key) {
        Some(CacheValueView::Count(n)) => n,
        _ => 0,
    }
}

impl Cache {
    /// An empty cache.
    pub fn new() -> (r: Self)
        ensures
            r@ == Map::<CacheKeyView, CacheValueView>::empty(),
    {
        let r = Cache { entries: Vec::new() };
        assert(entry_views(r.entries@) =~= Seq::empty());
        r
    }

    /// The place of the entry that counts under `key`.
    fn position(&self, key: &CacheKey) -> (r: Option<usize>)
        ensures
            match r {
                Some(i) => i < self.entries@.len() && self@.contains_key(key@) && self@[key@]
                    == self.entries@[i as int].value@,
                None => !self@.contains_key(key@),
            },
    {
        let ghost all = entry_views(self.entries@);
        let mut i: usize = self.entries.len();
        assert(all.take(i as int) =~= all);
        while i > 0
            invariant
                i <= self.entries@.len(),
                all == entry_views(self.entries@),
                held(entries_map(all), key@) == held(entries_map(all.take(i as int)), key@),
            decreases i,
        {
            let ghost upto = all.take(i as int);
            assert(upto.drop_last() =~= all.take(i - 1));
            assert(upto.last() == all[i - 1]);
            i -= 1;
            if self.entries[i].key.same(key) {
                return Some(i);
            }
        }
        assert(all.take(0) =~= Seq::empty());
        None
    }

    /// What the cache holds under `key`.
    pub fn get(&self, key: &CacheKey) -> (r: Option<CacheValue>)
        ensures
            match r {
                Some(v) => held(self@, key@) == Some(v@),
                None => held(self@, key@) is None,
            },
    {
        match self.position(key) {
            Some(i) => Some(self.entries[i].value.clone()),
            None => None,
        }
    }

    /// The counter under `key`; 0 where the key holds none.
    pub fn count(&self, key: &CacheKey) -> (r: i64)
        ensures
            r == spec_count(self@, key@),
    {
        match self.position(key) {
            Some(i) => match &self.entries[i].value {
                CacheValue::Count(n) => *n,
                _ => 0,
            },
            None => 0,
        }
    }

    /// Drops every entry whose key is swept.
    fn sweep(&mut self, key: Option<&CacheKey>, family: Option<&CachePrefix>)
        requires
            key is Some != family is Some,
        ensures
            final(self)@ == old(self)@.remove_keys(spec_swept(key, family).keys()),
    {
        let ghost swept = spec_swept(key, family);
        let ghost all = entry_views(self.entries@);
        let ghost done: int = 0;
        let mut i: usize = 0;
        assert(all.take(0).filter(swept.keeps()) =~= Seq::empty()) by {
            reveal(Seq::filter);
        }
        assert(all.skip(0) =~= all);
        while i < self.entries.len()
            invariant
                key is Some != family is Some,
                swept == spec_swept(key, family),
                0 <= done <= all.len(),
                i <= self.entries@.len(),
                entry_views(self.entries@).take(i as int) == all.take(done).filter(swept.keeps()),
                entry_views(self.entries@).skip(i as int) == all.skip(done),
            decreases self.entries@.len() - i,
        {
            let ghost now = entry_views(self.entries@);
            assert(now.skip(i as int).len() == now.len() - i);
            assert(all.skip(done).len() == all.len() - done);
            assert(done < all.len());
            assert(now[i as int] == now.skip(i as int)[0]);
            assert(all[done] == all.skip(done)[0]);
            assert(now[i as int] == all[done]);
            assert(all.take(done + 1) =~= all.take(done).push(all[done]));
            assert(all.take(done + 1).filter(swept.keeps()) == if swept.covers(all[done].key) {
                all.take(done).filter(swept.keeps())
            } else {
                all.take(done).filter(swept.keeps()).push(all[done])
            }) by {
                reveal(Seq::filter);
                assert(all.take(done + 1).drop_last() =~= all.take(done));
            }
            let hit = match key {
                Some(k) => self.entries[i].key.same(k),
                None => family.unwrap().covers(&self.entries[i].key),
            };
            if hit {
                self.entries.remove(i);
                assert(entry_views(self.entries@) =~= now.remove(i as int));
                assert(entry_views(self.entries@).take(i as int) =~= now.take(i as int));
                assert(now.remove(i as int).skip(i as int) =~= now.skip(i as int).skip(1));
                assert(all.skip(done + 1) =~= all.skip(done).skip(1));
                assert(entry_views(self.entries@).skip(i as int) =~= all.skip(done + 1));
            } else {
                assert(now.take(i + 1) =~= now.take(i as int).push(now[i as int]));
                assert(now.skip(i + 1) =~= now.skip(i as int).skip(1));
                assert(all.skip(done + 1) =~= all.skip(done).skip(1));
                i += 1;
            }
            proof {
                done = done + 1;
            }
        }
        proof {
            let now = entry_views(self.entries@);
            assert(now.take(i as int) =~= now);
            assert(now.skip(i as int).len() == 0);
            assert(done == all.len());
            assert(all.take(done) =~= all);
            lemma_filter_drops_keys(all, swept);
        }
    }

    /// Puts `value` under `key`, in place of what the key held.
    pub fn set(&mut self, key: CacheKey, value: CacheValue)
        ensures
            final(self)@ == old(self)@.insert(key@, value@),
    {
        self.sweep(Some(&key), None);
        let ghost before = entry_views(self.entries@);
        self.entries.push(CacheEntry { key, value });
        proof {
            let after = entry_views(self.entries@);
            assert(after.drop_last() =~= before);
            assert(old(self)@.remove_keys(Swept::Key(key@).keys()).insert(key@, value@)
                =~= old(self)@.insert(key@, value@));
        }
    }

    /// The same as `set`: the cache does not tell a first value from a later one.
    pub fn update(&mut self, key: CacheKey, value: CacheValue)
        ensures
            final(self)@ == old(self)@.insert(key@, value@),
    {
        self.set(key, value)
    }

    /// Drops what the cache holds under `key`.
    pub fn remove(&mut self, key: &CacheKey)
        ensures
            final(self)@ == old(self)@.remove(key@),
    {
        self.sweep(Some(key), None);
        assert(old(self)@.remove_keys(Swept::Key(key@).keys()) =~= old(self)@.remove(key@));
    }

    /// Drops every entry of a family of keys.
    pub fn remove_starting_with(&mut self, prefix: &CachePrefix)
        ensures
            final(self)@ == old(self)@.remove_keys(prefix@.keys()),
    {
        self.sweep(None, Some(prefix));
        assert(Swept::Family(prefix@).keys() =~= prefix@.keys());
    }

    /// Counts the counter under `key` up by one.
    pub fn incr(&mut self, key: CacheKey)
        ensures
            final(self)@ == old(self)@.insert(key@, spec_incr(held(old(self)@, key@))),
    {
        match self.get(&key) {
            Some(CacheValue::Count(n)) => {
                let next: i64 = if n < i64::MAX {
                    n + 1
                } else {
                    n
                };
                self.set(key, CacheValue::Count(next));
            },
            Some(_) => {
                assert(old(self)@.insert(key@, old(self)@[key@]) =~= old(self)@);
            },
            None => {
                self.set(key, CacheValue::Count(1));
            },
        }
    }

    /// Counts the counter under `key` down by one.
    pub fn decr(&mut self, key: CacheKey)
        ensures
            final(self)@ == old(self)@.insert(key@, spec_decr(held(old(self)@, key@))),
    {
        match self.get(&key) {
            Some(CacheValue::Count(n)) => {
                let next: i64 = if n > i64::MIN {
                    n - 1
                } else {
                    n
                };
                self.set(key, CacheValue::Count(next));
            },
            Some(_) => {
                assert(old(self)@.insert(key@, old(self)@[key@]) =~= old(self)@);
            },
            None => {
                self.set(key, CacheValue::Count(-1));
            },
        }
    }
}

impl CacheKeyView {
    /// The key as text, in the form in which a cache of strings holds it.
    pub open spec fn text(self) -> Seq<char> {
        match self {
            CacheKeyView::Project(name) => "project:"@ + name,
            CacheKeyView::OwnerPage(owner, offset) => "projects-by-owner:"@ + owner + ":offset"@
                + spec_signed_decimal(offset as int),
            CacheKeyView::Path(name, path) => "project:"@ + name + ":path:"@ + path,
            CacheKeyView::Requests(name) => "billing:requests:"@ + name,
            CacheKeyView::Favorites(name) => "social:project-favorites:"@ + name,
        }
    }
}

impl CachePrefixView {
    /// The pattern that the keys of the family match.
    pub open spec fn text(self) -> Seq<char> {
        match self {
            CachePrefixView::OwnerPages(owner) => "projects-by-owner:"@ + owner + ":*"@,
            CachePrefixView::ProjectPaths(name) => "project:"@ + name + ":*"@,
        }
    }
}

impl CacheKey {
    /// The key as text.
    pub fn render(&self) -> (r: String)
        ensures
            r@ == self@.text(),
    {
        match self {
            CacheKey::Project(name) => String::from_str("project:").concat(name.as_str()),
            CacheKey::OwnerPage(owner, offset) => String::from_str("projects-by-owner:").concat(
                owner.as_str(),
            ).concat(":offset").concat(signed_decimal(*offset).as_str()),
            CacheKey::Path(name, path) => String::from_str("project:").concat(name.as_str()).concat(
                ":path:",
            ).concat(path.as_str()),
            CacheKey::Requests(name) => String::from_str("billing:requests:").concat(name.as_str()),
            CacheKey::Favorites(name) => String::from_str("social:project-favorites:").concat(
                name.as_str(),
            ),
        }
    }
}

impl CachePrefix {
    /// The pattern as text.
    pub fn render(&self) -> (r: String)
        ensures
            r@ == self@.text(),
    {
        match self {
            CachePrefix::OwnerPages(owner) => String::from_str("projects-by-owner:").concat(
                owner.as_str(),
            ).concat(":*"),
            CachePrefix::ProjectPaths(name) => String::from_str("project:").concat(
                name.as_str(),
            ).concat(":*"),
        }
    }
}

} // verus!
