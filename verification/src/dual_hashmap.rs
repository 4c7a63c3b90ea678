//! The page index: every loaded page reachable by its file path and by its
//! route, with both indexes kept in step by every change.
use vstd::prelude::*;
use vstd::hash_map::StringHashMap;

use std::sync::Arc;

use crate::page::Page;

verus! {

/// Why a page was not added to the index.
#[derive(Debug)]
pub enum DualHashmapError {
    /// A page from the same file is already indexed.
    DuplicateFile(String),
    /// The route is already served by the page from `file_path`.
    DuplicateUri { uri_path: String, file_path: String },
}

/// The pages of the blog, indexed by file path and by route.
///
/// Both indexes are views of one list of pages in which no two pages share a
/// file path and no two share a route; every change keeps them in step.
pub struct DualHashmap {
    file_path_to_page: StringHashMap<Arc<Page>>,
    uri_path_to_page: StringHashMap<Arc<Page>>,
    pages: Vec<Arc<Page>>,
}

/// A page's file path.
pub open spec fn file_key(page: Arc<Page>) -> Seq<char> {
    page.file_path@
}

/// A page's route.
pub open spec fn uri_key(page: Arc<Page>) -> Seq<char> {
    page.uri_path@
}

/// The map from `key` of each page in `pages` to that page, later pages
/// replacing earlier ones with the same key.
pub open spec fn keyed(pages: Seq<Arc<Page>>, key: spec_fn(Arc<Page>) -> Seq<char>) -> Map<
    Seq<char>,
    Arc<Page>,
>
    decreases pages.len(),
{
    if pages.len() == 0 {
        Map::empty()
    } else {
        keyed(pages.drop_last(), key).insert(key(pages.last()), pages.last())
    }
}

/// No two pages of `pages` have the same `key`.
pub open spec fn distinct_keys(pages: Seq<Arc<Page>>, key: spec_fn(Arc<Page>) -> Seq<char>) -> bool {
    forall|i: int, j: int| 0 <= i < j < pages.len() ==> key(#[trigger] pages[i]) != key(
        #[trigger] pages[j],
    )
}

/// The two indexes describe the same pages: each page is filed under its own
/// file path and its own route, and can be reached through either index.
pub open spec fn indexes_agree(
    by_file: Map<Seq<char>, Arc<Page>>,
    by_uri: Map<Seq<char>, Arc<Page>>,
) -> bool {
    &&& forall|f: Seq<char>| #[trigger]
        by_file.contains_key(f) ==> {
            &&& by_file[f].file_path@ == f
            &&& by_uri.contains_key(by_file[f].uri_path@)
            &&& by_uri[by_file[f].uri_path@] == by_file[f]
        }
    &&& forall|u: Seq<char>| #[trigger]
        by_uri.contains_key(u) ==> {
            &&& by_uri[u].uri_path@ == u
            &&& by_file.contains_key(by_uri[u].file_path@)
            &&& by_file[by_uri[u].file_path@] == by_uri[u]
        }
}

/// A key is in `keyed(pages, key)` exactly when some page has it, and with
/// distinct keys each page is what its key maps to.
pub proof fn lemma_keyed(pages: Seq<Arc<Page>>, key: spec_fn(Arc<Page>) -> Seq<char>)
    ensures
        forall|k: Seq<char>| #[trigger]
            keyed(pages, key).contains_key(k) <==> exists|j: int|
                0 <= j < pages.len() && key(#[trigger] pages[j]) == k,
        distinct_keys(pages, key) ==> forall|j: int|
            0 <= j < pages.len() ==> #[trigger] keyed(pages, key)[key(pages[j])] == pages[j],
    decreases pages.len(),
{
    if pages.len() > 0 {
        let init = pages.drop_last();
        let last = pages.last();
        lemma_keyed(init, key);
        assert(keyed(pages, key) == keyed(init, key).insert(key(last), last));
        assert(pages[pages.len() - 1] == last);
        assert forall|k: Seq<char>| #[trigger]
            keyed(pages, key).contains_key(k) <==> exists|j: int|
                0 <= j < pages.len() && key(#[trigger] pages[j]) == k by {
            if keyed(pages, key).contains_key(k) {
                if k != key(last) {
                    assert(keyed(init, key).contains_key(k));
                    let j = choose|j: int| 0 <= j < init.len() && key(#[trigger] init[j]) == k;
                    assert(pages[j] == init[j]);
                }
            }
            if exists|j: int| 0 <= j < pages.len() && key(#[trigger] pages[j]) == k {
                let j = choose|j: int| 0 <= j < pages.len() && key(#[trigger] pages[j]) == k;
                if j < init.len() {
                    assert(init[j] == pages[j]);
                    assert(keyed(init, key).contains_key(k));
                }
            }
        }
        if distinct_keys(pages, key) {
            assert(distinct_keys(init, key)) by {
                assert forall|i: int, j: int| 0 <= i < j < init.len() implies key(
                    #[trigger] init[i],
                ) != key(#[trigger] init[j]) by {
                    assert(init[i] == pages[i] && init[j] == pages[j]);
                }
            }
            assert forall|j: int| 0 <= j < pages.len() implies #[trigger] keyed(pages, key)[key(
                pages[j],
            )] == pages[j] by {
                if j < pages.len() - 1 {
                    assert(init[j] == pages[j]);
                    assert(key(pages[j]) != key(pages[pages.len() - 1]));
                    assert(keyed(init, key)[key(init[j])] == init[j]);
                }
            }
        }
    }
}

/// Removing the page at `i` from a list with distinct keys removes its key from
/// the keyed map and leaves every other entry.
pub proof fn lemma_keyed_remove(
    pages: Seq<Arc<Page>>,
    key: spec_fn(Arc<Page>) -> Seq<char>,
    i: int,
)
    requires
        0 <= i < pages.len(),
        distinct_keys(pages, key),
    ensures
        keyed(pages.remove(i), key) == keyed(pages, key).remove(key(pages[i])),
    decreases pages.len(),
{
    let init = pages.drop_last();
    assert(distinct_keys(init, key)) by {
        assert forall|a: int, b: int| 0 <= a < b < init.len() implies key(#[trigger] init[a])
            != key(#[trigger] init[b]) by {
            assert(init[a] == pages[a] && init[b] == pages[b]);
        }
    }
    if i == pages.len() - 1 {
        assert(pages.remove(i) =~= init);
        lemma_keyed(init, key);
        assert(!keyed(init, key).contains_key(key(pages[i]))) by {
            if keyed(init, key).contains_key(key(pages[i])) {
                let j = choose|j: int| 0 <= j < init.len() && key(#[trigger] init[j]) == key(
                    pages[i],
                );
                assert(init[j] == pages[j]);
            }
        }
        assert(keyed(pages.remove(i), key) =~= keyed(pages, key).remove(key(pages[i])));
    } else {
        lemma_keyed_remove(init, key, i);
        let removed = pages.remove(i);
        assert(removed.drop_last() =~= init.remove(i));
        assert(removed.last() == pages.last());
        assert(key(pages[i]) != key(pages.last())) by {
            assert(pages[pages.len() - 1] == pages.last());
        }
        assert(init[i] == pages[i]);
        assert(keyed(removed, key) =~= keyed(pages, key).remove(key(pages[i])));
    }
}

/// Adding a page whose key no page has keeps the keys distinct.
pub proof fn lemma_distinct_push(
    pages: Seq<Arc<Page>>,
    key: spec_fn(Arc<Page>) -> Seq<char>,
    page: Arc<Page>,
)
    requires
        distinct_keys(pages, key),
        !keyed(pages, key).contains_key(key(page)),
    ensures
        distinct_keys(pages.push(page), key),
{
    lemma_keyed(pages, key);
    let pushed = pages.push(page);
    assert forall|i: int, j: int| 0 <= i < j < pushed.len() implies key(#[trigger] pushed[i])
        != key(#[trigger] pushed[j]) by {
        assert(pushed[i] == pages[i]);
        if j < pages.len() {
            assert(pushed[j] == pages[j]);
        }
    }
}

/// Taking a page out keeps the keys distinct.
pub proof fn lemma_distinct_remove(
    pages: Seq<Arc<Page>>,
    key: spec_fn(Arc<Page>) -> Seq<char>,
    i: int,
)
    requires
        0 <= i < pages.len(),
        distinct_keys(pages, key),
    ensures
        distinct_keys(pages.remove(i), key),
{
    let removed = pages.remove(i);
    assert forall|a: int, b: int| 0 <= a < b < removed.len() implies key(#[trigger] removed[a])
        != key(#[trigger] removed[b]) by {
        let a0 = if a < i { a } else { a + 1 };
        let b0 = if b < i { b } else { b + 1 };
        assert(removed[a] == pages[a0] && removed[b] == pages[b0]);
    }
}

impl DualHashmap {
    /// The pages indexed by file path.
    pub closed spec fn by_file(&self) -> Map<Seq<char>, Arc<Page>> {
        self.file_path_to_page@
    }

    /// The pages indexed by route.
    pub closed spec fn by_uri(&self) -> Map<Seq<char>, Arc<Page>> {
        self.uri_path_to_page@
    }

    /// The index is well formed: both maps are views of one list of pages with
    /// distinct file paths and distinct routes.
    pub closed spec fn wf(&self) -> bool {
        &&& distinct_keys(self.pages@, |p: Arc<Page>| file_key(p))
        &&& distinct_keys(self.pages@, |p: Arc<Page>| uri_key(p))
        &&& self.file_path_to_page@ == keyed(self.pages@, |p: Arc<Page>| file_key(p))
        &&& self.uri_path_to_page@ == keyed(self.pages@, |p: Arc<Page>| uri_key(p))
    }

    /// An empty index.
    pub fn new() -> (index: Self)
        ensures
            index.wf(),
            index.by_file() == Map::<Seq<char>, Arc<Page>>::empty(),
            index.by_uri() == Map::<Seq<char>, Arc<Page>>::empty(),
    {
        let index = DualHashmap {
            file_path_to_page: StringHashMap::new(),
            uri_path_to_page: StringHashMap::new(),
            pages: Vec::new(),
        };
        assert(index.pages@ =~= Seq::<Arc<Page>>::empty());
        index
    }

    /// Adds `page` under its file path and its route. Where a page from the same
    /// file is indexed, or the route is taken, nothing changes and the conflict
    /// is reported; the file path is checked first.
    pub fn insert_by_page(&mut self, page: Arc<Page>) -> (result: Result<(), DualHashmapError>)
        requires
            old(self).wf(),
        ensures
            final(self).wf(),
            old(self).by_file().contains_key(page.file_path@) ==> {
                &&& result matches Err(DualHashmapError::DuplicateFile(f))
                &&& f@ == page.file_path@
                &&& final(self).by_file() == old(self).by_file()
                &&& final(self).by_uri() == old(self).by_uri()
            },
            !old(self).by_file().contains_key(page.file_path@) && old(self).by_uri().contains_key(
                page.uri_path@,
            ) ==> {
                &&& result matches Err(DualHashmapError::DuplicateUri { uri_path, file_path })
                &&& uri_path@ == page.uri_path@
                &&& file_path@ == old(self).by_uri()[page.uri_path@].file_path@
                &&& final(self).by_file() == old(self).by_file()
                &&& final(self).by_uri() == old(self).by_uri()
            },
            !old(self).by_file().contains_key(page.file_path@) && !old(
                self,
            ).by_uri().contains_key(page.uri_path@) ==> {
                &&& result is Ok
                &&& final(self).by_file() == old(self).by_file().insert(page.file_path@, page)
                &&& final(self).by_uri() == old(self).by_uri().insert(page.uri_path@, page)
            },
    {
        if self.file_path_to_page.contains_key(page.file_path.as_str()) {
            return Err(DualHashmapError::DuplicateFile(page.file_path.clone()));
        }
        match self.uri_path_to_page.get(page.uri_path.as_str()) {
            Some(existing) => {
                return Err(
                    DualHashmapError::DuplicateUri {
                        uri_path: page.uri_path.clone(),
                        file_path: existing.file_path.clone(),
                    },
                );
            },
            None => {},
        }
        let ghost old_pages = self.pages@;
        proof {
            lemma_keyed(old_pages, |p: Arc<Page>| file_key(p));
            lemma_keyed(old_pages, |p: Arc<Page>| uri_key(p));
        }
        self.file_path_to_page.insert(page.file_path.clone(), page.clone());
        self.uri_path_to_page.insert(page.uri_path.clone(), page.clone());
        self.pages.push(page);
        proof {
            lemma_distinct_push(old_pages, |p: Arc<Page>| file_key(p), page);
            lemma_distinct_push(old_pages, |p: Arc<Page>| uri_key(p), page);
            assert(self.pages@.drop_last() =~= old_pages);
        }
        Ok(())
    }

    /// The page served at the route `uri_path`, if any.
    pub fn get_page_by_uri_path(&self, uri_path: &str) -> (page: Option<Arc<Page>>)
        ensures
            match page {
                Some(p) => self.by_uri().contains_key(uri_path@) && p == self.by_uri()[uri_path@],
                None => !self.by_uri().contains_key(uri_path@),
            },
    {
        match self.uri_path_to_page.get(uri_path) {
            Some(p) => Some(p.clone()),
            None => None,
        }
    }

    /// The page loaded from the file `file_path`, if any.
    pub fn get_page_by_file_path(&self, file_path: &str) -> (page: Option<Arc<Page>>)
        ensures
            match page {
                Some(p) => self.by_file().contains_key(file_path@) && p == self.by_file()[file_path@],
                None => !self.by_file().contains_key(file_path@),
            },
    {
        match self.file_path_to_page.get(file_path) {
            Some(p) => Some(p.clone()),
            None => None,
        }
    }

    /// Takes the page loaded from `file_path` out of both indexes and returns it;
    /// where no such page is indexed, nothing changes.
    pub fn remove_by_file_path(&mut self, file_path: &str) -> (removed: Option<Arc<Page>>)
        requires
            old(self).wf(),
        ensures
            final(self).wf(),
            match removed {
                Some(p) => {
                    &&& old(self).by_file().contains_key(file_path@)
                    &&& p == old(self).by_file()[file_path@]
                    &&& final(self).by_file() == old(self).by_file().remove(file_path@)
                    &&& final(self).by_uri() == old(self).by_uri().remove(p.uri_path@)
                },
                None => {
                    &&& !old(self).by_file().contains_key(file_path@)
                    &&& final(self).by_file() == old(self).by_file()
                    &&& final(self).by_uri() == old(self).by_uri()
                },
            },
    {
        let page = match self.file_path_to_page.get(file_path) {
            Some(p) => p.clone(),
            None => return None,
        };
        let ghost old_pages = self.pages@;
        proof {
            lemma_keyed(old_pages, |p: Arc<Page>| file_key(p));
        }
        let ghost j = choose|j: int|
            0 <= j < old_pages.len() && (|p: Arc<Page>| file_key(p))(#[trigger] old_pages[j])
                == file_path@;
        let key = String::from_str(file_path);
        let mut i: usize = 0;
        while self.pages[i].file_path != key
            invariant
                self.pages@ == old_pages,
                0 <= i <= j < old_pages.len(),
                key@ == file_path@,
                (|p: Arc<Page>| file_key(p))(old_pages[j]) == file_path@,
                forall|k: int| 0 <= k < i ==> old_pages[k].file_path@ != file_path@,
            decreases j - i,
        {
            assert(old_pages[j].file_path@ == file_path@);
            assert(self.pages[i as int].file_path@ != key@);
            assert(i < j < self.pages.len());
            i = i + 1;
        }
        proof {
            assert(i == j) by {
                if i != j {
                    assert((|p: Arc<Page>| file_key(p))(old_pages[i as int]) == file_path@);
                }
            }
            lemma_keyed(old_pages, |p: Arc<Page>| uri_key(p));
            lemma_keyed_remove(old_pages, |p: Arc<Page>| file_key(p), i as int);
            lemma_keyed_remove(old_pages, |p: Arc<Page>| uri_key(p), i as int);
        }
        self.file_path_to_page.remove(file_path);
        self.uri_path_to_page.remove(page.uri_path.as_str());
        self.pages.remove(i);
        proof {
            lemma_distinct_remove(old_pages, |p: Arc<Page>| file_key(p), i as int);
            lemma_distinct_remove(old_pages, |p: Arc<Page>| uri_key(p), i as int);
        }
        Some(page)
    }

    /// A second index holding the same pages.
    pub fn duplicate(&self) -> (copy: Self)
        requires
            self.wf(),
        ensures
            copy.wf(),
            copy.by_file() == self.by_file(),
            copy.by_uri() == self.by_uri(),
    {
        let mut copy = DualHashmap {
            file_path_to_page: StringHashMap::new(),
            uri_path_to_page: StringHashMap::new(),
            pages: Vec::new(),
        };
        let n = self.pages.len();
        let mut i: usize = 0;
        assert(self.pages@.take(0) =~= Seq::<Arc<Page>>::empty());
        while i < n
            invariant
                n == self.pages.len(),
                i <= n,
                self.wf(),
                copy.pages@ == self.pages@.take(i as int),
                copy.file_path_to_page@ == keyed(copy.pages@, |p: Arc<Page>| file_key(p)),
                copy.uri_path_to_page@ == keyed(copy.pages@, |p: Arc<Page>| uri_key(p)),
            decreases n - i,
        {
            let page = self.pages[i].clone();
            copy.file_path_to_page.insert(page.file_path.clone(), page.clone());
            copy.uri_path_to_page.insert(page.uri_path.clone(), page.clone());
            copy.pages.push(page);
            assert(copy.pages@.drop_last() =~= self.pages@.take(i as int));
            assert(copy.pages@ =~= self.pages@.take(i + 1));
            i = i + 1;
        }
        proof {
            assert(self.pages@.take(n as int) =~= self.pages@);
        }
        copy
    }
}

/// Both indexes describe the same pages: a page is filed under its own file path
/// and its own route, and whichever index it is reached through, it is the same
/// page. Every well-formed index has this property.
pub proof fn lemma_indexes_agree(index: DualHashmap)
    requires
        index.wf(),
    ensures
        indexes_agree(index.by_file(), index.by_uri()),
{
    let pages = index.pages@;
    let fk = |p: Arc<Page>| file_key(p);
    let uk = |p: Arc<Page>| uri_key(p);
    lemma_keyed(pages, fk);
    lemma_keyed(pages, uk);
    assert forall|f: Seq<char>| #[trigger] index.by_file().contains_key(f) implies {
        &&& index.by_file()[f].file_path@ == f
        &&& index.by_uri().contains_key(index.by_file()[f].uri_path@)
        &&& index.by_uri()[index.by_file()[f].uri_path@] == index.by_file()[f]
    } by {
        let j = choose|j: int| 0 <= j < pages.len() && fk(#[trigger] pages[j]) == f;
        assert(keyed(pages, fk)[fk(pages[j])] == pages[j]);
        assert(keyed(pages, uk)[uk(pages[j])] == pages[j]);
        assert(keyed(pages, uk).contains_key(uk(pages[j])));
    }
    assert forall|u: Seq<char>| #[trigger] index.by_uri().contains_key(u) implies {
        &&& index.by_uri()[u].uri_path@ == u
        &&& index.by_file().contains_key(index.by_uri()[u].file_path@)
        &&& index.by_file()[index.by_uri()[u].file_path@] == index.by_uri()[u]
    } by {
        let j = choose|j: int| 0 <= j < pages.len() && uk(#[trigger] pages[j]) == u;
        assert(keyed(pages, fk)[fk(pages[j])] == pages[j]);
        assert(keyed(pages, uk)[uk(pages[j])] == pages[j]);
        assert(keyed(pages, fk).contains_key(fk(pages[j])));
    }
}

impl Default for DualHashmap {
    /// An empty index.
    fn default() -> (index: Self)
        ensures
            index.wf(),
            index.by_file() == Map::<Seq<char>, Arc<Page>>::empty(),
            index.by_uri() == Map::<Seq<char>, Arc<Page>>::empty(),
    {
        Self::new()
    }
}

} // verus!
