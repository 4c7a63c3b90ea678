//! The changes the page manager makes to its index: adding a freshly built page,
//! and reloading the page of one file.
use vstd::prelude::*;
use vstd::std_specs::convert::FromSpecImpl;

use std::sync::Arc;

use crate::dual_hashmap::{lemma_indexes_agree, DualHashmap, DualHashmapError};
use crate::page::Page;

verus! {

/// Why the page manager did not take a page.
#[derive(Debug)]
pub enum PageManagerError {
    /// The page conflicts with the index; the text says how.
    Message(String),
    /// The page would be served at this reserved route.
    UriPath(String),
}

/// The text reported when a page from `file_path` is already indexed.
pub open spec fn duplicate_file_message(file_path: Seq<char>) -> Seq<char> {
    "文件 "@ + file_path + " 已加载，已跳过重复加载"@
}

/// The text reported when `uri_path` is already served by the page from `file_path`.
pub open spec fn duplicate_uri_message(uri_path: Seq<char>, file_path: Seq<char>) -> Seq<char> {
    "路由 "@ + uri_path + " 已被文件 "@ + file_path + " 占用，已拒绝加载"@
}

/// `message` describes the index conflict `error`.
pub open spec fn describes(error: DualHashmapError, message: Seq<char>) -> bool {
    match error {
        DualHashmapError::DuplicateFile(file_path) => message == duplicate_file_message(
            file_path@,
        ),
        DualHashmapError::DuplicateUri { uri_path, file_path } => message
            == duplicate_uri_message(uri_path@, file_path@),
    }
}

/// Offering `page` to the index with maps `files` and `uris` gave `result` and left
/// the maps `files_after` and `uris_after`: a page whose file is indexed, or whose
/// route is taken, is refused with a message and changes nothing; any other page
/// is added under its file path and its route.
pub open spec fn offered(
    files: Map<Seq<char>, Arc<Page>>,
    uris: Map<Seq<char>, Arc<Page>>,
    page: Arc<Page>,
    result: Result<(), PageManagerError>,
    files_after: Map<Seq<char>, Arc<Page>>,
    uris_after: Map<Seq<char>, Arc<Page>>,
) -> bool {
    if files.contains_key(page.file_path@) {
        &&& result matches Err(PageManagerError::Message(m))
        &&& m@ == duplicate_file_message(page.file_path@)
        &&& files_after == files
        &&& uris_after == uris
    } else if uris.contains_key(page.uri_path@) {
        &&& result matches Err(PageManagerError::Message(m))
        &&& m@ == duplicate_uri_message(page.uri_path@, uris[page.uri_path@].file_path@)
        &&& files_after == files
        &&& uris_after == uris
    } else {
        &&& result is Ok
        &&& files_after == files.insert(page.file_path@, page)
        &&& uris_after == uris.insert(page.uri_path@, page)
    }
}

/// Offering the outcome `built` of building a page: a page as in `offered`; a
/// reserved route is refused, naming the route, and changes nothing.
pub open spec fn offered_built(
    files: Map<Seq<char>, Arc<Page>>,
    uris: Map<Seq<char>, Arc<Page>>,
    built: Result<Arc<Page>, String>,
    result: Result<(), PageManagerError>,
    files_after: Map<Seq<char>, Arc<Page>>,
    uris_after: Map<Seq<char>, Arc<Page>>,
) -> bool {
    match built {
        Ok(page) => offered(files, uris, page, result, files_after, uris_after),
        Err(route) => {
            &&& result matches Err(PageManagerError::UriPath(r))
            &&& r@ == route@
            &&& files_after == files
            &&& uris_after == uris
        },
    }
}

/// The file index once the page of `file_path` is taken out.
pub open spec fn files_without(index: DualHashmap, file_path: Seq<char>) -> Map<
    Seq<char>,
    Arc<Page>,
> {
    index.by_file().remove(file_path)
}

/// The route index once the page of `file_path` is taken out.
pub open spec fn uris_without(index: DualHashmap, file_path: Seq<char>) -> Map<
    Seq<char>,
    Arc<Page>,
> {
    if index.by_file().contains_key(file_path) {
        index.by_uri().remove(index.by_file()[file_path].uri_path@)
    } else {
        index.by_uri()
    }
}

/// Reloading `file_path` with the outcome `built` took `before` to `after` with
/// `result`: the old page of the file is taken out of both indexes, whatever
/// `built` is, and then `built` is offered.
pub open spec fn reloaded(
    before: DualHashmap,
    after: DualHashmap,
    file_path: Seq<char>,
    built: Result<Arc<Page>, String>,
    result: Result<(), PageManagerError>,
) -> bool {
    offered_built(
        files_without(before, file_path),
        uris_without(before, file_path),
        built,
        result,
        after.by_file(),
        after.by_uri(),
    )
}

/// A page that was taken is found afterwards under its file path and under its
/// route.
pub proof fn law_added_page_is_found(
    files: Map<Seq<char>, Arc<Page>>,
    uris: Map<Seq<char>, Arc<Page>>,
    page: Arc<Page>,
    files_after: Map<Seq<char>, Arc<Page>>,
    uris_after: Map<Seq<char>, Arc<Page>>,
)
    requires
        offered(files, uris, page, Ok(()), files_after, uris_after),
    ensures
        files_after.contains_key(page.file_path@) && files_after[page.file_path@] == page,
        uris_after.contains_key(page.uri_path@) && uris_after[page.uri_path@] == page,
{
}

/// Taking out, by its file path, a page that was just taken gives back both
/// indexes as they were before.
pub proof fn law_removal_undoes_adding(
    files: Map<Seq<char>, Arc<Page>>,
    uris: Map<Seq<char>, Arc<Page>>,
    page: Arc<Page>,
    files_after: Map<Seq<char>, Arc<Page>>,
    uris_after: Map<Seq<char>, Arc<Page>>,
)
    requires
        offered(files, uris, page, Ok(()), files_after, uris_after),
    ensures
        files_after.remove(page.file_path@) == files,
        uris_after.remove(files_after[page.file_path@].uri_path@) == uris,
{
    assert(files_after.remove(page.file_path@) =~= files);
    assert(uris_after.remove(page.uri_path@) =~= uris);
}

/// A reload whose new page would sit at a reserved route is refused with that
/// route; the file's old page is gone from both indexes all the same, and the
/// reserved route is not given out.
pub proof fn law_rejected_reload_retires_old_page(
    before: DualHashmap,
    after: DualHashmap,
    file_path: Seq<char>,
    route: String,
    result: Result<(), PageManagerError>,
)
    requires
        before.wf(),
        reloaded(before, after, file_path, Err(route), result),
    ensures
        result matches Err(PageManagerError::UriPath(r)) && r@ == route@,
        !after.by_file().contains_key(file_path),
        before.by_file().contains_key(file_path) ==> !after.by_uri().contains_key(
            before.by_file()[file_path].uri_path@,
        ),
        after.by_uri().contains_key(route@) ==> before.by_uri().contains_key(route@)
            && before.by_uri()[route@].file_path@ != file_path,
{
    lemma_indexes_agree(before);
}

/// A reload changes nothing for the pages of other files: each stays under its
/// file path, and each route that such a page serves still serves it.
pub proof fn law_reload_keeps_other_files_pages(
    before: DualHashmap,
    after: DualHashmap,
    file_path: Seq<char>,
    built: Result<Arc<Page>, String>,
    result: Result<(), PageManagerError>,
)
    requires
        before.wf(),
        reloaded(before, after, file_path, built, result),
    ensures
        forall|f: Seq<char>|
            #[trigger] before.by_file().contains_key(f) && f != file_path
                ==> after.by_file().contains_key(f) && after.by_file()[f] == before.by_file()[f],
        forall|u: Seq<char>|
            #[trigger] before.by_uri().contains_key(u) && before.by_uri()[u].file_path@
                != file_path ==> after.by_uri().contains_key(u) && after.by_uri()[u]
                == before.by_uri()[u],
{
    lemma_indexes_agree(before);
}

/// A reload whose new page would take a route served by another file's page is
/// refused; the file's old page is gone from both indexes, and the route keeps
/// its owner, which stays under its own file path too.
pub proof fn law_conflicting_reload_keeps_route_owner(
    before: DualHashmap,
    after: DualHashmap,
    file_path: Seq<char>,
    page: Arc<Page>,
    result: Result<(), PageManagerError>,
)
    requires
        before.wf(),
        reloaded(before, after, file_path, Ok(page), result),
        page.file_path@ == file_path,
        before.by_uri().contains_key(page.uri_path@),
        before.by_uri()[page.uri_path@].file_path@ != file_path,
    ensures
        result matches Err(PageManagerError::Message(_)),
        !after.by_file().contains_key(file_path),
        before.by_file().contains_key(file_path) ==> !after.by_uri().contains_key(
            before.by_file()[file_path].uri_path@,
        ),
        after.by_uri().contains_key(page.uri_path@),
        after.by_uri()[page.uri_path@] == before.by_uri()[page.uri_path@],
        after.by_file().contains_key(before.by_uri()[page.uri_path@].file_path@),
        after.by_file()[before.by_uri()[page.uri_path@].file_path@] == before.by_uri()[page.uri_path@],
{
    lemma_indexes_agree(before);
}

/// A reload whose new page takes a free route (or its own old one) succeeds:
/// the new page is found under the file path and under its route, and the
/// file's old route, where it was another, serves nothing any more.
pub proof fn law_reload_moves_page_to_new_route(
    before: DualHashmap,
    after: DualHashmap,
    file_path: Seq<char>,
    page: Arc<Page>,
    result: Result<(), PageManagerError>,
)
    requires
        before.wf(),
        reloaded(before, after, file_path, Ok(page), result),
        page.file_path@ == file_path,
        before.by_uri().contains_key(page.uri_path@) ==> before.by_uri()[page.uri_path@].file_path@
            == file_path,
    ensures
        result is Ok,
        after.by_file().contains_key(file_path) && after.by_file()[file_path] == page,
        after.by_uri().contains_key(page.uri_path@) && after.by_uri()[page.uri_path@] == page,
        before.by_file().contains_key(file_path) && before.by_file()[file_path].uri_path@
            != page.uri_path@ ==> !after.by_uri().contains_key(
            before.by_file()[file_path].uri_path@,
        ),
{
    lemma_indexes_agree(before);
}

/// Where, under the content root, page files are searched for.
pub const MARKDOWN_GLOB: &'static str = "/**/*.md";

/// Where, under the content root, the style sheet is read from.
pub const STYLE_SHEET_FILE: &'static str = "/style.css";

/// The pattern that finds every Markdown file below `root_path`.
pub fn markdown_glob_pattern(root_path: &str) -> (pattern: String)
    ensures
        pattern@ == root_path@ + MARKDOWN_GLOB@,
{
    String::from_str(root_path).concat(MARKDOWN_GLOB)
}

/// The path of the style sheet in `root_path`.
pub fn style_sheet_path(root_path: &str) -> (path: String)
    ensures
        path@ == root_path@ + STYLE_SHEET_FILE@,
{
    String::from_str(root_path).concat(STYLE_SHEET_FILE)
}

/// The indexes (by file path, by route) after offering `built` to `files` and
/// `uris`: a page is added where neither its file path nor its route is taken;
/// otherwise, and for a reserved route, nothing changes.
pub open spec fn after_offer(
    files: Map<Seq<char>, Arc<Page>>,
    uris: Map<Seq<char>, Arc<Page>>,
    built: Result<Arc<Page>, String>,
) -> (Map<Seq<char>, Arc<Page>>, Map<Seq<char>, Arc<Page>>) {
    match built {
        Ok(page) => if files.contains_key(page.file_path@) || uris.contains_key(page.uri_path@) {
            (files, uris)
        } else {
            (files.insert(page.file_path@, page), uris.insert(page.uri_path@, page))
        },
        Err(_) => (files, uris),
    }
}

/// The indexes (by file path, by route) that loading the built pages `built`,
/// in order, into an empty index gives.
pub open spec fn loaded(built: Seq<Result<Arc<Page>, String>>) -> (
    Map<Seq<char>, Arc<Page>>,
    Map<Seq<char>, Arc<Page>>,
)
    decreases built.len(),
{
    if built.len() == 0 {
        (Map::empty(), Map::empty())
    } else {
        let before = loaded(built.drop_last());
        after_offer(before.0, before.1, built.last())
    }
}

/// `built` is a page that shares its file path or its route with `page`.
pub open spec fn clashes_with(built: Result<Arc<Page>, String>, page: Arc<Page>) -> bool {
    match built {
        Ok(other) => other.file_path@ == page.file_path@ || other.uri_path@ == page.uri_path@,
        Err(_) => false,
    }
}

/// `page` is in both indexes, under its file path and under its route.
pub open spec fn holds_page(
    files: Map<Seq<char>, Arc<Page>>,
    uris: Map<Seq<char>, Arc<Page>>,
    page: Arc<Page>,
) -> bool {
    &&& files.contains_key(page.file_path@)
    &&& files[page.file_path@] == page
    &&& uris.contains_key(page.uri_path@)
    &&& uris[page.uri_path@] == page
}

/// What offering does to the indexes is `after_offer`.
pub proof fn lemma_offered_is_after_offer(
    files: Map<Seq<char>, Arc<Page>>,
    uris: Map<Seq<char>, Arc<Page>>,
    built: Result<Arc<Page>, String>,
    result: Result<(), PageManagerError>,
    files_after: Map<Seq<char>, Arc<Page>>,
    uris_after: Map<Seq<char>, Arc<Page>>,
)
    requires
        offered_built(files, uris, built, result, files_after, uris_after),
    ensures
        (files_after, uris_after) == after_offer(files, uris, built),
{
}

/// Loading keeps the first page for each file path and each route: a page of
/// the list is left out only where an earlier page of the list has its file
/// path or its route, and every page in the index comes from the list, filed
/// under its own file path and route.
pub proof fn law_load_keeps_first_pages(built: Seq<Result<Arc<Page>, String>>)
    ensures
        forall|i: int|
            0 <= i < built.len() ==> match #[trigger] built[i] {
                Ok(page) => holds_page(loaded(built).0, loaded(built).1, page) || exists|j: int|
                    0 <= j < i && clashes_with(#[trigger] built[j], page),
                Err(_) => true,
            },
        forall|f: Seq<char>| #[trigger]
            loaded(built).0.contains_key(f) ==> loaded(built).0[f].file_path@ == f && exists|j: int|
                0 <= j < built.len() && #[trigger] built[j] == Ok::<Arc<Page>, String>(
                    loaded(built).0[f],
                ),
        forall|u: Seq<char>| #[trigger]
            loaded(built).1.contains_key(u) ==> loaded(built).1[u].uri_path@ == u && exists|j: int|
                0 <= j < built.len() && #[trigger] built[j] == Ok::<Arc<Page>, String>(
                    loaded(built).1[u],
                ),
    decreases built.len(),
{
    if built.len() > 0 {
        let init = built.drop_last();
        let last = built.last();
        law_load_keeps_first_pages(init);
        let (files, uris) = loaded(init);
        let (files_after, uris_after) = loaded(built);
        assert(built[built.len() - 1] == last);
        assert forall|k: int| 0 <= k < init.len() implies #[trigger] init[k] == built[k] by {}
        // Entries already present stay as they are.
        assert(forall|f: Seq<char>| #[trigger]
            files.contains_key(f) ==> files_after.contains_key(f) && files_after[f] == files[f]);
        assert(forall|u: Seq<char>| #[trigger]
            uris.contains_key(u) ==> uris_after.contains_key(u) && uris_after[u] == uris[u]);
        assert forall|f: Seq<char>| #[trigger] files_after.contains_key(f) implies files_after[f].file_path@
            == f && exists|j: int|
            0 <= j < built.len() && #[trigger] built[j] == Ok::<Arc<Page>, String>(
                files_after[f],
            ) by {
            if files.contains_key(f) {
                let j = choose|j: int|
                    0 <= j < init.len() && #[trigger] init[j] == Ok::<Arc<Page>, String>(
                        files[f],
                    );
                assert(built[j] == init[j]);
            } else {
                assert(built[built.len() - 1] == Ok::<Arc<Page>, String>(files_after[f]));
            }
        }
        assert forall|u: Seq<char>| #[trigger] uris_after.contains_key(u) implies uris_after[u].uri_path@
            == u && exists|j: int|
            0 <= j < built.len() && #[trigger] built[j] == Ok::<Arc<Page>, String>(
                uris_after[u],
            ) by {
            if uris.contains_key(u) {
                let j = choose|j: int|
                    0 <= j < init.len() && #[trigger] init[j] == Ok::<Arc<Page>, String>(
                        uris[u],
                    );
                assert(built[j] == init[j]);
            } else {
                assert(built[built.len() - 1] == Ok::<Arc<Page>, String>(uris_after[u]));
            }
        }
        assert forall|i: int| 0 <= i < built.len() implies match #[trigger] built[i] {
            Ok(page) => holds_page(files_after, uris_after, page) || exists|j: int|
                0 <= j < i && clashes_with(#[trigger] built[j], page),
            Err(_) => true,
        } by {
            if let Ok(page) = built[i] {
                if i < init.len() {
                    assert(init[i] == built[i]);
                    if !holds_page(files, uris, page) {
                        let j = choose|j: int| 0 <= j < i && clashes_with(#[trigger] init[j], page);
                        assert(built[j] == init[j]);
                    }
                } else if files.contains_key(page.file_path@) {
                    let j = choose|j: int|
                        0 <= j < init.len() && #[trigger] init[j] == Ok::<Arc<Page>, String>(
                            files[page.file_path@],
                        );
                    assert(built[j] == init[j]);
                    assert(clashes_with(built[j], page));
                } else if uris.contains_key(page.uri_path@) {
                    let j = choose|j: int|
                        0 <= j < init.len() && #[trigger] init[j] == Ok::<Arc<Page>, String>(
                            uris[page.uri_path@],
                        );
                    assert(built[j] == init[j]);
                    assert(clashes_with(built[j], page));
                }
            }
        }
    }
}

/// Joins three strings.
fn join3(a: &str, b: &str, c: &str) -> (r: String)
    ensures
        r@ == a@ + b@ + c@,
{
    let mut r = String::from_str(a);
    r.append(b);
    r.append(c);
    r
}

impl PageManagerError {
    /// The page manager's account of an index conflict.
    pub fn from_index_error(error: DualHashmapError) -> (converted: PageManagerError)
        ensures
            converted matches PageManagerError::Message(m) && describes(error, m@),
    {
        match error {
            DualHashmapError::DuplicateFile(file_path) => PageManagerError::Message(
                join3("文件 ", file_path.as_str(), " 已加载，已跳过重复加载"),
            ),
            DualHashmapError::DuplicateUri { uri_path, file_path } => {
                let mut m = join3("路由 ", uri_path.as_str(), " 已被文件 ");
                m.append(file_path.as_str());
                m.append(" 占用，已拒绝加载");
                PageManagerError::Message(m)
            },
        }
    }
}

impl From<DualHashmapError> for PageManagerError {
    /// The page manager's account of an index conflict: the message that
    /// describes it.
    fn from(error: DualHashmapError) -> (converted: Self)
        ensures
            converted matches PageManagerError::Message(m) && describes(error, m@),
    {
        Self::from_index_error(error)
    }
}

/// The trait-level description of the conversion: a message is a `String`,
/// which a spec function cannot build from its characters, so no single value
/// is named here and the trait's own claim is not made. What `from` returns is
/// stated by its `ensures` above.
impl FromSpecImpl<DualHashmapError> for PageManagerError {
    open spec fn obeys_from_spec() -> bool {
        false
    }

    open spec fn from_spec(v: DualHashmapError) -> Self {
        arbitrary()
    }
}

impl DualHashmap {
    /// Offers `page` to the index, as the page manager does when a page is
    /// added: see `offered`.
    pub fn add_page(&mut self, page: Arc<Page>) -> (result: Result<(), PageManagerError>)
        requires
            old(self).wf(),
        ensures
            final(self).wf(),
            offered(
                old(self).by_file(),
                old(self).by_uri(),
                page,
                result,
                final(self).by_file(),
                final(self).by_uri(),
            ),
    {
        match self.insert_by_page(page) {
            Ok(()) => Ok(()),
            Err(error) => Err(PageManagerError::from_index_error(error)),
        }
    }

    /// Offers the outcome of building a page to the index: see `offered_built`.
    pub fn add_built_page(&mut self, built: &Result<Arc<Page>, String>) -> (result: Result<
        (),
        PageManagerError,
    >)
        requires
            old(self).wf(),
        ensures
            final(self).wf(),
            offered_built(
                old(self).by_file(),
                old(self).by_uri(),
                *built,
                result,
                final(self).by_file(),
                final(self).by_uri(),
            ),
    {
        match built {
            Ok(page) => self.add_page(page.clone()),
            Err(route) => Err(PageManagerError::UriPath(route.clone())),
        }
    }

    /// Reloads the page of `file_path`: takes the old page out of both indexes,
    /// even where the new one is refused, then offers `built`, the new page or
    /// the reserved route it would be served at. See `reloaded`.
    pub fn update_page_by_file_path(&mut self, file_path: &str, built: &Result<Arc<Page>, String>) -> (result:
        Result<(), PageManagerError>)
        requires
            old(self).wf(),
        ensures
            final(self).wf(),
            reloaded(*old(self), *final(self), file_path@, *built, result),
    {
        let ghost before = *self;
        let removed = self.remove_by_file_path(file_path);
        proof {
            if removed is None {
                assert(before.by_file().remove(file_path@) =~= before.by_file());
            }
        }
        self.add_built_page(built)
    }
    /// A fresh index loaded with the built pages `built`, offered in order as
    /// `add_built_page` does, with what each offer gave.
    pub fn from_built_pages(built: &Vec<Result<Arc<Page>, String>>) -> (loaded_index: (
        DualHashmap,
        Vec<Result<(), PageManagerError>>,
    ))
        ensures
            loaded_index.0.wf(),
            (loaded_index.0.by_file(), loaded_index.0.by_uri()) == loaded(built@),
            loaded_index.1.len() == built.len(),
            forall|i: int|
                0 <= i < built.len() ==> offered_built(
                    loaded(built@.take(i)).0,
                    loaded(built@.take(i)).1,
                    built@[i],
                    #[trigger] loaded_index.1@[i],
                    loaded(built@.take(i + 1)).0,
                    loaded(built@.take(i + 1)).1,
                ),
    {
        let mut index = DualHashmap::new();
        let mut results: Vec<Result<(), PageManagerError>> = Vec::new();
        let mut i: usize = 0;
        assert(built@.take(0) =~= Seq::<Result<Arc<Page>, String>>::empty());
        while i < built.len()
            invariant
                i <= built.len(),
                index.wf(),
                (index.by_file(), index.by_uri()) == loaded(built@.take(i as int)),
                results.len() == i,
                forall|k: int|
                    0 <= k < i ==> offered_built(
                        loaded(built@.take(k)).0,
                        loaded(built@.take(k)).1,
                        built@[k],
                        #[trigger] results@[k],
                        loaded(built@.take(k + 1)).0,
                        loaded(built@.take(k + 1)).1,
                    ),
            decreases built.len() - i,
        {
            let ghost before = index;
            let result = index.add_built_page(&built[i]);
            proof {
                lemma_offered_is_after_offer(
                    before.by_file(),
                    before.by_uri(),
                    built@[i as int],
                    result,
                    index.by_file(),
                    index.by_uri(),
                );
                assert(built@.take(i + 1).drop_last() =~= built@.take(i as int));
                assert(built@.take(i + 1).last() == built@[i as int]);
            }
            results.push(result);
            i = i + 1;
        }
        assert(built@.take(built.len() as int) =~= built@);
        (index, results)
    }
}

} // verus!
