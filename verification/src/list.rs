//! Listings, which a store hands out page by page.
use crate::options::{Meta, ObjectMeta};
use crate::path::{encoded_path, is_plain_path, path_from, path_of};
use crate::text::{
    clone_text, law_trimming_takes_one_character, opt_text, texts, trim_end_matches, trimmed_end,
};
use vstd::prelude::*;

verus! {

/// A page of a listing.
#[derive(Debug)]
pub struct ListPage {
    pub objects: Vec<ObjectMeta>,
    pub prefixes: Vec<String>,
    /// Where the next page starts, if there is one.
    pub cursor: Option<String>,
}

/// The cursor of the page behind one that the bucket has handed out. Only a truncated page has one
/// behind it.
pub fn next_list_cursor(truncated: bool, cursor: Option<String>) -> (next: Option<String>)
    ensures
        next == (if truncated {
            cursor
        } else {
            None
        }),
{
    if truncated {
        cursor
    } else {
        None
    }
}

/// What is known of objects, by its texts.
pub open spec fn metas(objects: Seq<ObjectMeta>) -> Seq<Meta> {
    objects.map_values(|object: ObjectMeta| object@)
}

/// The folders of a page: paths without slashes at their ends.
pub open spec fn folder_paths(prefixes: Seq<Seq<char>>) -> Seq<Seq<char>> {
    prefixes.map_values(|prefix: Seq<char>| path_of(trimmed_end(prefix, '/')))
}

/// Makes paths of the folders of a page.
pub fn folders(prefixes: &Vec<String>) -> (paths: Vec<String>)
    ensures
        texts(paths@) == folder_paths(texts(prefixes@)),
{
    let mut paths: Vec<String> = Vec::new();
    for i in 0..prefixes.len()
        invariant
            texts(paths@) == folder_paths(texts(prefixes@)).take(i as int),
    {
        let path = path_from(trim_end_matches(prefixes[i].as_str(), '/'));
        proof {
            let all = folder_paths(texts(prefixes@));
            assert(all[i as int] == path@);
            assert(texts(paths@.push(path)) =~= texts(paths@).push(path@));
            assert(all.take(i + 1) =~= all.take(i as int).push(path@));
        }
        paths.push(path);
    }
    assert(texts(paths@) =~= folder_paths(texts(prefixes@)));
    paths
}

/// What a listing knows: the objects that it has still to hand out, in order, where the next page
/// starts, and whether there is none.
#[verifier::ext_equal]
pub struct Progress {
    pub pending: Seq<ObjectMeta>,
    pub cursor: Option<Seq<char>>,
    pub finished: bool,
}

impl Progress {
    /// The start of a listing.
    pub open spec fn start() -> Progress {
        Progress { pending: Seq::empty(), cursor: None, finished: false }
    }

    /// After the first pending object has been handed out.
    pub open spec fn after_item(self) -> Progress {
        Progress { pending: self.pending.drop_first(), ..self }
    }

    /// After a page has arrived.
    pub open spec fn after_page(self, page: ListPage) -> Progress {
        Progress {
            pending: page.objects@,
            cursor: opt_text(page.cursor),
            finished: page.cursor is None,
        }
    }
}

/// A listing that hands out objects one by one and asks for a page when it has none left.
#[derive(Debug)]
pub struct Listing {
    cursor: Option<String>,
    /// The pending objects, the next one last.
    buffered: Vec<ObjectMeta>,
    finished: bool,
}

/// What a listing wants next.
#[derive(Debug)]
pub enum ListStep {
    /// Here is an object.
    Item(ObjectMeta),
    /// Fetch the page at this cursor.
    Fetch(Option<String>),
    /// There are no more objects.
    End,
}

impl View for Listing {
    type V = Progress;

    closed spec fn view(&self) -> Progress {
        Progress {
            pending: self.buffered@.reverse(),
            cursor: opt_text(self.cursor),
            finished: self.finished,
        }
    }
}

impl Listing {
    /// Starts a listing.
    pub fn new() -> (listing: Listing)
        ensures
            listing@ == Progress::start(),
    {
        let listing = Listing { cursor: None, buffered: Vec::new(), finished: false };
        assert(listing@ =~= Progress::start());
        listing
    }

    /// The next step: a pending object, else the end where the last page has arrived, else a page.
    pub fn advance(&mut self) -> (step: ListStep)
        ensures
            old(self)@.pending.len() > 0 ==> step == ListStep::Item(old(self)@.pending[0])
                && final(self)@ == old(self)@.after_item(),
            old(self)@.pending.len() == 0 ==> final(self)@ == old(self)@,
            old(self)@.pending.len() == 0 && old(self)@.finished ==> step is End,
            old(self)@.pending.len() == 0 && !old(self)@.finished ==> (step matches ListStep::Fetch(
                cursor,
            ) && opt_text(cursor) == old(self)@.cursor),
    {
        let ghost before = self.buffered@;
        match self.buffered.pop() {
            Some(item) => {
                assert(before.drop_last().reverse() =~= before.reverse().drop_first());
                assert(before.reverse()[0] == item);
                ListStep::Item(item)
            },
            None => {
                if self.finished {
                    ListStep::End
                } else {
                    ListStep::Fetch(clone_text(&self.cursor))
                }
            },
        }
    }

    /// Takes in the page that was asked for.
    pub fn receive(&mut self, page: ListPage)
        requires
            old(self)@.pending.len() == 0,
            !old(self)@.finished,
        ensures
            final(self)@ == old(self)@.after_page(page),
    {
        let ghost whole = page.objects@;
        let mut items: Vec<ObjectMeta> = page.objects;
        let mut buffered: Vec<ObjectMeta> = Vec::new();
        while items.len() > 0
            invariant
                items@ + buffered@.reverse() == whole,
            decreases items.len(),
        {
            let ghost left = items@;
            let ghost done = buffered@;
            if let Some(item) = items.pop() {
                buffered.push(item);
                assert(done.push(item).reverse() =~= seq![item] + done.reverse());
                assert(left.drop_last() + (seq![item] + done.reverse()) =~= left + done.reverse());
            }
        }
        assert(items@ + buffered@.reverse() =~= buffered@.reverse());
        self.finished = page.cursor.is_none();
        self.cursor = page.cursor;
        self.buffered = buffered;
    }
}

/// The objects that a listing hands out when these pages answer its requests in turn.
pub open spec fn handed_out(progress: Progress, pages: Seq<ListPage>) -> Seq<ObjectMeta>
    decreases pages.len(), progress.pending.len(),
{
    if progress.pending.len() > 0 {
        seq![progress.pending[0]] + handed_out(progress.after_item(), pages)
    } else if progress.finished || pages.len() == 0 {
        Seq::empty()
    } else {
        handed_out(progress.after_page(pages[0]), pages.skip(1))
    }
}

/// The objects of pages, page by page.
pub open spec fn all_objects(pages: Seq<ListPage>) -> Seq<ObjectMeta>
    decreases pages.len(),
{
    if pages.len() == 0 {
        Seq::empty()
    } else {
        pages[0].objects@ + all_objects(pages.skip(1))
    }
}

/// Whether these are all pages of a listing: only the last one has no page behind it.
pub open spec fn is_whole(pages: Seq<ListPage>) -> bool {
    &&& pages.len() > 0
    &&& forall|i: int|
        0 <= i < pages.len() ==> ((#[trigger] pages[i]).cursor is None <==> i == pages.len() - 1)
}

proof fn lemma_handed_out(progress: Progress, pages: Seq<ListPage>)
    requires
        progress.finished <==> pages.len() == 0,
        pages.len() > 0 ==> is_whole(pages),
    ensures
        handed_out(progress, pages) == progress.pending + all_objects(pages),
    decreases pages.len(), progress.pending.len(),
{
    if progress.pending.len() > 0 {
        lemma_handed_out(progress.after_item(), pages);
        assert(seq![progress.pending[0]] + (progress.pending.drop_first() + all_objects(pages))
            =~= progress.pending + all_objects(pages));
    } else if pages.len() > 0 {
        let rest = pages.skip(1);
        assert(pages[0].cursor is None <==> 0 == pages.len() - 1);
        assert forall|i: int| 0 <= i < rest.len() implies ((#[trigger] rest[i]).cursor is None <==> i
            == rest.len() - 1) by {
            assert(rest[i] == pages[i + 1]);
        }
        lemma_handed_out(progress.after_page(pages[0]), rest);
        assert(progress.pending + all_objects(pages) =~= pages[0].objects@ + all_objects(rest));
    } else {
        assert(progress.pending + all_objects(pages) =~= Seq::<ObjectMeta>::empty());
    }
}

/// A listing hands out every object of every page once, in order, whether or not pages are empty.
pub proof fn law_listing_hands_out_every_object(pages: Seq<ListPage>)
    requires
        is_whole(pages),
    ensures
        handed_out(Progress::start(), pages) == all_objects(pages),
{
    lemma_handed_out(Progress::start(), pages);
    assert(Progress::start().pending + all_objects(pages) =~= all_objects(pages));
}

/// Everything that a listing by folders has found.
#[derive(Debug)]
pub struct ListResult {
    pub common_prefixes: Vec<String>,
    pub objects: Vec<ObjectMeta>,
}

impl ListResult {
    /// Nothing yet.
    pub fn new() -> (found: ListResult)
        ensures
            found.common_prefixes@ == Seq::<String>::empty(),
            found.objects@ == Seq::<ObjectMeta>::empty(),
    {
        ListResult { common_prefixes: Vec::new(), objects: Vec::new() }
    }

    /// Adds a page and says where the next one starts, if there is one.
    pub fn extend(&mut self, page: ListPage) -> (next: Option<String>)
        ensures
            final(self).objects@ == old(self).objects@ + page.objects@,
            final(self).common_prefixes@ == old(self).common_prefixes@ + page.prefixes@,
            next == page.cursor,
    {
        let mut objects: Vec<ObjectMeta> = page.objects;
        let mut prefixes: Vec<String> = page.prefixes;
        self.objects.append(&mut objects);
        self.common_prefixes.append(&mut prefixes);
        page.cursor
    }
}

/// The folders of pages, page by page.
pub open spec fn all_folders(pages: Seq<ListPage>) -> Seq<String>
    decreases pages.len(),
{
    if pages.len() == 0 {
        Seq::empty()
    } else {
        pages[0].prefixes@ + all_folders(pages.skip(1))
    }
}

/// The folders that have been found after these pages have been added in turn.
pub open spec fn folders_after(found: Seq<String>, pages: Seq<ListPage>) -> Seq<String>
    decreases pages.len(),
{
    if pages.len() == 0 {
        found
    } else {
        folders_after(found + pages[0].prefixes@, pages.skip(1))
    }
}

proof fn lemma_folders_after(found: Seq<String>, pages: Seq<ListPage>)
    ensures
        folders_after(found, pages) == found + all_folders(pages),
    decreases pages.len(),
{
    if pages.len() == 0 {
        assert(found + all_folders(pages) =~= found);
    } else {
        lemma_folders_after(found + pages[0].prefixes@, pages.skip(1));
        assert((found + pages[0].prefixes@) + all_folders(pages.skip(1)) =~= found + (
        pages[0].prefixes@ + all_folders(pages.skip(1))));
    }
}

/// Listing by folders finds the folders of every page, in order.
pub proof fn law_every_folder_is_found(pages: Seq<ListPage>)
    ensures
        folders_after(Seq::empty(), pages) == all_folders(pages),
{
    lemma_folders_after(Seq::empty(), pages);
    assert(Seq::<String>::empty() + all_folders(pages) =~= all_folders(pages));
}

/// What has been found after these pages have been added in turn.
pub open spec fn found_after(found: Seq<ObjectMeta>, pages: Seq<ListPage>) -> Seq<ObjectMeta>
    decreases pages.len(),
{
    if pages.len() == 0 {
        found
    } else {
        found_after(found + pages[0].objects@, pages.skip(1))
    }
}

proof fn lemma_found_after(found: Seq<ObjectMeta>, pages: Seq<ListPage>)
    ensures
        found_after(found, pages) == found + all_objects(pages),
    decreases pages.len(),
{
    if pages.len() == 0 {
        assert(found + all_objects(pages) =~= found);
    } else {
        lemma_found_after(found + pages[0].objects@, pages.skip(1));
        assert((found + pages[0].objects@) + all_objects(pages.skip(1)) =~= found + (
        pages[0].objects@ + all_objects(pages.skip(1))));
    }
}

/// Listing one by one and listing by folders find the same objects in the same pages.
pub proof fn law_both_listings_find_the_same(pages: Seq<ListPage>)
    requires
        is_whole(pages),
    ensures
        found_after(Seq::empty(), pages) == handed_out(Progress::start(), pages),
{
    lemma_found_after(Seq::empty(), pages);
    law_listing_hands_out_every_object(pages);
    assert(Seq::<ObjectMeta>::empty() + all_objects(pages) =~= all_objects(pages));
}

/// A listing starts with nothing to hand out and from the first page; handing an object out takes
/// that one and nothing else; a page that arrives is what is handed out next, its cursor is where the
/// listing goes on, and without one the listing has all.
pub proof fn law_listings_go_on_where_a_page_ends(progress: Progress, page: ListPage)
    ensures
        Progress::start().pending.len() == 0 && Progress::start().cursor is None
            && !Progress::start().finished,
        progress.pending.len() > 0 ==> seq![progress.pending[0]] + progress.after_item().pending
            == progress.pending,
        progress.after_item().cursor == progress.cursor && progress.after_item().finished
            == progress.finished,
        progress.after_page(page).pending == page.objects@,
        page.cursor matches Some(cursor) ==> progress.after_page(page).cursor == Some(cursor@)
            && !progress.after_page(page).finished,
        page.cursor is None ==> progress.after_page(page).cursor is None && progress.after_page(
            page,
        ).finished,
{
    if progress.pending.len() > 0 {
        assert(seq![progress.pending[0]] + progress.pending.drop_first() =~= progress.pending);
    }
}

/// The objects and the folders of two runs of pages are those of the one and then those of the other,
/// and those of one page are its own.
pub proof fn law_pages_add_up(left: Seq<ListPage>, right: Seq<ListPage>, page: ListPage)
    ensures
        all_objects(left + right) == all_objects(left) + all_objects(right),
        all_folders(left + right) == all_folders(left) + all_folders(right),
        all_objects(seq![page]) == page.objects@,
        all_folders(seq![page]) == page.prefixes@,
    decreases left.len(),
{
    assert(seq![page].skip(1) =~= Seq::<ListPage>::empty());
    assert(all_objects(seq![page].skip(1)) =~= Seq::<ObjectMeta>::empty());
    assert(all_folders(seq![page].skip(1)) =~= Seq::<String>::empty());
    assert(page.objects@ + Seq::<ObjectMeta>::empty() =~= page.objects@);
    assert(page.prefixes@ + Seq::<String>::empty() =~= page.prefixes@);
    if left.len() == 0 {
        assert(left + right =~= right);
        assert(all_objects(left) + all_objects(right) =~= all_objects(right));
        assert(all_folders(left) + all_folders(right) =~= all_folders(right));
    } else {
        let rest = left.skip(1);
        law_pages_add_up(rest, right, page);
        assert((left + right).skip(1) =~= rest + right);
        assert(left[0].objects@ + (all_objects(rest) + all_objects(right)) =~= (left[0].objects@
            + all_objects(rest)) + all_objects(right));
        assert(left[0].prefixes@ + (all_folders(rest) + all_folders(right)) =~= (left[0].prefixes@
            + all_folders(rest)) + all_folders(right));
    }
}

/// A listing by folders makes one path of each folder, in order: that of the folder's name without
/// the slashes at its end. A name of plain segments is its own path.
pub proof fn law_folders_lose_only_their_last_slashes(
    prefixes: Seq<Seq<char>>,
    at: int,
    name: Seq<char>,
    slashes: Seq<char>,
)
    requires
        0 <= at < prefixes.len(),
        prefixes[at] == name + slashes,
        name.len() > 0 ==> name.last() != '/',
        forall|i: int| 0 <= i < slashes.len() ==> slashes[i] == '/',
    ensures
        folder_paths(prefixes).len() == prefixes.len(),
        is_plain_path(name) ==> folder_paths(prefixes)[at] == name,
        !is_plain_path(name) ==> folder_paths(prefixes)[at] == encoded_path(name),
{
    let text = prefixes[at];
    let rest = trimmed_end(text, '/');
    law_trimming_takes_one_character(text, '/');
    if rest.len() > name.len() {
        assert(rest.last() == text[rest.len() - 1]);
        assert(text[rest.len() - 1] == slashes[rest.len() - 1 - name.len()]);
    }
    if rest.len() < name.len() {
        assert(text[name.len() - 1] == name.last());
    }
    assert(rest =~= name);
}

/// What is known of objects is known one for one and in order.
pub proof fn law_metas_are_one_for_one(objects: Seq<ObjectMeta>)
    ensures
        metas(objects).len() == objects.len(),
        forall|i: int| 0 <= i < objects.len() ==> #[trigger] metas(objects)[i] == objects[i]@,
{
}

} // verus!
