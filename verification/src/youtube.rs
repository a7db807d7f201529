//! Catalog synchronization logic: the submission record for a create call,
//! the read-merge-write description update, cursor pagination, playlist
//! membership, and resolution of the account's uploads container. The
//! network transport lives outside the library and hands these functions
//! plain values.

use crate::calendar::Date;
use crate::error::Error;
use crate::options::{ChangeMode, UploadOptions};
use crate::strutil::{split_char_spec, trim_end, trim_end_spec, views_of};
use vstd::prelude::*;

verus! {

// ---------------------------------------------------------------------------
// Video records
// ---------------------------------------------------------------------------

/// Minimal information about one catalog entry.
#[derive(Debug, Clone)]
pub struct YtVid {
    pub id: String,
    pub title: String,
    pub description: String,
}

/// Mathematical view of a [`YtVid`].
pub struct VidView {
    pub id: Seq<char>,
    pub title: Seq<char>,
    pub description: Seq<char>,
}

impl View for YtVid {
    type V = VidView;

    open spec fn view(&self) -> VidView {
        VidView { id: self.id@, title: self.title@, description: self.description@ }
    }
}

impl YtVid {
    /// The record read for an entry id: the entry's title and description
    /// when the service returned snippet data, and an empty-valued record
    /// (not an error) when it did not.
    pub fn from_id(video_id: &str, snippet: Option<(String, String)>) -> (r: YtVid)
        ensures
            r.id@ == video_id@,
            snippet matches Some(s) ==> r.title@ == s.0@ && r.description@ == s.1@,
            snippet is None ==> r.title@ == Seq::<char>::empty() && r.description@
                == Seq::<char>::empty(),
    {
        match snippet {
            Some((title, description)) => YtVid { id: video_id.to_owned(), title, description },
            None => YtVid {
                id: video_id.to_owned(),
                title: String::new(),
                description: String::new(),
            },
        }
    }
}

// ---------------------------------------------------------------------------
// The editable snippet and merge-safe description updates
// ---------------------------------------------------------------------------

/// The editable snippet of a catalog entry. The whole snippet is read before
/// an update and submitted back whole: the protocol resets omitted fields to
/// their defaults, so a partial update would clobber them. Fields this
/// system never edits ride along verbatim in `extra`.
#[derive(Debug, Clone)]
pub struct EntrySnippet {
    pub title: String,
    pub description: String,
    pub tags: Vec<String>,
    pub category_id: String,
    pub extra: Vec<(String, String)>,
}

/// The description after a merge: appending and prepending first trim
/// trailing white space from the existing text; replacing discards it.
pub open spec fn merged_description(old_desc: Seq<char>, text: Seq<char>, mode: ChangeMode) -> Seq<
    char,
> {
    match mode {
        ChangeMode::Append => trim_end_spec(old_desc) + text,
        ChangeMode::Replace => text,
        ChangeMode::Prepend => text + trim_end_spec(old_desc),
    }
}

/// Apply a description change to a fetched snippet. Only the description
/// changes; title, tags, category and all other fields are left exactly as
/// they were read, so submitting the result cannot clobber them.
pub fn apply_description_change(snippet: &mut EntrySnippet, text: &str, mode: ChangeMode)
    ensures
        final(snippet).description@ == merged_description(old(snippet).description@, text@, mode),
        final(snippet).title == old(snippet).title,
        final(snippet).tags == old(snippet).tags,
        final(snippet).category_id == old(snippet).category_id,
        final(snippet).extra == old(snippet).extra,
{
    match mode {
        ChangeMode::Append => {
            let mut nd = trim_end(snippet.description.as_str()).to_owned();
            nd.append(text);
            snippet.description = nd;
        },
        ChangeMode::Replace => {
            snippet.description = text.to_owned();
        },
        ChangeMode::Prepend => {
            let mut nd = text.to_owned();
            nd.append(trim_end(snippet.description.as_str()));
            snippet.description = nd;
        },
    }
}

// ---------------------------------------------------------------------------
// Cursor pagination
// ---------------------------------------------------------------------------

/// How many items a listing asks for per page; the service caps page sizes
/// at its own maximum (50).
pub const DEFAULT_PAGE_SIZE: u32 = 10;

/// One item of a fetched listing page; the title and description may be
/// absent.
#[derive(Debug, Clone)]
pub struct PageItem {
    pub video_id: String,
    pub title: Option<String>,
    pub description: Option<String>,
}

/// One fetched page: its items and the continuation cursor, whose absence is
/// the only termination signal of a listing.
#[derive(Debug, Clone)]
pub struct Page {
    pub items: Vec<PageItem>,
    pub next_cursor: Option<String>,
}

/// The given text, or the `n.a.` placeholder when there is none.
pub open spec fn text_or_na(t: Option<String>) -> Seq<char> {
    match t {
        Some(s) => s@,
        None => "n.a."@,
    }
}

/// The given text, or the `n.a.` placeholder when there is none.
pub fn or_na(t: Option<String>) -> (r: String)
    ensures
        r@ == text_or_na(t),
{
    match t {
        Some(s) => s,
        None => String::from_str("n.a."),
    }
}

/// The video record a page item denotes.
pub open spec fn item_vid_view(it: PageItem) -> VidView {
    VidView {
        id: it.video_id@,
        title: text_or_na(it.title),
        description: text_or_na(it.description),
    }
}

/// The video records of a sequence of page items.
pub open spec fn item_views(items: Seq<PageItem>) -> Seq<VidView> {
    items.map_values(|it: PageItem| item_vid_view(it))
}

/// The views of a sequence of video records.
pub open spec fn vid_views(vids: Seq<YtVid>) -> Seq<VidView> {
    vids.map_values(|v: YtVid| v@)
}

/// One playlist item as a video record, with `n.a.` standing in for absent
/// titles and descriptions.
pub fn video_from_item(item: PageItem) -> (r: YtVid)
    ensures
        r@ == item_vid_view(item),
{
    let PageItem { video_id, title, description } = item;
    YtVid { id: video_id, title: or_na(title), description: or_na(description) }
}

/// Accumulator of a paginated listing. Pages are folded in one at a time,
/// in the order the service returns them; the listing ends when a page
/// carries no continuation cursor. A server that never omits the cursor
/// would keep the listing going: that open risk is inherited from the
/// protocol, whose only termination signal is the cursor's absence.
pub struct PageList {
    pub videos: Vec<YtVid>,
}

impl PageList {
    /// An empty accumulator.
    pub fn new() -> (r: PageList)
        ensures
            r.videos@.len() == 0,
    {
        PageList { videos: Vec::new() }
    }

    /// Fold one fetched page into the accumulator: its items are appended
    /// in order. Returns the page's continuation cursor, with which the
    /// caller fetches the next page; no cursor means the listing is done.
    pub fn take_page(&mut self, page: Page) -> (cursor: Option<String>)
        ensures
            vid_views(final(self).videos@) == vid_views(old(self).videos@) + item_views(
                page.items@,
            ),
            cursor == page.next_cursor,
    {
        let Page { items, next_cursor } = page;
        let ghost all = items@;
        let mut rest = items;
        let ghost mut k: int = 0;
        proof {
            assert(rest@ =~= all.skip(0));
            assert(item_views(all.take(0)) =~= Seq::<VidView>::empty());
            assert(vid_views(self.videos@) + item_views(all.take(0)) =~= vid_views(self.videos@));
        }
        while rest.len() > 0
            invariant
                0 <= k <= all.len(),
                rest@ == all.skip(k),
                vid_views(self.videos@) == vid_views(old(self).videos@) + item_views(all.take(k)),
            decreases rest.len(),
        {
            let it = rest.remove(0);
            proof {
                assert(it == all[k]);
            }
            let v = video_from_item(it);
            let ghost prev = self.videos@;
            self.videos.push(v);
            proof {
                assert(rest@ =~= all.skip(k + 1));
                assert(all.take(k + 1) =~= all.take(k).push(all[k]));
                assert(item_views(all.take(k + 1)) =~= item_views(all.take(k)).push(
                    item_vid_view(all[k]),
                ));
                assert(vid_views(prev.push(v)) =~= vid_views(prev).push(v@));
                assert(vid_views(self.videos@) =~~= vid_views(old(self).videos@) + item_views(
                    all.take(k + 1),
                ));
                k = k + 1;
            }
        }
        proof {
            assert(all.take(k) =~= all);
        }
        next_cursor
    }
}

/// The items of a sequence of pages, flattened in page order.
pub open spec fn pages_flatten(pages: Seq<Seq<VidView>>) -> Seq<VidView>
    decreases pages.len(),
{
    if pages.len() == 0 {
        Seq::<VidView>::empty()
    } else {
        pages[0] + pages_flatten(pages.skip(1))
    }
}

/// Folding pages into an accumulator one at a time, as repeated
/// [`PageList::take_page`] calls do.
pub open spec fn collect_pages(acc: Seq<VidView>, pages: Seq<Seq<VidView>>) -> Seq<VidView>
    decreases pages.len(),
{
    if pages.len() == 0 {
        acc
    } else {
        collect_pages(acc + pages[0], pages.skip(1))
    }
}

/// A paginated listing returns exactly the concatenation of all pages'
/// items, in page order: folding the pages one at a time into an
/// accumulator yields the accumulator followed by the flattened pages.
pub proof fn lemma_pagination_concatenates(acc: Seq<VidView>, pages: Seq<Seq<VidView>>)
    ensures
        collect_pages(acc, pages) == acc + pages_flatten(pages),
    decreases pages.len(),
{
    if pages.len() == 0 {
        assert(acc + Seq::<VidView>::empty() =~= acc);
    } else {
        lemma_pagination_concatenates(acc + pages[0], pages.skip(1));
        assert((acc + pages[0]) + pages_flatten(pages.skip(1)) =~= acc + (pages[0] + pages_flatten(
            pages.skip(1),
        )));
    }
}

// ---------------------------------------------------------------------------
// Uploads container resolution
// ---------------------------------------------------------------------------

/// Resolve the account's default uploads container from the channel listing:
/// each element carries one channel's uploads playlist id, when the service
/// reported one. No channels means there is nothing to list; a first channel
/// without an uploads playlist is a protocol violation.
pub fn uploads_playlist_id(channels: Vec<Option<String>>) -> (r: Result<Option<String>, Error>)
    ensures
        r is Ok <==> (channels@.len() == 0 || channels@[0] is Some),
        channels@.len() == 0 ==> (r matches Ok(c) && c is None),
        channels@.len() > 0 && channels@[0] is Some ==> (r matches Ok(c) && c matches Some(rid)
            && rid == channels@[0]->Some_0),
        r matches Err(e) ==> e matches Error::Transport { detail } && detail@
            == "channel without uploads playlist"@,
{
    let mut channels = channels;
    if channels.len() == 0 {
        return Ok(None);
    }
    match channels.remove(0) {
        Some(id) => Ok(Some(id)),
        None => Err(
            Error::Transport { detail: String::from_str("channel without uploads playlist") },
        ),
    }
}

// ---------------------------------------------------------------------------
// The submission record of a create call
// ---------------------------------------------------------------------------

/// Everything a create call submits about the new entry, derived from the
/// upload configuration; the made-for-kids flag is fixed to false.
#[derive(Debug, Clone)]
pub struct Submission {
    pub title: String,
    pub description: String,
    pub tags: Vec<String>,
    pub category_id: String,
    pub default_language: String,
    pub privacy_status: String,
    pub publish_at: String,
    pub made_for_kids: bool,
}

/// Build the submission record of a create call: canonical title, the
/// description as given, the split keyword list, category and privacy wire
/// labels, the resolved publish timestamp, and the made-for-kids flag fixed
/// to false. Fails exactly when the publish date cannot be resolved.
pub fn build_submission(opts: &UploadOptions, today: Date) -> (r: Result<Submission, Error>)
    requires
        today.wf(),
        opts.title_wf(),
    ensures
        r is Ok <==> opts.publish_spec(today) is Some,
        r matches Ok(s) ==> s.title@ == opts.title_seq() && s.description@ == opts.description@
            && views_of(s.tags@) == split_char_spec(opts.keywords@, ',') && s.category_id@
            == opts.category.id_chars() && s.default_language@ == "en"@ && s.privacy_status@
            == opts.privacy_status.label_chars() && Some(s.publish_at@) == opts.publish_spec(today)
            && s.made_for_kids == false,
        r matches Err(e) ==> opts.publish_err_matches(today, e),
{
    let publish_at = match opts.publish_datetime(today) {
        Ok(ts) => ts,
        Err(e) => {
            return Err(e);
        },
    };
    Ok(
        Submission {
            title: opts.title(),
            description: opts.description.clone(),
            tags: opts.tags(),
            category_id: opts.category.id_string(),
            default_language: String::from_str("en"),
            privacy_status: opts.privacy_status.label(),
            publish_at,
            made_for_kids: false,
        },
    )
}

// ---------------------------------------------------------------------------
// Playlist membership
// ---------------------------------------------------------------------------

/// Membership of a catalog entry in a playlist; append-only from this
/// system's perspective.
#[derive(Debug, Clone)]
pub struct PlaylistMembership {
    pub playlist_id: String,
    pub video_id: String,
}

impl PlaylistMembership {
    /// The membership record inserted by an add-to-playlist call.
    pub fn new(playlist_id: &str, video_id: &str) -> (r: PlaylistMembership)
        ensures
            r.playlist_id@ == playlist_id@,
            r.video_id@ == video_id@,
    {
        PlaylistMembership { playlist_id: playlist_id.to_owned(), video_id: video_id.to_owned() }
    }
}

} // verus!
