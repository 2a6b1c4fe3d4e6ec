//! The data loader's bookkeeping: the item list and its version counter.
//!
//! Fetching and parsing a feed is the embedding program's work. What it
//! fetched is handed over as plain posts, and this module decides what the
//! item list becomes, when the version moves, and whether the first page has
//! to be loaded in full. The type of a publication date is left open: a date
//! is carried from a post to its item and never read.

use vstd::prelude::*;
use vstd::string::*;

verus! {

/// The site that the feed describes. Every post's address is relative to it.
pub const BASE_URL: &'static str = "https://viddrobnic.com";

/// Where under `BASE_URL` the list of posts is served.
pub const PAGES_PATH: &'static str = "/api/pages.json";

/// What precedes the cause in the text shown for an item that failed to load.
pub const LOAD_FAILURE_PREFIX: &'static str = "Failed loading item: ";

/// One entry of the fetched feed.
pub struct Post<D> {
    pub title: String,
    pub url: String,
    pub pub_date: Option<D>,
}

/// One entry of the item list that the embedded application shows.
pub struct Item<D> {
    pub id: String,
    pub channel_name: String,
    pub title: String,
    pub description: Option<String>,
    pub pub_date: Option<D>,
    pub link: String,
    pub read: bool,
}

/// How a refresh ended, as the embedded application is told.
#[derive(Clone, Copy, Debug, PartialEq, Eq, Structural)]
pub enum RefreshStatus {
    Success,
    Failure,
}

/// The result of one refresh.
pub struct Refresh {
    pub status: RefreshStatus,
    /// The address of the page to load in full right away, if there is one.
    pub about_url: Option<String>,
}

/// A post as a mathematical value.
pub struct PostView<D> {
    pub title: Seq<char>,
    pub url: Seq<char>,
    pub pub_date: Option<D>,
}

/// An item as a mathematical value.
pub struct ItemView<D> {
    pub id: Seq<char>,
    pub channel_name: Seq<char>,
    pub title: Seq<char>,
    pub description: Option<Seq<char>>,
    pub pub_date: Option<D>,
    pub link: Seq<char>,
    pub read: bool,
}

impl<D> View for Post<D> {
    type V = PostView<D>;

    open spec fn view(&self) -> PostView<D> {
        PostView { title: self.title@, url: self.url@, pub_date: self.pub_date }
    }
}

impl<D> View for Item<D> {
    type V = ItemView<D>;

    open spec fn view(&self) -> ItemView<D> {
        ItemView {
            id: self.id@,
            channel_name: self.channel_name@,
            title: self.title@,
            description: match self.description {
                Some(text) => Some(text@),
                None => None,
            },
            pub_date: self.pub_date,
            link: self.link@,
            read: self.read,
        }
    }
}

/// The views of a list of posts, in order.
pub open spec fn post_views<D>(posts: Seq<Post<D>>) -> Seq<PostView<D>> {
    Seq::new(posts.len(), |i: int| posts[i]@)
}

/// The views of a list of items, in order.
pub open spec fn item_views<D>(items: Seq<Item<D>>) -> Seq<ItemView<D>> {
    Seq::new(items.len(), |i: int| items[i]@)
}

/// The absolute address of the page at `url`.
pub open spec fn link_of(url: Seq<char>) -> Seq<char> {
    BASE_URL@ + url
}

/// The item that a post becomes: named by its address, unread, without
/// channel name or description.
pub open spec fn item_of<D>(post: PostView<D>) -> ItemView<D> {
    ItemView {
        id: post.url,
        channel_name: Seq::empty(),
        title: post.title,
        description: None,
        pub_date: post.pub_date,
        link: link_of(post.url),
        read: false,
    }
}

/// The item list that a feed becomes: one item for each post, in feed order.
pub open spec fn items_of<D>(posts: Seq<PostView<D>>) -> Seq<ItemView<D>> {
    Seq::new(posts.len(), |i: int| item_of(posts[i]))
}

/// The page to load in full after a refresh: the first post's, and only as
/// long as no feed has been loaded before.
pub open spec fn about_url_of<D>(version: u16, posts: Seq<PostView<D>>) -> Option<Seq<char>> {
    if version == 0 && posts.len() > 0 {
        Some(link_of(posts[0].url))
    } else {
        None
    }
}

/// The text shown in place of an item's content.
pub open spec fn loaded_text_of(fetched: Result<Seq<char>, Seq<char>>) -> Seq<char> {
    match fetched {
        Ok(text) => text,
        Err(cause) => LOAD_FAILURE_PREFIX@ + cause,
    }
}

/// The address from which the list of posts is fetched.
pub fn pages_url() -> (url: String)
    ensures
        url@ == BASE_URL@ + PAGES_PATH@,
{
    String::from_str(BASE_URL).concat(PAGES_PATH)
}

/// Turns one fetched post into an item of the list.
pub fn item_from_post<D>(post: Post<D>) -> (item: Item<D>)
    ensures
        item@ == item_of(post@),
{
    let link = String::from_str(BASE_URL).concat(post.url.as_str());
    Item {
        id: post.url,
        channel_name: String::new(),
        title: post.title,
        description: None,
        pub_date: post.pub_date,
        link,
        read: false,
    }
}

/// Turns a fetched feed into the item list, keeping the feed's order.
pub fn items_from_posts<D>(posts: Vec<Post<D>>) -> (items: Vec<Item<D>>)
    ensures
        item_views(items@) == items_of(post_views(posts@)),
{
    let mut items: Vec<Item<D>> = Vec::new();
    for post in it: posts.into_iter()
        invariant
            it.seq() == posts@,
            items.len() == it.index(),
            forall|i: int| 0 <= i < items.len() ==> (#[trigger] items[i])@ == item_of(posts[i]@),
    {
        items.push(item_from_post(post));
    }
    assert(item_views(items@) =~= items_of(post_views(posts@)));
    items
}

/// The text to show for an item whose content was asked for: the content
/// itself, or a line that names why it could not be had.
pub fn loaded_text(fetched: Result<String, String>) -> (text: String)
    ensures
        text@ == loaded_text_of(
            match fetched {
                Ok(body) => Ok(body@),
                Err(cause) => Err(cause@),
            },
        ),
{
    match fetched {
        Ok(body) => body,
        Err(cause) => String::from_str(LOAD_FAILURE_PREFIX).concat(cause.as_str()),
    }
}

/// The item list of one feed together with the count of its refreshes.
pub struct Loader<D> {
    data: Vec<Item<D>>,
    version: u16,
}

impl<D> Loader<D> {
    /// The items held, in feed order.
    pub closed spec fn items(&self) -> Seq<ItemView<D>> {
        item_views(self.data@)
    }

    /// How many refreshes have succeeded.
    pub closed spec fn version(&self) -> u16 {
        self.version
    }

    /// A loader that holds nothing yet.
    pub fn new() -> (loader: Self)
        ensures
            loader.items() == Seq::<ItemView<D>>::empty(),
            loader.version() == 0,
    {
        let loader = Loader { data: Vec::new(), version: 0 };
        assert(loader.items() =~= Seq::<ItemView<D>>::empty());
        loader
    }

    /// The current item list.
    pub fn get_items(&self) -> (items: &Vec<Item<D>>)
        ensures
            item_views(items@) == self.items(),
    {
        &self.data
    }

    /// The version counter. It moves whenever the item list was replaced, so
    /// a reader that remembers it can tell new data from old without
    /// comparing items.
    pub fn get_version(&self) -> (version: u16)
        ensures
            version == self.version(),
    {
        self.version
    }

    /// Takes in the outcome of one fetch of the feed.
    ///
    /// A failed fetch (`None`) leaves everything as it was and reports
    /// `Failure`. A fetched feed replaces the item list and moves the version
    /// counter by one. The very first feed also names the page to load in
    /// full: its first post's.
    pub fn refresh(&mut self, fetched: Option<Vec<Post<D>>>) -> (outcome: Refresh)
        requires
            fetched is Some ==> old(self).version() < u16::MAX,
        ensures
            match fetched {
                None => {
                    &&& outcome.status == RefreshStatus::Failure
                    &&& outcome.about_url is None
                    &&& *final(self) == *old(self)
                },
                Some(posts) => {
                    &&& outcome.status == RefreshStatus::Success
                    &&& final(self).items() == items_of(post_views(posts@))
                    &&& final(self).version() == old(self).version() + 1
                    &&& match about_url_of(old(self).version(), post_views(posts@)) {
                        Some(url) => outcome.about_url is Some && outcome.about_url->0@ == url,
                        None => outcome.about_url is None,
                    }
                },
            },
    {
        match fetched {
            None => Refresh { status: RefreshStatus::Failure, about_url: None },
            Some(posts) => {
                let items = items_from_posts(posts);
                let about_url = if self.version == 0 && items.len() > 0 {
                    assert(items[0]@ == items_of(post_views(posts@))[0]);
                    Some(items[0].link.clone())
                } else {
                    None
                };
                self.data = items;
                self.version = self.version + 1;
                Refresh { status: RefreshStatus::Success, about_url }
            },
        }
    }

    /// Marking an item as read is not kept: the list always shows what the
    /// feed holds.
    pub fn set_read(&mut self, _index: usize, _read: bool)
        ensures
            *final(self) == *old(self),
    {
    }
}

} // verus!
