//! The navigation state machine: a requested page is resolved against the
//! feed registry into concrete renderable state, and every resolution resets
//! the scroll offset to zero. The scroll offset itself moves by single steps
//! and floors at zero.

use vstd::prelude::*;

use crate::feed::{Feed, FeedV, Item, ItemV};

verus! {

/// A navigation request: what the caller intends to show.
#[derive(Debug, PartialEq, Eq)]
pub enum Page {
    /// Show nothing.
    Empty,
    /// Show the feed with this identifier.
    Feed(String),
    /// Show this item, carried by value so it survives the feed's later
    /// mutation.
    Article(Item),
}

/// The mathematical value of a [`Page`].
pub ghost enum PageV {
    Empty,
    Feed(Seq<char>),
    Article(ItemV),
}

impl View for Page {
    type V = PageV;

    open spec fn view(&self) -> PageV {
        match self {
            Page::Empty => PageV::Empty,
            Page::Feed(id) => PageV::Feed(id@),
            Page::Article(item) => PageV::Article(item@),
        }
    }
}

/// The outcome of resolving a navigation request against the registry.
#[derive(Debug, PartialEq, Eq)]
pub enum PageState {
    /// The request was empty, or the lookup found nothing.
    Empty,
    /// A feed view: the identifier and an immutable snapshot of the feed
    /// at resolution time.
    Feed { id: String, feed: Feed },
    /// An article view: the item and its identifier.
    Article { id: String, item: Item },
}

/// The mathematical value of a [`PageState`].
pub ghost enum PageStateV {
    Empty,
    Feed { id: Seq<char>, feed: FeedV },
    Article { id: Seq<char>, item: ItemV },
}

impl View for PageState {
    type V = PageStateV;

    open spec fn view(&self) -> PageStateV {
        match self {
            PageState::Empty => PageStateV::Empty,
            PageState::Feed { id, feed } => PageStateV::Feed { id: id@, feed: feed@ },
            PageState::Article { id, item } => PageStateV::Article { id: id@, item: item@ },
        }
    }
}

/// Relies on str's `PartialEq`: two string slices are equal exactly when
/// their character sequences are.
#[verifier::external_body]
fn str_eq(a: &str, b: &str) -> (r: bool)
    ensures
        r == (a@ == b@),
{
    a == b
}

/// The first feed in the sequence carrying the given identifier.
pub open spec fn lookup(s: Seq<FeedV>, id: Seq<char>) -> Option<FeedV>
    decreases s.len(),
{
    if s.len() == 0 {
        None
    } else if s[0].id == id {
        Some(s[0])
    } else {
        lookup(s.drop_first(), id)
    }
}

proof fn lemma_lookup_none_iff(s: Seq<FeedV>, id: Seq<char>)
    ensures
        (lookup(s, id) is None) <==> (forall|k: int|
            0 <= k < s.len() ==> (#[trigger] s[k]).id != id),
    decreases s.len(),
{
    if s.len() != 0 {
        lemma_lookup_none_iff(s.drop_first(), id);
        assert(forall|k: int|
            0 <= k < s.drop_first().len() ==> #[trigger] s.drop_first()[k] == s[k + 1]);
        if s[0].id != id && (lookup(s.drop_first(), id) is None) {
            assert forall|k: int| 0 <= k < s.len() implies (#[trigger] s[k]).id != id by {
                if k > 0 {
                    assert(s.drop_first()[k - 1] == s[k]);
                }
            }
        }
    }
}

proof fn lemma_lookup_snoc(s: Seq<FeedV>, f: FeedV, id: Seq<char>)
    ensures
        lookup(s.push(f), id) == if lookup(s, id) is Some {
            lookup(s, id)
        } else if f.id == id {
            Some(f)
        } else {
            None
        },
    decreases s.len(),
{
    if s.len() == 0 {
        assert(s.push(f)[0] == f);
        assert(s.push(f).drop_first() =~= Seq::<FeedV>::empty());
    } else {
        assert(s.push(f)[0] == s[0]);
        assert(s.push(f).drop_first() =~= s.drop_first().push(f));
        lemma_lookup_snoc(s.drop_first(), f, id);
    }
}

proof fn lemma_lookup_update_first(s: Seq<FeedV>, i: int, f: FeedV, id: Seq<char>)
    requires
        0 <= i < s.len(),
        s[i].id == f.id,
        forall|k: int| 0 <= k < i ==> (#[trigger] s[k]).id != f.id,
    ensures
        lookup(s.update(i, f), id) == if id == f.id {
            Some(f)
        } else {
            lookup(s, id)
        },
    decreases i,
{
    let u = s.update(i, f);
    if i == 0 {
        assert(u[0] == f);
        assert(u.drop_first() =~= s.drop_first());
        if id != f.id {
            assert(s[0].id == f.id);
        }
    } else {
        assert(u[0] == s[0]);
        assert(s[0].id != f.id);
        assert(u.drop_first() =~= s.drop_first().update(i - 1, f));
        assert(s.drop_first()[i - 1] == s[i]);
        assert(forall|k: int|
            0 <= k < i - 1 ==> #[trigger] s.drop_first()[k] == s[k + 1]);
        lemma_lookup_update_first(s.drop_first(), i - 1, f, id);
    }
}

/// The registry of feeds, keyed by feed identifier. Its view is the
/// sequence of feeds it holds, looked up first-match by identifier.
#[derive(Debug)]
pub struct Feeds {
    entries: Vec<Feed>,
}

impl View for Feeds {
    type V = Seq<FeedV>;

    closed spec fn view(&self) -> Seq<FeedV> {
        self.entries.deep_view()
    }
}

impl Feeds {
    /// The feed registered under the given identifier, if any.
    pub open spec fn spec_get(self, id: Seq<char>) -> Option<FeedV> {
        lookup(self@, id)
    }

    /// An empty registry.
    pub fn new() -> (r: Feeds)
        ensures
            r@ == Seq::<FeedV>::empty(),
    {
        let r = Feeds { entries: Vec::new() };
        proof {
            assert(r@ =~= Seq::<FeedV>::empty());
        }
        r
    }

    /// Looks a feed up by identifier.
    pub fn get(&self, id: &str) -> (r: Option<&Feed>)
        ensures
            match r {
                Some(f) => self.spec_get(id@) == Some(f@),
                None => self.spec_get(id@) is None,
            },
    {
        let mut i: usize = 0;
        proof {
            assert(self@.skip(0) =~= self@);
        }
        while i < self.entries.len()
            invariant
                i <= self.entries.len(),
                self@.len() == self.entries@.len(),
                lookup(self@, id@) == lookup(self@.skip(i as int), id@),
        decreases self.entries.len() - i,
        {
            proof {
                assert(self@.skip(i as int)[0] == self@[i as int]);
                assert(self@[i as int] == self.entries@[i as int]@);
            }
            if str_eq(self.entries[i].id.as_str(), id) {
                return Some(&self.entries[i]);
            }
            proof {
                assert(self@.skip(i as int).drop_first() =~= self@.skip(i + 1));
            }
            i = i + 1;
        }
        proof {
            assert(self@.skip(i as int) =~= Seq::<FeedV>::empty());
        }
        None
    }

    /// Registers a feed under its identifier, replacing the feed that
    /// identifier named before, if any. Every other identifier resolves as
    /// it did.
    pub fn insert(&mut self, f: Feed)
        ensures
            final(self).spec_get(f@.id) == Some(f@),
            forall|k: Seq<char>|
                k != f@.id ==> #[trigger] final(self).spec_get(k) == old(self).spec_get(k),
    {
        let ghost s: Seq<FeedV> = self@;
        let mut i: usize = 0;
        while i < self.entries.len()
            invariant
                i <= self.entries.len(),
                *self == *old(self),
                s == self@,
                s.len() == self.entries@.len(),
                forall|k: int| 0 <= k < i ==> (#[trigger] s[k]).id != f@.id,
        decreases self.entries.len() - i,
        {
            proof {
                assert(s[i as int] == self.entries@[i as int]@);
            }
            if str_eq(self.entries[i].id.as_str(), f.id.as_str()) {
                self.entries.remove(i);
                self.entries.insert(i, f);
                proof {
                    assert(self@ =~= s.update(i as int, f@));
                    assert forall|k: Seq<char>| k != f@.id implies #[trigger] self.spec_get(k)
                        == lookup(s, k) by {
                        lemma_lookup_update_first(s, i as int, f@, k);
                    }
                    lemma_lookup_update_first(s, i as int, f@, f@.id);
                    assert(self.spec_get(f@.id) == Some(f@));
                }
                return ;
            }
            i = i + 1;
        }
        let ghost fv: FeedV = f@;
        self.entries.push(f);
        proof {
            assert(self@ =~= s.push(fv));
            lemma_lookup_none_iff(s, fv.id);
            assert forall|k: Seq<char>| true implies lookup(s.push(fv), k) == if k == fv.id {
                Some(fv)
            } else {
                lookup(s, k)
            } by {
                lemma_lookup_snoc(s, fv, k);
                if k == fv.id {
                    assert(lookup(s, k) is None);
                }
            }
        }
    }
}

/// The resolved view a navigation request maps to, against a registry. An
/// article request must carry an item with an identifier; `navigate`
/// refuses one without.
pub open spec fn resolve(feeds: Seq<FeedV>, page: PageV) -> PageStateV {
    match page {
        PageV::Empty => PageStateV::Empty,
        PageV::Feed(id) => match lookup(feeds, id) {
            Some(f) => PageStateV::Feed { id: id, feed: f },
            None => PageStateV::Empty,
        },
        PageV::Article(item) => match item.guid {
            Some(g) => PageStateV::Article { id: g, item: item },
            None => PageStateV::Empty,
        },
    }
}

/// The whole navigation state: the scroll offset, the last request
/// applied, the view it resolved to, and the feed registry.
#[derive(Debug)]
pub struct State {
    /// The scroll offset: non-negative, floored at zero.
    pub scroll: u16,
    /// The last navigation request applied.
    pub page: Page,
    /// The view that request resolved to.
    pub page_state: PageState,
    /// The feed registry.
    pub feeds: Feeds,
}

impl State {
    /// A fresh state: nothing requested, nothing resolved, no feeds
    /// registered, scroll at zero.
    pub fn new() -> (r: State)
        ensures
            r.scroll == 0,
            r.page == Page::Empty,
            r.page_state == PageState::Empty,
            r.feeds@ == Seq::<FeedV>::empty(),
    {
        State { scroll: 0, page: Page::Empty, page_state: PageState::Empty, feeds: Feeds::new() }
    }

    /// Resolves a navigation request against the current registry and
    /// applies it: the resolved view replaces the old one, the request is
    /// recorded, and the scroll offset resets to zero. Nothing else
    /// changes. An article request must carry an item with an identifier.
    pub fn navigate(&mut self, page: Page)
        requires
            page matches Page::Article(item) ==> item.guid is Some,
        ensures
            final(self).scroll == 0,
            final(self).page == page,
            final(self).page_state@ == resolve(old(self).feeds@, page@),
            final(self).feeds == old(self).feeds,
    {
        match &page {
            Page::Empty => {
                self.page_state = PageState::Empty;
            },
            Page::Feed(id) => {
                let found = self.feeds.get(id.as_str());
                match found {
                    Some(feed) => {
                        let snap = feed.clone();
                        self.page_state = PageState::Feed { id: id.clone(), feed: snap };
                    },
                    None => {
                        self.page_state = PageState::Empty;
                    },
                }
            },
            Page::Article(item) => {
                let id = match &item.guid {
                    Some(g) => g.clone(),
                    None => String::new(),  // refused by this function's contract
                };
                self.page_state = PageState::Article { id, item: item.clone() };
            },
        }
        self.scroll = 0;
        self.page = page;
    }

    /// A periodic tick: the state machine takes no action on it.
    pub fn on_tick(&self) {
    }

    /// Scrolls up one step; the offset floors at zero and never goes
    /// negative.
    pub fn scroll_up(&mut self)
        ensures
            final(self).scroll == if old(self).scroll > 0 {
                (old(self).scroll - 1) as u16
            } else {
                0u16
            },
            final(self).page == old(self).page,
            final(self).page_state == old(self).page_state,
            final(self).feeds == old(self).feeds,
    {
        if self.scroll > 0 {
            self.scroll = self.scroll - 1;
        }
    }

    /// Scrolls down one step; the offset is unbounded above up to the
    /// machine limit of its type.
    pub fn scroll_down(&mut self)
        requires
            old(self).scroll < u16::MAX,
        ensures
            final(self).scroll == old(self).scroll + 1,
            final(self).page == old(self).page,
            final(self).page_state == old(self).page_state,
            final(self).feeds == old(self).feeds,
    {
        self.scroll = self.scroll + 1;
    }
}

} // verus!
