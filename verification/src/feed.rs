//! Feed aggregation: merges the items of a feed's source documents into one
//! deterministic list, each item tagged with its origin and the whole sorted
//! descending by publish instant. An item whose publish timestamp is missing
//! or unreadable ranks below every item with a readable one.

use vstd::prelude::*;
use vstd::multiset::Multiset;
use vstd::seq_lib::group_to_multiset_ensures;
use vstd::seq_lib::lemma_multiset_commutative;

verus! {

/// Where an item came from: the locator of its source document and that
/// document's title.
#[derive(Debug, PartialEq, Eq)]
pub struct Source {
    pub url: String,
    pub title: Option<String>,
}

/// The mathematical value of a [`Source`].
pub ghost struct SourceV {
    pub url: Seq<char>,
    pub title: Option<Seq<char>>,
}

impl View for Source {
    type V = SourceV;

    open spec fn view(&self) -> SourceV {
        SourceV { url: self.url@, title: self.title.deep_view() }
    }
}

impl DeepView for Source {
    type V = SourceV;

    open spec fn deep_view(&self) -> SourceV {
        self.view()
    }
}

fn clone_opt_string(s: &Option<String>) -> (r: Option<String>)
    ensures
        r == *s,
{
    match s {
        Some(x) => Some(x.clone()),
        None => None,
    }
}

impl Clone for Source {
    fn clone(&self) -> (r: Self)
        ensures
            r == *self,
    {
        Source { url: self.url.clone(), title: clone_opt_string(&self.title) }
    }
}

/// One piece of syndicated content.
#[derive(Debug, PartialEq, Eq)]
pub struct Item {
    /// The item's title.
    pub title: Option<String>,
    /// The item's formatted body.
    pub content: Option<String>,
    /// The publish timestamp, textual, in the syndication interchange format.
    pub pub_date: Option<String>,
    /// The item's unique identifier, an opaque token.
    pub guid: Option<String>,
    /// The source document the item came from, set by aggregation.
    pub source: Option<Source>,
}

/// The mathematical value of an [`Item`].
pub ghost struct ItemV {
    pub title: Option<Seq<char>>,
    pub content: Option<Seq<char>>,
    pub pub_date: Option<Seq<char>>,
    pub guid: Option<Seq<char>>,
    pub source: Option<SourceV>,
}

impl View for Item {
    type V = ItemV;

    open spec fn view(&self) -> ItemV {
        ItemV {
            title: self.title.deep_view(),
            content: self.content.deep_view(),
            pub_date: self.pub_date.deep_view(),
            guid: self.guid.deep_view(),
            source: self.source.deep_view(),
        }
    }
}

impl DeepView for Item {
    type V = ItemV;

    open spec fn deep_view(&self) -> ItemV {
        self.view()
    }
}

impl Clone for Item {
    fn clone(&self) -> (r: Self)
        ensures
            r == *self,
    {
        Item {
            title: clone_opt_string(&self.title),
            content: clone_opt_string(&self.content),
            pub_date: clone_opt_string(&self.pub_date),
            guid: clone_opt_string(&self.guid),
            source: match &self.source {
                Some(s) => Some(s.clone()),
                None => None,
            },
        }
    }
}

/// One parsed source document: a channel with its items.
#[derive(Debug, PartialEq, Eq)]
pub struct Channel {
    /// The channel's name.
    pub title: String,
    /// The locator of the website the channel corresponds to.
    pub link: String,
    /// The channel's items, in document order.
    pub items: Vec<Item>,
}

/// The mathematical value of a [`Channel`].
pub ghost struct ChannelV {
    pub title: Seq<char>,
    pub link: Seq<char>,
    pub items: Seq<ItemV>,
}

impl View for Channel {
    type V = ChannelV;

    open spec fn view(&self) -> ChannelV {
        ChannelV { title: self.title@, link: self.link@, items: self.items.deep_view() }
    }
}

impl DeepView for Channel {
    type V = ChannelV;

    open spec fn deep_view(&self) -> ChannelV {
        self.view()
    }
}

impl Clone for Channel {
    fn clone(&self) -> (r: Self)
        ensures
            r@ == self@,
    {
        let mut items: Vec<Item> = Vec::new();
        let mut i: usize = 0;
        while i < self.items.len()
            invariant
                i <= self.items.len(),
                items@.len() == i,
                forall|k: int| 0 <= k < i ==> items@[k] == self.items@[k],
            decreases self.items.len() - i,
        {
            items.push(self.items[i].clone());
            i = i + 1;
        }
        proof {
            assert(items@ =~= self.items@);
        }
        Channel { title: self.title.clone(), link: self.link.clone(), items }
    }
}

/// Why a source document was rejected: its bytes do not parse as a
/// syndication document.
#[derive(Debug, Clone, Copy, PartialEq, Eq)]
pub enum FetchError {
    Parse,
}

/// What chrono's RFC 2822 parser yields on a timestamp string: the instant
/// as whole seconds since the epoch, or nothing when the string does not
/// parse. The parse is a function of the characters alone.
pub uninterp spec fn rfc2822_ts(s: Seq<char>) -> Option<i64>;

/// Relies on chrono's `DateTime::parse_from_rfc2822` and
/// `DateTime::timestamp`: reads the fixed interchange date-time format used
/// by syndication feeds and gives the instant as seconds since the epoch.
#[verifier::external_body]
fn parse_rfc2822(s: &str) -> (r: Option<i64>)
    ensures
        r == rfc2822_ts(s@),
{
    chrono::DateTime::parse_from_rfc2822(s).ok().map(|d| d.timestamp())
}

/// The publish instant of an item: its timestamp field as the RFC 2822
/// parser reads it; nothing when the field is missing or unreadable.
pub open spec fn item_ts(i: ItemV) -> Option<i64> {
    match i.pub_date {
        Some(d) => rfc2822_ts(d),
        None => None,
    }
}

/// The rank of a publish instant in the descending order: a missing or
/// unreadable instant ranks strictly below every readable one.
pub open spec fn okey(t: Option<i64>) -> int {
    match t {
        Some(s) => s as int,
        None => i64::MIN - 1,
    }
}

/// The sort key of an item.
pub open spec fn key_of(i: ItemV) -> int {
    okey(item_ts(i))
}

/// Computes the publish instant of an item.
fn item_ts_exec(i: &Item) -> (r: Option<i64>)
    ensures
        r == item_ts(i@),
{
    match &i.pub_date {
        Some(d) => parse_rfc2822(d.as_str()),
        None => None,
    }
}

/// Whether `a` ranks at least as high as `b` in the descending order.
fn key_ge(a: &Option<i64>, b: &Option<i64>) -> (r: bool)
    ensures
        r == (okey(*a) >= okey(*b)),
{
    match (a, b) {
        (Some(x), Some(y)) => *x >= *y,
        (Some(_), None) => true,
        (None, None) => true,
        (None, Some(_)) => false,
    }
}

/// An item as aggregation tags it: its origin replaced by the source
/// document it came from, every other attribute kept.
pub open spec fn tag_item(i: ItemV, ch: ChannelV) -> ItemV {
    ItemV {
        title: i.title,
        content: i.content,
        pub_date: i.pub_date,
        guid: i.guid,
        source: Some(SourceV { url: ch.link, title: Some(ch.title) }),
    }
}

/// The items of one source document, tagged with its origin, in document
/// order.
pub open spec fn tagged_items(ch: ChannelV) -> Seq<ItemV> {
    ch.items.map_values(|i: ItemV| tag_item(i, ch))
}

/// The tagged items of all source documents, concatenated in document
/// order.
pub open spec fn all_items(channels: Seq<ChannelV>) -> Seq<ItemV>
    decreases channels.len(),
{
    if channels.len() == 0 {
        Seq::empty()
    } else {
        tagged_items(channels[0]) + all_items(channels.drop_first())
    }
}

proof fn lemma_all_items_concat(a: Seq<ChannelV>, b: Seq<ChannelV>)
    ensures
        all_items(a + b) == all_items(a) + all_items(b),
    decreases a.len(),
{
    if a.len() == 0 {
        assert(a + b =~= b);
        assert(all_items(a) + all_items(b) =~= all_items(b));
    } else {
        assert((a + b).len() != 0);
        assert((a + b)[0] == a[0]);
        assert((a + b).drop_first() =~= a.drop_first() + b);
        lemma_all_items_concat(a.drop_first(), b);
        assert(all_items(a + b) =~= all_items(a) + all_items(b));
    }
}

/// Tags every item of one source document with that document's origin.
fn tag_channel_items(ch: &Channel) -> (r: Vec<Item>)
    ensures
        r.deep_view() == tagged_items(ch@),
{
    let mut out: Vec<Item> = Vec::new();
    let mut i: usize = 0;
    while i < ch.items.len()
        invariant
            i <= ch.items.len(),
            out@.len() == i,
            forall|k: int|
                0 <= k < i ==> (#[trigger] out@[k])@ == tag_item(ch@.items[k], ch@),
        decreases ch.items.len() - i,
    {
        let it = &ch.items[i];
        let tagged = Item {
            title: clone_opt_string(&it.title),
            content: clone_opt_string(&it.content),
            pub_date: clone_opt_string(&it.pub_date),
            guid: clone_opt_string(&it.guid),
            source: Some(Source { url: ch.link.clone(), title: Some(ch.title.clone()) }),
        };
        proof {
            assert(ch@.items[i as int] == ch.items@[i as int]@);
            assert(tagged@ == tag_item(ch@.items[i as int], ch@));
        }
        let ghost prevv = out@;
        out.push(tagged);
        proof {
            assert(out@ == prevv.push(tagged));
            assert(forall|k: int|
                0 <= k < i ==> (#[trigger] out@[k])@ == tag_item(ch@.items[k], ch@));
        }
        i = i + 1;
    }
    proof {
        assert(out.deep_view() =~= tagged_items(ch@));
    }
    out
}

/// Inserts an item into a descending-sorted sequence, in front of the first
/// element that does not rank above it.
pub open spec fn insert_desc(x: ItemV, s: Seq<ItemV>) -> Seq<ItemV>
    decreases s.len(),
{
    if s.len() == 0 {
        seq![x]
    } else if key_of(x) >= key_of(s[0]) {
        seq![x] + s
    } else {
        seq![s[0]] + insert_desc(x, s.drop_first())
    }
}

/// Sorts items descending by publish instant, by insertion. Items with
/// equal keys keep their input order.
pub open spec fn sort_desc(s: Seq<ItemV>) -> Seq<ItemV>
    decreases s.len(),
{
    if s.len() == 0 {
        Seq::empty()
    } else {
        insert_desc(s[0], sort_desc(s.drop_first()))
    }
}

/// Non-increasing by sort key.
pub open spec fn sorted_desc(s: Seq<ItemV>) -> bool {
    forall|i: int, j: int| 0 <= i <= j < s.len() ==> key_of(s[i]) >= key_of(s[j])
}

proof fn lemma_insert_desc(x: ItemV, s: Seq<ItemV>)
    requires
        sorted_desc(s),
    ensures
        insert_desc(x, s).len() == s.len() + 1,
        sorted_desc(insert_desc(x, s)),
        insert_desc(x, s).to_multiset() == s.to_multiset().insert(x),
        key_of(insert_desc(x, s)[0]) == key_of(x) || (s.len() > 0 && key_of(insert_desc(x, s)[0])
            == key_of(s[0])),
    decreases s.len(),
{
    broadcast use group_to_multiset_ensures;

    let res = insert_desc(x, s);
    if s.len() == 0 {
        assert(s =~= Seq::<ItemV>::empty());
        assert(res =~= s.push(x));
    } else if key_of(x) >= key_of(s[0]) {
        assert(res =~= seq![x] + s);
        lemma_multiset_commutative(seq![x], s);
        assert(seq![x] =~= Seq::<ItemV>::empty().push(x));
        assert(seq![x].to_multiset() == Multiset::<ItemV>::empty().insert(x));
        assert(res.to_multiset() =~= s.to_multiset().insert(x));
        assert forall|i: int, j: int| 0 <= i <= j < res.len() implies key_of(res[i]) >= key_of(
            res[j],
        ) by {
            if i > 0 {
                assert(res[i] == s[i - 1]);
                assert(res[j] == s[j - 1]);
            } else if j > 0 {
                assert(res[j] == s[j - 1]);
                assert(key_of(s[0]) >= key_of(s[j - 1]));
            }
        }
    } else {
        let rest = s.drop_first();
        assert(sorted_desc(rest)) by {
            assert(forall|i: int, j: int|
                0 <= i <= j < rest.len() ==> key_of(rest[i]) == key_of(s[i + 1]) && key_of(rest[j])
                    == key_of(s[j + 1]));
        }
        lemma_insert_desc(x, rest);
        let sub = insert_desc(x, rest);
        assert(res =~= seq![s[0]] + sub);
        // the head still ranks highest
        assert(key_of(s[0]) >= key_of(sub[0])) by {
            if rest.len() > 0 {
                assert(key_of(s[0]) >= key_of(s[1]));
                assert(rest[0] == s[1]);
            }
        }
        assert forall|i: int, j: int| 0 <= i <= j < res.len() implies key_of(res[i]) >= key_of(
            res[j],
        ) by {
            if i > 0 {
                assert(res[i] == sub[i - 1]);
                assert(res[j] == sub[j - 1]);
            } else if j > 0 {
                assert(res[j] == sub[j - 1]);
                assert(key_of(sub[0]) >= key_of(sub[j - 1]));
            }
        }
        // multisets: adding the head commutes with inserting x
        lemma_multiset_commutative(seq![s[0]], sub);
        lemma_multiset_commutative(seq![s[0]], rest);
        assert(seq![s[0]] + rest =~= s);
        assert(seq![s[0]].to_multiset().add(rest.to_multiset()) == s.to_multiset());
        assert(res.to_multiset() =~= s.to_multiset().insert(x));
    }
}

proof fn lemma_sort_desc(s: Seq<ItemV>)
    ensures
        sort_desc(s).len() == s.len(),
        sorted_desc(sort_desc(s)),
        sort_desc(s).to_multiset() == s.to_multiset(),
    decreases s.len(),
{
    broadcast use group_to_multiset_ensures;

    if s.len() == 0 {
        assert(s =~= Seq::<ItemV>::empty());
        assert(sort_desc(s) =~= Seq::<ItemV>::empty());
        assert(Seq::<ItemV>::empty().to_multiset() =~= Multiset::<ItemV>::empty());
    } else {
        let rest = s.drop_first();
        lemma_sort_desc(rest);
        lemma_insert_desc(s[0], sort_desc(rest));
        assert(seq![s[0]] + rest =~= s);
        lemma_multiset_commutative(seq![s[0]], rest);
        assert(seq![s[0]] =~= Seq::<ItemV>::empty().push(s[0]));
        assert(seq![s[0]].to_multiset() == Multiset::<ItemV>::empty().insert(s[0]));
        assert(sort_desc(s).to_multiset() =~= s.to_multiset());
    }
}

/// Inserts one item into an already descending-sorted vector.
fn insert_item_desc(x: Item, sorted: Vec<Item>) -> (r: Vec<Item>)
    ensures
        r.deep_view() == insert_desc(x@, sorted.deep_view()),
    decreases sorted@.len(),
{
    let ghost s: Seq<ItemV> = sorted.deep_view();
    if sorted.len() == 0 {
        let mut r = sorted;
        r.push(x);
        proof {
            assert(r.deep_view() =~= insert_desc(x@, s));
        }
        r
    } else {
        let kx = item_ts_exec(&x);
        let k0 = item_ts_exec(&sorted[0]);
        proof {
            assert(sorted@[0]@ == s[0]);
        }
        if key_ge(&kx, &k0) {
            let mut r = sorted;
            r.insert(0, x);
            proof {
                assert(r.deep_view() =~= seq![x@] + s);
            }
            r
        } else {
            let mut rest = sorted;
            let first = rest.remove(0);
            proof {
                assert(rest.deep_view() =~= s.drop_first());
                assert(first@ == s[0]);
            }
            let mut r = insert_item_desc(x, rest);
            r.insert(0, first);
            proof {
                assert(r.deep_view() =~= seq![s[0]] + insert_desc(x@, s.drop_first()));
            }
            r
        }
    }
}

/// Sorts items descending by publish instant.
fn sort_items_desc(items: Vec<Item>) -> (r: Vec<Item>)
    ensures
        r.deep_view() == sort_desc(items.deep_view()),
    decreases items@.len(),
{
    let ghost s: Seq<ItemV> = items.deep_view();
    if items.len() == 0 {
        proof {
            assert(items.deep_view() =~= Seq::<ItemV>::empty());
            assert(sort_desc(s) =~= items.deep_view());
        }
        items
    } else {
        let mut rest = items;
        let first = rest.remove(0);
        proof {
            assert(rest.deep_view() =~= s.drop_first());
            assert(first@ == s[0]);
        }
        let sorted = sort_items_desc(rest);
        insert_item_desc(first, sorted)
    }
}

/// The single merged item list a channel list derives to: all items,
/// tagged with their origin, sorted descending by publish instant.
pub open spec fn derive_items(channels: Seq<ChannelV>) -> Seq<ItemV> {
    sort_desc(all_items(channels))
}

/// Derives the merged item list of a channel list.
fn derive_items_exec(channels: &Vec<Channel>) -> (r: Vec<Item>)
    ensures
        r.deep_view() == derive_items(channels.deep_view()),
{
    let ghost cs: Seq<ChannelV> = channels.deep_view();
    let mut all: Vec<Item> = Vec::new();
    let mut i: usize = 0;
    while i < channels.len()
        invariant
            i <= channels.len(),
            cs == channels.deep_view(),
            cs.len() == channels@.len(),
            all.deep_view() == all_items(cs.take(i as int)),
        decreases channels.len() - i,
    {
        let mut tagged = tag_channel_items(&channels[i]);
        let ghost prev = all.deep_view();
        let ghost tv = tagged.deep_view();
        all.append(&mut tagged);
        proof {
            assert(channels@[i as int]@ == cs[i as int]);
            assert(all.deep_view() =~= prev + tv);
            assert(cs.take(i + 1) =~= cs.take(i as int) + seq![cs[i as int]]);
            lemma_all_items_concat(cs.take(i as int), seq![cs[i as int]]);
            assert(seq![cs[i as int]].drop_first() =~= Seq::<ChannelV>::empty());
            assert(all_items(Seq::<ChannelV>::empty()) == Seq::<ItemV>::empty());
            assert(all_items(seq![cs[i as int]]) =~= tagged_items(cs[i as int]));
            assert(all.deep_view() =~= all_items(cs.take(i + 1)));
        }
        i = i + 1;
    }
    proof {
        assert(cs.take(i as int) =~= cs);
    }
    sort_items_desc(all)
}

#[verifier::external_type_specification]
#[verifier::external_body]
pub struct ExRssError(rss::Error);

/// What the syndication parser yields on the bytes of one source document:
/// the channel with its title, locator and items, or nothing when the bytes
/// are not a syndication document. The parse is a function of the bytes
/// alone.
pub uninterp spec fn channel_of(bytes: Seq<u8>) -> Option<ChannelV>;

/// Relies on rss's `Channel::read_from`: fully parses one syndication
/// document, validating its top-level structure. The fields this crate
/// models are moved over one for one.
#[verifier::external_body]
fn read_channel(bytes: &[u8]) -> (r: Result<Channel, rss::Error>)
    ensures
        r matches Ok(c) ==> channel_of(bytes@) == Some(c@),
        r is Err ==> channel_of(bytes@) is None,
{
    match rss::Channel::read_from(bytes) {
        Ok(c) => Ok(Channel {
            title: c.title,
            link: c.link,
            items: c.items.into_iter().map(|i| Item {
                title: i.title,
                content: i.content,
                pub_date: i.pub_date,
                guid: i.guid.map(|g| g.value),
                source: i.source.map(|s| Source { url: s.url, title: s.title }),
            }).collect(),
        }),
        Err(e) => Err(e),
    }
}

/// The channels a list of fetched documents parses to, in order, those
/// that fail to parse dropped.
pub open spec fn parse_docs(docs: Seq<Vec<u8>>) -> Seq<ChannelV>
    decreases docs.len(),
{
    if docs.len() == 0 {
        Seq::empty()
    } else {
        match channel_of(docs[0]@) {
            Some(c) => seq![c] + parse_docs(docs.drop_first()),
            None => parse_docs(docs.drop_first()),
        }
    }
}

proof fn lemma_parse_docs_concat(a: Seq<Vec<u8>>, b: Seq<Vec<u8>>)
    ensures
        parse_docs(a + b) == parse_docs(a) + parse_docs(b),
    decreases a.len(),
{
    if a.len() == 0 {
        assert(a + b =~= b);
        assert(parse_docs(a) + parse_docs(b) =~= parse_docs(b));
    } else {
        assert((a + b).len() != 0);
        assert((a + b)[0] == a[0]);
        assert((a + b).drop_first() =~= a.drop_first() + b);
        lemma_parse_docs_concat(a.drop_first(), b);
        assert(parse_docs(a + b) =~= parse_docs(a) + parse_docs(b));
    }
}

/// The well-formedness of a feed: its merged item list is exactly the
/// derivation of its current source documents.
pub open spec fn feed_wf(f: FeedV) -> bool {
    f.items == derive_items(f.channels)
}

/// A named feed: one or more source documents and the single merged,
/// ordered item list derived from them.
#[derive(Debug, PartialEq, Eq)]
pub struct Feed {
    /// The feed's identifier in the registry.
    pub id: String,
    /// The feed's human-readable name.
    pub name: String,
    /// The source documents the feed aggregates.
    pub channels: Vec<Channel>,
    /// The merged item list; always the derivation of `channels`.
    pub items: Vec<Item>,
}

/// The mathematical value of a [`Feed`].
pub ghost struct FeedV {
    pub id: Seq<char>,
    pub name: Seq<char>,
    pub channels: Seq<ChannelV>,
    pub items: Seq<ItemV>,
}

impl View for Feed {
    type V = FeedV;

    open spec fn view(&self) -> FeedV {
        FeedV {
            id: self.id@,
            name: self.name@,
            channels: self.channels.deep_view(),
            items: self.items.deep_view(),
        }
    }
}

impl DeepView for Feed {
    type V = FeedV;

    open spec fn deep_view(&self) -> FeedV {
        self.view()
    }
}

impl Clone for Feed {
    fn clone(&self) -> (r: Self)
        ensures
            r@ == self@,
    {
        let mut channels: Vec<Channel> = Vec::new();
        let mut i: usize = 0;
        while i < self.channels.len()
            invariant
                i <= self.channels.len(),
                channels@.len() == i,
                forall|k: int|
                    0 <= k < i ==> (#[trigger] channels@[k])@ == self.channels@[k]@,
            decreases self.channels.len() - i,
        {
            let c = self.channels[i].clone();
            let ghost prevv = channels@;
            channels.push(c);
            proof {
                assert(channels@ == prevv.push(c));
                assert(forall|k: int|
                    0 <= k < i ==> (#[trigger] channels@[k])@ == self.channels@[k]@);
            }
            i = i + 1;
        }
        let mut items: Vec<Item> = Vec::new();
        let mut j: usize = 0;
        while j < self.items.len()
            invariant
                j <= self.items.len(),
                items@.len() == j,
                forall|k: int| 0 <= k < j ==> items@[k] == self.items@[k],
            decreases self.items.len() - j,
        {
            items.push(self.items[j].clone());
            j = j + 1;
        }
        proof {
            assert(items@ =~= self.items@);
        }
        let r = Feed { id: self.id.clone(), name: self.name.clone(), channels, items };
        proof {
            assert(r@.channels =~= self@.channels);
            assert(r@.items =~= self@.items);
        }
        r
    }
}

impl Feed {
    /// Builds a feed from fetched source documents. Every document that
    /// parses contributes, in the order given; one that does not parse is
    /// silently dropped. The merged item list is derived from the
    /// surviving documents, and the feed's name starts as its identifier.
    pub fn new(id: String, docs: Vec<Vec<u8>>) -> (r: Feed)
        ensures
            r@.id == id@,
            r@.name == id@,
            r@.channels == parse_docs(docs@),
            feed_wf(r@),
    {
        let ghost ds: Seq<Vec<u8>> = docs@;
        let name = id.clone();
        let mut channels: Vec<Channel> = Vec::new();
        let mut i: usize = 0;
        while i < docs.len()
            invariant
                i <= docs.len(),
                ds == docs@,
                channels.deep_view() == parse_docs(ds.take(i as int)),
            decreases docs.len() - i,
        {
            let doc = &docs[i];
            let ghost prev = channels.deep_view();
            match read_channel(doc.as_slice()) {
                Ok(c) => {
                    let ghost prevv = channels@;
                    channels.push(c);
                    proof {
                        assert(channels@ == prevv.push(c));
                        assert(channels.deep_view() =~= prev.push(c@));
                    }
                },
                Err(_) => {},
            }
            proof {
                assert(ds.take(i + 1) =~= ds.take(i as int) + seq![ds[i as int]]);
                lemma_parse_docs_concat(ds.take(i as int), seq![ds[i as int]]);
                assert(seq![ds[i as int]].drop_first() =~= Seq::<Vec<u8>>::empty());
                assert(parse_docs(Seq::<Vec<u8>>::empty()) == Seq::<ChannelV>::empty());
                match channel_of(ds[i as int]@) {
                    Some(c) => {
                        assert(parse_docs(seq![ds[i as int]]) =~= seq![c]);
                        assert(channels.deep_view() =~= prev.push(c));
                    },
                    None => {
                        assert(parse_docs(seq![ds[i as int]]) =~= Seq::<ChannelV>::empty());
                    },
                }
                assert(channels.deep_view() =~= parse_docs(ds.take(i + 1)));
            }
            i = i + 1;
        }
        proof {
            assert(ds.take(i as int) =~= ds);
        }
        let items = derive_items_exec(&channels);
        Feed { id, name, channels, items }
    }

    /// Re-derives the merged item list from the current source documents,
    /// in full; nothing else changes.
    fn rebuild_items(&mut self)
        ensures
            final(self).id == old(self).id,
            final(self).name == old(self).name,
            final(self).channels == old(self).channels,
            feed_wf(final(self)@),
    {
        self.items = derive_items_exec(&self.channels);
    }

    /// Appends one more source document to the feed and re-derives the
    /// merged item list. Fails, leaving the feed untouched, exactly when
    /// the document does not parse.
    pub fn add(&mut self, doc: &[u8]) -> (r: Result<(), FetchError>)
        ensures
            match r {
                Ok(()) => {
                    &&& channel_of(doc@) matches Some(cv) && final(self)@.channels == old(
                        self,
                    )@.channels.push(cv)
                    &&& final(self)@.id == old(self)@.id
                    &&& final(self)@.name == old(self)@.name
                    &&& feed_wf(final(self)@)
                },
                Err(e) => {
                    &&& channel_of(doc@) is None
                    &&& *final(self) == *old(self)
                    &&& e == FetchError::Parse
                },
            },
    {
        match read_channel(doc) {
            Ok(c) => {
                let ghost prev = self.channels.deep_view();
                self.channels.push(c);
                proof {
                    assert(self.channels.deep_view() =~= prev.push(c@));
                }
                self.rebuild_items();
                Ok(())
            },
            Err(_) => Err(FetchError::Parse),
        }
    }
}

/// Ordering: a derived item list is sorted non-increasing by publish
/// instant, holds exactly the tagged items of its source documents, and
/// every item with a missing or unreadable instant stands after every item
/// with a readable one.
pub proof fn lemma_aggregation_sorted(channels: Seq<ChannelV>)
    ensures
        sorted_desc(derive_items(channels)),
        derive_items(channels).len() == all_items(channels).len(),
        derive_items(channels).to_multiset() == all_items(channels).to_multiset(),
        forall|i: int, j: int|
            0 <= i < derive_items(channels).len() && 0 <= j < derive_items(channels).len()
                && item_ts(#[trigger] derive_items(channels)[i]) is Some && item_ts(
                #[trigger] derive_items(channels)[j],
            ) is None ==> i < j,
{
    lemma_sort_desc(all_items(channels));
    let r = derive_items(channels);
    assert forall|i: int, j: int|
        0 <= i < r.len() && 0 <= j < r.len() && item_ts(#[trigger] r[i]) is Some && item_ts(
            #[trigger] r[j],
        ) is None implies i < j by {
        assert(key_of(r[i]) >= i64::MIN);
        assert(key_of(r[j]) == i64::MIN - 1);
        if j <= i {
            assert(key_of(r[j]) >= key_of(r[i]));
        }
    }
}

/// Determinism: derivation is a function; equal source documents derive
/// equal item lists.
pub proof fn lemma_aggregation_deterministic(c1: Seq<ChannelV>, c2: Seq<ChannelV>)
    requires
        c1 == c2,
    ensures
        derive_items(c1) == derive_items(c2),
{
}

/// Idempotent re-derivation: the merged list of a well-formed feed depends
/// only on its current channel list, not on how the feed reached it.
pub proof fn lemma_rederivation_pure(f1: FeedV, f2: FeedV)
    requires
        feed_wf(f1),
        feed_wf(f2),
        f1.channels == f2.channels,
    ensures
        f1.items == f2.items,
{
}

} // verus!
