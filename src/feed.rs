use vstd::prelude::*;

use crate::db::Torrent;

verus! {

/// The enclosure of a feed item as the feed document holds it.
#[derive(Debug)]
pub struct RawEnclosure {
    pub url: String,
    pub length: String,
}

/// A feed item as the feed document holds it: every field may be absent.
#[derive(Debug)]
pub struct RawItem {
    pub guid: Option<String>,
    pub title: Option<String>,
    pub link: Option<String>,
    pub enclosure: Option<RawEnclosure>,
}

/// The items of the feed document that `rss` reads from the bytes, in
/// document order, or `None` where it cannot read them.
pub uninterp spec fn channel_items(body: Seq<u8>) -> Option<Seq<RawItem>>;

/// Relies on `rss::Channel::read_from`: it reads a feed document from the
/// bytes alone; each item keeps the GUID's value, the title, the link and the
/// enclosure's URL and length.
#[verifier::external_body]
fn read_channel(body: &[u8]) -> (r: Option<Vec<RawItem>>)
    ensures
        match r {
            Some(v) => channel_items(body@) == Some(v@),
            None => channel_items(body@) is None,
        },
{
    let channel = rss::Channel::read_from(body).ok()?;
    Some(channel.items.into_iter().map(|i| RawItem {
        guid: i.guid.map(|g| g.value),
        title: i.title,
        link: i.link,
        enclosure: i.enclosure.map(|e| RawEnclosure { url: e.url, length: e.length }),
    }).collect())
}

pub open spec fn is_digit(c: char) -> bool {
    '0' <= c && c <= '9'
}

pub open spec fn all_digits(s: Seq<char>) -> bool {
    forall|i: int| 0 <= i < s.len() ==> #[trigger] is_digit(s[i])
}

/// The number that a run of decimal digits writes.
pub open spec fn digits_value(s: Seq<char>) -> int
    decreases s.len(),
{
    if s.len() == 0 {
        0
    } else {
        10 * digits_value(s.drop_last()) + (s.last() as u32 - '0' as u32)
    }
}

/// The text after an optional leading sign.
pub open spec fn unsigned_part(s: Seq<char>) -> Seq<char> {
    if s.len() > 0 && (s[0] == '-' || s[0] == '+') {
        s.subrange(1, s.len() as int)
    } else {
        s
    }
}

pub open spec fn negative(s: Seq<char>) -> bool {
    s.len() > 0 && s[0] == '-'
}

/// The integer that the text writes in decimal, with an optional sign.
pub open spec fn decimal_value(s: Seq<char>) -> Option<int> {
    let d = unsigned_part(s);
    if d.len() == 0 || !all_digits(d) {
        None
    } else if negative(s) {
        Some(-digits_value(d))
    } else {
        Some(digits_value(d))
    }
}

/// An enclosure length as a byte count: the number it writes where it is an
/// `i64`, and zero where it is not.
pub open spec fn size_of(s: Seq<char>) -> int {
    match decimal_value(s) {
        Some(v) => if i64::MIN <= v <= i64::MAX {
            v
        } else {
            0
        },
        None => 0,
    }
}

proof fn lemma_prefix_value(s: Seq<char>, k: int)
    requires
        all_digits(s),
        0 <= k <= s.len(),
    ensures
        0 <= digits_value(s.subrange(0, k)) <= digits_value(s),
    decreases s.len(),
{
    if k < s.len() {
        let t = s.drop_last();
        assert(all_digits(t)) by {
            assert forall|i: int| 0 <= i < t.len() implies #[trigger] is_digit(t[i]) by {
                assert(is_digit(s[i]));
            }
        }
        lemma_prefix_value(t, k);
        assert(t.subrange(0, k) =~= s.subrange(0, k));
        lemma_prefix_value(t, t.len() as int);
        assert(t.subrange(0, t.len() as int) =~= t);
        assert(is_digit(s[s.len() - 1]));
    } else {
        assert(s.subrange(0, k) =~= s);
        if s.len() > 0 {
            let t = s.drop_last();
            assert(all_digits(t)) by {
                assert forall|i: int| 0 <= i < t.len() implies #[trigger] is_digit(t[i]) by {
                    assert(is_digit(s[i]));
                }
            }
            lemma_prefix_value(t, t.len() as int);
            assert(t.subrange(0, t.len() as int) =~= t);
            assert(is_digit(s[s.len() - 1]));
        }
    }
}

/// Reads an enclosure length as a byte count; text that is not an `i64` in
/// decimal counts as zero.
pub fn parse_size(s: &str) -> (r: i64)
    ensures
        r as int == size_of(s@),
{
    let n = s.unicode_len();
    let mut start: usize = 0;
    if n > 0 {
        let c = s.get_char(0);
        if c == '-' || c == '+' {
            start = 1;
        }
    }
    let ghost d = unsigned_part(s@);
    assert(d =~= s@.subrange(start as int, n as int));
    if start == n {
        return 0;
    }
    let mut acc: u128 = 0;
    let mut i: usize = start;
    while i < n
        invariant
            start <= i <= n,
            n == s@.len(),
            d == s@.subrange(start as int, n as int),
            d == unsigned_part(s@),
            d.len() > 0,
            acc == digits_value(d.subrange(0, i - start)),
            acc <= 9223372036854775808,
            all_digits(d.subrange(0, i - start)),
        decreases n - i,
    {
        let c = s.get_char(i);
        if !('0' <= c && c <= '9') {
            assert(d[i - start] == c);
            assert(!is_digit(d[i - start]));
            assert(!all_digits(d));
            return 0;
        }
        let ghost before = d.subrange(0, i - start);
        let ghost after = d.subrange(0, i - start + 1);
        assert(after.drop_last() =~= before);
        assert(all_digits(after)) by {
            assert forall|j: int| 0 <= j < after.len() implies #[trigger] is_digit(after[j]) by {
                if j < before.len() {
                    assert(after[j] == before[j]);
                }
            }
        }
        assert(after.last() == c);
        acc = acc * 10 + (c as u32 - '0' as u32) as u128;
        assert(acc == digits_value(after));
        i = i + 1;
        if acc > 9223372036854775808 {
            proof {
                if all_digits(d) {
                    lemma_prefix_value(d, (i - start) as int);
                }
            }
            return 0;
        }
    }
    assert(d.subrange(0, n - start) =~= d);
    if n > 0 && s.get_char(0) == '-' {
        if acc == 9223372036854775808 {
            i64::MIN
        } else {
            -(acc as i64)
        }
    } else if acc > 9223372036854775807 {
        0
    } else {
        acc as i64
    }
}

/// The text of a field that may be absent; absent reads as empty.
pub open spec fn text_or_empty(t: Option<String>) -> Seq<char> {
    match t {
        Some(s) => s@,
        None => Seq::empty(),
    }
}

/// The record that a feed item yields: absent fields become empty text, an
/// absent enclosure an empty URL, and a length that is absent or not a number
/// a size of zero.
pub open spec fn torrent_of(item: RawItem, t: Torrent) -> bool {
    &&& t.guid@ == text_or_empty(item.guid)
    &&& t.title@ == text_or_empty(item.title)
    &&& t.link@ == text_or_empty(item.link)
    &&& match item.enclosure {
        Some(e) => t.torrent_url@ == e.url@ && t.torrent_size == size_of(e.length@),
        None => t.torrent_url@ == Seq::<char>::empty() && t.torrent_size == 0,
    }
}

fn text_of(t: &Option<String>) -> (r: String)
    ensures
        r@ == text_or_empty(*t),
{
    match t {
        Some(s) => s.clone(),
        None => String::new(),
    }
}

/// Builds the record of one feed item.
pub fn torrent_from_item(item: &RawItem) -> (t: Torrent)
    ensures
        torrent_of(*item, t),
{
    let (torrent_url, torrent_size) = match &item.enclosure {
        Some(e) => (e.url.clone(), parse_size(e.length.as_str())),
        None => (String::new(), 0),
    };
    Torrent {
        guid: text_of(&item.guid),
        title: text_of(&item.title),
        link: text_of(&item.link),
        torrent_url,
        torrent_size,
    }
}

} // verus!

verus! {

/// Why a tick stopped before it had handled every item of the feed.
#[derive(Debug, PartialEq, Eq)]
pub enum TickError {
    /// The feed answered with a status outside 200..=299.
    Status { code: u16 },
    /// The feed could not be fetched at all.
    Fetch,
    /// The body is not a feed document.
    Parse,
    /// The store could not say whether an item is known.
    Lookup,
    /// The daemon answered but did not take the item.
    Rejected { reason: String },
    /// The call to the daemon failed.
    Transport,
    /// The store did not keep the record of an accepted item.
    Store,
}

pub open spec fn is_success(status: u16) -> bool {
    200 <= status <= 299
}

/// The records that the feed's answer yields, one per item in document
/// order; an answer that is not a success, or a body that is not a feed
/// document, yields an error and no record.
pub fn feed_items(status: u16, body: &[u8]) -> (r: Result<Vec<Torrent>, TickError>)
    ensures
        !is_success(status) ==> r == Err::<Vec<Torrent>, TickError>(TickError::Status { code: status }),
        is_success(status) && channel_items(body@) is None ==> r == Err::<Vec<Torrent>, TickError>(TickError::Parse),
        is_success(status) && channel_items(body@) is Some ==> r is Ok,
        r matches Ok(v) ==> {
            let raw = channel_items(body@).unwrap();
            &&& v@.len() == raw.len()
            &&& forall|i: int| 0 <= i < raw.len() ==> torrent_of(#[trigger] raw[i], v@[i])
        },
{
    if !(200 <= status && status <= 299) {
        return Err(TickError::Status { code: status });
    }
    let raw = match read_channel(body) {
        Some(raw) => raw,
        None => {
            return Err(TickError::Parse);
        },
    };
    let mut out: Vec<Torrent> = Vec::new();
    let mut i: usize = 0;
    while i < raw.len()
        invariant
            i <= raw@.len(),
            out@.len() == i,
            forall|j: int| 0 <= j < i ==> torrent_of(#[trigger] raw@[j], out@[j]),
        decreases raw@.len() - i,
    {
        out.push(torrent_from_item(&raw[i]));
        i = i + 1;
    }
    Ok(out)
}

} // verus!
