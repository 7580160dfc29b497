//! Ranking feed items, the content filter, and the aggregate mapping from
//! identity to work item.

use regex::Regex;
use std::collections::HashMap;
use vstd::prelude::*;

verus! {

/// Largest page count that an accepted item may declare.
pub const MAX_PAGES: usize = 5;

/// The four content-policy flags of a feed item.
#[derive(Clone, Copy, Debug, PartialEq, Eq)]
pub struct ContentFlags {
    pub bl: bool,
    pub furry: bool,
    pub antisocial: bool,
    pub drug: bool,
}

/// One entry of a ranking feed page.
#[derive(Debug)]
pub struct RawItem {
    pub title: String,
    pub illust_id: u64,
    pub url: String,
    pub illust_page_count: String,
    pub illust_content_type: ContentFlags,
}

/// A unit of download work: the origin URL prefix of its pages, its identity,
/// its title and its number of pages.
#[derive(Clone, Debug)]
pub struct WorkItem {
    pub origin_url: String,
    pub title: String,
    pub page_count: usize,
    pub id: u64,
}

pub struct WorkItemView {
    pub origin_url: Seq<char>,
    pub title: Seq<char>,
    pub page_count: nat,
    pub id: u64,
}

impl View for WorkItem {
    type V = WorkItemView;

    open spec fn view(&self) -> WorkItemView {
        WorkItemView {
            origin_url: self.origin_url@,
            title: self.title@,
            page_count: self.page_count as nat,
            id: self.id,
        }
    }
}

/// Why an aggregation could not be completed.
#[derive(Clone, Copy, Debug, PartialEq, Eq)]
pub enum AggregateError {
    /// An accepted item whose source URL holds no dated image path.
    MalformedUrl(u64),
    /// A day of the window lies outside the supported calendar range.
    DateOutOfRange,
}

pub open spec fn is_digit(c: char) -> bool {
    '0' <= c && c <= '9'
}

/// Whether `c` may stand at offset `k` of `/img/YYYY/MM/DD/hh/mm/ss/`, where
/// each letter stands for a decimal digit.
pub open spec fn fits_dated_dirs(c: char, k: int) -> bool {
    if k == 1 {
        c == 'i'
    } else if k == 2 {
        c == 'm'
    } else if k == 3 {
        c == 'g'
    } else if k == 0 || k == 4 || k == 9 || k == 12 || k == 15 || k == 18 || k == 21 || k == 24 {
        c == '/'
    } else {
        is_digit(c)
    }
}

/// The index just past the run of digits of `s` that starts at `j`.
pub open spec fn digits_end(s: Seq<char>, j: int) -> int
    decreases s.len() - j,
{
    if 0 <= j < s.len() && is_digit(s[j]) {
        digits_end(s, j + 1)
    } else {
        j
    }
}

/// The image path pattern `/img/YYYY/MM/DD/hh/mm/ss/<digits>_p` matches `s` at `i`.
pub open spec fn path_matches_at(s: Seq<char>, i: int) -> bool {
    let e = digits_end(s, i + 25);
    &&& 0 <= i
    &&& i + 25 <= s.len()
    &&& forall|k: int| 0 <= k < 25 ==> fits_dated_dirs(#[trigger] s[i + k], k)
    &&& e > i + 25
    &&& e + 2 <= s.len()
    &&& s[e] == '_'
    &&& s[e + 1] == 'p'
}

/// The path (the match without its trailing `_p`) at the leftmost position
/// `>= i` where the image path pattern matches.
pub open spec fn path_search(s: Seq<char>, i: int) -> Option<Seq<char>>
    decreases s.len() - i,
{
    if i < 0 || i >= s.len() {
        None
    } else if path_matches_at(s, i) {
        Some(s.subrange(i, digits_end(s, i + 25)))
    } else {
        path_search(s, i + 1)
    }
}

/// The dated image path embedded in a source URL, if there is one.
pub open spec fn image_path(url: Seq<char>) -> Option<Seq<char>> {
    path_search(url, 0)
}

/// Relies on regex::Regex::captures: the first group of the leftmost match
/// of the image path pattern (ASCII digits), when the URL holds one.
#[verifier::external_body]
fn capture_image_path(url: &str) -> (r: Option<String>)
    ensures
        r is Some <==> image_path(url@) is Some,
        r matches Some(p) ==> image_path(url@) == Some(p@),
{
    let re = Regex::new(r"(/img/[0-9]{4}/[0-9]{2}/[0-9]{2}/[0-9]{2}/[0-9]{2}/[0-9]{2}/[0-9]+)_p")
        .ok()?;
    let caps = re.captures(url)?;
    Some(caps.get(1)?.as_str().to_string())
}

/// The value of a nonempty string of decimal digits.
pub open spec fn digits_value(s: Seq<char>) -> nat
    decreases s.len(),
{
    if s.len() == 0 {
        0
    } else {
        10 * digits_value(s.drop_last()) + (s.last() as nat - '0' as nat) as nat
    }
}

pub open spec fn all_digits(s: Seq<char>) -> bool {
    forall|k: int| 0 <= k < s.len() ==> is_digit(#[trigger] s[k])
}

/// `s` without a leading `+`, if it has one.
pub open spec fn unsigned_part(s: Seq<char>) -> Seq<char> {
    if s.len() > 0 && s[0] == '+' {
        s.drop_first()
    } else {
        s
    }
}

/// What `str::parse::<usize>` gives: an optional `+` followed by one or more
/// ASCII digits whose value fits in `usize`.
pub open spec fn parsed_usize(s: Seq<char>) -> Option<usize> {
    let body = unsigned_part(s);
    if body.len() > 0 && all_digits(body) && digits_value(body) <= usize::MAX {
        Some(digits_value(body) as usize)
    } else {
        None
    }
}

proof fn lemma_prefix_value_le(s: Seq<char>, k: int)
    requires
        0 <= k <= s.len(),
        forall|m: int| 0 <= m < s.len() ==> is_digit(#[trigger] s[m]),
    ensures
        digits_value(s.take(k)) <= digits_value(s),
    decreases s.len(),
{
    if k < s.len() {
        let dl = s.drop_last();
        assert(dl.take(k) =~= s.take(k));
        assert forall|m: int| 0 <= m < dl.len() implies is_digit(#[trigger] dl[m]) by {
            assert(dl[m] == s[m]);
        }
        lemma_prefix_value_le(dl, k);
    } else {
        assert(s.take(k) =~= s);
    }
}

/// Parses a count as `str::parse::<usize>` does: an optional `+` followed by
/// one or more ASCII digits whose value fits in `usize`.
pub fn parse_usize(s: &str) -> (r: Option<usize>)
    ensures
        r == parsed_usize(s@),
{
    let len = s.unicode_len();
    let mut start: usize = 0;
    if len > 0 && s.get_char(0) == '+' {
        start = 1;
    }
    let ghost body = s@.subrange(start as int, len as int);
    assert(body =~= unsigned_part(s@));
    if start == len {
        return None;
    }
    let mut v: usize = 0;
    let mut i: usize = start;
    while i < len
        invariant
            start <= i <= len,
            len == s@.len(),
            body == s@.subrange(start as int, len as int),
            body == unsigned_part(s@),
            body.len() > 0,
            forall|k: int| 0 <= k < i - start ==> is_digit(#[trigger] body[k]),
            v == digits_value(body.take(i - start)),
        decreases len - i,
    {
        let c = s.get_char(i);
        assert(c == body[i - start]);
        if !('0' <= c && c <= '9') {
            assert(!is_digit(body[i - start]));
            return None;
        }
        let d: usize = (c as u32 - '0' as u32) as usize;
        assert(body.take(i - start + 1).drop_last() =~= body.take(i - start));
        assert(digits_value(body.take(i - start + 1)) == 10 * v + d);
        let m = v.checked_mul(10);
        let n = match m {
            Some(m) => m.checked_add(d),
            None => None,
        };
        match n {
            Some(n) => {
                v = n;
            },
            None => {
                proof {
                    let k = i - start + 1;
                    assert(10 * v + d > usize::MAX);
                    if all_digits(body) {
                        lemma_prefix_value_le(body, k);
                        assert(digits_value(body) > usize::MAX);
                    }
                }
                return None;
            },
        }
        i = i + 1;
    }
    assert(body.take(i - start) =~= body);
    Some(v)
}

/// The page count that a declared count resolves to: the parsed value, or 1
/// where it does not parse or is zero.
pub open spec fn resolved_pages(s: Seq<char>) -> nat {
    match parsed_usize(s) {
        Some(n) => if n >= 1 {
            n as nat
        } else {
            1
        },
        None => 1,
    }
}

pub open spec fn flagged(f: ContentFlags) -> bool {
    f.bl || f.furry || f.antisocial || f.drug
}

/// The item filter: no policy flag set, and at most `MAX_PAGES` pages.
pub open spec fn accepted(item: RawItem) -> bool {
    !flagged(item.illust_content_type) && resolved_pages(item.illust_page_count@) <= MAX_PAGES
}

/// An item that the filter accepts but whose URL holds no image path.
pub open spec fn malformed(item: RawItem) -> bool {
    accepted(item) && image_path(item.url@) is None
}

/// The origin URL prefix for an image path.
pub open spec fn origin_prefix(path: Seq<char>) -> Seq<char> {
    "https://i.pximg.net/img-original"@ + path + "_"@
}

/// The work item made from an item whose URL holds an image path.
pub open spec fn work_of(item: RawItem) -> WorkItemView {
    WorkItemView {
        origin_url: origin_prefix(image_path(item.url@).unwrap()),
        title: item.title@,
        page_count: resolved_pages(item.illust_page_count@),
        id: item.illust_id,
    }
}

/// `m` after inserting, in order, the work item of each accepted entry of `items`.
pub open spec fn insert_accepted(m: Map<u64, WorkItemView>, items: Seq<RawItem>) -> Map<
    u64,
    WorkItemView,
>
    decreases items.len(),
{
    if items.len() == 0 {
        m
    } else {
        let prev = insert_accepted(m, items.drop_last());
        let it = items.last();
        if accepted(it) {
            prev.insert(it.illust_id, work_of(it))
        } else {
            prev
        }
    }
}

/// The identities of `items`.
pub open spec fn ids_of(items: Seq<RawItem>) -> Set<u64> {
    Set::new(|id: u64| exists|i: int| 0 <= i < items.len() && (#[trigger] items[i]).illust_id == id)
}

/// The aggregate mapping: the accepted items of the inclusion window, later
/// ones replacing earlier ones of the same identity, without any identity
/// seen in the exclusion window.
pub open spec fn aggregated(included: Seq<RawItem>, excluded: Seq<RawItem>) -> Map<u64, WorkItemView> {
    insert_accepted(Map::empty(), included).remove_keys(ids_of(excluded))
}

pub open spec fn map_view(m: Map<u64, WorkItem>) -> Map<u64, WorkItemView> {
    m.map_values(|w: WorkItem| w@)
}

/// Resolves a declared page count.
pub fn resolve_page_count(s: &str) -> (r: usize)
    ensures
        r as nat == resolved_pages(s@),
{
    match parse_usize(s) {
        Some(n) => if n >= 1 {
            n
        } else {
            1
        },
        None => 1,
    }
}

/// Whether any content-policy flag is set.
pub fn is_flagged(f: &ContentFlags) -> (r: bool)
    ensures
        r == flagged(*f),
{
    f.bl || f.furry || f.antisocial || f.drug
}

/// The item filter.
pub fn accept(item: &RawItem) -> (r: bool)
    ensures
        r == accepted(*item),
{
    !is_flagged(&item.illust_content_type) && resolve_page_count(item.illust_page_count.as_str())
        <= MAX_PAGES
}

/// The work item of an item, or `None` where its URL holds no image path.
pub fn to_work_item(item: &RawItem) -> (r: Option<WorkItem>)
    ensures
        r is Some <==> image_path(item.url@) is Some,
        r matches Some(w) ==> w@ == work_of(*item),
{
    match capture_image_path(item.url.as_str()) {
        Some(path) => {
            let mut origin = String::from_str("https://i.pximg.net/img-original");
            origin.append(path.as_str());
            origin.append("_");
            let w = WorkItem {
                origin_url: origin,
                title: item.title.clone(),
                page_count: resolve_page_count(item.illust_page_count.as_str()),
                id: item.illust_id,
            };
            assert(w@.origin_url =~= work_of(*item).origin_url);
            Some(w)
        },
        None => None,
    }
}


/// Inserts the work item of each accepted entry of `items` into `all`, in
/// order, replacing any earlier entry of the same identity. Fails on the first
/// accepted entry whose URL holds no image path.
pub fn add_items(all: &mut HashMap<u64, WorkItem>, items: &Vec<RawItem>) -> (r: Result<
    (),
    AggregateError,
>)
    ensures
        r is Ok <==> (forall|i: int| 0 <= i < items@.len() ==> !malformed(#[trigger] items@[i])),
        r is Ok ==> map_view(final(all)@) == insert_accepted(map_view(old(all)@), items@),
        r matches Err(e) ==> exists|i: int|
            0 <= i < items@.len() && malformed(#[trigger] items@[i]) && e
                == AggregateError::MalformedUrl(items@[i].illust_id) && forall|j: int|
                0 <= j < i ==> !malformed(#[trigger] items@[j]),
{
    broadcast use vstd::std_specs::hash::group_hash_axioms;

    let mut i: usize = 0;
    while i < items.len()
        invariant
            i <= items@.len(),
            forall|j: int| 0 <= j < i ==> !malformed(#[trigger] items@[j]),
            map_view(all@) == insert_accepted(map_view(old(all)@), items@.take(i as int)),
        decreases items@.len() - i,
    {
        let item = &items[i];
        assert(items@.take(i + 1).drop_last() =~= items@.take(i as int));
        if accept(item) {
            match to_work_item(item) {
                Some(w) => {
                    let ghost before = all@;
                    all.insert(item.illust_id, w);
                    assert(map_view(all@) =~= map_view(before).insert(item.illust_id, work_of(*item)));
                },
                None => {
                    return Err(AggregateError::MalformedUrl(item.illust_id));
                },
            }
        }
        i = i + 1;
    }
    assert(items@.take(i as int) =~= items@);
    Ok(())
}

/// Removes from `all` every identity that occurs in `items`, whatever the
/// filter says of the entry.
pub fn remove_seen(all: &mut HashMap<u64, WorkItem>, items: &Vec<RawItem>)
    ensures
        map_view(final(all)@) == map_view(old(all)@).remove_keys(ids_of(items@)),
        forall|i: int| 0 <= i < items@.len() ==> !final(all)@.contains_key(#[trigger] items@[i].illust_id),
{
    broadcast use vstd::std_specs::hash::group_hash_axioms;

    let mut i: usize = 0;
    while i < items.len()
        invariant
            i <= items@.len(),
            map_view(all@) == map_view(old(all)@).remove_keys(ids_of(items@.take(i as int))),
        decreases items@.len() - i,
    {
        let ghost before = all@;
        let id = items[i].illust_id;
        all.remove(&id);
        assert(all@ == before.remove(id));
        assert(map_view(all@) =~= map_view(before).remove(id));
        assert(ids_of(items@.take(i + 1)) =~= ids_of(items@.take(i as int)).insert(id)) by {
            assert(items@.take(i + 1)[i as int] == items@[i as int]);
            assert forall|x: u64| ids_of(items@.take(i as int)).contains(x) implies ids_of(
                items@.take(i + 1),
            ).contains(x) by {
                let k = choose|k: int|
                    0 <= k < items@.take(i as int).len() && (#[trigger] items@.take(
                        i as int,
                    )[k]).illust_id == x;
                assert(items@.take(i + 1)[k] == items@.take(i as int)[k]);
            }
            assert forall|x: u64| ids_of(items@.take(i + 1)).contains(x) implies ids_of(
                items@.take(i as int),
            ).insert(id).contains(x) by {
                let k = choose|k: int|
                    0 <= k < items@.take(i + 1).len() && (#[trigger] items@.take(i + 1)[k]).illust_id
                        == x;
                if k < i {
                    assert(items@.take(i as int)[k] == items@.take(i + 1)[k]);
                }
            }
        }
        assert(map_view(all@) =~= map_view(old(all)@).remove_keys(ids_of(items@.take(i + 1))));
        i = i + 1;
    }
    assert(items@.take(i as int) =~= items@);
    assert forall|i: int| 0 <= i < items@.len() implies !all@.contains_key(
        #[trigger] items@[i].illust_id,
    ) by {
        assert(ids_of(items@).contains(items@[i].illust_id));
        assert(!map_view(all@).contains_key(items@[i].illust_id));
    }
}

/// Builds the aggregate mapping from the items of the inclusion window and
/// those of the exclusion window, each in the order in which they were fetched.
pub fn aggregate(included: &Vec<RawItem>, excluded: &Vec<RawItem>) -> (r: Result<
    HashMap<u64, WorkItem>,
    AggregateError,
>)
    ensures
        r is Ok <==> (forall|i: int| 0 <= i < included@.len() ==> !malformed(#[trigger] included@[i])),
        r matches Ok(m) ==> map_view(m@) == aggregated(included@, excluded@),
        r matches Ok(m) ==> forall|i: int|
            0 <= i < excluded@.len() ==> !m@.contains_key(#[trigger] excluded@[i].illust_id),
        r matches Err(e) ==> exists|i: int|
            0 <= i < included@.len() && malformed(#[trigger] included@[i]) && e
                == AggregateError::MalformedUrl(included@[i].illust_id) && forall|j: int|
                0 <= j < i ==> !malformed(#[trigger] included@[j]),
{
    broadcast use vstd::std_specs::hash::group_hash_axioms;

    let mut all: HashMap<u64, WorkItem> = HashMap::new();
    assert(map_view(all@) =~= Map::empty());
    match add_items(&mut all, included) {
        Ok(()) => {},
        Err(e) => {
            return Err(e);
        },
    }
    remove_seen(&mut all, excluded);
    Ok(all)
}


proof fn lemma_insert_accepted_provenance(items: Seq<RawItem>)
    ensures
        forall|k: u64| #[trigger]
            insert_accepted(Map::empty(), items).contains_key(k) ==> exists|i: int|
                0 <= i < items.len() && accepted(#[trigger] items[i]) && items[i].illust_id == k
                    && insert_accepted(Map::empty(), items)[k] == work_of(items[i]),
    decreases items.len(),
{
    if items.len() > 0 {
        let dl = items.drop_last();
        lemma_insert_accepted_provenance(dl);
        let last = items.len() - 1;
        assert forall|k: u64| #[trigger]
            insert_accepted(Map::empty(), items).contains_key(k) implies exists|i: int|
                0 <= i < items.len() && accepted(#[trigger] items[i]) && items[i].illust_id == k
                    && insert_accepted(Map::empty(), items)[k] == work_of(items[i]) by {
            if accepted(items[last]) && items[last].illust_id == k {
                assert(accepted(items[last]));
            } else {
                assert(insert_accepted(Map::empty(), dl).contains_key(k));
                let i = choose|i: int|
                    0 <= i < dl.len() && accepted(#[trigger] dl[i]) && dl[i].illust_id == k
                        && insert_accepted(Map::empty(), dl)[k] == work_of(dl[i]);
                assert(dl[i] == items[i]);
            }
        }
    }
}

/// Every entry of the aggregate mapping comes from an included feed item of
/// the same identity that the filter accepts: no policy flag is set on it,
/// and its page count is between 1 and `MAX_PAGES`.
pub proof fn aggregate_holds_only_accepted(included: Seq<RawItem>, excluded: Seq<RawItem>)
    ensures
        forall|k: u64| #[trigger]
            aggregated(included, excluded).contains_key(k) ==> {
                &&& 1 <= aggregated(included, excluded)[k].page_count <= MAX_PAGES
                &&& exists|i: int|
                    0 <= i < included.len() && (#[trigger] included[i]).illust_id == k
                        && !flagged(included[i].illust_content_type) && accepted(included[i])
                        && aggregated(included, excluded)[k] == work_of(included[i])
            },
{
    lemma_insert_accepted_provenance(included);
    assert forall|k: u64| #[trigger] aggregated(included, excluded).contains_key(k) implies {
        &&& 1 <= aggregated(included, excluded)[k].page_count <= MAX_PAGES
        &&& exists|i: int|
            0 <= i < included.len() && (#[trigger] included[i]).illust_id == k && !flagged(
                included[i].illust_content_type,
            ) && accepted(included[i]) && aggregated(included, excluded)[k] == work_of(included[i])
    } by {
        assert(insert_accepted(Map::empty(), included).contains_key(k));
        let i = choose|i: int|
            0 <= i < included.len() && accepted(#[trigger] included[i]) && included[i].illust_id
                == k && insert_accepted(Map::empty(), included)[k] == work_of(included[i]);
        assert(included[i].illust_id == k);
    }
}

proof fn lemma_insert_accepted_overrides(m: Map<u64, WorkItemView>, items: Seq<RawItem>)
    ensures
        insert_accepted(m, items) == m.union_prefer_right(insert_accepted(Map::empty(), items)),
    decreases items.len(),
{
    if items.len() == 0 {
        assert(m.union_prefer_right(Map::empty()) =~= m);
    } else {
        lemma_insert_accepted_overrides(m, items.drop_last());
        let it = items.last();
        if accepted(it) {
            assert(m.union_prefer_right(insert_accepted(Map::empty(), items.drop_last())).insert(
                it.illust_id,
                work_of(it),
            ) =~= m.union_prefer_right(
                insert_accepted(Map::empty(), items.drop_last()).insert(it.illust_id, work_of(it)),
            ));
        }
    }
}

/// Aggregation is idempotent: passing the same feed responses through the
/// inclusion and exclusion steps again, starting from the mapping they
/// produced, leaves that mapping unchanged.
pub proof fn aggregate_is_idempotent(included: Seq<RawItem>, excluded: Seq<RawItem>)
    ensures
        insert_accepted(aggregated(included, excluded), included).remove_keys(ids_of(excluded))
            == aggregated(included, excluded),
{
    let a = insert_accepted(Map::empty(), included);
    let x = ids_of(excluded);
    lemma_insert_accepted_overrides(a.remove_keys(x), included);
    assert(a.remove_keys(x).union_prefer_right(a) =~= a);
}

} // verus!
