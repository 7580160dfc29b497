use pixiv_rank::feed::{
    accept, add_items, aggregate, is_flagged, parse_usize, remove_seen, resolve_page_count, to_work_item,
    AggregateError, ContentFlags, RawItem, WorkItem, MAX_PAGES,
};
use std::collections::HashMap;

fn clean() -> ContentFlags {
    ContentFlags { bl: false, furry: false, antisocial: false, drug: false }
}

fn source_url(id: u64) -> String {
    format!("https://i.pximg.net/c/240x480/img-master/img/2022/05/20/00/00/11/{}_p0_master1200.jpg", id)
}

fn item(id: u64, pages: &str, flags: ContentFlags) -> RawItem {
    RawItem {
        title: format!("title {}", id),
        illust_id: id,
        url: source_url(id),
        illust_page_count: pages.to_string(),
        illust_content_type: flags,
    }
}

fn sorted_keys(m: &HashMap<u64, WorkItem>) -> Vec<u64> {
    let mut k: Vec<u64> = m.keys().copied().collect();
    k.sort();
    k
}

#[test]
fn page_count_parses_or_defaults_to_one() {
    assert_eq!(resolve_page_count("3"), 3);
    assert_eq!(resolve_page_count("+2"), 2);
    assert_eq!(resolve_page_count("12"), 12);
    assert_eq!(resolve_page_count(""), 1);
    assert_eq!(resolve_page_count("abc"), 1);
    assert_eq!(resolve_page_count("-4"), 1);
    assert_eq!(resolve_page_count(" 4"), 1);
    assert_eq!(resolve_page_count("0"), 1);
}

#[test]
fn each_policy_flag_rejects() {
    assert!(!is_flagged(&clean()));
    let mut f = clean();
    f.bl = true;
    assert!(is_flagged(&f) && !accept(&item(1, "1", f)));
    let mut f = clean();
    f.furry = true;
    assert!(!accept(&item(1, "1", f)));
    let mut f = clean();
    f.antisocial = true;
    assert!(!accept(&item(1, "1", f)));
    let mut f = clean();
    f.drug = true;
    assert!(!accept(&item(1, "1", f)));
    assert!(accept(&item(1, "1", clean())));
}

#[test]
fn page_count_threshold() {
    assert_eq!(MAX_PAGES, 5);
    assert!(accept(&item(1, "5", clean())));
    assert!(!accept(&item(1, "6", clean())));
    assert!(accept(&item(1, "many", clean())));
}

#[test]
fn work_item_rewrites_to_origin_host() {
    let w = to_work_item(&item(98465234, "2", clean())).unwrap();
    assert_eq!(w.origin_url, "https://i.pximg.net/img-original/img/2022/05/20/00/00/11/98465234_");
    assert_eq!(w.id, 98465234);
    assert_eq!(w.page_count, 2);
    assert_eq!(w.title, "title 98465234");
}

#[test]
fn work_item_takes_leftmost_path() {
    let mut it = item(5, "1", clean());
    it.url = "x/img/2021/01/02/03/04/05/77_p1/img/2020/01/02/03/04/05/88_p0.png".to_string();
    let w = to_work_item(&it).unwrap();
    assert_eq!(w.origin_url, "https://i.pximg.net/img-original/img/2021/01/02/03/04/05/77_");
}

#[test]
fn malformed_url_has_no_work_item() {
    let mut it = item(5, "1", clean());
    it.url = "https://example.com/img/2022/5/20/00/00/11/5_p0.jpg".to_string();
    assert!(to_work_item(&it).is_none());
    it.url = "https://example.com/img/2022/05/20/00/00/11/_p0.jpg".to_string();
    assert!(to_work_item(&it).is_none());
}

#[test]
fn malformed_accepted_item_fails_aggregation() {
    let mut bad = item(9, "1", clean());
    bad.url = "no path here".to_string();
    let r = aggregate(&vec![item(1, "1", clean()), bad], &vec![]);
    assert_eq!(r.err(), Some(AggregateError::MalformedUrl(9)));
}

#[test]
fn malformed_rejected_item_is_ignored() {
    let mut flags = clean();
    flags.drug = true;
    let mut bad = item(9, "1", flags);
    bad.url = "no path here".to_string();
    let m = aggregate(&vec![item(1, "1", clean()), bad], &vec![]).unwrap();
    assert_eq!(sorted_keys(&m), vec![1]);
}

#[test]
fn later_item_replaces_earlier_of_same_identity() {
    let mut m: HashMap<u64, WorkItem> = HashMap::new();
    add_items(&mut m, &vec![item(4, "1", clean()), item(4, "3", clean())]).unwrap();
    assert_eq!(m.len(), 1);
    assert_eq!(m[&4].page_count, 3);
}

#[test]
fn exclusion_removes_identity_regardless_of_filter() {
    let mut flagged = clean();
    flagged.bl = true;
    let included = vec![item(1, "1", clean()), item(2, "2", clean()), item(3, "1", clean())];
    let excluded = vec![item(2, "1", flagged), item(3, "9", clean()), item(99, "1", clean())];
    let m = aggregate(&included, &excluded).unwrap();
    assert_eq!(sorted_keys(&m), vec![1]);
}

#[test]
fn remove_seen_keeps_others() {
    let mut m: HashMap<u64, WorkItem> = HashMap::new();
    add_items(&mut m, &vec![item(1, "1", clean()), item(2, "1", clean())]).unwrap();
    remove_seen(&mut m, &vec![item(2, "1", clean())]);
    assert_eq!(sorted_keys(&m), vec![1]);
}

#[test]
fn accepted_entries_carry_no_flags_and_few_pages() {
    let mut f = clean();
    f.furry = true;
    let included = vec![item(1, "1", f), item(2, "6", clean()), item(3, "5", clean())];
    let m = aggregate(&included, &vec![]).unwrap();
    assert_eq!(sorted_keys(&m), vec![3]);
    for w in m.values() {
        assert!(w.page_count >= 1 && w.page_count <= 5);
    }
}

#[test]
fn aggregation_twice_gives_same_mapping() {
    let included = vec![item(1, "1", clean()), item(2, "4", clean()), item(1, "2", clean())];
    let excluded = vec![item(7, "1", clean())];
    let a = aggregate(&included, &excluded).unwrap();
    let b = aggregate(&included, &excluded).unwrap();
    assert_eq!(sorted_keys(&a), sorted_keys(&b));
    for (k, v) in a.iter() {
        let w = &b[k];
        assert_eq!(v.origin_url, w.origin_url);
        assert_eq!(v.title, w.title);
        assert_eq!(v.page_count, w.page_count);
        assert_eq!(v.id, w.id);
    }
    let mut again = a.clone();
    add_items(&mut again, &included).unwrap();
    remove_seen(&mut again, &excluded);
    assert_eq!(sorted_keys(&again), sorted_keys(&a));
    assert_eq!(again[&1].page_count, 2);
}

#[test]
fn empty_windows_give_empty_mapping() {
    let m = aggregate(&vec![], &vec![item(1, "1", clean())]).unwrap();
    assert!(m.is_empty());
}

#[test]
fn parse_usize_like_std() {
    for t in ["0", "7", "+12", "007", "", "+", "-1", " 3", "3 ", "1a", "++1", "4294967296", "99999999999999999999999"] {
        assert_eq!(parse_usize(t), t.parse::<usize>().ok(), "input {:?}", t);
    }
    assert_eq!(parse_usize("+12"), Some(12));
    assert_eq!(parse_usize(&usize::MAX.to_string()), Some(usize::MAX));
    assert_eq!(parse_usize(&format!("{}0", usize::MAX)), None);
}
