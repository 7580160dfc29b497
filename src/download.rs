//! The page requests of a work item and the per-page fetch policy: unbounded
//! retry on transport failure, one fallback from `.jpg` to `.png` on 404.

use crate::feed::{WorkItem, WorkItemView};
use crate::text::{decimal, push_decimal};
use vstd::prelude::*;

verus! {

/// Delay before a request that failed at the transport level is sent again.
pub const RETRY_DELAY_MS: u64 = 1000;

/// One asset to fetch: where it comes from and the file name it is saved under.
#[derive(Clone, Debug)]
pub struct AssetRequest {
    pub url: String,
    pub file_name: String,
}

pub struct RequestView {
    pub url: Seq<char>,
    pub file_name: Seq<char>,
}

impl View for AssetRequest {
    type V = RequestView;

    open spec fn view(&self) -> RequestView {
        RequestView { url: self.url@, file_name: self.file_name@ }
    }
}

/// The request for page `page` of a work item: `<origin>p<page>.jpg`, saved
/// as `<id>_p<page>.jpg`.
pub open spec fn page_request_of(item: WorkItemView, page: nat) -> RequestView {
    RequestView {
        url: item.origin_url + "p"@ + decimal(page) + ".jpg"@,
        file_name: decimal(item.id as nat) + "_p"@ + decimal(page) + ".jpg"@,
    }
}

/// The request for one page of a work item.
pub fn page_request(item: &WorkItem, page: u64) -> (r: AssetRequest)
    ensures
        r@ == page_request_of(item@, page as nat),
{
    let mut url = item.origin_url.clone();
    url.append("p");
    push_decimal(&mut url, page);
    url.append(".jpg");
    let mut file_name = String::new();
    push_decimal(&mut file_name, item.id);
    file_name.append("_p");
    push_decimal(&mut file_name, page);
    file_name.append(".jpg");
    let r = AssetRequest { url, file_name };
    assert(r@.url =~= page_request_of(item@, page as nat).url);
    assert(r@.file_name =~= page_request_of(item@, page as nat).file_name);
    r
}

/// The requests for all pages of a work item, one per page, from the last
/// page down to page 0.
pub fn page_requests(item: &WorkItem) -> (r: Vec<AssetRequest>)
    ensures
        r@.len() == item.page_count,
        forall|j: int|
            0 <= j < r@.len() ==> (#[trigger] r@[j])@ == page_request_of(
                item@,
                (item.page_count - 1 - j) as nat,
            ),
{
    let mut r: Vec<AssetRequest> = Vec::new();
    let mut cnt: usize = item.page_count;
    while cnt > 0
        invariant
            cnt <= item.page_count,
            r@.len() == item.page_count - cnt,
            forall|j: int|
                0 <= j < r@.len() ==> (#[trigger] r@[j])@ == page_request_of(
                    item@,
                    (item.page_count - 1 - j) as nat,
                ),
        decreases cnt,
    {
        r.push(page_request(item, (cnt - 1) as u64));
        cnt = cnt - 1;
    }
    r
}

/// Which representation of a page is being fetched.
#[derive(Clone, Copy, Debug, PartialEq, Eq, Structural)]
pub enum FetchPhase {
    Primary,
    Fallback,
}

/// The state of the fetch of one page: the page's primary request, the
/// request being sent, and which representation that request is for.
#[derive(Debug)]
pub struct PageFetch {
    pub primary: AssetRequest,
    pub request: AssetRequest,
    pub phase: FetchPhase,
}

pub struct FetchView {
    pub primary: RequestView,
    pub request: RequestView,
    pub phase: FetchPhase,
}

impl View for PageFetch {
    type V = FetchView;

    open spec fn view(&self) -> FetchView {
        FetchView { primary: self.primary@, request: self.request@, phase: self.phase }
    }
}

/// What came of one request.
#[derive(Clone, Copy, Debug, PartialEq, Eq, Structural)]
pub enum FetchOutcome {
    /// Status 200, and the body was written to the file and synced.
    Saved,
    /// Status 404.
    NotFound,
    /// Any other status.
    OtherStatus(u16),
    /// The request, the body stream or the file write failed.
    TransportError,
}

/// What to do after an outcome.
#[derive(Debug)]
pub enum FetchStep {
    /// The page is stored.
    Done,
    /// This page is skipped.
    GiveUp,
    /// Wait the given number of milliseconds, then go on with the fetch.
    RetryAfter(u64, PageFetch),
    /// Go on at once with the fetch.
    Next(PageFetch),
}

pub enum StepView {
    Done,
    GiveUp,
    RetryAfter(u64, FetchView),
    Next(FetchView),
}

impl View for FetchStep {
    type V = StepView;

    open spec fn view(&self) -> StepView {
        match self {
            FetchStep::Done => StepView::Done,
            FetchStep::GiveUp => StepView::GiveUp,
            FetchStep::RetryAfter(ms, f) => StepView::RetryAfter(*ms, f@),
            FetchStep::Next(f) => StepView::Next(f@),
        }
    }
}

/// `s` ends with `jpg`.
pub open spec fn ends_with_jpg(s: Seq<char>) -> bool {
    &&& s.len() >= 3
    &&& s[s.len() - 3] == 'j'
    &&& s[s.len() - 2] == 'p'
    &&& s[s.len() - 1] == 'g'
}

/// `s` with its last three characters replaced by `png`.
pub open spec fn with_png(s: Seq<char>) -> Seq<char> {
    s.subrange(0, s.len() - 3) + "png"@
}

/// The `png` counterpart of a `jpg` request.
pub open spec fn png_request(r: RequestView) -> RequestView {
    RequestView { url: with_png(r.url), file_name: with_png(r.file_name) }
}

/// The state in which the fetch of a page with primary request `r` starts.
pub open spec fn initial_fetch(r: RequestView) -> FetchView {
    FetchView { primary: r, request: r, phase: FetchPhase::Primary }
}

pub open spec fn can_fall_back(f: FetchView) -> bool {
    f.phase == FetchPhase::Primary && ends_with_jpg(f.request.url) && ends_with_jpg(
        f.request.file_name,
    )
}

/// The fetch policy. A transport failure restarts the whole fetch, from the
/// primary request, after the fixed delay.
pub open spec fn step_of(f: FetchView, o: FetchOutcome) -> StepView {
    match o {
        FetchOutcome::Saved => StepView::Done,
        FetchOutcome::TransportError => StepView::RetryAfter(
            RETRY_DELAY_MS,
            initial_fetch(f.primary),
        ),
        FetchOutcome::NotFound => if can_fall_back(f) {
            StepView::Next(
                FetchView {
                    primary: f.primary,
                    request: png_request(f.request),
                    phase: FetchPhase::Fallback,
                },
            )
        } else {
            StepView::GiveUp
        },
        FetchOutcome::OtherStatus(_) => StepView::GiveUp,
    }
}

/// The requests sent, in order, by a fetch that starts in state `f` and whose
/// requests are answered, one each, by `outcomes`; the last request is still
/// unanswered when the outcomes run out.
pub open spec fn requests_sent(f: FetchView, outcomes: Seq<FetchOutcome>) -> Seq<RequestView>
    decreases outcomes.len(),
{
    if outcomes.len() == 0 {
        seq![f.request]
    } else {
        match step_of(f, outcomes[0]) {
            StepView::RetryAfter(_, g) => seq![f.request] + requests_sent(g, outcomes.drop_first()),
            StepView::Next(g) => seq![f.request] + requests_sent(g, outcomes.drop_first()),
            _ => seq![f.request],
        }
    }
}

fn copy_request(r: &AssetRequest) -> (c: AssetRequest)
    ensures
        c@ == r@,
{
    AssetRequest { url: r.url.clone(), file_name: r.file_name.clone() }
}

/// The fetch of a page starts with its primary request.
pub fn start_fetch(request: AssetRequest) -> (r: PageFetch)
    ensures
        r@ == initial_fetch(request@),
{
    PageFetch { primary: copy_request(&request), request, phase: FetchPhase::Primary }
}

fn ends_with_jpg_exec(s: &String) -> (r: bool)
    ensures
        r == ends_with_jpg(s@),
{
    let len = s.as_str().unicode_len();
    if len < 3 {
        false
    } else {
        let t = s.as_str();
        t.get_char(len - 3) == 'j' && t.get_char(len - 2) == 'p' && t.get_char(len - 1) == 'g'
    }
}

fn with_png_exec(s: &String) -> (r: String)
    requires
        ends_with_jpg(s@),
    ensures
        r@ == with_png(s@),
{
    let len = s.as_str().unicode_len();
    let mut r = String::from_str(s.as_str().substring_char(0, len - 3));
    r.append("png");
    r
}

/// The step that the fetch policy takes on an outcome.
pub fn next_step(f: &PageFetch, outcome: FetchOutcome) -> (r: FetchStep)
    ensures
        r@ == step_of(f@, outcome),
{
    match outcome {
        FetchOutcome::Saved => FetchStep::Done,
        FetchOutcome::TransportError => FetchStep::RetryAfter(
            RETRY_DELAY_MS,
            start_fetch(copy_request(&f.primary)),
        ),
        FetchOutcome::NotFound => {
            if f.phase == FetchPhase::Primary && ends_with_jpg_exec(&f.request.url)
                && ends_with_jpg_exec(&f.request.file_name) {
                let request = AssetRequest {
                    url: with_png_exec(&f.request.url),
                    file_name: with_png_exec(&f.request.file_name),
                };
                FetchStep::Next(
                    PageFetch { primary: copy_request(&f.primary), request, phase: FetchPhase::Fallback },
                )
            } else {
                FetchStep::GiveUp
            }
        },
        FetchOutcome::OtherStatus(_) => FetchStep::GiveUp,
    }
}

/// A request that fails at the transport level `n` times and then succeeds
/// is sent exactly `n + 1` times, always unchanged: the fetch never gives up
/// on transport failures.
pub proof fn transport_failures_are_retried(r: RequestView, n: nat)
    ensures
        requests_sent(
            initial_fetch(r),
            Seq::new(n, |i: int| FetchOutcome::TransportError).push(FetchOutcome::Saved),
        ) == Seq::new(n + 1, |i: int| r),
    decreases n,
{
    let outs = Seq::new(n, |i: int| FetchOutcome::TransportError).push(FetchOutcome::Saved);
    if n == 0 {
        assert(outs[0] == FetchOutcome::Saved);
        assert(seq![r] =~= Seq::new(n + 1, |i: int| r));
    } else {
        transport_failures_are_retried(r, (n - 1) as nat);
        assert(outs[0] == FetchOutcome::TransportError);
        assert(outs.drop_first() =~= Seq::new((n - 1) as nat, |i: int| FetchOutcome::TransportError).push(
            FetchOutcome::Saved,
        ));
        assert(seq![r] + Seq::new(n, |i: int| r) =~= Seq::new(n + 1, |i: int| r));
    }
}

/// A 404 on the primary `jpg` request leads to exactly one request for the
/// `png` counterpart; whatever answers that one, unless it is a transport
/// failure, no further request follows.
pub proof fn not_found_falls_back_once(r: RequestView, rest: Seq<FetchOutcome>)
    requires
        ends_with_jpg(r.url),
        ends_with_jpg(r.file_name),
        rest.len() >= 1,
        rest[0] != FetchOutcome::TransportError,
    ensures
        requests_sent(initial_fetch(r), seq![FetchOutcome::NotFound] + rest) == seq![
            r,
            png_request(r),
        ],
{
    let g = FetchView { primary: r, request: png_request(r), phase: FetchPhase::Fallback };
    let outs = seq![FetchOutcome::NotFound] + rest;
    assert(outs[0] == FetchOutcome::NotFound);
    assert(outs.drop_first() =~= rest);
    assert(requests_sent(g, rest) == seq![png_request(r)]);
    assert(seq![r] + seq![png_request(r)] =~= seq![r, png_request(r)]);
}

/// A transport failure on the `png` fallback restarts the whole fetch: after
/// the `jpg` and the `png` requests, the fetch goes on exactly as a fresh
/// fetch of the `jpg` would.
pub proof fn fallback_transport_failure_restarts(r: RequestView, rest: Seq<FetchOutcome>)
    requires
        ends_with_jpg(r.url),
        ends_with_jpg(r.file_name),
    ensures
        requests_sent(
            initial_fetch(r),
            seq![FetchOutcome::NotFound, FetchOutcome::TransportError] + rest,
        ) == seq![r, png_request(r)] + requests_sent(initial_fetch(r), rest),
{
    let g = FetchView { primary: r, request: png_request(r), phase: FetchPhase::Fallback };
    let outs = seq![FetchOutcome::NotFound, FetchOutcome::TransportError] + rest;
    assert(outs[0] == FetchOutcome::NotFound);
    assert(outs.drop_first()[0] == FetchOutcome::TransportError);
    assert(outs.drop_first().drop_first() =~= rest);
    assert(requests_sent(g, outs.drop_first()) == seq![png_request(r)] + requests_sent(
        initial_fetch(r),
        rest,
    ));
    assert(seq![r] + (seq![png_request(r)] + requests_sent(initial_fetch(r), rest)) =~= seq![
        r,
        png_request(r),
    ] + requests_sent(initial_fetch(r), rest));
}

/// What a download worker does once all pages of an item are done.
#[derive(Clone, Copy, Debug, PartialEq, Eq, Structural)]
pub enum WorkerState {
    /// Wait for the next work item.
    Idle,
    /// Stop: the queue was observed empty.
    Terminated,
}

/// The worker's decision after finishing an item: it stops when the queue is
/// empty at that moment, and waits for the next item otherwise.
pub fn after_item(queue_empty: bool) -> (r: WorkerState)
    ensures
        r == (if queue_empty {
            WorkerState::Terminated
        } else {
            WorkerState::Idle
        }),
{
    if queue_empty {
        WorkerState::Terminated
    } else {
        WorkerState::Idle
    }
}

} // verus!
