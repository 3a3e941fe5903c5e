//! Finding a playable copy of a song: the quality levels are tried in turn,
//! each candidate URL is checked with a HEAD request, and when nothing is
//! found directly a proxy may be tried. The network work is done by the
//! caller; the functions here decide what comes next from what came back.
use vstd::prelude::*;
use vstd::string::*;
use crate::netease::NeteaseClient;
use crate::text::{decimal_spec, lemma_parse_decimal, parse_unsigned, parse_unsigned_spec, split_on, split_spec};
use crate::types::{Availability, AvailabilityView, unavailable_view};

verus! {

/// The last path segment of `url` as the `url` crate parses it; `None` when
/// the text does not parse as a URL or the URL cannot be a base.
pub uninterp spec fn url_last_path_segment(url: Seq<char>) -> Option<Seq<char>>;

/// Parses `url` with `url::Url::parse` and takes the last item of
/// `Url::path_segments()`. The result depends on the text alone.
#[verifier::external_body]
fn url_last_segment(url: &str) -> (r: Option<String>)
    ensures
        r.deep_view() == url_last_path_segment(url@),
{
    let parsed = match url::Url::parse(url) {
        Ok(u) => u,
        Err(_) => return None,
    };
    match parsed.path_segments() {
        Some(mut segments) => match segments.next_back() {
            Some(last) => Some(last.to_string()),
            None => None,
        },
        None => None,
    }
}

/// The file type named by a URL's last path segment: the text after its
/// last `.` (the whole segment when it has none), or `mp3` without a segment.
pub open spec fn file_type_spec(segment: Option<Seq<char>>) -> Seq<char> {
    match segment {
        Some(seg) => split_spec(seg, '.').last(),
        None => "mp3"@,
    }
}

pub proof fn lemma_split_spec_nonempty(s: Seq<char>, c: char)
    ensures
        split_spec(s, c).len() >= 1,
{
    crate::text::lemma_find_char_range(s, c);
}

/// The file type from a URL's last path segment.
pub fn file_type_from_segment(segment: Option<String>) -> (r: String)
    ensures
        r@ == file_type_spec(segment.deep_view()),
{
    match segment {
        Some(seg) => {
            let parts = split_on(seg.as_str(), '.');
            proof {
                lemma_split_spec_nonempty(seg@, '.');
            }
            let last = parts.len() - 1;
            parts[last].clone()
        },
        None => String::from_str("mp3"),
    }
}

/// The file type of the audio behind `url`.
pub fn file_type_of_url(url: &str) -> (r: String)
    ensures
        r@ == file_type_spec(url_last_path_segment(url@)),
{
    file_type_from_segment(url_last_segment(url))
}

/// What a HEAD request on a candidate URL answered: the status code, and the
/// `content-length` header when it is present and readable as text.
#[derive(Clone, Debug)]
pub struct HeadInfo {
    pub status: u16,
    pub content_length: Option<String>,
}

/// The announced length, 0 when it is absent or not a number.
pub open spec fn head_length(h: HeadInfo) -> int {
    match h.content_length {
        Some(t) => match parse_unsigned_spec(t@, u64::MAX as int) {
            Some(v) => v,
            None => 0,
        },
        None => 0,
    }
}

/// The smallest length, in bytes, that is taken for a real audio file.
pub open spec fn min_audio_bytes() -> int {
    512000int
}

/// A success or redirection status, with more than 500 KiB announced.
pub open spec fn head_accepts(h: HeadInfo) -> bool {
    200 <= h.status <= 399 && head_length(h) > min_audio_bytes()
}

/// The quality levels, best first.
pub open spec fn quality_levels() -> Seq<Seq<char>> {
    seq!["hires"@, "lossless"@, "exhigh"@, "higher"@, "standard"@]
}

pub fn quality_level(i: usize) -> (r: String)
    requires
        i < 5,
    ensures
        r@ == quality_levels()[i as int],
{
    if i == 0 {
        String::from_str("hires")
    } else if i == 1 {
        String::from_str("lossless")
    } else if i == 2 {
        String::from_str("exhigh")
    } else if i == 3 {
        String::from_str("higher")
    } else {
        String::from_str("standard")
    }
}

/// The record of a copy found at quality `level`, at `url`, `len` bytes long.
pub open spec fn found_view(level: int, url: Seq<char>, len: int) -> AvailabilityView {
    AvailabilityView {
        available: true,
        content_length: Some(len as u64),
        url: Some(url),
        need_proxy: false,
        quality: Some(quality_levels()[level]),
        bitrate: Some(((len * 8) / 300 / 1000) as u64),
        file_type: Some(file_type_spec(url_last_path_segment(url))),
    }
}

/// Where the search for a playable copy stands.
#[derive(Debug)]
pub enum ProbeState {
    /// Waiting for the URL of quality level `.0`.
    AwaitUrl(usize),
    /// Waiting for the HEAD reply on the URL `.1` of quality level `.0`.
    AwaitHead(usize, String),
    Finished,
}

/// What the caller brings back.
#[derive(Debug)]
pub enum ProbeEvent {
    /// The player URL for the level asked for, if the API gave one.
    UrlReply(Option<String>),
    /// The HEAD reply, or `None` when the request failed.
    HeadReply(Option<HeadInfo>),
}

/// What the caller is to do next.
#[derive(Debug)]
pub enum ProbeAction {
    /// Ask the API for the URL of this quality level.
    FetchUrl(String),
    /// Send a HEAD request to this URL.
    Head(String),
    /// The search is over, with this result.
    Finish(Availability),
}

pub open spec fn probe_wf(s: ProbeState) -> bool {
    match s {
        ProbeState::AwaitUrl(l) => l < 5,
        ProbeState::AwaitHead(l, _) => l < 5,
        ProbeState::Finished => true,
    }
}

/// The event is the one the state waits for.
pub open spec fn probe_expects(s: ProbeState, e: ProbeEvent) -> bool {
    match (s, e) {
        (ProbeState::AwaitUrl(_), ProbeEvent::UrlReply(_)) => true,
        (ProbeState::AwaitHead(_, _), ProbeEvent::HeadReply(_)) => true,
        _ => false,
    }
}

/// The state after level `l` gave nothing.
pub open spec fn after_level(l: usize) -> ProbeState {
    if l + 1 < 5 {
        ProbeState::AwaitUrl((l + 1) as usize)
    } else {
        ProbeState::Finished
    }
}

/// The state that follows `s` when `e` comes back.
pub open spec fn probe_next(s: ProbeState, e: ProbeEvent) -> ProbeState {
    match (s, e) {
        (ProbeState::AwaitUrl(l), ProbeEvent::UrlReply(None)) => after_level(l),
        (ProbeState::AwaitUrl(l), ProbeEvent::UrlReply(Some(u))) => ProbeState::AwaitHead(l, u),
        (ProbeState::AwaitHead(l, _), ProbeEvent::HeadReply(h)) => if h matches Some(hi)
            && head_accepts(hi) {
            ProbeState::Finished
        } else {
            after_level(l)
        },
        _ => ProbeState::Finished,
    }
}

/// How many requests the search can still make.
pub open spec fn probe_measure(s: ProbeState) -> int {
    match s {
        ProbeState::AwaitUrl(l) => 2 * (5 - l),
        ProbeState::AwaitHead(l, _) => 2 * (5 - l) - 1,
        ProbeState::Finished => 0,
    }
}

/// Every step brings the search closer to its end: it asks for at most five
/// URLs and sends at most five HEAD requests before it finishes.
pub proof fn lemma_probe_progress(s: ProbeState, e: ProbeEvent)
    requires
        probe_wf(s),
        probe_expects(s, e),
    ensures
        probe_wf(probe_next(s, e)),
        0 <= probe_measure(probe_next(s, e)) < probe_measure(s),
{
}

/// A HEAD reply with any success or redirection status (200 to 399) that
/// announces `n` bytes, `n` above 512000, ends the search at that level: the
/// step finishes, and the copy found is the one at level `l`, at the URL
/// checked, `n` bytes long, marked available.
pub proof fn lemma_probe_accepts_reply(l: usize, u: String, h: HeadInfo, n: nat)
    requires
        l < 5,
        200 <= h.status <= 399,
        512000 < n <= u64::MAX,
        h.content_length matches Some(t) && t@ == decimal_spec(n),
    ensures
        head_length(h) == n,
        head_accepts(h),
        probe_next(ProbeState::AwaitHead(l, u), ProbeEvent::HeadReply(Some(h)))
            == ProbeState::Finished,
        found_view(l as int, u@, n as int).available,
        found_view(l as int, u@, n as int).url == Some(u@),
        found_view(l as int, u@, n as int).content_length == Some(n as u64),
        found_view(l as int, u@, n as int).quality == Some(quality_levels()[l as int]),
        !found_view(l as int, u@, n as int).need_proxy,
        found_view(l as int, u@, n as int).bitrate matches Some(b) && b * 300000 <= 8 * n < (b + 1)
            * 300000,
{
    lemma_parse_decimal(n, u64::MAX as int);
    let b = (n * 8) / 300 / 1000;
    assert(b * 300000 <= 8 * n < (b + 1) * 300000) by (nonlinear_arith)
        requires
            b == (n * 8) / 300 / 1000,
            n >= 0,
    ;
    assert(b < 0x1_0000_0000_0000_0000) by (nonlinear_arith)
        requires
            b == (n * 8) / 300 / 1000,
            n <= u64::MAX,
    ;
}

/// The quality levels are tried best first: hires, lossless, exhigh,
/// higher, standard.
pub proof fn lemma_quality_order()
    ensures
        quality_levels().len() == 5,
        quality_levels()[0] == "hires"@,
        quality_levels()[1] == "lossless"@,
        quality_levels()[2] == "exhigh"@,
        quality_levels()[3] == "higher"@,
        quality_levels()[4] == "standard"@,
{
}

/// A HEAD reply is refused when its status is below 200 or above 399, or
/// when it announces 512000 bytes or fewer: the search moves on.
pub proof fn lemma_probe_refuses_reply(l: usize, u: String, h: HeadInfo)
    requires
        l < 5,
        h.status < 200 || h.status > 399 || head_length(h) <= 512000,
    ensures
        !head_accepts(h),
        probe_next(ProbeState::AwaitHead(l, u), ProbeEvent::HeadReply(Some(h))) == after_level(l),
{
}

/// After level `l` gave nothing: the next level, or the end with nothing.
pub open spec fn moved_on(l: int, r: (ProbeState, ProbeAction)) -> bool {
    if l + 1 < 5 {
        &&& r.0 == ProbeState::AwaitUrl((l + 1) as usize)
        &&& r.1 matches ProbeAction::FetchUrl(q) && q@ == quality_levels()[l + 1]
    } else {
        &&& r.0 == ProbeState::Finished
        &&& r.1 matches ProbeAction::Finish(av) && av@ == unavailable_view()
    }
}

fn move_on(l: usize) -> (r: (ProbeState, ProbeAction))
    requires
        l < 5,
    ensures
        moved_on(l as int, r),
{
    if l + 1 < 5 {
        (ProbeState::AwaitUrl(l + 1), ProbeAction::FetchUrl(quality_level(l + 1)))
    } else {
        (ProbeState::Finished, ProbeAction::Finish(Availability::unavailable()))
    }
}

/// The search starts by asking for the best quality level.
pub fn probe_start() -> (r: (ProbeState, ProbeAction))
    ensures
        r.0 == ProbeState::AwaitUrl(0),
        r.1 matches ProbeAction::FetchUrl(q) && q@ == quality_levels()[0],
{
    (ProbeState::AwaitUrl(0), ProbeAction::FetchUrl(quality_level(0)))
}

fn head_content_length(h: &HeadInfo) -> (r: u64)
    ensures
        r as int == head_length(*h),
{
    match &h.content_length {
        Some(t) => match parse_unsigned(t.as_str(), u64::MAX) {
            Some(v) => v,
            None => 0,
        },
        None => 0,
    }
}

/// One step of the search. A level without a URL, a failed HEAD request, a
/// status that is neither success nor redirection, or a length of at most
/// 500 KiB moves on to the next level; after the last level the song is
/// unavailable. An accepted HEAD reply ends the search with the copy found.
pub fn probe_step(state: ProbeState, event: ProbeEvent) -> (r: (ProbeState, ProbeAction))
    requires
        probe_wf(state),
        probe_expects(state, event),
    ensures
        probe_wf(r.0),
        r.0 == probe_next(state, event),
        match (state, event) {
            (ProbeState::AwaitUrl(l), ProbeEvent::UrlReply(None)) => moved_on(l as int, r),
            (ProbeState::AwaitUrl(l), ProbeEvent::UrlReply(Some(u))) => {
                &&& r.0 == ProbeState::AwaitHead(l, u)
                &&& r.1 matches ProbeAction::Head(x) && x@ == u@
            },
            (ProbeState::AwaitHead(l, u), ProbeEvent::HeadReply(h)) => if h matches Some(hi)
                && head_accepts(hi) {
                &&& r.0 == ProbeState::Finished
                &&& r.1 matches ProbeAction::Finish(av) && av@ == found_view(
                    l as int,
                    u@,
                    head_length(h.unwrap()),
                )
            } else {
                moved_on(l as int, r)
            },
            _ => true,
        },
{
    match state {
        ProbeState::AwaitUrl(l) => match event {
            ProbeEvent::UrlReply(None) => move_on(l),
            ProbeEvent::UrlReply(Some(u)) => {
                let x = u.clone();
                (ProbeState::AwaitHead(l, u), ProbeAction::Head(x))
            },
            ProbeEvent::HeadReply(_) => (ProbeState::Finished, ProbeAction::Finish(
                Availability::unavailable(),
            )),
        },
        ProbeState::AwaitHead(l, u) => match event {
            ProbeEvent::HeadReply(Some(h)) => {
                if 200 <= h.status && h.status <= 399 {
                    let len = head_content_length(&h);
                    if len > 500 * 1024 {
                        let bitrate = ((len as u128 * 8) / 300 / 1000) as u64;
                        let file_type = file_type_of_url(u.as_str());
                        let av = Availability {
                            available: true,
                            content_length: Some(len),
                            url: Some(u),
                            need_proxy: false,
                            quality: Some(quality_level(l)),
                            bitrate: Some(bitrate),
                            file_type: Some(file_type),
                        };
                        return (ProbeState::Finished, ProbeAction::Finish(av));
                    }
                }
                move_on(l)
            },
            ProbeEvent::HeadReply(None) => move_on(l),
            ProbeEvent::UrlReply(_) => (ProbeState::Finished, ProbeAction::Finish(
                Availability::unavailable(),
            )),
        },
        ProbeState::Finished => (ProbeState::Finished, ProbeAction::Finish(
            Availability::unavailable(),
        )),
    }
}

// ------------------------------------------------------- retrying via proxy

/// Where the availability check with proxy fallback stands. Each state
/// remembers the proxy the client had before the check began.
#[derive(Debug)]
pub enum RetryState {
    /// Checking without a proxy.
    Direct { previous_proxy: Option<String>, auto_proxy: bool },
    /// Waiting for a working proxy to be found.
    SearchingProxy { previous_proxy: Option<String> },
    /// Checking through the client's current proxy: an automatic one found
    /// by the search, or, without automatic proxies, the remembered one.
    ViaProxy { previous_proxy: Option<String>, auto_proxy: bool },
    Finished,
}

/// What the caller is to do next.
#[derive(Debug)]
pub enum RetryAction {
    /// Run the availability check with the client's current proxy.
    Check,
    /// Look for a working proxy.
    FindAutoProxy,
    /// Done, with this result.
    Finish(Availability),
}

/// A result found through a proxy: marked as needing it when available.
pub open spec fn via_proxy_view(av: AvailabilityView) -> AvailabilityView {
    AvailabilityView { need_proxy: av.available, ..av }
}

/// The whole search, from the client's proxy before it (`previous`), the
/// direct check's result, the automatic proxy found (if one was looked
/// for), and the check made through a proxy (if one was made): the result,
/// and the proxy the client is left with. A direct hit is returned as it
/// is. Otherwise an automatic proxy, or else the client's own proxy, is
/// tried; a hit through it is marked as needing the proxy. The client keeps
/// its own proxy in every outcome but one: an automatic proxy was found, and
/// then the client keeps that one.
pub open spec fn retry_outcome(
    previous: Option<Seq<char>>,
    auto_proxy: bool,
    direct: AvailabilityView,
    found: Option<Seq<char>>,
    via: AvailabilityView,
) -> (AvailabilityView, Option<Seq<char>>) {
    let through = if via.available {
        via_proxy_view(via)
    } else {
        unavailable_view()
    };
    if direct.available {
        (direct, previous)
    } else if auto_proxy {
        match found {
            Some(p) => (through, Some(p)),
            None => (unavailable_view(), previous),
        }
    } else if previous is Some {
        (through, previous)
    } else {
        (unavailable_view(), previous)
    }
}

/// Over the whole search: the result needs a proxy exactly when it is
/// available and the direct check was not; an unavailable result has every
/// other field empty; the client is left with the proxy it had unless an
/// automatic proxy was found; and after a direct hit, or without automatic
/// proxies and without a proxy of the client's own, only the direct check
/// counts.
pub proof fn lemma_retry_outcome(
    previous: Option<Seq<char>>,
    auto_proxy: bool,
    direct: AvailabilityView,
    found: Option<Seq<char>>,
    via: AvailabilityView,
)
    requires
        !direct.need_proxy,
    ensures
        retry_outcome(previous, auto_proxy, direct, found, via).0.need_proxy == (retry_outcome(
            previous,
            auto_proxy,
            direct,
            found,
            via,
        ).0.available && !direct.available),
        !retry_outcome(previous, auto_proxy, direct, found, via).0.available ==> retry_outcome(
            previous,
            auto_proxy,
            direct,
            found,
            via,
        ).0 == unavailable_view(),
        !(auto_proxy && !direct.available && found is Some) ==> retry_outcome(
            previous,
            auto_proxy,
            direct,
            found,
            via,
        ).1 == previous,
        (direct.available || (!auto_proxy && previous is None)) ==> retry_outcome(
            previous,
            auto_proxy,
            direct,
            found,
            via,
        ) == retry_outcome(previous, auto_proxy, direct, None, unavailable_view()),
{
}

/// Starts the check: the client's proxy is remembered and cleared, and the
/// song is first checked directly.
pub fn retry_start(client: &mut NeteaseClient, auto_proxy: bool) -> (r: (RetryState, RetryAction))
    ensures
        final(client).proxy_url is None,
        final(client).api_base == old(client).api_base,
        r.0 == (RetryState::Direct { previous_proxy: old(client).proxy_url, auto_proxy }),
        r.1 is Check,
{
    let previous_proxy = match &client.proxy_url {
        Some(p) => Some(p.clone()),
        None => None,
    };
    client.set_proxy(None);
    (RetryState::Direct { previous_proxy, auto_proxy }, RetryAction::Check)
}

fn copy_proxy(p: &Option<String>) -> (r: Option<String>)
    ensures
        r == *p,
{
    match p {
        Some(s) => Some(s.clone()),
        None => None,
    }
}

/// The checks through a proxy are made with the proxy the state says.
pub open spec fn retry_check_ready(state: RetryState, client: NeteaseClient) -> bool {
    match state {
        RetryState::Direct { .. } => true,
        RetryState::ViaProxy { previous_proxy, auto_proxy } => if auto_proxy {
            client.proxy_url is Some
        } else {
            previous_proxy is Some && client.proxy_url == previous_proxy
        },
        _ => false,
    }
}

/// The outcome of a check. A direct hit ends the search, and the client
/// gets its own proxy back. Otherwise, with automatic proxies a proxy is
/// looked for; without, the client's own proxy is tried if it had one, and
/// if it had none the song is unavailable. A check through a proxy ends the
/// search, with the result marked as needing the proxy when available, else
/// unavailable; the client keeps the proxy the check went through.
pub fn retry_on_checked(state: RetryState, client: &mut NeteaseClient, result: Availability) -> (r: (
    RetryState,
    RetryAction,
))
    requires
        retry_check_ready(state, *old(client)),
    ensures
        final(client).api_base == old(client).api_base,
        match state {
            RetryState::Direct { previous_proxy, auto_proxy } => if result.available {
                &&& r.0 == RetryState::Finished
                &&& r.1 matches RetryAction::Finish(av) && av@ == result@
                &&& final(client).proxy_url == previous_proxy
            } else if auto_proxy {
                &&& r.0 == (RetryState::SearchingProxy { previous_proxy })
                &&& r.1 is FindAutoProxy
                &&& final(client).proxy_url == old(client).proxy_url
            } else if previous_proxy is Some {
                &&& r.0 == (RetryState::ViaProxy { previous_proxy, auto_proxy: false })
                &&& r.1 is Check
                &&& final(client).proxy_url == previous_proxy
            } else {
                &&& r.0 == RetryState::Finished
                &&& r.1 matches RetryAction::Finish(av) && av@ == unavailable_view()
                &&& final(client).proxy_url == previous_proxy
            },
            _ => {
                &&& r.0 == RetryState::Finished
                &&& final(client).proxy_url == old(client).proxy_url
                &&& r.1 matches RetryAction::Finish(av) && av@ == if result.available {
                    via_proxy_view(result@)
                } else {
                    unavailable_view()
                }
            },
        },
        r.1 matches RetryAction::Finish(av) ==> match state {
            RetryState::Direct { previous_proxy, auto_proxy } => (av@, final(client).proxy_url.deep_view()) == retry_outcome(
                previous_proxy.deep_view(),
                auto_proxy,
                result@,
                None,
                unavailable_view(),
            ),
            RetryState::ViaProxy { previous_proxy, auto_proxy } => (av@, final(client).proxy_url.deep_view()) == retry_outcome(
                previous_proxy.deep_view(),
                auto_proxy,
                unavailable_view(),
                if auto_proxy {
                    old(client).proxy_url.deep_view()
                } else {
                    None
                },
                result@,
            ),
            _ => true,
        },
{
    match state {
        RetryState::Direct { previous_proxy, auto_proxy } => {
            if result.available {
                client.set_proxy(previous_proxy);
                (RetryState::Finished, RetryAction::Finish(result))
            } else if auto_proxy {
                (RetryState::SearchingProxy { previous_proxy }, RetryAction::FindAutoProxy)
            } else if previous_proxy.is_some() {
                let p = copy_proxy(&previous_proxy);
                client.set_proxy(p);
                (RetryState::ViaProxy { previous_proxy, auto_proxy: false }, RetryAction::Check)
            } else {
                client.set_proxy(previous_proxy);
                (RetryState::Finished, RetryAction::Finish(Availability::unavailable()))
            }
        },
        _ => {
            if result.available {
                let mut av = result;
                av.need_proxy = true;
                (RetryState::Finished, RetryAction::Finish(av))
            } else {
                (RetryState::Finished, RetryAction::Finish(Availability::unavailable()))
            }
        },
    }
}

/// The outcome of the proxy search: a proxy found is set on the client and
/// the song checked through it; none found ends with the song unavailable,
/// and the client gets its own proxy back.
pub fn retry_on_proxy(state: RetryState, client: &mut NeteaseClient, found: Option<String>) -> (r: (
    RetryState,
    RetryAction,
))
    requires
        state is SearchingProxy,
    ensures
        final(client).api_base == old(client).api_base,
        match state {
            RetryState::SearchingProxy { previous_proxy } => match found {
                Some(p) => {
                    &&& r.0 == (RetryState::ViaProxy { previous_proxy, auto_proxy: true })
                    &&& r.1 is Check
                    &&& final(client).proxy_url == Some(p)
                },
                None => {
                    &&& r.0 == RetryState::Finished
                    &&& r.1 matches RetryAction::Finish(av) && av@ == unavailable_view() && (
                    av@,
                    final(client).proxy_url.deep_view(),
                    ) == retry_outcome(
                        previous_proxy.deep_view(),
                        true,
                        unavailable_view(),
                        None,
                        unavailable_view(),
                    )
                    &&& final(client).proxy_url == previous_proxy
                },
            },
            _ => true,
        },
{
    match state {
        RetryState::SearchingProxy { previous_proxy } => match found {
            Some(p) => {
                client.set_proxy(Some(p));
                (RetryState::ViaProxy { previous_proxy, auto_proxy: true }, RetryAction::Check)
            },
            None => {
                client.set_proxy(previous_proxy);
                (RetryState::Finished, RetryAction::Finish(Availability::unavailable()))
            },
        },
        _ => (RetryState::Finished, RetryAction::Finish(Availability::unavailable())),
    }
}

} // verus!
