use vstd::prelude::*;
use crate::bridge::text_view;

verus! {

/// The scheme prefix of a telnet link.
pub const TELNET_SCHEME: &'static str = "telnet://";

/// A request, carried by a deep link, to open a telnet session.
#[derive(Clone, Debug)]
pub struct TelnetLaunchRequest {
    pub host: String,
    pub port: Option<u16>,
    pub label: Option<String>,
}

/// Something the front end is asked to do.
#[derive(Clone, Debug)]
pub enum TelnetAction {
    Open { request: TelnetLaunchRequest },
}

/// What std's `str::trim` leaves of `s`.
pub uninterp spec fn trimmed(s: Seq<char>) -> Seq<char>;

/// Relies on str::trim: leading and trailing white space is removed, and
/// the result depends on the text alone.
#[verifier::external_body]
fn trim_text(s: &str) -> (r: &str)
    ensures
        r@ == trimmed(s@),
{
    s.trim()
}

/// The host and port that the url crate reads from `s`: `None` where `s` is
/// no absolute URL, else the host (if the URL has one) and the explicit port
/// (if it names one other than its scheme's default).
pub uninterp spec fn url_authority(s: Seq<char>) -> Option<(Option<Seq<char>>, Option<u16>)>;

/// Relies on url::Url::parse, with the `host_str` and `port` accessors of
/// the parsed URL: their results depend on the text alone.
#[verifier::external_body]
fn parse_authority(s: &str) -> (r: Option<(Option<String>, Option<u16>)>)
    ensures
        r matches Some((h, p)) ==> url_authority(s@) == Some((text_view(h), p)),
        r is None ==> url_authority(s@) is None,
{
    match url::Url::parse(s) {
        Ok(u) => Some((u.host_str().map(|h| h.to_string()), u.port())),
        Err(_) => None,
    }
}

/// `c` equals `t` once ASCII upper case is folded to lower case; `t` is
/// lower case.
pub open spec fn folds_to(c: char, t: char) -> bool {
    c == t || ('a' <= t && t <= 'z' && (c as u32) + 32 == t as u32)
}

/// `s` starts with `telnet://`, in any ASCII case.
pub open spec fn has_telnet_scheme(s: Seq<char>) -> bool {
    s.len() >= TELNET_SCHEME@.len() && forall|i: int|
        0 <= i < TELNET_SCHEME@.len() ==> folds_to(#[trigger] s[i], TELNET_SCHEME@[i])
}

/// The link text that is handed to the URL parser.
pub open spec fn link_text(t: Seq<char>) -> Seq<char> {
    if has_telnet_scheme(t) {
        t
    } else {
        TELNET_SCHEME@ + t
    }
}

/// The host and port that a link `url` asks for, if any.
pub open spec fn link_target(url: Seq<char>) -> Option<(Seq<char>, Option<u16>)> {
    let t = trimmed(url);
    if t.len() == 0 {
        None
    } else {
        match url_authority(link_text(t)) {
            Some((Some(h), p)) => Some((h, p)),
            _ => None,
        }
    }
}

fn folds_to_exec(c: char, t: char) -> (r: bool)
    ensures
        r == folds_to(c, t),
{
    c == t || ('a' <= t && t <= 'z' && (c as u32) + 32 == t as u32)
}

/// Whether `s` starts with `telnet://`, in any ASCII case.
pub fn starts_with_telnet_scheme(s: &str) -> (r: bool)
    ensures
        r == has_telnet_scheme(s@),
{
    proof {
        reveal_strlit("telnet://");
    }
    let n = TELNET_SCHEME.unicode_len();
    if s.unicode_len() < n {
        return false;
    }
    let mut i: usize = 0;
    while i < n
        invariant
            n == TELNET_SCHEME@.len(),
            n == 9,
            s@.len() >= n,
            i <= n,
            forall|j: int| 0 <= j < i ==> folds_to(#[trigger] s@[j], TELNET_SCHEME@[j]),
        decreases n - i,
    {
        if !folds_to_exec(s.get_char(i), TELNET_SCHEME.get_char(i)) {
            return false;
        }
        i = i + 1;
    }
    true
}

/// `t` with the telnet scheme put in front, unless it already starts with
/// it (in any ASCII case).
pub fn with_telnet_scheme(t: &str) -> (r: String)
    ensures
        r@ == link_text(t@),
{
    if starts_with_telnet_scheme(t) {
        String::from_str(t)
    } else {
        let mut w = String::from_str(TELNET_SCHEME);
        w.append(t);
        w
    }
}

/// The request for what the URL parser read from a link: a request exactly
/// when the link parsed and names a host.
pub fn request_from_authority(parts: Option<(Option<String>, Option<u16>)>) -> (r: Option<
    TelnetLaunchRequest,
>)
    ensures
        r is Some <==> (parts matches Some((Some(_), _))),
        r matches Some(req) ==> (parts matches Some((Some(h), p)) && req.host@ == h@ && req.port
            == p) && req.label is None,
{
    match parts {
        Some((Some(host), port)) => Some(TelnetLaunchRequest { host, port, label: None }),
        _ => None,
    }
}

/// The request carried by the link `url` (`telnet://host`,
/// `telnet://host:port`, or the same without the scheme), if it names a host.
pub fn parse_telnet_url(url: &str) -> (r: Option<TelnetLaunchRequest>)
    ensures
        r is Some <==> link_target(url@) is Some,
        r matches Some(req) ==> link_target(url@) == Some((req.host@, req.port))
            && req.label is None,
{
    let t = trim_text(url);
    if t.unicode_len() == 0 {
        return None;
    }
    let work = with_telnet_scheme(t);
    request_from_authority(parse_authority(work.as_str()))
}

/// Open requests that arrived by deep link and wait for the front end.
pub struct PendingActions {
    actions: Vec<TelnetAction>,
}

impl PendingActions {
    /// The waiting actions, oldest first.
    pub closed spec fn view(&self) -> Seq<TelnetAction> {
        self.actions@
    }

    /// An empty queue.
    pub fn new() -> (r: Self)
        ensures
            r@ == Seq::<TelnetAction>::empty(),
    {
        PendingActions { actions: Vec::new() }
    }

    /// Number of waiting actions.
    pub fn len(&self) -> (r: usize)
        ensures
            r == self@.len(),
    {
        self.actions.len()
    }

    /// Queues `more` behind the actions already waiting.
    pub fn extend(&mut self, more: Vec<TelnetAction>)
        ensures
            final(self)@ == old(self)@ + more@,
    {
        let mut more = more;
        self.actions.append(&mut more);
    }

    /// Hands out every waiting action, oldest first, and leaves the queue
    /// empty.
    pub fn consume(&mut self) -> (r: Vec<TelnetAction>)
        ensures
            r@ == old(self)@,
            final(self)@ == Seq::<TelnetAction>::empty(),
    {
        let mut out: Vec<TelnetAction> = Vec::new();
        std::mem::swap(&mut out, &mut self.actions);
        out
    }
}

/// The open actions for each argument that is a telnet link, in order.
pub open spec fn link_actions(args: Seq<String>) -> Seq<(Seq<char>, Option<u16>)>
    decreases args.len(),
{
    if args.len() == 0 {
        Seq::empty()
    } else {
        let rest = link_actions(args.drop_last());
        match link_target(args.last()@) {
            Some(target) => rest.push(target),
            None => rest,
        }
    }
}

/// The target that an open action asks for.
pub open spec fn action_target(a: TelnetAction) -> (Seq<char>, Option<u16>) {
    match a {
        TelnetAction::Open { request } => (request.host@, request.port),
    }
}

/// An open action for each of `args` that is a telnet link, in order;
/// the others are passed over.
pub fn actions_from_args(args: &Vec<String>) -> (r: Vec<TelnetAction>)
    ensures
        r@.len() == link_actions(args@).len(),
        forall|i: int|
            0 <= i < r@.len() ==> action_target(#[trigger] r@[i]) == link_actions(args@)[i],
{
    let mut out: Vec<TelnetAction> = Vec::new();
    let mut k: usize = 0;
    while k < args.len()
        invariant
            k <= args@.len(),
            out@.len() == link_actions(args@.subrange(0, k as int)).len(),
            forall|i: int|
                0 <= i < out@.len() ==> action_target(#[trigger] out@[i]) == link_actions(
                    args@.subrange(0, k as int),
                )[i],
        decreases args@.len() - k,
    {
        let ghost before = args@.subrange(0, k as int);
        let ghost after = args@.subrange(0, k + 1);
        assert(after.drop_last() =~= before);
        match parse_telnet_url(args[k].as_str()) {
            Some(request) => {
                out.push(TelnetAction::Open { request });
            },
            None => {},
        }
        k = k + 1;
    }
    assert(args@.subrange(0, args@.len() as int) =~= args@);
    out
}

} // verus!
