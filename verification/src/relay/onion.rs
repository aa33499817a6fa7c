//! The onion service under which a relay can be reached.
use crate::seqs;
use crate::text;
use crate::urls;
use vstd::prelude::*;

verus! {

/// What Tor says once it is connected.
pub const BOOTSTRAPPED: &'static str = "Bootstrapped 100%";

/// How often the name of the service is looked for, a second apart.
pub const HOSTNAME_ATTEMPTS: u32 = 30;

/// The text stands at a place.
pub open spec fn stands_at(s: Seq<char>, t: Seq<char>, i: int) -> bool {
    0 <= i <= s.len() - t.len() && s.subrange(i, i + t.len()) == t
}

/// The text stands somewhere.
pub open spec fn holds(s: Seq<char>, t: Seq<char>) -> bool {
    exists|i: int| stands_at(s, t, i)
}

fn is_at(s: &Vec<char>, t: &Vec<char>, at: usize) -> (r: bool)
    requires
        at + t@.len() <= s@.len(),
    ensures
        r == stands_at(s@, t@, at as int),
{
    let n: usize = s.len();
    let mut j: usize = 0;
    while j < t.len()
        invariant
            j <= t@.len(),
            n == s@.len(),
            at + t@.len() <= n,
            forall|k: int| 0 <= k < j ==> s@[at + k] == t@[k],
        decreases t@.len() - j,
    {
        if s[at + j] != t[j] {
            proof {
                assert(s@.subrange(at as int, at + t@.len())[j as int] == s@[at + j]);
            }
            return false;
        }
        j = j + 1;
    }
    proof {
        assert(s@.subrange(at as int, at + t@.len()) =~= t@);
    }
    true
}

/// Whether a text stands somewhere in another.
pub fn contains(s: &str, t: &str) -> (r: bool)
    ensures
        r == holds(s@, t@),
{
    let sv = text::chars_of(s);
    let tv = text::chars_of(t);
    if tv.len() > sv.len() {
        return false;
    }
    let last: usize = sv.len() - tv.len();
    let mut i: usize = 0;
    loop
        invariant
            i <= last,
            last + tv@.len() == sv@.len(),
            sv@ == s@,
            tv@ == t@,
            forall|k: int| 0 <= k < i ==> !stands_at(s@, t@, k),
        decreases last - i,
    {
        if is_at(&sv, &tv, i) {
            return true;
        }
        if i == last {
            return false;
        }
        i = i + 1;
    }
}

/// Whether a line of Tor's log leads to the service being announced: it is, once.
pub fn should_announce(announced: bool, line: &str) -> (r: bool)
    ensures
        r == (!announced && holds(line@, BOOTSTRAPPED@)),
{
    !announced && contains(line, BOOTSTRAPPED)
}

/// The URL of the service with a host name.
pub open spec fn announced_url(hostname: Seq<char>) -> Seq<char> {
    "ws://"@ + text::trimmed(hostname) + "/ws"@
}

/// The URL of the service with a host name.
pub fn onion_address(hostname: &str) -> (r: String)
    ensures
        r@ == announced_url(hostname@),
{
    let h = text::trim(hostname);
    text::concat3("ws://", h.as_str(), "/ws")
}

/// What follows a look for the name of the service.
pub enum HostnameStep {
    /// It is there: announce the service.
    Announce { address: String },
    /// It is not there yet: look again in a second.
    Again,
    /// It did not come in time.
    GiveUp,
}

/// What follows a look for the name of the service.
pub enum HostnameStepView {
    Announce { address: Seq<char> },
    Again,
    GiveUp,
}

impl View for HostnameStep {
    type V = HostnameStepView;

    open spec fn view(&self) -> HostnameStepView {
        match self {
            HostnameStep::Announce { address } => HostnameStepView::Announce {
                address: address@,
            },
            HostnameStep::Again => HostnameStepView::Again,
            HostnameStep::GiveUp => HostnameStepView::GiveUp,
        }
    }
}

/// What follows a look for the name of the service, after a number of looks before it.
pub open spec fn after_look(looks: u32, hostname: Option<Seq<char>>) -> HostnameStepView {
    match hostname {
        Some(name) => HostnameStepView::Announce { address: announced_url(name) },
        None => if looks + 1 < HOSTNAME_ATTEMPTS {
            HostnameStepView::Again
        } else {
            HostnameStepView::GiveUp
        },
    }
}

/// What follows a look for the name of the service, after a number of looks before it.
pub fn hostname_step(looks: u32, hostname: Option<String>) -> (r: HostnameStep)
    ensures
        r@ == match hostname {
            Some(name) => HostnameStepView::Announce { address: announced_url(name@) },
            None => if looks + 1 < HOSTNAME_ATTEMPTS {
                HostnameStepView::Again
            } else {
                HostnameStepView::GiveUp
            },
        },
        r@ == after_look(looks, seqs::opt(hostname)),
{
    match hostname {
        Some(name) => HostnameStep::Announce { address: onion_address(name.as_str()) },
        None => if looks < HOSTNAME_ATTEMPTS - 1 {
            HostnameStep::Again
        } else {
            HostnameStep::GiveUp
        },
    }
}

/// The configuration of Tor for the service: it forwards to the relay on this machine, and takes
/// no connections of its own.
pub open spec fn configuration(tor_dir: Seq<char>, service_dir: Seq<char>, port: u16) -> Seq<
    char,
> {
    "DataDirectory "@ + tor_dir + "\nHiddenServiceDir "@ + service_dir
        + "\nHiddenServiceVersion 3\nHiddenServicePort 80 127.0.0.1:"@ + text::decimal(port as nat)
        + "\nSocksPort 0\nLog notice stdout\n"@
}

/// The configuration of Tor for the service.
pub fn tor_configuration(tor_dir: &str, service_dir: &str, port: u16) -> (r: String)
    ensures
        r@ == configuration(tor_dir@, service_dir@, port),
{
    let p = text::decimal_text(port as u64);
    let a = text::concat3("DataDirectory ", tor_dir, "\nHiddenServiceDir ");
    let b = text::concat3(
        a.as_str(),
        service_dir,
        "\nHiddenServiceVersion 3\nHiddenServicePort 80 127.0.0.1:",
    );
    text::concat3(b.as_str(), p.as_str(), "\nSocksPort 0\nLog notice stdout\n")
}

proof fn url_is_normal(h: Seq<char>)
    requires
        h.len() > 0,
    ensures
        urls::normalized("ws://"@ + h + "/ws"@) == "ws://"@ + h + "/ws"@,
        text::has_prefix("ws://"@ + h + "/ws"@, "ws://"@),
        urls::scheme_split("ws://"@ + h + "/ws"@) == Some(("ws"@, h + "/ws"@)),
{
    reveal_strlit("ws://");
    reveal_strlit("/ws");
    let url = "ws://"@ + h + "/ws"@;
    assert(url[0] == 'w');
    assert(url.last() == 's');
    assert(text::trim_start(url) == url);
    assert(text::trim_end(url) == url);
    assert(url.skip(url.len() - 3) =~= "/ws"@);
    assert(url.take(5) =~= "ws://"@);
    assert(url.skip(5) =~= h + "/ws"@);
}

/// The character can stand in a host name.
spec fn plain(c: char) -> bool {
    text::url_safe(c) || c == '.'
}

proof fn host_is_name(h: Seq<char>)
    requires
        h.len() > 0,
        forall|j: int| 0 <= j < h.len() ==> plain(#[trigger] h[j]),
    ensures
        urls::host_of("ws://"@ + h + "/ws"@) == Some(text::lowered(h)),
{
    url_is_normal(h);
    reveal_strlit("/ws");
    let rest = h + "/ws"@;
    assert forall|j: int| 0 <= j < h.len() implies !text::is_char('/')(#[trigger] rest[j]) by {
        assert(plain(h[j]));
    }
    seqs::find_is(rest, text::is_char('/'), h.len() as int);
    assert(text::before(rest, '/') =~= h);
    assert(plain(h[0]));
    assert(plain(h[h.len() - 1]));
    assert(text::trim_start(h) == h);
    assert(text::trim_end(h) == h);
    assert forall|j: int| 0 <= j < h.len() implies h[j] != ':' && h[j] != '@' by {
        assert(plain(h[j]));
    }
    no_last(h, ':');
}

/// Clients accept the URL that a relay announces: it is that of an onion service over `ws`.
pub proof fn announced_urls_are_accepted(hostname: Seq<char>, name: Seq<char>)
    requires
        text::trimmed(hostname) == name + ".onion"@,
        name.len() > 0,
        text::all_url_safe(name),
    ensures
        urls::onion_url(announced_url(hostname)),
{
    reveal_strlit(".onion");
    let h = name + ".onion"@;
    assert forall|j: int| 0 <= j < h.len() implies plain(#[trigger] h[j]) by {
        if j < name.len() {
            assert(text::url_safe(name[j]));
        } else {
            assert(h[j] == ".onion"@[j - name.len()]);
        }
    }
    url_is_normal(h);
    host_is_name(h);
    let host = text::lowered(h);
    assert(host.skip(host.len() - 6) =~= ".onion"@);
}

proof fn no_last(s: Seq<char>, c: char)
    requires
        forall|j: int| 0 <= j < s.len() ==> s[j] != c,
    ensures
        text::last_pos(s, c) is None,
    decreases s.len(),
{
    if s.len() > 0 {
        assert forall|j: int| 0 <= j < s.drop_last().len() implies s.drop_last()[j] != c by {
            assert(s.drop_last()[j] == s[j]);
        }
        no_last(s.drop_last(), c);
    }
}

} // verus!
