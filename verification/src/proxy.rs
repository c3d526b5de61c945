//! The way from a request to the gateway of a claw.
//!
//! A claw is reached under its own host name. The orchestrator hands such a
//! request on to the claw's container and presents the bearer that pairs it with
//! the claw: in the header `Authorization`, or in the subprotocol of a
//! WebSocket.

use vstd::prelude::*;
use vstd::string::*;
use crate::{driver, text};

verus! {

/// Which hosts are which.
#[derive(Debug)]
pub struct ProxyConfig {
    /// Host of the fleet's own pages.
    pub fleet_host: String,
    /// Suffix of the hosts of claws: the claw `a` has the host `a.<suffix>`.
    pub claw_suffix: String,
    /// Port of the gateway in every claw's container.
    pub claw_port: u16,
}

impl ProxyConfig {
    /// `host` is the host of the claw `name`.
    pub open spec fn is_host_of(self, host: Seq<char>, name: Seq<char>) -> bool {
        name.len() > 0 && host == name + "."@ + self.claw_suffix@ && host != self.fleet_host@
    }

    /// The claw that a host names; none where the host is that of the fleet or
    /// no claw's.
    pub fn claw_for_host(&self, host: &str) -> (r: Option<String>)
        ensures
            match r {
                Some(name) => self.is_host_of(host@, name@),
                None => forall|name: Seq<char>| !self.is_host_of(host@, name),
            },
    {
        if text::same_text(host, self.fleet_host.as_str()) {
            return None;
        }
        let tail_text = text::labelled(".", self.claw_suffix.as_str());
        let tail = text::chars_of(tail_text.as_str());
        let all = text::chars_of(host);
        proof {
            assert forall|name: Seq<char>| self.is_host_of(host@, name) implies host@.len()
                > tail@.len() && name == host@.take(host@.len() - tail@.len()) && host@.skip(
                host@.len() - tail@.len(),
            ) == tail@ by {
                assert(host@ =~= name + tail@);
                assert(host@.take(name.len() as int) =~= name);
                assert(host@.skip(name.len() as int) =~= tail@);
            }
        }
        if all.len() <= tail.len() {
            return None;
        }
        let cut: usize = all.len() - tail.len();
        let end = text::slice_text(&all, cut, all.len());
        assert(end@ =~= host@.skip(cut as int));
        if !text::same_text(end.as_str(), tail_text.as_str()) {
            return None;
        }
        let name = text::slice_text(&all, 0, cut);
        assert(name@ =~= host@.take(cut as int));
        assert(host@ =~= name@ + tail@);
        assert(name@ + tail@ =~= name@ + "."@ + self.claw_suffix@);
        Some(name)
    }

    /// The address of a claw's gateway.
    pub fn upstream_base(&self, claw: &str) -> (r: String)
        ensures
            r@ == "http://"@ + driver::container_of(claw@) + ":"@ + text::decimal_text(
                self.claw_port as nat,
            ),
    {
        let mut out = text::labelled("http://", driver::container_name(claw).as_str());
        out.append(":");
        out.append(text::decimal(self.claw_port as u64).as_str());
        out
    }
}

/// The header that presents a bearer in a request.
pub fn bearer_header(token: &str) -> (r: (String, String))
    ensures
        r.0@ == "Authorization"@,
        r.1@ == "Bearer "@ + token@,
{
    ("Authorization".to_owned(), text::labelled("Bearer ", token))
}

/// The header that presents a bearer when a WebSocket is opened.
pub fn websocket_header(token: &str) -> (r: (String, String))
    ensures
        r.0@ == "Sec-WebSocket-Protocol"@,
        r.1@ == "bearer."@ + token@,
{
    ("Sec-WebSocket-Protocol".to_owned(), text::labelled("bearer.", token))
}

/// A host names at most one claw.
pub proof fn law_host_names_one_claw(
    proxy: ProxyConfig,
    host: Seq<char>,
    a: Seq<char>,
    b: Seq<char>,
)
    requires
        proxy.is_host_of(host, a),
        proxy.is_host_of(host, b),
    ensures
        a == b,
{
    let tail = "."@ + proxy.claw_suffix@;
    assert(host =~= a + tail);
    assert(host =~= b + tail);
    assert(a =~= host.take(a.len() as int));
    assert(b =~= host.take(b.len() as int));
}

/// A claw's host is its name, a dot and the suffix; every name that is not empty has
/// one, but for the fleet's own host, which is no claw's.
pub proof fn law_claw_has_the_host_of_its_name(proxy: ProxyConfig, name: Seq<char>)
    requires
        name.len() > 0,
    ensures
        name + "."@ + proxy.claw_suffix@ != proxy.fleet_host@ ==> proxy.is_host_of(
            name + "."@ + proxy.claw_suffix@,
            name,
        ),
        !proxy.is_host_of(proxy.fleet_host@, name),
        !proxy.is_host_of("."@ + proxy.claw_suffix@, Seq::empty()),
{
}

/// A claw that is found for a host has that host: its name, a dot and the suffix.
pub proof fn law_host_leads_to_its_claw(proxy: ProxyConfig, host: &str, found: String)
    requires
        call_ensures(ProxyConfig::claw_for_host, (&proxy, host), Some(found)),
    ensures
        found@.len() > 0,
        host@ == found@ + "."@ + proxy.claw_suffix@,
        host@ != proxy.fleet_host@,
{
}

/// A claw's gateway is reached at its container, under the port that all gateways
/// have.
pub proof fn law_gateway_is_the_claws_container(proxy: ProxyConfig, claw: &str, r: String)
    requires
        call_ensures(ProxyConfig::upstream_base, (&proxy, claw), r),
    ensures
        r@ == "http://"@ + ("claw-"@ + claw@) + ":"@ + text::decimal_text(proxy.claw_port as nat),
{
}

} // verus!
