//! The reverse proxy's configuration and the plan that follows from it.

use crate::client_tls::ClientTls;
use crate::server_tls::{Listener, ListenerView, ServerTls, ServerTlsView};
use crate::text::concat;
use vstd::prelude::*;

verus! {

/// How a proxy picks one of several upstreams.
#[derive(Debug, Clone, Copy, PartialEq, Eq, Structural)]
pub enum UpstreamSelectorStrategy {
    RoundRobin,
    ConnectionCounting,
    Random,
    /// No upstream: the proxy forwards to whatever host a request names.
    Forward,
}

impl Default for UpstreamSelectorStrategy {
    fn default() -> (r: UpstreamSelectorStrategy)
        ensures
            r == UpstreamSelectorStrategy::RoundRobin,
    {
        UpstreamSelectorStrategy::RoundRobin
    }
}

/// The name of a strategy on the command line.
pub open spec fn strategy_name(strategy: UpstreamSelectorStrategy) -> Seq<char> {
    match strategy {
        UpstreamSelectorStrategy::RoundRobin => "round-robin"@,
        UpstreamSelectorStrategy::ConnectionCounting => "connection-counting"@,
        UpstreamSelectorStrategy::Random => "random"@,
        UpstreamSelectorStrategy::Forward => "forward"@,
    }
}

impl UpstreamSelectorStrategy {
    /// The name of the strategy on the command line.
    pub fn name(&self) -> (r: &'static str)
        ensures
            r@ == strategy_name(*self),
    {
        match self {
            UpstreamSelectorStrategy::RoundRobin => "round-robin",
            UpstreamSelectorStrategy::ConnectionCounting => "connection-counting",
            UpstreamSelectorStrategy::Random => "random",
            UpstreamSelectorStrategy::Forward => "forward",
        }
    }
}

/// The configuration of the reverse proxy.
#[derive(Debug, PartialEq, Eq)]
pub struct ProxyCli {
    /// The upstream URLs, in their normal form.
    pub upstream: Vec<String>,
    pub strategy: UpstreamSelectorStrategy,
    /// The local host or address to listen on.
    pub host: String,
    /// The local port to listen on.
    pub port: u16,
    /// The TLS options of the listener.
    pub server_tls: ServerTls,
    /// The TLS implementation for requests to the upstreams.
    pub client_tls: ClientTls,
}

/// Where a proxy sends requests.
#[derive(Debug, PartialEq, Eq)]
pub enum Selector {
    /// Always to this upstream.
    Single(String),
    /// To each of these in turn.
    RoundRobin(Vec<String>),
    /// To the one of these with the fewest open connections.
    ConnectionCounting(Vec<String>),
    /// To one of these, picked at random.
    Random(Vec<String>),
    /// To the host that the request names.
    Forward,
}

/// The upstream selection of a proxy and the line that announces it.
#[derive(Debug, PartialEq, Eq)]
pub struct Upstream {
    pub selector: Selector,
    pub banner: String,
}

/// What the proxy is started with.
#[derive(Debug, PartialEq, Eq)]
pub struct ProxyPlan {
    /// Answer `CONNECT` requests, as a forward proxy does.
    pub forward_connect: bool,
    pub upstream: Upstream,
    /// The name under which the proxy adds itself to `Via` headers.
    pub via: String,
    pub host: String,
    pub port: u16,
    pub listener: Listener,
    pub client_tls: ClientTls,
}

/// [`ProxyCli`] as a mathematical value.
pub ghost struct ProxyCliView {
    pub upstream: Seq<Seq<char>>,
    pub strategy: UpstreamSelectorStrategy,
    pub host: Seq<char>,
    pub port: u16,
    pub server_tls: ServerTlsView,
    pub client_tls: ClientTls,
}

/// A [`Selector`] as a mathematical value.
pub ghost enum SelectorView {
    Single(Seq<char>),
    RoundRobin(Seq<Seq<char>>),
    ConnectionCounting(Seq<Seq<char>>),
    Random(Seq<Seq<char>>),
    Forward,
}

/// An [`Upstream`] as a mathematical value.
pub ghost struct UpstreamView {
    pub selector: SelectorView,
    pub banner: Seq<char>,
}

/// A [`ProxyPlan`] as a mathematical value.
pub ghost struct ProxyPlanView {
    pub forward_connect: bool,
    pub upstream: UpstreamView,
    pub via: Seq<char>,
    pub host: Seq<char>,
    pub port: u16,
    pub listener: ListenerView,
    pub client_tls: ClientTls,
}

impl View for ProxyCli {
    type V = ProxyCliView;

    open spec fn view(&self) -> ProxyCliView {
        ProxyCliView {
            upstream: self.upstream.deep_view(),
            strategy: self.strategy,
            host: self.host@,
            port: self.port,
            server_tls: self.server_tls@,
            client_tls: self.client_tls,
        }
    }
}

impl View for Selector {
    type V = SelectorView;

    open spec fn view(&self) -> SelectorView {
        match self {
            Selector::Single(url) => SelectorView::Single(url@),
            Selector::RoundRobin(urls) => SelectorView::RoundRobin(urls.deep_view()),
            Selector::ConnectionCounting(urls) => SelectorView::ConnectionCounting(
                urls.deep_view(),
            ),
            Selector::Random(urls) => SelectorView::Random(urls.deep_view()),
            Selector::Forward => SelectorView::Forward,
        }
    }
}

impl View for Upstream {
    type V = UpstreamView;

    open spec fn view(&self) -> UpstreamView {
        UpstreamView { selector: self.selector@, banner: self.banner@ }
    }
}

impl View for ProxyPlan {
    type V = ProxyPlanView;

    open spec fn view(&self) -> ProxyPlanView {
        ProxyPlanView {
            forward_connect: self.forward_connect,
            upstream: self.upstream@,
            via: self.via@,
            host: self.host@,
            port: self.port,
            listener: self.listener@,
            client_tls: self.client_tls,
        }
    }
}

/// The texts of `list`, with a comma and a space between each two.
pub open spec fn comma_separated(list: Seq<Seq<char>>) -> Seq<char>
    decreases list.len(),
{
    if list.len() == 0 {
        seq![]
    } else if list.len() == 1 {
        list[0]
    } else {
        comma_separated(list.drop_last()) + ", "@ + list.last()
    }
}

impl ProxyCliView {
    /// The configuration names upstreams exactly where its strategy uses
    /// them: a forward proxy takes none, every other strategy needs one.
    pub open spec fn runnable(self) -> bool {
        (self.strategy == UpstreamSelectorStrategy::Forward) == (self.upstream.len() == 0)
    }

    /// Where requests are sent. A single upstream is used whatever the
    /// strategy says.
    pub open spec fn selector(self) -> SelectorView {
        if self.upstream.len() == 1 && self.strategy != UpstreamSelectorStrategy::Forward {
            SelectorView::Single(self.upstream[0])
        } else {
            match self.strategy {
                UpstreamSelectorStrategy::RoundRobin => SelectorView::RoundRobin(self.upstream),
                UpstreamSelectorStrategy::ConnectionCounting => SelectorView::ConnectionCounting(
                    self.upstream,
                ),
                UpstreamSelectorStrategy::Random => SelectorView::Random(self.upstream),
                UpstreamSelectorStrategy::Forward => SelectorView::Forward,
            }
        }
    }

    /// The line that announces the selection.
    pub open spec fn banner(self) -> Seq<char> {
        if self.strategy == UpstreamSelectorStrategy::Forward {
            "Running in forward proxy mode"@
        } else if self.upstream.len() == 1 {
            "Proxying to "@ + self.upstream[0]
        } else {
            "Forwarding to "@ + comma_separated(self.upstream) + " with strategy "@
                + strategy_name(self.strategy)
        }
    }

    /// The plan of the configuration.
    pub open spec fn plan(self) -> ProxyPlanView {
        ProxyPlanView {
            forward_connect: self.strategy == UpstreamSelectorStrategy::Forward,
            upstream: UpstreamView { selector: self.selector(), banner: self.banner() },
            via: "trillium-proxy"@,
            host: self.host,
            port: self.port,
            listener: self.server_tls.listener(),
            client_tls: self.client_tls,
        }
    }
}

/// The texts of `list`, with a comma and a space between each two.
pub fn join_with_commas(list: &Vec<String>) -> (r: String)
    ensures
        r@ == comma_separated(list.deep_view()),
{
    let mut out = String::new();
    let mut i: usize = 0;
    let ghost all = list.deep_view();
    while i < list.len()
        invariant
            i <= list.len(),
            all == list.deep_view(),
            out@ == comma_separated(all.take(i as int)),
        decreases list.len() - i,
    {
        proof {
            assert(all.take(i + 1).drop_last() =~= all.take(i as int));
            assert(all.take(i + 1).last() == list[i as int]@);
            if i == 0 {
                assert(Seq::<char>::empty() + list[0]@ =~= list[0]@);
            }
        }
        if i > 0 {
            out.append(", ");
        }
        out.append(list[i].as_str());
        i += 1;
    }
    assert(all.take(list.len() as int) =~= all);
    out
}

/// A copy of a list of texts.
fn copy_texts(list: &Vec<String>) -> (r: Vec<String>)
    ensures
        r.deep_view() == list.deep_view(),
{
    let mut out: Vec<String> = Vec::new();
    let mut i: usize = 0;
    while i < list.len()
        invariant
            i <= list.len(),
            out.len() == i,
            forall|k: int| 0 <= k < i ==> (#[trigger] out[k])@ == list[k]@,
        decreases list.len() - i,
    {
        out.push(list[i].clone());
        i += 1;
    }
    assert(out.deep_view() =~= list.deep_view());
    out
}

impl ProxyCli {
    /// Whether the configuration can be run: it names upstreams exactly
    /// where its strategy uses them.
    pub fn can_run(&self) -> (r: bool)
        ensures
            r == self@.runnable(),
    {
        let forward = match self.strategy {
            UpstreamSelectorStrategy::Forward => true,
            _ => false,
        };
        forward == (self.upstream.len() == 0)
    }

    /// Where the proxy sends requests, and the line that announces it.
    pub fn build_upstream(&self) -> (r: Upstream)
        requires
            self@.runnable(),
        ensures
            r@.selector == self@.selector(),
            r@.banner == self@.banner(),
    {
        let ghost all = self.upstream.deep_view();
        match self.strategy {
            UpstreamSelectorStrategy::Forward => Upstream {
                selector: Selector::Forward,
                banner: "Running in forward proxy mode".to_owned(),
            },
            strategy => {
                if self.upstream.len() == 1 {
                    assert(all[0] == self.upstream[0]@);
                    Upstream {
                        selector: Selector::Single(self.upstream[0].clone()),
                        banner: concat("Proxying to ", self.upstream[0].as_str()),
                    }
                } else {
                    let mut banner = "Forwarding to ".to_owned();
                    let list = join_with_commas(&self.upstream);
                    banner.append(list.as_str());
                    banner.append(" with strategy ");
                    banner.append(strategy.name());
                    let upstreams = copy_texts(&self.upstream);
                    let selector = match strategy {
                        UpstreamSelectorStrategy::RoundRobin => Selector::RoundRobin(upstreams),
                        UpstreamSelectorStrategy::ConnectionCounting => {
                            Selector::ConnectionCounting(upstreams)
                        },
                        _ => Selector::Random(upstreams),
                    };
                    Upstream { selector, banner }
                }
            },
        }
    }

    /// What the proxy is started with.
    pub fn run(self) -> (r: ProxyPlan)
        requires
            self@.runnable(),
        ensures
            r@ == self@.plan(),
    {
        let upstream = self.build_upstream();
        let listener = self.server_tls.listener();
        let forward_connect = match self.strategy {
            UpstreamSelectorStrategy::Forward => true,
            _ => false,
        };
        ProxyPlan {
            forward_connect,
            upstream,
            via: "trillium-proxy".to_owned(),
            host: self.host,
            port: self.port,
            listener,
            client_tls: self.client_tls,
        }
    }
}

} // verus!
