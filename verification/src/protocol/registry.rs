//! The adapter registry: client and upstream adapters, plain and streaming,
//! indexed by protocol. The gateway builds it at start-up and picks the client
//! adapter by the client protocol and the upstream adapter by the upstream
//! protocol.
use vstd::prelude::*;
use crate::protocol::adapters::{AnthropicAdapter, GoogleGenAiAdapter, OpenAiChatAdapter, OpenAiResponsesAdapter};
use crate::protocol::ir::Protocol;

verus! {

/// One of the built-in adapters.
#[derive(Debug, Clone, Copy)]
pub enum Adapter {
    OpenAiResponses(OpenAiResponsesAdapter),
    Anthropic(AnthropicAdapter),
    OpenAiChat(OpenAiChatAdapter),
    GoogleGenai(GoogleGenAiAdapter),
}

impl Adapter {
    pub open spec fn spec_protocol(self) -> Protocol {
        match self {
            Adapter::OpenAiResponses(_) => Protocol::OpenAiResponse,
            Adapter::Anthropic(_) => Protocol::Anthropic,
            Adapter::OpenAiChat(_) => Protocol::OpenAiChat,
            Adapter::GoogleGenai(_) => Protocol::GoogleGenai,
        }
    }

    /// The protocol the adapter speaks.
    pub fn protocol(&self) -> (r: Protocol)
        ensures
            r == self.spec_protocol(),
    {
        match self {
            Adapter::OpenAiResponses(a) => a.protocol(),
            Adapter::Anthropic(a) => a.protocol(),
            Adapter::OpenAiChat(a) => a.protocol(),
            Adapter::GoogleGenai(a) => a.protocol(),
        }
    }

    /// The built-in adapter of a protocol.
    pub open spec fn of_spec(p: Protocol) -> Adapter {
        match p {
            Protocol::OpenAiResponse => Adapter::OpenAiResponses(OpenAiResponsesAdapter),
            Protocol::Anthropic => Adapter::Anthropic(AnthropicAdapter),
            Protocol::OpenAiChat => Adapter::OpenAiChat(OpenAiChatAdapter),
            Protocol::GoogleGenai => Adapter::GoogleGenai(GoogleGenAiAdapter),
        }
    }

    /// The built-in adapter of a protocol.
    pub fn of(p: Protocol) -> (r: Adapter)
        ensures
            r == Adapter::of_spec(p),
            r.spec_protocol() == p,
    {
        match p {
            Protocol::OpenAiResponse => Adapter::OpenAiResponses(OpenAiResponsesAdapter),
            Protocol::Anthropic => Adapter::Anthropic(AnthropicAdapter),
            Protocol::OpenAiChat => Adapter::OpenAiChat(OpenAiChatAdapter),
            Protocol::GoogleGenai => Adapter::GoogleGenai(GoogleGenAiAdapter),
        }
    }
}

/// One table of adapters: at most one per protocol, in the protocol's slot.
pub struct Table {
    openai_response: Option<Adapter>,
    anthropic: Option<Adapter>,
    openai_chat: Option<Adapter>,
    google_genai: Option<Adapter>,
}

pub open spec fn opt_count(o: Option<Adapter>) -> nat {
    if o is Some {
        1
    } else {
        0
    }
}

impl Table {
    /// The adapter registered for `p`.
    pub closed spec fn get_spec(self, p: Protocol) -> Option<Adapter> {
        match p {
            Protocol::OpenAiResponse => self.openai_response,
            Protocol::Anthropic => self.anthropic,
            Protocol::OpenAiChat => self.openai_chat,
            Protocol::GoogleGenai => self.google_genai,
        }
    }

    /// The number of protocols with an adapter.
    pub closed spec fn count(self) -> nat {
        opt_count(self.openai_response) + opt_count(self.anthropic) + opt_count(self.openai_chat) + opt_count(
            self.google_genai,
        )
    }

    /// Every adapter sits in the slot of its own protocol.
    pub closed spec fn wf(self) -> bool {
        forall|p: Protocol| #[trigger] self.get_spec(p) matches Some(a) ==> a.spec_protocol() == p
    }

    /// A table with no adapter.
    pub fn new() -> (r: Table)
        ensures
            r.wf(),
            forall|p: Protocol| #[trigger] r.get_spec(p) is None,
            r.count() == 0,
    {
        Table { openai_response: None, anthropic: None, openai_chat: None, google_genai: None }
    }

    /// Registers `a` under its protocol, replacing the adapter registered
    /// there before.
    pub fn insert(&mut self, a: Adapter)
        requires
            old(self).wf(),
        ensures
            final(self).wf(),
            final(self).get_spec(a.spec_protocol()) == Some(a),
            forall|q: Protocol| q != a.spec_protocol() ==> #[trigger] final(self).get_spec(q) == old(self).get_spec(q),
    {
        match a.protocol() {
            Protocol::OpenAiResponse => self.openai_response = Some(a),
            Protocol::Anthropic => self.anthropic = Some(a),
            Protocol::OpenAiChat => self.openai_chat = Some(a),
            Protocol::GoogleGenai => self.google_genai = Some(a),
        }
        proof {
            assert forall|q: Protocol| #[trigger] self.get_spec(q) is Some implies self.get_spec(q)->0.spec_protocol() == q by {
                if q != a.spec_protocol() {
                    assert(self.get_spec(q) == old(self).get_spec(q));
                }
            }
        }
    }

    /// The adapter registered for `p`, if any.
    pub fn get(&self, p: Protocol) -> (r: Option<Adapter>)
        requires
            self.wf(),
        ensures
            r == self.get_spec(p),
            r matches Some(a) ==> a.spec_protocol() == p,
    {
        match p {
            Protocol::OpenAiResponse => self.openai_response,
            Protocol::Anthropic => self.anthropic,
            Protocol::OpenAiChat => self.openai_chat,
            Protocol::GoogleGenai => self.google_genai,
        }
    }

    /// The number of protocols with an adapter.
    pub fn len(&self) -> (r: usize)
        ensures
            r == self.count(),
    {
        let mut n: usize = 0;
        if self.openai_response.is_some() {
            n = n + 1;
        }
        if self.anthropic.is_some() {
            n = n + 1;
        }
        if self.openai_chat.is_some() {
            n = n + 1;
        }
        if self.google_genai.is_some() {
            n = n + 1;
        }
        n
    }

    /// A table with an adapter for every protocol counts four.
    pub proof fn lemma_full_count(self)
        requires
            forall|p: Protocol| #[trigger] self.get_spec(p) is Some,
        ensures
            self.count() == 4,
    {
        assert(self.get_spec(Protocol::OpenAiResponse) is Some);
        assert(self.get_spec(Protocol::Anthropic) is Some);
        assert(self.get_spec(Protocol::OpenAiChat) is Some);
        assert(self.get_spec(Protocol::GoogleGenai) is Some);
    }
}

/// Client and upstream adapters, plain and streaming, by protocol.
pub struct Registry {
    pub clients: Table,
    pub client_streams: Table,
    pub providers: Table,
    pub provider_streams: Table,
}

impl Registry {
    pub open spec fn wf(self) -> bool {
        self.clients.wf() && self.client_streams.wf() && self.providers.wf() && self.provider_streams.wf()
    }

    /// An empty registry.
    pub fn new() -> (r: Registry)
        ensures
            r.wf(),
            forall|p: Protocol| #[trigger] r.clients.get_spec(p) is None,
            forall|p: Protocol| #[trigger] r.client_streams.get_spec(p) is None,
            forall|p: Protocol| #[trigger] r.providers.get_spec(p) is None,
            forall|p: Protocol| #[trigger] r.provider_streams.get_spec(p) is None,
    {
        Registry { clients: Table::new(), client_streams: Table::new(), providers: Table::new(), provider_streams: Table::new() }
    }

    pub fn register_client(&mut self, a: Adapter)
        requires
            old(self).wf(),
        ensures
            final(self).wf(),
            final(self).clients.get_spec(a.spec_protocol()) == Some(a),
            forall|q: Protocol| q != a.spec_protocol() ==> #[trigger] final(self).clients.get_spec(q) == old(self).clients.get_spec(q),
            final(self).client_streams == old(self).client_streams,
            final(self).providers == old(self).providers,
            final(self).provider_streams == old(self).provider_streams,
    {
        self.clients.insert(a);
    }

    pub fn register_client_stream(&mut self, a: Adapter)
        requires
            old(self).wf(),
        ensures
            final(self).wf(),
            final(self).client_streams.get_spec(a.spec_protocol()) == Some(a),
            forall|q: Protocol| q != a.spec_protocol() ==> #[trigger] final(self).client_streams.get_spec(q) == old(self).client_streams.get_spec(q),
            final(self).clients == old(self).clients,
            final(self).providers == old(self).providers,
            final(self).provider_streams == old(self).provider_streams,
    {
        self.client_streams.insert(a);
    }

    pub fn register_provider(&mut self, a: Adapter)
        requires
            old(self).wf(),
        ensures
            final(self).wf(),
            final(self).providers.get_spec(a.spec_protocol()) == Some(a),
            forall|q: Protocol| q != a.spec_protocol() ==> #[trigger] final(self).providers.get_spec(q) == old(self).providers.get_spec(q),
            final(self).clients == old(self).clients,
            final(self).client_streams == old(self).client_streams,
            final(self).provider_streams == old(self).provider_streams,
    {
        self.providers.insert(a);
    }

    pub fn register_provider_stream(&mut self, a: Adapter)
        requires
            old(self).wf(),
        ensures
            final(self).wf(),
            final(self).provider_streams.get_spec(a.spec_protocol()) == Some(a),
            forall|q: Protocol| q != a.spec_protocol() ==> #[trigger] final(self).provider_streams.get_spec(q) == old(self).provider_streams.get_spec(q),
            final(self).clients == old(self).clients,
            final(self).client_streams == old(self).client_streams,
            final(self).providers == old(self).providers,
    {
        self.provider_streams.insert(a);
    }

    pub fn client(&self, p: Protocol) -> (r: Option<Adapter>)
        requires
            self.wf(),
        ensures
            r == self.clients.get_spec(p),
            r matches Some(a) ==> a.spec_protocol() == p,
    {
        self.clients.get(p)
    }

    pub fn client_stream(&self, p: Protocol) -> (r: Option<Adapter>)
        requires
            self.wf(),
        ensures
            r == self.client_streams.get_spec(p),
            r matches Some(a) ==> a.spec_protocol() == p,
    {
        self.client_streams.get(p)
    }

    pub fn provider(&self, p: Protocol) -> (r: Option<Adapter>)
        requires
            self.wf(),
        ensures
            r == self.providers.get_spec(p),
            r matches Some(a) ==> a.spec_protocol() == p,
    {
        self.providers.get(p)
    }

    pub fn provider_stream(&self, p: Protocol) -> (r: Option<Adapter>)
        requires
            self.wf(),
        ensures
            r == self.provider_streams.get_spec(p),
            r matches Some(a) ==> a.spec_protocol() == p,
    {
        self.provider_streams.get(p)
    }

    pub fn client_len(&self) -> (r: usize)
        requires
            self.wf(),
        ensures
            r == self.clients.count(),
    {
        self.clients.len()
    }

    pub fn provider_len(&self) -> (r: usize)
        requires
            self.wf(),
        ensures
            r == self.providers.count(),
    {
        self.providers.len()
    }

    /// Registers `a` in all four tables.
    fn register_all(&mut self, a: Adapter)
        requires
            old(self).wf(),
        ensures
            final(self).wf(),
            final(self).clients.get_spec(a.spec_protocol()) == Some(a),
            forall|q: Protocol| q != a.spec_protocol() ==> #[trigger] final(self).clients.get_spec(q) == old(self).clients.get_spec(q),
            final(self).client_streams.get_spec(a.spec_protocol()) == Some(a),
            forall|q: Protocol| q != a.spec_protocol() ==> #[trigger] final(self).client_streams.get_spec(q) == old(self).client_streams.get_spec(q),
            final(self).providers.get_spec(a.spec_protocol()) == Some(a),
            forall|q: Protocol| q != a.spec_protocol() ==> #[trigger] final(self).providers.get_spec(q) == old(self).providers.get_spec(q),
            final(self).provider_streams.get_spec(a.spec_protocol()) == Some(a),
            forall|q: Protocol| q != a.spec_protocol() ==> #[trigger] final(self).provider_streams.get_spec(q) == old(self).provider_streams.get_spec(q),
    {
        self.register_client(a);
        self.register_client_stream(a);
        self.register_provider(a);
        self.register_provider_stream(a);
    }
}

/// Whether every table has, for every protocol, that protocol's built-in
/// adapter.
pub open spec fn covers_all(r: Registry) -> bool {
    forall|p: Protocol|
        {
            &&& #[trigger] r.clients.get_spec(p) == Some(Adapter::of_spec(p))
            &&& r.client_streams.get_spec(p) == Some(Adapter::of_spec(p))
            &&& r.providers.get_spec(p) == Some(Adapter::of_spec(p))
            &&& r.provider_streams.get_spec(p) == Some(Adapter::of_spec(p))
        }
}

/// The built-in registry: every protocol's adapter serves all four roles, so
/// any client protocol can reach any upstream protocol.
pub fn builtin_registry() -> (r: Registry)
    ensures
        r.wf(),
        covers_all(r),
{
    let mut reg = Registry::new();
    reg.register_all(Adapter::of(Protocol::OpenAiResponse));
    reg.register_all(Adapter::of(Protocol::Anthropic));
    reg.register_all(Adapter::of(Protocol::OpenAiChat));
    reg.register_all(Adapter::of(Protocol::GoogleGenai));
    assert forall|p: Protocol| #[trigger] reg.clients.get_spec(p) == Some(Adapter::of_spec(p)) && reg.client_streams.get_spec(p)
        == Some(Adapter::of_spec(p)) && reg.providers.get_spec(p) == Some(Adapter::of_spec(p)) && reg.provider_streams.get_spec(p)
        == Some(Adapter::of_spec(p)) by {
        match p {
            Protocol::OpenAiResponse => {},
            Protocol::Anthropic => {},
            Protocol::OpenAiChat => {},
            Protocol::GoogleGenai => {},
        }
    }
    reg
}

/// A registry that covers every protocol has, in every table, an adapter for
/// each protocol that speaks it, and counts four clients and four providers.
pub proof fn law_builtin_registry_covers_all(r: Registry, p: Protocol)
    requires
        r.wf(),
        covers_all(r),
    ensures
        r.clients.get_spec(p) matches Some(a) && a.spec_protocol() == p,
        r.client_streams.get_spec(p) matches Some(a) && a.spec_protocol() == p,
        r.providers.get_spec(p) matches Some(a) && a.spec_protocol() == p,
        r.provider_streams.get_spec(p) matches Some(a) && a.spec_protocol() == p,
        r.clients.count() == 4,
        r.providers.count() == 4,
{
    assert(r.clients.get_spec(p) == Some(Adapter::of_spec(p)));
    assert forall|q: Protocol| #[trigger] r.clients.get_spec(q) is Some && r.providers.get_spec(q) is Some by {
        assert(r.clients.get_spec(q) == Some(Adapter::of_spec(q)));
    }
    assert forall|q: Protocol| #[trigger] r.providers.get_spec(q) is Some by {
        assert(r.clients.get_spec(q) == Some(Adapter::of_spec(q)));
    }
    r.clients.lemma_full_count();
    r.providers.lemma_full_count();
}

} // verus!
