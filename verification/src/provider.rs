//! The provider: which endpoint and which client serve a credential, and the start of calls.
use crate::body;
use crate::call;
use crate::call::Action;
use crate::call::Call;
use crate::error::CallKind;
use crate::error::ProviderError;
use crate::text;
use std::collections::HashMap;
use vstd::hash_map::StringHashMap;
use vstd::prelude::*;

verus! {

/// The time that a client gives a request, in seconds.
pub const CLIENT_TIMEOUT_SECS: u64 = 720;

// ---------------------------------------------------------------------------------------------
// Proxies
// ---------------------------------------------------------------------------------------------

/// A proxy: where it is, and how to log in to it.
#[derive(Debug)]
pub struct ProxyConfig {
    pub url: String,
    pub username: Option<String>,
    pub password: Option<String>,
}

/// A proxy in its texts.
pub ghost struct ProxyView {
    pub url: Seq<char>,
    pub username: Option<Seq<char>>,
    pub password: Option<Seq<char>>,
}

impl View for ProxyConfig {
    type V = ProxyView;

    open spec fn view(&self) -> ProxyView {
        ProxyView {
            url: self.url@,
            username: call::opt_text(self.username),
            password: call::opt_text(self.password),
        }
    }
}

/// The view of an optional proxy.
pub open spec fn opt_proxy(proxy: Option<ProxyConfig>) -> Option<ProxyView> {
    match proxy {
        Some(proxy) => Some(proxy@),
        None => None,
    }
}

fn same_opt_text(a: &Option<String>, b: &Option<String>) -> (r: bool)
    ensures
        r == (call::opt_text(*a) == call::opt_text(*b)),
{
    match (a, b) {
        (Some(a), Some(b)) => text::same_text(a.as_str(), b.as_str()),
        (None, None) => true,
        _ => false,
    }
}

/// Whether two proxies, or the lack of one, are the same.
pub fn same_proxy(a: &Option<ProxyConfig>, b: &Option<ProxyConfig>) -> (r: bool)
    ensures
        r == (opt_proxy(*a) == opt_proxy(*b)),
{
    match (a, b) {
        (Some(a), Some(b)) => text::same_text(a.url.as_str(), b.url.as_str()) && same_opt_text(
            &a.username,
            &b.username,
        ) && same_opt_text(&a.password, &b.password),
        (None, None) => true,
        _ => false,
    }
}

fn copied_proxy(proxy: &Option<ProxyConfig>) -> (r: Option<ProxyConfig>)
    ensures
        opt_proxy(r) == opt_proxy(*proxy),
{
    match proxy {
        Some(proxy) => Some(
            ProxyConfig {
                url: proxy.url.clone(),
                username: call::copied(&proxy.username),
                password: call::copied(&proxy.password),
            },
        ),
        None => None,
    }
}

// ---------------------------------------------------------------------------------------------
// Endpoints
// ---------------------------------------------------------------------------------------------

/// The endpoints that can be used, by name.
#[verifier::reject_recursive_types(T)]
pub struct EndpointRegistry<T> {
    endpoints: StringHashMap<T>,
}

impl<T> View for EndpointRegistry<T> {
    type V = Map<Seq<char>, T>;

    closed spec fn view(&self) -> Map<Seq<char>, T> {
        self.endpoints@
    }
}

impl<T> EndpointRegistry<T> {
    /// No endpoints.
    pub fn new() -> (r: EndpointRegistry<T>)
        ensures
            r@ == Map::<Seq<char>, T>::empty(),
    {
        EndpointRegistry { endpoints: StringHashMap::new() }
    }

    /// Registers an endpoint; one of the same name gives way to it.
    pub fn insert(&mut self, name: String, endpoint: T)
        ensures
            final(self)@ == old(self)@.insert(name@, endpoint),
    {
        self.endpoints.insert(name, endpoint);
    }

    /// Whether an endpoint of this name is registered.
    pub fn contains_key(&self, name: &str) -> (r: bool)
        ensures
            r == self@.contains_key(name@),
    {
        self.endpoints.contains_key(name)
    }

    /// The endpoint of this name.
    pub fn get(&self, name: &str) -> (r: Option<&T>)
        ensures
            match r {
                Some(endpoint) => self@.contains_key(name@) && *endpoint == self@[name@],
                None => !self@.contains_key(name@),
            },
    {
        self.endpoints.get(name)
    }
}

// ---------------------------------------------------------------------------------------------
// The provider
// ---------------------------------------------------------------------------------------------

/// The provider: a token manager `M`, HTTP clients `C` and endpoints `T`, which it keeps and hands
/// out but never looks into.
#[verifier::reject_recursive_types(C)]
#[verifier::reject_recursive_types(T)]
pub struct KiroProvider<M, C, T> {
    token_manager: M,
    /// The client for the global proxy, or for no proxy.
    default_client: C,
    global_proxy: Option<ProxyConfig>,
    /// The clients of credentials with a proxy of their own, each with the proxy that it was
    /// built for.
    client_cache: HashMap<u64, (Option<ProxyConfig>, C)>,
    endpoints: EndpointRegistry<T>,
    default_endpoint: String,
}

/// The kept clients, each with the view of the proxy that it was built for.
pub open spec fn kept_clients<C>(cache: Map<u64, (Option<ProxyConfig>, C)>) -> Map<
    u64,
    (Option<ProxyView>, C),
> {
    cache.map_values(|entry: (Option<ProxyConfig>, C)| (opt_proxy(entry.0), entry.1))
}

/// A provider as it stands.
#[verifier::reject_recursive_types(C)]
#[verifier::reject_recursive_types(T)]
pub ghost struct ProviderView<M, C, T> {
    pub token_manager: M,
    pub default_client: C,
    pub global_proxy: Option<ProxyView>,
    pub client_cache: Map<u64, (Option<ProxyView>, C)>,
    pub endpoints: Map<Seq<char>, T>,
    pub default_endpoint: Seq<char>,
}

impl<M, C, T> ProviderView<M, C, T> {
    /// The default endpoint is registered.
    pub open spec fn wf(self) -> bool {
        self.endpoints.contains_key(self.default_endpoint)
    }

    /// The name of the endpoint for a credential: its own, or else the default one.
    pub open spec fn endpoint_name(self, own: Option<Seq<char>>) -> Seq<char> {
        match own {
            Some(name) => name,
            None => self.default_endpoint,
        }
    }

    /// The endpoint for a credential, if the one it is due is registered.
    pub open spec fn endpoint(self, own: Option<Seq<char>>) -> Option<T> {
        let name = self.endpoint_name(own);
        if self.endpoints.contains_key(name) {
            Some(self.endpoints[name])
        } else {
            None
        }
    }

    /// The client that is there for a credential under a proxy: the default one for the global
    /// proxy, and otherwise the one that was built for this credential and this proxy.
    pub open spec fn client(self, credential_id: u64, proxy: Option<ProxyView>) -> Option<C> {
        if proxy == self.global_proxy {
            Some(self.default_client)
        } else if self.client_cache.contains_key(credential_id)
            && self.client_cache[credential_id].0 == proxy {
            Some(self.client_cache[credential_id].1)
        } else {
            None
        }
    }

    /// The provider after a client was built for a credential under a proxy. An earlier client of
    /// the credential gives way to it.
    pub open spec fn with_client(
        self,
        credential_id: u64,
        proxy: Option<ProxyView>,
        client: C,
    ) -> ProviderView<M, C, T> {
        ProviderView {
            client_cache: self.client_cache.insert(credential_id, (proxy, client)),
            ..self
        }
    }

    /// The provider after a change of the global proxy.
    pub open spec fn with_global_proxy(
        self,
        proxy: Option<ProxyView>,
        default_client: C,
    ) -> ProviderView<M, C, T> {
        ProviderView { default_client, global_proxy: proxy, client_cache: Map::empty(), ..self }
    }

    /// The provider after a change of the default endpoint.
    pub open spec fn with_default_endpoint(self, name: Seq<char>) -> ProviderView<M, C, T> {
        ProviderView { default_endpoint: name, ..self }
    }
}

impl<M, C, T> View for KiroProvider<M, C, T> {
    type V = ProviderView<M, C, T>;

    closed spec fn view(&self) -> ProviderView<M, C, T> {
        ProviderView {
            token_manager: self.token_manager,
            default_client: self.default_client,
            global_proxy: opt_proxy(self.global_proxy),
            client_cache: kept_clients(self.client_cache@),
            endpoints: self.endpoints@,
            default_endpoint: self.default_endpoint@,
        }
    }
}

impl<M, C, T> KiroProvider<M, C, T> {
    /// The endpoints that there are by default.
    pub fn default_endpoints(ide: T, cli: T) -> (r: EndpointRegistry<T>)
        ensures
            r@ == Map::<Seq<char>, T>::empty().insert("ide"@, ide).insert("cli"@, cli),
    {
        let mut endpoints = EndpointRegistry::new();
        endpoints.insert("ide".to_string(), ide);
        endpoints.insert("cli".to_string(), cli);
        endpoints
    }

    /// A provider without a proxy and with the default endpoints.
    pub fn new<X, F: Fn(&Option<ProxyConfig>, u64) -> Result<C, X>>(
        token_manager: M,
        ide: T,
        cli: T,
        build: F,
    ) -> (r: Result<KiroProvider<M, C, T>, X>)
        requires
            call_requires(build, (&None::<ProxyConfig>, CLIENT_TIMEOUT_SECS)),
        ensures
            match r {
                Ok(provider) => {
                    &&& provider@ == (ProviderView {
                        token_manager,
                        default_client: provider@.default_client,
                        global_proxy: None,
                        client_cache: Map::empty(),
                        endpoints: Map::<Seq<char>, T>::empty().insert("ide"@, ide).insert(
                            "cli"@,
                            cli,
                        ),
                        default_endpoint: "ide"@,
                    })
                    &&& provider@.wf()
                    &&& call_ensures(
                        build,
                        (&None::<ProxyConfig>, CLIENT_TIMEOUT_SECS),
                        Ok::<C, X>(provider@.default_client),
                    )
                },
                Err(error) => call_ensures(
                    build,
                    (&None::<ProxyConfig>, CLIENT_TIMEOUT_SECS),
                    Err::<C, X>(error),
                ),
            },
    {
        Self::with_proxy(
            token_manager,
            None,
            Self::default_endpoints(ide, cli),
            "ide".to_string(),
            build,
        )
    }

    /// A provider with this proxy and these endpoints. The default endpoint has to be one of
    /// them.
    pub fn with_proxy<X, F: Fn(&Option<ProxyConfig>, u64) -> Result<C, X>>(
        token_manager: M,
        proxy: Option<ProxyConfig>,
        endpoints: EndpointRegistry<T>,
        default_endpoint: String,
        build: F,
    ) -> (r: Result<KiroProvider<M, C, T>, X>)
        requires
            endpoints@.contains_key(default_endpoint@),
            call_requires(build, (&proxy, CLIENT_TIMEOUT_SECS)),
        ensures
            match r {
                Ok(provider) => {
                    &&& provider@ == (ProviderView {
                        token_manager,
                        default_client: provider@.default_client,
                        global_proxy: opt_proxy(proxy),
                        client_cache: Map::empty(),
                        endpoints: endpoints@,
                        default_endpoint: default_endpoint@,
                    })
                    &&& provider@.wf()
                    &&& call_ensures(
                        build,
                        (&proxy, CLIENT_TIMEOUT_SECS),
                        Ok::<C, X>(provider@.default_client),
                    )
                },
                Err(error) => call_ensures(
                    build,
                    (&proxy, CLIENT_TIMEOUT_SECS),
                    Err::<C, X>(error),
                ),
            },
    {
        let default_client = match build(&proxy, CLIENT_TIMEOUT_SECS) {
            Ok(client) => client,
            Err(error) => return Err(error),
        };
        let client_cache: HashMap<u64, (Option<ProxyConfig>, C)> = HashMap::new();
        assert(kept_clients(client_cache@) =~= Map::empty());
        Ok(
            KiroProvider {
                token_manager,
                default_client,
                global_proxy: proxy,
                client_cache,
                endpoints,
                default_endpoint,
            },
        )
    }

    /// Changes the global proxy: the default client is built anew, and the clients of single
    /// credentials are forgotten. If no client can be built, nothing changes.
    pub fn update_global_proxy<X, F: Fn(&Option<ProxyConfig>, u64) -> Result<C, X>>(
        &mut self,
        proxy: Option<ProxyConfig>,
        build: F,
    ) -> (r: Result<(), X>)
        requires
            call_requires(build, (&proxy, CLIENT_TIMEOUT_SECS)),
        ensures
            match r {
                Ok(_) => {
                    &&& final(self)@ == old(self)@.with_global_proxy(
                        opt_proxy(proxy),
                        final(self)@.default_client,
                    )
                    &&& call_ensures(
                        build,
                        (&proxy, CLIENT_TIMEOUT_SECS),
                        Ok::<C, X>(final(self)@.default_client),
                    )
                },
                Err(error) => {
                    &&& final(self)@ == old(self)@
                    &&& call_ensures(build, (&proxy, CLIENT_TIMEOUT_SECS), Err::<C, X>(error))
                },
            },
            old(self)@.wf() ==> final(self)@.wf(),
    {
        let new_client = match build(&proxy, CLIENT_TIMEOUT_SECS) {
            Ok(client) => client,
            Err(error) => return Err(error),
        };
        self.global_proxy = proxy;
        self.default_client = new_client;
        self.client_cache.clear();
        assert(kept_clients(self.client_cache@) =~= Map::empty());
        Ok(())
    }

    /// Changes the default endpoint. A name that is not registered is refused, and nothing
    /// changes.
    pub fn update_default_endpoint(&mut self, default_endpoint: String) -> (r: Result<
        (),
        ProviderError,
    >)
        ensures
            match r {
                Ok(_) => {
                    &&& old(self)@.endpoints.contains_key(default_endpoint@)
                    &&& final(self)@ == old(self)@.with_default_endpoint(default_endpoint@)
                    &&& final(self)@.wf()
                },
                Err(error) => {
                    &&& !old(self)@.endpoints.contains_key(default_endpoint@)
                    &&& final(self)@ == old(self)@
                    &&& error == (ProviderError::UnknownEndpoint { name: default_endpoint })
                },
            },
            old(self)@.wf() ==> final(self)@.wf(),
    {
        if !self.endpoints.contains_key(default_endpoint.as_str()) {
            return Err(ProviderError::UnknownEndpoint { name: default_endpoint });
        }
        self.default_endpoint = default_endpoint;
        Ok(())
    }

    /// The endpoint for a credential: the one it names, or else the default one.
    pub fn endpoint_for(&self, own: Option<&str>) -> (r: Result<&T, ProviderError>)
        ensures
            match r {
                Ok(endpoint) => self@.endpoint(body::opt_view(own)) == Some(*endpoint),
                Err(error) => self@.endpoint(body::opt_view(own)) is None && (
                error matches ProviderError::UnknownEndpoint { name } && name@
                    == self@.endpoint_name(body::opt_view(own))),
            },
            self@.wf() && own is None ==> r is Ok,
    {
        let name = match own {
            Some(name) => name,
            None => self.default_endpoint.as_str(),
        };
        match self.endpoints.get(name) {
            Some(endpoint) => Ok(endpoint),
            None => Err(ProviderError::UnknownEndpoint { name: name.to_string() }),
        }
    }

    /// The global proxy, if there is one.
    pub fn global_proxy(&self) -> (r: Option<&ProxyConfig>)
        ensures
            match r {
                Some(proxy) => self@.global_proxy == Some(proxy@),
                None => self@.global_proxy is None,
            },
    {
        match &self.global_proxy {
            Some(proxy) => Some(proxy),
            None => None,
        }
    }

    /// The token manager.
    pub fn token_manager(&self) -> (r: &M)
        ensures
            *r == self@.token_manager,
    {
        &self.token_manager
    }

    /// Begins a request whose answer comes in one piece.
    pub fn call_api<R, E>(
        &self,
        request_body: &str,
        user_id: Option<&str>,
        sensitive_logs: bool,
        total_credentials: usize,
        available_credentials: usize,
    ) -> (r: Result<(Call<E>, Action<R, E>), ProviderError>)
        ensures
            call::begun(
                CallKind::Api,
                sensitive_logs,
                request_body@,
                body::opt_view(user_id),
                total_credentials,
                available_credentials,
                r,
            ),
    {
        Call::start(
            CallKind::Api,
            sensitive_logs,
            request_body,
            user_id,
            total_credentials,
            available_credentials,
        )
    }

    /// Begins a request whose answer comes as a stream.
    pub fn call_api_stream<R, E>(
        &self,
        request_body: &str,
        user_id: Option<&str>,
        sensitive_logs: bool,
        total_credentials: usize,
        available_credentials: usize,
    ) -> (r: Result<(Call<E>, Action<R, E>), ProviderError>)
        ensures
            call::begun(
                CallKind::ApiStream,
                sensitive_logs,
                request_body@,
                body::opt_view(user_id),
                total_credentials,
                available_credentials,
                r,
            ),
    {
        Call::start(
            CallKind::ApiStream,
            sensitive_logs,
            request_body,
            user_id,
            total_credentials,
            available_credentials,
        )
    }

    /// Begins a call of a tool.
    pub fn call_mcp<R, E>(
        &self,
        request_body: &str,
        sensitive_logs: bool,
        total_credentials: usize,
        available_credentials: usize,
    ) -> (r: Result<(Call<E>, Action<R, E>), ProviderError>)
        ensures
            call::begun(
                CallKind::Mcp,
                sensitive_logs,
                request_body@,
                None,
                total_credentials,
                available_credentials,
                r,
            ),
    {
        Call::start(
            CallKind::Mcp,
            sensitive_logs,
            request_body,
            None,
            total_credentials,
            available_credentials,
        )
    }
}

impl<M, C: Clone, T> KiroProvider<M, C, T> {
    /// The client for a credential, given the proxy that is in effect for it: the default client
    /// if that is the global proxy, and otherwise one of its own, which is built when it is first
    /// needed and again when the credential has moved to another proxy. If it cannot be built, the
    /// default client takes its place.
    pub fn get_client_for_credential<X, F: Fn(&Option<ProxyConfig>, u64) -> Result<C, X>>(
        &mut self,
        credential_id: u64,
        effective_proxy: &Option<ProxyConfig>,
        build: F,
    ) -> (r: C)
        requires
            call_requires(build, (effective_proxy, CLIENT_TIMEOUT_SECS)),
        ensures
            match old(self)@.client(credential_id, opt_proxy(*effective_proxy)) {
                Some(client) => cloned(client, r) && final(self)@ == old(self)@,
                None => {
                    &&& {
                        ||| call_ensures(
                            build,
                            (effective_proxy, CLIENT_TIMEOUT_SECS),
                            Ok::<C, X>(r),
                        )
                        ||| cloned(old(self)@.default_client, r) && exists|error: X|
                            call_ensures(
                                build,
                                (effective_proxy, CLIENT_TIMEOUT_SECS),
                                Err::<C, X>(error),
                            )
                    }
                    &&& final(self)@ == old(self)@.with_client(
                        credential_id,
                        opt_proxy(*effective_proxy),
                        final(self)@.client_cache[credential_id].1,
                    )
                    &&& cloned(r, final(self)@.client_cache[credential_id].1)
                },
            },
            old(self)@.wf() ==> final(self)@.wf(),
    {
        broadcast use vstd::std_specs::hash::group_hash_axioms;

        if same_proxy(effective_proxy, &self.global_proxy) {
            return self.default_client.clone();
        }
        if let Some(entry) = self.client_cache.get(&credential_id) {
            if same_proxy(effective_proxy, &entry.0) {
                return entry.1.clone();
            }
        }
        let client = match build(effective_proxy, CLIENT_TIMEOUT_SECS) {
            Ok(client) => client,
            Err(_) => self.default_client.clone(),
        };
        let kept = (copied_proxy(effective_proxy), client.clone());
        self.client_cache.insert(credential_id, kept);
        assert(self@.client_cache =~= old(self)@.client_cache.insert(
            credential_id,
            (opt_proxy(kept.0), kept.1),
        ));
        client
    }
}

/// A credential that names an endpoint gets that one, whatever the default is, and one that names
/// none gets the default: a change of the default shows for the latter and for no other.
pub proof fn law_own_endpoint_wins<M, C, T>(
    provider: ProviderView<M, C, T>,
    default_endpoint: Seq<char>,
    own: Seq<char>,
)
    requires
        provider.endpoints.contains_key(default_endpoint),
    ensures
        ({
            let changed = provider.with_default_endpoint(default_endpoint);
            &&& changed.endpoint(Some(own)) == provider.endpoint(Some(own))
            &&& provider.endpoints.contains_key(own) ==> provider.endpoint(Some(own)) == Some(
                provider.endpoints[own],
            )
            &&& changed.endpoint(None) == Some(provider.endpoints[default_endpoint])
        }),
{
}

/// A client that was built for a credential goes on serving it under the proxy that it was built
/// for, and under no other: the global proxy has the default client, and any further proxy needs a
/// client that is yet to be built. Other credentials are served as before.
pub proof fn law_clients_are_kept<M, C, T>(
    provider: ProviderView<M, C, T>,
    credential_id: u64,
    built_for: Option<ProxyView>,
    client: C,
    other_id: u64,
    proxy: Option<ProxyView>,
)
    ensures
        ({
            let after = provider.with_client(credential_id, built_for, client);
            &&& after.client(credential_id, proxy) == if proxy == provider.global_proxy {
                Some(provider.default_client)
            } else if proxy == built_for {
                Some(client)
            } else {
                None
            }
            &&& other_id != credential_id ==> after.client(other_id, proxy) == provider.client(
                other_id,
                proxy,
            )
        }),
{
}

/// After a change of the global proxy no client from before serves any credential: the new proxy is
/// served by the new default client, and every other proxy needs a client that is yet to be built.
pub proof fn law_proxy_change_forgets_clients<M, C, T>(
    provider: ProviderView<M, C, T>,
    global: Option<ProxyView>,
    default_client: C,
    credential_id: u64,
    proxy: Option<ProxyView>,
)
    ensures
        provider.with_global_proxy(global, default_client).client(credential_id, proxy) == if proxy
            == global {
            Some(default_client)
        } else {
            None
        },
{
}

/// Two proxies are the same if their addresses, names and passwords are, and a proxy is never the
/// same as none.
pub proof fn law_same_proxies(a: ProxyConfig, b: ProxyConfig)
    ensures
        opt_proxy(Some(a)) == opt_proxy(Some(b)) <==> {
            &&& a.url@ == b.url@
            &&& match (a.username, b.username) {
                (Some(x), Some(y)) => x@ == y@,
                (None, None) => true,
                _ => false,
            }
            &&& match (a.password, b.password) {
                (Some(x), Some(y)) => x@ == y@,
                (None, None) => true,
                _ => false,
            }
        },
        opt_proxy(Some(a)) != opt_proxy(None),
{
}

/// A credential is served by the endpoint that it names, and by the default one if it names none;
/// there is none for a name that is not registered.
pub proof fn law_endpoints<M, C, T>(provider: ProviderView<M, C, T>, own: Seq<char>)
    ensures
        provider.endpoint(Some(own)) is Some <==> provider.endpoints.contains_key(own),
        provider.endpoints.contains_key(own) ==> provider.endpoint(Some(own)) == Some(
            provider.endpoints[own],
        ),
        provider.endpoint(None) == provider.endpoint(Some(provider.default_endpoint)),
        provider.endpoint_name(Some(own)) == own,
        provider.endpoint_name(None) == provider.default_endpoint,
        provider.endpoints.contains_key(provider.default_endpoint) ==> provider.wf(),
{
}

/// Each change of a provider touches what it is about, and nothing else.
pub proof fn law_changes_touch_nothing_else<M, C, T>(
    provider: ProviderView<M, C, T>,
    name: Seq<char>,
    proxy: Option<ProxyView>,
    client: C,
    credential_id: u64,
)
    ensures
        ({
            let endpoint = provider.with_default_endpoint(name);
            let global = provider.with_global_proxy(proxy, client);
            let built = provider.with_client(credential_id, proxy, client);
            &&& endpoint.default_endpoint == name
            &&& endpoint.endpoints == provider.endpoints
            &&& endpoint.token_manager == provider.token_manager
            &&& endpoint.default_client == provider.default_client
            &&& endpoint.global_proxy == provider.global_proxy
            &&& endpoint.client_cache == provider.client_cache
            &&& global.global_proxy == proxy
            &&& global.default_client == client
            &&& forall|id: u64| !global.client_cache.contains_key(id)
            &&& global.default_endpoint == provider.default_endpoint
            &&& global.endpoints == provider.endpoints
            &&& global.token_manager == provider.token_manager
            &&& built.client_cache == provider.client_cache.insert(credential_id, (proxy, client))
            &&& built.default_client == provider.default_client
            &&& built.global_proxy == provider.global_proxy
            &&& built.default_endpoint == provider.default_endpoint
            &&& built.endpoints == provider.endpoints
            &&& built.token_manager == provider.token_manager
        }),
{
}

} // verus!
