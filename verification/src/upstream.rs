//! Upstream registries: one client for each namespace, made on first use.

use crate::span::Span;
use crate::span::NANOS_PER_SEC;
use crate::span::SECS_PER_DAY;
use crate::text::copy_text;
use crate::text::text;
use vstd::hash_map::StringHashMap;
use vstd::prelude::*;

verus! {

/// The transport of the registry client crate. Verus sees nothing inside it:
/// a value of this type is only carried from where it is built to the caller.
#[verifier::external_type_specification]
#[verifier::external_body]
pub struct ExTransport(dkregistry::v2::Client);

/// The error of the registry client crate, carried through unread.
#[verifier::external_type_specification]
#[verifier::external_body]
pub struct ExTransportError(dkregistry::errors::Error);

/// Days after which a cached object is stale, unless a configuration says
/// otherwise.
pub const DEFAULT_INVALIDATION_DAYS: u64 = 14;

/// What a client is configured with, as plain mathematical values. This is
/// the view of a [`UpstreamClient`], and the part of a [`SingleUpstreamConfig`] that
/// does not depend on the namespace it is declared for.
pub ghost struct Settings {
    pub host: Seq<char>,
    pub tls: bool,
    pub accept_invalid_certs: bool,
    pub user_agent: Option<Seq<char>>,
    pub username: Option<Seq<char>>,
    pub password: Option<Seq<char>>,
    pub manifest_invalidation_time: nat,
    pub blob_invalidation_time: nat,
}

/// The length of the default invalidation window, in nanoseconds.
pub open spec fn default_window() -> nat {
    (DEFAULT_INVALIDATION_DAYS * SECS_PER_DAY * NANOS_PER_SEC) as nat
}

/// The settings of an upstream of which only the host is known: TLS with
/// strict certificate validation, no user agent, no credentials, and the
/// default windows.
pub open spec fn default_settings(host: Seq<char>) -> Settings {
    Settings {
        host,
        tls: true,
        accept_invalid_certs: false,
        user_agent: None,
        username: None,
        password: None,
        manifest_invalidation_time: default_window(),
        blob_invalidation_time: default_window(),
    }
}

/// The default for the `tls` setting of an upstream: TLS is on unless a
/// configuration switches it off.
pub fn truth() -> (on: bool)
    ensures
        on,
{
    true
}

/// The window after which a cached manifest is stale by default.
pub fn default_manifest_invalidation_time() -> (window: Span)
    ensures
        window@ == default_window(),
{
    Span::from_secs(DEFAULT_INVALIDATION_DAYS * SECS_PER_DAY)
}

/// The window after which a cached blob is stale by default.
pub fn default_blob_invalidation_time() -> (window: Span)
    ensures
        window@ == default_window(),
{
    Span::from_secs(DEFAULT_INVALIDATION_DAYS * SECS_PER_DAY)
}

/// The declaration of one upstream registry: the namespace it serves and how
/// to reach it.
#[derive(Debug)]
pub struct SingleUpstreamConfig {
    pub namespace: String,
    pub host: String,
    pub tls: bool,
    pub accept_invalid_certs: bool,
    pub user_agent: Option<String>,
    pub username: Option<String>,
    pub password: Option<String>,
    pub manifest_invalidation_time: Span,
    pub blob_invalidation_time: Span,
}

impl SingleUpstreamConfig {
    /// What a client built from this declaration is configured with.
    pub open spec fn settings(self) -> Settings {
        Settings {
            host: self.host@,
            tls: self.tls,
            accept_invalid_certs: self.accept_invalid_certs,
            user_agent: text(self.user_agent),
            username: text(self.username),
            password: text(self.password),
            manifest_invalidation_time: self.manifest_invalidation_time@,
            blob_invalidation_time: self.blob_invalidation_time@,
        }
    }

    /// The declaration of a namespace that names its own upstream: the
    /// namespace is taken as the host.
    pub fn new(namespace: &str) -> (config: SingleUpstreamConfig)
        ensures
            config.namespace@ == namespace@,
            config.settings() == default_settings(namespace@),
    {
        Self::with_host(namespace, namespace)
    }

    /// The declaration of `namespace` served from `host` with TLS, strict
    /// certificate validation, no user agent, no credentials and the default
    /// windows.
    pub fn with_host(namespace: &str, host: &str) -> (config: SingleUpstreamConfig)
        ensures
            config.namespace@ == namespace@,
            config.settings() == default_settings(host@),
    {
        SingleUpstreamConfig {
            namespace: namespace.to_owned(),
            host: host.to_owned(),
            tls: truth(),
            accept_invalid_certs: false,
            user_agent: None,
            username: None,
            password: None,
            manifest_invalidation_time: default_manifest_invalidation_time(),
            blob_invalidation_time: default_blob_invalidation_time(),
        }
    }
}

impl Clone for SingleUpstreamConfig {
    fn clone(&self) -> (copy: Self)
        ensures
            copy == *self,
    {
        SingleUpstreamConfig {
            namespace: self.namespace.clone(),
            host: self.host.clone(),
            tls: self.tls,
            accept_invalid_certs: self.accept_invalid_certs,
            user_agent: copy_text(&self.user_agent),
            username: copy_text(&self.username),
            password: copy_text(&self.password),
            manifest_invalidation_time: self.manifest_invalidation_time,
            blob_invalidation_time: self.blob_invalidation_time,
        }
    }
}

/// Why no client could be made for a host.
#[derive(Debug)]
pub struct ClientBuildError {
    /// The host that the client was meant for.
    pub host: String,
    /// What the registry client crate reported.
    pub cause: dkregistry::errors::Error,
}

/// A ready client for one upstream registry. It is never changed once it is
/// built; its view is what it was configured with.
#[derive(Debug)]
pub struct UpstreamClient {
    client: dkregistry::v2::Client,
    host: String,
    tls: bool,
    accept_invalid_certs: bool,
    user_agent: Option<String>,
    username: Option<String>,
    password: Option<String>,
    manifest_invalidation_time: Span,
    blob_invalidation_time: Span,
}

impl View for UpstreamClient {
    type V = Settings;

    closed spec fn view(&self) -> Settings {
        Settings {
            host: self.host@,
            tls: self.tls,
            accept_invalid_certs: self.accept_invalid_certs,
            user_agent: text(self.user_agent),
            username: text(self.username),
            password: text(self.password),
            manifest_invalidation_time: self.manifest_invalidation_time@,
            blob_invalidation_time: self.blob_invalidation_time@,
        }
    }
}

/// What the builder of the registry client crate is asked for.
#[derive(Debug)]
pub struct TransportRequest {
    /// The registry to talk to.
    pub host: String,
    /// Whether the registry is reached over plain HTTP.
    pub insecure: bool,
    /// Whether certificates that do not validate are accepted.
    pub accept_invalid_certs: bool,
    /// The user agent to send, if any.
    pub user_agent: Option<String>,
    /// The user name to authenticate with, if any.
    pub username: Option<String>,
    /// The password to authenticate with, if any.
    pub password: Option<String>,
}

/// What the builder is asked for to make the transport of the client that
/// `config` declares: the declared host, never the namespace; plain HTTP
/// exactly where the declaration switches TLS off; and the certificate
/// policy, user agent and credentials as declared.
pub fn transport_request(config: &SingleUpstreamConfig) -> (request: TransportRequest)
    ensures
        request.host@ == config.host@,
        request.insecure == !config.tls,
        request.accept_invalid_certs == config.accept_invalid_certs,
        text(request.user_agent) == text(config.user_agent),
        text(request.username) == text(config.username),
        text(request.password) == text(config.password),
{
    TransportRequest {
        host: config.host.clone(),
        insecure: !config.tls,
        accept_invalid_certs: config.accept_invalid_certs,
        user_agent: copy_text(&config.user_agent),
        username: copy_text(&config.username),
        password: copy_text(&config.password),
    }
}

/// Builds a transport with the registry client crate:
/// `dkregistry::v2::Client::configure()`, each setter with the field of the
/// request that it is for, and `build()`. Whether the build succeeds is up to
/// that crate and the TLS backend of the machine, so nothing is claimed of
/// the outcome.
#[verifier::external_body]
fn build_transport(request: TransportRequest) -> (outcome: Result<
    dkregistry::v2::Client,
    dkregistry::errors::Error,
>) {
    dkregistry::v2::Client::configure()
        .registry(&request.host)
        .insecure_registry(request.insecure)
        .accept_invalid_certs(request.accept_invalid_certs)
        .user_agent(request.user_agent)
        .username(request.username)
        .password(request.password)
        .build()
}

/// Makes a second handle on a transport with `Clone::clone` of
/// `dkregistry::v2::Client`, which that crate derives: the handle is the
/// transport it was made from, field by field, and shares its connections.
#[verifier::external_body]
fn share_transport(transport: &dkregistry::v2::Client) -> (handle: dkregistry::v2::Client)
    ensures
        handle == *transport,
{
    transport.clone()
}

impl UpstreamClient {
    /// The transport that the client carries: the one it was completed with.
    pub closed spec fn carried(self) -> dkregistry::v2::Client {
        self.client
    }

    /// Completes a client from a declaration and the outcome of building its
    /// transport: a built transport gives the client configured as declared,
    /// which carries that transport; a failure gives the error for the
    /// declared host.
    pub fn from_outcome(
        config: SingleUpstreamConfig,
        outcome: Result<dkregistry::v2::Client, dkregistry::errors::Error>,
    ) -> (built: Result<UpstreamClient, ClientBuildError>)
        ensures
            match outcome {
                Ok(transport) => built matches Ok(client) && client@ == config.settings()
                    && client.carried() == transport,
                Err(cause) => built matches Err(e) && e.host@ == config.host@ && e.cause == cause,
            },
    {
        match outcome {
            Ok(transport) => Ok(
                UpstreamClient {
                    client: transport,
                    host: config.host,
                    tls: config.tls,
                    accept_invalid_certs: config.accept_invalid_certs,
                    user_agent: config.user_agent,
                    username: config.username,
                    password: config.password,
                    manifest_invalidation_time: config.manifest_invalidation_time,
                    blob_invalidation_time: config.blob_invalidation_time,
                },
            ),
            Err(cause) => Err(ClientBuildError { host: config.host, cause }),
        }
    }

    /// Builds the client that `config` declares. The transport is built by
    /// the registry client crate from [`transport_request`] of the
    /// declaration; that crate alone decides whether the build succeeds. A
    /// client that comes back is configured exactly as declared, and an
    /// error names the declared host.
    pub fn try_from(config: SingleUpstreamConfig) -> (built: Result<UpstreamClient, ClientBuildError>)
        ensures
            built matches Ok(client) ==> client@ == config.settings(),
            built matches Err(e) ==> e.host@ == config.host@,
    {
        let outcome = build_transport(transport_request(&config));
        UpstreamClient::from_outcome(config, outcome)
    }

    /// The transport to talk to the upstream with: the one that the client
    /// carries.
    pub fn transport(&self) -> (transport: &dkregistry::v2::Client)
        ensures
            *transport == self.carried(),
    {
        &self.client
    }

    /// The host of the upstream.
    pub fn host(&self) -> (host: &str)
        ensures
            host@ == self@.host,
    {
        self.host.as_str()
    }

    /// Whether the upstream is reached over TLS.
    pub fn tls(&self) -> (tls: bool)
        ensures
            tls == self@.tls,
    {
        self.tls
    }

    /// Whether certificates that do not validate are accepted.
    pub fn accept_invalid_certs(&self) -> (accept: bool)
        ensures
            accept == self@.accept_invalid_certs,
    {
        self.accept_invalid_certs
    }

    /// The user agent sent to the upstream, if one is configured.
    pub fn user_agent(&self) -> (agent: &Option<String>)
        ensures
            text(*agent) == self@.user_agent,
    {
        &self.user_agent
    }

    /// The user name to authenticate with, if one is configured.
    pub fn username(&self) -> (name: &Option<String>)
        ensures
            text(*name) == self@.username,
    {
        &self.username
    }

    /// The password to authenticate with, if one is configured.
    pub fn password(&self) -> (password: &Option<String>)
        ensures
            text(*password) == self@.password,
    {
        &self.password
    }

    /// The window after which a manifest cached from this upstream is stale.
    pub fn manifest_invalidation_time(&self) -> (window: Span)
        ensures
            window@ == self@.manifest_invalidation_time,
    {
        self.manifest_invalidation_time
    }

    /// The window after which a blob cached from this upstream is stale.
    pub fn blob_invalidation_time(&self) -> (window: Span)
        ensures
            window@ == self@.blob_invalidation_time,
    {
        self.blob_invalidation_time
    }
}

impl Clone for UpstreamClient {
    /// A second handle on the same client: configured alike, and carrying
    /// the same transport.
    fn clone(&self) -> (copy: Self)
        ensures
            copy@ == self@,
            copy.carried() == self.carried(),
    {
        UpstreamClient {
            client: share_transport(&self.client),
            host: self.host.clone(),
            tls: self.tls,
            accept_invalid_certs: self.accept_invalid_certs,
            user_agent: copy_text(&self.user_agent),
            username: copy_text(&self.username),
            password: copy_text(&self.password),
            manifest_invalidation_time: self.manifest_invalidation_time,
            blob_invalidation_time: self.blob_invalidation_time,
        }
    }
}

/// Whether `names` lists the keys of `table`, each of them once.
spec fn lists_keys(names: Seq<String>, table: Map<Seq<char>, UpstreamClient>) -> bool {
    &&& forall|i: int, j: int| 0 <= i < j < names.len() ==> names[i]@ != names[j]@
    &&& forall|i: int| 0 <= i < names.len() ==> table.contains_key(#[trigger] names[i]@)
    &&& forall|ns: Seq<char>|
        table.contains_key(ns) ==> exists|i: int| 0 <= i < names.len() && #[trigger] names[i]@ == ns
}

/// The namespace that a request names: its own, or the empty one when it
/// names none.
pub open spec fn namespace_of(key: Option<&str>) -> Seq<char> {
    match key {
        Some(namespace) => namespace@,
        None => Seq::empty(),
    }
}

/// The settings of the client that serves `namespace`: the one bound to it,
/// or, for a namespace that is not bound, the default client of the host of
/// that name.
pub open spec fn serving(table: Map<Seq<char>, Settings>, namespace: Seq<char>) -> Settings {
    if table.contains_key(namespace) {
        table[namespace]
    } else {
        default_settings(namespace)
    }
}

/// The table once `namespace` has been asked for: unchanged where it was
/// bound, else extended by its default client.
pub open spec fn provisioned(table: Map<Seq<char>, Settings>, namespace: Seq<char>) -> Map<
    Seq<char>,
    Settings,
> {
    table.insert(namespace, serving(table, namespace))
}

/// The clients of the process, one for each namespace that is bound. Its
/// view maps each bound namespace to the settings of its client.
pub struct Clients {
    table: StringHashMap<UpstreamClient>,
    names: Vec<String>,
}

impl View for Clients {
    type V = Map<Seq<char>, Settings>;

    closed spec fn view(&self) -> Map<Seq<char>, Settings> {
        Map::new(
            |namespace: Seq<char>| self.table@.contains_key(namespace),
            |namespace: Seq<char>| self.table@[namespace]@,
        )
    }
}

impl Clients {
    #[verifier::type_invariant]
    spec fn well_formed(self) -> bool {
        lists_keys(self.names@, self.table@)
    }

    /// The transport that the client of each bound namespace carries. A
    /// transport stays in this map for as long as its client stays bound:
    /// every handle on the client that the registry hands out carries it.
    pub closed spec fn transports(self) -> Map<Seq<char>, dkregistry::v2::Client> {
        Map::new(
            |namespace: Seq<char>| self.table@.contains_key(namespace),
            |namespace: Seq<char>| self.table@[namespace].carried(),
        )
    }

    /// The registry holds a transport for exactly the namespaces that are
    /// bound.
    pub proof fn lemma_transports_of_bound(self)
        ensures
            forall|namespace: Seq<char>|
                self.transports().contains_key(namespace) <==> self@.contains_key(namespace),
    {
    }

    /// A registry in which no namespace is bound.
    pub fn new() -> (clients: Clients)
        ensures
            clients@ == Map::<Seq<char>, Settings>::empty(),
            clients.transports() == Map::<Seq<char>, dkregistry::v2::Client>::empty(),
    {
        let clients = Clients { table: StringHashMap::new(), names: Vec::new() };
        assert(clients@ =~= Map::<Seq<char>, Settings>::empty());
        assert(clients.transports() =~= Map::<Seq<char>, dkregistry::v2::Client>::empty());
        clients
    }

    /// Whether `namespace` is bound.
    pub fn contains(&self, namespace: &str) -> (bound: bool)
        ensures
            bound == self@.contains_key(namespace@),
    {
        self.table.contains_key(namespace)
    }

    /// A handle on the client bound to `namespace`, if one is: configured
    /// as that client is, and carrying its transport.
    pub fn lookup(&self, namespace: &str) -> (found: Option<UpstreamClient>)
        ensures
            match found {
                Some(client) => {
                    &&& self@.contains_key(namespace@)
                    &&& client@ == self@[namespace@]
                    &&& client.carried() == self.transports()[namespace@]
                },
                None => !self@.contains_key(namespace@),
            },
    {
        match self.table.get(namespace) {
            Some(client) => Some(client.clone()),
            None => None,
        }
    }

    /// Binds `namespace` to `client`, in place of any client bound to it
    /// before.
    pub fn bind(&mut self, namespace: String, client: UpstreamClient)
        ensures
            final(self)@ == old(self)@.insert(namespace@, client@),
            final(self).transports() == old(self).transports().insert(
                namespace@,
                client.carried(),
            ),
    {
        proof {
            use_type_invariant(&*self);
        }
        let mut whole = Clients::new();
        std::mem::swap(self, &mut whole);
        let Clients { mut table, mut names } = whole;
        if !table.contains_key(namespace.as_str()) {
            names.push(namespace.clone());
        }
        let ghost key = namespace@;
        table.insert(namespace, client);
        assert(lists_keys(names@, table@)) by {
            assert forall|ns: Seq<char>| table@.contains_key(ns) implies exists|i: int|
                0 <= i < names.len() && #[trigger] names[i]@ == ns by {
                if ns == key {
                    if old(self).table@.contains_key(key) {
                        let i = choose|i: int|
                            0 <= i < old(self).names.len() && #[trigger] old(self).names[i]@ == key;
                        assert(names[i]@ == ns);
                    } else {
                        assert(names[names.len() - 1]@ == ns);
                    }
                } else {
                    let i = choose|i: int|
                        0 <= i < old(self).names.len() && #[trigger] old(self).names[i]@ == ns;
                    assert(names[i]@ == ns);
                }
            }
        }
        *self = Clients { table, names };
        assert(self@ =~= old(self)@.insert(key, client@));
        assert(self.transports() =~= old(self).transports().insert(key, client.carried()));
    }

    /// A registry with the given bindings, made in the order of the list: of
    /// two bindings of one namespace the later one stays.
    pub fn from_iter(entries: Vec<(String, UpstreamClient)>) -> (clients: Clients)
        ensures
            clients@ == bound_table(entries@),
            clients.transports() == bound_transports(entries@),
    {
        let mut clients = Clients::new();
        let mut entries = entries;
        let mut stack: Vec<(String, UpstreamClient)> = Vec::new();
        let ghost all = entries@;
        while entries.len() > 0
            invariant
                entries@.len() + stack@.len() == all.len(),
                entries@ == all.take(entries@.len() as int),
                forall|k: int|
                    0 <= k < stack@.len() ==> stack@[k] == all[all.len() - 1 - k],
            decreases entries.len(),
        {
            let entry = entries.pop().unwrap();
            stack.push(entry);
        }
        while stack.len() > 0
            invariant
                stack@.len() <= all.len(),
                forall|k: int|
                    0 <= k < stack@.len() ==> stack@[k] == all[all.len() - 1 - k],
                clients@ == bound_table(all.take(all.len() - stack@.len())),
                clients.transports() == bound_transports(all.take(all.len() - stack@.len())),
            decreases stack.len(),
        {
            let ghost done = all.take(all.len() - stack@.len());
            let ghost next = all.take(all.len() - stack@.len() + 1);
            let (namespace, client) = stack.pop().unwrap();
            proof {
                assert(next.drop_last() =~= done);
                assert(next.last() == (namespace, client));
            }
            clients.bind(namespace, client);
        }
        proof {
            assert(all.take(all.len() as int) =~= all);
        }
        clients
    }

    /// Takes in the outcome of building the default client of `namespace`: a
    /// client is bound to the namespace and handed back, an error is handed
    /// back and leaves the registry as it was.
    pub fn provision(
        &mut self,
        namespace: &str,
        outcome: Result<UpstreamClient, ClientBuildError>,
    ) -> (found: Result<UpstreamClient, ClientBuildError>)
        ensures
            match outcome {
                Ok(built) => {
                    &&& found matches Ok(client) && client@ == built@ && client.carried()
                        == built.carried()
                    &&& final(self)@ == old(self)@.insert(namespace@, built@)
                    &&& final(self).transports() == old(self).transports().insert(
                        namespace@,
                        built.carried(),
                    )
                },
                Err(e) => {
                    &&& found == outcome
                    &&& final(self)@ == old(self)@
                    &&& final(self).transports() == old(self).transports()
                },
            },
    {
        match outcome {
            Ok(built) => {
                self.bind(namespace.to_owned(), built.clone());
                Ok(built)
            },
            Err(e) => Err(e),
        }
    }

    /// Builds the client that `config` declares and binds `key` to it. When
    /// the build fails the registry stays as it was.
    pub fn insert(&mut self, key: String, config: SingleUpstreamConfig) -> (done: Result<
        (),
        ClientBuildError,
    >)
        ensures
            match done {
                Ok(_) => {
                    &&& final(self)@ == old(self)@.insert(key@, config.settings())
                    &&& final(self).transports().contains_key(key@)
                    &&& final(self).transports().remove(key@) == old(self).transports().remove(
                        key@,
                    )
                },
                Err(e) => {
                    &&& final(self)@ == old(self)@
                    &&& final(self).transports() == old(self).transports()
                    &&& e.host@ == config.host@
                },
            },
    {
        match UpstreamClient::try_from(config) {
            Ok(client) => {
                let ghost bound = key@;
                self.bind(key, client);
                assert(self.transports().remove(bound) =~= old(self).transports().remove(bound));
                Ok(())
            },
            Err(e) => Err(e),
        }
    }

    /// The client that serves `key`; a request that names no namespace is
    /// served as one that names the empty namespace.
    ///
    /// A bound namespace always gets a handle on its client, and the registry
    /// stays as it is: nothing is built, and the handle carries the transport
    /// that the registry holds for the namespace. A namespace that is not
    /// bound is taken as the host of its upstream: its default client is
    /// built, bound and handed back. When that build fails, the error is
    /// handed back and nothing is bound.
    pub fn get(&mut self, key: Option<&str>) -> (found: Result<UpstreamClient, ClientBuildError>)
        ensures
            old(self)@.contains_key(namespace_of(key)) ==> {
                &&& found matches Ok(client)
                &&& client.carried() == old(self).transports()[namespace_of(key)]
                &&& final(self).transports() == old(self).transports()
            },
            match found {
                Ok(client) => {
                    &&& client@ == serving(old(self)@, namespace_of(key))
                    &&& final(self)@ == provisioned(old(self)@, namespace_of(key))
                    &&& final(self).transports() == old(self).transports().insert(
                        namespace_of(key),
                        client.carried(),
                    )
                },
                Err(e) => {
                    &&& final(self)@ == old(self)@
                    &&& final(self).transports() == old(self).transports()
                    &&& e.host@ == namespace_of(key)
                },
            },
    {
        let namespace: &str = match key {
            Some(named) => named,
            None => "",
        };
        proof {
            reveal_strlit("");
            assert(namespace@ =~= namespace_of(key));
        }
        match self.lookup(namespace) {
            Some(client) => {
                assert(self@ =~= provisioned(old(self)@, namespace_of(key)));
                assert(self.transports() =~= old(self).transports().insert(
                    namespace_of(key),
                    client.carried(),
                ));
                Ok(client)
            },
            None => {
                let outcome = UpstreamClient::try_from(SingleUpstreamConfig::new(namespace));
                self.provision(namespace, outcome)
            },
        }
    }

    /// The windows that a cleanup pass goes by: for each bound namespace the
    /// window of its manifests, and for the blobs, which all namespaces
    /// share, the widest window of any bound client.
    pub fn invalidation_config(&self) -> (config: InvalidationConfig)
        ensures
            config.reflects(self@),
    {
        proof {
            use_type_invariant(self);
        }
        let mut blob = default_blob_invalidation_time();
        let mut manifests: Vec<(String, Span)> = Vec::new();
        let mut i: usize = 0;
        while i < self.names.len()
            invariant
                i <= self.names.len(),
                lists_keys(self.names@, self.table@),
                manifests@.len() == i,
                forall|k: int|
                    0 <= k < i ==> (#[trigger] manifests@[k]).0@ == self.names@[k]@
                        && manifests@[k].1@ == self@[self.names@[k]@].manifest_invalidation_time,
                forall|k: int|
                    0 <= k < i ==> self@[#[trigger] self.names@[k]@].blob_invalidation_time
                        <= blob@,
                i == 0 ==> blob@ == default_window(),
                i > 0 ==> exists|k: int|
                    0 <= k < i && self@[#[trigger] self.names@[k]@].blob_invalidation_time
                        == blob@,
            decreases self.names.len() - i,
        {
            match self.table.get(self.names[i].as_str()) {
                Some(client) => {
                    let window = client.blob_invalidation_time();
                    if i == 0 {
                        blob = window;
                    } else {
                        blob = blob.longer_of(window);
                    }
                    manifests.push((self.names[i].clone(), client.manifest_invalidation_time()));
                },
                None => {
                    assert(self.table@.contains_key(self.names@[i as int]@));
                },
            }
            i += 1;
        }
        let config = InvalidationConfig { blob, manifests };
        proof {
            assert forall|ns: Seq<char>| self@.contains_key(ns) implies exists|k: int|
                0 <= k < config.manifests@.len() && (#[trigger] config.manifests@[k]).0@ == ns by {
                let k = choose|k: int| 0 <= k < self.names.len() && #[trigger] self.names[k]@ == ns;
                assert(config.manifests@[k].0@ == ns);
            }
            if i > 0 {
                let k = choose|k: int|
                    0 <= k < i && self@[#[trigger] self.names@[k]@].blob_invalidation_time
                        == blob@;
                assert(self@.contains_key(self.names@[k]@));
            } else {
                assert forall|ns: Seq<char>| !self@.contains_key(ns) by {
                    if self@.contains_key(ns) {
                        let k = choose|k: int|
                            0 <= k < self.names.len() && #[trigger] self.names[k]@ == ns;
                    }
                }
            }
            assert forall|ns: Seq<char>| self@.contains_key(ns) implies self@[ns].blob_invalidation_time
                <= config.blob@ by {
                let k = choose|k: int| 0 <= k < self.names.len() && #[trigger] self.names[k]@ == ns;
                assert(self@[self.names@[k]@].blob_invalidation_time <= blob@);
            }
        }
        config
    }
}

/// The table that binding the entries of a list makes, in the order of the
/// list.
pub open spec fn bound_table(entries: Seq<(String, UpstreamClient)>) -> Map<Seq<char>, Settings>
    decreases entries.len(),
{
    if entries.len() == 0 {
        Map::empty()
    } else {
        bound_table(entries.drop_last()).insert(entries.last().0@, entries.last().1@)
    }
}

/// The transports that binding the entries of a list leaves in a registry,
/// in the order of the list.
pub open spec fn bound_transports(entries: Seq<(String, UpstreamClient)>) -> Map<
    Seq<char>,
    dkregistry::v2::Client,
>
    decreases entries.len(),
{
    if entries.len() == 0 {
        Map::empty()
    } else {
        bound_transports(entries.drop_last()).insert(
            entries.last().0@,
            entries.last().1.carried(),
        )
    }
}

/// The windows that a cleanup pass goes by.
#[derive(Debug)]
pub struct InvalidationConfig {
    /// The window of the blobs, which are stored once for all namespaces.
    pub blob: Span,
    /// The window of the manifests of each namespace.
    pub manifests: Vec<(String, Span)>,
}

impl InvalidationConfig {
    /// Whether these are the windows of the clients in `table`: each bound
    /// namespace is listed once with the manifest window of its client, and
    /// the blob window is the widest blob window of any client, or the
    /// default where no namespace is bound.
    pub open spec fn reflects(self, table: Map<Seq<char>, Settings>) -> bool {
        &&& forall|i: int, j: int|
            0 <= i < j < self.manifests@.len() ==> (#[trigger] self.manifests@[i]).0@
                != (#[trigger] self.manifests@[j]).0@
        &&& forall|i: int|
            0 <= i < self.manifests@.len() ==> table.contains_key(
                (#[trigger] self.manifests@[i]).0@,
            ) && self.manifests@[i].1@ == table[self.manifests@[i].0@].manifest_invalidation_time
        &&& forall|ns: Seq<char>|
            table.contains_key(ns) ==> exists|i: int|
                0 <= i < self.manifests@.len() && (#[trigger] self.manifests@[i]).0@ == ns
        &&& forall|ns: Seq<char>|
            table.contains_key(ns) ==> (#[trigger] table[ns]).blob_invalidation_time
                <= self.blob@
        &&& if forall|ns: Seq<char>| !table.contains_key(ns) {
            self.blob@ == default_window()
        } else {
            exists|ns: Seq<char>|
                table.contains_key(ns) && (#[trigger] table[ns]).blob_invalidation_time
                    == self.blob@
        }
    }
}

/// The table that building the declared clients makes, in the order of the
/// list: of two declarations of one namespace the later one stays.
pub open spec fn declared_table(upstreams: Seq<SingleUpstreamConfig>) -> Map<Seq<char>, Settings>
    decreases upstreams.len(),
{
    if upstreams.len() == 0 {
        Map::empty()
    } else {
        declared_table(upstreams.drop_last()).insert(
            upstreams.last().namespace@,
            upstreams.last().settings(),
        )
    }
}

/// Where the clients of the process come from: the declared upstreams, or
/// none, and the namespace that serves requests which name none.
#[derive(Debug)]
pub struct UpstreamConfig {
    /// The namespace whose client serves requests that name no namespace.
    pub default_upstream_namespace: String,
    /// The declared upstreams. Without a declaration the registry starts
    /// with Docker Hub alone.
    pub upstreams: Option<Vec<SingleUpstreamConfig>>,
}

impl UpstreamConfig {
    /// The table of the declared clients: one for each declaration, or,
    /// without a declaration, the one for `docker.io` at the host
    /// `registry-1.docker.io`.
    pub open spec fn static_table(self) -> Map<Seq<char>, Settings> {
        match self.upstreams {
            Some(list) => declared_table(list@),
            None => Map::<Seq<char>, Settings>::empty().insert(
                "docker.io"@,
                default_settings("registry-1.docker.io"@),
            ),
        }
    }

    /// The registry that this configuration describes: the declared clients,
    /// the client of the default namespace (its default client, where it is
    /// not declared), and the empty namespace bound to that same client.
    pub open spec fn registry(self) -> Map<Seq<char>, Settings> {
        let table = self.static_table();
        let namespace = self.default_upstream_namespace@;
        provisioned(table, namespace).insert(Seq::empty(), serving(table, namespace))
    }

    /// Whether a client for `host` is among those that the registry is built
    /// from.
    pub open spec fn builds_for(self, host: Seq<char>) -> bool {
        ||| host == self.default_upstream_namespace@
        ||| match self.upstreams {
            Some(list) => exists|i: int| 0 <= i < list@.len() && (#[trigger] list@[i]).host@ == host,
            None => host == "registry-1.docker.io"@,
        }
    }

    /// Whether the default namespace is among the declared ones, so that
    /// requests which name no namespace are served by a declared client and
    /// not by the default client of a host of that name.
    pub fn declares_default(&self) -> (declared: bool)
        ensures
            declared == self.static_table().contains_key(self.default_upstream_namespace@),
    {
        match &self.upstreams {
            Some(list) => {
                let mut declared = false;
                let mut i: usize = 0;
                assert(list@.take(0) =~= Seq::<SingleUpstreamConfig>::empty());
                while i < list.len()
                    invariant
                        i <= list.len(),
                        declared == declared_table(list@.take(i as int)).contains_key(
                            self.default_upstream_namespace@,
                        ),
                    decreases list.len() - i,
                {
                    proof {
                        assert(list@.take(i + 1).drop_last() =~= list@.take(i as int));
                        assert(list@.take(i + 1).last() == list@[i as int]);
                    }
                    if list[i].namespace == self.default_upstream_namespace {
                        declared = true;
                    }
                    i += 1;
                }
                proof {
                    assert(list@.take(list@.len() as int) =~= list@);
                }
                declared
            },
            None => self.default_upstream_namespace == "docker.io".to_owned(),
        }
    }

    /// Builds the registry of the process. Every declared client is built,
    /// then the default namespace is resolved as any namespace is, and the
    /// empty namespace is bound to what it resolved to.
    ///
    /// The first client that cannot be built ends the construction with its
    /// error: there is no registry with a part of the declared clients.
    pub fn clients(&self) -> (built: Result<Clients, ClientBuildError>)
        ensures
            match built {
                Ok(clients) => {
                    &&& clients@ == self.registry()
                    &&& clients.transports().contains_key(Seq::empty())
                    &&& clients.transports().contains_key(self.default_upstream_namespace@)
                    &&& clients.transports()[Seq::empty()]
                        == clients.transports()[self.default_upstream_namespace@]
                },
                Err(e) => self.builds_for(e.host@),
            },
    {
        let mut clients = Clients::new();
        match &self.upstreams {
            Some(list) => {
                let mut i: usize = 0;
                while i < list.len()
                    invariant
                        i <= list.len(),
                        self.upstreams == Some(*list),
                        clients@ == declared_table(list@.take(i as int)),
                    decreases list.len() - i,
                {
                    let config = list[i].clone();
                    proof {
                        assert(list@.take(i + 1).drop_last() =~= list@.take(i as int));
                        assert(list@.take(i + 1).last() == list@[i as int]);
                    }
                    match clients.insert(config.namespace.clone(), config) {
                        Ok(_) => {},
                        Err(e) => {
                            assert(list@[i as int].host@ == e.host@);
                            return Err(e);
                        },
                    }
                    i += 1;
                }
                proof {
                    assert(list@.take(list@.len() as int) =~= list@);
                }
            },
            None => {
                let config = SingleUpstreamConfig::with_host("docker.io", "registry-1.docker.io");
                match clients.insert("docker.io".to_owned(), config) {
                    Ok(_) => {},
                    Err(e) => {
                        return Err(e);
                    },
                }
            },
        }
        assert(clients@ == self.static_table());
        let default_client = match clients.get(Some(self.default_upstream_namespace.as_str())) {
            Ok(client) => client,
            Err(e) => {
                return Err(e);
            },
        };
        clients.bind(String::new(), default_client);
        Ok(clients)
    }
}

/// A request that names no namespace and one that names the empty namespace
/// are served by the same client, and leave the same registry behind.
pub proof fn lemma_unnamed_is_empty_namespace(table: Map<Seq<char>, Settings>)
    ensures
        namespace_of(None) == namespace_of(Some("")),
        serving(table, namespace_of(None)) == serving(table, namespace_of(Some(""))),
        provisioned(table, namespace_of(None)) == provisioned(table, namespace_of(Some(""))),
{
    reveal_strlit("");
    assert(namespace_of(None) =~= namespace_of(Some("")));
}

/// In the registry that a configuration describes, the empty namespace and
/// the default namespace are both bound, and to the same client; asking for
/// either changes nothing.
pub proof fn lemma_default_namespace_is_bound(config: UpstreamConfig)
    ensures
        config.registry().contains_key(Seq::empty()),
        config.registry().contains_key(config.default_upstream_namespace@),
        config.registry()[Seq::empty()] == config.registry()[config.default_upstream_namespace@],
        serving(config.registry(), namespace_of(None)) == serving(
            config.registry(),
            config.default_upstream_namespace@,
        ),
        provisioned(config.registry(), namespace_of(None)) == config.registry(),
        provisioned(config.registry(), config.default_upstream_namespace@) == config.registry(),
{
    let registry = config.registry();
    assert(provisioned(registry, namespace_of(None)) =~= registry);
    assert(provisioned(registry, config.default_upstream_namespace@) =~= registry);
}

/// Asking for a namespace that is not bound gives the client of the host of
/// that name, with TLS, strict certificate validation and no credentials;
/// the namespace is bound from then on, so that asking again gives the same
/// client and leaves the registry as it is.
pub proof fn lemma_provisioning_is_idempotent(table: Map<Seq<char>, Settings>, namespace: Seq<char>)
    ensures
        provisioned(table, namespace).contains_key(namespace),
        serving(provisioned(table, namespace), namespace) == serving(table, namespace),
        provisioned(provisioned(table, namespace), namespace) == provisioned(table, namespace),
        !table.contains_key(namespace) ==> {
            &&& serving(table, namespace).host == namespace
            &&& serving(table, namespace).tls
            &&& !serving(table, namespace).accept_invalid_certs
            &&& serving(table, namespace).username.is_none()
            &&& serving(table, namespace).password.is_none()
        },
        forall|other: Seq<char>|
            other != namespace ==> (provisioned(table, namespace).contains_key(other)
                <==> table.contains_key(other)) && serving(provisioned(table, namespace), other)
                == serving(table, other),
{
    assert(provisioned(provisioned(table, namespace), namespace) =~= provisioned(
        table,
        namespace,
    ));
}

} // verus!
