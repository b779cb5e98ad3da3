use vstd::prelude::*;
use crate::error::RimError;
use crate::text::{ascii_lower, ascii_lowercase, copy_strings, same_text, trim_spec, trim_text};

verus! {

/// The text of an optional string, empty when absent.
pub open spec fn text_or_empty(o: Option<String>) -> Seq<char> {
    match o {
        Some(s) => s@,
        None => Seq::empty(),
    }
}

/// Views of a list of strings.
pub open spec fn texts(v: Seq<String>) -> Seq<Seq<char>> {
    v.map_values(|s: String| s@)
}

/// The seeds that remain of `v` once each is trimmed and the empty ones are
/// dropped, in order.
pub open spec fn clean_seeds(v: Seq<String>) -> Seq<Seq<char>>
    decreases v.len(),
{
    if v.len() == 0 {
        Seq::empty()
    } else {
        let rest = clean_seeds(v.drop_last());
        let t = trim_spec(v.last()@);
        if t.len() == 0 { rest } else { rest.push(t) }
    }
}

/// The text `etcd`.
pub open spec fn lit_etcd() -> Seq<char> {
    seq!['e', 't', 'c', 'd']
}

/// The text `redis`.
pub open spec fn lit_redis() -> Seq<char> {
    seq!['r', 'e', 'd', 'i', 's']
}

/// The text `embed`.
pub open spec fn lit_embed() -> Seq<char> {
    seq!['e', 'm', 'b', 'e', 'd']
}

/// The text `openraft`.
pub open spec fn lit_openraft() -> Seq<char> {
    seq!['o', 'p', 'e', 'n', 'r', 'a', 'f', 't']
}

/// The text `openraft_http`.
pub open spec fn lit_openraft_http() -> Seq<char> {
    lit_openraft() + seq!['_', 'h', 't', 't', 'p']
}

/// The text `internal_http`.
pub open spec fn lit_internal_http() -> Seq<char> {
    seq!['i', 'n', 't', 'e', 'r', 'n', 'a', 'l', '_', 'h', 't', 't', 'p']
}

/// Trimmed text of an optional setting; refused when it is then empty.
pub fn required_text(value: &Option<String>) -> (r: Option<String>)
    ensures
        r is Some <==> trim_spec(text_or_empty(*value)).len() > 0,
        r is Some ==> r->0@ == trim_spec(text_or_empty(*value)),
{
    let t = match value {
        Some(v) => trim_text(v.as_str()),
        None => {
            let e = String::new();
            let t = trim_text(e.as_str());
            t
        },
    };
    if t.unicode_len() == 0 {
        None
    } else {
        Some(t)
    }
}

/// Trim each seed and drop the empty ones.
pub fn trimmed_seeds(v: &Vec<String>) -> (r: Vec<String>)
    ensures
        texts(r@) == clean_seeds(v@),
{
    let mut out: Vec<String> = Vec::new();
    let mut i: usize = 0;
    while i < v.len()
        invariant
            i <= v@.len(),
            texts(out@) == clean_seeds(v@.take(i as int)),
        decreases v@.len() - i,
    {
        let t = trim_text(v[i].as_str());
        proof {
            assert(v@.take(i as int + 1).drop_last() =~= v@.take(i as int));
            assert(v@.take(i as int + 1).last() == v@[i as int]);
        }
        if t.unicode_len() > 0 {
            let ghost before = out@;
            out.push(t);
            assert(texts(out@) =~= texts(before).push(t@));
        }
        i = i + 1;
    }
    assert(v@.take(v@.len() as int) =~= v@);
    out
}

/// What a registry builder holds, as plain values.
pub ghost struct RegistryBuilderView {
    pub backend: Option<Seq<char>>,
    pub namespace: Option<Seq<char>>,
    pub embed_node_id: Option<Seq<char>>,
    pub embed_transport: Option<Seq<char>>,
    pub etcd_endpoints: Option<Seq<String>>,
    pub redis_url: Option<Seq<char>>,
    pub embed_bind_addr: Option<Seq<char>>,
    pub embed_advertise_addr: Option<Seq<char>>,
    pub embed_seeds: Option<Seq<String>>,
}

/// The coordination store that a builder's settings select, with what it
/// is opened with.
#[derive(Debug)]
pub enum RegistryPlan {
    Etcd { endpoints: Vec<String>, namespace: String },
    Redis { url: String, namespace: String },
    Embed {
        namespace: String,
        node_id: String,
        bind_addr: String,
        advertise_addr: Option<String>,
        seeds: Vec<String>,
        transport: String,
    },
}

/// A plan as plain values.
pub ghost enum RegistryPlanView {
    Etcd { endpoints: Seq<Seq<char>>, namespace: Seq<char> },
    Redis { url: Seq<char>, namespace: Seq<char> },
    Embed {
        namespace: Seq<char>,
        node_id: Seq<char>,
        bind_addr: Seq<char>,
        advertise_addr: Option<Seq<char>>,
        seeds: Seq<Seq<char>>,
        transport: Seq<char>,
    },
}

impl View for RegistryPlan {
    type V = RegistryPlanView;

    open spec fn view(&self) -> RegistryPlanView {
        match self {
            RegistryPlan::Etcd { endpoints, namespace } => RegistryPlanView::Etcd {
                endpoints: texts(endpoints@),
                namespace: namespace@,
            },
            RegistryPlan::Redis { url, namespace } => RegistryPlanView::Redis { url: url@, namespace: namespace@ },
            RegistryPlan::Embed { namespace, node_id, bind_addr, advertise_addr, seeds, transport } => {
                RegistryPlanView::Embed {
                    namespace: namespace@,
                    node_id: node_id@,
                    bind_addr: bind_addr@,
                    advertise_addr: match advertise_addr {
                        Some(a) => Some(a@),
                        None => None,
                    },
                    seeds: texts(seeds@),
                    transport: transport@,
                }
            },
        }
    }
}

/// The text of an optional string.
pub open spec fn opt_text(o: Option<String>) -> Option<Seq<char>> {
    match o {
        Some(s) => Some(s@),
        None => None,
    }
}

/// The list of an optional list of strings.
pub open spec fn opt_list(o: Option<Vec<String>>) -> Option<Seq<String>> {
    match o {
        Some(v) => Some(v@),
        None => None,
    }
}

/// The trimmed text of an optional setting.
pub open spec fn trimmed_setting(o: Option<Seq<char>>) -> Seq<char> {
    match o {
        Some(s) => trim_spec(s),
        None => Seq::empty(),
    }
}

/// The transport that an embedded store uses: the setting, trimmed and in
/// lower case, `openraft` when unset.
pub open spec fn transport_spec(o: Option<Seq<char>>) -> Seq<char> {
    match o {
        Some(s) => ascii_lower(trim_spec(s)),
        None => lit_openraft(),
    }
}

/// The plan that the settings `v` select, or `None` where they are refused.
pub open spec fn plan_spec(v: RegistryBuilderView) -> Option<RegistryPlanView> {
    let ns = trimmed_setting(v.namespace);
    let be = ascii_lower(trimmed_setting(v.backend));
    if ns.len() == 0 || be.len() == 0 {
        None
    } else if be == lit_etcd() {
        match v.etcd_endpoints {
            Some(e) if e.len() > 0 => Some(RegistryPlanView::Etcd { endpoints: texts(e), namespace: ns }),
            _ => None,
        }
    } else if be == lit_redis() {
        let url = trimmed_setting(v.redis_url);
        if url.len() == 0 { None } else { Some(RegistryPlanView::Redis { url, namespace: ns }) }
    } else if be == lit_embed() {
        let transport = transport_spec(v.embed_transport);
        let bind = trimmed_setting(v.embed_bind_addr);
        let node = trimmed_setting(v.embed_node_id);
        if transport != lit_internal_http() && transport != lit_openraft_http() && transport != lit_openraft() {
            None
        } else if bind.len() == 0 || node.len() == 0 {
            None
        } else {
            Some(RegistryPlanView::Embed {
                namespace: ns,
                node_id: node,
                bind_addr: bind,
                advertise_addr: if trimmed_setting(v.embed_advertise_addr).len() > 0 {
                    Some(trimmed_setting(v.embed_advertise_addr))
                } else {
                    None
                },
                seeds: match v.embed_seeds {
                    Some(s) => clean_seeds(s),
                    None => Seq::empty(),
                },
                transport,
            })
        }
    } else {
        None
    }
}

/// Settings from which the coordination store is opened.
#[derive(Debug)]
pub struct RegistryBuilder {
    backend: Option<String>,
    namespace: Option<String>,
    embed_node_id: Option<String>,
    embed_transport: Option<String>,
    etcd_endpoints: Option<Vec<String>>,
    redis_url: Option<String>,
    embed_bind_addr: Option<String>,
    embed_advertise_addr: Option<String>,
    embed_seeds: Option<Vec<String>>,
}

impl View for RegistryBuilder {
    type V = RegistryBuilderView;

    closed spec fn view(&self) -> RegistryBuilderView {
        RegistryBuilderView {
            backend: opt_text(self.backend),
            namespace: opt_text(self.namespace),
            embed_node_id: opt_text(self.embed_node_id),
            embed_transport: opt_text(self.embed_transport),
            etcd_endpoints: opt_list(self.etcd_endpoints),
            redis_url: opt_text(self.redis_url),
            embed_bind_addr: opt_text(self.embed_bind_addr),
            embed_advertise_addr: opt_text(self.embed_advertise_addr),
            embed_seeds: opt_list(self.embed_seeds),
        }
    }
}

fn config_error(msg: &str) -> (r: RimError)
    ensures
        r is Config,
{
    RimError::Config(String::from_str(msg))
}

impl RegistryBuilder {
    /// A builder with nothing set.
    pub fn new() -> (r: RegistryBuilder)
        ensures
            r@ == (RegistryBuilderView {
                backend: None,
                namespace: None,
                embed_node_id: None,
                embed_transport: None,
                etcd_endpoints: None,
                redis_url: None,
                embed_bind_addr: None,
                embed_advertise_addr: None,
                embed_seeds: None,
            }),
    {
        RegistryBuilder {
            backend: None,
            namespace: None,
            embed_node_id: None,
            embed_transport: None,
            etcd_endpoints: None,
            redis_url: None,
            embed_bind_addr: None,
            embed_advertise_addr: None,
            embed_seeds: None,
        }
    }

    /// Set the backend name.
    pub fn backend(self, backend: &str) -> (r: RegistryBuilder)
        ensures
            r@ == (RegistryBuilderView { backend: Some(backend@), ..self@ }),
    {
        RegistryBuilder { backend: Some(String::from_str(backend)), ..self }
    }

    /// Set the namespace.
    pub fn namespace(self, namespace: &str) -> (r: RegistryBuilder)
        ensures
            r@ == (RegistryBuilderView { namespace: Some(namespace@), ..self@ }),
    {
        RegistryBuilder { namespace: Some(String::from_str(namespace)), ..self }
    }

    /// Set the node id of the embedded store.
    pub fn embed_node_id(self, node_id: &str) -> (r: RegistryBuilder)
        ensures
            r@ == (RegistryBuilderView { embed_node_id: Some(node_id@), ..self@ }),
    {
        RegistryBuilder { embed_node_id: Some(String::from_str(node_id)), ..self }
    }

    /// Set the transport of the embedded store.
    pub fn embed_transport(self, transport: &str) -> (r: RegistryBuilder)
        ensures
            r@ == (RegistryBuilderView { embed_transport: Some(transport@), ..self@ }),
    {
        RegistryBuilder { embed_transport: Some(String::from_str(transport)), ..self }
    }

    /// Set the etcd endpoints.
    pub fn etcd_endpoints(self, endpoints: Vec<String>) -> (r: RegistryBuilder)
        ensures
            r@ == (RegistryBuilderView { etcd_endpoints: Some(endpoints@), ..self@ }),
    {
        RegistryBuilder { etcd_endpoints: Some(endpoints), ..self }
    }

    /// Set the redis URL.
    pub fn redis_url(self, url: &str) -> (r: RegistryBuilder)
        ensures
            r@ == (RegistryBuilderView { redis_url: Some(url@), ..self@ }),
    {
        RegistryBuilder { redis_url: Some(String::from_str(url)), ..self }
    }

    /// Set the address that the embedded store binds.
    pub fn embed_bind_addr(self, addr: &str) -> (r: RegistryBuilder)
        ensures
            r@ == (RegistryBuilderView { embed_bind_addr: Some(addr@), ..self@ }),
    {
        RegistryBuilder { embed_bind_addr: Some(String::from_str(addr)), ..self }
    }

    /// Set the address that the embedded store advertises.
    pub fn embed_advertise_addr(self, addr: &str) -> (r: RegistryBuilder)
        ensures
            r@ == (RegistryBuilderView { embed_advertise_addr: Some(addr@), ..self@ }),
    {
        RegistryBuilder { embed_advertise_addr: Some(String::from_str(addr)), ..self }
    }

    /// Set the seeds of the embedded store.
    pub fn embed_seeds(self, seeds: Vec<String>) -> (r: RegistryBuilder)
        ensures
            r@ == (RegistryBuilderView { embed_seeds: Some(seeds@), ..self@ }),
    {
        RegistryBuilder { embed_seeds: Some(seeds), ..self }
    }

    /// The namespace, trimmed; refused when empty.
    pub fn resolve_namespace(&self) -> (r: Result<String, RimError>)
        ensures
            r is Ok <==> trimmed_setting(self@.namespace).len() > 0,
            r is Ok ==> r->Ok_0@ == trimmed_setting(self@.namespace),
            r is Err ==> r->Err_0 is Config,
    {
        match required_text(&self.namespace) {
            Some(ns) => Ok(ns),
            None => Err(config_error("registry namespace cannot be empty")),
        }
    }

    /// The backend name, trimmed and in lower case; refused when empty.
    pub fn resolve_backend(&self) -> (r: Result<String, RimError>)
        ensures
            r is Ok <==> ascii_lower(trimmed_setting(self@.backend)).len() > 0,
            r is Ok ==> r->Ok_0@ == ascii_lower(trimmed_setting(self@.backend)),
            r is Err ==> r->Err_0 is Config,
    {
        let t = match &self.backend {
            Some(b) => trim_text(b.as_str()),
            None => String::new(),
        };
        let lower = ascii_lowercase(t.as_str());
        if lower.unicode_len() == 0 {
            Err(config_error("registry backend cannot be empty"))
        } else {
            Ok(lower)
        }
    }

    /// Decide which coordination store the settings select and with what it
    /// is opened, or refuse the settings.
    pub fn plan(&self) -> (r: Result<RegistryPlan, RimError>)
        ensures
            r is Ok <==> plan_spec(self@) is Some,
            r is Ok ==> r->Ok_0@ == plan_spec(self@)->0,
            r is Err ==> r->Err_0 is Config,
    {
        let namespace = match self.resolve_namespace() {
            Ok(ns) => ns,
            Err(e) => {
                return Err(e);
            },
        };
        let backend = match self.resolve_backend() {
            Ok(b) => b,
            Err(e) => {
                return Err(e);
            },
        };
        proof {
            reveal_strlit("etcd");
            reveal_strlit("redis");
            reveal_strlit("embed");
            reveal_strlit("openraft");
            reveal_strlit("openraft_http");
            reveal_strlit("internal_http");
            assert(lit_openraft_http() =~= seq!['o', 'p', 'e', 'n', 'r', 'a', 'f', 't', '_', 'h', 't', 't', 'p']);
            assert("internal_http"@ =~= lit_internal_http());
            assert("openraft_http"@ =~= lit_openraft_http());
            assert("openraft"@ =~= lit_openraft());
            assert("etcd"@ =~= lit_etcd());
            assert("redis"@ =~= lit_redis());
            assert("embed"@ =~= lit_embed());
        }
        if same_text(backend.as_str(), "etcd") {
            match &self.etcd_endpoints {
                Some(endpoints) => {
                    if endpoints.len() == 0 {
                        return Err(config_error("etcd endpoints cannot be empty for etcd backend"));
                    }
                    let endpoints = copy_strings(endpoints);
                    Ok(RegistryPlan::Etcd { endpoints, namespace })
                },
                None => Err(config_error("etcd endpoints are required for etcd backend")),
            }
        } else if same_text(backend.as_str(), "redis") {
            match required_text(&self.redis_url) {
                Some(url) => Ok(RegistryPlan::Redis { url, namespace }),
                None => Err(config_error("redis url is required for redis backend")),
            }
        } else if same_text(backend.as_str(), "embed") {
            let transport = match &self.embed_transport {
                Some(t) => {
                    let tt = trim_text(t.as_str());
                    ascii_lowercase(tt.as_str())
                },
                None => String::from_str("openraft"),
            };
            assert(transport@ == transport_spec(self@.embed_transport));
            if !same_text(transport.as_str(), "internal_http") && !same_text(transport.as_str(), "openraft_http")
                && !same_text(transport.as_str(), "openraft") {
                return Err(config_error("unsupported embed transport"));
            }
            let bind_addr = match required_text(&self.embed_bind_addr) {
                Some(b) => b,
                None => {
                    return Err(config_error("embed bind_addr is required for embed backend"));
                },
            };
            let node_id = match required_text(&self.embed_node_id) {
                Some(n) => n,
                None => {
                    return Err(config_error("embed node_id is required for embed backend"));
                },
            };
            let advertise_addr = required_text(&self.embed_advertise_addr);
            assert(trimmed_setting(self@.embed_bind_addr) == trim_spec(text_or_empty(self.embed_bind_addr)));
            assert(trimmed_setting(self@.embed_advertise_addr) == trim_spec(text_or_empty(self.embed_advertise_addr)));
            assert(trimmed_setting(self@.embed_node_id) == trim_spec(text_or_empty(self.embed_node_id)));
            let seeds = match &self.embed_seeds {
                Some(s) => trimmed_seeds(s),
                None => Vec::new(),
            };
            proof {
                assert(texts(seeds@) == match self@.embed_seeds {
                    Some(s) => clean_seeds(s),
                    None => Seq::<Seq<char>>::empty(),
                }) by {
                    if self.embed_seeds is None {
                        assert(texts(seeds@) =~= Seq::<Seq<char>>::empty());
                    }
                }
            }
            Ok(RegistryPlan::Embed { namespace, node_id, bind_addr, advertise_addr, seeds, transport })
        } else {
            Err(config_error("unsupported registry backend"))
        }
    }
}

} // verus!
