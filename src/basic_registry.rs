use vstd::prelude::*;
use crate::error::RimError;
use crate::registry::{
    RegistryPlan, RegistryPlanView, lit_etcd, lit_redis, opt_list, opt_text, required_text, texts,
    trimmed_setting,
};
use crate::text::{ascii_lower, ascii_lowercase, copy_strings, same_text, trim_text};

verus! {

/// What a builder of the two-backend registry holds, as plain values.
pub ghost struct BasicRegistryBuilderView {
    pub backend: Option<Seq<char>>,
    pub namespace: Option<Seq<char>>,
    pub etcd_endpoints: Option<Seq<String>>,
    pub redis_url: Option<Seq<char>>,
}

/// The plan that the settings `v` select (etcd or redis only), or `None`
/// where they are refused.
pub open spec fn basic_plan_spec(v: BasicRegistryBuilderView) -> Option<RegistryPlanView> {
    let ns = trimmed_setting(v.namespace);
    let be = ascii_lower(trimmed_setting(v.backend));
    if ns.len() == 0 || be.len() == 0 {
        None
    } else if be == lit_etcd() {
        match v.etcd_endpoints {
            Some(e) if e.len() > 0 => Some(RegistryPlanView::Etcd { endpoints: texts(e), namespace: ns }),
            _ => None,
        }
    } else if be == lit_redis() {
        let url = trimmed_setting(v.redis_url);
        if url.len() == 0 { None } else { Some(RegistryPlanView::Redis { url, namespace: ns }) }
    } else {
        None
    }
}

/// Settings from which an etcd or redis coordination store is opened.
#[derive(Debug)]
pub struct RegistryBuilder {
    backend: Option<String>,
    namespace: Option<String>,
    etcd_endpoints: Option<Vec<String>>,
    redis_url: Option<String>,
}

impl View for RegistryBuilder {
    type V = BasicRegistryBuilderView;

    closed spec fn view(&self) -> BasicRegistryBuilderView {
        BasicRegistryBuilderView {
            backend: opt_text(self.backend),
            namespace: opt_text(self.namespace),
            etcd_endpoints: opt_list(self.etcd_endpoints),
            redis_url: opt_text(self.redis_url),
        }
    }
}

impl RegistryBuilder {
    /// A builder with nothing set.
    pub fn new() -> (r: RegistryBuilder)
        ensures
            r@ == (BasicRegistryBuilderView { backend: None, namespace: None, etcd_endpoints: None, redis_url: None }),
    {
        RegistryBuilder { backend: None, namespace: None, etcd_endpoints: None, redis_url: None }
    }

    /// Set the backend name.
    pub fn backend(self, backend: &str) -> (r: RegistryBuilder)
        ensures
            r@ == (BasicRegistryBuilderView { backend: Some(backend@), ..self@ }),
    {
        RegistryBuilder { backend: Some(String::from_str(backend)), ..self }
    }

    /// Set the namespace.
    pub fn namespace(self, namespace: &str) -> (r: RegistryBuilder)
        ensures
            r@ == (BasicRegistryBuilderView { namespace: Some(namespace@), ..self@ }),
    {
        RegistryBuilder { namespace: Some(String::from_str(namespace)), ..self }
    }

    /// Set the etcd endpoints.
    pub fn etcd_endpoints(self, endpoints: Vec<String>) -> (r: RegistryBuilder)
        ensures
            r@ == (BasicRegistryBuilderView { etcd_endpoints: Some(endpoints@), ..self@ }),
    {
        RegistryBuilder { etcd_endpoints: Some(endpoints), ..self }
    }

    /// Set the redis URL.
    pub fn redis_url(self, url: &str) -> (r: RegistryBuilder)
        ensures
            r@ == (BasicRegistryBuilderView { redis_url: Some(url@), ..self@ }),
    {
        RegistryBuilder { redis_url: Some(String::from_str(url)), ..self }
    }

    /// The namespace, trimmed; refused when empty.
    pub fn resolve_namespace(&self) -> (r: Result<String, RimError>)
        ensures
            r is Ok <==> trimmed_setting(self@.namespace).len() > 0,
            r is Ok ==> r->Ok_0@ == trimmed_setting(self@.namespace),
            r is Err ==> r->Err_0 is Config,
    {
        match required_text(&self.namespace) {
            Some(ns) => Ok(ns),
            None => Err(RimError::Config(String::from_str("registry namespace cannot be empty"))),
        }
    }

    /// The backend name, trimmed and in lower case; refused when empty.
    pub fn resolve_backend(&self) -> (r: Result<String, RimError>)
        ensures
            r is Ok <==> ascii_lower(trimmed_setting(self@.backend)).len() > 0,
            r is Ok ==> r->Ok_0@ == ascii_lower(trimmed_setting(self@.backend)),
            r is Err ==> r->Err_0 is Config,
    {
        let t = match &self.backend {
            Some(b) => trim_text(b.as_str()),
            None => String::new(),
        };
        let lower = ascii_lowercase(t.as_str());
        if lower.unicode_len() == 0 {
            Err(RimError::Config(String::from_str("registry backend cannot be empty")))
        } else {
            Ok(lower)
        }
    }

    /// Decide which coordination store the settings select and with what it
    /// is opened, or refuse the settings.
    pub fn plan(&self) -> (r: Result<RegistryPlan, RimError>)
        ensures
            r is Ok <==> basic_plan_spec(self@) is Some,
            r is Ok ==> r->Ok_0@ == basic_plan_spec(self@)->0,
            r is Err ==> r->Err_0 is Config,
    {
        let namespace = match self.resolve_namespace() {
            Ok(ns) => ns,
            Err(e) => {
                return Err(e);
            },
        };
        let backend = match self.resolve_backend() {
            Ok(b) => b,
            Err(e) => {
                return Err(e);
            },
        };
        proof {
            reveal_strlit("etcd");
            reveal_strlit("redis");
            assert("etcd"@ =~= lit_etcd());
            assert("redis"@ =~= lit_redis());
        }
        if same_text(backend.as_str(), "etcd") {
            match &self.etcd_endpoints {
                Some(endpoints) => {
                    if endpoints.len() == 0 {
                        return Err(RimError::Config(String::from_str("etcd endpoints cannot be empty for etcd backend")));
                    }
                    let endpoints = copy_strings(endpoints);
                    Ok(RegistryPlan::Etcd { endpoints, namespace })
                },
                None => Err(RimError::Config(String::from_str("etcd endpoints are required for etcd backend"))),
            }
        } else if same_text(backend.as_str(), "redis") {
            match required_text(&self.redis_url) {
                Some(url) => Ok(RegistryPlan::Redis { url, namespace }),
                None => Err(RimError::Config(String::from_str("redis url is required for redis backend"))),
            }
        } else {
            Err(RimError::Config(String::from_str("unsupported registry backend")))
        }
    }
}

} // verus!
