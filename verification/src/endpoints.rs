//! Registry of the endpoints that a strategy is checked against. An
//! endpoint is either critical (it must work for the strategy to be viable)
//! or optional.
use vstd::prelude::*;
use crate::text::{lowercased, owned, str_eq, to_lowercase};
use crate::models::{test_url_of, Service};

verus! {

/// An endpoint a strategy is checked against.
pub struct TestEndpoint {
    /// URL to probe (one that answers quickly, such as `/generate_204`).
    pub url: String,
    /// Display name.
    pub name: String,
    /// Whether it must succeed for the strategy to be viable.
    pub is_critical: bool,
}

/// An endpoint as plain values: URL, name and criticality.
pub open spec fn ep(e: TestEndpoint) -> (Seq<char>, Seq<char>, bool) {
    (e.url@, e.name@, e.is_critical)
}

/// A list of endpoints as plain values.
pub open spec fn eps(s: Seq<TestEndpoint>) -> Seq<(Seq<char>, Seq<char>, bool)> {
    s.map_values(|e: TestEndpoint| ep(e))
}

/// A list of borrowed endpoints as plain values.
pub open spec fn ep_refs(s: Seq<&TestEndpoint>) -> Seq<(Seq<char>, Seq<char>, bool)> {
    s.map_values(|e: &TestEndpoint| ep(*e))
}

impl TestEndpoint {
    /// An endpoint with the given URL, name and criticality.
    pub fn new(url: &str, name: &str, is_critical: bool) -> (r: Self)
        ensures
            ep(r) == (url@, name@, is_critical),
    {
        TestEndpoint { url: owned(url), name: owned(name), is_critical }
    }

    /// A critical endpoint.
    pub fn critical(url: &str, name: &str) -> (r: Self)
        ensures
            ep(r) == (url@, name@, true),
    {
        Self::new(url, name, true)
    }

    /// An optional endpoint.
    pub fn optional(url: &str, name: &str) -> (r: Self)
        ensures
            ep(r) == (url@, name@, false),
    {
        Self::new(url, name, false)
    }
}

impl Clone for TestEndpoint {
    fn clone(&self) -> (r: Self)
        ensures
            r == *self,
    {
        TestEndpoint { url: self.url.clone(), name: self.name.clone(), is_critical: self.is_critical }
    }
}

/// The endpoints whose criticality is `critical`, in order.
pub open spec fn with_criticality(s: Seq<(Seq<char>, Seq<char>, bool)>, critical: bool) -> Seq<
    (Seq<char>, Seq<char>, bool),
>
    decreases s.len(),
{
    if s.len() == 0 {
        Seq::empty()
    } else if s.last().2 == critical {
        with_criticality(s.drop_last(), critical).push(s.last())
    } else {
        with_criticality(s.drop_last(), critical)
    }
}

/// The first endpoint whose lowercased name is `key`.
pub open spec fn find_named(s: Seq<(Seq<char>, Seq<char>, bool)>, key: Seq<char>) -> Option<
    (Seq<char>, Seq<char>, bool),
>
    decreases s.len(),
{
    if s.len() == 0 {
        None
    } else if lowercased(s[0].1) == key {
        Some(s[0])
    } else {
        find_named(s.drop_first(), key)
    }
}

/// The endpoints made from services: one for each service with a test URL,
/// named after the service and as critical as it.
pub open spec fn service_endpoints(ss: Seq<Service>) -> Seq<(Seq<char>, Seq<char>, bool)>
    decreases ss.len(),
{
    if ss.len() == 0 {
        Seq::empty()
    } else {
        let prev = service_endpoints(ss.drop_last());
        match test_url_of(ss.last()) {
            Some(u) => prev.push((u, ss.last().name@, ss.last().critical)),
            None => prev,
        }
    }
}

/// The endpoints of a new default registry.
pub open spec fn default_endpoints() -> Seq<(Seq<char>, Seq<char>, bool)> {
    seq![
        ("https://www.youtube.com/generate_204"@, "YouTube"@, true),
        ("https://discord.com/api/v10/gateway"@, "Discord"@, true),
        ("https://api.telegram.org/"@, "Telegram"@, false),
    ]
}

/// Every endpoint is either critical or optional: the two selections
/// together have as many endpoints as the registry, and each endpoint of a
/// selection has the selection's criticality.
pub proof fn lemma_critical_or_optional(s: Seq<(Seq<char>, Seq<char>, bool)>)
    ensures
        with_criticality(s, true).len() + with_criticality(s, false).len() == s.len(),
        forall|i: int| 0 <= i < with_criticality(s, true).len() ==> #[trigger] with_criticality(s, true)[i].2,
        forall|i: int| 0 <= i < with_criticality(s, false).len() ==> !#[trigger] with_criticality(s, false)[i].2,
    decreases s.len(),
{
    if s.len() > 0 {
        lemma_critical_or_optional(s.drop_last());
        let t = with_criticality(s.drop_last(), true);
        let f = with_criticality(s.drop_last(), false);
        assert forall|i: int| 0 <= i < with_criticality(s, true).len() implies #[trigger] with_criticality(s, true)[i].2 by {
            if i < t.len() {
                assert(t[i].2);
            }
        }
        assert forall|i: int| 0 <= i < with_criticality(s, false).len() implies !#[trigger] with_criticality(s, false)[i].2 by {
            if i < f.len() {
                assert(!f[i].2);
            }
        }
    }
}

/// A collection of test endpoints.
pub struct EndpointRegistry {
    endpoints: Vec<TestEndpoint>,
}

impl View for EndpointRegistry {
    type V = Seq<(Seq<char>, Seq<char>, bool)>;

    closed spec fn view(&self) -> Seq<(Seq<char>, Seq<char>, bool)> {
        eps(self.endpoints@)
    }
}

impl Default for EndpointRegistry {
    /// The registry of the endpoints of common blocked services.
    fn default() -> (r: Self)
        ensures
            r@ == default_endpoints(),
    {
        let r = EndpointRegistry {
            endpoints: vec![
                TestEndpoint::new("https://www.youtube.com/generate_204", "YouTube", true),
                TestEndpoint::new("https://discord.com/api/v10/gateway", "Discord", true),
                TestEndpoint::new("https://api.telegram.org/", "Telegram", false),
            ],
        };
        proof {
            assert(r@ =~= default_endpoints());
        }
        r
    }
}

fn filter_refs(v: &Vec<TestEndpoint>, critical: bool) -> (r: Vec<&TestEndpoint>)
    ensures
        ep_refs(r@) == with_criticality(eps(v@), critical),
{
    let ghost s = eps(v@);
    let mut r: Vec<&TestEndpoint> = Vec::new();
    let mut i: usize = 0;
    proof {
        assert(ep_refs(r@) =~= with_criticality(s.take(0), critical));
    }
    while i < v.len()
        invariant
            s == eps(v@),
            i <= v@.len(),
            ep_refs(r@) == with_criticality(s.take(i as int), critical),
        decreases v@.len() - i,
    {
        proof {
            assert(s.take(i as int + 1).drop_last() =~= s.take(i as int));
            assert(s.take(i as int + 1).last() == ep(v@[i as int]));
        }
        if v[i].is_critical == critical {
            let ghost before = r@;
            r.push(&v[i]);
            proof {
                assert(ep_refs(r@) =~= ep_refs(before).push(ep(v@[i as int])));
            }
        }
        i = i + 1;
    }
    proof {
        assert(s.take(i as int) =~= s);
    }
    r
}

impl EndpointRegistry {
    /// An empty registry.
    pub fn new() -> (r: Self)
        ensures
            r@ == Seq::<(Seq<char>, Seq<char>, bool)>::empty(),
    {
        let r = EndpointRegistry { endpoints: Vec::new() };
        proof {
            assert(r@ =~= Seq::<(Seq<char>, Seq<char>, bool)>::empty());
        }
        r
    }

    /// The endpoints of the services that have a test URL, in order.
    pub fn from_services(services: &[Service]) -> (r: Self)
        ensures
            r@ == service_endpoints(services@),
    {
        let mut endpoints: Vec<TestEndpoint> = Vec::new();
        let mut i: usize = 0;
        proof {
            assert(eps(endpoints@) =~= service_endpoints(services@.take(0)));
        }
        while i < services.len()
            invariant
                i <= services@.len(),
                eps(endpoints@) == service_endpoints(services@.take(i as int)),
            decreases services@.len() - i,
        {
            proof {
                assert(services@.take(i as int + 1).drop_last() =~= services@.take(i as int));
                assert(services@.take(i as int + 1).last() == services@[i as int]);
            }
            let s = &services[i];
            match s.get_test_url() {
                Some(url) => {
                    let ghost before = endpoints@;
                    endpoints.push(TestEndpoint { url, name: s.name.clone(), is_critical: s.critical });
                    proof {
                        assert(eps(endpoints@) =~= eps(before).push(ep(endpoints@.last())));
                    }
                },
                None => {},
            }
            i = i + 1;
        }
        proof {
            assert(services@.take(i as int) =~= services@);
        }
        EndpointRegistry { endpoints }
    }

    /// All endpoints, in order.
    pub fn get_all(&self) -> (r: &[TestEndpoint])
        ensures
            eps(r@) == self@,
    {
        self.endpoints.as_slice()
    }

    /// The critical endpoints, in order.
    pub fn get_critical(&self) -> (r: Vec<&TestEndpoint>)
        ensures
            ep_refs(r@) == with_criticality(self@, true),
    {
        filter_refs(&self.endpoints, true)
    }

    /// The optional endpoints, in order.
    pub fn get_optional(&self) -> (r: Vec<&TestEndpoint>)
        ensures
            ep_refs(r@) == with_criticality(self@, false),
    {
        filter_refs(&self.endpoints, false)
    }

    /// Adds an endpoint at the end.
    pub fn add(&mut self, endpoint: TestEndpoint)
        ensures
            final(self)@ == old(self)@.push(ep(endpoint)),
    {
        let ghost before = self.endpoints@;
        let ghost e = ep(endpoint);
        self.endpoints.push(endpoint);
        proof {
            assert(eps(self.endpoints@) =~= eps(before).push(e));
        }
    }

    /// Adds endpoints at the end, in order.
    pub fn add_all(&mut self, endpoints: Vec<TestEndpoint>)
        ensures
            final(self)@ == old(self)@ + eps(endpoints@),
    {
        let ghost before = self.endpoints@;
        let ghost added = endpoints@;
        let mut endpoints = endpoints;
        self.endpoints.append(&mut endpoints);
        proof {
            assert(eps(self.endpoints@) =~= eps(before) + eps(added));
        }
    }

    /// Removes every endpoint.
    pub fn clear(&mut self)
        ensures
            final(self)@ == Seq::<(Seq<char>, Seq<char>, bool)>::empty(),
    {
        self.endpoints.clear();
        proof {
            assert(eps(self.endpoints@) =~= Seq::<(Seq<char>, Seq<char>, bool)>::empty());
        }
    }

    /// Whether the registry has no endpoint.
    pub fn is_empty(&self) -> (r: bool)
        ensures
            r == (self@.len() == 0),
    {
        self.endpoints.len() == 0
    }

    /// The number of endpoints.
    pub fn len(&self) -> (r: usize)
        ensures
            r == self@.len(),
    {
        self.endpoints.len()
    }

    /// The number of critical endpoints.
    pub fn critical_count(&self) -> (r: usize)
        ensures
            r == with_criticality(self@, true).len(),
    {
        let ghost s = self@;
        let mut n: usize = 0;
        let mut i: usize = 0;
        proof {
            assert(s.take(0) =~= Seq::<(Seq<char>, Seq<char>, bool)>::empty());
        }
        while i < self.endpoints.len()
            invariant
                s == self@,
                s.len() == self.endpoints@.len(),
                i <= s.len(),
                n == with_criticality(s.take(i as int), true).len(),
                n <= i,
            decreases s.len() - i,
        {
            proof {
                assert(s.take(i as int + 1).drop_last() =~= s.take(i as int));
                assert(s.take(i as int + 1).last() == ep(self.endpoints@[i as int]));
            }
            if self.endpoints[i].is_critical {
                n = n + 1;
            }
            i = i + 1;
        }
        proof {
            assert(s.take(i as int) =~= s);
        }
        n
    }

    /// The first endpoint with the given name, compared case-insensitively
    /// (both names lowercased).
    pub fn find_by_name(&self, name: &str) -> (r: Option<&TestEndpoint>)
        ensures
            match r {
                Some(e) => find_named(self@, lowercased(name@)) == Some(ep(*e)),
                None => find_named(self@, lowercased(name@)) is None,
            },
    {
        let key = to_lowercase(name);
        let ghost s = self@;
        let mut i: usize = 0;
        proof {
            assert(s.skip(0) =~= s);
        }
        while i < self.endpoints.len()
            invariant
                s == self@,
                s.len() == self.endpoints@.len(),
                i <= s.len(),
                key@ == lowercased(name@),
                find_named(s, key@) == find_named(s.skip(i as int), key@),
            decreases s.len() - i,
        {
            proof {
                assert(s.skip(i as int)[0] == ep(self.endpoints@[i as int]));
                assert(s.skip(i as int).drop_first() =~= s.skip(i as int + 1));
            }
            let lower = to_lowercase(self.endpoints[i].name.as_str());
            if str_eq(lower.as_str(), key.as_str()) {
                return Some(&self.endpoints[i]);
            }
            i = i + 1;
        }
        None
    }

    /// Adds copies of the other registry's endpoints at the end.
    pub fn merge(&mut self, other: &EndpointRegistry)
        ensures
            final(self)@ == old(self)@ + other@,
    {
        let ghost before = self@;
        let mut i: usize = 0;
        proof {
            assert(before + other@.take(0) =~= before);
        }
        while i < other.endpoints.len()
            invariant
                i <= other@.len(),
                other@.len() == other.endpoints@.len(),
                self@ == before + other@.take(i as int),
            decreases other@.len() - i,
        {
            let e = other.endpoints[i].clone();
            self.add(e);
            proof {
                assert(other@[i as int] == ep(other.endpoints@[i as int]));
                assert(other@.take(i as int + 1) =~= other@.take(i as int).push(other@[i as int]));
                assert(before + other@.take(i as int + 1) =~= (before + other@.take(i as int)).push(
                    other@[i as int],
                ));
            }
            i = i + 1;
        }
        proof {
            assert(other@.take(i as int) =~= other@);
        }
    }
}

} // verus!
