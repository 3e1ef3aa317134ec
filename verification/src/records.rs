//! Typed records for the remote API's entities and services, and the derived
//! queries on them: the friendly display name of an entity and the flattened
//! target-domain list of a service.
//!
//! Attribute values arrive as arbitrary JSON. The client only ever asks two
//! things of such a value: whether it is a JSON string (and then which one),
//! and what text it renders to. `AttrValue` carries exactly that.

use vstd::prelude::*;

verus! {

/// One entity attribute value: a JSON string keeps its character content,
/// any other JSON value is carried as the text it renders to.
#[derive(Debug, Clone)]
pub enum AttrValue {
    Text(String),
    Other(String),
}

/// A snapshot of one entity's state, as returned by the server.
#[derive(Debug, Clone)]
pub struct StateDto {
    pub attributes: Vec<(String, AttrValue)>,
    pub entity_id: String,
    pub last_changed: String,
    pub state: String,
}

/// Metadata of one field a service accepts.
#[derive(Debug, Clone)]
pub struct ServiceFieldDto {
    pub name: Option<String>,
    pub description: Option<String>,
    pub default: Option<AttrValue>,
}

/// One entry of a service's target specification: the entity domains and
/// supported-feature masks it applies to.
#[derive(Debug, Clone)]
pub struct ServiceTargetEntityDto {
    pub domain: Option<Vec<String>>,
    pub supported_features: Option<Vec<u32>>,
}

/// A service's target specification.
#[derive(Debug, Clone)]
pub struct ServiceTargetDto {
    pub entity: Option<Vec<ServiceTargetEntityDto>>,
}

/// A remotely invocable service.
#[derive(Debug, Clone)]
pub struct ServiceDto {
    pub name: String,
    pub description: Option<String>,
    pub fields: Vec<(String, ServiceFieldDto)>,
    pub target: Option<ServiceTargetDto>,
}

/// One domain together with its services, as one element of the service
/// listing the server returns.
#[derive(Debug, Clone)]
pub struct ServiceDomainDto {
    pub domain: String,
    pub services: Vec<(String, ServiceDto)>,
}

/// The value stored under `key` in an attribute list: the first pair whose
/// key reads as `key`, if any.
pub open spec fn attr_lookup(attrs: Seq<(String, AttrValue)>, key: Seq<char>) -> Option<AttrValue>
    decreases attrs.len(),
{
    if attrs.len() == 0 {
        None
    } else if attrs[0].0@ == key {
        Some(attrs[0].1)
    } else {
        attr_lookup(attrs.drop_first(), key)
    }
}

/// The friendly name of an entity: the `friendly_name` attribute, provided it
/// is present and holds a JSON string.
pub open spec fn friendly_name_of(e: StateDto) -> Option<Seq<char>> {
    match attr_lookup(e.attributes@, "friendly_name"@) {
        Some(AttrValue::Text(t)) => Some(t@),
        _ => None,
    }
}

/// The name an entity is displayed under: its friendly name, or failing that
/// its identifier.
pub open spec fn display_name_of(e: StateDto) -> Seq<char> {
    match friendly_name_of(e) {
        Some(n) => n,
        None => e.entity_id@,
    }
}

/// What one target-specification entry contributes to the flattened domain
/// list: its domains in order, or nothing when it names none.
pub open spec fn entity_domain_contrib(e: ServiceTargetEntityDto) -> Seq<Seq<char>> {
    match e.domain {
        Some(d) => d.deep_view(),
        None => Seq::empty(),
    }
}

/// The flattened domain lists of a sequence of target-specification entries,
/// in order.
pub open spec fn flatten_target_domains(ents: Seq<ServiceTargetEntityDto>) -> Seq<Seq<char>>
    decreases ents.len(),
{
    if ents.len() == 0 {
        Seq::empty()
    } else {
        flatten_target_domains(ents.drop_last()) + entity_domain_contrib(ents.last())
    }
}

/// The target entity domains a service declares: absent when the service has
/// no target specification (or one without an entity list), which permits any
/// entity as a call target.
pub open spec fn target_domains_of(s: ServiceDto) -> Option<Seq<Seq<char>>> {
    match s.target {
        Some(t) => match t.entity {
            Some(ents) => Some(flatten_target_domains(ents@)),
            None => None,
        },
        None => None,
    }
}

/// The first domain group named `id`, if any.
pub open spec fn domain_lookup(ds: Seq<ServiceDomainDto>, id: Seq<char>) -> Option<
    ServiceDomainDto,
>
    decreases ds.len(),
{
    if ds.len() == 0 {
        None
    } else if ds[0].domain@ == id {
        Some(ds[0])
    } else {
        domain_lookup(ds.drop_first(), id)
    }
}

/// The first service stored under `id`, if any.
pub open spec fn service_lookup(svcs: Seq<(String, ServiceDto)>, id: Seq<char>) -> Option<
    ServiceDto,
>
    decreases svcs.len(),
{
    if svcs.len() == 0 {
        None
    } else if svcs[0].0@ == id {
        Some(svcs[0].1)
    } else {
        service_lookup(svcs.drop_first(), id)
    }
}

/// Finds the first domain group named `id`.
pub fn find_domain<'a>(ds: &'a Vec<ServiceDomainDto>, id: &str) -> (r: Option<
    &'a ServiceDomainDto,
>)
    ensures
        match r {
            Some(d) => domain_lookup(ds@, id@) == Some(*d),
            None => domain_lookup(ds@, id@) is None,
        },
{
    let key = String::from_str(id);
    let n = ds.len();
    let mut i: usize = 0;
    proof {
        assert(ds@.subrange(0, n as int) =~= ds@);
    }
    while i < n
        invariant
            i <= n,
            n == ds@.len(),
            key@ == id@,
            domain_lookup(ds@, id@) == domain_lookup(ds@.subrange(i as int, n as int), id@),
        decreases n - i,
    {
        if ds[i].domain == key {
            return Some(&ds[i]);
        }
        proof {
            assert(ds@.subrange(i as int, n as int).drop_first() =~= ds@.subrange(
                i as int + 1,
                n as int,
            ));
        }
        i = i + 1;
    }
    None
}

/// Finds the first service stored under `id`.
pub fn find_service<'a>(svcs: &'a Vec<(String, ServiceDto)>, id: &str) -> (r: Option<
    &'a ServiceDto,
>)
    ensures
        match r {
            Some(s) => service_lookup(svcs@, id@) == Some(*s),
            None => service_lookup(svcs@, id@) is None,
        },
{
    let key = String::from_str(id);
    let n = svcs.len();
    let mut i: usize = 0;
    proof {
        assert(svcs@.subrange(0, n as int) =~= svcs@);
    }
    while i < n
        invariant
            i <= n,
            n == svcs@.len(),
            key@ == id@,
            service_lookup(svcs@, id@) == service_lookup(svcs@.subrange(i as int, n as int), id@),
        decreases n - i,
    {
        if svcs[i].0 == key {
            return Some(&svcs[i].1);
        }
        proof {
            assert(svcs@.subrange(i as int, n as int).drop_first() =~= svcs@.subrange(
                i as int + 1,
                n as int,
            ));
        }
        i = i + 1;
    }
    None
}

/// The domain names of a service listing, in order.
pub open spec fn domain_names(ds: Seq<ServiceDomainDto>) -> Seq<Seq<char>> {
    ds.map_values(|d: ServiceDomainDto| d.domain@)
}

/// The service identifiers of one domain group, in order.
pub open spec fn service_ids_of(svcs: Seq<(String, ServiceDto)>) -> Seq<Seq<char>> {
    svcs.map_values(|p: (String, ServiceDto)| p.0@)
}

/// The entity identifiers of a state listing, in order.
pub open spec fn entity_ids_of(states: Seq<StateDto>) -> Seq<Seq<char>> {
    states.map_values(|e: StateDto| e.entity_id@)
}

/// Collects the domain names of a service listing, in order.
pub fn domain_ids(ds: &Vec<ServiceDomainDto>) -> (r: Vec<String>)
    ensures
        r.deep_view() == domain_names(ds@),
{
    let mut out: Vec<String> = Vec::new();
    let n = ds.len();
    let mut i: usize = 0;
    proof {
        assert(out.deep_view() =~= domain_names(ds@.take(0)));
    }
    while i < n
        invariant
            i <= n,
            n == ds@.len(),
            out.deep_view() == domain_names(ds@.take(i as int)),
        decreases n - i,
    {
        let ghost prev = out.deep_view();
        out.push(ds[i].domain.clone());
        proof {
            assert(out.deep_view() =~= prev.push(ds@[i as int].domain@));
            assert(out.deep_view() =~= domain_names(ds@.take(i as int + 1)));
        }
        i = i + 1;
    }
    proof {
        assert(ds@.take(n as int) =~= ds@);
    }
    out
}

/// Collects the service identifiers of one domain group, in order.
pub fn service_ids(svcs: &Vec<(String, ServiceDto)>) -> (r: Vec<String>)
    ensures
        r.deep_view() == service_ids_of(svcs@),
{
    let mut out: Vec<String> = Vec::new();
    let n = svcs.len();
    let mut i: usize = 0;
    proof {
        assert(out.deep_view() =~= service_ids_of(svcs@.take(0)));
    }
    while i < n
        invariant
            i <= n,
            n == svcs@.len(),
            out.deep_view() == service_ids_of(svcs@.take(i as int)),
        decreases n - i,
    {
        let ghost prev = out.deep_view();
        out.push(svcs[i].0.clone());
        proof {
            assert(out.deep_view() =~= prev.push(svcs@[i as int].0@));
            assert(out.deep_view() =~= service_ids_of(svcs@.take(i as int + 1)));
        }
        i = i + 1;
    }
    proof {
        assert(svcs@.take(n as int) =~= svcs@);
    }
    out
}

/// Collects the entity identifiers of a state listing, in order.
pub fn entity_ids(states: &Vec<StateDto>) -> (r: Vec<String>)
    ensures
        r.deep_view() == entity_ids_of(states@),
{
    let mut out: Vec<String> = Vec::new();
    let n = states.len();
    let mut i: usize = 0;
    proof {
        assert(out.deep_view() =~= entity_ids_of(states@.take(0)));
    }
    while i < n
        invariant
            i <= n,
            n == states@.len(),
            out.deep_view() == entity_ids_of(states@.take(i as int)),
        decreases n - i,
    {
        let ghost prev = out.deep_view();
        out.push(states[i].entity_id.clone());
        proof {
            assert(out.deep_view() =~= prev.push(states@[i as int].entity_id@));
            assert(out.deep_view() =~= entity_ids_of(states@.take(i as int + 1)));
        }
        i = i + 1;
    }
    proof {
        assert(states@.take(n as int) =~= states@);
    }
    out
}

impl StateDto {
    /// The `friendly_name` attribute, when it is present and string-valued.
    pub fn friendly_name(&self) -> (r: Option<String>)
        ensures
            match r {
                Some(n) => friendly_name_of(*self) == Some(n@),
                None => friendly_name_of(*self) is None,
            },
    {
        let key = String::from_str("friendly_name");
        let n = self.attributes.len();
        let mut i: usize = 0;
        proof {
            assert(self.attributes@.subrange(0, n as int) =~= self.attributes@);
        }
        while i < n
            invariant
                i <= n,
                n == self.attributes@.len(),
                key@ == "friendly_name"@,
                attr_lookup(self.attributes@, "friendly_name"@) == attr_lookup(
                    self.attributes@.subrange(i as int, n as int),
                    "friendly_name"@,
                ),
            decreases n - i,
        {
            let pair = &self.attributes[i];
            if pair.0 == key {
                match &pair.1 {
                    AttrValue::Text(t) => {
                        return Some(t.clone());
                    },
                    AttrValue::Other(_) => {
                        return None;
                    },
                }
            }
            proof {
                assert(self.attributes@.subrange(i as int, n as int).drop_first()
                    =~= self.attributes@.subrange(i as int + 1, n as int));
            }
            i = i + 1;
        }
        None
    }

    /// The name this entity is displayed under: the friendly name when there
    /// is one, the identifier otherwise.
    pub fn name(&self) -> (r: String)
        ensures
            r@ == display_name_of(*self),
    {
        match self.friendly_name() {
            Some(n) => n,
            None => self.entity_id.clone(),
        }
    }
}

impl ServiceDto {
    /// The flattened list of target entity domains, or `None` when the
    /// service declares no target-entity constraint.
    pub fn get_target_entity_domains(&self) -> (r: Option<Vec<String>>)
        ensures
            match r {
                Some(v) => target_domains_of(*self) == Some(v.deep_view()),
                None => target_domains_of(*self) is None,
            },
    {
        match &self.target {
            None => None,
            Some(t) => match &t.entity {
                None => None,
                Some(ents) => {
                    let mut out: Vec<String> = Vec::new();
                    let n = ents.len();
                    let mut i: usize = 0;
                    proof {
                        assert(out.deep_view() =~= flatten_target_domains(ents@.take(0)));
                    }
                    while i < n
                        invariant
                            i <= n,
                            n == ents@.len(),
                            out.deep_view() == flatten_target_domains(ents@.take(i as int)),
                        decreases n - i,
                    {
                        match &ents[i].domain {
                            Some(d) => {
                                let m = d.len();
                                let mut j: usize = 0;
                                while j < m
                                    invariant
                                        j <= m,
                                        m == d@.len(),
                                        i < n,
                                        n == ents@.len(),
                                        d == ents@[i as int].domain->Some_0,
                                        out.deep_view() == flatten_target_domains(
                                            ents@.take(i as int),
                                        ) + d.deep_view().take(j as int),
                                    decreases m - j,
                                {
                                    let ghost prev = out.deep_view();
                                    out.push(d[j].clone());
                                    proof {
                                        assert(out.deep_view() =~= prev.push(d@[j as int]@));
                                        assert(d.deep_view().take(j as int + 1) =~= d.deep_view()
                                            .take(j as int).push(d@[j as int]@));
                                        assert(out.deep_view() =~= flatten_target_domains(
                                            ents@.take(i as int),
                                        ) + d.deep_view().take(j as int + 1));
                                    }
                                    j = j + 1;
                                }
                                proof {
                                    assert(d.deep_view().take(m as int) =~= d.deep_view());
                                    assert(entity_domain_contrib(ents@[i as int])
                                        == d.deep_view());
                                }
                            },
                            None => {
                                proof {
                                    assert(entity_domain_contrib(ents@[i as int])
                                        =~= Seq::<Seq<char>>::empty());
                                    assert(out.deep_view() =~= flatten_target_domains(
                                        ents@.take(i as int),
                                    ) + entity_domain_contrib(ents@[i as int]));
                                }
                            },
                        }
                        proof {
                            assert(ents@.take(i as int + 1).drop_last() =~= ents@.take(i as int));
                            assert(ents@.take(i as int + 1).last() == ents@[i as int]);
                            assert(out.deep_view() == flatten_target_domains(
                                ents@.take(i as int + 1),
                            ));
                        }
                        i = i + 1;
                    }
                    proof {
                        assert(ents@.take(n as int) =~= ents@);
                    }
                    Some(out)
                },
            },
        }
    }
}

} // verus!
