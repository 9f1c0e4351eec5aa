//! Health of the adapter: components register providers of their status, and the overall
//! status is derived from all of them.
use vstd::prelude::*;
use crate::error::push_text;
use crate::text::str_eq;

verus! {

/// Errors of the health registry.
#[derive(Debug, Clone, PartialEq, Eq)]
pub enum HealthError {
    ProviderAlreadyExists(String),
}

impl HealthError {
    /// The message of the error.
    pub fn to_string(&self) -> (r: String)
        ensures
            match self {
                HealthError::ProviderAlreadyExists(n) => r@ == "Provider "@ + n@ + " already exists"@,
            },
    {
        let mut s = String::new();
        match self {
            HealthError::ProviderAlreadyExists(n) => {
                push_text(&mut s, "Provider ");
                push_text(&mut s, n.as_str());
                push_text(&mut s, " already exists");
            },
        }
        s
    }
}

/// Health status of a component or of the whole adapter.
#[derive(Clone, Copy, Debug, PartialEq, Eq, Structural)]
pub enum Status {
    Up,
    Starting,
    Pending,
    Failed,
}

/// A component that reports its health when asked.
pub trait HealthProvider {
    /// The current health status of the component.
    fn check_health(&self) -> Status;
}

/// A provider that reports the last status it was given; for components that initialise
/// once.
#[derive(Debug, Clone, Copy)]
pub struct StatusHealthProvider {
    status: Status,
}

impl StatusHealthProvider {
    /// The status the provider reports.
    pub closed spec fn reported(self) -> Status {
        self.status
    }

    /// A provider reporting `initial_status`.
    pub fn new(initial_status: Status) -> (r: Self)
        ensures
            r.reported() == initial_status,
    {
        StatusHealthProvider { status: initial_status }
    }

    /// Makes the provider report `status` from now on.
    pub fn update_status(&mut self, status: Status)
        ensures
            final(self).reported() == status,
    {
        self.status = status;
    }

    /// The status the provider was last given.
    pub fn status(&self) -> (r: Status)
        ensures
            r == self.reported(),
    {
        self.status
    }
}

impl HealthProvider for StatusHealthProvider {
    fn check_health(&self) -> (r: Status)
        ensures
            r == self.reported(),
    {
        self.status
    }
}

/// The overall status of components with statuses `s`: up when all are up (also when there
/// are none), else failed when any failed, else starting.
pub open spec fn overall_status_of(s: Seq<Status>) -> Status {
    if forall|i: int| 0 <= i < s.len() ==> #[trigger] s[i] == Status::Up {
        Status::Up
    } else if exists|i: int| 0 <= i < s.len() && #[trigger] s[i] == Status::Failed {
        Status::Failed
    } else {
        Status::Starting
    }
}

/// The overall status of components with the given statuses: up when all are up (also when
/// there are none), else failed when any failed, else starting.
pub fn overall_status(states: &[Status]) -> (r: Status)
    ensures
        r == overall_status_of(states@),
{
    let mut all_up = true;
    let mut any_failed = false;
    let mut i: usize = 0;
    while i < states.len()
        invariant
            i <= states@.len(),
            all_up == (forall|j: int| 0 <= j < i ==> #[trigger] states@[j] == Status::Up),
            any_failed == (exists|j: int| 0 <= j < i && #[trigger] states@[j] == Status::Failed),
        decreases states@.len() - i,
    {
        let s = states[i];
        if !(s == Status::Up) {
            all_up = false;
        }
        if s == Status::Failed {
            any_failed = true;
        }
        i = i + 1;
    }
    if all_up {
        Status::Up
    } else if any_failed {
        Status::Failed
    } else {
        Status::Starting
    }
}

/// Health of one component.
#[derive(Debug, Clone, PartialEq, Eq)]
pub struct ComponentHealth {
    pub name: String,
    pub status: Status,
}

/// The names of the components of `cs`.
pub open spec fn component_names(cs: Seq<ComponentHealth>) -> Seq<Seq<char>> {
    Seq::new(cs.len(), |i: int| cs[i].name@)
}

/// The statuses of the components of `cs`.
pub open spec fn component_statuses(cs: Seq<ComponentHealth>) -> Seq<Status> {
    Seq::new(cs.len(), |i: int| cs[i].status)
}

/// The health response: the overall status, the adapter version and each component.
#[derive(Debug, Clone)]
pub struct HealthResponse {
    pub status: Status,
    pub version: String,
    pub components: Vec<ComponentHealth>,
}

/// Whether `r` is the health response of version `version` for components named `names`
/// that reported `statuses`, position by position: each component with its name and status,
/// in that order, and the overall status of those statuses.
pub open spec fn response_for(
    r: HealthResponse,
    version: Seq<char>,
    names: Seq<Seq<char>>,
    statuses: Seq<Status>,
) -> bool {
    &&& r.version@ == version
    &&& component_names(r.components@) == names
    &&& component_statuses(r.components@) == statuses
    &&& r.status == overall_status_of(statuses)
}

/// The components named `names` with the statuses `statuses`, position by position.
pub fn components_of(names: &Vec<String>, statuses: &Vec<Status>) -> (r: Vec<ComponentHealth>)
    requires
        names@.len() == statuses@.len(),
    ensures
        r@.len() == names@.len(),
        forall|i: int|
            0 <= i < r@.len() ==> (#[trigger] r@[i]).name@ == names@[i]@ && r@[i].status
                == statuses@[i],
        component_names(r@) == Seq::new(names@.len(), |i: int| names@[i]@),
        component_statuses(r@) == statuses@,
{
    let mut r: Vec<ComponentHealth> = Vec::new();
    let mut i: usize = 0;
    while i < names.len()
        invariant
            i <= names@.len(),
            names@.len() == statuses@.len(),
            r@.len() == i,
            forall|k: int|
                0 <= k < i ==> (#[trigger] r@[k]).name@ == names@[k]@ && r@[k].status
                    == statuses@[k],
        decreases names@.len() - i,
    {
        let name = names[i].clone();
        r.push(ComponentHealth { name, status: statuses[i] });
        i = i + 1;
    }
    assert(component_names(r@) =~= Seq::new(names@.len(), |i: int| names@[i]@));
    assert(component_statuses(r@) =~= statuses@);
    r
}

/// The health response of version `version` for the components named `names` that reported
/// `statuses`: the overall status of the statuses, the version, and each component with its
/// name and status.
pub fn response_of(version: &String, names: &Vec<String>, statuses: &Vec<Status>) -> (r:
    HealthResponse)
    requires
        names@.len() == statuses@.len(),
    ensures
        response_for(r, version@, Seq::new(names@.len(), |i: int| names@[i]@), statuses@),
{
    let components = components_of(names, statuses);
    let status = overall_status(statuses.as_slice());
    HealthResponse { status, version: version.clone(), components }
}

/// The registered providers of the adapter, by component name, and the adapter version.
pub struct HealthState<P: HealthProvider> {
    providers: Vec<(String, P)>,
    version: String,
}

/// Whether no name occurs twice in `names`.
pub open spec fn names_distinct(names: Seq<Seq<char>>) -> bool {
    forall|i: int, j: int| 0 <= i < j < names.len() ==> names[i] != names[j]
}

/// Whether `status` is a status that `provider` may report when asked.
pub open spec fn may_report<P: HealthProvider>(provider: P, status: Status) -> bool {
    call_ensures(P::check_health, (&provider,), status)
}

impl<P: HealthProvider> HealthState<P> {
    /// The names of the registered components, in registration order.
    pub closed spec fn names(&self) -> Seq<Seq<char>> {
        Seq::new(self.providers@.len(), |i: int| self.providers@[i].0@)
    }

    /// The provider registered under each name, in the order of [`Self::names`].
    pub closed spec fn providers(&self) -> Seq<P> {
        Seq::new(self.providers@.len(), |i: int| self.providers@[i].1)
    }

    /// The version the adapter reports.
    pub closed spec fn version_text(&self) -> Seq<char> {
        self.version@
    }

    /// As many providers as names are registered.
    pub proof fn lemma_providers_len(&self)
        ensures
            self.providers().len() == self.names().len(),
    {
    }

    /// A registry that no component registered with yet.
    pub fn new(version: String) -> (r: Self)
        ensures
            r.names() == Seq::<Seq<char>>::empty(),
            r.providers() == Seq::<P>::empty(),
            r.version_text() == version@,
    {
        let r = HealthState { providers: Vec::new(), version };
        assert(r.names() =~= Seq::<Seq<char>>::empty());
        assert(r.providers() =~= Seq::<P>::empty());
        r
    }

    /// Whether a component named `name` registered.
    pub fn contains(&self, name: &str) -> (r: bool)
        ensures
            r == self.names().contains(name@),
    {
        let mut i: usize = 0;
        while i < self.providers.len()
            invariant
                i <= self.providers@.len(),
                forall|j: int| 0 <= j < i ==> self.providers@[j].0@ != name@,
            decreases self.providers@.len() - i,
        {
            if str_eq(self.providers[i].0.as_str(), name) {
                assert(self.names()[i as int] == name@);
                return true;
            }
            i = i + 1;
        }
        proof {
            if self.names().contains(name@) {
                let k = choose|k: int| 0 <= k < self.names().len() && self.names()[k] == name@;
                assert(self.providers@[k].0@ == name@);
            }
        }
        false
    }

    /// Registers `provider` as the provider of component `name`; fails when a provider of that
    /// name is registered already, and leaves the registry unchanged then.
    pub fn register_provider(&mut self, name: String, provider: P) -> (r: Result<(), HealthError>)
        requires
            names_distinct(old(self).names()),
        ensures
            names_distinct(final(self).names()),
            final(self).version_text() == old(self).version_text(),
            old(self).names().contains(name@) ==> r == Err::<(), HealthError>(
                HealthError::ProviderAlreadyExists(name),
            ) && final(self).names() == old(self).names() && final(self).providers() == old(
                self,
            ).providers(),
            !old(self).names().contains(name@) ==> r is Ok && final(self).names() == old(
                self,
            ).names().push(name@) && final(self).providers() == old(self).providers().push(
                provider,
            ),
    {
        if self.contains(name.as_str()) {
            return Err(HealthError::ProviderAlreadyExists(name));
        }
        let ghost before = self.names();
        let ghost before_providers = self.providers();
        let ghost given = provider;
        self.providers.push((name, provider));
        proof {
            assert(self.names() =~= before.push(name@));
            assert(self.providers() =~= before_providers.push(given));
        }
        Ok(())
    }

    /// The registered names, in registration order.
    fn registered_names(&self) -> (r: Vec<String>)
        ensures
            r@.len() == self.names().len(),
            Seq::new(r@.len(), |i: int| r@[i]@) == self.names(),
    {
        let mut r: Vec<String> = Vec::new();
        let mut i: usize = 0;
        while i < self.providers.len()
            invariant
                i <= self.providers@.len(),
                r@.len() == i,
                forall|k: int| 0 <= k < i ==> (#[trigger] r@[k])@ == self.providers@[k].0@,
            decreases self.providers@.len() - i,
        {
            r.push(self.providers[i].0.clone());
            i = i + 1;
        }
        assert(Seq::new(r@.len(), |i: int| r@[i]@) =~= self.names());
        r
    }

    /// The status that each registered provider reports when asked now, in registration order.
    fn reported_statuses(&self) -> (r: Vec<Status>)
        ensures
            r@.len() == self.providers().len(),
            forall|i: int| 0 <= i < r@.len() ==> may_report(self.providers()[i], #[trigger] r@[i]),
    {
        let mut r: Vec<Status> = Vec::new();
        let mut i: usize = 0;
        while i < self.providers.len()
            invariant
                i <= self.providers@.len(),
                r@.len() == i,
                forall|k: int|
                    0 <= k < i ==> may_report(self.providers@[k].1, #[trigger] r@[k]),
            decreases self.providers@.len() - i,
        {
            let status = self.providers[i].1.check_health();
            r.push(status);
            i = i + 1;
        }
        r
    }

    /// The status of each registered component, in registration order, as its provider
    /// reports it now.
    pub fn query_all_providers(&self) -> (r: Vec<ComponentHealth>)
        ensures
            component_names(r@) == self.names(),
            r@.len() == self.providers().len(),
            forall|i: int|
                0 <= i < r@.len() ==> may_report(self.providers()[i], (#[trigger] r@[i]).status),
    {
        let names = self.registered_names();
        let statuses = self.reported_statuses();
        components_of(&names, &statuses)
    }

    /// The health response: the version, each registered component with the status its
    /// provider reports now, in registration order, and the overall status of those statuses.
    pub fn health_response(&self) -> (r: HealthResponse)
        ensures
            response_for(r, self.version_text(), self.names(), component_statuses(r.components@)),
            r.components@.len() == self.providers().len(),
            forall|i: int|
                0 <= i < r.components@.len() ==> may_report(
                    self.providers()[i],
                    (#[trigger] r.components@[i]).status,
                ),
    {
        let names = self.registered_names();
        let statuses = self.reported_statuses();
        let r = response_of(&self.version, &names, &statuses);
        assert forall|i: int| 0 <= i < r.components@.len() implies may_report(
            self.providers()[i],
            (#[trigger] r.components@[i]).status,
        ) by {
            assert(component_statuses(r.components@)[i] == statuses@[i]);
        }
        r
    }
}

/// A provider that reports a fixed status reports exactly that status.
pub proof fn law_status_provider_reports(provider: StatusHealthProvider, status: Status)
    requires
        may_report(provider, status),
    ensures
        status == provider.reported(),
{
}

} // verus!
