//! A service of a planned deployment.
use crate::alias::{comparison_form, normalize_for_comparison};
use crate::text::str_eq;
use vstd::prelude::*;

verus! {

/// One service found on disk, with everything that the writers of artifacts need.
///
/// A deployment runs as discover, validate, generate: the whole plan is built and checked
/// before any artifact is touched, so a rejected configuration leaves the previous
/// deployment intact.
#[derive(Debug, Clone, PartialEq, Eq)]
pub struct PlannedService {
    pub domain: String,
    pub group: String,
    pub service: String,
    pub connection_type: String,
    pub proxy_port: u16,
    pub debug_port: u16,
    pub canonical_hostname: String,
    /// Raw configured values until validation replaces them with normalized, distinct
    /// hostnames.
    pub aliases: Vec<String>,
}

/// What a planned service is.
pub struct PlannedView {
    pub domain: Seq<char>,
    pub group: Seq<char>,
    pub service: Seq<char>,
    pub connection_type: Seq<char>,
    pub proxy_port: u16,
    pub debug_port: u16,
    pub canonical_hostname: Seq<char>,
    pub aliases: Seq<Seq<char>>,
}

impl DeepView for PlannedService {
    type V = PlannedView;

    open spec fn deep_view(&self) -> PlannedView {
        PlannedView {
            domain: self.domain@,
            group: self.group@,
            service: self.service@,
            connection_type: self.connection_type@,
            proxy_port: self.proxy_port,
            debug_port: self.debug_port,
            canonical_hostname: self.canonical_hostname@,
            aliases: self.aliases.deep_view(),
        }
    }
}

impl PlannedView {
    /// `domain/group/service`.
    pub open spec fn label(self) -> Seq<char> {
        self.domain + "/"@ + self.group + "/"@ + self.service
    }

    /// nginx routes the service by hostname.
    pub open spec fn is_host_routed(self) -> bool {
        self.connection_type != "tcp"@
    }

    /// The canonical hostname in the form for comparison.
    pub open spec fn canonical_key(self) -> Seq<char> {
        comparison_form(self.canonical_hostname)
    }

    /// Every hostname that reaches the service: the canonical one first, then the aliases
    /// in the configured order.
    pub open spec fn hostnames(self) -> Seq<Seq<char>> {
        seq![self.canonical_hostname] + self.aliases
    }
}

impl PlannedService {
    /// `domain/group/service`: what every error and warning calls the service (`.` for the
    /// root group).
    pub fn label(&self) -> (r: String)
        ensures
            r@ == self.deep_view().label(),
    {
        let mut label = self.domain.clone();
        label.append("/");
        label.append(self.group.as_str());
        label.append("/");
        label.append(self.service.as_str());
        label
    }

    /// Does nginx route this service by hostname? TCP services get no vhost, since nginx
    /// cannot route plain TCP by name, so they take no part in hostname collisions.
    pub fn is_host_routed(&self) -> (r: bool)
        ensures
            r == self.deep_view().is_host_routed(),
    {
        !str_eq(self.connection_type.as_str(), "tcp")
    }

    /// The canonical hostname in the form for comparison. Folder names are not validated
    /// as hostnames, so only case and a trailing dot are normalized.
    pub(crate) fn canonical_key(&self) -> (r: String)
        ensures
            r@ == self.deep_view().canonical_key(),
    {
        normalize_for_comparison(self.canonical_hostname.as_str())
    }

    /// Every hostname that reaches the service: the canonical one first, then the aliases
    /// in the configured order.
    pub(crate) fn hostnames(&self) -> (r: Vec<String>)
        ensures
            r.deep_view() == self.deep_view().hostnames(),
    {
        let mut names: Vec<String> = Vec::new();
        names.push(self.canonical_hostname.clone());
        let ghost aliases = self.aliases.deep_view();
        let mut i: usize = 0;
        assert(names.deep_view() =~= seq![self.canonical_hostname@] + aliases.take(0));
        while i < self.aliases.len()
            invariant
                i <= self.aliases@.len(),
                aliases == self.aliases.deep_view(),
                names.deep_view() == seq![self.canonical_hostname@] + aliases.take(i as int),
            decreases self.aliases@.len() - i,
        {
            let ghost before = names.deep_view();
            names.push(self.aliases[i].clone());
            assert(names.deep_view() =~= before.push(aliases[i as int]));
            i += 1;
            assert(names.deep_view() =~= seq![self.canonical_hostname@] + aliases.take(i as int));
        }
        assert(aliases.take(aliases.len() as int) =~= aliases);
        names
    }
}

/// The model of a planned service shows each of its fields under its own name.
pub proof fn planned_service_shows_its_fields(s: PlannedService)
    ensures
        s.deep_view().domain == s.domain@,
        s.deep_view().group == s.group@,
        s.deep_view().service == s.service@,
        s.deep_view().connection_type == s.connection_type@,
        s.deep_view().proxy_port == s.proxy_port,
        s.deep_view().debug_port == s.debug_port,
        s.deep_view().canonical_hostname == s.canonical_hostname@,
        s.deep_view().aliases == s.aliases.deep_view(),
{
}

} // verus!
