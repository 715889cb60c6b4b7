//! Merging a configuration with the parent configurations that it names.
//!
//! A configuration names its parents in `pre_config`. Reading them is a
//! conversation: the merge says which parent comes next, and is handed what the
//! parent's file holds, until all parents are in.
use crate::config::merge::{merge_values, merged};
use crate::error::ConfigError;
use crate::json::{
    document_tree, holds_tree, is_finite_tree, lemma_tree, read_document, tree_document,
    write_document, JsonValue, JsonView,
};
use crate::map::{sorted_keys, StrMap};
use crate::sort::reversed;
use vstd::prelude::*;

verus! {

/// A merge under way: the configuration itself, how many of its parents were
/// dealt with, and the parents that were read.
#[derive(Debug)]
pub struct ConfigMerge {
    leaf: JsonValue,
    next: usize,
    sources: Vec<(String, JsonValue)>,
}

/// What a merge under way holds.
pub struct MergeView {
    pub leaf: JsonView,
    pub next: nat,
    pub sources: Seq<(Seq<char>, JsonView)>,
}

impl View for ConfigMerge {
    type V = MergeView;

    closed spec fn view(&self) -> MergeView {
        MergeView { leaf: self.leaf@, next: self.next as nat, sources: self.sources.deep_view() }
    }
}

/// The entries of `pre_config`.
pub open spec fn parent_entries(leaf: JsonView) -> Seq<JsonView> {
    match leaf.member("pre_config"@) {
        Some(JsonView::Array(items)) => items,
        _ => Seq::empty(),
    }
}

/// The first of the parents that defines the domain.
pub open spec fn source_of(sources: Seq<(Seq<char>, JsonView)>, domain: Seq<char>) -> Option<
    Seq<char>,
>
    decreases sources.len(),
{
    if sources.len() == 0 {
        None
    } else {
        match source_of(sources.drop_last(), domain) {
            Some(location) => Some(location),
            None => if defines(sources.last().1, domain) {
                Some(sources.last().0)
            } else {
                None
            },
        }
    }
}

/// The document defines the domain.
pub open spec fn defines(document: JsonView, domain: Seq<char>) -> bool {
    match document.object_at("domains"@) {
        Some(domains) => domains.contains_key(domain),
        None => false,
    }
}

/// The first of the given domains that a parent defines already.
pub open spec fn first_defined(
    sources: Seq<(Seq<char>, JsonView)>,
    domains: Seq<Seq<char>>,
) -> Option<Seq<char>>
    decreases domains.len(),
{
    if domains.len() == 0 {
        None
    } else {
        match first_defined(sources, domains.drop_last()) {
            Some(domain) => Some(domain),
            None => if source_of(sources, domains.last()) is Some {
                Some(domains.last())
            } else {
                None
            },
        }
    }
}

/// The domain in which a document conflicts with the parents before it.
pub open spec fn conflict(sources: Seq<(Seq<char>, JsonView)>, document: JsonView) -> Option<
    Seq<char>,
> {
    match document.object_at("domains"@) {
        Some(domains) => first_defined(sources, sorted_keys(domains)),
        None => None,
    }
}

/// The message for a domain that two parents define.
pub open spec fn conflict_message(
    domain: Seq<char>,
    first: Seq<char>,
    second: Seq<char>,
) -> Seq<char> {
    "Domain '"@ + domain + "' is defined in both '"@ + first + "' and '"@ + second
        + "'. Pre-configs cannot have overlapping domains."@
}

/// The parents merged in the order in which they were read.
pub open spec fn merged_sources(sources: Seq<(Seq<char>, JsonView)>) -> JsonView
    decreases sources.len(),
{
    if sources.len() == 0 {
        JsonView::Object(Map::empty())
    } else {
        merged(merged_sources(sources.drop_last()), sources.last().1)
    }
}

impl MergeView {
    /// The merge with one more entry of `pre_config` dealt with.
    pub open spec fn advanced(self) -> MergeView {
        if self.next < parent_entries(self.leaf).len() {
            MergeView { next: self.next + 1, ..self }
        } else {
            self
        }
    }

    /// The configuration laid over its parents, without `pre_config`.
    pub open spec fn result(self) -> JsonView {
        match merged(merged_sources(self.sources), self.leaf) {
            JsonView::Object(m) => JsonView::Object(m.remove("pre_config"@)),
            other => other,
        }
    }
}

impl ConfigMerge {
    /// Starts the merge of a configuration with its parents.
    pub fn start(leaf: &[u8]) -> (r: ConfigMerge)
        ensures
            r@ == (MergeView { leaf: document_tree(leaf@), next: 0, sources: Seq::empty() }),
    {
        let merge = ConfigMerge { leaf: read_document(leaf), next: 0, sources: Vec::new() };
        assert(merge.sources.deep_view() =~= Seq::<(Seq<char>, JsonView)>::empty());
        merge
    }

    fn entries(&self) -> (r: Option<&Vec<JsonValue>>)
        ensures
            r matches Some(items) ==> items.deep_view() == parent_entries(self.leaf@),
            r is None ==> parent_entries(self.leaf@) == Seq::<JsonView>::empty(),
    {
        match self.leaf.get("pre_config") {
            Some(v) => v.as_array(),
            None => None,
        }
    }

    /// The location of the parent that comes next, or `None` where all were dealt
    /// with.
    pub fn next_location(&self) -> (r: Result<Option<String>, ConfigError>)
        ensures
            self@.next >= parent_entries(self@.leaf).len() ==> r == Ok::<
                Option<String>,
                ConfigError,
            >(None),
            self@.next < parent_entries(self@.leaf).len() ==> {
                match parent_entries(self@.leaf)[self@.next as int].text_at("location"@) {
                    Some(location) => r is Ok && r->Ok_0 is Some && r->Ok_0->0@ == location,
                    None => r is Err && r->Err_0@ == "pre_config entry missing 'location' field"@,
                }
            },
    {
        match self.entries() {
            Some(items) => {
                assert(items@.len() == parent_entries(self@.leaf).len());
                if self.next < items.len() {
                    assert(parent_entries(self@.leaf)[self.next as int]
                        == items@[self.next as int]@);
                    match items[self.next].get("location") {
                        Some(location) => match location.as_str() {
                            Some(s) => Ok(Some(s.to_string())),
                            None => Err(
                                ConfigError::new(
                                    "pre_config entry missing 'location' field".to_string(),
                                ),
                            ),
                        },
                        None => Err(
                            ConfigError::new(
                                "pre_config entry missing 'location' field".to_string(),
                            ),
                        ),
                    }
                } else {
                    Ok(None)
                }
            },
            None => Ok(None),
        }
    }

    fn advance(&mut self)
        ensures
            final(self)@ == old(self)@.advanced(),
    {
        let count: usize = match self.entries() {
            Some(items) => {
                assert(items@.len() == items.deep_view().len());
                items.len()
            },
            None => 0,
        };
        if self.next < count {
            self.next += 1;
        }
    }

    /// Passes over the next parent, whose file does not exist.
    pub fn skip(&mut self)
        ensures
            final(self)@ == old(self)@.advanced(),
    {
        self.advance();
    }

    fn find_source(&self, domain: &str) -> (r: Option<String>)
        ensures
            r is Some <==> source_of(self@.sources, domain@) is Some,
            r matches Some(location) ==> source_of(self@.sources, domain@) == Some(location@),
    {
        let ghost all = self@.sources;
        let mut i: usize = 0;
        while i < self.sources.len()
            invariant
                i <= self.sources@.len(),
                all == self@.sources,
                source_of(all.take(i as int), domain@) is None,
            decreases self.sources@.len() - i,
        {
            assert(all.take(i as int + 1).drop_last() =~= all.take(i as int));
            assert(all[i as int] == self.sources@[i as int].deep_view());
            match self.sources[i].1.get("domains") {
                Some(domains) => match domains.as_object() {
                    Some(m) => {
                        if m.contains_key(domain) {
                            proof {
                                lemma_source_of_prefix(all, domain@, i as int + 1);
                            }
                            return Some(self.sources[i].0.clone());
                        }
                    },
                    None => {},
                },
                None => {},
            }
            i += 1;
        }
        assert(all.take(all.len() as int) =~= all);
        None
    }

    /// Takes in what the file of the next parent holds.
    ///
    /// No two parents may define the same domain, so parents that were taken in share none.
    pub fn take_in(&mut self, location: &str, data: &[u8]) -> (r: Result<(), ConfigError>)
        ensures
            match conflict(old(self)@.sources, document_tree(data@)) {
                Some(domain) => r is Err && r->Err_0@ == conflict_message(
                    domain,
                    source_of(old(self)@.sources, domain)->0,
                    location@,
                ) && final(self)@ == old(self)@,
                None => r is Ok && final(self)@ == (MergeView {
                    sources: old(self)@.sources.push((location@, document_tree(data@))),
                    ..old(self)@.advanced()
                }),
            },
            has_finite_domains(document_tree(data@)),
            r is Err <==> shares_a_domain(old(self)@.sources, document_tree(data@)),
            disjoint(old(self)@.sources) ==> disjoint(final(self)@.sources),
    {
        let value = read_document(data);
        proof {
            let tree = document_tree(data@);
            assert(has_finite_domains(tree)) by {
                if let Some(m) = tree.object_at("domains"@) {
                    assert(is_finite_tree(tree->Object_0["domains"@]));
                }
            }
            conflict_is_a_shared_domain(self@.sources, tree);
            if disjoint(self@.sources) && conflict(self@.sources, tree) is None {
                taken_in_parents_stay_disjoint(self@.sources, location@, tree);
            }
        }
        match value.get("domains") {
            Some(domains) => match domains.as_object() {
                Some(m) => {
                    let n: usize = m.len();
                    let ghost keys = sorted_keys(m@);
                    let mut i: usize = 0;
                    while i < n
                        invariant
                            i <= n,
                            *self == *old(self),
                            keys == sorted_keys(m@),
                            n == keys.len(),
                            has_finite_domains(document_tree(data@)),
                            conflict(old(self)@.sources, document_tree(data@)) is Some
                                <==> shares_a_domain(old(self)@.sources, document_tree(data@)),
                            conflict(old(self)@.sources, document_tree(data@)) == first_defined(
                                old(self)@.sources,
                                keys,
                            ),
                            first_defined(old(self)@.sources, keys.take(i as int)) is None,
                        decreases n - i,
                    {
                        let domain = m.key_at(i);
                        assert(keys.take(i as int + 1).drop_last() =~= keys.take(i as int));
                        match self.find_source(domain.as_str()) {
                            Some(first) => {
                                proof {
                                    lemma_first_defined_prefix(
                                        old(self)@.sources,
                                        keys,
                                        i as int + 1,
                                    );
                                }
                                let mut message = "Domain '".to_string();
                                message.append(domain.as_str());
                                message.append("' is defined in both '");
                                message.append(first.as_str());
                                message.append("' and '");
                                message.append(location);
                                message.append("'. Pre-configs cannot have overlapping domains.");
                                return Err(ConfigError::new(message));
                            },
                            None => {},
                        }
                        i += 1;
                    }
                    assert(keys.take(keys.len() as int) =~= keys);
                },
                None => {},
            },
            None => {},
        }
        let ghost before = self.sources.deep_view();
        let ghost tree = value@;
        self.sources.push((location.to_string(), value));
        assert(self.sources.deep_view() =~= before.push((location@, tree)));
        self.advance();
        Ok(())
    }

    /// Ends the merge: the configuration laid over its parents.
    pub fn finish(self) -> (r: JsonValue)
        ensures
            r@ == self@.result(),
    {
        broadcast use lemma_tree;

        let ghost all = self@.sources;
        let ghost given = self.sources@;
        let mut rest = reversed(self.sources);
        let mut out = JsonValue::Object(StrMap::new());
        assert(all.take(0) =~= Seq::<(Seq<char>, JsonView)>::empty());
        while rest.len() > 0
            invariant
                rest@.len() <= all.len(),
                given.len() == all.len(),
                forall|i: int|
                    0 <= i < all.len() ==> (#[trigger] given[i]).deep_view() == all[i],
                forall|i: int|
                    #![trigger rest@[i]]
                    0 <= i < rest@.len() ==> rest@[i] == given[given.len() - 1 - i],
                out@ == merged_sources(all.take(all.len() - rest@.len())),
            decreases rest@.len(),
        {
            let ghost n = all.len() - rest@.len();
            let ghost before = rest@;
            match rest.pop() {
                Some((_location, value)) => {
                    assert(before[before.len() - 1] == given[n]);
                    assert(given[n].deep_view() == all[n]);
                    assert(all.take(n + 1).drop_last() =~= all.take(n));
                    out = merge_values(out, value);
                },
                None => {},
            }
        }
        assert(all.take(all.len() as int) =~= all);
        match merge_values(out, self.leaf) {
            JsonValue::Object(m) => {
                let mut m = m;
                m.remove("pre_config");
                JsonValue::Object(m)
            },
            other => other,
        }
    }

    /// Ends the merge with the document that holds the result.
    pub fn finish_document(self) -> (r: Vec<u8>)
        ensures
            r@ == tree_document(self@.result()),
            holds_tree(r@, self@.result()),
    {
        write_document(self.finish())
    }
}

proof fn lemma_source_of_prefix(
    sources: Seq<(Seq<char>, JsonView)>,
    domain: Seq<char>,
    n: int,
)
    requires
        0 <= n <= sources.len(),
        source_of(sources.take(n), domain) is Some,
    ensures
        source_of(sources, domain) == source_of(sources.take(n), domain),
    decreases sources.len() - n,
{
    if n == sources.len() {
        assert(sources.take(n) =~= sources);
    } else {
        assert(sources.take(n + 1).drop_last() =~= sources.take(n));
        lemma_source_of_prefix(sources, domain, n + 1);
    }
}

proof fn lemma_first_defined_prefix(
    sources: Seq<(Seq<char>, JsonView)>,
    domains: Seq<Seq<char>>,
    n: int,
)
    requires
        0 <= n <= domains.len(),
        first_defined(sources, domains.take(n)) is Some,
    ensures
        first_defined(sources, domains) == first_defined(sources, domains.take(n)),
    decreases domains.len() - n,
{
    if n == domains.len() {
        assert(domains.take(n) =~= domains);
    } else {
        assert(domains.take(n + 1).drop_last() =~= domains.take(n));
        lemma_first_defined_prefix(sources, domains, n + 1);
    }
}

// ---------------------------------------------------------------------------
// Laws
// ---------------------------------------------------------------------------
/// Some parent defines the domain exactly when one is found that does.
proof fn lemma_source_of(sources: Seq<(Seq<char>, JsonView)>, domain: Seq<char>)
    ensures
        source_of(sources, domain) is Some <==> exists|i: int|
            0 <= i < sources.len() && defines((#[trigger] sources[i]).1, domain),
        source_of(sources, domain) is Some ==> exists|i: int|
            0 <= i < sources.len() && defines((#[trigger] sources[i]).1, domain) && source_of(
                sources,
                domain,
            ) == Some(sources[i].0),
    decreases sources.len(),
{
    if sources.len() > 0 {
        let init = sources.drop_last();
        lemma_source_of(init, domain);
        if source_of(init, domain) is Some {
            let i = choose|i: int|
                0 <= i < init.len() && defines((#[trigger] init[i]).1, domain) && source_of(
                    init,
                    domain,
                ) == Some(init[i].0);
            assert(sources[i] == init[i]);
        } else {
            assert forall|i: int| 0 <= i < init.len() implies !defines(
                (#[trigger] sources[i]).1,
                domain,
            ) by {
                assert(init[i] == sources[i]);
            }
            assert(sources[sources.len() - 1] == sources.last());
        }
    }
}

/// A domain is found among the given ones exactly when one of them is defined
/// already.
proof fn lemma_first_defined(sources: Seq<(Seq<char>, JsonView)>, domains: Seq<Seq<char>>)
    ensures
        first_defined(sources, domains) is Some <==> exists|i: int|
            0 <= i < domains.len() && source_of(sources, #[trigger] domains[i]) is Some,
        first_defined(sources, domains) matches Some(d) ==> domains.contains(d) && source_of(
            sources,
            d,
        ) is Some,
    decreases domains.len(),
{
    if domains.len() > 0 {
        let init = domains.drop_last();
        lemma_first_defined(sources, init);
        match first_defined(sources, init) {
            Some(d) => {
                let i = init.index_of(d);
                assert(domains[i] == d);
            },
            None => {
                assert forall|i: int| 0 <= i < init.len() implies source_of(
                    sources,
                    #[trigger] domains[i],
                ) is None by {
                    assert(init[i] == domains[i]);
                }
                assert(domains[domains.len() - 1] == domains.last());
            },
        }
    }
}

/// The objects of the document have finitely many members where it matters.
pub open spec fn has_finite_domains(document: JsonView) -> bool {
    match document.object_at("domains"@) {
        Some(domains) => domains.dom().finite(),
        None => true,
    }
}

/// The document defines a domain that one of the parents defines.
pub open spec fn shares_a_domain(
    sources: Seq<(Seq<char>, JsonView)>,
    document: JsonView,
) -> bool {
    exists|i: int, d: Seq<char>|
        0 <= i < sources.len() && #[trigger] defines(sources[i].1, d) && defines(document, d)
}

/// A document conflicts with the parents before it exactly when it and one of
/// them define the same domain, and the reported domain is such a one.
pub proof fn conflict_is_a_shared_domain(
    sources: Seq<(Seq<char>, JsonView)>,
    document: JsonView,
)
    requires
        has_finite_domains(document),
    ensures
        conflict(sources, document) is Some <==> shares_a_domain(sources, document),
        conflict(sources, document) matches Some(d) ==> defines(document, d) && source_of(
            sources,
            d,
        ) is Some,
{
    match document.object_at("domains"@) {
        Some(domains) => {
            let keys = sorted_keys(domains);
            crate::map::lemma_sorted_keys(domains);
            lemma_first_defined(sources, keys);
            match conflict(sources, document) {
                Some(d) => {
                    assert(domains.contains_key(keys[keys.index_of(d)]));
                    lemma_source_of(sources, d);
                    let i = choose|i: int|
                        0 <= i < sources.len() && defines((#[trigger] sources[i]).1, d);
                    assert(defines(sources[i].1, d) && defines(document, d));
                },
                None => {
                    assert forall|i: int, d: Seq<char>|
                        0 <= i < sources.len() && #[trigger] defines(sources[i].1, d)
                            implies !defines(document, d) by {
                        if defines(document, d) {
                            assert(keys[keys.index_of(d)] == d);
                            lemma_source_of(sources, d);
                        }
                    }
                },
            }
        },
        None => {},
    }
}

/// No two of the parents define the same domain.
pub open spec fn disjoint(sources: Seq<(Seq<char>, JsonView)>) -> bool {
    forall|i: int, j: int, d: Seq<char>|
        0 <= i < j < sources.len() && #[trigger] defines(sources[i].1, d) ==> !#[trigger] defines(
            sources[j].1,
            d,
        )
}

/// A parent that is taken in shares no domain with the parents before it, so a
/// domain never comes from two parents.
pub proof fn taken_in_parents_stay_disjoint(
    sources: Seq<(Seq<char>, JsonView)>,
    location: Seq<char>,
    document: JsonView,
)
    requires
        disjoint(sources),
        has_finite_domains(document),
        conflict(sources, document) is None,
    ensures
        disjoint(sources.push((location, document))),
{
    conflict_is_a_shared_domain(sources, document);
    let all = sources.push((location, document));
    assert forall|i: int, j: int, d: Seq<char>|
        0 <= i < j < all.len() && #[trigger] defines(all[i].1, d) implies !#[trigger] defines(
        all[j].1,
        d,
    ) by {
        assert(all[i] == sources[i]);
        if j < sources.len() {
            assert(all[j] == sources[j]);
        } else {
            assert(defines(sources[i].1, d));
        }
    }
}

} // verus!
