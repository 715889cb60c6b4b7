//! Validation of the aliases of a planned deployment.
use crate::alias::{
    alias_fault, comparison_form, normalized_alias_is_stable, validate_and_normalize_alias,
    AliasErrorView, AliasValidationError,
};
use crate::commands::service::{PlannedService, PlannedView};
use crate::error::ConfigError;
use crate::sort::{in_order, rank, sort_items, sorted, sorting_orders_all_items, Ranked};
use crate::text::{
    contains_text, lemma_lex_asymmetry, lemma_lex_irreflexive, lemma_lex_steps, lex_less, str_eq,
    str_less, three,
};
use vstd::prelude::*;

verus! {

// ---------------------------------------------------------------------------
// What validation keeps
// ---------------------------------------------------------------------------
/// The aliases that stay: those that are accepted, in normalized form, each once, and
/// without the canonical hostname of the service.
pub open spec fn kept_aliases(aliases: Seq<Seq<char>>, canonical: Seq<char>) -> Seq<Seq<char>>
    decreases aliases.len(),
{
    if aliases.len() == 0 {
        aliases
    } else {
        let before = kept_aliases(aliases.drop_last(), canonical);
        let name = comparison_form(aliases.last());
        if alias_fault(aliases.last()) is Some || name == canonical || before.contains(name) {
            before
        } else {
            before.push(name)
        }
    }
}

/// The service with the aliases that stay.
pub open spec fn validated(service: PlannedView) -> PlannedView {
    PlannedView {
        aliases: kept_aliases(service.aliases, service.canonical_key()),
        ..service
    }
}

/// The services with the aliases that stay.
pub open spec fn validated_all(services: Seq<PlannedView>) -> Seq<PlannedView> {
    services.map_values(|s: PlannedView| validated(s))
}

// ---------------------------------------------------------------------------
// What validation reports
// ---------------------------------------------------------------------------
/// A rejected alias and the service that it belongs to.
#[derive(Debug)]
pub struct AliasFailure {
    pub label: String,
    pub error: AliasValidationError,
}

/// What a rejected alias of a service is.
pub struct FailureView {
    pub label: Seq<char>,
    pub error: AliasErrorView,
}

impl DeepView for AliasFailure {
    type V = FailureView;

    open spec fn deep_view(&self) -> FailureView {
        FailureView { label: self.label@, error: self.error@ }
    }
}

impl Ranked for AliasFailure {
    /// By service, then by the text of the alias.
    open spec fn before(a: FailureView, b: FailureView) -> bool {
        lex_less(a.label, b.label) || (a.label == b.label && lex_less(
            a.error.input,
            b.error.input,
        ))
    }

    fn ranks_before(&self, other: &AliasFailure) -> (r: bool) {
        if str_eq(self.label.as_str(), other.label.as_str()) {
            proof {
                lemma_lex_irreflexive(self.label@);
            }
            str_less(self.error.input.as_str(), other.error.input.as_str())
        } else {
            str_less(self.label.as_str(), other.label.as_str())
        }
    }
}

/// The rejected aliases of a service, in the configured order.
pub open spec fn alias_failures(aliases: Seq<Seq<char>>, label: Seq<char>) -> Seq<FailureView>
    decreases aliases.len(),
{
    if aliases.len() == 0 {
        Seq::empty()
    } else {
        let before = alias_failures(aliases.drop_last(), label);
        match alias_fault(aliases.last()) {
            Some(reason) => before.push(
                FailureView { label, error: AliasErrorView { input: aliases.last(), reason } },
            ),
            None => before,
        }
    }
}

/// The rejected aliases of all services.
pub open spec fn all_failures(services: Seq<PlannedView>) -> Seq<FailureView>
    decreases services.len(),
{
    if services.len() == 0 {
        Seq::empty()
    } else {
        all_failures(services.drop_last()) + alias_failures(
            services.last().aliases,
            services.last().label(),
        )
    }
}

/// A line of the report, and the service that it belongs to.
#[derive(Debug)]
pub struct ReportLine {
    pub label: String,
    pub text: String,
}

impl DeepView for ReportLine {
    type V = (Seq<char>, Seq<char>);

    open spec fn deep_view(&self) -> (Seq<char>, Seq<char>) {
        (self.label@, self.text@)
    }
}

/// The lines of the report: each service once, followed by its rejected aliases.
pub open spec fn report_lines(lines: Seq<(Seq<char>, Seq<char>)>) -> Seq<char>
    decreases lines.len(),
{
    if lines.len() == 0 {
        Seq::empty()
    } else {
        let init = lines.drop_last();
        let (label, text) = lines.last();
        let head = if init.len() > 0 && init.last().0 == label {
            report_lines(init)
        } else {
            report_lines(init) + "  "@ + label + "\n"@
        };
        head + "    "@ + text + "\n"@
    }
}

/// The report with the given lines.
pub open spec fn report(lines: Seq<(Seq<char>, Seq<char>)>) -> Seq<char> {
    "Cannot deploy because some URL aliases are not valid hostnames:\n\n"@ + report_lines(lines)
        + "\nConfigure hostname-only values such as `local.zoo.org` and run `darp deploy` again.\n\nNo deployment artifacts were changed."@
}

/// The report of rejected aliases, ordered by service and then by the text of the alias.
pub open spec fn failure_report(failures: Seq<FailureView>) -> Seq<char> {
    report(
        sorted(failures, rank::<AliasFailure>()).map_values(
            |f: FailureView| (f.label, f.error.text()),
        ),
    )
}

// ---------------------------------------------------------------------------
// Validating
// ---------------------------------------------------------------------------
fn validate_service(service: &PlannedService, failures: &mut Vec<AliasFailure>) -> (r: Vec<String>)
    ensures
        r.deep_view() == kept_aliases(
            service.deep_view().aliases,
            service.deep_view().canonical_key(),
        ),
        final(failures).deep_view() == old(failures).deep_view() + alias_failures(
            service.deep_view().aliases,
            service.deep_view().label(),
        ),
{
    let ghost all = service.aliases.deep_view();
    let ghost before = failures.deep_view();
    let label = service.label();
    let canonical = service.canonical_key();
    let mut kept: Vec<String> = Vec::new();
    let mut i: usize = 0;
    assert(kept.deep_view() =~= kept_aliases(all.take(0), canonical@));
    assert(before + alias_failures(all.take(0), label@) =~= before);
    while i < service.aliases.len()
        invariant
            i <= service.aliases@.len(),
            all == service.aliases.deep_view(),
            label@ == service.deep_view().label(),
            canonical@ == service.deep_view().canonical_key(),
            before == old(failures).deep_view(),
            kept.deep_view() == kept_aliases(all.take(i as int), canonical@),
            failures.deep_view() == before + alias_failures(all.take(i as int), label@),
        decreases service.aliases@.len() - i,
    {
        let ghost done = kept.deep_view();
        let ghost reported = failures.deep_view();
        assert(all.take(i as int + 1).drop_last() =~= all.take(i as int));
        assert(all.take(i as int + 1).last() == service.aliases@[i as int]@);
        match validate_and_normalize_alias(service.aliases[i].as_str()) {
            Ok(name) => {
                if !str_eq(name.as_str(), canonical.as_str()) && !contains_text(
                    &kept,
                    name.as_str(),
                ) {
                    let ghost added = name@;
                    kept.push(name);
                    assert(kept.deep_view() =~= done.push(added));
                }
            },
            Err(error) => {
                let ghost e = error@;
                failures.push(AliasFailure { label: label.clone(), error });
                assert(failures.deep_view() =~= reported.push(
                    FailureView { label: label@, error: e },
                ));
                assert(failures.deep_view() =~= before + alias_failures(
                    all.take(i as int + 1),
                    label@,
                ));
            },
        }
        i += 1;
    }
    assert(all.take(all.len() as int) =~= all);
    kept
}

/// Renders the report of rejected aliases, given its lines in order.
pub fn render_report(lines: &[ReportLine]) -> (r: String)
    ensures
        r@ == report(lines.deep_view()),
{
    let ghost all = lines.deep_view();
    let mut body = String::new();
    let mut i: usize = 0;
    assert(body@ =~= report_lines(all.take(0)));
    while i < lines.len()
        invariant
            i <= lines@.len(),
            all == lines.deep_view(),
            body@ == report_lines(all.take(i as int)),
        decreases lines@.len() - i,
    {
        let line = &lines[i];
        let same = i > 0 && str_eq(lines[i - 1].label.as_str(), line.label.as_str());
        proof {
            assert(all.take(i as int + 1).drop_last() =~= all.take(i as int));
            assert(all.take(i as int + 1).last() == lines@[i as int].deep_view());
            if i > 0 {
                assert(all.take(i as int).last() == lines@[i - 1].deep_view());
            }
        }
        if !same {
            body.append("  ");
            body.append(line.label.as_str());
            body.append("\n");
        }
        body.append("    ");
        body.append(line.text.as_str());
        body.append("\n");
        i += 1;
    }
    assert(all.take(all.len() as int) =~= all);
    three(
        "Cannot deploy because some URL aliases are not valid hostnames:\n\n",
        body.as_str(),
        "\nConfigure hostname-only values such as `local.zoo.org` and run `darp deploy` again.\n\nNo deployment artifacts were changed.",
    )
}

fn report_on(failures: &Vec<AliasFailure>) -> (r: Vec<ReportLine>)
    ensures
        r.deep_view() == failures.deep_view().map_values(
            |f: FailureView| (f.label, f.error.text()),
        ),
{
    let ghost all = failures.deep_view();
    let mut lines: Vec<ReportLine> = Vec::new();
    let mut i: usize = 0;
    while i < failures.len()
        invariant
            i <= failures@.len(),
            all == failures.deep_view(),
            lines@.len() == i,
            forall|k: int|
                0 <= k < i ==> (#[trigger] lines@[k]).deep_view() == (
                    all[k].label,
                    all[k].error.text(),
                ),
        decreases failures@.len() - i,
    {
        lines.push(
            ReportLine {
                label: failures[i].label.clone(),
                text: failures[i].error.to_string(),
            },
        );
        i += 1;
    }
    assert(lines.deep_view() =~= all.map_values(|f: FailureView| (f.label, f.error.text())));
    lines
}

/// Validates and normalizes every configured alias of the plan, in place.
///
/// Aliases land verbatim in nginx `server_name` directives, hosts files and
/// `portmap.json`, so a value that carries a scheme, a port, a path or an nginx delimiter
/// is rejected before anything is written. TCP services are validated too: they get no
/// vhost, but they do get hosts entries.
///
/// All failures of the whole deployment are reported together, ordered by service and then
/// by the text of the alias. The aliases that survive are also made distinct within each
/// service: repeats, and an alias equal to the service's own canonical URL, collapse to one
/// entry in first-seen order.
pub fn validate_plan_aliases(services: &mut [PlannedService]) -> (r: Result<(), ConfigError>)
    ensures
        final(services).deep_view() == validated_all(old(services).deep_view()),
        r is Ok <==> all_failures(old(services).deep_view()).len() == 0,
        r matches Err(e) ==> e@ == failure_report(all_failures(old(services).deep_view())),
{
    let ghost all = services.deep_view();
    let n: usize = services.len();
    let mut failures: Vec<AliasFailure> = Vec::new();
    let mut i: usize = 0;
    assert(failures.deep_view() =~= all_failures(all.take(0)));
    while i < n
        invariant
            i <= n,
            n == all.len(),
            n == services@.len(),
            all == old(services).deep_view(),
            failures.deep_view() == all_failures(all.take(i as int)),
            forall|k: int|
                #![trigger services@[k]]
                0 <= k < i ==> services@[k].deep_view() == validated(all[k]),
            forall|k: int|
                #![trigger services@[k]]
                i <= k < n ==> services@[k].deep_view() == all[k],
        decreases n - i,
    {
        assert(all.take(i as int + 1).drop_last() =~= all.take(i as int));
        assert(services@[i as int].deep_view() == all[i as int]);
        let kept = validate_service(&services[i], &mut failures);
        let ghost before = services@;
        services[i].aliases = kept;
        assert forall|k: int| #![trigger services@[k]] 0 <= k < n && k != i implies services@[k]
            == before[k] by {}
        i += 1;
    }
    assert(all.take(all.len() as int) =~= all);
    assert(services.deep_view() =~= validated_all(all));
    if failures.len() == 0 {
        assert(failures.deep_view().len() == 0);
        return Ok(());
    }
    assert(failures.deep_view().len() > 0);
    let failures = sort_items(failures);
    let lines = report_on(&failures);
    Err(ConfigError::new(render_report(lines.as_slice())))
}

// ---------------------------------------------------------------------------
// Laws
// ---------------------------------------------------------------------------
/// The aliases that stay are normalized hostnames, all different, and none is the
/// canonical hostname. Every accepted alias is among them, unless it is the canonical
/// hostname.
pub proof fn kept_aliases_are_distinct_hostnames(aliases: Seq<Seq<char>>, canonical: Seq<char>)
    ensures
        forall|i: int|
            0 <= i < kept_aliases(aliases, canonical).len() ==> {
                let name = #[trigger] kept_aliases(aliases, canonical)[i];
                alias_fault(name) is None && comparison_form(name) == name && name != canonical
            },
        kept_aliases(aliases, canonical).no_duplicates(),
        forall|i: int|
            0 <= i < aliases.len() && alias_fault(#[trigger] aliases[i]) is None ==> {
                let name = comparison_form(aliases[i]);
                name == canonical || kept_aliases(aliases, canonical).contains(name)
            },
    decreases aliases.len(),
{
    if aliases.len() > 0 {
        let init = aliases.drop_last();
        kept_aliases_are_distinct_hostnames(init, canonical);
        let before = kept_aliases(init, canonical);
        let kept = kept_aliases(aliases, canonical);
        let name = comparison_form(aliases.last());
        if alias_fault(aliases.last()) is None {
            normalized_alias_is_stable(aliases.last());
        }
        assert forall|x: Seq<char>| before.contains(x) implies kept.contains(x) by {
            let i = before.index_of(x);
            assert(kept[i] == x);
        }
        if alias_fault(aliases.last()) is None && name != canonical && !before.contains(name) {
            assert(kept[before.len() as int] == name);
            assert forall|i: int, j: int|
                0 <= i < kept.len() && 0 <= j < kept.len() && i != j implies kept[i] != kept[j] by {
                if i < before.len() {
                    assert(before.contains(before[i]));
                }
                if j < before.len() {
                    assert(before.contains(before[j]));
                }
            }
        }
        assert forall|i: int|
            0 <= i < aliases.len() && alias_fault(#[trigger] aliases[i]) is None implies {
            let name = comparison_form(aliases[i]);
            name == canonical || kept.contains(name)
        } by {
            if i < init.len() {
                assert(init[i] == aliases[i]);
            }
        }
    }
}

proof fn lemma_stable_names_are_kept(names: Seq<Seq<char>>, canonical: Seq<char>)
    requires
        names.no_duplicates(),
        forall|i: int|
            0 <= i < names.len() ==> {
                let name = #[trigger] names[i];
                alias_fault(name) is None && comparison_form(name) == name && name != canonical
            },
    ensures
        kept_aliases(names, canonical) == names,
    decreases names.len(),
{
    if names.len() > 0 {
        let init = names.drop_last();
        assert forall|i: int| 0 <= i < init.len() implies {
            let name = #[trigger] init[i];
            alias_fault(name) is None && comparison_form(name) == name && name != canonical
        } by {
            assert(init[i] == names[i]);
        }
        lemma_stable_names_are_kept(init, canonical);
        assert(names[names.len() - 1] == names.last());
        assert(!init.contains(names.last())) by {
            if init.contains(names.last()) {
                let i = init.index_of(names.last());
                assert(names[i] == names[names.len() - 1]);
            }
        }
        assert(init.push(names.last()) =~= names);
    }
}

/// No alias is reported exactly when all are accepted.
pub proof fn nothing_is_reported_of_accepted_aliases(aliases: Seq<Seq<char>>, label: Seq<char>)
    ensures
        alias_failures(aliases, label).len() == 0 <==> forall|i: int|
            0 <= i < aliases.len() ==> alias_fault(#[trigger] aliases[i]) is None,
    decreases aliases.len(),
{
    if aliases.len() > 0 {
        let init = aliases.drop_last();
        nothing_is_reported_of_accepted_aliases(init, label);
        if alias_failures(aliases, label).len() == 0 {
            assert forall|i: int| 0 <= i < aliases.len() implies alias_fault(
                #[trigger] aliases[i],
            ) is None by {
                if i < init.len() {
                    assert(init[i] == aliases[i]);
                }
            }
        } else if forall|i: int|
            0 <= i < aliases.len() ==> alias_fault(#[trigger] aliases[i]) is None {
            assert(alias_fault(aliases[aliases.len() - 1]) is None);
            assert forall|i: int| 0 <= i < init.len() implies alias_fault(
                #[trigger] init[i],
            ) is None by {
                assert(init[i] == aliases[i]);
            }
        }
    }
}

/// Validation is stable: validating a service again changes nothing and reports nothing.
pub proof fn validating_twice_is_validating_once(service: PlannedView)
    ensures
        validated(validated(service)) == validated(service),
        alias_failures(validated(service).aliases, service.label()).len() == 0,
{
    let canonical = service.canonical_key();
    let kept = kept_aliases(service.aliases, canonical);
    kept_aliases_are_distinct_hostnames(service.aliases, canonical);
    lemma_stable_names_are_kept(kept, canonical);
    nothing_is_reported_of_accepted_aliases(kept, service.label());
}

/// The report covers all rejected aliases, in the order of services and texts.
pub proof fn report_is_in_order(failures: Seq<FailureView>)
    ensures
        sorted(failures, rank::<AliasFailure>()).to_multiset() == failures.to_multiset(),
        in_order(sorted(failures, rank::<AliasFailure>()), rank::<AliasFailure>()),
{
    let less = rank::<AliasFailure>();
    assert forall|a: FailureView, b: FailureView| #[trigger] less(a, b) implies !less(b, a) by {
        lemma_lex_asymmetry(a.label, b.label);
        lemma_lex_asymmetry(a.error.input, b.error.input);
    }
    assert forall|a: FailureView, b: FailureView, c: FailureView|
        !#[trigger] less(b, a) && !#[trigger] less(c, b) implies !less(c, a) by {
        lemma_lex_steps(a.label, b.label, c.label);
        lemma_lex_steps(a.error.input, b.error.input, c.error.input);
    }
    sorting_orders_all_items(failures, less);
}

} // verus!
