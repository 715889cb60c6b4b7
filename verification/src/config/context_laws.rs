//! What holds of the service that the current directory belongs to.
use crate::config::context::{first_at, ContextView, CurrentDir};
use crate::config::model::{ConfigView, DomainView, GroupView};
use crate::map::{lemma_sorted_keys, sorted_keys};
use crate::text::lex_less;
use vstd::prelude::*;

verus! {

/// The configuration has the domain, and it lies at the path.
pub open spec fn lies_at(
    c: ConfigView,
    locations: Map<Seq<char>, Seq<char>>,
    d: Seq<char>,
    path: Seq<char>,
) -> bool {
    c.domains is Some && c.domains->0.contains_key(d) && locations.contains_key(d) && locations[d]
        == path
}

/// Some domain of the configuration lies at the path.
pub open spec fn some_lies_at(
    c: ConfigView,
    locations: Map<Seq<char>, Seq<char>>,
    path: Seq<char>,
) -> bool {
    exists|d: Seq<char>| #[trigger] lies_at(c, locations, d, path)
}

/// The domain is the first one, in the order of names, that lies at the path.
pub open spec fn is_first_at(
    c: ConfigView,
    locations: Map<Seq<char>, Seq<char>>,
    d: Seq<char>,
    path: Seq<char>,
) -> bool {
    &&& lies_at(c, locations, d, path)
    &&& forall|other: Seq<char>| #[trigger]
        lies_at(c, locations, other, path) ==> other == d || lex_less(d, other)
}

proof fn lemma_first_at(
    keys: Seq<Seq<char>>,
    locations: Map<Seq<char>, Seq<char>>,
    path: Seq<char>,
)
    ensures
        match first_at(keys, locations, path) {
            Some(d) => exists|i: int|
                {
                    &&& 0 <= i < keys.len()
                    &&& #[trigger] keys[i] == d
                    &&& locations.contains_key(d) && locations[d] == path
                    &&& forall|j: int|
                        0 <= j < i ==> !(locations.contains_key(#[trigger] keys[j])
                            && locations[keys[j]] == path)
                },
            None => forall|j: int|
                0 <= j < keys.len() ==> !(locations.contains_key(#[trigger] keys[j])
                    && locations[keys[j]] == path),
        },
    decreases keys.len(),
{
    if keys.len() > 0 {
        if locations.contains_key(keys[0]) && locations[keys[0]] == path {
            assert(keys[0] == first_at(keys, locations, path)->0);
        } else {
            let rest = keys.drop_first();
            lemma_first_at(rest, locations, path);
            match first_at(rest, locations, path) {
                Some(d) => {
                    let i = choose|i: int|
                        {
                            &&& 0 <= i < rest.len()
                            &&& #[trigger] rest[i] == d
                            &&& locations.contains_key(d) && locations[d] == path
                            &&& forall|j: int|
                                0 <= j < i ==> !(locations.contains_key(#[trigger] rest[j])
                                    && locations[rest[j]] == path)
                        };
                    assert(keys[i + 1] == d);
                    assert forall|j: int| 0 <= j < i + 1 implies !(locations.contains_key(
                        #[trigger] keys[j],
                    ) && locations[keys[j]] == path) by {
                        if j > 0 {
                            assert(keys[j] == rest[j - 1]);
                        }
                    }
                },
                None => {
                    assert forall|j: int| 0 <= j < keys.len() implies !(locations.contains_key(
                        #[trigger] keys[j],
                    ) && locations[keys[j]] == path) by {
                        if j > 0 {
                            assert(keys[j] == rest[j - 1]);
                        }
                    }
                },
            }
        }
    }
}

/// A path belongs to the first domain, in the order of names, that lies there, and to none
/// where no domain does.
pub proof fn path_belongs_to_the_first_domain_there(
    c: ConfigView,
    locations: Map<Seq<char>, Seq<char>>,
    path: Seq<char>,
)
    requires
        c.domains is Some ==> c.domains->0.dom().finite(),
    ensures
        c.domain_at(locations, path) is Some <==> some_lies_at(c, locations, path),
        c.domain_at(locations, path) matches Some(d) ==> is_first_at(c, locations, d, path),
{
    if c.domains is Some {
        let m = c.domains->0;
        let keys = sorted_keys(m);
        lemma_sorted_keys(m);
        lemma_first_at(keys, locations, path);
        match c.domain_at(locations, path) {
            Some(d) => {
                let i = choose|i: int|
                    {
                        &&& 0 <= i < keys.len()
                        &&& #[trigger] keys[i] == d
                        &&& locations.contains_key(d) && locations[d] == path
                        &&& forall|j: int|
                            0 <= j < i ==> !(locations.contains_key(#[trigger] keys[j])
                                && locations[keys[j]] == path)
                    };
                assert(lies_at(c, locations, d, path));
                assert forall|other: Seq<char>| #[trigger]
                    lies_at(c, locations, other, path) implies other == d || lex_less(d, other) by {
                    let j = keys.index_of(other);
                    assert(keys[j] == other);
                    if i < j {
                        assert(lex_less(keys[i], keys[j]));
                    }
                }
            },
            None => {
                assert forall|d: Seq<char>| !#[trigger] lies_at(c, locations, d, path) by {
                    if m.contains_key(d) {
                        assert(keys[keys.index_of(d)] == d);
                    }
                }
            },
        }
    }
}

/// The names of a context are where the directory lies: in the first domain at its parent,
/// then in the group `.`; or else in the first domain at its parent's parent, then in the
/// group that its parent is named after.
pub open spec fn is_placed(
    c: ConfigView,
    dir: CurrentDir,
    locations: Map<Seq<char>, Seq<char>>,
    ctx: ContextView,
) -> bool {
    &&& dir.name is Some
    &&& dir.parent is Some
    &&& ctx.current_dir == dir.path@
    &&& ctx.current_directory_name == dir.name->0@
    &&& some_lies_at(c, locations, dir.parent->0@) ==> {
        &&& is_first_at(c, locations, ctx.domain_name, dir.parent->0@)
        &&& ctx.group_name == "."@
    }
    &&& !some_lies_at(c, locations, dir.parent->0@) ==> {
        &&& dir.grandparent is Some
        &&& dir.parent_name is Some
        &&& is_first_at(c, locations, ctx.domain_name, dir.grandparent->0@)
        &&& ctx.group_name == dir.parent_name->0@
    }
}

/// The group under a name, where the domain configures one.
pub open spec fn is_group_of(group: Option<GroupView>, domain: DomainView, g: Seq<char>) -> bool {
    &&& group is Some <==> domain.groups is Some && domain.groups->0.contains_key(g)
    &&& group is Some ==> group->0 == domain.groups->0[g]
}

/// What the context holds is what the configuration has under its names.
pub open spec fn holds_the_levels(c: ConfigView, ctx: ContextView) -> bool {
    &&& c.domains is Some && ctx.domain == c.domains->0[ctx.domain_name]
    &&& is_group_of(ctx.group, ctx.domain, ctx.group_name)
    &&& ctx.service is Some <==> ctx.group is Some && ctx.group->0.services is Some
        && ctx.group->0.services->0.contains_key(ctx.current_directory_name)
    &&& ctx.service is Some ==> ctx.service->0
        == ctx.group->0.services->0[ctx.current_directory_name]
    &&& ctx.environment is Some <==> ctx.environment_name is Some && c.environments is Some
        && c.environments->0.contains_key(ctx.environment_name->0)
    &&& ctx.environment is Some ==> ctx.environment->0
        == c.environments->0[ctx.environment_name->0]
}

/// A directory belongs to the domain at its parent, or else to the one at its parent's parent,
/// and to none otherwise. The context holds exactly what the configuration has for the domain,
/// the group, the service and the environment.
pub proof fn directory_belongs_to_the_nearest_domain(
    c: ConfigView,
    dir: CurrentDir,
    locations: Map<Seq<char>, Seq<char>>,
    cli: Option<Seq<char>>,
)
    requires
        c.domains is Some ==> c.domains->0.dom().finite(),
    ensures
        c.service_context(dir, locations, cli) is Some <==> dir.name is Some && dir.parent is Some
            && (some_lies_at(c, locations, dir.parent->0@) || (dir.grandparent is Some
            && dir.parent_name is Some && some_lies_at(c, locations, dir.grandparent->0@))),
        c.service_context(dir, locations, cli) matches Some(ctx) ==> is_placed(
            c,
            dir,
            locations,
            ctx,
        ) && holds_the_levels(c, ctx),
{
    if dir.parent is Some {
        path_belongs_to_the_first_domain_there(c, locations, dir.parent->0@);
    }
    if dir.grandparent is Some {
        path_belongs_to_the_first_domain_there(c, locations, dir.grandparent->0@);
    }
}

/// The environment is the one from the command line. Without one it is the default of the
/// service; where the service has none, or is not configured, that of the group, whatever the
/// domain says; and that of the domain only where neither has one.
pub proof fn environment_comes_from_the_nearest_level(
    c: ConfigView,
    dir: CurrentDir,
    locations: Map<Seq<char>, Seq<char>>,
    cli: Option<Seq<char>>,
)
    requires
        c.service_context(dir, locations, cli) is Some,
    ensures
        ({
            let ctx = c.service_context(dir, locations, cli)->0;
            let by_service = ctx.service is Some && ctx.service->0.default_environment is Some;
            let by_group = ctx.group is Some && ctx.group->0.default_environment is Some;
            &&& cli is Some ==> ctx.environment_name == cli
            &&& cli is None && by_service ==> ctx.environment_name
                == ctx.service->0.default_environment
            &&& cli is None && !by_service && by_group ==> ctx.environment_name
                == ctx.group->0.default_environment
            &&& cli is None && !by_service && !by_group ==> ctx.environment_name
                == ctx.domain.default_environment
        }),
{
}

} // verus!
