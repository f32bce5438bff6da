//! The route registry: every written route made ready to serve, or the
//! first one that cannot be and why. It is built once and then only read.

use crate::pattern::pattern_compiles;
use crate::route::{
    compile_before, is_template, rule_config_views, ConfigError, RouteConfig, RouteDefinition,
    RouteView,
};
use crate::header::name_views;
use crate::template::{well_formed, written};
use crate::text::same_text;
use vstd::prelude::*;

verus! {

/// The routes of a process, each under its own path.
pub struct Registry {
    routes: Vec<RouteDefinition>,
}

/// Which written route could not be served, and why.
#[derive(Clone, Copy, Debug, PartialEq, Eq, Structural)]
pub struct RegistryError {
    /// The index of the route among those written.
    pub route: usize,
    /// What is wrong with it.
    pub cause: ConfigError,
}

/// The views of a list of routes, in order.
pub open spec fn route_views(routes: Seq<RouteDefinition>) -> Seq<RouteView> {
    routes.map_values(|r: RouteDefinition| r@)
}

impl View for Registry {
    type V = Seq<RouteView>;

    closed spec fn view(&self) -> Seq<RouteView> {
        route_views(self.routes@)
    }
}

/// Whether no two routes serve the same path.
pub open spec fn distinct_paths(routes: Seq<RouteView>) -> bool {
    forall|i: int, j: int|
        0 <= i < j < routes.len() ==> (#[trigger] routes[i]).path != (#[trigger] routes[j]).path
}

/// Whether written route `i` has the path of an earlier one.
pub open spec fn path_repeats(configs: Seq<RouteConfig>, i: int) -> bool {
    exists|j: int| 0 <= j < i && (#[trigger] configs[j]).path@ == configs[i].path@
}

/// Whether written route `i` can be served: its path is new, its template
/// is well formed, and every pattern of it compiles.
pub open spec fn is_sound(configs: Seq<RouteConfig>, i: int) -> bool {
    &&& !path_repeats(configs, i)
    &&& is_template(configs[i].upstream@)
    &&& compile_before(rule_config_views(configs[i].rules@), configs[i].rules@.len() as int)
}

/// Whether `cause` is what is wrong with written route `i`. A repeated
/// path is reported before a malformed template, and that before a
/// pattern, of which the first that does not compile is named.
pub open spec fn is_fault(configs: Seq<RouteConfig>, i: int, cause: ConfigError) -> bool {
    match cause {
        ConfigError::DuplicatePath => path_repeats(configs, i),
        ConfigError::MalformedTemplate => !path_repeats(configs, i) && !is_template(
            configs[i].upstream@,
        ),
        ConfigError::InvalidPattern { rule } => {
            &&& !path_repeats(configs, i)
            &&& is_template(configs[i].upstream@)
            &&& rule < configs[i].rules@.len()
            &&& !pattern_compiles(configs[i].rules@[rule as int].pattern@)
            &&& compile_before(rule_config_views(configs[i].rules@), rule as int)
        },
    }
}

/// Whether `route` is written route `config` made ready.
pub open spec fn serves(route: RouteView, config: RouteConfig) -> bool {
    &&& route.id == config.id@
    &&& route.path == config.path@
    &&& well_formed(route.template)
    &&& written(route.template) == config.upstream@
    &&& route.whitelist == name_views(config.whitelist@)
    &&& route.content_type == config.content_type@
    &&& route.rules == rule_config_views(config.rules@)
}

/// Tells whether written route `i` has the path of an earlier one.
fn repeats_path(configs: &Vec<RouteConfig>, i: usize) -> (dup: bool)
    requires
        i < configs@.len(),
    ensures
        dup == path_repeats(configs@, i as int),
{
    let mut j: usize = 0;
    while j < i
        invariant
            j <= i,
            i < configs@.len(),
            forall|k: int| 0 <= k < j ==> (#[trigger] configs@[k]).path@ != configs@[i as int].path@,
        decreases i - j,
    {
        if same_text(configs[j].path.as_str(), configs[i].path.as_str()) {
            return true;
        }
        j = j + 1;
    }
    false
}

impl Registry {
    #[verifier::type_invariant]
    spec fn paths_are_distinct(self) -> bool {
        distinct_paths(route_views(self.routes@))
    }

    /// Makes every written route ready to serve, in order. It succeeds
    /// exactly when every route is sound; otherwise it names the first
    /// route that is not, and what is wrong with it.
    pub fn build(configs: &Vec<RouteConfig>) -> (r: Result<Registry, RegistryError>)
        ensures
            match r {
                Ok(registry) => {
                    &&& registry@.len() == configs@.len()
                    &&& forall|i: int| 0 <= i < configs@.len() ==> is_sound(configs@, i)
                    &&& forall|i: int|
                        0 <= i < configs@.len() ==> serves(#[trigger] registry@[i], configs@[i])
                    &&& distinct_paths(registry@)
                },
                Err(e) => {
                    &&& e.route < configs@.len()
                    &&& forall|i: int| 0 <= i < e.route ==> is_sound(configs@, i)
                    &&& is_fault(configs@, e.route as int, e.cause)
                },
            },
    {
        let mut routes: Vec<RouteDefinition> = Vec::new();
        let mut i: usize = 0;
        while i < configs.len()
            invariant
                i <= configs@.len(),
                routes@.len() == i,
                forall|k: int| 0 <= k < i ==> is_sound(configs@, k),
                forall|k: int|
                    0 <= k < i ==> serves(#[trigger] route_views(routes@)[k], configs@[k]),
                distinct_paths(route_views(routes@)),
            decreases configs@.len() - i,
        {
            if repeats_path(configs, i) {
                return Err(RegistryError { route: i, cause: ConfigError::DuplicatePath });
            }
            match configs[i].compile() {
                Ok(route) => {
                    let ghost before = route_views(routes@);
                    routes.push(route);
                    proof {
                        let after = route_views(routes@);
                        assert(after =~= before.push(route@));
                        assert(is_sound(configs@, i as int));
                        assert forall|k: int| 0 <= k < i + 1 implies serves(
                            #[trigger] after[k],
                            configs@[k],
                        ) by {
                            if k < i {
                                assert(after[k] == before[k]);
                            }
                        }
                        assert forall|a: int, b: int| 0 <= a < b < after.len() implies (
                        #[trigger] after[a]).path != (#[trigger] after[b]).path by {
                            if b == i {
                                assert(serves(before[a], configs@[a]));
                                assert(configs@[a].path@ != configs@[i as int].path@);
                            } else {
                                assert(after[a] == before[a] && after[b] == before[b]);
                            }
                        }
                    }
                },
                Err(cause) => {
                    return Err(RegistryError { route: i, cause });
                },
            }
            i = i + 1;
        }
        Ok(Registry { routes })
    }

    /// The routes, in the order in which they were written. No two of
    /// them serve the same path.
    pub fn routes(&self) -> (routes: &Vec<RouteDefinition>)
        ensures
            route_views(routes@) == self@,
            distinct_paths(self@),
    {
        proof {
            use_type_invariant(self);
        }
        &self.routes
    }

    /// Looks up the route that serves `path`: the one route with exactly
    /// that path, or none.
    pub fn find(&self, path: &str) -> (found: Option<&RouteDefinition>)
        ensures
            match found {
                Some(route) => route@.path == path@ && self@.contains(route@),
                None => forall|i: int| 0 <= i < self@.len() ==> (#[trigger] self@[i]).path != path@,
            },
    {
        let mut i: usize = 0;
        while i < self.routes.len()
            invariant
                i <= self.routes@.len(),
                forall|k: int| 0 <= k < i ==> (#[trigger] route_views(self.routes@)[k]).path != path@,
            decreases self.routes@.len() - i,
        {
            if same_text(self.routes[i].path(), path) {
                assert(route_views(self.routes@)[i as int] == self.routes@[i as int]@);
                return Some(&self.routes[i]);
            }
            i = i + 1;
        }
        None
    }
}

} // verus!
