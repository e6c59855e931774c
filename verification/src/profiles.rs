//! Profile registries: the physics profile, the canvas profile and the layout
//! algorithm in use, each chosen by id from a fixed catalog, falling back to the
//! catalog's default for an unknown id.

use vstd::prelude::*;
use crate::text::{owned, str_eq};

verus! {

pub const PHYSICS_PROFILE_DRIFT: &'static str = "physics:drift";
pub const PHYSICS_PROFILE_SCATTER: &'static str = "physics:scatter";
pub const PHYSICS_PROFILE_SETTLE: &'static str = "physics:settle";
pub const PHYSICS_PROFILE_ARCHIPELAGO: &'static str = "physics:archipelago";
pub const PHYSICS_PROFILE_RESONANCE: &'static str = "physics:resonance";
pub const PHYSICS_PROFILE_CONSTELLATION: &'static str = "physics:constellation";
pub const PHYSICS_PROFILE_DEFAULT: &'static str = "physics:drift";

pub const CANVAS_PROFILE_DEFAULT: &'static str = "canvas:default";

pub const GRAPH_LAYOUT_FORCE_DIRECTED: &'static str = "graph_layout:force_directed";
pub const GRAPH_LAYOUT_FORCE_DIRECTED_BARNES_HUT: &'static str = "graph_layout:force_directed_barnes_hut";
pub const GRAPH_LAYOUT_GRID: &'static str = "graph_layout:grid";
pub const GRAPH_LAYOUT_TREE: &'static str = "graph_layout:tree";

/// Which profile a requested id resolved to.
#[derive(Debug, Clone, PartialEq, Eq)]
pub struct ProfileResolution {
    pub requested_id: String,
    pub resolved_id: String,
    pub matched: bool,
    pub fallback_used: bool,
    pub display_name: String,
}

/// `r` resolves `requested` in the catalog that `name_of` describes: a known id
/// matches itself, any other falls back to `default_id`.
pub open spec fn resolves(
    r: ProfileResolution,
    requested: Seq<char>,
    name_of: spec_fn(Seq<char>) -> Option<Seq<char>>,
    default_id: Seq<char>,
) -> bool {
    &&& r.requested_id@ == requested
    &&& match name_of(requested) {
        Some(name) => r.resolved_id@ == requested && r.matched && !r.fallback_used && r.display_name@ == name,
        None => r.resolved_id@ == default_id && !r.matched && r.fallback_used
            && name_of(default_id) == Some(r.display_name@),
    }
}

fn resolution(requested: &str, resolved: &str, matched: bool, display_name: &str) -> (r: ProfileResolution)
    ensures
        r.requested_id@ == requested@,
        r.resolved_id@ == resolved@,
        r.matched == matched,
        r.fallback_used == !matched,
        r.display_name@ == display_name@,
{
    ProfileResolution {
        requested_id: owned(requested),
        resolved_id: owned(resolved),
        matched,
        fallback_used: !matched,
        display_name: owned(display_name),
    }
}

// ----- physics profiles -----

/// The physics catalog: each id with its display name.
pub open spec fn physics_name(id: Seq<char>) -> Option<Seq<char>> {
    if id == PHYSICS_PROFILE_DRIFT@ {
        Some("Drift"@)
    } else if id == PHYSICS_PROFILE_SCATTER@ {
        Some("Scatter"@)
    } else if id == PHYSICS_PROFILE_SETTLE@ {
        Some("Settle"@)
    } else if id == PHYSICS_PROFILE_ARCHIPELAGO@ {
        Some("Archipelago"@)
    } else if id == PHYSICS_PROFILE_RESONANCE@ {
        Some("Resonance"@)
    } else if id == PHYSICS_PROFILE_CONSTELLATION@ {
        Some("Constellation"@)
    } else {
        None
    }
}

fn physics_display_name(id: &str) -> (r: Option<&'static str>)
    ensures
        match r {
            Some(n) => physics_name(id@) == Some(n@),
            None => physics_name(id@) is None,
        },
{
    if str_eq(id, PHYSICS_PROFILE_DRIFT) {
        Some("Drift")
    } else if str_eq(id, PHYSICS_PROFILE_SCATTER) {
        Some("Scatter")
    } else if str_eq(id, PHYSICS_PROFILE_SETTLE) {
        Some("Settle")
    } else if str_eq(id, PHYSICS_PROFILE_ARCHIPELAGO) {
        Some("Archipelago")
    } else if str_eq(id, PHYSICS_PROFILE_RESONANCE) {
        Some("Resonance")
    } else if str_eq(id, PHYSICS_PROFILE_CONSTELLATION) {
        Some("Constellation")
    } else {
        None
    }
}

/// Resolves a physics profile id.
pub fn resolve_physics_profile(profile_id: &str) -> (r: ProfileResolution)
    ensures
        resolves(r, profile_id@, |id: Seq<char>| physics_name(id), PHYSICS_PROFILE_DEFAULT@),
{
    match physics_display_name(profile_id) {
        Some(name) => resolution(profile_id, profile_id, true, name),
        None => {
            proof {
                reveal_strlit("physics:drift");
            }
            resolution(profile_id, PHYSICS_PROFILE_DEFAULT, false, "Drift")
        },
    }
}

/// An entry of a profile catalog.
#[derive(Debug, Clone)]
pub struct ProfileDescriptor {
    pub id: String,
    pub display_name: String,
}

/// The physics profiles, in catalog order.
pub fn physics_profile_descriptors() -> (r: Vec<ProfileDescriptor>)
    ensures
        r@.len() == 6,
        r@[0].id@ == PHYSICS_PROFILE_DRIFT@,
        r@[1].id@ == PHYSICS_PROFILE_SCATTER@,
        r@[2].id@ == PHYSICS_PROFILE_SETTLE@,
        r@[3].id@ == PHYSICS_PROFILE_ARCHIPELAGO@,
        r@[4].id@ == PHYSICS_PROFILE_RESONANCE@,
        r@[5].id@ == PHYSICS_PROFILE_CONSTELLATION@,
        forall|i: int| 0 <= i < r@.len() ==> physics_name(#[trigger] r@[i].id@) == Some(r@[i].display_name@),
{
    let mut r: Vec<ProfileDescriptor> = Vec::new();
    r.push(ProfileDescriptor { id: owned(PHYSICS_PROFILE_DRIFT), display_name: owned("Drift") });
    r.push(ProfileDescriptor { id: owned(PHYSICS_PROFILE_SCATTER), display_name: owned("Scatter") });
    r.push(ProfileDescriptor { id: owned(PHYSICS_PROFILE_SETTLE), display_name: owned("Settle") });
    r.push(ProfileDescriptor { id: owned(PHYSICS_PROFILE_ARCHIPELAGO), display_name: owned("Archipelago") });
    r.push(ProfileDescriptor { id: owned(PHYSICS_PROFILE_RESONANCE), display_name: owned("Resonance") });
    r.push(ProfileDescriptor { id: owned(PHYSICS_PROFILE_CONSTELLATION), display_name: owned("Constellation") });
    proof {
        reveal_strlit("physics:drift");
        reveal_strlit("physics:scatter");
        reveal_strlit("physics:settle");
        reveal_strlit("physics:archipelago");
        reveal_strlit("physics:resonance");
        reveal_strlit("physics:constellation");
    }
    r
}

/// The physics profile in use.
pub struct PhysicsProfileRegistry {
    active_profile_id: String,
}

impl PhysicsProfileRegistry {
    #[verifier::type_invariant]
    spec fn known(self) -> bool {
        physics_name(self.active_profile_id@) is Some
    }

    pub closed spec fn active(&self) -> Seq<char> {
        self.active_profile_id@
    }

    pub fn active_profile_id(&self) -> (r: &str)
        ensures
            r@ == self.active(),
    {
        self.active_profile_id.as_str()
    }

    /// Switches to the profile `profile_id` resolves to.
    pub fn set_active_profile(&mut self, profile_id: &str) -> (r: ProfileResolution)
        ensures
            resolves(r, profile_id@, |id: Seq<char>| physics_name(id), PHYSICS_PROFILE_DEFAULT@),
            final(self).active() == r.resolved_id@,
    {
        let resolution = resolve_physics_profile(profile_id);
        proof {
            reveal_strlit("physics:drift");
        }
        self.active_profile_id = resolution.resolved_id.clone();
        resolution
    }

    /// The active profile, which the catalog always knows.
    pub fn active_profile(&self) -> (r: ProfileResolution)
        ensures
            r.matched,
            !r.fallback_used,
            r.resolved_id@ == self.active(),
            physics_name(self.active()) == Some(r.display_name@),
    {
        proof {
            use_type_invariant(self);
        }
        resolve_physics_profile(self.active_profile_id.as_str())
    }
}

impl Default for PhysicsProfileRegistry {
    fn default() -> (r: Self)
        ensures
            r.active() == PHYSICS_PROFILE_DEFAULT@,
    {
        proof {
            reveal_strlit("physics:drift");
        }
        PhysicsProfileRegistry { active_profile_id: owned(PHYSICS_PROFILE_DEFAULT) }
    }
}

// ----- canvas profiles -----

/// The canvas catalog.
pub open spec fn canvas_name(id: Seq<char>) -> Option<Seq<char>> {
    if id == CANVAS_PROFILE_DEFAULT@ {
        Some("Default"@)
    } else {
        None
    }
}

/// Resolves a canvas profile id.
pub fn resolve_canvas_profile(profile_id: &str) -> (r: ProfileResolution)
    ensures
        resolves(r, profile_id@, |id: Seq<char>| canvas_name(id), CANVAS_PROFILE_DEFAULT@),
{
    if str_eq(profile_id, CANVAS_PROFILE_DEFAULT) {
        resolution(profile_id, profile_id, true, "Default")
    } else {
        proof {
            reveal_strlit("canvas:default");
        }
        resolution(profile_id, CANVAS_PROFILE_DEFAULT, false, "Default")
    }
}

/// The canvas profile in use.
pub struct CanvasRegistry {
    active_profile_id: String,
}

impl CanvasRegistry {
    #[verifier::type_invariant]
    spec fn known(self) -> bool {
        canvas_name(self.active_profile_id@) is Some
    }

    pub closed spec fn active(&self) -> Seq<char> {
        self.active_profile_id@
    }

    pub fn active_profile_id(&self) -> (r: &str)
        ensures
            r@ == self.active(),
    {
        self.active_profile_id.as_str()
    }

    pub fn set_active_profile(&mut self, profile_id: &str) -> (r: ProfileResolution)
        ensures
            resolves(r, profile_id@, |id: Seq<char>| canvas_name(id), CANVAS_PROFILE_DEFAULT@),
            final(self).active() == r.resolved_id@,
    {
        let resolution = resolve_canvas_profile(profile_id);
        proof {
            reveal_strlit("canvas:default");
        }
        self.active_profile_id = resolution.resolved_id.clone();
        resolution
    }

    pub fn active_profile(&self) -> (r: ProfileResolution)
        ensures
            r.matched,
            !r.fallback_used,
            r.resolved_id@ == self.active(),
    {
        proof {
            use_type_invariant(self);
        }
        resolve_canvas_profile(self.active_profile_id.as_str())
    }
}

impl Default for CanvasRegistry {
    fn default() -> (r: Self)
        ensures
            r.active() == CANVAS_PROFILE_DEFAULT@,
    {
        proof {
            reveal_strlit("canvas:default");
        }
        CanvasRegistry { active_profile_id: owned(CANVAS_PROFILE_DEFAULT) }
    }
}

// ----- layout algorithms -----

/// The layout catalog: each algorithm id with its display name.
pub open spec fn layout_name(id: Seq<char>) -> Option<Seq<char>> {
    if id == GRAPH_LAYOUT_FORCE_DIRECTED@ {
        Some("Force Directed"@)
    } else if id == GRAPH_LAYOUT_FORCE_DIRECTED_BARNES_HUT@ {
        Some("Force Directed (Barnes-Hut)"@)
    } else if id == GRAPH_LAYOUT_GRID@ {
        Some("Grid"@)
    } else if id == GRAPH_LAYOUT_TREE@ {
        Some("Tree"@)
    } else {
        None
    }
}

fn layout_display_name(id: &str) -> (r: Option<&'static str>)
    ensures
        match r {
            Some(n) => layout_name(id@) == Some(n@),
            None => layout_name(id@) is None,
        },
{
    if str_eq(id, GRAPH_LAYOUT_FORCE_DIRECTED) {
        Some("Force Directed")
    } else if str_eq(id, GRAPH_LAYOUT_FORCE_DIRECTED_BARNES_HUT) {
        Some("Force Directed (Barnes-Hut)")
    } else if str_eq(id, GRAPH_LAYOUT_GRID) {
        Some("Grid")
    } else if str_eq(id, GRAPH_LAYOUT_TREE) {
        Some("Tree")
    } else {
        None
    }
}

/// What a layout algorithm offers.
#[derive(Debug, Clone, PartialEq, Eq)]
pub struct LayoutCapability {
    pub algorithm_id: String,
    pub display_name: String,
}

/// Which algorithm a requested id resolved to.
#[derive(Debug, Clone, PartialEq, Eq)]
pub struct LayoutResolution {
    pub requested_id: String,
    pub resolved_id: String,
    pub matched: bool,
    pub fallback_used: bool,
    pub capability: LayoutCapability,
}

/// `r` resolves `requested` among the `registered` algorithms of the catalog; an
/// absent id asks for the default algorithm.
pub open spec fn layout_resolves(r: LayoutResolution, requested: Option<Seq<char>>, registered: Seq<Seq<char>>) -> bool {
    let id = match requested {
        Some(id) => id,
        None => GRAPH_LAYOUT_FORCE_DIRECTED@,
    };
    let known = layout_name(id) is Some && registered.contains(id);
    &&& r.requested_id@ == id
    &&& r.matched == known
    &&& r.fallback_used == !known
    &&& r.resolved_id@ == (if known { id } else { GRAPH_LAYOUT_FORCE_DIRECTED@ })
    &&& r.capability.algorithm_id@ == r.resolved_id@
    &&& layout_name(r.resolved_id@) == Some(r.capability.display_name@)
}

fn contains_str(v: &Vec<String>, s: &str) -> (r: bool)
    ensures
        r == crate::text::strs(v@).contains(s@),
{
    let mut i: usize = 0;
    while i < v.len()
        invariant
            i <= v@.len(),
            forall|k: int| 0 <= k < i ==> v@[k]@ != s@,
        decreases v@.len() - i,
    {
        if str_eq(v[i].as_str(), s) {
            assert(crate::text::strs(v@)[i as int] == s@);
            return true;
        }
        i = i + 1;
    }
    proof {
        if crate::text::strs(v@).contains(s@) {
            let k = choose|k: int| 0 <= k < crate::text::strs(v@).len() && crate::text::strs(v@)[k] == s@;
            assert(v@[k]@ == s@);
        }
    }
    false
}

/// The layout algorithm in use and the algorithms registered.
pub struct LayoutRegistry {
    active_algorithm_id: String,
    algorithms: Vec<String>,
}

impl LayoutRegistry {
    #[verifier::type_invariant]
    spec fn consistent(self) -> bool {
        &&& crate::text::strs(self.algorithms@).contains(GRAPH_LAYOUT_FORCE_DIRECTED@)
        &&& layout_name(self.active_algorithm_id@) is Some
        &&& crate::text::strs(self.algorithms@).contains(self.active_algorithm_id@)
    }

    pub closed spec fn active(&self) -> Seq<char> {
        self.active_algorithm_id@
    }

    pub closed spec fn registered(&self) -> Seq<Seq<char>> {
        crate::text::strs(self.algorithms@)
    }

    pub fn active_algorithm_id(&self) -> (r: &str)
        ensures
            r@ == self.active(),
    {
        self.active_algorithm_id.as_str()
    }

    /// Resolves an algorithm id against the catalog and the registered algorithms.
    pub fn resolve_algorithm(&self, algorithm_id: Option<&str>) -> (r: LayoutResolution)
        ensures
            layout_resolves(r, match algorithm_id { Some(id) => Some(id@), None => None }, self.registered()),
    {
        proof {
            use_type_invariant(self);
            reveal_strlit("graph_layout:force_directed");
        }
        let requested = match algorithm_id {
            Some(id) => owned(id),
            None => owned(GRAPH_LAYOUT_FORCE_DIRECTED),
        };
        let known = match layout_display_name(requested.as_str()) {
            Some(_) => contains_str(&self.algorithms, requested.as_str()),
            None => false,
        };
        let resolved = if known { requested.clone() } else { owned(GRAPH_LAYOUT_FORCE_DIRECTED) };
        let display_name = match layout_display_name(resolved.as_str()) {
            Some(n) => owned(n),
            None => owned("Force Directed"),
        };
        let algorithm_id_out = resolved.clone();
        LayoutResolution {
            requested_id: requested,
            resolved_id: resolved,
            matched: known,
            fallback_used: !known,
            capability: LayoutCapability { algorithm_id: algorithm_id_out, display_name },
        }
    }

    pub fn describe_algorithm(&self, algorithm_id: Option<&str>) -> (r: LayoutCapability)
        ensures
            exists|res: LayoutResolution|
                layout_resolves(res, match algorithm_id { Some(id) => Some(id@), None => None }, self.registered())
                && res.capability == r,
    {
        let resolution = self.resolve_algorithm(algorithm_id);
        resolution.capability
    }

    pub fn set_active_algorithm(&mut self, algorithm_id: Option<&str>) -> (r: LayoutResolution)
        ensures
            layout_resolves(r, match algorithm_id { Some(id) => Some(id@), None => None }, old(self).registered()),
            final(self).active() == r.resolved_id@,
            final(self).registered() == old(self).registered(),
    {
        proof {
            use_type_invariant(&*self);
        }
        let resolution = self.resolve_algorithm(algorithm_id);
        self.active_algorithm_id = resolution.resolved_id.clone();
        resolution
    }

    pub fn active_algorithm(&self) -> (r: LayoutResolution)
        ensures
            layout_resolves(r, Some(self.active()), self.registered()),
            r.matched,
            r.resolved_id@ == self.active(),
    {
        proof {
            use_type_invariant(self);
        }
        self.resolve_algorithm(Some(self.active_algorithm_id.as_str()))
    }
}

impl Default for LayoutRegistry {
    fn default() -> (r: Self)
        ensures
            r.active() == GRAPH_LAYOUT_FORCE_DIRECTED@,
            r.registered() == seq![
                GRAPH_LAYOUT_FORCE_DIRECTED@,
                GRAPH_LAYOUT_FORCE_DIRECTED_BARNES_HUT@,
                GRAPH_LAYOUT_GRID@,
                GRAPH_LAYOUT_TREE@,
            ],
    {
        let mut algorithms: Vec<String> = Vec::new();
        algorithms.push(owned(GRAPH_LAYOUT_FORCE_DIRECTED));
        algorithms.push(owned(GRAPH_LAYOUT_FORCE_DIRECTED_BARNES_HUT));
        algorithms.push(owned(GRAPH_LAYOUT_GRID));
        algorithms.push(owned(GRAPH_LAYOUT_TREE));
        proof {
            reveal_strlit("graph_layout:force_directed");
            assert(crate::text::strs(algorithms@)[0] == GRAPH_LAYOUT_FORCE_DIRECTED@);
        }
        assert(crate::text::strs(algorithms@) =~= seq![
            GRAPH_LAYOUT_FORCE_DIRECTED@,
            GRAPH_LAYOUT_FORCE_DIRECTED_BARNES_HUT@,
            GRAPH_LAYOUT_GRID@,
            GRAPH_LAYOUT_TREE@,
        ]);
        LayoutRegistry { active_algorithm_id: owned(GRAPH_LAYOUT_FORCE_DIRECTED), algorithms }
    }
}

} // verus!
