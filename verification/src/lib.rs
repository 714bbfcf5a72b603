//! Graph-patch engine for integrating declarative JSON mod descriptors into
//! decoded Unreal asset graphs.
//!
//! The library models one decoded content unit (a map, a blueprint, a data
//! table) as an [`graph::AssetGraph`]: an ordered list of imports, an ordered
//! list of exports, and the property trees hanging off each export. Four
//! patch strategies locate semantically named anchor points inside a graph
//! and perform structurally correct surgery on it: inserting new nodes,
//! rewriting index references, and recomputing ordering metadata, so the
//! mutated graph still resolves every index it stores.
//!
//! Archive containers and the binary encoding of a graph are the business of
//! outside collaborators; this crate works on the decoded, in-memory form.

use vstd::prelude::*;

pub mod actor_components;
pub mod biomes;
pub mod errors;
pub mod graph;
pub mod merger;
pub mod mutator;
pub mod outside;
pub mod resolver;
pub mod item_lists;
pub mod json;
pub mod paths;
pub mod strutil;
pub mod trailheads;

verus! {

/// The four patch strategies, under the keys their patches arrive with.
#[derive(Clone, Copy, PartialEq, Eq, Structural, Debug)]
pub enum HandlerKind {
    MissionTrailheads,
    LinkedActorComponents,
    ItemListEntries,
    BiomePlacementModifiers,
}

/// The integrator's fixed configuration: the game it patches, the maps the
/// map-wide strategies visit, and the strategy behind each patch key.
pub struct AstroIntegratorConfig;

impl AstroIntegratorConfig {
    /// The name of the game whose archives are patched.
    pub fn game_name() -> (r: String)
        ensures
            r@ == "Astro"@,
    {
        "Astro".to_owned()
    }

    /// The archive record names of the maps the map-wide strategies visit,
    /// in visiting order.
    pub fn map_paths() -> (r: Vec<String>)
        ensures
            r.deep_view() == seq![
                "Astro/Content/Maps/Staging_T2.umap"@,
                "Astro/Content/Maps/Staging_T2_PackedPlanets_Switch.umap"@,
                "Astro/Content/U32_Expansion/U32_Expansion.umap"@,
            ],
    {
        let mut r: Vec<String> = Vec::new();
        r.push("Astro/Content/Maps/Staging_T2.umap".to_owned());
        r.push("Astro/Content/Maps/Staging_T2_PackedPlanets_Switch.umap".to_owned());
        r.push("Astro/Content/U32_Expansion/U32_Expansion.umap".to_owned());
        proof {
            assert(r.deep_view() =~~= seq![
                "Astro/Content/Maps/Staging_T2.umap"@,
                "Astro/Content/Maps/Staging_T2_PackedPlanets_Switch.umap"@,
                "Astro/Content/U32_Expansion/U32_Expansion.umap"@,
            ]);
        }
        r
    }

    /// Each patch key and the strategy that consumes it, in registration
    /// order.
    pub fn get_handlers(&self) -> (r: Vec<(String, HandlerKind)>)
        ensures
            r@.len() == 4,
            r@[0].0@ == "mission_trailheads"@ && r@[0].1 == HandlerKind::MissionTrailheads,
            r@[1].0@ == "linked_actor_components"@ && r@[1].1
                == HandlerKind::LinkedActorComponents,
            r@[2].0@ == "item_list_entries"@ && r@[2].1 == HandlerKind::ItemListEntries,
            r@[3].0@ == "biome_placement_modifiers"@ && r@[3].1
                == HandlerKind::BiomePlacementModifiers,
    {
        let mut r: Vec<(String, HandlerKind)> = Vec::new();
        r.push(("mission_trailheads".to_owned(), HandlerKind::MissionTrailheads));
        r.push(("linked_actor_components".to_owned(), HandlerKind::LinkedActorComponents));
        r.push(("item_list_entries".to_owned(), HandlerKind::ItemListEntries));
        r.push(("biome_placement_modifiers".to_owned(), HandlerKind::BiomePlacementModifiers));
        r
    }
}

} // verus!
