//! Building the validated area from its authored form.

use vstd::prelude::*;
use vstd::std_specs::cmp::PartialEqSpecImpl;
use crate::area::{
    copy_actors, copy_text, create_prop, generator_error, generator_made, prop_made, Area,
    AreaBuilder, GeneratorParams, GeneratorParamsBuilder, PropData, PropDataBuilder,
};
use crate::error::{AreaError, DefinitionKind};
use crate::geometry::within;
use crate::linker::{
    dropped_transitions, encounter_made, encounters_made, encounters_resolvable, kept_transitions,
    lemma_kept_transitions_exact, lemma_linked_triggers_exact, linked_triggers, links,
    stray_triggers, transition_fault, transition_made, transitions_read, triggers_made,
};
use crate::registry::Registry;

verus! {

/// Whether the registry holds the definition of every authored prop.
pub open spec fn props_resolvable(props: Seq<PropDataBuilder>, registry: Registry) -> bool {
    forall|i: int| 0 <= i < props.len() ==> registry.prop_of((#[trigger] props[i]).id@) is Some
}

/// Whether `made` holds the authored props, one for one.
pub open spec fn props_made(
    input: Seq<PropDataBuilder>,
    registry: Registry,
    made: Seq<PropData>,
) -> bool {
    &&& made.len() == input.len()
    &&& forall|i: int| 0 <= i < input.len() ==> prop_made(input[i], registry, #[trigger] made[i])
}

/// What an optional sound resolves to: nothing where none is named, the
/// sound where the registry holds it, and a failure (the outer `None`)
/// where a sound is named that the registry lacks.
pub open spec fn sound_resolved(name: Option<String>, registry: Registry) -> Option<Option<usize>> {
    match name {
        None => Some(None),
        Some(id) => match registry.sound_of(id@) {
            Some(found) => Some(Some(found)),
            None => None,
        },
    }
}

/// What optional generator parameters resolve with.
pub open spec fn optional_generator_error(
    generator: Option<GeneratorParamsBuilder>,
    registry: Registry,
) -> Option<AreaError> {
    match generator {
        Some(builder) => generator_error(builder, registry),
        None => None,
    }
}

/// What building an area from `builder` fails with, if it fails. The steps
/// run in this order, and the first that fails decides: the props, the
/// encounters, the two tile sprites, the generator parameters, the three
/// sounds.
pub open spec fn build_error(builder: AreaBuilder, registry: Registry) -> Option<AreaError> {
    if !props_resolvable(builder.props@, registry) {
        Some(AreaError::MissingDefinition(DefinitionKind::Prop))
    } else if !encounters_resolvable(builder.encounters@, registry) {
        Some(AreaError::MissingDefinition(DefinitionKind::Encounter))
    } else if registry.sprite_of(builder.visibility_tile@) is None || registry.sprite_of(
        builder.explored_tile@,
    ) is None {
        Some(AreaError::MissingDefinition(DefinitionKind::Sprite))
    } else if optional_generator_error(builder.generator, registry) is Some {
        optional_generator_error(builder.generator, registry)
    } else if sound_resolved(builder.ambient_sound, registry) is None || sound_resolved(
        builder.default_music,
        registry,
    ) is None || sound_resolved(builder.default_combat_music, registry) is None {
        Some(AreaError::MissingDefinition(DefinitionKind::Sound))
    } else {
        None
    }
}

/// Whether `area` is the area that `builder` describes under `registry`. The
/// area keeps the builder unchanged, so that the authored form can be
/// written out again from it.
pub open spec fn area_built(builder: AreaBuilder, registry: Registry, area: Area) -> bool {
    &&& area.id == builder.id
    &&& area.name == builder.name
    &&& area.width == builder.width
    &&& area.height == builder.height
    &&& Some(area.visibility_tile) == registry.sprite_of(builder.visibility_tile@)
    &&& Some(area.explored_tile) == registry.sprite_of(builder.explored_tile@)
    &&& area.actors@ == builder.actors@
    &&& props_made(builder.props@, registry, area.props@)
    &&& transitions_read(
        builder.transitions@,
        registry,
        builder.width as int,
        builder.height as int,
        builder.transitions@.len(),
        area.transitions@,
    )
    &&& triggers_made(builder.triggers@, area.triggers@)
    &&& encounters_made(builder.encounters@, registry, area.triggers@, area.encounters@)
    &&& area.vis_dist == builder.max_vis_distance
    &&& area.vis_dist_squared == builder.max_vis_distance * builder.max_vis_distance
    &&& area.vis_dist_up_one_squared == builder.max_vis_up_one_distance
        * builder.max_vis_up_one_distance
    &&& area.world_map_location == builder.world_map_location
    &&& Some(area.ambient_sound) == sound_resolved(builder.ambient_sound, registry)
    &&& Some(area.default_music) == sound_resolved(builder.default_music, registry)
    &&& Some(area.default_combat_music) == sound_resolved(builder.default_combat_music, registry)
    &&& area.on_rest == builder.on_rest
    &&& area.location_kind == builder.location_kind
    &&& match builder.generator {
        Some(authored) => area.generator matches Some(params) && generator_made(
            authored,
            registry,
            params,
        ),
        None => area.generator is None,
    }
    &&& area.builder == builder
    &&& area.diagnostics@ == dropped_transitions(
        builder.transitions@,
        registry,
        builder.width as int,
        builder.height as int,
        builder.transitions@.len(),
    ) + stray_triggers(area.triggers@, builder.encounters@, area.triggers@.len())
}

/// Whether `area` keeps what a validated area must keep under `registry`:
/// every index that an encounter holds names a trigger of the area that is
/// tied to the encounter's location, and the origin and the far corner of
/// every transition lie inside the area.
pub open spec fn area_sound(area: Area, registry: Registry) -> bool {
    &&& forall|e: int, k: int|
        0 <= e < area.encounters@.len() && 0 <= k < area.encounters@[e].triggers@.len() ==> {
            &&& (#[trigger] area.encounters@[e].triggers@[k]) < area.triggers@.len()
            &&& links(
                area.triggers@[area.encounters@[e].triggers@[k] as int].kind,
                area.encounters@[e].location,
            )
        }
    &&& forall|t: int|
        0 <= t < area.transitions@.len() ==> {
            let made = #[trigger] area.transitions@[t];
            let size = registry.footprint_of(made.size);
            &&& within(made.from.x as int, made.from.y as int, area.width as int, area.height as int)
            &&& within(
                made.from.x + size.width,
                made.from.y + size.height,
                area.width as int,
                area.height as int,
            )
        }
}

/// Every area that is built is sound.
pub proof fn lemma_built_area_is_sound(builder: AreaBuilder, registry: Registry, area: Area)
    requires
        area_built(builder, registry, area),
    ensures
        area_sound(area, registry),
{
    assert forall|e: int, k: int|
        0 <= e < area.encounters@.len() && 0 <= k < area.encounters@[e].triggers@.len() implies {
        &&& (#[trigger] area.encounters@[e].triggers@[k]) < area.triggers@.len()
        &&& links(
            area.triggers@[area.encounters@[e].triggers@[k] as int].kind,
            area.encounters@[e].location,
        )
    } by {
        let made = area.encounters@[e];
        assert(encounter_made(builder.encounters@[e], registry, area.triggers@, made));
        assert(area.triggers@.len() == area.triggers.len());
        lemma_linked_triggers_exact(area.triggers@, made.location, area.triggers@.len());
        let linked = linked_triggers(area.triggers@, made.location, area.triggers@.len());
        assert(linked[k] < area.triggers@.len());
    }
    lemma_kept_transitions_exact(
        builder.transitions@,
        registry,
        builder.width as int,
        builder.height as int,
        builder.transitions@.len(),
    );
    let kept = kept_transitions(
        builder.transitions@,
        registry,
        builder.width as int,
        builder.height as int,
        builder.transitions@.len(),
    );
    assert forall|t: int| 0 <= t < area.transitions@.len() implies {
        let made = #[trigger] area.transitions@[t];
        let size = registry.footprint_of(made.size);
        &&& within(made.from.x as int, made.from.y as int, area.width as int, area.height as int)
        &&& within(
            made.from.x + size.width,
            made.from.y + size.height,
            area.width as int,
            area.height as int,
        )
    } by {
        let authored = builder.transitions@[kept[t]];
        assert(transition_made(authored, registry, area.transitions@[t]));
        assert(transition_fault(
            authored,
            registry,
            builder.width as int,
            builder.height as int,
        ) is None);
    }
}

/// A missing encounter definition is fatal: where the registry lacks the
/// definition of one authored encounter, building the area fails with a
/// missing definition, whatever else the builder holds.
pub proof fn lemma_missing_encounter_is_fatal(builder: AreaBuilder, registry: Registry, e: int)
    requires
        0 <= e < builder.encounters@.len(),
        registry.encounter_of(builder.encounters@[e].id@) is None,
    ensures
        build_error(builder, registry) matches Some(AreaError::MissingDefinition(_)),
        props_resolvable(builder.props@, registry) ==> build_error(builder, registry) == Some(
            AreaError::MissingDefinition(DefinitionKind::Encounter),
        ),
{
}

/// Resolves an optional sound.
pub fn resolve_sound(name: &Option<String>, registry: &Registry) -> (r: Result<
    Option<usize>,
    AreaError,
>)
    ensures
        match r {
            Ok(found) => sound_resolved(*name, *registry) == Some(found),
            Err(e) => sound_resolved(*name, *registry) is None && e == AreaError::MissingDefinition(
                DefinitionKind::Sound,
            ),
        },
{
    match name {
        None => Ok(None),
        Some(id) => match registry.sound(id) {
            Some(found) => Ok(Some(found)),
            None => Err(AreaError::MissingDefinition(DefinitionKind::Sound)),
        },
    }
}

/// Makes every authored prop. Fails where the registry lacks the definition
/// of one of them, and only then.
pub fn create_props(input: &Vec<PropDataBuilder>, registry: &Registry) -> (r: Result<
    Vec<PropData>,
    AreaError,
>)
    ensures
        match r {
            Ok(made) => props_resolvable(input@, *registry) && props_made(
                input@,
                *registry,
                made@,
            ),
            Err(e) => !props_resolvable(input@, *registry) && e == AreaError::MissingDefinition(
                DefinitionKind::Prop,
            ),
        },
{
    let mut made: Vec<PropData> = Vec::new();
    let mut i: usize = 0;
    while i < input.len()
        invariant
            i <= input.len(),
            made@.len() == i,
            forall|j: int|
                0 <= j < i ==> registry.prop_of((#[trigger] input@[j]).id@) is Some,
            forall|j: int| 0 <= j < i ==> prop_made(input@[j], *registry, #[trigger] made@[j]),
        decreases input.len() - i,
    {
        match create_prop(&input[i], registry) {
            Ok(prop) => {
                made.push(prop);
            },
            Err(e) => {
                return Err(e);
            },
        }
        i = i + 1;
    }
    Ok(made)
}

impl Area {
    /// Builds the validated area. Names are resolved against `registry`;
    /// triggers are linked to encounters by location; transitions that do
    /// not fit are left out. Authoring mistakes that do not stop the area
    /// from working are collected in `diagnostics`, transitions first. The
    /// area that comes out is sound, and it keeps the builder as it was
    /// handed in: grids, raw lists with what was dropped from the validated
    /// ones, and generator parameters.
    ///
    /// Fails where a prop, an encounter, a tile sprite, a generator
    /// definition or a sound is named that the registry lacks, and only
    /// then.
    pub fn new(builder: AreaBuilder, registry: &Registry) -> (r: Result<Area, AreaError>)
        requires
            builder.measures_fit(),
        ensures
            match r {
                Ok(area) => {
                    &&& build_error(builder, *registry) is None
                    &&& area_built(builder, *registry, area)
                    &&& area_sound(area, *registry)
                },
                Err(e) => build_error(builder, *registry) == Some(e),
            },
    {
        let width: i32 = builder.width as i32;
        let height: i32 = builder.height as i32;
        let props = match create_props(&builder.props, registry) {
            Ok(made) => made,
            Err(e) => {
                return Err(e);
            },
        };
        let (transitions, mut diagnostics) = Area::read_transitions(
            &builder.transitions,
            registry,
            width,
            height,
        );
        let (triggers, encounters, mut strays) = match Area::read_triggers_and_encounters(
            &builder,
            registry,
        ) {
            Ok(read) => read,
            Err(e) => {
                return Err(e);
            },
        };
        diagnostics.append(&mut strays);
        let visibility_tile = match registry.sprite(&builder.visibility_tile) {
            Some(found) => found,
            None => {
                return Err(AreaError::MissingDefinition(DefinitionKind::Sprite));
            },
        };
        let explored_tile = match registry.sprite(&builder.explored_tile) {
            Some(found) => found,
            None => {
                return Err(AreaError::MissingDefinition(DefinitionKind::Sprite));
            },
        };
        let generator = match &builder.generator {
            Some(authored) => match GeneratorParams::new(authored.clone(), registry) {
                Ok(params) => Some(params),
                Err(e) => {
                    return Err(e);
                },
            },
            None => None,
        };
        let ambient_sound = match resolve_sound(&builder.ambient_sound, registry) {
            Ok(found) => found,
            Err(e) => {
                return Err(e);
            },
        };
        let default_music = match resolve_sound(&builder.default_music, registry) {
            Ok(found) => found,
            Err(e) => {
                return Err(e);
            },
        };
        let default_combat_music = match resolve_sound(&builder.default_combat_music, registry) {
            Ok(found) => found,
            Err(e) => {
                return Err(e);
            },
        };
        let vis_dist: i32 = builder.max_vis_distance;
        let vis_up_one: i32 = builder.max_vis_up_one_distance;
        assert(vis_dist * vis_dist >= 0 && vis_up_one * vis_up_one >= 0) by (nonlinear_arith);
        let area =
            Area {
                id: builder.id.clone(),
                name: builder.name.clone(),
                width,
                height,
                visibility_tile,
                explored_tile,
                actors: copy_actors(&builder.actors),
                props,
                transitions,
                encounters,
                triggers,
                vis_dist,
                vis_dist_squared: vis_dist * vis_dist,
                vis_dist_up_one_squared: vis_up_one * vis_up_one,
                world_map_location: copy_text(&builder.world_map_location),
                ambient_sound,
                default_music,
                default_combat_music,
                on_rest: builder.on_rest.clone(),
                location_kind: builder.location_kind,
                generator,
                builder,
                diagnostics,
            };
        proof {
            lemma_built_area_is_sound(builder, *registry, area);
        }
        Ok(area)
    }

    /// Whether `(x, y)` names a tile of this area.
    pub fn coords_valid(&self, x: i32, y: i32) -> (valid: bool)
        ensures
            valid == within(x as int, y as int, self.width as int, self.height as int),
    {
        x >= 0 && y >= 0 && x < self.width && y < self.height
    }
}

/// Two areas are the same area where their identifiers are equal; no other
/// field is compared.
impl PartialEq for Area {
    fn eq(&self, other: &Area) -> (same: bool) {
        self.id == other.id
    }
}

impl PartialEqSpecImpl for Area {
    open spec fn obeys_eq_spec() -> bool {
        true
    }

    open spec fn eq_spec(&self, other: &Area) -> bool {
        self.id@ == other.id@
    }
}

} // verus!
