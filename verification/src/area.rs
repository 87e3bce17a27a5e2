//! The authored and the validated form of an area, and the parts that both
//! are made of.

use vstd::prelude::*;
use crate::document::{layer_names, LayerPoints};
use crate::error::{AreaError, DefinitionKind};
use crate::geometry::{Point, Size};
use crate::registry::{all_resolved, resolve_all, Registry};
use crate::lookup::names_view;

verus! {

/// The largest width or height that an authored area is meant to have.
pub const MAX_AREA_SIZE: i32 = 128;

/// When a trigger fires.
#[derive(Debug, Clone, Copy, PartialEq, Eq, Structural)]
pub enum TriggerKind {
    OnCampaignStart,
    OnAreaLoad,
    OnPlayerEnter { location: Point, size: Size },
    OnEncounterCleared { encounter_location: Point },
    OnEncounterActivated { encounter_location: Point },
}

/// One action of a trigger. The area model carries actions in order and does
/// not read them.
#[derive(Debug)]
pub struct OnTrigger {
    pub action: String,
}

/// One stack of items inside a prop. The area model carries it and does not
/// read it.
#[derive(Debug)]
pub struct ItemListEntrySaveState {
    pub quantity: u32,
    pub item: String,
}

/// A trigger of the validated area: when it fires, what it runs, whether it
/// starts enabled and whether it fires more than once.
#[derive(Debug, Clone)]
pub struct Trigger {
    pub kind: TriggerKind,
    pub on_activate: Vec<OnTrigger>,
    pub initially_enabled: bool,
    pub fire_more_than_once: bool,
}

/// Where a transition leads.
#[derive(Debug)]
pub enum ToKind {
    Area { id: String, x: i32, y: i32 },
    CurArea { x: i32, y: i32 },
    WorldMap,
    FindLink { id: String, x_offset: i32, y_offset: i32 },
}

/// A transition of the validated area. `size` and `image_display` are the
/// resolved object size and image: their indices in the registry.
#[derive(Debug, Clone)]
pub struct Transition {
    pub from: Point,
    pub size: usize,
    pub to: ToKind,
    pub hover_text: String,
    pub image_display: usize,
}

/// An actor placed in the area.
#[derive(Debug)]
pub struct ActorData {
    pub id: String,
    pub location: Point,
    pub unique_id: Option<String>,
}

/// A prop of the validated area. `prop` is the resolved prop definition: its
/// index in the registry.
#[derive(Debug, Clone)]
pub struct PropData {
    pub prop: usize,
    pub location: Point,
    pub items: Vec<ItemListEntrySaveState>,
    pub enabled: bool,
    pub hover_text: Option<String>,
}

/// An encounter of the validated area. `encounter` is the resolved encounter
/// definition: its index in the registry. `triggers` holds the indices, in
/// the area's trigger list, of the triggers that are tied to this
/// encounter's location.
#[derive(Debug, Clone)]
pub struct EncounterData {
    pub encounter: usize,
    pub location: Point,
    pub size: Size,
    pub triggers: Vec<usize>,
}

/// The kind of place that an area is.
#[derive(Debug, Clone, Copy, PartialEq, Eq, Hash, PartialOrd, Ord, Structural)]
pub enum LocationKind {
    Outdoors,
    Indoors,
    Underground,
}

/// What resting in the area does.
#[derive(Debug)]
pub enum OnRest {
    Disabled { message: String },
    FireScript { id: String, func: String },
}

/// A trigger as authored.
#[derive(Debug, Clone)]
pub struct TriggerBuilder {
    pub kind: TriggerKind,
    pub on_activate: Vec<OnTrigger>,
    pub initially_enabled: bool,
    pub fire_more_than_once: bool,
}

/// A transition as authored: `size` and `image_display` name an object
/// size and an image.
#[derive(Debug, Clone)]
pub struct TransitionBuilder {
    pub from: Point,
    pub size: String,
    pub to: ToKind,
    pub hover_text: String,
    pub image_display: String,
}

/// An encounter as authored: `id` names its encounter definition.
#[derive(Debug)]
pub struct EncounterDataBuilder {
    pub id: String,
    pub location: Point,
    pub size: Size,
}

/// A prop as authored: `id` names its prop definition.
#[derive(Debug)]
pub struct PropDataBuilder {
    pub id: String,
    pub location: Point,
    pub items: Vec<ItemListEntrySaveState>,
    pub enabled: Option<bool>,
    pub hover_text: Option<String>,
}

/// A transition that procedural generation places.
#[derive(Debug)]
pub struct TransitionAreaParams {
    pub to: String,
    pub kind: String,
    pub hover_text: String,
}

/// The authored parameters of procedural generation: the identifiers of the
/// encounter and prop definitions that it may place.
#[derive(Debug)]
pub struct GeneratorParamsBuilder {
    pub id: String,
    pub transitions: Vec<TransitionAreaParams>,
    pub encounters: Vec<String>,
    pub props: Vec<String>,
}

/// The resolved parameters of procedural generation: `encounters` and
/// `props` hold the indices of the definitions in the registry.
#[derive(Debug, Clone)]
pub struct GeneratorParams {
    pub id: String,
    pub transitions: Vec<TransitionAreaParams>,
    pub encounters: Vec<usize>,
    pub props: Vec<usize>,
}

/// What made a transition unfit for the validated area.
#[derive(Debug, Clone, Copy, PartialEq, Eq, Structural)]
pub enum TransitionFault {
    ImageMissing,
    SizeMissing,
    OriginOutside,
    FootprintOutside,
}

/// Something that was wrong in the authored data and did not stop the area
/// from being built. `index` counts in the builder's list.
#[derive(Debug, Clone, Copy, PartialEq, Eq, Structural)]
pub enum Diagnostic {
    /// The transition was left out of the validated area.
    TransitionDropped { index: usize, fault: TransitionFault },
    /// The trigger is tied to a location at which no encounter stands.
    UnmatchedTrigger { index: usize },
}

/// The authored form of an area, with its grids unpacked. The layer set is
/// a list of named layers; `layers_named_once` says that it is keyed by
/// name, and `grids_fit` that the grids match the area's size.
#[derive(Debug)]
pub struct AreaBuilder {
    pub id: String,
    pub name: String,
    pub width: usize,
    pub height: usize,
    pub visibility_tile: String,
    pub explored_tile: String,
    pub max_vis_distance: i32,
    pub max_vis_up_one_distance: i32,
    pub world_map_location: Option<String>,
    pub ambient_sound: Option<String>,
    pub default_music: Option<String>,
    pub default_combat_music: Option<String>,
    pub on_rest: OnRest,
    pub location_kind: LocationKind,
    pub generator: Option<GeneratorParamsBuilder>,
    pub layers: Vec<String>,
    pub entity_layer: usize,
    pub actors: Vec<ActorData>,
    pub props: Vec<PropDataBuilder>,
    pub encounters: Vec<EncounterDataBuilder>,
    pub transitions: Vec<TransitionBuilder>,
    pub triggers: Vec<TriggerBuilder>,
    pub terrain: Vec<Option<String>>,
    pub walls: Vec<(u8, Option<String>)>,
    pub layer_set: Vec<LayerPoints>,
    pub elevation: Vec<u8>,
}

/// The validated form of an area. Resolved definitions are indices into the
/// registry that the area was built against. The area keeps the builder it
/// was made from, whole, so that the authored form can be written out again.
#[derive(Debug)]
pub struct Area {
    pub id: String,
    pub name: String,
    pub width: i32,
    pub height: i32,
    pub visibility_tile: usize,
    pub explored_tile: usize,
    pub actors: Vec<ActorData>,
    pub props: Vec<PropData>,
    pub transitions: Vec<Transition>,
    pub encounters: Vec<EncounterData>,
    pub triggers: Vec<Trigger>,
    pub vis_dist: i32,
    pub vis_dist_squared: i32,
    pub vis_dist_up_one_squared: i32,
    pub world_map_location: Option<String>,
    pub ambient_sound: Option<usize>,
    pub default_music: Option<usize>,
    pub default_combat_music: Option<usize>,
    pub on_rest: OnRest,
    pub location_kind: LocationKind,
    pub generator: Option<GeneratorParams>,
    pub builder: AreaBuilder,
    pub diagnostics: Vec<Diagnostic>,
}

impl Clone for OnTrigger {
    fn clone(&self) -> (copy: Self)
        ensures
            copy == *self,
    {
        OnTrigger { action: self.action.clone() }
    }
}

impl Clone for ItemListEntrySaveState {
    fn clone(&self) -> (copy: Self)
        ensures
            copy == *self,
    {
        ItemListEntrySaveState { quantity: self.quantity, item: self.item.clone() }
    }
}

impl Clone for ToKind {
    fn clone(&self) -> (copy: Self)
        ensures
            copy == *self,
    {
        match self {
            ToKind::Area { id, x, y } => ToKind::Area { id: id.clone(), x: *x, y: *y },
            ToKind::CurArea { x, y } => ToKind::CurArea { x: *x, y: *y },
            ToKind::WorldMap => ToKind::WorldMap,
            ToKind::FindLink { id, x_offset, y_offset } => ToKind::FindLink {
                id: id.clone(),
                x_offset: *x_offset,
                y_offset: *y_offset,
            },
        }
    }
}

impl Clone for OnRest {
    fn clone(&self) -> (copy: Self)
        ensures
            copy == *self,
    {
        match self {
            OnRest::Disabled { message } => OnRest::Disabled { message: message.clone() },
            OnRest::FireScript { id, func } => OnRest::FireScript {
                id: id.clone(),
                func: func.clone(),
            },
        }
    }
}

impl Clone for ActorData {
    fn clone(&self) -> (copy: Self)
        ensures
            copy == *self,
    {
        ActorData {
            id: self.id.clone(),
            location: self.location,
            unique_id: copy_text(&self.unique_id),
        }
    }
}

impl Clone for TransitionAreaParams {
    fn clone(&self) -> (copy: Self)
        ensures
            copy == *self,
    {
        TransitionAreaParams {
            to: self.to.clone(),
            kind: self.kind.clone(),
            hover_text: self.hover_text.clone(),
        }
    }
}

impl Clone for GeneratorParamsBuilder {
    fn clone(&self) -> (copy: Self)
        ensures
            copy.id == self.id,
            copy.transitions@ == self.transitions@,
            copy.encounters@ == self.encounters@,
            copy.props@ == self.props@,
    {
        GeneratorParamsBuilder {
            id: self.id.clone(),
            transitions: self.transitions.clone(),
            encounters: self.encounters.clone(),
            props: self.props.clone(),
        }
    }
}

/// A copy of an optional text.
pub fn copy_text(text: &Option<String>) -> (copy: Option<String>)
    ensures
        copy == *text,
{
    match text {
        Some(s) => Some(s.clone()),
        None => None,
    }
}

/// A copy of a list of actions.
pub fn copy_actions(actions: &Vec<OnTrigger>) -> (copy: Vec<OnTrigger>)
    ensures
        copy@ == actions@,
{
    let mut copy: Vec<OnTrigger> = Vec::new();
    let mut i: usize = 0;
    while i < actions.len()
        invariant
            i <= actions.len(),
            copy@ == actions@.take(i as int),
        decreases actions.len() - i,
    {
        copy.push(actions[i].clone());
        i = i + 1;
    }
    copy
}

/// A copy of a list of item stacks.
pub fn copy_items(items: &Vec<ItemListEntrySaveState>) -> (copy: Vec<ItemListEntrySaveState>)
    ensures
        copy@ == items@,
{
    let mut copy: Vec<ItemListEntrySaveState> = Vec::new();
    let mut i: usize = 0;
    while i < items.len()
        invariant
            i <= items.len(),
            copy@ == items@.take(i as int),
        decreases items.len() - i,
    {
        copy.push(items[i].clone());
        i = i + 1;
    }
    copy
}

/// A copy of a list of actors.
pub fn copy_actors(actors: &Vec<ActorData>) -> (copy: Vec<ActorData>)
    ensures
        copy@ == actors@,
{
    let mut copy: Vec<ActorData> = Vec::new();
    let mut i: usize = 0;
    while i < actors.len()
        invariant
            i <= actors.len(),
            copy@ == actors@.take(i as int),
        decreases actors.len() - i,
    {
        copy.push(actors[i].clone());
        i = i + 1;
    }
    copy
}

impl AreaBuilder {
    /// Whether every per-tile grid has one entry for each tile.
    pub open spec fn grids_fit(self) -> bool {
        &&& self.terrain@.len() == self.width * self.height
        &&& self.walls@.len() == self.width * self.height
        &&& self.elevation@.len() == self.width * self.height
    }

    /// Whether no two layers of the layer set have the same name.
    pub open spec fn layers_named_once(self) -> bool {
        layer_names(self.layer_set@).no_duplicates()
    }

    /// Whether the area's measures can be held by the validated area: the
    /// width and the height as `i32`, and the squares of the two visibility
    /// distances as `i32`.
    pub open spec fn measures_fit(self) -> bool {
        &&& self.width <= i32::MAX
        &&& self.height <= i32::MAX
        &&& self.max_vis_distance * self.max_vis_distance <= i32::MAX
        &&& self.max_vis_up_one_distance * self.max_vis_up_one_distance <= i32::MAX
    }

    /// Tells whether every per-tile grid has one entry for each tile.
    pub fn has_fitting_grids(&self) -> (fit: bool)
        ensures
            fit == self.grids_fit(),
    {
        let tiles: u128 = tile_count(self.width, self.height);
        self.terrain.len() as u128 == tiles && self.walls.len() as u128 == tiles
            && self.elevation.len() as u128 == tiles
    }

    /// Tells whether no two layers of the layer set have the same name.
    pub fn has_layers_named_once(&self) -> (fit: bool)
        ensures
            fit == self.layers_named_once(),
    {
        let ghost names = layer_names(self.layer_set@);
        let mut i: usize = 0;
        while i < self.layer_set.len()
            invariant
                i <= self.layer_set.len(),
                names == layer_names(self.layer_set@),
                forall|a: int, b: int| 0 <= a < b < i ==> names[a] != names[b],
            decreases self.layer_set.len() - i,
        {
            let mut j: usize = 0;
            while j < i
                invariant
                    j <= i,
                    i < self.layer_set.len(),
                    names == layer_names(self.layer_set@),
                    forall|a: int| 0 <= a < j ==> names[a] != names[i as int],
                decreases i - j,
            {
                if self.layer_set[j].name == self.layer_set[i].name {
                    assert(names[j as int] == names[i as int]);
                    return false;
                }
                j = j + 1;
            }
            i = i + 1;
        }
        assert forall|a: int, b: int|
            0 <= a < names.len() && 0 <= b < names.len() && a != b implies names[a] != names[b] by {
            if b < a {
                assert(names[b] != names[a]);
            }
        }
        true
    }

    /// Tells whether the area's measures can be held by the validated area.
    pub fn has_fitting_measures(&self) -> (fit: bool)
        ensures
            fit == self.measures_fit(),
    {
        self.width <= i32::MAX as usize && self.height <= i32::MAX as usize && square_fits(
            self.max_vis_distance,
        ) && square_fits(self.max_vis_up_one_distance)
    }
}

/// The number of tiles of a `width` by `height` grid.
pub fn tile_count(width: usize, height: usize) -> (tiles: u128)
    ensures
        tiles == width * height,
{
    assert(width * height <= 0xffff_ffff_ffff_ffff * 0xffff_ffff_ffff_ffff) by (nonlinear_arith)
        requires
            width <= 0xffff_ffff_ffff_ffff,
            height <= 0xffff_ffff_ffff_ffff,
    ;
    width as u128 * height as u128
}

/// Tells whether the square of `distance` can be held as an `i32`.
pub fn square_fits(distance: i32) -> (fits: bool)
    ensures
        fits == (distance * distance <= i32::MAX),
{
    let wide: i64 = distance as i64;
    assert(-0x8000_0000 * 0x8000_0000 <= wide * wide <= 0x8000_0000 * 0x8000_0000)
        by (nonlinear_arith)
        requires
            -0x8000_0000 <= wide <= 0x8000_0000,
    ;
    wide * wide <= i32::MAX as i64
}

impl TriggerKind {
    /// The location of the encounter that this kind of trigger is tied to,
    /// if it is tied to one.
    pub open spec fn tied_to(self) -> Option<Point> {
        match self {
            TriggerKind::OnEncounterCleared { encounter_location } => Some(encounter_location),
            TriggerKind::OnEncounterActivated { encounter_location } => Some(encounter_location),
            _ => None,
        }
    }

    /// The location of the encounter that this kind of trigger is tied to,
    /// if it is tied to one.
    pub fn encounter_location(&self) -> (location: Option<Point>)
        ensures
            location == self.tied_to(),
    {
        match self {
            TriggerKind::OnEncounterCleared { encounter_location } => Some(*encounter_location),
            TriggerKind::OnEncounterActivated { encounter_location } => Some(*encounter_location),
            _ => None,
        }
    }
}

impl LocationKind {
    /// The three kinds of location, in their order.
    pub fn iter() -> (kinds: Vec<LocationKind>)
        ensures
            kinds@ == seq![LocationKind::Outdoors, LocationKind::Indoors, LocationKind::Underground],
    {
        let mut kinds: Vec<LocationKind> = Vec::new();
        kinds.push(LocationKind::Outdoors);
        kinds.push(LocationKind::Indoors);
        kinds.push(LocationKind::Underground);
        assert(kinds@ =~= seq![
            LocationKind::Outdoors,
            LocationKind::Indoors,
            LocationKind::Underground,
        ]);
        kinds
    }
}

/// What resolving generator parameters fails with, if it fails: a missing
/// encounter definition is reported before a missing prop definition.
pub open spec fn generator_error(builder: GeneratorParamsBuilder, registry: Registry) -> Option<
    AreaError,
> {
    if !all_resolved(names_view(registry.encounters@), names_view(builder.encounters@)) {
        Some(AreaError::MissingDefinition(DefinitionKind::Encounter))
    } else if !all_resolved(names_view(registry.props@), names_view(builder.props@)) {
        Some(AreaError::MissingDefinition(DefinitionKind::Prop))
    } else {
        None
    }
}

/// Whether `params` is `builder` with its identifiers resolved.
pub open spec fn generator_made(
    builder: GeneratorParamsBuilder,
    registry: Registry,
    params: GeneratorParams,
) -> bool {
    &&& params.id == builder.id
    &&& params.transitions@ == builder.transitions@
    &&& params.encounters@.len() == builder.encounters@.len()
    &&& forall|i: int|
        0 <= i < builder.encounters@.len() ==> Some(#[trigger] params.encounters@[i])
            == registry.encounter_of(builder.encounters@[i]@)
    &&& params.props@.len() == builder.props@.len()
    &&& forall|i: int|
        0 <= i < builder.props@.len() ==> Some(#[trigger] params.props@[i]) == registry.prop_of(
            builder.props@[i]@,
        )
}

impl GeneratorParams {
    /// Resolves the definitions that generation may place. Fails where one
    /// of them is missing from the registry, and only then.
    pub fn new(builder: GeneratorParamsBuilder, registry: &Registry) -> (r: Result<
        GeneratorParams,
        AreaError,
    >)
        ensures
            match r {
                Ok(params) => generator_error(builder, *registry) is None && generator_made(
                    builder,
                    *registry,
                    params,
                ),
                Err(e) => generator_error(builder, *registry) == Some(e),
            },
    {
        let encounters = match resolve_all(&registry.encounters, &builder.encounters) {
            Some(found) => found,
            None => {
                return Err(AreaError::MissingDefinition(DefinitionKind::Encounter));
            },
        };
        let props = match resolve_all(&registry.props, &builder.props) {
            Some(found) => found,
            None => {
                return Err(AreaError::MissingDefinition(DefinitionKind::Prop));
            },
        };
        Ok(GeneratorParams { id: builder.id, transitions: builder.transitions, encounters, props })
    }
}

/// Whether `made` is the prop that `builder` describes: a prop is enabled
/// unless its builder says otherwise.
pub open spec fn prop_made(builder: PropDataBuilder, registry: Registry, made: PropData) -> bool {
    &&& Some(made.prop) == registry.prop_of(builder.id@)
    &&& made.location == builder.location
    &&& made.items@ == builder.items@
    &&& made.enabled == (builder.enabled != Some(false))
    &&& made.hover_text == builder.hover_text
}

/// Makes the prop that `builder` describes. Fails where the registry holds
/// no prop definition of that identifier, and only then.
pub fn create_prop(builder: &PropDataBuilder, registry: &Registry) -> (r: Result<
    PropData,
    AreaError,
>)
    ensures
        match r {
            Ok(made) => prop_made(*builder, *registry, made),
            Err(e) => registry.prop_of(builder.id@) is None && e == AreaError::MissingDefinition(
                DefinitionKind::Prop,
            ),
        },
{
    let prop = match registry.prop(&builder.id) {
        Some(found) => found,
        None => {
            return Err(AreaError::MissingDefinition(DefinitionKind::Prop));
        },
    };
    let enabled = match builder.enabled {
        Some(flag) => flag,
        None => true,
    };
    Ok(
        PropData {
            prop,
            location: builder.location,
            items: copy_items(&builder.items),
            enabled,
            hover_text: copy_text(&builder.hover_text),
        },
    )
}

} // verus!
