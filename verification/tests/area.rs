use sulis_area::area::{
    copy_actions, copy_actors, copy_items, copy_text, create_prop, square_fits, tile_count,
    ActorData, Area, AreaBuilder, Diagnostic, EncounterDataBuilder, GeneratorParams,
    GeneratorParamsBuilder, ItemListEntrySaveState, LocationKind, OnRest, OnTrigger,
    PropDataBuilder, ToKind, TransitionAreaParams, TransitionBuilder, TransitionFault,
    TriggerBuilder, TriggerKind, MAX_AREA_SIZE,
};
use sulis_area::assembly::{create_props, resolve_sound};
use sulis_area::document::LayerPoints;
use sulis_area::error::{AreaError, DefinitionKind};
use sulis_area::geometry::{Point, Size};
use sulis_area::registry::{resolve, resolve_all, ObjectSize, Registry};

fn registry() -> Registry {
    let mut registry = Registry::new();
    registry.sprites = vec!["vis".to_string(), "explored".to_string()];
    registry.images = vec!["arrow".to_string(), "door".to_string()];
    registry.sounds = vec!["wind".to_string(), "drums".to_string()];
    registry.encounters = vec!["goblins".to_string(), "wolves".to_string()];
    registry.props = vec!["chest".to_string(), "barrel".to_string()];
    registry.sizes = vec![
        ObjectSize { id: "1by1".to_string(), width: 1, height: 1 },
        ObjectSize { id: "2by2".to_string(), width: 2, height: 2 },
        ObjectSize { id: "4by4".to_string(), width: 4, height: 4 },
    ];
    registry
}

fn builder(width: usize, height: usize) -> AreaBuilder {
    AreaBuilder {
        id: "test_area".to_string(),
        name: "Test Area".to_string(),
        width,
        height,
        visibility_tile: "vis".to_string(),
        explored_tile: "explored".to_string(),
        max_vis_distance: 20,
        max_vis_up_one_distance: 6,
        world_map_location: Some("north".to_string()),
        ambient_sound: None,
        default_music: None,
        default_combat_music: None,
        on_rest: OnRest::Disabled { message: "No rest here".to_string() },
        location_kind: LocationKind::Outdoors,
        generator: None,
        layers: vec!["terrain".to_string()],
        entity_layer: 0,
        actors: Vec::new(),
        props: Vec::new(),
        encounters: Vec::new(),
        transitions: Vec::new(),
        triggers: Vec::new(),
        terrain: vec![None; width * height],
        walls: vec![(0u8, None); width * height],
        layer_set: Vec::new(),
        elevation: vec![0u8; width * height],
    }
}

fn cleared_at(x: i32, y: i32) -> TriggerBuilder {
    TriggerBuilder {
        kind: TriggerKind::OnEncounterCleared { encounter_location: Point::new(x, y) },
        on_activate: vec![OnTrigger { action: "say_line".to_string() }],
        initially_enabled: true,
        fire_more_than_once: false,
    }
}

fn transition(x: i32, y: i32, size: &str, image: &str) -> TransitionBuilder {
    TransitionBuilder {
        from: Point::new(x, y),
        size: size.to_string(),
        to: ToKind::WorldMap,
        hover_text: "Leave".to_string(),
        image_display: image.to_string(),
    }
}

#[test]
fn triggers_are_linked_by_location() {
    let mut b = builder(3, 3);
    b.encounters.push(EncounterDataBuilder {
        id: "goblins".to_string(),
        location: Point::new(1, 1),
        size: Size::new(1, 1),
    });
    b.triggers.push(cleared_at(1, 1));
    b.triggers.push(cleared_at(2, 2));
    let area = Area::new(b, &registry()).unwrap();
    assert_eq!(area.width, 3);
    assert_eq!(area.height, 3);
    assert_eq!(area.encounters.len(), 1);
    assert_eq!(area.encounters[0].triggers, vec![0usize]);
    assert_eq!(area.encounters[0].encounter, 0);
    assert_eq!(area.encounters[0].location, Point::new(1, 1));
    assert_eq!(area.encounters[0].size, Size::new(1, 1));
    assert_eq!(area.triggers.len(), 2);
    assert_eq!(
        area.triggers[1].kind,
        TriggerKind::OnEncounterCleared { encounter_location: Point::new(2, 2) }
    );
    assert_eq!(area.triggers[1].on_activate.len(), 1);
    assert_eq!(area.triggers[1].on_activate[0].action, "say_line");
    assert_eq!(area.diagnostics, vec![Diagnostic::UnmatchedTrigger { index: 1 }]);
}

#[test]
fn triggers_of_both_encounter_kinds_are_linked() {
    let mut b = builder(8, 8);
    for (id, x) in [("goblins", 1), ("wolves", 5)] {
        b.encounters.push(EncounterDataBuilder {
            id: id.to_string(),
            location: Point::new(x, 2),
            size: Size::new(2, 2),
        });
    }
    b.triggers.push(cleared_at(5, 2));
    b.triggers.push(TriggerBuilder {
        kind: TriggerKind::OnAreaLoad,
        on_activate: Vec::new(),
        initially_enabled: true,
        fire_more_than_once: true,
    });
    b.triggers.push(TriggerBuilder {
        kind: TriggerKind::OnEncounterActivated { encounter_location: Point::new(1, 2) },
        on_activate: Vec::new(),
        initially_enabled: false,
        fire_more_than_once: false,
    });
    b.triggers.push(TriggerBuilder {
        kind: TriggerKind::OnPlayerEnter { location: Point::new(1, 2), size: Size::new(1, 1) },
        on_activate: Vec::new(),
        initially_enabled: true,
        fire_more_than_once: false,
    });
    b.triggers.push(cleared_at(1, 2));
    let area = Area::new(b, &registry()).unwrap();
    assert_eq!(area.encounters[0].triggers, vec![2usize, 4]);
    assert_eq!(area.encounters[1].triggers, vec![0usize]);
    assert_eq!(area.encounters[1].encounter, 1);
    assert!(area.diagnostics.is_empty());
    assert!(area.triggers[1].fire_more_than_once);
    assert!(!area.triggers[2].initially_enabled);
}

#[test]
fn transition_outside_bounds_is_dropped() {
    let mut b = builder(3, 3);
    b.transitions.push(transition(0, 0, "4by4", "door"));
    b.transitions.push(transition(0, 0, "2by2", "door"));
    let area = Area::new(b, &registry()).unwrap();
    assert_eq!(area.transitions.len(), 1);
    assert_eq!(area.transitions[0].size, 1);
    assert_eq!(area.transitions[0].image_display, 1);
    assert_eq!(area.transitions[0].from, Point::new(0, 0));
    assert_eq!(area.transitions[0].hover_text, "Leave");
    assert!(matches!(area.transitions[0].to, ToKind::WorldMap));
    assert_eq!(area.builder.transitions.len(), 2);
    assert_eq!(area.builder.transitions[0].size, "4by4");
    assert_eq!(
        area.diagnostics,
        vec![Diagnostic::TransitionDropped { index: 0, fault: TransitionFault::FootprintOutside }]
    );
}

#[test]
fn transitions_keep_authored_order_and_report_each_fault() {
    let mut b = builder(5, 5);
    b.transitions.push(transition(1, 1, "1by1", "arrow"));
    b.transitions.push(transition(1, 1, "1by1", "missing"));
    b.transitions.push(transition(1, 1, "missing", "arrow"));
    b.transitions.push(transition(-1, 0, "1by1", "arrow"));
    b.transitions.push(transition(5, 0, "1by1", "arrow"));
    b.transitions.push(transition(4, 4, "1by1", "arrow"));
    b.transitions.push(transition(2, 2, "2by2", "door"));
    b.transitions.push(transition(3, 3, "2by2", "door"));
    let (kept, reports) = Area::read_transitions(&b.transitions, &registry(), 5, 5);
    assert_eq!(kept.len(), 2);
    assert_eq!(kept[0].from, Point::new(1, 1));
    assert_eq!(kept[0].size, 0);
    assert_eq!(kept[0].image_display, 0);
    assert_eq!(kept[1].from, Point::new(2, 2));
    assert_eq!(kept[1].size, 1);
    assert_eq!(
        reports,
        vec![
            Diagnostic::TransitionDropped { index: 1, fault: TransitionFault::ImageMissing },
            Diagnostic::TransitionDropped { index: 2, fault: TransitionFault::SizeMissing },
            Diagnostic::TransitionDropped { index: 3, fault: TransitionFault::OriginOutside },
            Diagnostic::TransitionDropped { index: 4, fault: TransitionFault::OriginOutside },
            Diagnostic::TransitionDropped { index: 5, fault: TransitionFault::FootprintOutside },
            Diagnostic::TransitionDropped { index: 7, fault: TransitionFault::FootprintOutside },
        ]
    );
}

#[test]
fn check_transition_gives_resolved_image_and_size() {
    let reg = registry();
    assert_eq!(Area::check_transition(&transition(0, 0, "2by2", "door"), &reg, 3, 3), Ok((1, 1)));
    assert_eq!(
        Area::check_transition(&transition(i32::MAX, 0, "2by2", "door"), &reg, i32::MAX, 3),
        Err(TransitionFault::OriginOutside)
    );
    assert_eq!(
        Area::check_transition(&transition(i32::MAX - 1, 0, "2by2", "door"), &reg, i32::MAX, 3),
        Err(TransitionFault::FootprintOutside)
    );
}

#[test]
fn missing_encounter_is_fatal() {
    let mut b = builder(3, 3);
    b.encounters.push(EncounterDataBuilder {
        id: "dragons".to_string(),
        location: Point::new(1, 1),
        size: Size::new(1, 1),
    });
    assert_eq!(
        Area::new(b, &registry()).err(),
        Some(AreaError::MissingDefinition(DefinitionKind::Encounter))
    );
}

#[test]
fn missing_prop_is_fatal_and_comes_first() {
    let mut b = builder(3, 3);
    b.props.push(PropDataBuilder {
        id: "statue".to_string(),
        location: Point::new(0, 0),
        items: Vec::new(),
        enabled: None,
        hover_text: None,
    });
    b.encounters.push(EncounterDataBuilder {
        id: "dragons".to_string(),
        location: Point::new(1, 1),
        size: Size::new(1, 1),
    });
    assert_eq!(
        Area::new(b, &registry()).err(),
        Some(AreaError::MissingDefinition(DefinitionKind::Prop))
    );
}

#[test]
fn missing_sprite_is_fatal() {
    let mut b = builder(3, 3);
    b.explored_tile = "nothing".to_string();
    b.ambient_sound = Some("silence".to_string());
    assert_eq!(
        Area::new(b, &registry()).err(),
        Some(AreaError::MissingDefinition(DefinitionKind::Sprite))
    );
}

#[test]
fn missing_sound_is_fatal() {
    let mut b = builder(3, 3);
    b.ambient_sound = Some("wind".to_string());
    b.default_combat_music = Some("silence".to_string());
    assert_eq!(
        Area::new(b, &registry()).err(),
        Some(AreaError::MissingDefinition(DefinitionKind::Sound))
    );
}

#[test]
fn missing_generator_definition_is_fatal() {
    let mut b = builder(3, 3);
    b.generator = Some(GeneratorParamsBuilder {
        id: "gen".to_string(),
        transitions: Vec::new(),
        encounters: vec!["goblins".to_string()],
        props: vec!["statue".to_string()],
    });
    b.default_music = Some("silence".to_string());
    assert_eq!(
        Area::new(b, &registry()).err(),
        Some(AreaError::MissingDefinition(DefinitionKind::Prop))
    );
}

#[test]
fn area_copies_scalars_and_squares_distances() {
    let mut b = builder(4, 2);
    b.ambient_sound = Some("wind".to_string());
    b.default_music = Some("drums".to_string());
    b.actors.push(ActorData {
        id: "guard".to_string(),
        location: Point::new(1, 0),
        unique_id: Some("guard_1".to_string()),
    });
    b.props.push(PropDataBuilder {
        id: "barrel".to_string(),
        location: Point::new(3, 1),
        items: vec![ItemListEntrySaveState { quantity: 2, item: "apple".to_string() }],
        enabled: Some(false),
        hover_text: Some("A barrel".to_string()),
    });
    b.generator = Some(GeneratorParamsBuilder {
        id: "gen".to_string(),
        transitions: vec![TransitionAreaParams {
            to: "cave".to_string(),
            kind: "stairs".to_string(),
            hover_text: "Down".to_string(),
        }],
        encounters: vec!["wolves".to_string(), "goblins".to_string()],
        props: vec!["chest".to_string()],
    });
    let area = Area::new(b, &registry()).unwrap();
    assert_eq!(area.id, "test_area");
    assert_eq!(area.name, "Test Area");
    assert_eq!((area.width, area.height), (4, 2));
    assert_eq!(area.visibility_tile, 0);
    assert_eq!(area.explored_tile, 1);
    assert_eq!(area.vis_dist, 20);
    assert_eq!(area.vis_dist_squared, 400);
    assert_eq!(area.vis_dist_up_one_squared, 36);
    assert_eq!(area.world_map_location, Some("north".to_string()));
    assert_eq!(area.ambient_sound, Some(0));
    assert_eq!(area.default_music, Some(1));
    assert_eq!(area.default_combat_music, None);
    assert_eq!(area.location_kind, LocationKind::Outdoors);
    assert!(matches!(&area.on_rest, OnRest::Disabled { message } if message == "No rest here"));
    assert_eq!(area.actors.len(), 1);
    assert_eq!(area.actors[0].id, "guard");
    assert_eq!(area.actors[0].location, Point::new(1, 0));
    assert_eq!(area.actors[0].unique_id, Some("guard_1".to_string()));
    assert_eq!(area.props.len(), 1);
    assert_eq!(area.props[0].prop, 1);
    assert!(!area.props[0].enabled);
    assert_eq!(area.props[0].items.len(), 1);
    assert_eq!(area.props[0].items[0].quantity, 2);
    assert_eq!(area.props[0].items[0].item, "apple");
    assert_eq!(area.props[0].hover_text, Some("A barrel".to_string()));
    let generator = area.generator.as_ref().unwrap();
    assert_eq!(generator.id, "gen");
    assert_eq!(generator.encounters, vec![1usize, 0]);
    assert_eq!(generator.props, vec![0usize]);
    assert_eq!(generator.transitions.len(), 1);
    assert_eq!(generator.transitions[0].to, "cave");
    let authored = area.builder.generator.as_ref().unwrap();
    assert_eq!(authored.id, "gen");
    assert_eq!(authored.encounters, vec!["wolves".to_string(), "goblins".to_string()]);
    assert_eq!(authored.props, vec!["chest".to_string()]);
    assert_eq!(authored.transitions.len(), 1);
    assert_eq!(authored.transitions[0].to, "cave");
    assert_eq!(authored.transitions[0].kind, "stairs");
    assert_eq!(authored.transitions[0].hover_text, "Down");
    assert_eq!(area.builder.id, "test_area");
    assert_eq!(area.builder.terrain.len(), 8);
    assert!(area.diagnostics.is_empty());
}

#[test]
fn create_prop_is_enabled_unless_told_otherwise() {
    let reg = registry();
    let mut authored = PropDataBuilder {
        id: "chest".to_string(),
        location: Point::new(2, 5),
        items: Vec::new(),
        enabled: None,
        hover_text: None,
    };
    let made = create_prop(&authored, &reg).unwrap();
    assert_eq!(made.prop, 0);
    assert_eq!(made.location, Point::new(2, 5));
    assert!(made.enabled);
    assert_eq!(made.hover_text, None);
    authored.enabled = Some(true);
    assert!(create_prop(&authored, &reg).unwrap().enabled);
    authored.enabled = Some(false);
    assert!(!create_prop(&authored, &reg).unwrap().enabled);
    authored.id = "statue".to_string();
    assert_eq!(
        create_prop(&authored, &reg).err(),
        Some(AreaError::MissingDefinition(DefinitionKind::Prop))
    );
}

#[test]
fn generator_params_resolve_or_fail() {
    let reg = registry();
    let ok = GeneratorParams::new(
        GeneratorParamsBuilder {
            id: "g".to_string(),
            transitions: Vec::new(),
            encounters: vec!["wolves".to_string()],
            props: vec!["barrel".to_string(), "chest".to_string()],
        },
        &reg,
    )
    .unwrap();
    assert_eq!(ok.id, "g");
    assert_eq!(ok.encounters, vec![1usize]);
    assert_eq!(ok.props, vec![1usize, 0]);
    let bad = GeneratorParams::new(
        GeneratorParamsBuilder {
            id: "g".to_string(),
            transitions: Vec::new(),
            encounters: vec!["wolves".to_string(), "dragons".to_string()],
            props: vec!["statue".to_string()],
        },
        &reg,
    );
    assert_eq!(bad.err(), Some(AreaError::MissingDefinition(DefinitionKind::Encounter)));
}

#[test]
fn location_kinds_in_order() {
    assert_eq!(
        LocationKind::iter(),
        vec![LocationKind::Outdoors, LocationKind::Indoors, LocationKind::Underground]
    );
}

#[test]
fn coords_valid_is_the_bounds_test() {
    let area = Area::new(builder(4, 2), &registry()).unwrap();
    assert!(area.coords_valid(0, 0));
    assert!(area.coords_valid(3, 1));
    assert!(!area.coords_valid(4, 1));
    assert!(!area.coords_valid(3, 2));
    assert!(!area.coords_valid(-1, 0));
    assert!(!area.coords_valid(0, -1));
}

#[test]
fn areas_are_equal_by_id_alone() {
    let a = Area::new(builder(4, 2), &registry()).unwrap();
    let mut other = builder(9, 9);
    other.name = "Another".to_string();
    let b = Area::new(other, &registry()).unwrap();
    assert!(a == b);
    let mut renamed = builder(4, 2);
    renamed.id = "elsewhere".to_string();
    let c = Area::new(renamed, &registry()).unwrap();
    assert!(a != c);
}

#[test]
fn points_and_bounds() {
    let p = Point::new(2, 3);
    assert!(p.in_bounds(3, 4));
    assert!(!p.in_bounds(2, 4));
    assert!(!p.in_bounds(3, 3));
    assert!(p.offset_in_bounds(1, 1, 4, 5));
    assert!(!p.offset_in_bounds(1, 1, 3, 5));
    assert!(!Point::new(i32::MAX, 0).offset_in_bounds(1, 0, i32::MAX, 1));
    assert!(!Point::new(0, 0).offset_in_bounds(-1, 0, 3, 3));
}

#[test]
fn registry_finds_the_first_entry() {
    let table = vec!["a".to_string(), "b".to_string(), "a".to_string()];
    assert_eq!(resolve(&table, &"a".to_string()), Some(0));
    assert_eq!(resolve(&table, &"b".to_string()), Some(1));
    assert_eq!(resolve(&table, &"c".to_string()), None);
    assert_eq!(
        resolve_all(&table, &vec!["b".to_string(), "a".to_string()]),
        Some(vec![1usize, 0])
    );
    assert_eq!(resolve_all(&table, &vec!["b".to_string(), "z".to_string()]), None);
    assert_eq!(resolve_all(&table, &Vec::new()), Some(Vec::new()));
    let reg = registry();
    assert_eq!(reg.size(&"2by2".to_string()), Some(1));
    assert_eq!(reg.size(&"3by3".to_string()), None);
    assert_eq!(reg.footprint(2), Size::new(4, 4));
    assert_eq!(reg.sprite(&"explored".to_string()), Some(1));
    assert_eq!(reg.image(&"arrow".to_string()), Some(0));
    assert_eq!(reg.sound(&"drums".to_string()), Some(1));
    assert_eq!(reg.encounter(&"wolves".to_string()), Some(1));
    assert_eq!(reg.prop(&"crate".to_string()), None);
}

#[test]
fn authored_areas_have_a_size_limit() {
    assert_eq!(MAX_AREA_SIZE, 128);
}

#[test]
fn grids_must_have_one_entry_per_tile() {
    let mut b = builder(4, 2);
    assert!(b.has_fitting_grids());
    b.elevation.push(0);
    assert!(!b.has_fitting_grids());
    b.elevation.pop();
    b.terrain.pop();
    assert!(!b.has_fitting_grids());
    b.terrain.push(None);
    b.walls.push((0, None));
    assert!(!b.has_fitting_grids());
    let mut huge = builder(0, 0);
    huge.width = usize::MAX;
    huge.height = usize::MAX;
    assert!(!huge.has_fitting_grids());
    assert_eq!(tile_count(usize::MAX, 2), 2 * (usize::MAX as u128));
    assert_eq!(tile_count(3, 5), 15);
}

#[test]
fn measures_must_fit() {
    let mut b = builder(4, 2);
    assert!(b.has_fitting_measures());
    b.max_vis_distance = 46340;
    assert!(b.has_fitting_measures());
    b.max_vis_distance = 46341;
    assert!(!b.has_fitting_measures());
    b.max_vis_distance = -46340;
    assert!(b.has_fitting_measures());
    b.max_vis_up_one_distance = i32::MIN;
    assert!(!b.has_fitting_measures());
    b.max_vis_up_one_distance = 0;
    b.width = i32::MAX as usize;
    assert!(b.has_fitting_measures());
    b.width = i32::MAX as usize + 1;
    assert!(!b.has_fitting_measures());
    assert!(square_fits(46340));
    assert!(!square_fits(-46341));
}

#[test]
fn negative_distance_squares_to_positive() {
    let mut b = builder(1, 1);
    b.max_vis_distance = -7;
    b.max_vis_up_one_distance = 46340;
    let area = Area::new(b, &registry()).unwrap();
    assert_eq!(area.vis_dist, -7);
    assert_eq!(area.vis_dist_squared, 49);
    assert_eq!(area.vis_dist_up_one_squared, 2147395600);
}

#[test]
fn trigger_kinds_tied_to_encounters() {
    let p = Point::new(3, 4);
    assert_eq!(TriggerKind::OnCampaignStart.encounter_location(), None);
    assert_eq!(TriggerKind::OnAreaLoad.encounter_location(), None);
    assert_eq!(
        TriggerKind::OnPlayerEnter { location: p, size: Size::new(1, 1) }.encounter_location(),
        None
    );
    assert_eq!(
        TriggerKind::OnEncounterCleared { encounter_location: p }.encounter_location(),
        Some(p)
    );
    assert_eq!(
        TriggerKind::OnEncounterActivated { encounter_location: p }.encounter_location(),
        Some(p)
    );
}

#[test]
fn copies_are_equal_to_what_they_copy() {
    let to = ToKind::FindLink { id: "gate".to_string(), x_offset: -1, y_offset: 2 };
    assert!(matches!(
        to.clone(),
        ToKind::FindLink { id, x_offset: -1, y_offset: 2 } if id == "gate"
    ));
    let area_to = ToKind::Area { id: "town".to_string(), x: 3, y: 4 };
    assert!(matches!(area_to.clone(), ToKind::Area { id, x: 3, y: 4 } if id == "town"));
    assert!(matches!(ToKind::CurArea { x: 1, y: 2 }.clone(), ToKind::CurArea { x: 1, y: 2 }));
    let rest = OnRest::FireScript { id: "camp".to_string(), func: "on_rest".to_string() };
    assert!(matches!(
        rest.clone(),
        OnRest::FireScript { id, func } if id == "camp" && func == "on_rest"
    ));
    assert_eq!(copy_text(&Some("x".to_string())), Some("x".to_string()));
    assert_eq!(copy_text(&None), None);
    let actions = vec![
        OnTrigger { action: "first".to_string() },
        OnTrigger { action: "second".to_string() },
    ];
    let copied = copy_actions(&actions);
    assert_eq!(copied.len(), 2);
    assert_eq!(copied[0].action, "first");
    assert_eq!(copied[1].action, "second");
    let items = vec![ItemListEntrySaveState { quantity: 3, item: "gem".to_string() }];
    let copied = copy_items(&items);
    assert_eq!(copied.len(), 1);
    assert_eq!((copied[0].quantity, copied[0].item.as_str()), (3, "gem"));
    let actors = vec![ActorData { id: "a".to_string(), location: Point::new(1, 2), unique_id: None }];
    let copied = copy_actors(&actors);
    assert_eq!(copied.len(), 1);
    assert_eq!(copied[0].id, "a");
    assert_eq!(copied[0].location, Point::new(1, 2));
    assert_eq!(copied[0].unique_id, None);
}

#[test]
fn triggers_and_encounters_without_an_area() {
    let mut b = builder(3, 3);
    b.encounters.push(EncounterDataBuilder {
        id: "wolves".to_string(),
        location: Point::new(0, 0),
        size: Size::new(2, 2),
    });
    b.encounters.push(EncounterDataBuilder {
        id: "wolves".to_string(),
        location: Point::new(0, 0),
        size: Size::new(1, 1),
    });
    b.triggers.push(cleared_at(0, 0));
    b.triggers.push(cleared_at(0, 1));
    b.triggers.push(cleared_at(0, 0));
    let (triggers, encounters, reports) =
        Area::read_triggers_and_encounters(&b, &registry()).unwrap();
    assert_eq!(triggers.len(), 3);
    assert_eq!(encounters.len(), 2);
    assert_eq!(encounters[0].triggers, vec![0usize, 2]);
    assert_eq!(encounters[1].triggers, vec![0usize, 2]);
    assert_eq!(encounters[0].size, Size::new(2, 2));
    assert_eq!(reports, vec![Diagnostic::UnmatchedTrigger { index: 1 }]);
    b.encounters[1].id = "bears".to_string();
    assert_eq!(
        Area::read_triggers_and_encounters(&b, &registry()).err(),
        Some(AreaError::MissingDefinition(DefinitionKind::Encounter))
    );
}

#[test]
fn sounds_and_props_resolve_or_fail() {
    let reg = registry();
    assert_eq!(resolve_sound(&None, &reg), Ok(None));
    assert_eq!(resolve_sound(&Some("drums".to_string()), &reg), Ok(Some(1)));
    assert_eq!(
        resolve_sound(&Some("flute".to_string()), &reg),
        Err(AreaError::MissingDefinition(DefinitionKind::Sound))
    );
    let authored = vec![
        PropDataBuilder {
            id: "barrel".to_string(),
            location: Point::new(0, 0),
            items: Vec::new(),
            enabled: None,
            hover_text: None,
        },
        PropDataBuilder {
            id: "chest".to_string(),
            location: Point::new(1, 0),
            items: Vec::new(),
            enabled: Some(false),
            hover_text: None,
        },
    ];
    let made = create_props(&authored, &reg).unwrap();
    assert_eq!(made.len(), 2);
    assert_eq!((made[0].prop, made[0].enabled), (1, true));
    assert_eq!((made[1].prop, made[1].enabled), (0, false));
    assert!(create_props(&Vec::new(), &reg).unwrap().is_empty());
}

#[test]
fn built_area_keeps_its_builder_whole() {
    let mut b = builder(3, 3);
    b.transitions.push(transition(0, 0, "4by4", "door"));
    b.triggers.push(cleared_at(2, 2));
    b.layer_set.push(LayerPoints { name: "ground".to_string(), points: vec![(0, 0), (2, 1)] });
    b.terrain[4] = Some("grass".to_string());
    b.walls[0] = (3, Some("stone".to_string()));
    b.elevation[8] = 7;
    b.generator = Some(GeneratorParamsBuilder {
        id: "gen".to_string(),
        transitions: Vec::new(),
        encounters: vec!["goblins".to_string()],
        props: Vec::new(),
    });
    let area = Area::new(b, &registry()).unwrap();
    let kept = &area.builder;
    assert_eq!((kept.width, kept.height), (3, 3));
    assert_eq!(kept.transitions.len(), 1);
    assert_eq!(kept.triggers.len(), 1);
    assert_eq!(kept.layer_set.len(), 1);
    assert_eq!(kept.layer_set[0].points, vec![(0u16, 0u16), (2u16, 1u16)]);
    assert_eq!(kept.terrain[4], Some("grass".to_string()));
    assert_eq!(kept.walls[0], (3u8, Some("stone".to_string())));
    assert_eq!(kept.elevation[8], 7);
    assert_eq!(kept.generator.as_ref().unwrap().encounters, vec!["goblins".to_string()]);
    assert_eq!(area.generator.as_ref().unwrap().encounters, vec![0usize]);
    assert!(kept.has_fitting_grids());
    assert!(kept.has_layers_named_once());
}

#[test]
fn generator_builder_copies_are_equal() {
    let authored = GeneratorParamsBuilder {
        id: "gen".to_string(),
        transitions: vec![TransitionAreaParams {
            to: "cave".to_string(),
            kind: "stairs".to_string(),
            hover_text: "Down".to_string(),
        }],
        encounters: vec!["wolves".to_string()],
        props: vec!["chest".to_string(), "barrel".to_string()],
    };
    let copy = authored.clone();
    assert_eq!(copy.id, "gen");
    assert_eq!(copy.transitions.len(), 1);
    assert_eq!(copy.transitions[0].to, "cave");
    assert_eq!(copy.transitions[0].kind, "stairs");
    assert_eq!(copy.transitions[0].hover_text, "Down");
    assert_eq!(copy.encounters, authored.encounters);
    assert_eq!(copy.props, authored.props);
}

#[test]
fn layers_must_be_named_once() {
    let mut b = builder(1, 1);
    assert!(b.has_layers_named_once());
    b.layer_set.push(LayerPoints { name: "a".to_string(), points: Vec::new() });
    assert!(b.has_layers_named_once());
    b.layer_set.push(LayerPoints { name: "b".to_string(), points: vec![(0, 0)] });
    b.layer_set.push(LayerPoints { name: "c".to_string(), points: Vec::new() });
    assert!(b.has_layers_named_once());
    b.layer_set.push(LayerPoints { name: "b".to_string(), points: Vec::new() });
    assert!(!b.has_layers_named_once());
    b.layer_set[3].name = "a".to_string();
    assert!(!b.has_layers_named_once());
    b.layer_set[3].name = "d".to_string();
    assert!(b.has_layers_named_once());
}
