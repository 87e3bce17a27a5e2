//! Linking triggers to encounters by location, and telling which authored
//! transitions fit the area.
//!
//! Triggers and encounters are authored as separate lists. A trigger that is
//! tied to an encounter names the encounter's location and nothing else, so
//! the two are brought together by comparing locations.

use std::collections::HashSet;
use vstd::prelude::*;
use vstd::std_specs::hash::group_hash_axioms;
use crate::area::{
    copy_actions, Area, AreaBuilder, Diagnostic, EncounterData, EncounterDataBuilder, Transition,
    TransitionBuilder, TransitionFault, Trigger, TriggerBuilder, TriggerKind,
};
use crate::error::{AreaError, DefinitionKind};
use crate::geometry::{within, Point};
use crate::registry::Registry;

verus! {

/// What makes `t` unfit for an area of `width` by `height` tiles, if
/// anything does. The checks run in this order: the image, the size, the
/// origin, and the far corner, which is the origin moved by the size.
pub open spec fn transition_fault(
    t: TransitionBuilder,
    registry: Registry,
    width: int,
    height: int,
) -> Option<TransitionFault> {
    if registry.image_of(t.image_display@) is None {
        Some(TransitionFault::ImageMissing)
    } else if registry.size_of(t.size@) is None {
        Some(TransitionFault::SizeMissing)
    } else if !within(t.from.x as int, t.from.y as int, width, height) {
        Some(TransitionFault::OriginOutside)
    } else {
        let size = registry.footprint_of(registry.size_of(t.size@).unwrap());
        if !within(t.from.x + size.width, t.from.y + size.height, width, height) {
            Some(TransitionFault::FootprintOutside)
        } else {
            None
        }
    }
}

/// The indices, among the first `n` authored transitions, of those that fit
/// the area, in authored order.
pub open spec fn kept_transitions(
    input: Seq<TransitionBuilder>,
    registry: Registry,
    width: int,
    height: int,
    n: nat,
) -> Seq<int>
    decreases n,
{
    if n == 0 {
        Seq::empty()
    } else {
        let front = kept_transitions(input, registry, width, height, (n - 1) as nat);
        if transition_fault(input[n - 1], registry, width, height) is None {
            front.push(n - 1)
        } else {
            front
        }
    }
}

/// The reports on those of the first `n` authored transitions that do not
/// fit the area, in authored order.
pub open spec fn dropped_transitions(
    input: Seq<TransitionBuilder>,
    registry: Registry,
    width: int,
    height: int,
    n: nat,
) -> Seq<Diagnostic>
    decreases n,
{
    if n == 0 {
        Seq::empty()
    } else {
        let front = dropped_transitions(input, registry, width, height, (n - 1) as nat);
        match transition_fault(input[n - 1], registry, width, height) {
            Some(fault) => front.push(
                Diagnostic::TransitionDropped { index: (n - 1) as usize, fault },
            ),
            None => front,
        }
    }
}

/// Whether `made` is the authored transition `t` with its image and size
/// resolved.
pub open spec fn transition_made(t: TransitionBuilder, registry: Registry, made: Transition) -> bool {
    &&& made.from == t.from
    &&& made.to == t.to
    &&& made.hover_text == t.hover_text
    &&& Some(made.size) == registry.size_of(t.size@)
    &&& Some(made.image_display) == registry.image_of(t.image_display@)
}

/// Whether `out` holds, in authored order, exactly those of the first `n`
/// authored transitions that fit the area.
pub open spec fn transitions_read(
    input: Seq<TransitionBuilder>,
    registry: Registry,
    width: int,
    height: int,
    n: nat,
    out: Seq<Transition>,
) -> bool {
    let kept = kept_transitions(input, registry, width, height, n);
    &&& out.len() == kept.len()
    &&& forall|k: int|
        0 <= k < out.len() ==> transition_made(input[kept[k]], registry, #[trigger] out[k])
}

/// Whether a trigger of this kind is tied to an encounter at `location`.
pub open spec fn links(kind: TriggerKind, location: Point) -> bool {
    kind.tied_to() == Some(location)
}

/// The indices, among the first `n` triggers, of those tied to an encounter
/// at `location`, in rising order.
pub open spec fn linked_triggers(triggers: Seq<Trigger>, location: Point, n: nat) -> Seq<usize>
    decreases n,
{
    if n == 0 {
        Seq::empty()
    } else {
        let front = linked_triggers(triggers, location, (n - 1) as nat);
        if links(triggers[n - 1].kind, location) {
            front.push((n - 1) as usize)
        } else {
            front
        }
    }
}

/// Whether one of the first `n` encounters stands at `location`.
pub open spec fn has_encounter_at(
    encounters: Seq<EncounterDataBuilder>,
    location: Point,
    n: int,
) -> bool {
    exists|e: int| 0 <= e < n && (#[trigger] encounters[e]).location == location
}

/// Whether a trigger of this kind is tied to one of the first `n` encounters.
pub open spec fn claimed(kind: TriggerKind, encounters: Seq<EncounterDataBuilder>, n: int) -> bool {
    kind.tied_to() matches Some(location) && has_encounter_at(encounters, location, n)
}

/// Whether a trigger of this kind is tied to a location at which no
/// encounter stands.
pub open spec fn is_stray(kind: TriggerKind, encounters: Seq<EncounterDataBuilder>) -> bool {
    kind.tied_to() is Some && !claimed(kind, encounters, encounters.len() as int)
}

/// The reports on those of the first `n` triggers that are tied to a
/// location at which no encounter stands, in rising order.
pub open spec fn stray_triggers(
    triggers: Seq<Trigger>,
    encounters: Seq<EncounterDataBuilder>,
    n: nat,
) -> Seq<Diagnostic>
    decreases n,
{
    if n == 0 {
        Seq::empty()
    } else {
        let front = stray_triggers(triggers, encounters, (n - 1) as nat);
        if is_stray(triggers[n - 1].kind, encounters) {
            front.push(Diagnostic::UnmatchedTrigger { index: (n - 1) as usize })
        } else {
            front
        }
    }
}

/// Whether `made` is the authored trigger `t`.
pub open spec fn trigger_made(t: TriggerBuilder, made: Trigger) -> bool {
    &&& made.kind == t.kind
    &&& made.on_activate@ == t.on_activate@
    &&& made.initially_enabled == t.initially_enabled
    &&& made.fire_more_than_once == t.fire_more_than_once
}

/// Whether `made` holds the authored triggers, one for one.
pub open spec fn triggers_made(input: Seq<TriggerBuilder>, made: Seq<Trigger>) -> bool {
    &&& made.len() == input.len()
    &&& forall|i: int| 0 <= i < input.len() ==> trigger_made(input[i], #[trigger] made[i])
}

/// Whether `made` is the authored encounter `e` with its definition
/// resolved and with every trigger of `triggers` that is tied to its
/// location.
pub open spec fn encounter_made(
    e: EncounterDataBuilder,
    registry: Registry,
    triggers: Seq<Trigger>,
    made: EncounterData,
) -> bool {
    &&& Some(made.encounter) == registry.encounter_of(e.id@)
    &&& made.location == e.location
    &&& made.size == e.size
    &&& made.triggers@ == linked_triggers(triggers, e.location, triggers.len())
}

/// Whether `made` holds the authored encounters, one for one.
pub open spec fn encounters_made(
    input: Seq<EncounterDataBuilder>,
    registry: Registry,
    triggers: Seq<Trigger>,
    made: Seq<EncounterData>,
) -> bool {
    &&& made.len() == input.len()
    &&& forall|e: int|
        0 <= e < input.len() ==> encounter_made(input[e], registry, triggers, #[trigger] made[e])
}

/// Whether the registry holds the definition of every authored encounter.
pub open spec fn encounters_resolvable(
    encounters: Seq<EncounterDataBuilder>,
    registry: Registry,
) -> bool {
    forall|e: int|
        0 <= e < encounters.len() ==> registry.encounter_of((#[trigger] encounters[e]).id@) is Some
}

/// The triggers linked to a location are exactly the triggers tied to it:
/// every linked index names one of the first `n` triggers, and that trigger
/// is tied to the location; the indices rise; and no trigger that is tied to
/// the location is left out.
pub proof fn lemma_linked_triggers_exact(triggers: Seq<Trigger>, location: Point, n: nat)
    requires
        n <= triggers.len(),
        n <= usize::MAX,
    ensures
        forall|k: int|
            0 <= k < linked_triggers(triggers, location, n).len() ==> {
                &&& (#[trigger] linked_triggers(triggers, location, n)[k]) < n
                &&& links(triggers[linked_triggers(triggers, location, n)[k] as int].kind, location)
            },
        forall|j: int, k: int|
            0 <= j < k < linked_triggers(triggers, location, n).len() ==> linked_triggers(
                triggers,
                location,
                n,
            )[j] < linked_triggers(triggers, location, n)[k],
        forall|i: int|
            0 <= i < n && links(#[trigger] triggers[i].kind, location)
                ==> linked_triggers(triggers, location, n).contains(i as usize),
    decreases n,
{
    if n > 0 {
        let front = linked_triggers(triggers, location, (n - 1) as nat);
        let all = linked_triggers(triggers, location, n);
        lemma_linked_triggers_exact(triggers, location, (n - 1) as nat);
        assert forall|i: int|
            0 <= i < n && links(#[trigger] triggers[i].kind, location) implies all.contains(i as usize) by {
            if i < n - 1 {
                assert(front.contains(i as usize));
                let k = choose|k: int| 0 <= k < front.len() && front[k] == i as usize;
                assert(all[k] == i as usize);
            } else {
                assert(all[all.len() - 1] == i as usize);
            }
        }
    }
}

/// The kept transitions are exactly the authored transitions without a
/// fault: every kept index names one of the first `n` transitions, and that
/// transition has no fault; the indices rise; and no transition without a
/// fault is left out.
pub proof fn lemma_kept_transitions_exact(
    input: Seq<TransitionBuilder>,
    registry: Registry,
    width: int,
    height: int,
    n: nat,
)
    requires
        n <= input.len(),
    ensures
        forall|k: int|
            0 <= k < kept_transitions(input, registry, width, height, n).len() ==> {
                &&& 0 <= (#[trigger] kept_transitions(input, registry, width, height, n)[k]) < n
                &&& transition_fault(
                    input[kept_transitions(input, registry, width, height, n)[k]],
                    registry,
                    width,
                    height,
                ) is None
            },
        forall|j: int, k: int|
            0 <= j < k < kept_transitions(input, registry, width, height, n).len()
                ==> kept_transitions(input, registry, width, height, n)[j] < kept_transitions(
                input,
                registry,
                width,
                height,
                n,
            )[k],
        forall|i: int|
            0 <= i < n ==> (transition_fault(#[trigger] input[i], registry, width, height) is None
                <==> kept_transitions(input, registry, width, height, n).contains(i)),
    decreases n,
{
    if n > 0 {
        let front = kept_transitions(input, registry, width, height, (n - 1) as nat);
        let all = kept_transitions(input, registry, width, height, n);
        lemma_kept_transitions_exact(input, registry, width, height, (n - 1) as nat);
        assert forall|i: int| 0 <= i < n implies (transition_fault(
            #[trigger] input[i],
            registry,
            width,
            height,
        ) is None <==> all.contains(i)) by {
            if all.contains(i) {
                let k = choose|k: int| 0 <= k < all.len() && all[k] == i;
                if k < front.len() {
                    assert(front[k] == i);
                }
            }
            if transition_fault(input[i], registry, width, height) is None {
                if i < n - 1 {
                    assert(front.contains(i));
                    let k = choose|k: int| 0 <= k < front.len() && front[k] == i;
                    assert(all[k] == i);
                } else {
                    assert(all[all.len() - 1] == i);
                }
            }
        }
    }
}

/// The reports on stray triggers are exactly the stray triggers: every
/// report names one of the first `n` triggers, and that trigger is tied to a
/// location at which no encounter stands; the indices rise; and no such
/// trigger goes without a report.
pub proof fn lemma_stray_triggers_exact(
    triggers: Seq<Trigger>,
    encounters: Seq<EncounterDataBuilder>,
    n: nat,
)
    requires
        n <= triggers.len(),
        n <= usize::MAX,
    ensures
        forall|k: int|
            0 <= k < stray_triggers(triggers, encounters, n).len() ==> (#[trigger] stray_triggers(
                triggers,
                encounters,
                n,
            )[k] matches Diagnostic::UnmatchedTrigger { index } && index < n && is_stray(
                triggers[index as int].kind,
                encounters,
            )),
        forall|j: int, k: int|
            0 <= j < k < stray_triggers(triggers, encounters, n).len() ==> stray_triggers(
                triggers,
                encounters,
                n,
            )[j]->UnmatchedTrigger_index < stray_triggers(
                triggers,
                encounters,
                n,
            )[k]->UnmatchedTrigger_index,
        forall|i: int|
            0 <= i < n && is_stray(#[trigger] triggers[i].kind, encounters) ==> stray_triggers(
                triggers,
                encounters,
                n,
            ).contains(Diagnostic::UnmatchedTrigger { index: i as usize }),
    decreases n,
{
    if n > 0 {
        let front = stray_triggers(triggers, encounters, (n - 1) as nat);
        let all = stray_triggers(triggers, encounters, n);
        lemma_stray_triggers_exact(triggers, encounters, (n - 1) as nat);
        assert forall|i: int|
            0 <= i < n && is_stray(#[trigger] triggers[i].kind, encounters) implies all.contains(
            Diagnostic::UnmatchedTrigger { index: i as usize },
        ) by {
            let report = Diagnostic::UnmatchedTrigger { index: i as usize };
            if i < n - 1 {
                assert(front.contains(report));
                let k = choose|k: int| 0 <= k < front.len() && front[k] == report;
                assert(all[k] == report);
            } else {
                assert(all[all.len() - 1] == report);
            }
        }
    }
}

/// A trigger that is tied to a location is stray exactly where no encounter
/// has it among its linked triggers.
pub proof fn lemma_stray_is_unlinked(
    triggers: Seq<Trigger>,
    encounters: Seq<EncounterDataBuilder>,
    i: int,
)
    requires
        0 <= i < triggers.len(),
        triggers.len() <= usize::MAX,
        triggers[i].kind.tied_to() is Some,
    ensures
        is_stray(triggers[i].kind, encounters) <==> (forall|e: int|
            0 <= e < encounters.len() ==> !linked_triggers(
                triggers,
                (#[trigger] encounters[e]).location,
                triggers.len(),
            ).contains(i as usize)),
{
    let kind = triggers[i].kind;
    let location = kind.tied_to().unwrap();
    assert forall|e: int| 0 <= e < encounters.len() implies (linked_triggers(
        triggers,
        (#[trigger] encounters[e]).location,
        triggers.len(),
    ).contains(i as usize) <==> encounters[e].location == location) by {
        let linked = linked_triggers(triggers, encounters[e].location, triggers.len());
        lemma_linked_triggers_exact(triggers, encounters[e].location, triggers.len());
        if linked.contains(i as usize) {
            let k = choose|k: int| 0 <= k < linked.len() && linked[k] == i as usize;
            assert(links(triggers[linked[k] as int].kind, encounters[e].location));
        }
    }
    if !is_stray(kind, encounters) {
        let e = choose|e: int|
            0 <= e < encounters.len() && (#[trigger] encounters[e]).location == location;
        assert(linked_triggers(triggers, encounters[e].location, triggers.len()).contains(
            i as usize,
        ));
    }
}

/// The reports on dropped transitions are exactly the transitions with a
/// fault: every report names one of the first `n` transitions and gives its
/// fault; the indices rise; and no transition with a fault goes without a
/// report.
pub proof fn lemma_dropped_transitions_exact(
    input: Seq<TransitionBuilder>,
    registry: Registry,
    width: int,
    height: int,
    n: nat,
)
    requires
        n <= input.len(),
        n <= usize::MAX,
    ensures
        forall|k: int|
            0 <= k < dropped_transitions(input, registry, width, height, n).len() ==> (
            #[trigger] dropped_transitions(input, registry, width, height, n)[k] matches Diagnostic::TransitionDropped {
                index,
                fault,
            } && index < n && transition_fault(input[index as int], registry, width, height)
                == Some(fault)),
        forall|j: int, k: int|
            0 <= j < k < dropped_transitions(input, registry, width, height, n).len()
                ==> dropped_transitions(
                input,
                registry,
                width,
                height,
                n,
            )[j]->TransitionDropped_index < dropped_transitions(
                input,
                registry,
                width,
                height,
                n,
            )[k]->TransitionDropped_index,
        forall|i: int|
            0 <= i < n ==> (transition_fault(#[trigger] input[i], registry, width, height)
                matches Some(fault) ==> dropped_transitions(
                input,
                registry,
                width,
                height,
                n,
            ).contains(Diagnostic::TransitionDropped { index: i as usize, fault })),
    decreases n,
{
    if n > 0 {
        let front = dropped_transitions(input, registry, width, height, (n - 1) as nat);
        let all = dropped_transitions(input, registry, width, height, n);
        lemma_dropped_transitions_exact(input, registry, width, height, (n - 1) as nat);
        assert forall|i: int| 0 <= i < n implies (transition_fault(
            #[trigger] input[i],
            registry,
            width,
            height,
        ) matches Some(fault) ==> all.contains(
            Diagnostic::TransitionDropped { index: i as usize, fault },
        )) by {
            if let Some(fault) = transition_fault(input[i], registry, width, height) {
                let report = Diagnostic::TransitionDropped { index: i as usize, fault };
                if i < n - 1 {
                    assert(front.contains(report));
                    let k = choose|k: int| 0 <= k < front.len() && front[k] == report;
                    assert(all[k] == report);
                } else {
                    assert(all[all.len() - 1] == report);
                }
            }
        }
    }
}

/// A claim on a trigger by one of the first `n + 1` encounters is a claim by
/// one of the first `n`, or by encounter `n`.
proof fn lemma_claimed_step(kind: TriggerKind, encounters: Seq<EncounterDataBuilder>, n: int)
    requires
        0 <= n < encounters.len(),
    ensures
        claimed(kind, encounters, n + 1) == (claimed(kind, encounters, n) || links(
            kind,
            encounters[n].location,
        )),
{
    if let Some(location) = kind.tied_to() {
        if has_encounter_at(encounters, location, n + 1) {
            let e = choose|e: int| 0 <= e < n + 1 && (#[trigger] encounters[e]).location == location;
            if e < n {
                assert(has_encounter_at(encounters, location, n));
            }
        }
        if has_encounter_at(encounters, location, n) {
            let e = choose|e: int| 0 <= e < n && (#[trigger] encounters[e]).location == location;
            assert(has_encounter_at(encounters, location, n + 1));
        }
        if encounters[n].location == location {
            assert(has_encounter_at(encounters, location, n + 1));
        }
    }
}

impl Area {
    /// Tells whether one authored transition fits an area of `width` by
    /// `height` tiles: its resolved image and size if it does, the first
    /// fault found if it does not.
    pub fn check_transition(
        t: &TransitionBuilder,
        registry: &Registry,
        width: i32,
        height: i32,
    ) -> (r: Result<(usize, usize), TransitionFault>)
        ensures
            match r {
                Ok((image, size)) => {
                    &&& transition_fault(*t, *registry, width as int, height as int) is None
                    &&& Some(image) == registry.image_of(t.image_display@)
                    &&& Some(size) == registry.size_of(t.size@)
                },
                Err(fault) => transition_fault(*t, *registry, width as int, height as int) == Some(
                    fault,
                ),
            },
    {
        let image = match registry.image(&t.image_display) {
            Some(found) => found,
            None => {
                return Err(TransitionFault::ImageMissing);
            },
        };
        let size = match registry.size(&t.size) {
            Some(found) => found,
            None => {
                return Err(TransitionFault::SizeMissing);
            },
        };
        if !t.from.in_bounds(width, height) {
            return Err(TransitionFault::OriginOutside);
        }
        let footprint = registry.footprint(size);
        if !t.from.offset_in_bounds(footprint.width, footprint.height, width, height) {
            return Err(TransitionFault::FootprintOutside);
        }
        Ok((image, size))
    }

    /// Goes through the authored transitions in order. One whose image or
    /// size the registry lacks, whose origin lies outside the area, or whose
    /// far corner lies outside the area is left out and reported; the others
    /// are returned, in authored order. This never fails.
    pub fn read_transitions(
        input: &Vec<TransitionBuilder>,
        registry: &Registry,
        width: i32,
        height: i32,
    ) -> (out: (Vec<Transition>, Vec<Diagnostic>))
        ensures
            transitions_read(
                input@,
                *registry,
                width as int,
                height as int,
                input@.len(),
                out.0@,
            ),
            out.1@ == dropped_transitions(
                input@,
                *registry,
                width as int,
                height as int,
                input@.len(),
            ),
    {
        let mut kept: Vec<Transition> = Vec::new();
        let mut reports: Vec<Diagnostic> = Vec::new();
        let mut i: usize = 0;
        while i < input.len()
            invariant
                i <= input.len(),
                transitions_read(input@, *registry, width as int, height as int, i as nat, kept@),
                reports@ == dropped_transitions(
                    input@,
                    *registry,
                    width as int,
                    height as int,
                    i as nat,
                ),
            decreases input.len() - i,
        {
            let t = &input[i];
            match Area::check_transition(t, registry, width, height) {
                Ok((image, size)) => {
                    kept.push(
                        Transition {
                            from: t.from,
                            size,
                            to: t.to.clone(),
                            hover_text: t.hover_text.clone(),
                            image_display: image,
                        },
                    );
                },
                Err(fault) => {
                    reports.push(Diagnostic::TransitionDropped { index: i, fault });
                },
            }
            i = i + 1;
        }
        (kept, reports)
    }

    /// Makes the area's triggers and encounters from the authored ones.
    /// Every encounter gets the indices of the triggers that are tied to its
    /// location. A trigger that is tied to a location at which no encounter
    /// stands is reported and stays in the list. Fails where the registry
    /// lacks the definition of an encounter, and only then.
    pub fn read_triggers_and_encounters(builder: &AreaBuilder, registry: &Registry) -> (r: Result<
        (Vec<Trigger>, Vec<EncounterData>, Vec<Diagnostic>),
        AreaError,
    >)
        ensures
            match r {
                Ok((triggers, encounters, reports)) => {
                    &&& encounters_resolvable(builder.encounters@, *registry)
                    &&& triggers_made(builder.triggers@, triggers@)
                    &&& encounters_made(builder.encounters@, *registry, triggers@, encounters@)
                    &&& reports@ == stray_triggers(
                        triggers@,
                        builder.encounters@,
                        triggers@.len(),
                    )
                },
                Err(e) => {
                    &&& !encounters_resolvable(builder.encounters@, *registry)
                    &&& e == AreaError::MissingDefinition(DefinitionKind::Encounter)
                },
            },
    {
        broadcast use group_hash_axioms;

        let mut triggers: Vec<Trigger> = Vec::new();
        let mut t: usize = 0;
        while t < builder.triggers.len()
            invariant
                t <= builder.triggers.len(),
                triggers@.len() == t,
                forall|i: int|
                    0 <= i < t ==> trigger_made(builder.triggers@[i], #[trigger] triggers@[i]),
            decreases builder.triggers.len() - t,
        {
            let authored = &builder.triggers[t];
            triggers.push(
                Trigger {
                    kind: authored.kind,
                    on_activate: copy_actions(&authored.on_activate),
                    initially_enabled: authored.initially_enabled,
                    fire_more_than_once: authored.fire_more_than_once,
                },
            );
            t = t + 1;
        }
        let mut used: HashSet<usize> = HashSet::new();
        let mut encounters: Vec<EncounterData> = Vec::new();
        let mut e: usize = 0;
        while e < builder.encounters.len()
            invariant
                e <= builder.encounters.len(),
                encounters@.len() == e,
                forall|d: int|
                    0 <= d < e ==> registry.encounter_of(
                        (#[trigger] builder.encounters@[d]).id@,
                    ) is Some,
                forall|d: int|
                    0 <= d < e ==> encounter_made(
                        builder.encounters@[d],
                        *registry,
                        triggers@,
                        #[trigger] encounters@[d],
                    ),
                forall|i: usize|
                    i < triggers@.len() ==> #[trigger] used@.contains(i) == claimed(
                        triggers@[i as int].kind,
                        builder.encounters@,
                        e as int,
                    ),
            decreases builder.encounters.len() - e,
        {
            let authored = &builder.encounters[e];
            let encounter = match registry.encounter(&authored.id) {
                Some(found) => found,
                None => {
                    return Err(AreaError::MissingDefinition(DefinitionKind::Encounter));
                },
            };
            let mut linked: Vec<usize> = Vec::new();
            let mut i: usize = 0;
            while i < triggers.len()
                invariant
                    i <= triggers.len(),
                    e < builder.encounters.len(),
                    *authored == builder.encounters@[e as int],
                    linked@ == linked_triggers(triggers@, authored.location, i as nat),
                    forall|j: usize|
                        j < i ==> #[trigger] used@.contains(j) == claimed(
                            triggers@[j as int].kind,
                            builder.encounters@,
                            e + 1,
                        ),
                    forall|j: usize|
                        i <= j < triggers@.len() ==> #[trigger] used@.contains(j) == claimed(
                            triggers@[j as int].kind,
                            builder.encounters@,
                            e as int,
                        ),
                decreases triggers.len() - i,
            {
                proof {
                    lemma_claimed_step(triggers@[i as int].kind, builder.encounters@, e as int);
                }
                match triggers[i].kind.encounter_location() {
                    Some(location) => {
                        if location == authored.location {
                            linked.push(i);
                            used.insert(i);
                        }
                    },
                    None => {},
                }
                i = i + 1;
            }
            encounters.push(
                EncounterData {
                    encounter,
                    location: authored.location,
                    size: authored.size,
                    triggers: linked,
                },
            );
            e = e + 1;
        }
        let mut reports: Vec<Diagnostic> = Vec::new();
        let mut i: usize = 0;
        while i < triggers.len()
            invariant
                i <= triggers.len(),
                forall|j: usize|
                    j < triggers@.len() ==> #[trigger] used@.contains(j) == claimed(
                        triggers@[j as int].kind,
                        builder.encounters@,
                        builder.encounters@.len() as int,
                    ),
                reports@ == stray_triggers(triggers@, builder.encounters@, i as nat),
            decreases triggers.len() - i,
        {
            if triggers[i].kind.encounter_location().is_some() && !used.contains(&i) {
                reports.push(Diagnostic::UnmatchedTrigger { index: i });
            }
            i = i + 1;
        }
        Ok((triggers, encounters, reports))
    }
}

} // verus!
