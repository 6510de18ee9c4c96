//! Hit detection and hit resolution: which hitboxes land on which fighters
//! in a tick, and what each hit does to its victim.
use crate::combatant::Combatant;
use crate::combatant::CombatantView;
use crate::moves::MAX_FRAME_RATE;
use crate::timer::duration_nanos;
use crate::vitals::HitStun;
use std::time::Duration;
use vstd::prelude::*;

verus! {

/// The hitbox of fighter `source` landed on fighter `target`.
#[derive(Clone, Copy, Debug, PartialEq, Eq, Structural)]
pub struct HitEvent {
    pub target: u64,
    pub source: u64,
}

/// The plain values of a roster of fighters.
pub open spec fn roster_view(roster: Seq<Combatant>) -> Seq<CombatantView> {
    Seq::new(roster.len(), |i: int| roster[i]@)
}

/// Every fighter of the roster is well formed.
pub open spec fn roster_wf(roster: Seq<Combatant>) -> bool {
    forall|i: int| 0 <= i < roster.len() ==> (#[trigger] roster[i]).wf()
}

/// The hits of fighter `attacker` on the first `victims` fighters of the
/// roster, in roster order.
pub open spec fn hits_of(roster: Seq<CombatantView>, attacker: int, victims: int) -> Seq<
    HitEvent,
>
    decreases victims,
{
    if victims <= 0 {
        Seq::empty()
    } else {
        let earlier = hits_of(roster, attacker, victims - 1);
        if roster[attacker].strikes(roster[victims - 1]) {
            earlier.push(HitEvent { target: roster[victims - 1].id, source: roster[attacker].id })
        } else {
            earlier
        }
    }
}

/// The hits of the first `attackers` fighters of the roster on any fighter
/// of the roster: attacker by attacker, and for each attacker victim by
/// victim, both in roster order.
pub open spec fn hits_among(roster: Seq<CombatantView>, attackers: int) -> Seq<HitEvent>
    decreases attackers,
{
    if attackers <= 0 {
        Seq::empty()
    } else {
        hits_among(roster, attackers - 1) + hits_of(roster, attackers - 1, roster.len() as int)
    }
}

/// All hits of a tick.
pub open spec fn hits(roster: Seq<CombatantView>) -> Seq<HitEvent> {
    hits_among(roster, roster.len() as int)
}

/// An event is among an attacker's hits exactly if it names the attacker and
/// a victim that the attacker strikes.
pub proof fn lemma_hits_of_member(
    roster: Seq<CombatantView>,
    attacker: int,
    victims: int,
    event: HitEvent,
)
    requires
        0 <= attacker < roster.len(),
        0 <= victims <= roster.len(),
    ensures
        hits_of(roster, attacker, victims).contains(event) <==> exists|victim: int|
            0 <= victim < victims && #[trigger] roster[attacker].strikes(roster[victim]) && event
                == (HitEvent { target: roster[victim].id, source: roster[attacker].id }),
    decreases victims,
{
    if victims > 0 {
        lemma_hits_of_member(roster, attacker, victims - 1, event);
        let earlier = hits_of(roster, attacker, victims - 1);
        let last = HitEvent { target: roster[victims - 1].id, source: roster[attacker].id };
        if roster[attacker].strikes(roster[victims - 1]) {
            // `earlier.push(last)` holds `last` and what `earlier` holds.
            assert(earlier.push(last)[earlier.len() as int] == last);
            if earlier.contains(event) {
                let i = choose|i: int| 0 <= i < earlier.len() && earlier[i] == event;
                assert(earlier.push(last)[i] == event);
            }
        }
    }
}

/// An event is among the hits of a tick exactly if it names an attacker and
/// a victim of the roster such that the attacker strikes the victim.
pub proof fn lemma_hits_member(roster: Seq<CombatantView>, attackers: int, event: HitEvent)
    requires
        0 <= attackers <= roster.len(),
    ensures
        hits_among(roster, attackers).contains(event) <==> exists|attacker: int, victim: int|
            0 <= attacker < attackers && 0 <= victim < roster.len()
                && #[trigger] roster[attacker].strikes(roster[victim]) && event == (HitEvent {
                target: roster[victim].id,
                source: roster[attacker].id,
            }),
    decreases attackers,
{
    if attackers > 0 {
        lemma_hits_member(roster, attackers - 1, event);
        lemma_hits_of_member(roster, attackers - 1, roster.len() as int, event);
        let earlier = hits_among(roster, attackers - 1);
        let row = hits_of(roster, attackers - 1, roster.len() as int);
        // `earlier + row` holds what `earlier` holds and what `row` holds.
        if earlier.contains(event) {
            let i = choose|i: int| 0 <= i < earlier.len() && earlier[i] == event;
            assert((earlier + row)[i] == event);
        }
        if row.contains(event) {
            let i = choose|i: int| 0 <= i < row.len() && row[i] == event;
            assert((earlier + row)[earlier.len() + i] == event);
        }
    }
}

/// No fighter hits itself.
pub proof fn lemma_no_self_hit(roster: Seq<CombatantView>, event: HitEvent)
    requires
        hits(roster).contains(event),
    ensures
        event.source != event.target,
{
    lemma_hits_member(roster, roster.len() as int, event);
}

/// Finds the hits of a tick: for every fighter that has a hitbox, every
/// other fighter whose hurtbox the hitbox meets and whom that hitbox has
/// not hit before. The fighters are read, not changed.
pub fn check_hits(roster: &Vec<Combatant>) -> (events: Vec<HitEvent>)
    ensures
        events@ == hits(roster_view(roster@)),
{
    let ghost views = roster_view(roster@);
    let mut events: Vec<HitEvent> = Vec::new();
    let mut i: usize = 0;
    while i < roster.len()
        invariant
            i <= roster.len(),
            views == roster_view(roster@),
            events@ == hits_among(views, i as int),
        decreases roster.len() - i,
    {
        let source = &roster[i];
        if let Some(region) = source.hit_region() {
            let ghost before = events@;
            let mut j: usize = 0;
            while j < roster.len()
                invariant
                    j <= roster.len(),
                    i < roster.len(),
                    views == roster_view(roster@),
                    source == &roster[i as int],
                    Some(region) == source@.hit_region(),
                    events@ == before + hits_of(views, i as int, j as int),
                decreases roster.len() - j,
            {
                let target = &roster[j];
                if source.id != target.id && region.intersects(target.hurt_region())
                    && !source.has_struck(target.id) {
                    events.push(HitEvent { target: target.id, source: source.id });
                }
                j += 1;
            }
        } else {
            proof {
                lemma_no_hitbox_no_hits(views, i as int, roster.len() as int);
            }
        }
        i += 1;
    }
    events
}

/// A fighter without a hitbox hits nobody.
pub proof fn lemma_no_hitbox_no_hits(roster: Seq<CombatantView>, attacker: int, victims: int)
    requires
        0 <= attacker < roster.len(),
        roster[attacker].hitbox.is_none(),
    ensures
        hits_of(roster, attacker, victims) == Seq::<HitEvent>::empty(),
    decreases victims,
{
    if victims > 0 {
        lemma_no_hitbox_no_hits(roster, attacker, victims - 1);
    }
}

/// Brings a fighter's hitbox in line with its clip: the fighter has its
/// attack's hitbox exactly while the attack's clip is in the active phase.
/// When the hitbox goes, the record of whom it has hit goes with it.
pub fn manage_hitboxes(fighter: &mut Combatant)
    requires
        old(fighter).wf(),
    ensures
        final(fighter)@ == old(fighter)@.hitbox_managed(),
        final(fighter)@.hitbox.is_some() <==> old(fighter)@.attacking(),
        final(fighter).wf(),
{
    let (manager, attack) = fighter.animation.get_current_animation();
    let active = manager.is_within_active();
    match attack {
        Some(attack) if active => {
            fighter.hitbox = Some(attack.hitbox);
        },
        _ => {
            fighter.hitbox = None;
            fighter.struck = Vec::new();
        },
    }
}

/// Counts `delta` on a fighter's stun and lifts the stun when its time is
/// up. The fighter's state is left as it is.
pub fn check_hitstun(fighter: &mut Combatant, delta: Duration)
    requires
        old(fighter).wf(),
    ensures
        final(fighter)@ == old(fighter)@.stun_ticked(duration_nanos(delta)),
        final(fighter).wf(),
{
    let finished = match &mut fighter.hit_stun {
        Some(stun) => {
            stun.tick(delta);
            stun.is_finished()
        },
        None => false,
    };
    if finished {
        fighter.hit_stun = None;
    }
}

/// The position of the first fighter of the roster whose id is `id`.
pub open spec fn position_of(roster: Seq<CombatantView>, id: u64) -> Option<int>
    decreases roster.len(),
{
    if roster.len() == 0 {
        None
    } else {
        match position_of(roster.drop_last(), id) {
            Some(i) => Some(i),
            None => if roster.last().id == id {
                Some(roster.len() - 1)
            } else {
                None
            },
        }
    }
}

/// `position_of` finds the first fighter with the id, and finds none only
/// if there is none.
pub proof fn lemma_position_of(roster: Seq<CombatantView>, id: u64)
    ensures
        match position_of(roster, id) {
            Some(i) => 0 <= i < roster.len() && roster[i].id == id && forall|j: int|
                0 <= j < i ==> (#[trigger] roster[j]).id != id,
            None => forall|j: int| 0 <= j < roster.len() ==> (#[trigger] roster[j]).id != id,
        },
    decreases roster.len(),
{
    if roster.len() > 0 {
        lemma_position_of(roster.drop_last(), id);
        assert forall|j: int| 0 <= j < roster.len() - 1 implies roster.drop_last()[j]
            == roster[j] by {}
    }
}

/// The position of the first fighter of the roster whose id is `id`.
pub fn find_combatant(roster: &Vec<Combatant>, id: u64) -> (found: Option<usize>)
    ensures
        match found {
            Some(i) => position_of(roster_view(roster@), id) == Some(i as int),
            None => position_of(roster_view(roster@), id).is_none(),
        },
{
    let ghost views = roster_view(roster@);
    proof {
        lemma_position_of(views, id);
    }
    let mut i: usize = 0;
    while i < roster.len()
        invariant
            i <= roster.len(),
            views == roster_view(roster@),
            forall|j: int| 0 <= j < i ==> (#[trigger] views[j]).id != id,
        decreases roster.len() - i,
    {
        if roster[i].id == id {
            proof {
                lemma_position_of(views, id);
                assert(views[i as int].id == id);
            }
            return Some(i);
        }
        i += 1;
    }
    None
}

/// The event names an attacker of the roster that is performing an attack.
pub open spec fn hit_has_attack(roster: Seq<CombatantView>, event: HitEvent) -> bool {
    position_of(roster, event.source) matches Some(source)
        && roster[source].current_attack().is_some()
}

/// Every event names an attacker of the roster that is performing an attack.
pub open spec fn hits_have_attacks(roster: Seq<CombatantView>, events: Seq<HitEvent>) -> bool {
    forall|k: int| 0 <= k < events.len() ==> hit_has_attack(roster, #[trigger] events[k])
}

/// The roster after one hit. The attacker notes whom it has hit; the victim
/// takes the damage of the attacker's current attack, loses its own hitbox
/// and is stunned. An event whose victim is not in the roster changes
/// nothing.
pub open spec fn hit_resolved(roster: Seq<CombatantView>, event: HitEvent) -> Seq<CombatantView>
    recommends
        hit_has_attack(roster, event),
{
    match (position_of(roster, event.source), position_of(roster, event.target)) {
        (Some(source), Some(target)) => {
            let attack = roster[source].current_attack().unwrap();
            let noted = roster.update(source, roster[source].having_struck(event.target));
            noted.update(target, noted[target].hit_by(attack))
        },
        _ => roster,
    }
}

/// The roster after the given hits, resolved one after the other.
pub open spec fn hits_resolved(roster: Seq<CombatantView>, events: Seq<HitEvent>) -> Seq<
    CombatantView,
>
    decreases events.len(),
{
    if events.len() == 0 {
        roster
    } else {
        hit_resolved(hits_resolved(roster, events.drop_last()), events.last())
    }
}

/// Resolving a hit keeps every fighter's id and move state machine.
pub proof fn lemma_hit_keeps_moves(roster: Seq<CombatantView>, event: HitEvent)
    ensures
        hit_resolved(roster, event).len() == roster.len(),
        forall|i: int|
            0 <= i < roster.len() ==> (#[trigger] hit_resolved(roster, event)[i]).id
                == roster[i].id && hit_resolved(roster, event)[i].animation
                == roster[i].animation,
        forall|id: u64| position_of(hit_resolved(roster, event), id) == position_of(roster, id),
        forall|other: HitEvent|
            hit_has_attack(roster, other) ==> hit_has_attack(hit_resolved(roster, event), other),
{
    lemma_position_of(roster, event.source);
    lemma_position_of(roster, event.target);
    let after = hit_resolved(roster, event);
    assert forall|i: int| 0 <= i < roster.len() implies (#[trigger] after[i]).id == roster[i].id
        && after[i].animation == roster[i].animation by {}
    assert forall|id: u64| position_of(after, id) == position_of(roster, id) by {
        // Both are the first place at which `id` stands, and the ids stand
        // where they stood.
        lemma_position_of(roster, id);
        lemma_position_of(after, id);
        if position_of(roster, id).is_some() {
            assert(after[position_of(roster, id).unwrap()].id == id);
        }
    }
    assert forall|other: HitEvent| hit_has_attack(roster, other) implies hit_has_attack(
        after,
        other,
    ) by {
        lemma_position_of(roster, other.source);
    }
}

/// Resolves the hits of a tick, one after the other: each attacker notes
/// its victim; each victim takes the damage of the attacker's current
/// attack, loses its own hitbox and is stunned for as long as the attack
/// says. An event whose victim is not in the roster is passed over.
pub fn check_hitboxes(roster: &mut Vec<Combatant>, events: &Vec<HitEvent>)
    requires
        roster_wf(old(roster)@),
        hits_have_attacks(roster_view(old(roster)@), events@),
    ensures
        roster_view(final(roster)@) == hits_resolved(roster_view(old(roster)@), events@),
        roster_wf(final(roster)@),
        final(roster).len() == old(roster).len(),
{
    let ghost start = roster_view(roster@);
    let mut k: usize = 0;
    while k < events.len()
        invariant
            k <= events.len(),
            roster_wf(roster@),
            roster.len() == start.len(),
            roster_view(roster@) == hits_resolved(start, events@.subrange(0, k as int)),
            hits_have_attacks(roster_view(roster@), events@),
        decreases events.len() - k,
    {
        let event = events[k];
        let ghost before = roster_view(roster@);
        proof {
            lemma_hit_keeps_moves(before, event);
            lemma_position_of(before, event.source);
            lemma_position_of(before, event.target);
            assert(events@.subrange(0, k as int + 1).drop_last() == events@.subrange(0, k as int));
        }
        let source = find_combatant(roster, event.source);
        let target = find_combatant(roster, event.target);
        match (source, target) {
            (Some(source), Some(target)) => {
                let (damage, stun_frames) = match &roster[source].animation.get_current_animation().1 {
                    Some(attack) => (attack.damage, attack.hit_stun_frames),
                    None => vstd::pervasive::unreached(),
                };
                roster[source].struck.push(event.target);
                let ghost noted = roster_view(roster@);
                assert(noted == before.update(
                    source as int,
                    before[source as int].having_struck(event.target),
                ));
                let victim = &mut roster[target];
                victim.health.damage(damage);
                victim.hitbox = None;
                victim.hit_stun = Some(HitStun::new(stun_frames, MAX_FRAME_RATE));
                assert(roster_view(roster@) == noted.update(
                    target as int,
                    noted[target as int].hit_by(before[source as int].current_attack().unwrap()),
                ));
            },
            _ => {},
        }
        k += 1;
    }
    assert(events@.subrange(0, events.len() as int) == events@);
}

/// No two fighters of the roster share an id.
pub open spec fn distinct_ids(roster: Seq<CombatantView>) -> bool {
    forall|i: int, j: int|
        0 <= i < roster.len() && 0 <= j < roster.len() && i != j ==> (#[trigger] roster[i]).id
            != (#[trigger] roster[j]).id
}

/// A hit that has been resolved is not found again: among fighters with
/// distinct ids, once the hit of an attacker on a victim is resolved, the
/// next search for hits does not report that pair, wherever the two stand.
pub proof fn lemma_resolved_hit_is_not_repeated(
    roster: Seq<CombatantView>,
    attacker: int,
    victim: int,
)
    requires
        distinct_ids(roster),
        0 <= attacker < roster.len(),
        0 <= victim < roster.len(),
        roster[attacker].strikes(roster[victim]),
        roster[attacker].current_attack().is_some(),
    ensures
        ({
            let event = HitEvent { target: roster[victim].id, source: roster[attacker].id };
            &&& hits(roster).contains(event)
            &&& !hits(hit_resolved(roster, event)).contains(event)
        }),
{
    let event = HitEvent { target: roster[victim].id, source: roster[attacker].id };
    let after = hit_resolved(roster, event);
    lemma_hits_member(roster, roster.len() as int, event);
    lemma_position_of(roster, event.source);
    lemma_position_of(roster, event.target);
    // With distinct ids the event names the attacker and the victim alone.
    assert(position_of(roster, event.source) == Some(attacker));
    assert(position_of(roster, event.target) == Some(victim));
    // The attacker's note of the victim is the last entry of its record.
    let noted = roster.update(attacker, roster[attacker].having_struck(event.target));
    assert(noted[attacker].struck[roster[attacker].struck.len() as int] == event.target);
    lemma_hit_keeps_moves(roster, event);
    lemma_hits_member(after, after.len() as int, event);
}

/// The roster at the start of hit detection: every stun has counted `delta`
/// more nanoseconds, and every hitbox is in line with its fighter's clip.
pub open spec fn prepared(roster: Seq<CombatantView>, delta: nat) -> Seq<CombatantView> {
    Seq::new(roster.len(), |i: int| roster[i].stun_ticked(delta).hitbox_managed())
}

/// Among fighters with distinct ids whose hitboxes are in line with their
/// clips, every hit that is found names an attacker that is performing an
/// attack, so every hit can be resolved.
pub proof fn lemma_found_hits_have_attacks(roster: Seq<CombatantView>)
    requires
        distinct_ids(roster),
        forall|i: int|
            0 <= i < roster.len() && (#[trigger] roster[i]).hitbox.is_some()
                ==> roster[i].current_attack().is_some(),
    ensures
        hits_have_attacks(roster, hits(roster)),
{
    let events = hits(roster);
    assert forall|k: int| 0 <= k < events.len() implies hit_has_attack(
        roster,
        #[trigger] events[k],
    ) by {
        lemma_hits_member(roster, roster.len() as int, events[k]);
        lemma_position_of(roster, events[k].source);
    }
}

/// Runs the hit management of one tick of length `delta` on the whole
/// roster. First every stun counts the tick and every hitbox is brought in
/// line with its fighter's clip. Then the hits are looked for, with all
/// fighters where they stood when the tick began, and resolved one after the
/// other. Returns the hits in the order in which they were resolved.
pub fn run_hit_management(roster: &mut Vec<Combatant>, delta: Duration) -> (events: Vec<HitEvent>)
    requires
        roster_wf(old(roster)@),
        distinct_ids(roster_view(old(roster)@)),
    ensures
        events@ == hits(prepared(roster_view(old(roster)@), duration_nanos(delta))),
        roster_view(final(roster)@) == hits_resolved(
            prepared(roster_view(old(roster)@), duration_nanos(delta)),
            events@,
        ),
        roster_wf(final(roster)@),
        distinct_ids(roster_view(final(roster)@)),
        final(roster).len() == old(roster).len(),
{
    let ghost start = roster_view(roster@);
    let ghost nanos = duration_nanos(delta);
    let mut i: usize = 0;
    while i < roster.len()
        invariant
            i <= roster.len(),
            roster.len() == start.len(),
            nanos == duration_nanos(delta),
            roster_wf(roster@),
            forall|j: int| 0 <= j < i ==> (#[trigger] roster[j])@ == prepared(start, nanos)[j],
            forall|j: int| i <= j < roster.len() ==> (#[trigger] roster[j])@ == start[j],
        decreases roster.len() - i,
    {
        let fighter = &mut roster[i];
        check_hitstun(fighter, delta);
        manage_hitboxes(fighter);
        i += 1;
    }
    let ghost ready = roster_view(roster@);
    proof {
        assert(ready == prepared(start, nanos));
        lemma_found_hits_have_attacks(ready);
    }
    let events = check_hits(roster);
    check_hitboxes(roster, &events);
    proof {
        lemma_hits_keep_moves(ready, events@);
    }
    events
}

/// Resolving hits keeps every fighter's id and move state machine.
pub proof fn lemma_hits_keep_moves(roster: Seq<CombatantView>, events: Seq<HitEvent>)
    ensures
        hits_resolved(roster, events).len() == roster.len(),
        forall|i: int|
            0 <= i < roster.len() ==> (#[trigger] hits_resolved(roster, events)[i]).id
                == roster[i].id && hits_resolved(roster, events)[i].animation
                == roster[i].animation,
    decreases events.len(),
{
    if events.len() > 0 {
        lemma_hits_keep_moves(roster, events.drop_last());
        lemma_hit_keeps_moves(hits_resolved(roster, events.drop_last()), events.last());
    }
}

} // verus!
