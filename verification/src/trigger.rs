//! Triggers: the configured rules that turn a swipe into shell commands.

use vstd::prelude::*;
use crate::edge::{edge_named, Edge};
use crate::error::TriggerError;
use crate::gesture::Gesture;
use crate::percent::{steps_per_percent, Percent, UNITS_PER_PERCENT};

verus! {

/// A rule: a swipe from `edge` that ends in the zone `[from, to)` along
/// that edge runs `command`. The bounds are percentages as the
/// configuration states them.
///
/// Nothing asks that `from <= to`; a rule with `to <= from`, or with a
/// bound that is a NaN, has an empty zone and never fires.
#[derive(Clone, Debug, PartialEq, Eq)]
pub struct Trigger {
    pub command: String,
    pub edge: Edge,
    pub from: Percent,
    pub to: Percent,
}

/// One field of a trigger record as the configuration gave it.
#[derive(Clone, Debug, PartialEq, Eq)]
pub enum Field<T> {
    /// The record has no such field.
    Missing,
    /// The field is there, but its value cannot be read as what the field
    /// asks for.
    Invalid,
    /// The field's value.
    Value(T),
}

/// A trigger as it stands in the configuration, before it is checked.
#[derive(Clone, Debug, PartialEq, Eq)]
pub struct TriggerRecord {
    pub command: Field<String>,
    pub edge: Field<String>,
    pub from: Field<Percent>,
    pub to: Field<Percent>,
}

/// Where and why loading the trigger list stopped.
#[derive(Clone, Copy, Debug, PartialEq, Eq, Structural)]
pub struct LoadError {
    /// Index of the first entry that was rejected.
    pub index: usize,
    pub reason: TriggerError,
}

impl Trigger {
    /// Whether the rule applies to a swipe from `edge` that ends at
    /// `position` along it. The zone includes `from` and excludes `to`.
    pub open spec fn covers(self, edge: Edge, position: Percent) -> bool {
        self.edge == edge && self.from.le(position) && position.lt(self.to)
    }

    /// Decides [`Trigger::covers`].
    pub fn matches(&self, edge: Edge, position: Percent) -> (hit: bool)
        ensures
            hit == self.covers(edge, position),
    {
        self.edge == edge && self.from.at_most(&position) && position.less_than(&self.to)
    }

    /// Checks a record and builds its trigger. The fields are examined in
    /// the order `command`, `edge`, `from`, `to`, and the first fault decides
    /// the error: the result is [`record_outcome`].
    pub fn from_record(record: &TriggerRecord) -> (parsed: Result<Trigger, TriggerError>)
        ensures
            parsed == record_outcome(*record),
    {
        let command = match &record.command {
            Field::Missing => { return Err(TriggerError::NoCommand); },
            Field::Invalid => { return Err(TriggerError::InvalidCommand); },
            Field::Value(text) => text.clone(),
        };
        let edge = match &record.edge {
            Field::Missing => { return Err(TriggerError::NoEdge); },
            Field::Invalid => { return Err(TriggerError::InvalidEdge); },
            Field::Value(name) => match Edge::from_str(name.as_str()) {
                Ok(edge) => edge,
                Err(reason) => { return Err(reason); },
            },
        };
        let from = match record.from {
            Field::Value(from) => from,
            _ => { return Err(TriggerError::InvalidRange); },
        };
        let to = match record.to {
            Field::Value(to) => to,
            _ => { return Err(TriggerError::InvalidRange); },
        };
        Ok(Trigger { command, edge, from, to })
    }
}

/// What a record is worth: its trigger, or the first fault found when the
/// fields are examined in the order `command`, `edge`, `from`, `to`.
pub open spec fn record_outcome(record: TriggerRecord) -> Result<Trigger, TriggerError> {
    match record.command {
        Field::Missing => Err(TriggerError::NoCommand),
        Field::Invalid => Err(TriggerError::InvalidCommand),
        Field::Value(command) => match record.edge {
            Field::Missing => Err(TriggerError::NoEdge),
            Field::Invalid => Err(TriggerError::InvalidEdge),
            Field::Value(name) => match edge_named(name@) {
                None => Err(TriggerError::InvalidEdge),
                Some(edge) => match (record.from, record.to) {
                    (Field::Value(from), Field::Value(to)) => Ok(
                        Trigger { command, edge, from, to },
                    ),
                    _ => Err(TriggerError::InvalidRange),
                },
            },
        },
    }
}

/// What an entry of the trigger list is worth. An entry that is no record
/// is rejected as such.
pub open spec fn entry_outcome(entry: Option<TriggerRecord>) -> Result<Trigger, TriggerError> {
    match entry {
        Some(record) => record_outcome(record),
        None => Err(TriggerError::NotARecord),
    }
}

/// Whether `loaded` is what loading `entries` must give: every trigger, in
/// order, if every entry is good; else the index and the fault of the
/// first bad entry.
pub open spec fn is_load_outcome(
    entries: Seq<Option<TriggerRecord>>,
    loaded: Result<Vec<Trigger>, LoadError>,
) -> bool {
    match loaded {
        Ok(triggers) => {
            &&& triggers@.len() == entries.len()
            &&& forall|i: int|
                0 <= i < entries.len() ==> entry_outcome(#[trigger] entries[i]) == Ok::<
                    Trigger,
                    TriggerError,
                >(triggers@[i])
        },
        Err(error) => {
            &&& error.index < entries.len()
            &&& entry_outcome(entries[error.index as int]) == Err::<Trigger, TriggerError>(
                error.reason,
            )
            &&& forall|j: int| 0 <= j < error.index ==> entry_outcome(#[trigger] entries[j]) is Ok
        },
    }
}

/// Builds the trigger table from the entries of the configuration, in
/// their order. One bad entry rejects the whole list: the error names the
/// first such entry and its fault, and no trigger is handed out.
pub fn load_triggers(entries: &Vec<Option<TriggerRecord>>) -> (loaded: Result<
    Vec<Trigger>,
    LoadError,
>)
    ensures
        is_load_outcome(entries@, loaded),
        loaded is Ok <==> forall|i: int|
            0 <= i < entries@.len() ==> entry_outcome(#[trigger] entries@[i]) is Ok,
{
    let mut triggers: Vec<Trigger> = Vec::new();
    let mut i: usize = 0;
    while i < entries.len()
        invariant
            i <= entries@.len(),
            triggers@.len() == i,
            forall|j: int|
                0 <= j < i ==> entry_outcome(#[trigger] entries@[j]) == Ok::<Trigger, TriggerError>(
                    triggers@[j],
                ),
        decreases entries@.len() - i,
    {
        let parsed = match &entries[i] {
            Some(record) => Trigger::from_record(record),
            None => Err(TriggerError::NotARecord),
        };
        match parsed {
            Ok(trigger) => {
                triggers.push(trigger);
            },
            Err(reason) => {
                return Err(LoadError { index: i, reason });
            },
        }
        i = i + 1;
    }
    Ok(triggers)
}

/// The commands of the triggers that cover `position` on `edge`, in the
/// order of the table. Every such trigger contributes; none is preferred.
pub open spec fn commands_for(triggers: Seq<Trigger>, edge: Edge, position: Percent) -> Seq<
    Seq<char>,
> {
    triggers.filter(|t: Trigger| t.covers(edge, position)).map_values(|t: Trigger| t.command@)
}

/// The commands that a released gesture sets off: none unless it is a
/// swipe, else those of every trigger that covers where it ended.
pub open spec fn fired(triggers: Seq<Trigger>, gesture: Gesture, min_distance: int) -> Seq<
    Seq<char>,
> {
    if gesture.is_swipe(min_distance) {
        commands_for(triggers, gesture.edge, gesture.along_edge())
    } else {
        Seq::empty()
    }
}

/// The text of each string of a list.
pub open spec fn texts(strings: Seq<String>) -> Seq<Seq<char>> {
    strings.map_values(|s: String| s@)
}

/// Judges a released gesture against the trigger table and returns the
/// commands to run, in table order: exactly [`fired`].
pub fn matching_commands(triggers: &Vec<Trigger>, gesture: &Gesture, min_distance: i32) -> (commands:
    Vec<String>)
    ensures
        texts(commands@) == fired(triggers@, *gesture, min_distance as int),
        !gesture.is_swipe(min_distance as int) ==> commands@.len() == 0,
{
    let mut commands: Vec<String> = Vec::new();
    if !gesture.qualifies(min_distance) {
        assert(texts(commands@) =~= Seq::<Seq<char>>::empty());
        return commands;
    }
    let edge = gesture.edge;
    let position = gesture.position_along_edge();
    let ghost covering = |t: Trigger| t.covers(edge, position);
    let ghost command_of = |t: Trigger| t.command@;
    let mut i: usize = 0;
    proof {
        reveal(Seq::filter);
        assert(triggers@.take(0).filter(covering) =~= Seq::<Trigger>::empty());
        assert(texts(commands@) =~= triggers@.take(0).filter(covering).map_values(command_of));
    }
    while i < triggers.len()
        invariant
            i <= triggers@.len(),
            covering == (|t: Trigger| t.covers(edge, position)),
            command_of == (|t: Trigger| t.command@),
            texts(commands@) == triggers@.take(i as int).filter(covering).map_values(command_of),
        decreases triggers@.len() - i,
    {
        let trigger = &triggers[i];
        proof {
            let before = triggers@.take(i as int);
            assert(triggers@.take(i + 1) =~= before.push(*trigger));
            before.lemma_filter_push(*trigger, covering);
        }
        if trigger.matches(edge, position) {
            let ghost earlier = commands@;
            let ghost kept = triggers@.take(i as int).filter(covering);
            let command = trigger.command.clone();
            commands.push(command);
            assert(texts(commands@) =~= texts(earlier).push(trigger.command@));
            assert(kept.push(*trigger).map_values(command_of) =~= kept.map_values(command_of).push(
                trigger.command@,
            ));
        }
        i = i + 1;
    }
    assert(triggers@.take(i as int) =~= triggers@);
    commands
}

/// A zone includes its lower bound and excludes its upper bound: a trigger
/// with a zone that is not empty covers `from` and every position from
/// there up to `to`, however close to `to`, and does not cover `to`.
pub proof fn lemma_zone_half_open(trigger: Trigger, position: Percent)
    requires
        trigger.from.lt(trigger.to),
    ensures
        trigger.covers(trigger.edge, trigger.from),
        !trigger.covers(trigger.edge, trigger.to),
        trigger.from.le(position) && position.lt(trigger.to) ==> trigger.covers(
            trigger.edge,
            position,
        ),
        position.lt(trigger.from) || trigger.to.le(position) ==> !trigger.covers(
            trigger.edge,
            position,
        ),
{
}

/// A trigger covers a position on its own edge exactly when the position
/// lies in `[from, to)`, and covers nothing on another edge.
pub proof fn lemma_covers_zone_on_own_edge(trigger: Trigger, edge: Edge, position: Percent)
    ensures
        edge == trigger.edge ==> (trigger.covers(edge, position) <==> trigger.from.le(position)
            && position.lt(trigger.to)),
        edge != trigger.edge ==> !trigger.covers(edge, position),
{
}

/// A trigger whose bounds are equal or reversed, or of which one is a NaN,
/// never fires; nor does any trigger for a position that is a NaN.
pub proof fn lemma_empty_zone_covers_nothing(trigger: Trigger, edge: Edge, position: Percent)
    requires
        !trigger.from.lt(trigger.to) || position.is_nan(),
    ensures
        !trigger.covers(edge, position),
{
}

/// A gesture whose distance does not exceed the minimum sets off nothing,
/// whatever the table holds; one whose distance exceeds it by anything at
/// all sets off every trigger that covers where it ended.
pub proof fn lemma_fired_threshold(triggers: Seq<Trigger>, gesture: Gesture, min_distance: int)
    ensures
        gesture.distance() * UNITS_PER_PERCENT <= min_distance * steps_per_percent() ==> fired(
            triggers,
            gesture,
            min_distance,
        ).len() == 0,
        !gesture.across_edge().is_nan() && gesture.distance() * UNITS_PER_PERCENT > min_distance
            * steps_per_percent() ==> fired(triggers, gesture, min_distance) == commands_for(
            triggers,
            gesture.edge,
            gesture.along_edge(),
        ),
{
}

/// Every trigger that covers the position contributes its command: none is
/// shadowed by another one that matches too.
pub proof fn lemma_every_match_fires(
    triggers: Seq<Trigger>,
    edge: Edge,
    position: Percent,
    i: int,
)
    requires
        0 <= i < triggers.len(),
        triggers[i].covers(edge, position),
    ensures
        commands_for(triggers, edge, position).contains(triggers[i].command@),
{
    let covering = |t: Trigger| t.covers(edge, position);
    let kept = triggers.filter(covering);
    triggers.lemma_filter_contains(covering, i);
    let k = choose|k: int| 0 <= k < kept.len() && kept[k] == triggers[i];
    assert(commands_for(triggers, edge, position)[k] == triggers[i].command@);
}

/// Nothing fires but the command of a trigger that covers the position.
pub proof fn lemma_only_matches_fire(
    triggers: Seq<Trigger>,
    edge: Edge,
    position: Percent,
    command: Seq<char>,
)
    requires
        commands_for(triggers, edge, position).contains(command),
    ensures
        exists|i: int|
            0 <= i < triggers.len() && (#[trigger] triggers[i]).covers(edge, position)
                && triggers[i].command@ == command,
{
    let covering = |t: Trigger| t.covers(edge, position);
    let kept = triggers.filter(covering);
    let fired = commands_for(triggers, edge, position);
    let k = choose|k: int| 0 <= k < fired.len() && fired[k] == command;
    triggers.lemma_filter_pred(covering, k);
    assert(kept.contains(kept[k]));
    triggers.lemma_filter_contains_rev(covering, kept[k]);
    let i = choose|i: int| 0 <= i < triggers.len() && triggers[i] == kept[k];
    assert(triggers[i].covers(edge, position) && triggers[i].command@ == command);
}

/// Where every trigger of the table covers the position, the commands of
/// all of them fire, in the order of the table.
pub proof fn lemma_all_matches_fire_in_order(
    triggers: Seq<Trigger>,
    edge: Edge,
    position: Percent,
)
    requires
        forall|i: int| 0 <= i < triggers.len() ==> (#[trigger] triggers[i]).covers(edge, position),
    ensures
        commands_for(triggers, edge, position) == triggers.map_values(|t: Trigger| t.command@),
    decreases triggers.len(),
{
    let covering = |t: Trigger| t.covers(edge, position);
    assert(triggers.filter(covering) == triggers) by {
        lemma_filter_keeps_all(triggers, covering);
    }
}

/// A filter that every element passes keeps the sequence as it is.
proof fn lemma_filter_keeps_all(triggers: Seq<Trigger>, keep: spec_fn(Trigger) -> bool)
    requires
        forall|i: int| 0 <= i < triggers.len() ==> keep(#[trigger] triggers[i]),
    ensures
        triggers.filter(keep) == triggers,
    decreases triggers.len(),
{
    reveal(Seq::filter);
    if triggers.len() > 0 {
        lemma_filter_keeps_all(triggers.drop_last(), keep);
        assert(triggers.drop_last().push(triggers.last()) =~= triggers);
    }
}

} // verus!
