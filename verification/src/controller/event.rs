//! One kind of input event: its decoding rules, its translation tables, and
//! the translation of a report into a character and new modifier state.

use crate::error::{rejection, Error, ErrorKind, ErrorView};
use crate::parser::line::{copy_words, word_views};
use crate::parser::stack::{outcome, text_lines, StackView, Step};
use crate::parser::{item, Applied, Handler, KeywordView, Parser, ParserView, Stack};
use crate::parser::{sequence_fits, sequence_in_bounds, sequence_value, unwrap_sequence};
use crate::search::{lemma_first_index, lemma_no_index};
use vstd::prelude::*;

verus! {

/// Number of slots in a translation table.
pub const TRANSLATION_SIZE: usize = 128;

/// What a slot of a translation table does.
#[derive(Clone, Copy, PartialEq, Eq, Debug, Structural)]
pub enum Action {
    /// Emits the character while the key goes down or repeats.
    Press(u8),
    /// Flips a modifier bit when the key goes down.
    Toggle(u8),
    /// Sets a modifier bit when the key goes down, clears it when it goes up.
    Hold(u8),
    /// Selects the client that receives the characters.
    Target(u8),
    /// Sets a modifier bit while the value is below the centre, clears it otherwise.
    Push(u8),
    /// Nothing is bound to the slot.
    Unassigned,
}

/// A decoded value, where the rule that gives it is present.
pub type Value = Option<u64>;

/// Byte offsets into a report, where the rule that gives them is present.
pub type Sequence = Option<Vec<usize>>;

/// How a report is decoded: where the slot number and the value stand in it,
/// and which values mean up, down, repeat and centre.
#[derive(Debug, PartialEq, Eq)]
pub struct Rules {
    pub bytes_id: Sequence,
    pub bytes_value: Sequence,
    pub value_up: Value,
    pub value_down: Value,
    pub value_repeat: Value,
    pub value_center: Value,
}

/// The mathematical content of [`Rules`].
pub struct RulesView {
    pub bytes_id: Option<Seq<usize>>,
    pub bytes_value: Option<Seq<usize>>,
    pub value_up: Option<u64>,
    pub value_down: Option<u64>,
    pub value_repeat: Option<u64>,
    pub value_center: Option<u64>,
}

/// The offsets of an optional sequence as a mathematical sequence.
pub open spec fn offsets(sequence: Sequence) -> Option<Seq<usize>> {
    match sequence {
        Some(offsets) => Some(offsets@),
        None => None,
    }
}

impl View for Rules {
    type V = RulesView;

    open spec fn view(&self) -> RulesView {
        RulesView {
            bytes_id: offsets(self.bytes_id),
            bytes_value: offsets(self.bytes_value),
            value_up: self.value_up,
            value_down: self.value_down,
            value_repeat: self.value_repeat,
            value_center: self.value_center,
        }
    }
}

/// A copy of a list of offsets.
pub fn copy_offsets(sequence: &Vec<usize>) -> (copy: Vec<usize>)
    ensures
        copy@ == sequence@,
{
    let mut copy: Vec<usize> = Vec::new();
    let mut position: usize = 0;
    while position < sequence.len()
        invariant
            position <= sequence.len(),
            copy@ == sequence@.take(position as int),
        decreases sequence.len() - position,
    {
        copy.push(sequence[position]);
        proof {
            assert(sequence@.take(position + 1) == sequence@.take(position as int).push(
                sequence@[position as int],
            ));
        }
        position += 1;
    }
    proof {
        assert(sequence@.take(position as int) == sequence@);
    }
    copy
}

/// A copy of an optional list of offsets.
pub fn copy_sequence(sequence: &Sequence) -> (copy: Sequence)
    ensures
        offsets(copy) == offsets(*sequence),
{
    match sequence {
        Some(offsets) => Some(copy_offsets(offsets)),
        None => None,
    }
}

/// Rules with nothing specified.
pub open spec fn no_rules() -> RulesView {
    RulesView {
        bytes_id: None,
        bytes_value: None,
        value_up: None,
        value_down: None,
        value_repeat: None,
        value_center: None,
    }
}

impl Rules {
    /// Rules with nothing specified.
    pub fn new() -> (rules: Rules)
        ensures
            rules@ == no_rules(),
    {
        Rules {
            bytes_id: None,
            bytes_value: None,
            value_up: None,
            value_down: None,
            value_repeat: None,
            value_center: None,
        }
    }

    /// A copy of these rules.
    pub fn snapshot(&self) -> (copy: Rules)
        ensures
            copy@ == self@,
    {
        Rules {
            bytes_id: copy_sequence(&self.bytes_id),
            bytes_value: copy_sequence(&self.bytes_value),
            value_up: self.value_up,
            value_down: self.value_down,
            value_repeat: self.value_repeat,
            value_center: self.value_center,
        }
    }
}

/// A translation table: one action for each slot.
pub type Translation = [Action; TRANSLATION_SIZE];

/// A translation table and the modifier pattern under which it applies.
#[derive(Debug, PartialEq, Eq)]
pub struct Mode {
    pub translation: Translation,
    pub mask: u8,
}

/// The mathematical content of a [`Mode`]: its 128 actions and its mask.
pub struct ModeView {
    pub translation: Seq<Action>,
    pub mask: u8,
}

impl View for Mode {
    type V = ModeView;

    open spec fn view(&self) -> ModeView {
        ModeView { translation: self.translation@, mask: self.mask }
    }
}

impl Mode {
    /// A mode with the given table and mask.
    pub fn new(translation: Translation, mask: u8) -> (mode: Mode)
        ensures
            mode@ == (ModeView { translation: translation@, mask }),
    {
        Mode { translation, mask }
    }
}

/// One kind of input event, told from the others by its identifier.
#[derive(Debug, PartialEq, Eq)]
pub struct Event {
    pub modes: Vec<Mode>,
    pub base_mode: Option<Mode>,
    pub rules: Rules,
    pub identifier: u64,
}

/// The mathematical content of an [`Event`].
pub struct EventView {
    pub modes: Seq<ModeView>,
    pub base_mode: Option<ModeView>,
    pub rules: RulesView,
    pub identifier: u64,
}

/// The contents of a list of modes, in order.
pub open spec fn modes_view(modes: Seq<Mode>) -> Seq<ModeView> {
    modes.map_values(|mode: Mode| mode@)
}

/// The content of an optional mode.
pub open spec fn mode_view(mode: Option<Mode>) -> Option<ModeView> {
    match mode {
        Some(mode) => Some(mode@),
        None => None,
    }
}

/// The masks of a list of modes, in order.
pub open spec fn masks(modes: Seq<ModeView>) -> Seq<u8> {
    modes.map_values(|mode: ModeView| mode.mask)
}

impl View for Event {
    type V = EventView;

    open spec fn view(&self) -> EventView {
        EventView {
            modes: modes_view(self.modes@),
            base_mode: mode_view(self.base_mode),
            rules: self.rules@,
            identifier: self.identifier,
        }
    }
}

/// What a translation yields: the character to send, if any, and the
/// target and modifiers afterwards.
#[derive(Clone, Copy, Debug, PartialEq, Eq)]
pub struct Outcome {
    pub character: Option<u8>,
    pub target: u8,
    pub modifiers: u8,
}

/// The modifier byte with only the bit at `offset` set.
pub open spec fn bit(offset: u8) -> u8 {
    1u8 << offset
}

/// The number that a rule's offsets spell in a report, where the rule is present.
pub open spec fn decoded(sequence: Option<Seq<usize>>, buffer: Seq<u8>) -> Option<u64> {
    match sequence {
        Some(offsets) => Some(sequence_value(buffer, offsets) as u64),
        None => None,
    }
}

/// The mode that applies under `modifiers`: the first whose mask equals them,
/// else the base mode, else none.
pub open spec fn selected(event: EventView, modifiers: u8) -> Option<ModeView> {
    match masks(event.modes).index_of_first(modifiers) {
        Some(index) => Some(event.modes[index]),
        None => event.base_mode,
    }
}

/// Whether `action` can be carried out on `value`: every bit that it would
/// touch lies inside the modifier byte.
pub open spec fn performable(action: Action, value: Option<u64>, rules: RulesView) -> bool {
    match value {
        None => true,
        Some(_) => match action {
            Action::Hold(offset) => (rules.value_down == value || rules.value_up == value)
                ==> offset < 8,
            Action::Toggle(offset) => rules.value_down == value ==> offset < 8,
            Action::Push(offset) => rules.value_center is Some ==> offset < 8,
            _ => true,
        },
    }
}

/// What `action` does on a report that carries `value`.
pub open spec fn performed(
    action: Action,
    value: Option<u64>,
    rules: RulesView,
    target: u8,
    modifiers: u8,
) -> Outcome {
    let unchanged = Outcome { character: None, target, modifiers };
    match value {
        None => unchanged,
        Some(number) => match action {
            Action::Press(character) => if rules.value_down == value || rules.value_repeat
                == value {
                Outcome { character: Some(character), target, modifiers }
            } else {
                unchanged
            },
            Action::Hold(offset) => {
                let pressed = if rules.value_down == value {
                    modifiers | bit(offset)
                } else {
                    modifiers
                };
                let released = if rules.value_up == value {
                    pressed & !bit(offset)
                } else {
                    pressed
                };
                Outcome { character: None, target, modifiers: released }
            },
            Action::Toggle(offset) => if rules.value_down == value {
                Outcome { character: None, target, modifiers: modifiers ^ bit(offset) }
            } else {
                unchanged
            },
            Action::Target(client) => if rules.value_down == value {
                Outcome { character: None, target: client, modifiers }
            } else {
                unchanged
            },
            Action::Push(offset) => match rules.value_center {
                Some(center) => if number < center {
                    Outcome { character: None, target, modifiers: modifiers | bit(offset) }
                } else {
                    Outcome { character: None, target, modifiers: modifiers & !bit(offset) }
                },
                None => unchanged,
            },
            Action::Unassigned => unchanged,
        },
    }
}

/// Whether `event` can translate `buffer` under `modifiers`: the offsets it
/// reads lie inside the report, the slot lies inside the table, and the
/// action found there can be carried out.
pub open spec fn translatable(event: EventView, buffer: Seq<u8>, modifiers: u8) -> bool {
    match event.rules.bytes_id {
        None => true,
        Some(slot_offsets) => sequence_fits(slot_offsets, buffer.len()) && match selected(
            event,
            modifiers,
        ) {
            None => true,
            Some(mode) => {
                let slot = sequence_value(buffer, slot_offsets);
                slot < mode.translation.len() && (mode.translation[slot as int]
                    is Unassigned || ((event.rules.bytes_value matches Some(value_offsets)
                    ==> sequence_fits(value_offsets, buffer.len())) && performable(
                    mode.translation[slot as int],
                    decoded(event.rules.bytes_value, buffer),
                    event.rules,
                )))
            },
        },
    }
}

/// What `event` makes of `buffer` when the target and modifiers are as given.
pub open spec fn translated(event: EventView, buffer: Seq<u8>, target: u8, modifiers: u8) -> Outcome {
    let unchanged = Outcome { character: None, target, modifiers };
    match event.rules.bytes_id {
        None => unchanged,
        Some(slot_offsets) => match selected(event, modifiers) {
            None => unchanged,
            Some(mode) => performed(
                mode.translation[sequence_value(buffer, slot_offsets) as int],
                decoded(event.rules.bytes_value, buffer),
                event.rules,
                target,
                modifiers,
            ),
        },
    }
}

/// Holding a modifier and letting it go leaves the modifiers as they were,
/// provided the bit was clear before.
pub proof fn lemma_hold_then_release(offset: u8, rules: RulesView, target: u8, modifiers: u8)
    requires
        offset < 8,
        rules.value_down is Some,
        rules.value_up is Some,
        modifiers & bit(offset) == 0,
    ensures
        ({
            let down = performed(Action::Hold(offset), rules.value_down, rules, target, modifiers);
            let up = performed(Action::Hold(offset), rules.value_up, rules, down.target, down.modifiers);
            up == (Outcome { character: None, target, modifiers })
        }),
{
    assert((modifiers | (1u8 << offset)) & !(1u8 << offset) == modifiers) by (bit_vector)
        requires
            modifiers & (1u8 << offset) == 0,
            offset < 8,
    ;
    assert(modifiers & !(1u8 << offset) == modifiers) by (bit_vector)
        requires
            modifiers & (1u8 << offset) == 0,
            offset < 8,
    ;
}

/// Toggling a modifier twice leaves the modifiers as they were.
pub proof fn lemma_toggle_twice(offset: u8, rules: RulesView, target: u8, modifiers: u8)
    requires
        offset < 8,
        rules.value_down is Some,
    ensures
        ({
            let once = performed(Action::Toggle(offset), rules.value_down, rules, target, modifiers);
            let twice = performed(Action::Toggle(offset), rules.value_down, rules, once.target, once.modifiers);
            twice == (Outcome { character: None, target, modifiers })
        }),
{
    assert((modifiers ^ (1u8 << offset)) ^ (1u8 << offset) == modifiers) by (bit_vector);
}

/// Carries out `action` on a report that carries `value`, where it can be
/// carried out.
pub fn perform(action: Action, value: Option<u64>, rules: &Rules, target: u8, modifiers: u8) -> (outcome:
    Option<Outcome>)
    ensures
        performable(action, value, rules@) ==> outcome == Some(
            performed(action, value, rules@, target, modifiers),
        ),
        !performable(action, value, rules@) ==> outcome is None,
{
    let unchanged = Outcome { character: None, target, modifiers };
    let number: u64 = match value {
        Some(number) => number,
        None => {
            return Some(unchanged);
        },
    };
    let down: bool = match rules.value_down {
        Some(expected) => expected == number,
        None => false,
    };
    let up: bool = match rules.value_up {
        Some(expected) => expected == number,
        None => false,
    };
    let repeat: bool = match rules.value_repeat {
        Some(expected) => expected == number,
        None => false,
    };
    match action {
        Action::Press(character) => {
            if down || repeat {
                Some(Outcome { character: Some(character), target, modifiers })
            } else {
                Some(unchanged)
            }
        },
        Action::Hold(offset) => {
            if (down || up) && offset >= 8 {
                return None;
            }
            let mut changed: u8 = modifiers;
            if down {
                changed = changed | (1u8 << offset);
            }
            if up {
                changed = changed & !(1u8 << offset);
            }
            Some(Outcome { character: None, target, modifiers: changed })
        },
        Action::Toggle(offset) => {
            if !down {
                Some(unchanged)
            } else if offset >= 8 {
                None
            } else {
                Some(Outcome { character: None, target, modifiers: modifiers ^ (1u8 << offset) })
            }
        },
        Action::Target(client) => {
            if down {
                Some(Outcome { character: None, target: client, modifiers })
            } else {
                Some(unchanged)
            }
        },
        Action::Push(offset) => {
            match rules.value_center {
                None => Some(unchanged),
                Some(center) => {
                    if offset >= 8 {
                        None
                    } else if number < center {
                        Some(
                            Outcome { character: None, target, modifiers: modifiers | (1u8 << offset) },
                        )
                    } else {
                        Some(
                            Outcome {
                                character: None,
                                target,
                                modifiers: modifiers & !(1u8 << offset),
                            },
                        )
                    }
                },
            }
        },
        Action::Unassigned => Some(unchanged),
    }
}

impl Event {
    /// The mode that applies under `modifiers`.
    pub fn select(&self, modifiers: u8) -> (mode: Option<&Mode>)
        ensures
            match mode {
                Some(mode) => selected(self@, modifiers) == Some(mode@),
                None => selected(self@, modifiers) is None,
            },
    {
        let mut position: usize = 0;
        while position < self.modes.len()
            invariant
                position <= self.modes.len(),
                forall|earlier: int|
                    0 <= earlier < position ==> masks(self@.modes)[earlier] != modifiers,
            decreases self.modes.len() - position,
        {
            if self.modes[position].mask == modifiers {
                proof {
                    lemma_first_index(masks(self@.modes), modifiers, position as int);
                }
                return Some(&self.modes[position]);
            }
            position += 1;
        }
        proof {
            lemma_no_index(masks(self@.modes), modifiers);
        }
        self.base_mode.as_ref()
    }

    /// Translates one report, or tells that this event cannot translate it.
    pub fn try_translate(&self, buffer: &Vec<u8>, target: u8, modifiers: u8) -> (outcome: Option<
        Outcome,
    >)
        ensures
            translatable(self@, buffer@, modifiers) ==> outcome == Some(
                translated(self@, buffer@, target, modifiers),
            ),
            !translatable(self@, buffer@, modifiers) ==> outcome is None,
    {
        let unchanged = Outcome { character: None, target, modifiers };
        let slot_offsets = match &self.rules.bytes_id {
            Some(slot_offsets) => slot_offsets,
            None => {
                return Some(unchanged);
            },
        };
        if !sequence_in_bounds(slot_offsets, buffer.len()) {
            return None;
        }
        let slot = unwrap_sequence(buffer, slot_offsets);
        let mode = match self.select(modifiers) {
            Some(mode) => mode,
            None => {
                return Some(unchanged);
            },
        };
        if slot >= TRANSLATION_SIZE as u64 {
            return None;
        }
        let action = mode.translation[slot as usize];
        if action == Action::Unassigned {
            return Some(unchanged);
        }
        let value = match &self.rules.bytes_value {
            Some(value_offsets) => {
                if !sequence_in_bounds(value_offsets, buffer.len()) {
                    return None;
                }
                Some(unwrap_sequence(buffer, value_offsets))
            },
            None => None,
        };
        perform(action, value, &self.rules, target, modifiers)
    }

    /// Translates one report: finds the slot it names in the mode that
    /// applies, and carries out the action bound there.
    pub fn translate(&self, buffer: &Vec<u8>, target: &mut u8, modifiers: &mut u8) -> (character:
        Option<u8>)
        requires
            translatable(self@, buffer@, *old(modifiers)),
        ensures
            (Outcome { character, target: *final(target), modifiers: *final(modifiers) })
                == translated(self@, buffer@, *old(target), *old(modifiers)),
    {
        match self.try_translate(buffer, *target, *modifiers) {
            Some(outcome) => {
                *target = outcome.target;
                *modifiers = outcome.modifiers;
                outcome.character
            },
            None => None,
        }
    }
}

impl RulesView {
    /// The rules after a byte rule: `id` and `value` are followed by the
    /// sequence that tells where the slot number or the value stands.
    pub open spec fn with_bytes(self, rule: Seq<char>, stack: StackView) -> Applied<RulesView> {
        if rule == "id"@ || rule == "value"@ {
            let popped = stack.pop_sequence();
            match popped.result {
                Ok(sequence) => Applied {
                    state: if rule == "id"@ {
                        RulesView { bytes_id: Some(sequence), ..self }
                    } else {
                        RulesView { bytes_value: Some(sequence), ..self }
                    },
                    stack: popped.stack,
                    result: Ok(()),
                },
                Err(error) => Applied { state: self, stack: popped.stack, result: Err(error) },
            }
        } else {
            Applied {
                state: self,
                stack,
                result: Err(rejection(ErrorKind::InvalidByteRule, stack.line, rule)),
            }
        }
    }

    /// The rules after a value rule: `up`, `down`, `repeat` or `center`,
    /// followed by the value that means it.
    pub open spec fn with_value(self, stack: StackView) -> Applied<RulesView> {
        let taken = stack.take("no value rule specified"@);
        match taken.result {
            Err(error) => Applied { state: self, stack: taken.stack, result: Err(error) },
            Ok(rule) => if rule == "up"@ || rule == "down"@ || rule == "repeat"@ || rule
                == "center"@ {
                let popped = taken.stack.pop_u64();
                match popped.result {
                    Ok(value) => Applied {
                        state: if rule == "up"@ {
                            RulesView { value_up: Some(value), ..self }
                        } else if rule == "down"@ {
                            RulesView { value_down: Some(value), ..self }
                        } else if rule == "repeat"@ {
                            RulesView { value_repeat: Some(value), ..self }
                        } else {
                            RulesView { value_center: Some(value), ..self }
                        },
                        stack: popped.stack,
                        result: Ok(()),
                    },
                    Err(error) => Applied { state: self, stack: popped.stack, result: Err(error) },
                }
            } else {
                Applied {
                    state: self,
                    stack: taken.stack,
                    result: Err(rejection(ErrorKind::InvalidValueRule, taken.stack.line, rule)),
                }
            },
        }
    }
}

impl Rules {
    /// Carries out a byte rule whose name was taken already.
    pub fn byte_rule(&mut self, rule: String, stack: &mut Stack) -> (result: Result<(), Error>)
        requires
            old(stack).wf(),
        ensures
            final(stack).wf(),
            (Applied { state: final(self)@, stack: final(stack)@, result: outcome(result) })
                == old(self)@.with_bytes(rule@, old(stack)@),
    {
        if rule.as_str().eq("id") {
            let sequence = stack.pop_sequence()?;
            self.bytes_id = Some(sequence);
            Ok(())
        } else if rule.as_str().eq("value") {
            let sequence = stack.pop_sequence()?;
            self.bytes_value = Some(sequence);
            Ok(())
        } else {
            Err(stack.panic(ErrorKind::InvalidByteRule, rule))
        }
    }

    /// Carries out a value rule.
    pub fn value_rule(&mut self, stack: &mut Stack) -> (result: Result<(), Error>)
        requires
            old(stack).wf(),
        ensures
            final(stack).wf(),
            (Applied { state: final(self)@, stack: final(stack)@, result: outcome(result) })
                == old(self)@.with_value(old(stack)@),
    {
        let rule = stack.take("no value rule specified")?;
        if rule.as_str().eq("up") {
            let value = stack.pop_u64()?;
            self.value_up = Some(value);
            Ok(())
        } else if rule.as_str().eq("down") {
            let value = stack.pop_u64()?;
            self.value_down = Some(value);
            Ok(())
        } else if rule.as_str().eq("repeat") {
            let value = stack.pop_u64()?;
            self.value_repeat = Some(value);
            Ok(())
        } else if rule.as_str().eq("center") {
            let value = stack.pop_u64()?;
            self.value_center = Some(value);
            Ok(())
        } else {
            Err(stack.panic(ErrorKind::InvalidValueRule, rule))
        }
    }
}

/// A translation table with nothing bound.
pub open spec fn empty_translation() -> Seq<Action> {
    Seq::new(TRANSLATION_SIZE as nat, |slot: int| Action::Unassigned)
}

/// Makes a translation table with nothing bound.
pub fn blank_translation() -> (translation: Translation)
    ensures
        translation@ == empty_translation(),
{
    let unbound = Action::Unassigned;
    let translation = [unbound; 128];
    proof {
        assert(translation == vstd::array::spec_array_fill_for_copy_type::<Action, 128>(unbound));
        assert(translation@ =~= empty_translation());
    }
    translation
}

/// An event that is being configured, and the clients that its targets may name.
pub struct EventBuilder {
    pub modes: Vec<Mode>,
    pub base_mode: Option<Mode>,
    pub rules: Rules,
    pub client_names: Vec<String>,
}

/// The mathematical content of an [`EventBuilder`].
pub struct EventBuilderView {
    pub modes: Seq<ModeView>,
    pub base_mode: Option<ModeView>,
    pub rules: RulesView,
    pub client_names: Seq<Seq<char>>,
}

impl View for EventBuilder {
    type V = EventBuilderView;

    open spec fn view(&self) -> EventBuilderView {
        EventBuilderView {
            modes: modes_view(self.modes@),
            base_mode: mode_view(self.base_mode),
            rules: self.rules@,
            client_names: word_views(self.client_names@),
        }
    }
}

impl EventBuilderView {
    /// The event after a mode directive. `base` declares the base mode, with
    /// nothing bound. A pattern adds a mode with that mask, whose table is
    /// the table that the base mode has at that moment, or one with nothing
    /// bound where there is no base mode.
    pub open spec fn with_mode(self, stack: StackView) -> Applied<EventBuilderView> {
        let popped = stack.pop_mode();
        match popped.result {
            Err(error) => Applied { state: self, stack: popped.stack, result: Err(error) },
            Ok(None) => Applied {
                state: EventBuilderView {
                    base_mode: Some(ModeView { translation: empty_translation(), mask: 0 }),
                    ..self
                },
                stack: popped.stack,
                result: Ok(()),
            },
            Ok(Some(mask)) => Applied {
                state: EventBuilderView {
                    modes: self.modes.push(
                        ModeView {
                            translation: match self.base_mode {
                                Some(base) => base.translation,
                                None => empty_translation(),
                            },
                            mask,
                        },
                    ),
                    ..self
                },
                stack: popped.stack,
                result: Ok(()),
            },
        }
    }

    /// The event after `action` is bound to `slot`: in the mode that was
    /// added last, or in the base mode where none was added.
    pub open spec fn with_action(self, slot: usize, action: Action, stack: StackView) -> Applied<
        EventBuilderView,
    > {
        if self.modes.len() > 0 {
            let last = self.modes.last();
            if slot < last.translation.len() {
                Applied {
                    state: EventBuilderView {
                        modes: self.modes.update(
                            self.modes.len() - 1,
                            ModeView {
                                translation: last.translation.update(slot as int, action),
                                ..last
                            },
                        ),
                        ..self
                    },
                    stack,
                    result: Ok(()),
                }
            } else {
                Applied {
                    state: self,
                    stack,
                    result: Err(rejection(ErrorKind::SlotOutOfRange, stack.line, Seq::empty())),
                }
            }
        } else {
            match self.base_mode {
                Some(base) => if slot < base.translation.len() {
                    Applied {
                        state: EventBuilderView {
                            base_mode: Some(
                                ModeView {
                                    translation: base.translation.update(slot as int, action),
                                    ..base
                                },
                            ),
                            ..self
                        },
                        stack,
                        result: Ok(()),
                    }
                } else {
                    Applied {
                        state: self,
                        stack,
                        result: Err(
                            rejection(ErrorKind::SlotOutOfRange, stack.line, Seq::empty()),
                        ),
                    }
                },
                None => Applied {
                    state: self,
                    stack,
                    result: Err(rejection(ErrorKind::NoMode, stack.line, Seq::empty())),
                },
            }
        }
    }

    /// The event after a slot directive: a slot number, then what
    /// `payload` reads and `bind` makes an action of.
    pub open spec fn with_slot(
        self,
        stack: StackView,
        payload: spec_fn(StackView) -> Step<u8>,
        bind: spec_fn(u8) -> Action,
    ) -> Applied<EventBuilderView> {
        let slot = stack.pop_counter();
        match slot.result {
            Err(error) => Applied { state: self, stack: slot.stack, result: Err(error) },
            Ok(number) => {
                let read = payload(slot.stack);
                match read.result {
                    Err(error) => Applied { state: self, stack: read.stack, result: Err(error) },
                    Ok(byte) => self.with_action(number, bind(byte), read.stack),
                }
            },
        }
    }
}

/// The number of the keyword `byte` of an event's configuration.
pub const KEYWORD_BYTE: usize = 0;

/// The number of the keyword `value`.
pub const KEYWORD_VALUE: usize = 1;

/// The number of the keyword `mode`.
pub const KEYWORD_MODE: usize = 2;

/// The number of the keyword `press`.
pub const KEYWORD_PRESS: usize = 3;

/// The number of the keyword `toggle`.
pub const KEYWORD_TOGGLE: usize = 4;

/// The number of the keyword `set`.
pub const KEYWORD_SET: usize = 5;

/// The number of the keyword `target`.
pub const KEYWORD_TARGET: usize = 6;

/// The number of the keyword `push`.
pub const KEYWORD_PUSH: usize = 7;

impl EventBuilder {
    /// Carries out a mode directive.
    pub fn declare_mode(&mut self, stack: &mut Stack) -> (result: Result<(), Error>)
        requires
            old(stack).wf(),
        ensures
            final(stack).wf(),
            (Applied { state: final(self)@, stack: final(stack)@, result: outcome(result) })
                == old(self)@.with_mode(old(stack)@),
    {
        match stack.pop_mode()? {
            Some(mask) => {
                let translation = match &self.base_mode {
                    Some(base) => base.translation,
                    None => blank_translation(),
                };
                let mode = Mode::new(translation, mask);
                proof {
                    assert(modes_view(self.modes@.push(mode)) == modes_view(
                        self.modes@,
                    ).push(mode@));
                }
                self.modes.push(mode);
            },
            None => {
                self.base_mode = Some(Mode::new(blank_translation(), 0));
            },
        }
        Ok(())
    }

    /// Binds `action` to `slot`.
    pub fn assign(&mut self, slot: usize, action: Action, stack: &Stack) -> (result: Result<
        (),
        Error,
    >)
        ensures
            (Applied { state: final(self)@, stack: stack@, result: outcome(result) })
                == old(self)@.with_action(slot, action, stack@),
    {
        let count = self.modes.len();
        if count > 0 {
            if slot >= TRANSLATION_SIZE {
                return Err(stack.panic(ErrorKind::SlotOutOfRange, String::new()));
            }
            let ghost before = self.modes@;
            let mut mode = self.modes.pop().unwrap();
            mode.translation[slot] = action;
            proof {
                assert(modes_view(before.drop_last().push(mode)) == modes_view(before).update(
                    count - 1,
                    mode@,
                ));
            }
            self.modes.push(mode);
            Ok(())
        } else {
            match self.base_mode.take() {
                Some(mut base) => {
                    if slot >= TRANSLATION_SIZE {
                        self.base_mode = Some(base);
                        return Err(stack.panic(ErrorKind::SlotOutOfRange, String::new()));
                    }
                    base.translation[slot] = action;
                    self.base_mode = Some(base);
                    Ok(())
                },
                None => Err(stack.panic(ErrorKind::NoMode, String::new())),
            }
        }
    }
}

impl Handler for EventBuilder {
    open spec fn ready(&self) -> bool {
        true
    }

    open spec fn waiting(state: EventBuilderView) -> bool {
        false
    }

    open spec fn applied(
        state: EventBuilderView,
        keyword: int,
        prefix: Option<Seq<char>>,
        stack: StackView,
    ) -> Applied<EventBuilderView> {
        if keyword == KEYWORD_BYTE {
            let taken = stack.take("no byte rule specified"@);
            match taken.result {
                Err(error) => Applied { state, stack: taken.stack, result: Err(error) },
                Ok(rule) => {
                    let rules = state.rules.with_bytes(rule, taken.stack);
                    Applied {
                        state: EventBuilderView { rules: rules.state, ..state },
                        stack: rules.stack,
                        result: rules.result,
                    }
                },
            }
        } else if keyword == KEYWORD_VALUE {
            let rules = state.rules.with_value(stack);
            Applied {
                state: EventBuilderView { rules: rules.state, ..state },
                stack: rules.stack,
                result: rules.result,
            }
        } else if keyword == KEYWORD_MODE {
            state.with_mode(stack)
        } else if keyword == KEYWORD_PRESS {
            state.with_slot(
                stack,
                |stack: StackView| stack.pop_ascii(),
                |byte: u8| Action::Press(byte),
            )
        } else if keyword == KEYWORD_TOGGLE {
            state.with_slot(stack, |stack: StackView| stack.pop_u8(), |byte: u8| Action::Toggle(byte))
        } else if keyword == KEYWORD_SET {
            state.with_slot(stack, |stack: StackView| stack.pop_u8(), |byte: u8| Action::Hold(byte))
        } else if keyword == KEYWORD_TARGET {
            state.with_slot(
                stack,
                |stack: StackView| stack.pop_client(state.client_names),
                |byte: u8| Action::Target(byte),
            )
        } else if keyword == KEYWORD_PUSH {
            state.with_slot(stack, |stack: StackView| stack.pop_u8(), |byte: u8| Action::Push(byte))
        } else {
            Applied { state, stack, result: Ok(()) }
        }
    }

    fn is_waiting(&self) -> (waiting: bool) {
        false
    }

    fn call(&mut self, keyword: usize, prefix: Option<&str>, stack: &mut Stack) -> (result: Result<
        (),
        Error,
    >) {
        if keyword == KEYWORD_BYTE {
            let rule = stack.take("no byte rule specified")?;
            self.rules.byte_rule(rule, stack)
        } else if keyword == KEYWORD_VALUE {
            self.rules.value_rule(stack)
        } else if keyword == KEYWORD_MODE {
            self.declare_mode(stack)
        } else if keyword == KEYWORD_PRESS {
            let slot = stack.pop_counter()?;
            let byte = stack.pop_ascii()?;
            self.assign(slot, Action::Press(byte), stack)
        } else if keyword == KEYWORD_TOGGLE {
            let slot = stack.pop_counter()?;
            let byte = stack.pop_u8()?;
            self.assign(slot, Action::Toggle(byte), stack)
        } else if keyword == KEYWORD_SET {
            let slot = stack.pop_counter()?;
            let byte = stack.pop_u8()?;
            self.assign(slot, Action::Hold(byte), stack)
        } else if keyword == KEYWORD_TARGET {
            let slot = stack.pop_counter()?;
            let byte = stack.pop_client(&self.client_names)?;
            self.assign(slot, Action::Target(byte), stack)
        } else if keyword == KEYWORD_PUSH {
            let slot = stack.pop_counter()?;
            let byte = stack.pop_u8()?;
            self.assign(slot, Action::Push(byte), stack)
        } else {
            Ok(())
        }
    }
}

/// The keywords of an event's configuration, in the order of their numbers.
pub open spec fn event_keywords() -> Seq<KeywordView> {
    seq![
        item("byte"@),
        item("value"@),
        item("mode"@),
        item("press"@),
        item("toggle"@),
        item("set"@),
        item("target"@),
        item("push"@),
    ]
}

impl Event {
    /// The event that a configuration describes: the rules it starts from,
    /// changed by the directives of `lines` one after the other. It is
    /// rejected with the first directive that is, and where in the end the
    /// rules do not say where the slot number stands.
    pub open spec fn configured(
        rules: RulesView,
        lines: Seq<Option<Seq<Seq<char>>>>,
        identifier: u64,
        client_names: Seq<Seq<char>>,
    ) -> Result<EventView, ErrorView> {
        let start = EventBuilderView { modes: Seq::empty(), base_mode: None, rules, client_names };
        let round = ParserView::beginning(lines, event_keywords()).parse::<EventBuilder>(start);
        match round.result {
            Err(error) => Err(error),
            Ok(_) => if round.handler.rules.bytes_id is Some {
                Ok(
                    EventView {
                        modes: round.handler.modes,
                        base_mode: round.handler.base_mode,
                        rules: round.handler.rules,
                        identifier,
                    },
                )
            } else {
                Err(rejection(ErrorKind::NoSlotBytes, round.parser.stack.line, Seq::empty()))
            },
        }
    }

    /// Whether the rules say where the slot number stands.
    pub open spec fn wf(&self) -> bool {
        self.rules.bytes_id is Some
    }

    /// Configures an event from the lines of its configuration.
    pub fn new(rules: Rules, lines: &Vec<String>, identifier: u64, client_names: &Vec<String>) -> (event:
        Result<Event, Error>)
        ensures
            match event {
                Ok(event) => event.wf() && event.identifier == identifier && Event::configured(
                    rules@,
                    text_lines(lines@),
                    identifier,
                    word_views(client_names@),
                ) == Ok::<EventView, ErrorView>(event@),
                Err(error) => Event::configured(
                    rules@,
                    text_lines(lines@),
                    identifier,
                    word_views(client_names@),
                ) == Err::<EventView, ErrorView>(error@),
            },
    {
        let mut parser = Parser::new(lines);
        parser.register("byte", false);
        parser.register("value", false);
        parser.register("mode", false);
        parser.register("press", false);
        parser.register("toggle", false);
        parser.register("set", false);
        parser.register("target", false);
        parser.register("push", false);
        let mut builder = EventBuilder {
            modes: Vec::new(),
            base_mode: None,
            rules,
            client_names: copy_words(client_names),
        };
        proof {
            assert(parser@.keywords == event_keywords());
            assert(modes_view(builder.modes@) == Seq::<ModeView>::empty());
        }
        parser.parse(&mut builder)?;
        if builder.rules.bytes_id.is_none() {
            return Err(parser.stack().panic(ErrorKind::NoSlotBytes, String::new()));
        }
        Ok(
            Event {
                modes: builder.modes,
                base_mode: builder.base_mode,
                rules: builder.rules,
                identifier,
            },
        )
    }
}

/// A mode that is added after the base mode starts with the table that the
/// base mode has at that moment, and leaves the base mode as it is.
pub proof fn lemma_mode_snapshot(event: EventBuilderView, stack: StackView, mask: u8)
    requires
        event.base_mode is Some,
        stack.pop_mode().result == Ok::<Option<u8>, ErrorView>(Some(mask)),
    ensures
        ({
            let after = event.with_mode(stack).state;
            &&& after.modes == event.modes.push(
                ModeView { translation: event.base_mode.unwrap().translation, mask },
            )
            &&& after.base_mode == event.base_mode
        }),
{
}

/// Once a mode was added, binding a slot changes the mode that was added
/// last and nothing else: not the base mode it was copied from.
pub proof fn lemma_assignment_spares_base(
    event: EventBuilderView,
    slot: usize,
    action: Action,
    stack: StackView,
)
    requires
        event.modes.len() > 0,
    ensures
        ({
            let after = event.with_action(slot, action, stack).state;
            &&& after.base_mode == event.base_mode
            &&& after.modes.len() == event.modes.len()
            &&& forall|earlier: int|
                0 <= earlier < event.modes.len() - 1 ==> after.modes[earlier]
                    == event.modes[earlier]
        }),
{
}

} // verus!
