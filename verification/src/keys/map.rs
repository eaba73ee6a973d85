//! The key map: which chord does what.

use crate::input::{KeyCode, KeyEvent, KeyModifiers};
use crate::keys;
use crate::keys::chord;
use crate::keys::chord::{chord_to_string, parse_chord, Chord};
use crate::keys::Action;
use crate::order;
use crate::order::{compare_text, Order};
use crate::search;
use crate::sorting;
use crate::sorting::{sort, Ranked};
use crate::strings::{concat2, concat3, concat5};
use serde::de::{IgnoredAny, IntoDeserializer};
use serde::Deserialize;
use std::collections::BTreeMap;
use vstd::prelude::*;

verus! {

/// A chord and what it does.
#[derive(Clone, Copy, Debug, PartialEq, Eq, Structural)]
pub struct Binding {
    pub chord: Chord,
    pub action: Action,
}

/// A binding of a key without modifier keys.
pub open spec fn bare(code: KeyCode, action: Action) -> Binding {
    Binding {
        chord: Chord { code, modifiers: KeyModifiers { control: false, alt: false, shift: false } },
        action,
    }
}

/// A binding of a character with Control.
pub open spec fn controlled(character: char, action: Action) -> Binding {
    Binding {
        chord: Chord {
            code: KeyCode::Char(character),
            modifiers: KeyModifiers { control: true, alt: false, shift: false },
        },
        action,
    }
}

/// What the chords do by default.
pub open spec fn default_list() -> Seq<Binding> {
    seq![
        bare(KeyCode::Char('q'), Action::Quit),
        bare(KeyCode::Char('?'), Action::Help),
        bare(KeyCode::Char('c'), Action::Compose),
        controlled('a', Action::Audit),
        bare(KeyCode::Char('A'), Action::Agents),
        bare(KeyCode::Char('H'), Action::Health),
        controlled('f', Action::Bulk),
        bare(KeyCode::Char('F'), Action::Filter),
        controlled('n', Action::NotifSettings),
        controlled('s', Action::Split),
        controlled('r', Action::Replay),
        bare(KeyCode::Char('k'), Action::NavUp),
        bare(KeyCode::Char('j'), Action::NavDown),
        bare(KeyCode::Tab, Action::TabNext),
        bare(KeyCode::Char('L'), Action::LaunchagentToggle),
    ]
}

fn bind(code: KeyCode, action: Action) -> (binding: Binding)
    ensures
        binding == bare(code, action),
{
    Binding { chord: Chord { code, modifiers: KeyModifiers::none() }, action }
}

fn bind_control(character: char, action: Action) -> (binding: Binding)
    ensures
        binding == controlled(character, action),
{
    Binding {
        chord: Chord { code: KeyCode::Char(character), modifiers: KeyModifiers::ctrl() },
        action,
    }
}

/// What the chords do by default.
pub fn default_bindings() -> (bindings: Vec<Binding>)
    ensures
        bindings@ == default_list(),
{
    let bindings = vec![
        bind(KeyCode::Char('q'), Action::Quit),
        bind(KeyCode::Char('?'), Action::Help),
        bind(KeyCode::Char('c'), Action::Compose),
        bind_control('a', Action::Audit),
        bind(KeyCode::Char('A'), Action::Agents),
        bind(KeyCode::Char('H'), Action::Health),
        bind_control('f', Action::Bulk),
        bind(KeyCode::Char('F'), Action::Filter),
        bind_control('n', Action::NotifSettings),
        bind_control('s', Action::Split),
        bind_control('r', Action::Replay),
        bind(KeyCode::Char('k'), Action::NavUp),
        bind(KeyCode::Char('j'), Action::NavDown),
        bind(KeyCode::Tab, Action::TabNext),
        bind(KeyCode::Char('L'), Action::LaunchagentToggle),
    ];
    proof {
        assert(bindings@ =~= default_list());
    }
    bindings
}

/// No chord does two things, and nothing is done by two chords.
pub open spec fn unambiguous(bindings: Seq<Binding>) -> bool {
    forall|i: int, j: int|
        0 <= i < j < bindings.len() ==> (#[trigger] bindings[i]).chord != (
        #[trigger] bindings[j]).chord && bindings[i].action != bindings[j].action
}

/// What a chord does.
pub open spec fn bound(bindings: Seq<Binding>, chord: Chord) -> Option<Action>
    decreases bindings.len(),
{
    if bindings.len() == 0 {
        None
    } else if bindings.last().chord == chord {
        Some(bindings.last().action)
    } else {
        bound(bindings.drop_last(), chord)
    }
}

/// The bindings that stay when a chord is given to an action: those of other chords and other
/// actions.
pub open spec fn spared(bindings: Seq<Binding>, chord: Chord, action: Action) -> Seq<Binding>
    decreases bindings.len(),
{
    if bindings.len() == 0 {
        bindings
    } else {
        let before = spared(bindings.drop_last(), chord, action);
        if bindings.last().chord == chord || bindings.last().action == action {
            before
        } else {
            before.push(bindings.last())
        }
    }
}

/// The bindings after a chord was given to an action.
pub open spec fn rebound(bindings: Seq<Binding>, chord: Chord, action: Action) -> Seq<Binding> {
    spared(bindings, chord, action).push(Binding { chord, action })
}

/// What is said when a chord is taken from another action.
pub open spec fn conflict(raw: Seq<char>, old_action: Action, action: Action) -> Seq<char> {
    "keys.toml: '"@ + raw + "' is bound to both '"@ + keys::action_name(old_action) + "' and '"@
        + keys::action_name(action) + "'; '"@ + keys::action_name(action) + "' wins"@
}

/// Which chord does what.
#[derive(Debug)]
pub struct KeyMap {
    pub bindings: Vec<Binding>,
}

/// An entry of the file: an action and the chord that it is given.
#[derive(Debug, PartialEq, Eq)]
pub struct KeyEntry {
    pub name: String,
    pub chord: String,
}

/// Entries rank by the name of the action.
impl Ranked for KeyEntry {
    open spec fn at_most(self, other: Self) -> bool {
        !order::text_less(other.name@, self.name@)
    }

    fn is_at_most(&self, other: &Self) -> (result: bool) {
        proof {
            order::text_less_irreflexive(self.name@);
            if order::text_less(self.name@, other.name@) && order::text_less(
                other.name@,
                self.name@,
            ) {
                order::text_less_transitive(self.name@, other.name@, self.name@);
            }
        }
        match compare_text(self.name.as_str(), other.name.as_str()) {
            Order::After => false,
            _ => true,
        }
    }

    proof fn ranks_chain(a: Self, b: Self, c: Self) {
        order::text_less_total(a.name@, b.name@);
        order::text_less_total(b.name@, c.name@);
        if order::text_less(c.name@, a.name@) && a.name@ != b.name@ {
            order::text_less_transitive(c.name@, a.name@, b.name@);
        }
    }

    proof fn ranks_compare(a: Self, b: Self) {
        if order::text_less(b.name@, a.name@) && order::text_less(a.name@, b.name@) {
            order::text_less_transitive(a.name@, b.name@, a.name@);
            order::text_less_irreflexive(a.name@);
        }
    }
}

/// The table of the given name in a TOML text, if there is one and all its values are strings, or
/// what is wrong with the text.
pub uninterp spec fn toml_strings(text: Seq<char>, name: Seq<char>) -> Result<
    Option<Seq<(Seq<char>, Seq<char>)>>,
    Seq<char>,
>;

/// The names and chords of some entries.
pub open spec fn entry_texts(entries: Seq<KeyEntry>) -> Seq<(Seq<char>, Seq<char>)> {
    Seq::new(entries.len(), |i: int| (entries[i].name@, entries[i].chord@))
}

/// `toml::de::DeTable::parse`, and `serde::Deserialize` into a map of strings for the value of that
/// name; then `toml::from_str`, which reads the other values and refuses a number that is too
/// large. An error is told with its line and column in the text (`toml::de::Error::set_input`).
/// The result depends on the text and the name alone and is named [`toml_strings`]; the grammar of
/// TOML and the texts of the errors are not stated.
#[verifier::external_body]
fn read_table(text: &str, name: &str) -> (entries: Result<Option<Vec<KeyEntry>>, String>)
    ensures
        toml_strings(text@, name@) == match entries {
            Ok(Some(entries)) => Ok(Some(entry_texts(entries@))),
            Ok(None) => Ok(None),
            Err(error) => Err(error@),
        },
{
    let table = toml::de::DeTable::parse(text).map_err(|error| error.to_string())?;
    let value = table.get_ref().get(name).cloned();
    let strings = value.map(|value| value.into_deserializer());
    let strings = strings.map(BTreeMap::<String, String>::deserialize);
    let strings = strings.transpose().map_err(|mut error| {
        error.set_input(Some(text));
        error.to_string()
    })?;
    toml::from_str::<BTreeMap<String, IgnoredAny>>(text).map_err(|error| error.to_string())?;
    Ok(strings.map(|strings| {
        strings.into_iter().map(|(name, chord)| KeyEntry { name, chord }).collect()
    }))
}

/// The entries of a table; a table that is not there has none.
pub open spec fn entries_or_none(
    entries: Option<Seq<(Seq<char>, Seq<char>)>>,
) -> Seq<(Seq<char>, Seq<char>)> {
    match entries {
        Some(entries) => entries,
        None => Seq::empty(),
    }
}

/// A key map and what there is to say about the file.
pub ghost struct Loaded {
    pub bindings: Seq<Binding>,
    pub warnings: Seq<Seq<char>>,
}

/// What an entry of the file does to the key map.
pub open spec fn entry_applied(before: Loaded, name: Seq<char>, text: Seq<char>) -> Loaded {
    match keys::action_named(name) {
        None => Loaded {
            bindings: before.bindings,
            warnings: before.warnings.push(
                "keys.toml: unknown action '"@ + name + "', ignoring"@,
            ),
        },
        Some(action) => match chord::chord_of(text) {
            Ok(chord) => Loaded {
                bindings: rebound(before.bindings, chord, action),
                warnings: match bound(before.bindings, chord) {
                    Some(old_action) => if old_action != action {
                        before.warnings.push(conflict(text, old_action, action))
                    } else {
                        before.warnings
                    },
                    None => before.warnings,
                },
            },
            Err(reason) => Loaded {
                bindings: before.bindings,
                warnings: before.warnings.push(
                    "keys.toml: invalid key for '"@ + name + "' ('"@ + text + "'): "@ + reason
                        + "; keeping default"@,
                ),
            },
        },
    }
}

/// What some entries do to the default key map, one after the other.
pub open spec fn entries_applied(entries: Seq<KeyEntry>) -> Loaded
    decreases entries.len(),
{
    if entries.len() == 0 {
        Loaded { bindings: default_list(), warnings: Seq::empty() }
    } else {
        entry_applied(
            entries_applied(entries.drop_last()),
            entries.last().name@,
            entries.last().chord@,
        )
    }
}

proof fn sparing_keeps_apart(bindings: Seq<Binding>, chord: Chord, action: Action)
    requires
        unambiguous(bindings),
    ensures
        unambiguous(spared(bindings, chord, action)),
        forall|i: int|
            0 <= i < spared(bindings, chord, action).len() ==> (#[trigger] spared(
                bindings,
                chord,
                action,
            )[i]).chord != chord && spared(bindings, chord, action)[i].action != action
                && bindings.contains(spared(bindings, chord, action)[i]),
    decreases bindings.len(),
{
    if bindings.len() > 0 {
        let shorter = bindings.drop_last();
        let last = bindings.last();
        let before = spared(shorter, chord, action);
        sparing_keeps_apart(shorter, chord, action);
        assert forall|i: int| 0 <= i < before.len() implies bindings.contains(
            #[trigger] before[i],
        ) && before[i].chord != last.chord && before[i].action != last.action by {
            let k = choose|k: int| 0 <= k < shorter.len() && shorter[k] == before[i];
            assert(bindings[k] == before[i]);
            assert(bindings[k].chord != bindings[bindings.len() - 1].chord);
        }
        assert(bindings[bindings.len() - 1] == last);
    }
}

proof fn rebinding_keeps_apart(bindings: Seq<Binding>, chord: Chord, action: Action)
    requires
        unambiguous(bindings),
    ensures
        unambiguous(rebound(bindings, chord, action)),
{
    sparing_keeps_apart(bindings, chord, action);
}

proof fn sparing_unbinds(bindings: Seq<Binding>, chord: Chord, action: Action, other: Chord)
    requires
        unambiguous(bindings),
        other != chord,
    ensures
        bound(spared(bindings, chord, action), other) == if bound(bindings, other) == Some(action) {
            None
        } else {
            bound(bindings, other)
        },
    decreases bindings.len(),
{
    if bindings.len() > 0 {
        let shorter = bindings.drop_last();
        let before = spared(shorter, chord, action);
        sparing_unbinds(shorter, chord, action, other);
        if bindings.last().chord == other && bindings.last().action == action {
            assert(bound(shorter, other) is None) by {
                unbound_unless_listed(shorter, other);
                if bound(shorter, other) is Some {
                    let k = choose|k: int|
                        0 <= k < shorter.len() && (#[trigger] shorter[k]).chord == other;
                    assert(bindings[k].chord != bindings[bindings.len() - 1].chord);
                }
            }
        }
        if !(bindings.last().chord == chord || bindings.last().action == action) {
            assert(before.push(bindings.last()).drop_last() =~= before);
        }
    }
}

proof fn unbound_unless_listed(bindings: Seq<Binding>, chord: Chord)
    ensures
        bound(bindings, chord) is Some ==> exists|k: int|
            0 <= k < bindings.len() && (#[trigger] bindings[k]).chord == chord
                && bound(bindings, chord) == Some(bindings[k].action),
    decreases bindings.len(),
{
    if bindings.len() > 0 {
        let shorter = bindings.drop_last();
        unbound_unless_listed(shorter, chord);
        if bindings.last().chord == chord {
            assert(bindings[bindings.len() - 1].chord == chord);
        } else if bound(shorter, chord) is Some {
            let k = choose|k: int|
                0 <= k < shorter.len() && (#[trigger] shorter[k]).chord == chord
                    && bound(shorter, chord) == Some(shorter[k].action);
            assert(bindings[k] == shorter[k]);
        }
    }
}

/// After a chord was given to an action, the chord does that, no other chord does, and all other
/// chords do what they did.
pub proof fn rebinding_moves_one_action(
    bindings: Seq<Binding>,
    chord: Chord,
    action: Action,
    other: Chord,
)
    requires
        unambiguous(bindings),
    ensures
        bound(rebound(bindings, chord, action), other) == if other == chord {
            Some(action)
        } else if bound(bindings, other) == Some(action) {
            None
        } else {
            bound(bindings, other)
        },
        unambiguous(rebound(bindings, chord, action)),
{
    rebinding_keeps_apart(bindings, chord, action);
    let kept = spared(bindings, chord, action);
    assert(kept.push(Binding { chord, action }).drop_last() =~= kept);
    if other != chord {
        sparing_unbinds(bindings, chord, action, other);
    }
}

proof fn one_chord_each(bindings: Seq<Binding>, left: Chord, right: Chord)
    requires
        unambiguous(bindings),
        bound(bindings, left) is Some,
        bound(bindings, left) == bound(bindings, right),
    ensures
        left == right,
{
    unbound_unless_listed(bindings, left);
    unbound_unless_listed(bindings, right);
    let i = choose|i: int|
        0 <= i < bindings.len() && (#[trigger] bindings[i]).chord == left && bound(bindings, left)
            == Some(bindings[i].action);
    let j = choose|j: int|
        0 <= j < bindings.len() && (#[trigger] bindings[j]).chord == right && bound(bindings, right)
            == Some(bindings[j].action);
    if i < j {
        assert(bindings[i].action != bindings[j].action);
    } else if j < i {
        assert(bindings[j].action != bindings[i].action);
    }
}

/// Giving an action the chord that it has changes nothing.
pub proof fn rebinding_the_same_changes_nothing(
    bindings: Seq<Binding>,
    chord: Chord,
    action: Action,
    other: Chord,
)
    requires
        unambiguous(bindings),
        bound(bindings, chord) == Some(action),
    ensures
        bound(rebound(bindings, chord, action), other) == bound(bindings, other),
{
    rebinding_moves_one_action(bindings, chord, action, other);
    if other != chord && bound(bindings, other) == Some(action) {
        one_chord_each(bindings, chord, other);
    }
}

proof fn defaults_are_unambiguous()
    ensures
        unambiguous(default_list()),
{
}

/// The default bindings are unambiguous, and each of them can be written into the file and read
/// back.
pub proof fn default_chords_are_read_back(index: int)
    requires
        0 <= index < default_list().len(),
    ensures
        unambiguous(default_list()),
        chord::chord_of(chord::chord_text(default_list()[index].chord)) == Ok::<Chord, Seq<char>>(
            default_list()[index].chord,
        ),
        keys::action_named(keys::action_name(default_list()[index].action)) == Some(
            default_list()[index].action,
        ),
{
    defaults_are_unambiguous();
    chord::chords_are_read_back(default_list()[index].chord);
    keys::actions_are_found_by_name(default_list()[index].action);
}

proof fn entries_keep_apart(entries: Seq<KeyEntry>)
    ensures
        unambiguous(entries_applied(entries).bindings),
    decreases entries.len(),
{
    if entries.len() == 0 {
        defaults_are_unambiguous();
    } else {
        entries_keep_apart(entries.drop_last());
        let before = entries_applied(entries.drop_last());
        if let Some(action) = keys::action_named(entries.last().name@) {
            if let Ok(chord) = chord::chord_of(entries.last().chord@) {
                rebinding_keeps_apart(before.bindings, chord, action);
            }
        }
    }
}

/// The chord of a key event, as bindings look at it. With a character, Shift does not count: the
/// case of the letter says it already. With another key it does.
pub open spec fn event_chord(key: KeyEvent) -> Chord {
    Chord {
        code: key.code,
        modifiers: KeyModifiers {
            control: key.modifiers.control,
            alt: key.modifiers.alt,
            shift: key.modifiers.shift && !(key.code is Char),
        },
    }
}

/// The text of a file that shows some bindings, without its heading.
pub open spec fn binding_lines(bindings: Seq<Binding>) -> Seq<char>
    decreases bindings.len(),
{
    if bindings.len() == 0 {
        Seq::empty()
    } else {
        binding_lines(bindings.drop_last()) + (keys::action_name(bindings.last().action)
            + " = \""@ + chord::chord_text(bindings.last().chord) + "\"\n"@)
    }
}

fn find_bound(bindings: &Vec<Binding>, chord: Chord) -> (action: Option<Action>)
    ensures
        action == bound(bindings@, chord),
{
    let mut end: usize = bindings.len();
    proof {
        assert(bindings@.take(end as int) =~= bindings@);
    }
    while end > 0
        invariant
            end <= bindings@.len(),
            bound(bindings@.take(end as int), chord) == bound(bindings@, chord),
        decreases end,
    {
        let binding = bindings[end - 1];
        proof {
            assert(bindings@.take(end as int).drop_last() =~= bindings@.take(end - 1));
        }
        if binding.chord == chord {
            return Some(binding.action);
        }
        end -= 1;
    }
    None
}

impl Default for KeyMap {
    fn default() -> (keymap: Self)
        ensures
            keymap.bindings@ == default_list(),
            keymap.wf(),
    {
        proof {
            defaults_are_unambiguous();
        }
        KeyMap { bindings: default_bindings() }
    }
}

impl KeyMap {
    /// No chord does two things, and nothing is done by two chords.
    pub open spec fn wf(self) -> bool {
        unambiguous(self.bindings@)
    }

    /// What a key does.
    pub fn lookup(&self, key: KeyEvent) -> (action: Option<Action>)
        ensures
            action == bound(self.bindings@, event_chord(key)),
    {
        let is_character = match key.code {
            KeyCode::Char(_) => true,
            _ => false,
        };
        let modifiers = KeyModifiers {
            control: key.modifiers.control,
            alt: key.modifiers.alt,
            shift: key.modifiers.shift && !is_character,
        };
        find_bound(&self.bindings, Chord { code: key.code, modifiers })
    }

    /// Gives a chord to an action. The action loses its old chord, and whatever the chord did is
    /// no longer bound; that is said.
    pub fn rebind(&mut self, action: Action, chord: Chord, raw: &str, warnings: &mut Vec<String>)
        requires
            old(self).wf(),
        ensures
            final(self).wf(),
            final(self).bindings@ == rebound(old(self).bindings@, chord, action),
            search::texts(final(warnings)@) == match bound(old(self).bindings@, chord) {
                Some(old_action) => if old_action != action {
                    search::texts(old(warnings)@).push(conflict(raw@, old_action, action))
                } else {
                    search::texts(old(warnings)@)
                },
                None => search::texts(old(warnings)@),
            },
    {
        if let Some(old_action) = find_bound(&self.bindings, chord) {
            if old_action != action {
                let mut text = concat5(
                    "keys.toml: '",
                    raw,
                    "' is bound to both '",
                    old_action.name(),
                    "' and '",
                );
                text.append(action.name());
                text.append("'; '");
                text.append(action.name());
                text.append("' wins");
                let ghost said = search::texts(warnings@);
                warnings.push(text);
                proof {
                    assert(search::texts(warnings@) =~= said.push(
                        conflict(raw@, old_action, action),
                    ));
                }
            }
        }
        let mut kept: Vec<Binding> = Vec::new();
        let mut index: usize = 0;
        proof {
            assert(self.bindings@.take(0) =~= Seq::empty());
        }
        while index < self.bindings.len()
            invariant
                index <= self.bindings@.len(),
                self.bindings@ == old(self).bindings@,
                kept@ == spared(self.bindings@.take(index as int), chord, action),
            decreases self.bindings@.len() - index,
        {
            let binding = self.bindings[index];
            proof {
                assert(self.bindings@.take(index + 1).drop_last() =~= self.bindings@.take(
                    index as int,
                ));
            }
            if binding.chord != chord && binding.action != action {
                kept.push(binding);
            }
            index += 1;
        }
        proof {
            assert(self.bindings@.take(index as int) =~= self.bindings@);
            rebinding_keeps_apart(self.bindings@, chord, action);
        }
        kept.push(Binding { chord, action });
        self.bindings = kept;
    }

    fn apply_entry(&mut self, entry: &KeyEntry, warnings: &mut Vec<String>)
        requires
            old(self).wf(),
        ensures
            final(self).wf(),
            (Loaded { bindings: final(self).bindings@, warnings: search::texts(final(warnings)@) })
                == entry_applied(
                Loaded { bindings: old(self).bindings@, warnings: search::texts(old(warnings)@) },
                entry.name@,
                entry.chord@,
            ),
    {
        let ghost said = search::texts(warnings@);
        let action = match Action::from_name(entry.name.as_str()) {
            Some(action) => action,
            None => {
                let text = concat3(
                    "keys.toml: unknown action '",
                    entry.name.as_str(),
                    "', ignoring",
                );
                let ghost line = text@;
                warnings.push(text);
                proof {
                    assert(search::texts(warnings@) =~= said.push(line));
                }
                return ;
            },
        };
        match parse_chord(entry.chord.as_str()) {
            Ok(chord) => self.rebind(action, chord, entry.chord.as_str(), warnings),
            Err(reason) => {
                let mut text = concat5(
                    "keys.toml: invalid key for '",
                    entry.name.as_str(),
                    "' ('",
                    entry.chord.as_str(),
                    "'): ",
                );
                text.append(reason.as_str());
                text.append("; keeping default");
                let ghost line = text@;
                warnings.push(text);
                proof {
                    assert(search::texts(warnings@) =~= said.push(line));
                }
            },
        }
    }

    /// The default key map with the entries of a file, taken in the order of their names, or what
    /// is wrong with the file.
    pub fn with_entries(entries: Result<Option<Vec<KeyEntry>>, String>, path: &str) -> (loaded: (
        KeyMap,
        Vec<String>,
    ))
        ensures
            loaded.0.wf(),
            match entries {
                Ok(entries) => (Loaded {
                    bindings: loaded.0.bindings@,
                    warnings: search::texts(loaded.1@),
                }) == entries_applied(
                    match entries {
                        Some(entries) => sorting::sorted(entries@),
                        None => Seq::empty(),
                    },
                ),
                Err(error) => loaded.0.bindings@ == default_list() && search::texts(loaded.1@)
                    == seq![
                    "keys.toml: could not parse "@ + path@ + " ("@ + error@
                        + "); using defaults"@,
                ],
            },
    {
        let mut keymap = KeyMap::default();
        let mut warnings: Vec<String> = Vec::new();
        let entries = match entries {
            Ok(Some(entries)) => entries,
            Ok(None) => {
                proof {
                    assert(search::texts(warnings@) =~= Seq::empty());
                }
                return (keymap, warnings);
            },
            Err(error) => {
                warnings.push(
                    concat5(
                        "keys.toml: could not parse ",
                        path,
                        " (",
                        error.as_str(),
                        "); using defaults",
                    ),
                );
                proof {
                    assert(search::texts(warnings@) =~= seq![
                        "keys.toml: could not parse "@ + path@ + " ("@ + error@
                            + "); using defaults"@,
                    ]);
                }
                return (keymap, warnings);
            },
        };
        let sorted = sort(entries);
        let mut index: usize = 0;
        proof {
            assert(sorted@.take(0) =~= Seq::empty());
            assert(search::texts(warnings@) =~= Seq::empty());
        }
        while index < sorted.len()
            invariant
                index <= sorted@.len(),
                keymap.wf(),
                (Loaded { bindings: keymap.bindings@, warnings: search::texts(warnings@) })
                    == entries_applied(sorted@.take(index as int)),
            decreases sorted@.len() - index,
        {
            proof {
                assert(sorted@.take(index + 1).drop_last() =~= sorted@.take(index as int));
            }
            keymap.apply_entry(&sorted[index], &mut warnings);
            index += 1;
        }
        proof {
            assert(sorted@.take(index as int) =~= sorted@);
        }
        (keymap, warnings)
    }

    /// Reads the key map out of a file. A file that is missing changes nothing, silently; one that
    /// cannot be read, and each entry that cannot be used, changes nothing either, and that is
    /// said.
    pub fn load(path: &str, content: &Option<String>) -> (loaded: (KeyMap, Vec<String>))
        ensures
            loaded.0.wf(),
            match *content {
                None => loaded.0.bindings@ == default_list() && loaded.1@.len() == 0,
                Some(text) => match toml_strings(text@, "keys"@) {
                    Ok(entries) => exists|list: Seq<KeyEntry>| #[trigger]
                        entry_texts(list) == entries_or_none(entries) && (Loaded {
                            bindings: loaded.0.bindings@,
                            warnings: search::texts(loaded.1@),
                        }) == entries_applied(sorting::sorted(list)),
                    Err(error) => loaded.0.bindings@ == default_list() && search::texts(loaded.1@)
                        == seq![
                        "keys.toml: could not parse "@ + path@ + " ("@ + error
                            + "); using defaults"@,
                    ],
                },
            },
    {
        match content {
            None => (KeyMap::default(), Vec::new()),
            Some(text) => {
                let entries = read_table(text.as_str(), "keys");
                proof {
                    let none: Seq<KeyEntry> = Seq::empty();
                    assert(entry_texts(none) =~= Seq::empty());
                    assert(sorting::sorted(none) =~= Seq::empty());
                }
                KeyMap::with_entries(entries, path)
            },
        }
    }

    /// The file that shows the default bindings.
    pub fn default_toml() -> (text: String)
        ensures
            text@ == "[keys]\n"@ + binding_lines(default_list()),
    {
        let bindings = default_bindings();
        let mut rows: String = String::new();
        let mut index: usize = 0;
        proof {
            assert(bindings@.take(0) =~= Seq::empty());
        }
        while index < bindings.len()
            invariant
                index <= bindings@.len(),
                bindings@ == default_list(),
                rows@ == binding_lines(bindings@.take(index as int)),
            decreases bindings@.len() - index,
        {
            let binding = bindings[index];
            proof {
                assert(bindings@.take(index + 1).drop_last() =~= bindings@.take(index as int));
            }
            let chord = chord_to_string(binding.chord);
            let mut row = concat3(binding.action.name(), " = \"", chord.as_str());
            row.append("\"\n");
            rows.append(row.as_str());
            index += 1;
        }
        proof {
            assert(bindings@.take(index as int) =~= bindings@);
        }
        concat2("[keys]\n", rows.as_str())
    }
}

/// Whatever the file says, the key map is unambiguous.
pub proof fn files_keep_the_map_unambiguous(entries: Seq<KeyEntry>)
    ensures
        unambiguous(entries_applied(entries).bindings),
{
    entries_keep_apart(entries);
}

} // verus!
