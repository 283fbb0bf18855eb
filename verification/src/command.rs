//! Resolving what the user asked for: a built-in verb, or the name of a
//! stored position.

use crate::positions::{
    distinct_names, entries_map, has_name, index_of, lemma_entry_is_mapped,
    lemma_last_name_is_new, lemma_push_inserts, record_entries, Entry, Positions,
};
use crate::text::{str_eq, string_views};
use vstd::prelude::*;

verus! {

/// Why a request cannot be carried out as given.
#[derive(Clone, Copy, Debug, PartialEq, Eq)]
pub enum ValidationError {
    /// The name is one of the built-in verbs and cannot name a position.
    ReservedName,
    /// The verb needs a position name and none was given.
    MissingArgument,
}

/// What a verb asks for.
#[derive(Debug, PartialEq, Eq)]
pub enum Command {
    /// Move the desk to the stored position of this name.
    MoveToSaved(String),
    /// Store the current height under this name.
    SavePosition(String),
    /// Drop the stored position of this name.
    DeletePosition(String),
    /// Show the desk's height and address.
    ShowInfo,
    /// Show where the configuration lives and what it holds.
    ShowConfig,
    /// The verb is neither built in nor the name of a stored position.
    Unrecognized,
}

/// A [`Command`] as a specification value.
pub enum CommandView {
    MoveToSaved(Seq<char>),
    SavePosition(Seq<char>),
    DeletePosition(Seq<char>),
    ShowInfo,
    ShowConfig,
    Unrecognized,
}

impl View for Command {
    type V = CommandView;

    open spec fn view(&self) -> CommandView {
        match self {
            Command::MoveToSaved(name) => CommandView::MoveToSaved(name@),
            Command::SavePosition(name) => CommandView::SavePosition(name@),
            Command::DeletePosition(name) => CommandView::DeletePosition(name@),
            Command::ShowInfo => CommandView::ShowInfo,
            Command::ShowConfig => CommandView::ShowConfig,
            Command::Unrecognized => CommandView::Unrecognized,
        }
    }
}

/// Whether `name` is a built-in verb. No position can be stored under one.
pub open spec fn is_reserved(name: Seq<char>) -> bool {
    name == "save"@ || name == "delete"@ || name == "info"@ || name == "config"@
}

/// Whether `name` is a built-in verb.
pub fn is_reserved_name(name: &str) -> (reserved: bool)
    ensures
        reserved == is_reserved(name@),
{
    str_eq(name, "save") || str_eq(name, "delete") || str_eq(name, "info") || str_eq(
        name,
        "config",
    )
}

/// Refuses a position name that is a built-in verb.
pub fn check_position_name(name: &str) -> (checked: Result<(), ValidationError>)
    ensures
        checked == (if is_reserved(name@) {
            Err::<(), ValidationError>(ValidationError::ReservedName)
        } else {
            Ok::<(), ValidationError>(())
        }),
{
    if is_reserved_name(name) {
        Err(ValidationError::ReservedName)
    } else {
        Ok(())
    }
}

/// The position name that a verb was given, where it was given a non-empty one.
pub open spec fn required_name(name: Option<Seq<char>>) -> Result<Seq<char>, ValidationError> {
    match name {
        Some(given) => if given.len() > 0 {
            Ok(given)
        } else {
            Err(ValidationError::MissingArgument)
        },
        None => Err(ValidationError::MissingArgument),
    }
}

/// What `verb` asks for, given the optional name argument and the stored
/// positions. Built-in verbs come first; any other verb moves to the stored
/// position of that name, if there is one.
pub open spec fn resolution(
    verb: Seq<char>,
    name: Option<Seq<char>>,
    stored: Map<Seq<char>, u16>,
) -> Result<CommandView, ValidationError> {
    if verb == "save"@ {
        match required_name(name) {
            Ok(given) => Ok(CommandView::SavePosition(given)),
            Err(error) => Err(error),
        }
    } else if verb == "delete"@ {
        match required_name(name) {
            Ok(given) => Ok(CommandView::DeletePosition(given)),
            Err(error) => Err(error),
        }
    } else if verb == "info"@ {
        Ok(CommandView::ShowInfo)
    } else if verb == "config"@ {
        Ok(CommandView::ShowConfig)
    } else if stored.contains_key(verb) {
        Ok(CommandView::MoveToSaved(verb))
    } else {
        Ok(CommandView::Unrecognized)
    }
}

/// An optional string slice as a specification value.
pub open spec fn name_view(name: Option<&str>) -> Option<Seq<char>> {
    match name {
        Some(given) => Some(given@),
        None => None,
    }
}

/// The name argument of a verb that needs one.
pub fn get_name_from_args(name: Option<&str>) -> (given: Result<String, ValidationError>)
    ensures
        match given {
            Ok(text) => required_name(name_view(name)) == Ok::<Seq<char>, ValidationError>(text@),
            Err(error) => required_name(name_view(name)) == Err::<Seq<char>, ValidationError>(
                error,
            ),
        },
{
    match name {
        Some(given) => if given.is_empty() {
            Err(ValidationError::MissingArgument)
        } else {
            Ok(given.to_owned())
        },
        None => Err(ValidationError::MissingArgument),
    }
}

/// Resolves a verb and its optional name argument against the stored positions.
pub fn resolve(verb: &str, name: Option<&str>, positions: &Positions) -> (resolved: Result<
    Command,
    ValidationError,
>)
    ensures
        match resolved {
            Ok(command) => resolution(verb@, name_view(name), positions@) == Ok::<
                CommandView,
                ValidationError,
            >(command@),
            Err(error) => resolution(verb@, name_view(name), positions@) == Err::<
                CommandView,
                ValidationError,
            >(error),
        },
{
    if str_eq(verb, "save") {
        match get_name_from_args(name) {
            Ok(given) => Ok(Command::SavePosition(given)),
            Err(error) => Err(error),
        }
    } else if str_eq(verb, "delete") {
        match get_name_from_args(name) {
            Ok(given) => Ok(Command::DeletePosition(given)),
            Err(error) => Err(error),
        }
    } else if str_eq(verb, "info") {
        Ok(Command::ShowInfo)
    } else if str_eq(verb, "config") {
        Ok(Command::ShowConfig)
    } else if positions.contains(verb) {
        Ok(Command::MoveToSaved(verb.to_owned()))
    } else {
        Ok(Command::Unrecognized)
    }
}

/// The names among the entries that are not built-in verbs, in order.
pub open spec fn move_names(entries: Seq<Entry>) -> Seq<Seq<char>>
    decreases entries.len(),
{
    if entries.len() == 0 {
        Seq::empty()
    } else if is_reserved(entries.last().0) {
        move_names(entries.drop_last())
    } else {
        move_names(entries.drop_last()).push(entries.last().0)
    }
}

/// The verbs that move the desk: the names of the stored positions, in
/// stored order, but for those that a built-in verb hides.
pub fn move_verbs(positions: &Positions) -> (verbs: Vec<String>)
    ensures
        string_views(verbs@) == move_names(positions.entries()),
{
    let records = positions.records();
    let ghost entries = positions.entries();
    let mut verbs: Vec<String> = Vec::new();
    let mut i: usize = 0;
    assert(entries.take(0) =~= Seq::<Entry>::empty());
    while i < records.len()
        invariant
            i <= records.len(),
            entries == record_entries(records@),
            string_views(verbs@) == move_names(entries.take(i as int)),
        decreases records.len() - i,
    {
        proof {
            assert(entries.take(i + 1).drop_last() =~= entries.take(i as int));
            assert(entries.take(i + 1).last() == records[i as int].entry());
        }
        if !is_reserved_name(records[i].name.as_str()) {
            let ghost before = verbs@;
            let name = records[i].name.clone();
            verbs.push(name);
            assert(string_views(verbs@) =~= string_views(before).push(name@));
        }
        i += 1;
    }
    assert(entries.take(i as int) =~= entries);
    verbs
}

/// The verbs that move the desk are exactly the verbs that resolve to a
/// move: a verb is the name of a stored position and no built-in verb if and
/// only if it resolves to the move to that position.
pub proof fn law_move_verbs_resolve_to_moves(
    entries: Seq<Entry>,
    verb: Seq<char>,
    name: Option<Seq<char>>,
)
    requires
        distinct_names(entries),
    ensures
        move_names(entries).contains(verb) <==> resolution(verb, name, entries_map(entries))
            == Ok::<CommandView, ValidationError>(CommandView::MoveToSaved(verb)),
        move_names(entries).contains(verb) <==> has_name(entries, verb) && !is_reserved(verb),
    decreases entries.len(),
{
    if entries.len() == 0 {
        assert(!has_name(entries, verb));
    } else {
        let front = entries.drop_last();
        let last = entries.last();
        lemma_last_name_is_new(entries);
        law_move_verbs_resolve_to_moves(front, verb, name);
        lemma_push_inserts(front, last.0, last.1);
        assert(front.push(last) =~= entries);
        assert(has_name(entries, verb) <==> has_name(front, verb) || verb == last.0) by {
            if has_name(front, verb) {
                let i = index_of(front, verb);
                assert(entries[i].0 == verb);
            }
            if has_name(entries, verb) && verb != last.0 {
                let i = index_of(entries, verb);
                assert(front[i].0 == verb);
            }
            if verb == last.0 {
                lemma_entry_is_mapped(entries, entries.len() - 1);
            }
        }
        let names = move_names(front);
        if !is_reserved(last.0) {
            assert(names.push(last.0).contains(verb) <==> names.contains(verb) || verb == last.0)
                by {
                if names.contains(verb) {
                    let i = choose|i: int| 0 <= i < names.len() && names[i] == verb;
                    assert(names.push(last.0)[i] == verb);
                }
                if verb == last.0 {
                    assert(names.push(last.0)[names.len() as int] == verb);
                }
            }
        }
    }
}

} // verus!
