//! The configuration of the controller: the stored positions and the
//! connection policy, with the rules for changing them.

use crate::command::{check_position_name, is_reserved, ValidationError};
use crate::positions::{entries_with, entries_without, Entry, PositionRecord, Positions};
use crate::text::{decimal, join, joined, string_views, to_decimal};
use std::path::PathBuf;
use vstd::prelude::*;
use vstd::string::*;

verus! {

/// Number of connection attempts where the configuration names none.
pub const DEFAULT_CONNECTION_ATTEMPTS: u64 = 5;

/// `std::path::PathBuf`, carried through as the place of the configuration
/// file. Nothing is known of what it holds.
#[verifier::external_type_specification]
#[verifier::external_body]
pub struct ExPathBuf(PathBuf);

/// The number of connection attempts that a configured value stands for: the
/// value itself, but at least one, and the default where none is configured.
pub open spec fn effective_attempts(configured: Option<u64>) -> u64 {
    match configured {
        Some(attempts) => if attempts == 0 {
            1
        } else {
            attempts
        },
        None => DEFAULT_CONNECTION_ATTEMPTS,
    }
}

/// The line that shows one stored position.
pub open spec fn entry_line(entry: Entry) -> Seq<char> {
    "  "@ + entry.0 + ": "@ + decimal(entry.1 as nat)
}

/// The stored positions and the connection policy.
#[derive(Debug)]
pub struct ConfigData {
    pub positions: Positions,
    pub connection_attempts: Option<u64>,
}

impl ConfigData {
    /// Whether this is the configuration used where none is stored: no
    /// positions, and the default number of connection attempts.
    pub open spec fn is_default(&self) -> bool {
        &&& self.positions.entries() == Seq::<Entry>::empty()
        &&& self.positions@ == Map::<Seq<char>, u16>::empty()
        &&& self.connection_attempts == Some(DEFAULT_CONNECTION_ATTEMPTS)
    }

    /// Whether no stored position is named like a built-in verb.
    pub open spec fn names_unreserved(&self) -> bool {
        forall|name: Seq<char>| self.positions@.contains_key(name) ==> !is_reserved(name)
    }

    /// The text that shows the configuration.
    pub open spec fn text(&self) -> Seq<char> {
        "connection_attempts: "@ + decimal(effective_attempts(self.connection_attempts) as nat)
            + "\npositions:\n"@ + joined(
            self.positions.entries().map_values(|entry: Entry| entry_line(entry)),
            "\n"@,
        ) + "\n"@
    }

    /// The line that shows one stored position.
    fn line(record: &PositionRecord) -> (line: String)
        ensures
            line@ == entry_line(record.entry()),
    {
        let mut line = String::from_str("  ");
        line.append(record.name.as_str());
        line.append(": ");
        let height = to_decimal(record.height as u64);
        line.append(height.as_str());
        line
    }

    /// Shows the configuration: the number of connection attempts, then one
    /// line for each stored position.
    pub fn to_text(&self) -> (text: String)
        ensures
            text@ == self.text(),
    {
        let records = self.positions.records();
        let mut lines: Vec<String> = Vec::new();
        let mut i: usize = 0;
        while i < records.len()
            invariant
                i <= records.len(),
                lines.len() == i,
                forall|k: int| 0 <= k < i ==> (#[trigger] lines[k])@ == entry_line(records[k].entry()),
            decreases records.len() - i,
        {
            lines.push(Self::line(&records[i]));
            i += 1;
        }
        assert(string_views(lines@) =~= self.positions.entries().map_values(
            |entry: Entry| entry_line(entry),
        ));
        let attempts = to_decimal(effective(self.connection_attempts));
        let body = join(&lines, "\n");
        let mut text = String::from_str("connection_attempts: ");
        text.append(attempts.as_str());
        text.append("\npositions:\n");
        text.append(body.as_str());
        text.append("\n");
        text
    }
}

impl Default for ConfigData {
    /// The configuration used where none is stored.
    fn default() -> (data: ConfigData)
        ensures
            data.is_default(),
            data.names_unreserved(),
    {
        ConfigData {
            positions: Positions::new(),
            connection_attempts: Some(DEFAULT_CONNECTION_ATTEMPTS),
        }
    }
}

/// The number of connection attempts that a configured value stands for.
fn effective(configured: Option<u64>) -> (attempts: u64)
    ensures
        attempts == effective_attempts(configured),
        attempts >= 1,
{
    match configured {
        Some(attempts) => if attempts == 0 {
            1
        } else {
            attempts
        },
        None => DEFAULT_CONNECTION_ATTEMPTS,
    }
}

/// What was found where the configuration is kept.
#[derive(Debug)]
pub enum Stored {
    /// There is no configuration file.
    Missing,
    /// There is a file, and it does not hold a configuration.
    Malformed,
    /// The configuration that the file holds.
    Decoded(ConfigData),
}

/// How a request to drop a position ended.
#[derive(Clone, Copy, Debug, PartialEq, Eq)]
pub enum DeleteOutcome {
    /// The position was stored and is gone now. The configuration has
    /// changed and is to be written back.
    Removed,
    /// No position of that name was stored. Nothing has changed.
    NotFound,
}

/// The configuration together with the place it is kept at.
#[derive(Debug)]
pub struct Config {
    pub data: ConfigData,
    pub path: PathBuf,
}

impl Config {
    /// The configuration to work with, given what was found at `path`: what
    /// the file holds, or the default where the file is missing or does not
    /// hold a configuration.
    pub fn new(path: PathBuf, stored: Stored) -> (config: Config)
        ensures
            config.path == path,
            match stored {
                Stored::Decoded(data) => config.data == data,
                Stored::Missing | Stored::Malformed => config.data.is_default(),
            },
    {
        let data = match stored {
            Stored::Decoded(data) => data,
            Stored::Missing => ConfigData::default(),
            Stored::Malformed => ConfigData::default(),
        };
        Config { data, path }
    }

    /// The number of connection attempts to make: at least one.
    pub fn get_connection_attempts(&self) -> (attempts: u64)
        ensures
            attempts == effective_attempts(self.data.connection_attempts),
            attempts >= 1,
    {
        effective(self.data.connection_attempts)
    }

    /// The height stored under `name`.
    pub fn position(&self, name: &str) -> (height: Option<u16>)
        ensures
            height == (if self.data.positions@.contains_key(name@) {
                Some(self.data.positions@[name@])
            } else {
                None
            }),
    {
        self.data.positions.get(name)
    }

    /// Stores `height` under `name`, unless `name` is a built-in verb. On
    /// success the configuration has changed and is to be written back.
    pub fn set_position(&mut self, name: &str, height: u16) -> (stored: Result<(), ValidationError>)
        ensures
            is_reserved(name@) ==> {
                &&& stored == Err::<(), ValidationError>(ValidationError::ReservedName)
                &&& *final(self) == *old(self)
            },
            !is_reserved(name@) ==> {
                &&& stored == Ok::<(), ValidationError>(())
                &&& final(self).data.positions@ == old(self).data.positions@.insert(name@, height)
                &&& final(self).data.positions.entries() == entries_with(
                    old(self).data.positions.entries(),
                    name@,
                    height,
                )
                &&& final(self).data.connection_attempts == old(self).data.connection_attempts
                &&& final(self).path == old(self).path
            },
            old(self).data.names_unreserved() ==> final(self).data.names_unreserved(),
    {
        match check_position_name(name) {
            Err(error) => Err(error),
            Ok(()) => {
                self.data.positions.insert(name.to_owned(), height);
                Ok(())
            },
        }
    }

    /// Drops the position stored under `name`, if there is one. Where one
    /// was dropped the configuration has changed and is to be written back.
    pub fn delete_position(&mut self, name: &str) -> (outcome: DeleteOutcome)
        ensures
            old(self).data.positions@.contains_key(name@) ==> {
                &&& outcome == DeleteOutcome::Removed
                &&& final(self).data.positions@ == old(self).data.positions@.remove(name@)
                &&& final(self).data.positions.entries() == entries_without(
                    old(self).data.positions.entries(),
                    name@,
                )
                &&& final(self).data.connection_attempts == old(self).data.connection_attempts
                &&& final(self).path == old(self).path
            },
            !old(self).data.positions@.contains_key(name@) ==> {
                &&& outcome == DeleteOutcome::NotFound
                &&& *final(self) == *old(self)
            },
            old(self).data.names_unreserved() ==> final(self).data.names_unreserved(),
    {
        match self.data.positions.remove(name) {
            Some(_) => DeleteOutcome::Removed,
            None => DeleteOutcome::NotFound,
        }
    }
}

} // verus!
