//! The messages with which a build is abandoned.

use vstd::prelude::*;
use crate::definitions::{Failure, PropagationError};
use crate::groups::{ConfigError, GroupId};
use crate::pipeline::BuildError;
use crate::staging::StageError;

verus! {

/// The name of a group in messages.
pub open spec fn group_text(id: GroupId) -> Seq<char> {
    match id {
        GroupId::Base => "base"@,
        GroupId::Heavy => "heavy"@,
        GroupId::AsyncIo => "async-io"@,
        GroupId::Http => "http"@,
        GroupId::Tls => "tls"@,
        GroupId::Compression => "compression"@,
        GroupId::SchemaCompiler => "schema-compiler"@,
    }
}

/// The name of a group in messages.
pub fn group_name(id: GroupId) -> (name: &'static str)
    ensures
        name@ == group_text(id),
{
    match id {
        GroupId::Base => "base",
        GroupId::Heavy => "heavy",
        GroupId::AsyncIo => "async-io",
        GroupId::Http => "http",
        GroupId::Tls => "tls",
        GroupId::Compression => "compression",
        GroupId::SchemaCompiler => "schema-compiler",
    }
}

/// A value in messages: its text between quotes, or a word for none.
pub open spec fn value_shown(value: Option<Seq<char>>) -> Seq<char> {
    match value {
        Some(v) => "\""@ + v + "\""@,
        None => "nothing"@,
    }
}

/// What a message says of a failed propagation: the unit that has not
/// published, or the key with the value expected and the value met.
pub open spec fn failure_text(failure: Failure) -> Seq<char> {
    match failure {
        Failure::MissingPublication { unit } => "no definitions published by unit "@ + unit,
        Failure::Conflict { key, expected, actual } => "definition "@ + key + " conflicts: expected "@
            + value_shown(expected) + ", found "@ + value_shown(actual),
    }
}

/// What a message says of a refused selection: the group and what it needs.
pub open spec fn config_text(group: GroupId, needs: GroupId) -> Seq<char> {
    "group "@ + group_text(group) + " is enabled without group "@ + group_text(needs)
}

/// What a message says of a refused path.
pub open spec fn stage_text(path: Seq<char>) -> Seq<char> {
    "path \""@ + path + "\" does not stay below the staging root"@
}

/// A value in messages.
pub fn show_value(value: &Option<String>) -> (text: String)
    ensures
        text@ == value_shown(crate::definitions::value_text(*value)),
{
    match value {
        Some(v) => {
            let mut text = "\"".to_owned();
            text.append(v.as_str());
            text.append("\"");
            text
        },
        None => "nothing".to_owned(),
    }
}

impl PropagationError {
    /// The message of this error: it names the unit that has not published,
    /// or the key and both values of a conflict.
    pub fn message(&self) -> (text: String)
        ensures
            text@ == failure_text(self@),
    {
        match self {
            PropagationError::MissingPublication { unit } => {
                "no definitions published by unit ".to_owned().concat(unit.as_str())
            },
            PropagationError::Conflict { key, expected, actual } => {
                let mut text = "definition ".to_owned();
                text.append(key.as_str());
                text.append(" conflicts: expected ");
                text.append(show_value(expected).as_str());
                text.append(", found ");
                text.append(show_value(actual).as_str());
                text
            },
        }
    }
}

impl ConfigError {
    /// The message of this error: it names the group and the group it lacks.
    pub fn message(&self) -> (text: String)
        ensures
            *self matches ConfigError::MissingPrerequisite { group, needs } && text@ == config_text(
                group,
                needs,
            ),
    {
        match self {
            ConfigError::MissingPrerequisite { group, needs } => {
                let mut text = "group ".to_owned();
                text.append(group_name(*group));
                text.append(" is enabled without group ");
                text.append(group_name(*needs));
                text
            },
        }
    }
}

impl StageError {
    /// The message of this error: it names the path.
    pub fn message(&self) -> (text: String)
        ensures
            *self matches StageError::Unconfined { path } && text@ == stage_text(path@),
    {
        match self {
            StageError::Unconfined { path } => {
                let mut text = "path \"".to_owned();
                text.append(path.as_str());
                text.append("\" does not stay below the staging root");
                text
            },
        }
    }
}

/// What a message says of an abandoned build, after the unit's name.
pub open spec fn error_text(error: BuildError) -> Seq<char> {
    match error {
        BuildError::Propagation(e) => failure_text(e@),
        BuildError::Config(ConfigError::MissingPrerequisite { group, needs }) => config_text(
            group,
            needs,
        ),
        BuildError::Stage(StageError::Unconfined { path }) => stage_text(path@),
    }
}

impl BuildError {
    /// The message with which the build of `unit` is abandoned: the unit,
    /// then what went wrong, with the key, group or path concerned.
    pub fn message(&self, unit: &String) -> (text: String)
        ensures
            text@ == "unit "@ + unit@ + ": "@ + error_text(*self),
    {
        let mut text = "unit ".to_owned();
        text.append(unit.as_str());
        text.append(": ");
        let detail = match self {
            BuildError::Propagation(e) => e.message(),
            BuildError::Config(e) => e.message(),
            BuildError::Stage(e) => e.message(),
        };
        text.append(detail.as_str());
        text
    }
}

} // verus!
