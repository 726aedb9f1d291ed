//! Issue reports: four optional text fields, and records that pair them
//! with an id.

use vstd::prelude::*;

verus! {

/// The mathematical content of an optional text field.
pub open spec fn text_view(text: Option<String>) -> Option<Seq<char>> {
    match text {
        Some(s) => Some(s@),
        None => None,
    }
}

/// The mathematical content of an optional string slice.
pub open spec fn slice_view(text: Option<&str>) -> Option<Seq<char>> {
    match text {
        Some(s) => Some(s@),
        None => None,
    }
}

/// The number of characters of an optional text; an absent text has none.
pub open spec fn char_count(text: Option<Seq<char>>) -> nat {
    match text {
        Some(s) => s.len(),
        None => 0,
    }
}

/// Copies an optional text field.
pub fn clone_text(text: &Option<String>) -> (copy: Option<String>)
    ensures
        copy == *text,
{
    match text {
        Some(s) => Some(s.clone()),
        None => None,
    }
}

/// Borrows an optional text field as a string slice.
pub fn text_as_str(text: &Option<String>) -> (slice: Option<&str>)
    ensures
        slice_view(slice) == text_view(*text),
{
    match text {
        Some(s) => Some(s.as_str()),
        None => None,
    }
}

/// Whether an optional text field holds at least one character.
pub fn holds_text(text: &Option<String>) -> (holds: bool)
    ensures
        holds == (char_count(text_view(*text)) > 0),
{
    match text {
        Some(s) => !s.as_str().is_empty(),
        None => false,
    }
}

/// The features of an issue report. An absent field was not reported.
#[derive(Debug, PartialEq, Eq)]
pub struct IssueFeatures {
    pub operation: Option<String>,
    pub phenomenon: Option<String>,
    pub expected_behavior: Option<String>,
    pub actual_behavior: Option<String>,
}

/// What an `IssueFeatures` value holds, as character sequences.
pub struct IssueFeaturesView {
    pub operation: Option<Seq<char>>,
    pub phenomenon: Option<Seq<char>>,
    pub expected_behavior: Option<Seq<char>>,
    pub actual_behavior: Option<Seq<char>>,
}

impl IssueFeaturesView {
    /// Whether at least one field was reported, be it with an empty text.
    pub open spec fn has_any(self) -> bool {
        self.operation is Some || self.phenomenon is Some || self.expected_behavior is Some
            || self.actual_behavior is Some
    }

    /// The number of characters in all fields together. It is above zero
    /// exactly when some field holds a text that is not empty.
    pub open spec fn char_mass(self) -> nat {
        char_count(self.operation) + char_count(self.phenomenon) + char_count(
            self.expected_behavior,
        ) + char_count(self.actual_behavior)
    }
}

impl View for IssueFeatures {
    type V = IssueFeaturesView;

    open spec fn view(&self) -> IssueFeaturesView {
        IssueFeaturesView {
            operation: text_view(self.operation),
            phenomenon: text_view(self.phenomenon),
            expected_behavior: text_view(self.expected_behavior),
            actual_behavior: text_view(self.actual_behavior),
        }
    }
}

impl Clone for IssueFeatures {
    fn clone(&self) -> (copy: Self)
        ensures
            copy == *self,
    {
        IssueFeatures {
            operation: clone_text(&self.operation),
            phenomenon: clone_text(&self.phenomenon),
            expected_behavior: clone_text(&self.expected_behavior),
            actual_behavior: clone_text(&self.actual_behavior),
        }
    }
}

impl IssueFeatures {
    /// Whether at least one field was reported, be it with an empty text.
    pub fn has_any(&self) -> (any: bool)
        ensures
            any == self@.has_any(),
    {
        self.operation.is_some() || self.phenomenon.is_some() || self.expected_behavior.is_some()
            || self.actual_behavior.is_some()
    }

    /// Whether at least one field holds a text that is not empty.
    pub fn has_text(&self) -> (any: bool)
        ensures
            any == (self@.char_mass() > 0),
    {
        holds_text(&self.operation) || holds_text(&self.phenomenon) || holds_text(
            &self.expected_behavior,
        ) || holds_text(&self.actual_behavior)
    }
}

/// The features of an issue together with the issue's id.
#[derive(Debug, PartialEq, Eq)]
pub struct IssueFeaturesRecord {
    pub issue_id: String,
    pub features: IssueFeatures,
}

impl Clone for IssueFeaturesRecord {
    fn clone(&self) -> (copy: Self)
        ensures
            copy == *self,
    {
        IssueFeaturesRecord { issue_id: self.issue_id.clone(), features: self.features.clone() }
    }
}

impl IssueFeaturesRecord {
    /// Whether a keyed store keeps the record when it is loaded: its id is
    /// not empty and at least one field was reported, be it with an empty
    /// text. Every record that a store holds is such a record.
    pub open spec fn is_loadable(self) -> bool {
        self.issue_id@.len() > 0 && self.features@.has_any()
    }

    /// Whether a keyed store takes the record when it is added: its id is
    /// not empty and at least one field holds a text that is not empty.
    pub open spec fn is_addable(self) -> bool {
        self.issue_id@.len() > 0 && self.features@.char_mass() > 0
    }
}

/// What a store takes when it is added, it also keeps when it is loaded.
pub proof fn lemma_addable_is_loadable(record: IssueFeaturesRecord)
    requires
        record.is_addable(),
    ensures
        record.is_loadable(),
{
}

} // verus!
