//! The error that the edge operations report.

use vstd::prelude::*;
use vstd::string::StringExecFns;

verus! {

/// Detail carried by the error of `add_edge` when the source node is missing.
pub const ADD_EDGE_MISSING_NODE: &'static str = "To add edge, both node must exists in the Cluster.";

/// Detail carried by the error of `remove_edge` when the source node is missing.
pub const REMOVE_EDGE_MISSING_NODE: &'static str = "<src> node does not exists.";

/// What the report of an error begins with.
pub const REPORT_PREFIX: &'static str = "Cluster Error : ";

/// What stands before the source of an error that has one.
pub const SOURCE_PREFIX: &'static str = "Caused by ";

/// What stands for the source of an error that has none.
pub const UNKNOWN_SOURCE: &'static str = "Unknown source.";

/// The text that describes where an error comes from, without the line end.
pub open spec fn source_text(source: Option<Seq<char>>) -> Seq<char> {
    match source {
        Some(s) => SOURCE_PREFIX@ + s,
        None => UNKNOWN_SOURCE@,
    }
}

/// A failed operation on a cluster, with a free-form detail.
#[derive(Debug)]
pub struct ClusterError {
    detail: String,
}

impl View for ClusterError {
    type V = Seq<char>;

    /// The detail of the error, as a sequence of characters.
    closed spec fn view(&self) -> Seq<char> {
        self.detail@
    }
}

impl ClusterError {
    /// A boxed error with no detail.
    pub fn new_boxed() -> (e: Box<ClusterError>)
        ensures
            e@ == Seq::<char>::empty(),
    {
        Box::new(ClusterError::new())
    }

    /// A boxed error with the given detail.
    pub fn detailled_boxed(detail: &str) -> (e: Box<ClusterError>)
        ensures
            e@ == detail@,
    {
        Box::new(ClusterError::detailled(detail))
    }

    /// An error with no detail.
    pub fn new() -> (e: ClusterError)
        ensures
            e@ == Seq::<char>::empty(),
    {
        proof {
            reveal_strlit("");
            assert(""@ =~= Seq::<char>::empty());
        }
        ClusterError { detail: String::from_str("") }
    }

    /// An error with the given detail.
    pub fn detailled(message: &str) -> (e: ClusterError)
        ensures
            e@ == message@,
    {
        ClusterError { detail: String::from_str(message) }
    }

    /// The line that reports the error: the prefix and the detail.
    pub fn report(&self) -> (line: String)
        ensures
            line@ == REPORT_PREFIX@ + self@,
    {
        let mut line = String::from_str(REPORT_PREFIX);
        line.append(self.detail.as_str());
        line
    }

    /// The line that says where an error comes from, given the description
    /// of its source, if it has one.
    pub fn source_line(source: Option<&str>) -> (line: String)
        ensures
            line@ == source_text(
                match source {
                    Some(s) => Some(s@),
                    None => None,
                },
            ),
    {
        match source {
            Some(s) => {
                let mut line = String::from_str(SOURCE_PREFIX);
                line.append(s);
                line
            },
            None => String::from_str(UNKNOWN_SOURCE),
        }
    }

    /// The error as text. An error of this type has no source, so the text
    /// is the line that says so, with its line end.
    pub fn to_text(&self) -> (text: String)
        ensures
            text@ == UNKNOWN_SOURCE@.push('\n'),
    {
        let mut text = ClusterError::source_line(None);
        proof {
            reveal_strlit("\n");
            assert("\n"@ =~= seq!['\n']);
        }
        text.append("\n");
        text
    }

    /// A copy of the detail.
    pub fn message(&self) -> (s: String)
        ensures
            s@ == self@,
    {
        self.detail.clone()
    }
}

impl Default for ClusterError {
    fn default() -> (e: Self)
        ensures
            e@ == Seq::<char>::empty(),
    {
        Self::new()
    }
}

} // verus!
