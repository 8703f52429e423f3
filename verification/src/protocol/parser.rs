//! The capability that every protocol parser offers.

use crate::error::ParseError;
use crate::types::SequenceInfo;
use vstd::prelude::*;

verus! {

/// A protocol whose frames carry a flow identity and a sequence number.
pub trait SequenceParser {
    /// Whether a frame has this protocol's framing.
    spec fn accepts(&self, data: Seq<u8>) -> bool;

    /// What parsing a frame yields: the extracted fields, nothing for a
    /// frame of another protocol, or an error for a frame that has the
    /// framing but is inconsistent with its own length.
    spec fn parsed(&self, data: Seq<u8>) -> Result<Option<SequenceInfo>, ParseError>;

    /// Extracts flow identity, sequence number and payload length.
    fn parse_sequence(&self, data: &[u8]) -> (r: Result<Option<SequenceInfo>, ParseError>)
        ensures
            r == self.parsed(data@),
    ;

    /// Quick check whether a frame is of this protocol.
    fn matches(&self, data: &[u8]) -> (b: bool)
        ensures
            b == self.accepts(data@),
    ;

    /// The protocol's name.
    spec fn name(&self) -> Seq<char>;

    /// The protocol's name for reports.
    fn protocol_name(&self) -> (name: &str)
        ensures
            name@ == self.name(),
    ;
}

} // verus!
