//! The selection buffer that the clipboard reader is asked for.

use vstd::prelude::*;
use vstd::string::StringExecFns;

verus! {

/// One of the named selection buffers of the host windowing system.
#[derive(Clone, Copy, Debug, PartialEq, Eq, Structural)]
pub enum Selection {
    Primary,
    Secondary,
    Clipboard,
    BufferCut,
}

impl Selection {
    /// The buffer's name, as the external clipboard reader expects it.
    pub open spec fn spec_name(self) -> Seq<char> {
        match self {
            Selection::Primary => "primary"@,
            Selection::Secondary => "secondary"@,
            Selection::Clipboard => "clipboard"@,
            Selection::BufferCut => "buffer-cut"@,
        }
    }

    /// The buffer's name as a `String`.
    pub fn to_string(&self) -> (r: String)
        ensures
            r@ == self.spec_name(),
    {
        match self {
            Selection::Primary => String::from_str("primary"),
            Selection::Secondary => String::from_str("secondary"),
            Selection::Clipboard => String::from_str("clipboard"),
            Selection::BufferCut => String::from_str("buffer-cut"),
        }
    }
}

} // verus!
