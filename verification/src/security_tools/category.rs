//! The fixed set of tool categories.

use vstd::prelude::*;
use vstd::string::*;
use crate::text::same_text;

verus! {

/// Category of a security tool. Categories are a closed set, independent
/// of the free-form tags a tool carries.
#[derive(Clone, Copy, Debug, PartialEq, Eq, Hash, Structural)]
pub enum SecurityCategory {
    Network,
    Process,
    Rootkit,
    Hardening,
    Filesystem,
    General,
}

impl Default for SecurityCategory {
    fn default() -> (res: SecurityCategory)
        ensures
            res == SecurityCategory::General,
    {
        SecurityCategory::General
    }
}

/// The category that a lower-case label names, if any.
pub open spec fn category_named(label: Seq<char>) -> Option<SecurityCategory> {
    if label == "network"@ {
        Some(SecurityCategory::Network)
    } else if label == "process"@ {
        Some(SecurityCategory::Process)
    } else if label == "rootkit"@ {
        Some(SecurityCategory::Rootkit)
    } else if label == "hardening"@ {
        Some(SecurityCategory::Hardening)
    } else if label == "filesystem"@ {
        Some(SecurityCategory::Filesystem)
    } else if label == "general"@ {
        Some(SecurityCategory::General)
    } else {
        None
    }
}

impl SecurityCategory {
    /// The lower-case label under which the category is written.
    pub open spec fn label(self) -> Seq<char> {
        match self {
            SecurityCategory::Network => "network"@,
            SecurityCategory::Process => "process"@,
            SecurityCategory::Rootkit => "rootkit"@,
            SecurityCategory::Hardening => "hardening"@,
            SecurityCategory::Filesystem => "filesystem"@,
            SecurityCategory::General => "general"@,
        }
    }

    /// The label of the category as a string slice.
    pub fn as_str(&self) -> (res: &'static str)
        ensures
            res@ == self.label(),
    {
        match self {
            SecurityCategory::Network => "network",
            SecurityCategory::Process => "process",
            SecurityCategory::Rootkit => "rootkit",
            SecurityCategory::Hardening => "hardening",
            SecurityCategory::Filesystem => "filesystem",
            SecurityCategory::General => "general",
        }
    }

    /// The label of the category as an owned string.
    pub fn to_string(&self) -> (res: String)
        ensures
            res@ == self.label(),
    {
        String::from_str(self.as_str())
    }

    /// Reads a category from its label. Labels are matched exactly; any
    /// other text names no category.
    pub fn parse(label: &str) -> (res: Option<SecurityCategory>)
        ensures
            res == category_named(label@),
    {
        if same_text(label, "network") {
            Some(SecurityCategory::Network)
        } else if same_text(label, "process") {
            Some(SecurityCategory::Process)
        } else if same_text(label, "rootkit") {
            Some(SecurityCategory::Rootkit)
        } else if same_text(label, "hardening") {
            Some(SecurityCategory::Hardening)
        } else if same_text(label, "filesystem") {
            Some(SecurityCategory::Filesystem)
        } else if same_text(label, "general") {
            Some(SecurityCategory::General)
        } else {
            None
        }
    }
}

/// Writing a category and reading the label back gives the category: the
/// six labels are pairwise distinct.
pub proof fn lemma_label_round_trip(c: SecurityCategory)
    ensures
        category_named(c.label()) == Some(c),
{
    reveal_strlit("network");
    reveal_strlit("process");
    reveal_strlit("rootkit");
    reveal_strlit("hardening");
    reveal_strlit("filesystem");
    reveal_strlit("general");
    assert("network"@.len() == 7 && "network"@[0] == 'n');
    assert("process"@.len() == 7 && "process"@[0] == 'p');
    assert("rootkit"@.len() == 7 && "rootkit"@[0] == 'r');
    assert("hardening"@.len() == 9);
    assert("filesystem"@.len() == 10);
    assert("general"@.len() == 7 && "general"@[0] == 'g');
}

} // verus!
