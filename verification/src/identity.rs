//! Who a caller is and what they may do. Permission strings are read once,
//! here; the store itself works on the capabilities they resolve to.

use vstd::prelude::*;
use vstd::string::*;
use crate::model::ProjectRequestLimit;
use crate::text::same_text;

verus! {

/// How many projects a user may own.
#[derive(Clone, Copy, Debug, PartialEq, Eq, Structural)]
pub enum ProjectAllowance {
    Ten,
    TwentyFive,
    Unlimited,
}

impl ProjectAllowance {
    /// Whether a user who owns `owned` projects may have one more.
    pub open spec fn spec_admits(self, owned: nat) -> bool {
        match self {
            ProjectAllowance::Ten => owned < 10,
            ProjectAllowance::TwentyFive => owned < 25,
            ProjectAllowance::Unlimited => true,
        }
    }

    /// Whether a user who owns `owned` projects may have one more.
    pub fn admits(&self, owned: usize) -> (r: bool)
        ensures
            r == self.spec_admits(owned as nat),
    {
        match self {
            ProjectAllowance::Ten => owned < 10,
            ProjectAllowance::TwentyFive => owned < 25,
            ProjectAllowance::Unlimited => true,
        }
    }
}

/// What a user may do.
#[derive(Clone, Copy, Debug, PartialEq, Eq, Structural)]
pub struct Capabilities {
    /// May manage any project.
    pub admin: bool,
    /// May hand a project to another owner.
    pub edit_owner: bool,
    pub allowance: ProjectAllowance,
    /// The ceiling on requests that the user's projects are served under.
    pub request_limit: ProjectRequestLimit,
}

/// A list of texts, each as a sequence of characters.
pub open spec fn texts(permissions: Seq<String>) -> Seq<Seq<char>> {
    permissions.map_values(|p: String| p@)
}

/// The capabilities a list of permission strings stands for. Without a word
/// on projects a user may own ten; `VIB:MaxProjects:10` wins over
/// `VIB:MaxProjects:25`, and `VIB:MaxProjects:Disabled` over both. Without a
/// word on requests the default ceiling holds; `VIB:RequestLimit:Disabled`
/// wins over `VIB:RequestLimit:Enterprise`.
pub open spec fn spec_resolve(permissions: Seq<Seq<char>>) -> Capabilities {
    Capabilities {
        admin: permissions.contains("VIB:Admin"@),
        edit_owner: permissions.contains("VIB:Actions:EditOwner"@),
        allowance: if permissions.contains("VIB:MaxProjects:Disabled"@) {
            ProjectAllowance::Unlimited
        } else if permissions.contains("VIB:MaxProjects:10"@) || !permissions.contains(
            "VIB:MaxProjects:25"@,
        ) {
            ProjectAllowance::Ten
        } else {
            ProjectAllowance::TwentyFive
        },
        request_limit: if permissions.contains("VIB:RequestLimit:Disabled"@) {
            ProjectRequestLimit::Disabled
        } else if permissions.contains("VIB:RequestLimit:Enterprise"@) {
            ProjectRequestLimit::Enterprise
        } else {
            ProjectRequestLimit::Default
        },
    }
}

/// Whether the list holds the permission.
pub fn holds(permissions: &Vec<String>, permission: &str) -> (r: bool)
    ensures
        r == texts(permissions@).contains(permission@),
{
    let n: usize = permissions.len();
    let mut i: usize = 0;
    while i < n
        invariant
            n == permissions@.len(),
            i <= n,
            forall|j: int| 0 <= j < i ==> texts(permissions@)[j] != permission@,
        decreases n - i,
    {
        if same_text(permissions[i].as_str(), permission) {
            assert(texts(permissions@)[i as int] == permission@);
            return true;
        }
        i += 1;
    }
    false
}

/// Reads a list of permission strings.
pub fn resolve(permissions: &Vec<String>) -> (r: Capabilities)
    ensures
        r == spec_resolve(texts(permissions@)),
{
    let allowance = if holds(permissions, "VIB:MaxProjects:Disabled") {
        ProjectAllowance::Unlimited
    } else if holds(permissions, "VIB:MaxProjects:10") || !holds(permissions, "VIB:MaxProjects:25") {
        ProjectAllowance::Ten
    } else {
        ProjectAllowance::TwentyFive
    };
    let request_limit = if holds(permissions, "VIB:RequestLimit:Disabled") {
        ProjectRequestLimit::Disabled
    } else if holds(permissions, "VIB:RequestLimit:Enterprise") {
        ProjectRequestLimit::Enterprise
    } else {
        ProjectRequestLimit::Default
    };
    Capabilities {
        admin: holds(permissions, "VIB:Admin"),
        edit_owner: holds(permissions, "VIB:Actions:EditOwner"),
        allowance,
        request_limit,
    }
}

/// A user the store knows, with what they may do.
pub struct Identity {
    pub username: String,
    pub capabilities: Capabilities,
}

/// A user the store knows, by their view.
pub struct IdentityView {
    pub username: Seq<char>,
    pub capabilities: Capabilities,
}

impl View for Identity {
    type V = IdentityView;

    open spec fn view(&self) -> IdentityView {
        IdentityView { username: self.username@, capabilities: self.capabilities }
    }
}

impl Clone for Identity {
    fn clone(&self) -> (r: Self)
        ensures
            r == *self,
    {
        Identity { username: self.username.clone(), capabilities: self.capabilities }
    }
}

/// Who may change a project and its files: the owner and every administrator.
pub open spec fn spec_can_manage(editor: IdentityView, owner: Seq<char>) -> bool {
    editor.username == owner || editor.capabilities.admin
}

/// Whether the editor may change a project of that owner.
pub fn can_manage(editor: &Identity, owner: &str) -> (r: bool)
    ensures
        r == spec_can_manage(editor@, owner@),
{
    same_text(editor.username.as_str(), owner) || editor.capabilities.admin
}

} // verus!
