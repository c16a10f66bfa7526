use vstd::prelude::*;

verus! {

/// What a command asks of the system.
#[derive(Debug, Clone, Copy, PartialEq, Eq, Structural)]
pub enum Action {
    InstallPackage,
    RemovePackage,
    EnableService,
    DisableService,
}

impl Action {
    /// The action works on a package (and so on the package dictionary).
    pub open spec fn is_package_action(self) -> bool {
        self is InstallPackage || self is RemovePackage
    }

    /// The action's name, as `Debug` writes it.
    pub open spec fn name_text(self) -> Seq<char> {
        match self {
            Action::InstallPackage => "InstallPackage"@,
            Action::RemovePackage => "RemovePackage"@,
            Action::EnableService => "EnableService"@,
            Action::DisableService => "DisableService"@,
        }
    }

    /// The action's name, as `Debug` writes it.
    pub fn name(&self) -> (s: &'static str)
        ensures
            s@ == self.name_text(),
    {
        match self {
            Action::InstallPackage => "InstallPackage",
            Action::RemovePackage => "RemovePackage",
            Action::EnableService => "EnableService",
            Action::DisableService => "DisableService",
        }
    }
}

} // verus!
