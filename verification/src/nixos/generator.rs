//! The text of a Nix module that lists packages.
use vstd::prelude::*;

verus! {

/// A Nix module that installs `packages`.
pub struct NixModule {
    pub packages: Vec<String>,
}

/// One line `"  <package>"` per package, each followed by `'\n'`.
pub open spec fn package_lines(packages: Seq<String>) -> Seq<char>
    decreases packages.len(),
{
    if packages.len() == 0 {
        seq![]
    } else {
        package_lines(packages.drop_last()) + "  "@ + packages.last()@ + "\n"@
    }
}

/// The module text: the package list, one package per line.
pub open spec fn module_text(packages: Seq<String>) -> Seq<char> {
    "environment.systemPackages = with pkgs; [\n"@ + package_lines(packages) + "];\n"@
}

impl NixModule {
    /// Writes the module.
    pub fn generate(&self) -> (text: String)
        ensures
            text@ == module_text(self.packages@),
    {
        let mut output = String::from_str("environment.systemPackages = with pkgs; [\n");
        let mut i: usize = 0;
        while i < self.packages.len()
            invariant
                i <= self.packages.len(),
                output@ == "environment.systemPackages = with pkgs; [\n"@ + package_lines(
                    self.packages@.take(i as int),
                ),
            decreases self.packages.len() - i,
        {
            proof {
                assert(self.packages@.take(i + 1).drop_last() =~= self.packages@.take(i as int));
            }
            output.append("  ");
            output.append(self.packages[i].as_str());
            output.append("\n");
            i = i + 1;
        }
        assert(self.packages@.take(i as int) =~= self.packages@);
        output.append("];\n");
        output
    }
}

} // verus!
