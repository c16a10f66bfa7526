use vstd::prelude::*;

verus! {

/// The package dictionary: each canonical package name with the names
/// that stand for it.
pub const PACKAGES_JSON: &'static str = "{
  \"firefox\": [\"firefox\", \"ファイアフォックス\", \"ファイヤーフォックス\", \"火狐\"],
  \"google-chrome\": [\"google-chrome\", \"chrome\", \"クローム\"],
  \"vscode\": [\"vscode\", \"vs code\", \"code\"],
  \"python3\": [\"python3\", \"python\", \"パイソン\"],
  \"git\": [\"git\", \"ギット\"],
  \"curl\": [\"curl\"]
}
";

/// The service dictionary: each canonical service name with the names
/// that stand for it.
pub const SERVICES_JSON: &'static str = "{
  \"openssh\": [\"openssh\", \"ssh\", \"sshd\", \"sshサーバー\"]
}
";

} // verus!
