use vstd::prelude::*;

verus! {

/// The names of the built-in application packages, in order.
pub open spec fn builtin_names() -> Seq<Seq<char>> {
    seq![
        "atuin"@,
        "base"@,
        "cargo"@,
        "emacs"@,
        "fcitx5"@,
        "firefox"@,
        "ghq"@,
        "google-cloud-cli"@,
        "npm"@,
        "paru"@,
        "podman"@,
        "slack"@,
        "ssh"@,
        "starship"@,
        "sway"@,
        "tmux"@,
        "uv"@,
    ]
}

/// The names of the built-in application packages.
pub fn packages() -> (r: Vec<&'static str>)
    ensures
        r@.map_values(|s: &'static str| s@) == builtin_names(),
{
    let r = vec![
        "atuin",
        "base",
        "cargo",
        "emacs",
        "fcitx5",
        "firefox",
        "ghq",
        "google-cloud-cli",
        "npm",
        "paru",
        "podman",
        "slack",
        "ssh",
        "starship",
        "sway",
        "tmux",
        "uv",
    ];
    assert(r@.map_values(|s: &'static str| s@) =~= builtin_names());
    r
}

} // verus!
