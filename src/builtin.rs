use vstd::prelude::*;

verus! {

/// A file of a built-in package: its target (under the home directory when
/// relative), its source under the packages directory, whether the source is
/// a template, and its mode when not the default.
pub struct Asset {
    pub target: &'static str,
    pub source: &'static str,
    pub template: bool,
    pub mode: Option<u32>,
}

pub type AssetV = (Seq<char>, Seq<char>, bool, Option<u32>);

impl View for Asset {
    type V = AssetV;

    open spec fn view(&self) -> AssetV {
        (self.target@, self.source@, self.template, self.mode)
    }
}

/// How a built-in package is made: its files and its hook commands.
pub struct Recipe {
    pub assets: Vec<Asset>,
    pub pre_install: Vec<Vec<&'static str>>,
    pub post_install: Vec<Vec<&'static str>>,
    pub pre_remove: Vec<Vec<&'static str>>,
}

pub type RecipeV = (Seq<AssetV>, Seq<Seq<Seq<char>>>, Seq<Seq<Seq<char>>>, Seq<Seq<Seq<char>>>);

impl View for Recipe {
    type V = RecipeV;

    open spec fn view(&self) -> RecipeV {
        (
            self.assets@.map_values(|a: Asset| a@),
            self.pre_install.deep_view(),
            self.post_install.deep_view(),
            self.pre_remove.deep_view(),
        )
    }
}

fn asset(target: &'static str, source: &'static str, template: bool, mode: Option<u32>) -> (r: Asset)
    ensures
        r@ == (target@, source@, template, mode),
{
    Asset { target, source, template, mode }
}

/// Shell history.
pub fn atuin() -> (r: Recipe)
    ensures
        r@ == (
            seq![
                (".bashrc.d/60-atuin.bash"@, "atuin/atuin.bash"@, false, None::<u32>),
                (".config/atuin/config.toml"@, "atuin/config.toml"@, false, None::<u32>),
            ],
            Seq::<Seq<Seq<char>>>::empty(),
            Seq::<Seq<Seq<char>>>::empty(),
            Seq::<Seq<Seq<char>>>::empty(),
        ),
{
    let r = Recipe {
        assets: vec![
            asset(".bashrc.d/60-atuin.bash", "atuin/atuin.bash", false, None),
            asset(".config/atuin/config.toml", "atuin/config.toml", false, None),
        ],
        pre_install: vec![],
        post_install: vec![],
        pre_remove: vec![],
    };
    assert(r@.0 =~= seq![
        (".bashrc.d/60-atuin.bash"@, "atuin/atuin.bash"@, false, None::<u32>),
        (".config/atuin/config.toml"@, "atuin/config.toml"@, false, None::<u32>),
    ]);
    assert(r@.1 =~= Seq::<Seq<Seq<char>>>::empty());
    assert(r@.2 =~= Seq::<Seq<Seq<char>>>::empty());
    assert(r@.3 =~= Seq::<Seq<Seq<char>>>::empty());
    r
}

/// The base shell and user directories.
pub fn base() -> (r: Recipe)
    ensures
        r@ == (
            seq![
                (".bashrc"@, "base/bashrc.bash"@, false, None::<u32>),
                (".config/user-dirs.dirs"@, "base/user-dirs.dirs"@, false, None::<u32>),
            ],
            seq![seq!["mkdir"@, "-p"@, "downloads"@]],
            Seq::<Seq<Seq<char>>>::empty(),
            Seq::<Seq<Seq<char>>>::empty(),
        ),
{
    let r = Recipe {
        assets: vec![
            asset(".bashrc", "base/bashrc.bash", false, None),
            asset(".config/user-dirs.dirs", "base/user-dirs.dirs", false, None),
        ],
        pre_install: vec![vec!["mkdir", "-p", "downloads"]],
        post_install: vec![],
        pre_remove: vec![],
    };
    assert(r@.0 =~= seq![
        (".bashrc"@, "base/bashrc.bash"@, false, None::<u32>),
        (".config/user-dirs.dirs"@, "base/user-dirs.dirs"@, false, None::<u32>),
    ]);
    assert(r@.1 =~~= seq![seq!["mkdir"@, "-p"@, "downloads"@]]);
    assert(r@.2 =~= Seq::<Seq<Seq<char>>>::empty());
    assert(r@.3 =~= Seq::<Seq<Seq<char>>>::empty());
    r
}

/// Rust toolchain settings.
pub fn cargo() -> (r: Recipe)
    ensures
        r@ == (
            seq![
                (".bashrc.d/50-cargo.bash"@, "cargo/cargo.bash"@, false, None::<u32>),
                (".cargo/config.toml"@, "cargo/config.toml"@, true, None::<u32>),
            ],
            Seq::<Seq<Seq<char>>>::empty(),
            Seq::<Seq<Seq<char>>>::empty(),
            Seq::<Seq<Seq<char>>>::empty(),
        ),
{
    let r = Recipe {
        assets: vec![
            asset(".bashrc.d/50-cargo.bash", "cargo/cargo.bash", false, None),
            asset(".cargo/config.toml", "cargo/config.toml", true, None),
        ],
        pre_install: vec![],
        post_install: vec![],
        pre_remove: vec![],
    };
    assert(r@.0 =~= seq![
            (".bashrc.d/50-cargo.bash"@, "cargo/cargo.bash"@, false, None::<u32>),
            (".cargo/config.toml"@, "cargo/config.toml"@, true, None::<u32>),
        ]);
    assert(r@.1 =~~= Seq::<Seq<Seq<char>>>::empty());
    assert(r@.2 =~~= Seq::<Seq<Seq<char>>>::empty());
    assert(r@.3 =~~= Seq::<Seq<Seq<char>>>::empty());
    r
}

/// Input method with SKK.
pub fn fcitx5() -> (r: Recipe)
    ensures
        r@ == (
            seq![
                (".bashrc.d/50-fcitx5.bash"@, "fcitx5/fcitx5.bash"@, false, None::<u32>),
                (".config/fcitx5/conf/skk.conf"@, "fcitx5/skk.conf"@, false, None::<u32>),
                (".config/fcitx5/config"@, "fcitx5/config"@, false, None::<u32>),
                (".config/fcitx5/profile"@, "fcitx5/profile"@, false, Some(0o100600u32)),
                (".config/systemd/user/fcitx5.service"@, "fcitx5/fcitx5.service"@, false, None::<u32>),
                (".local/share/fcitx5/skk/dictionary_list"@, "fcitx5/dictionary_list"@, false, None::<u32>),
            ],
            Seq::<Seq<Seq<char>>>::empty(),
            seq![seq!["systemctl"@, "--user"@, "daemon-reload"@], seq!["systemctl"@, "--user"@, "enable"@, "fcitx5.service"@]],
            seq![seq!["systemctl"@, "--user"@, "disable"@, "fcitx5.service"@]],
        ),
{
    let r = Recipe {
        assets: vec![
            asset(".bashrc.d/50-fcitx5.bash", "fcitx5/fcitx5.bash", false, None),
            asset(".config/fcitx5/conf/skk.conf", "fcitx5/skk.conf", false, None),
            asset(".config/fcitx5/config", "fcitx5/config", false, None),
            asset(".config/fcitx5/profile", "fcitx5/profile", false, Some(0o100600)),
            asset(".config/systemd/user/fcitx5.service", "fcitx5/fcitx5.service", false, None),
            asset(".local/share/fcitx5/skk/dictionary_list", "fcitx5/dictionary_list", false, None),
        ],
        pre_install: vec![],
        post_install: vec![vec!["systemctl", "--user", "daemon-reload"], vec!["systemctl", "--user", "enable", "fcitx5.service"]],
        pre_remove: vec![vec!["systemctl", "--user", "disable", "fcitx5.service"]],
    };
    assert(r@.0 =~= seq![
            (".bashrc.d/50-fcitx5.bash"@, "fcitx5/fcitx5.bash"@, false, None::<u32>),
            (".config/fcitx5/conf/skk.conf"@, "fcitx5/skk.conf"@, false, None::<u32>),
            (".config/fcitx5/config"@, "fcitx5/config"@, false, None::<u32>),
            (".config/fcitx5/profile"@, "fcitx5/profile"@, false, Some(0o100600u32)),
            (".config/systemd/user/fcitx5.service"@, "fcitx5/fcitx5.service"@, false, None::<u32>),
            (".local/share/fcitx5/skk/dictionary_list"@, "fcitx5/dictionary_list"@, false, None::<u32>),
        ]);
    assert(r@.1 =~~= Seq::<Seq<Seq<char>>>::empty());
    assert(r@.2 =~~= seq![seq!["systemctl"@, "--user"@, "daemon-reload"@], seq!["systemctl"@, "--user"@, "enable"@, "fcitx5.service"@]]);
    assert(r@.3 =~~= seq![seq!["systemctl"@, "--user"@, "disable"@, "fcitx5.service"@]]);
    r
}

/// Repository management.
pub fn ghq() -> (r: Recipe)
    ensures
        r@ == (
            seq![
                (".bashrc.d/50-ghq.bash"@, "ghq/ghq.bash"@, false, None::<u32>),
            ],
            Seq::<Seq<Seq<char>>>::empty(),
            Seq::<Seq<Seq<char>>>::empty(),
            Seq::<Seq<Seq<char>>>::empty(),
        ),
{
    let r = Recipe {
        assets: vec![
            asset(".bashrc.d/50-ghq.bash", "ghq/ghq.bash", false, None),
        ],
        pre_install: vec![],
        post_install: vec![],
        pre_remove: vec![],
    };
    assert(r@.0 =~= seq![
            (".bashrc.d/50-ghq.bash"@, "ghq/ghq.bash"@, false, None::<u32>),
        ]);
    assert(r@.1 =~~= Seq::<Seq<Seq<char>>>::empty());
    assert(r@.2 =~~= Seq::<Seq<Seq<char>>>::empty());
    assert(r@.3 =~~= Seq::<Seq<Seq<char>>>::empty());
    r
}

/// Google Cloud CLI in a container.
pub fn google_cloud_cli() -> (r: Recipe)
    ensures
        r@ == (
            seq![
                (".bashrc.d/50-google-cloud-cli.bash"@, "google-cloud-cli/google-cloud-cli.bash"@, false, None::<u32>),
                (".config/containers/systemd/google-cloud-cli.container"@, "google-cloud-cli/google-cloud-cli.container"@, false, None::<u32>),
                (".local/bin/gcloud"@, "google-cloud-cli/google-cloud-cli"@, false, Some(0o100755u32)),
                (".local/bin/docker-credential-gcloud"@, "google-cloud-cli/google-cloud-cli"@, false, Some(0o100755u32)),
            ],
            seq![seq!["mkdir"@, "-p"@, ".config/gcloud"@]],
            seq![seq!["systemctl"@, "--user"@, "daemon-reload"@]],
            Seq::<Seq<Seq<char>>>::empty(),
        ),
{
    let r = Recipe {
        assets: vec![
            asset(".bashrc.d/50-google-cloud-cli.bash", "google-cloud-cli/google-cloud-cli.bash", false, None),
            asset(".config/containers/systemd/google-cloud-cli.container", "google-cloud-cli/google-cloud-cli.container", false, None),
            asset(".local/bin/gcloud", "google-cloud-cli/google-cloud-cli", false, Some(0o100755)),
            asset(".local/bin/docker-credential-gcloud", "google-cloud-cli/google-cloud-cli", false, Some(0o100755)),
        ],
        pre_install: vec![vec!["mkdir", "-p", ".config/gcloud"]],
        post_install: vec![vec!["systemctl", "--user", "daemon-reload"]],
        pre_remove: vec![],
    };
    assert(r@.0 =~= seq![
            (".bashrc.d/50-google-cloud-cli.bash"@, "google-cloud-cli/google-cloud-cli.bash"@, false, None::<u32>),
            (".config/containers/systemd/google-cloud-cli.container"@, "google-cloud-cli/google-cloud-cli.container"@, false, None::<u32>),
            (".local/bin/gcloud"@, "google-cloud-cli/google-cloud-cli"@, false, Some(0o100755u32)),
            (".local/bin/docker-credential-gcloud"@, "google-cloud-cli/google-cloud-cli"@, false, Some(0o100755u32)),
        ]);
    assert(r@.1 =~~= seq![seq!["mkdir"@, "-p"@, ".config/gcloud"@]]);
    assert(r@.2 =~~= seq![seq!["systemctl"@, "--user"@, "daemon-reload"@]]);
    assert(r@.3 =~~= Seq::<Seq<Seq<char>>>::empty());
    r
}

/// npm settings.
pub fn npm() -> (r: Recipe)
    ensures
        r@ == (
            seq![
                (".npmrc"@, "npm/npmrc"@, true, None::<u32>),
            ],
            Seq::<Seq<Seq<char>>>::empty(),
            Seq::<Seq<Seq<char>>>::empty(),
            Seq::<Seq<Seq<char>>>::empty(),
        ),
{
    let r = Recipe {
        assets: vec![
            asset(".npmrc", "npm/npmrc", true, None),
        ],
        pre_install: vec![],
        post_install: vec![],
        pre_remove: vec![],
    };
    assert(r@.0 =~= seq![
            (".npmrc"@, "npm/npmrc"@, true, None::<u32>),
        ]);
    assert(r@.1 =~~= Seq::<Seq<Seq<char>>>::empty());
    assert(r@.2 =~~= Seq::<Seq<Seq<char>>>::empty());
    assert(r@.3 =~~= Seq::<Seq<Seq<char>>>::empty());
    r
}

/// paru settings.
pub fn paru() -> (r: Recipe)
    ensures
        r@ == (
            seq![
                (".config/paru/paru.conf"@, "paru/paru.conf"@, true, None::<u32>),
            ],
            Seq::<Seq<Seq<char>>>::empty(),
            Seq::<Seq<Seq<char>>>::empty(),
            Seq::<Seq<Seq<char>>>::empty(),
        ),
{
    let r = Recipe {
        assets: vec![
            asset(".config/paru/paru.conf", "paru/paru.conf", true, None),
        ],
        pre_install: vec![],
        post_install: vec![],
        pre_remove: vec![],
    };
    assert(r@.0 =~= seq![
            (".config/paru/paru.conf"@, "paru/paru.conf"@, true, None::<u32>),
        ]);
    assert(r@.1 =~~= Seq::<Seq<Seq<char>>>::empty());
    assert(r@.2 =~~= Seq::<Seq<Seq<char>>>::empty());
    assert(r@.3 =~~= Seq::<Seq<Seq<char>>>::empty());
    r
}

/// Rootless containers.
pub fn podman() -> (r: Recipe)
    ensures
        r@ == (
            seq![
                (".bashrc.d/50-podman.bash"@, "podman/podman.bash"@, false, None::<u32>),
                (".config/containers/containers.conf"@, "podman/containers.conf"@, false, None::<u32>),
                (".config/containers/storage.conf"@, "podman/storage.conf"@, true, None::<u32>),
            ],
            Seq::<Seq<Seq<char>>>::empty(),
            Seq::<Seq<Seq<char>>>::empty(),
            Seq::<Seq<Seq<char>>>::empty(),
        ),
{
    let r = Recipe {
        assets: vec![
            asset(".bashrc.d/50-podman.bash", "podman/podman.bash", false, None),
            asset(".config/containers/containers.conf", "podman/containers.conf", false, None),
            asset(".config/containers/storage.conf", "podman/storage.conf", true, None),
        ],
        pre_install: vec![],
        post_install: vec![],
        pre_remove: vec![],
    };
    assert(r@.0 =~= seq![
            (".bashrc.d/50-podman.bash"@, "podman/podman.bash"@, false, None::<u32>),
            (".config/containers/containers.conf"@, "podman/containers.conf"@, false, None::<u32>),
            (".config/containers/storage.conf"@, "podman/storage.conf"@, true, None::<u32>),
        ]);
    assert(r@.1 =~~= Seq::<Seq<Seq<char>>>::empty());
    assert(r@.2 =~~= Seq::<Seq<Seq<char>>>::empty());
    assert(r@.3 =~~= Seq::<Seq<Seq<char>>>::empty());
    r
}

/// SSH agent and client settings.
pub fn ssh() -> (r: Recipe)
    ensures
        r@ == (
            seq![
                (".bashrc.d/50-ssh-agent.bash"@, "ssh/ssh-agent.bash"@, false, None::<u32>),
                (".ssh/config"@, "ssh/config"@, true, None::<u32>),
            ],
            Seq::<Seq<Seq<char>>>::empty(),
            Seq::<Seq<Seq<char>>>::empty(),
            Seq::<Seq<Seq<char>>>::empty(),
        ),
{
    let r = Recipe {
        assets: vec![
            asset(".bashrc.d/50-ssh-agent.bash", "ssh/ssh-agent.bash", false, None),
            asset(".ssh/config", "ssh/config", true, None),
        ],
        pre_install: vec![],
        post_install: vec![],
        pre_remove: vec![],
    };
    assert(r@.0 =~= seq![
            (".bashrc.d/50-ssh-agent.bash"@, "ssh/ssh-agent.bash"@, false, None::<u32>),
            (".ssh/config"@, "ssh/config"@, true, None::<u32>),
        ]);
    assert(r@.1 =~~= Seq::<Seq<Seq<char>>>::empty());
    assert(r@.2 =~~= Seq::<Seq<Seq<char>>>::empty());
    assert(r@.3 =~~= Seq::<Seq<Seq<char>>>::empty());
    r
}

/// Shell prompt.
pub fn starship() -> (r: Recipe)
    ensures
        r@ == (
            seq![
                (".bashrc.d/50-starship.bash"@, "starship/starship.bash"@, false, None::<u32>),
            ],
            Seq::<Seq<Seq<char>>>::empty(),
            Seq::<Seq<Seq<char>>>::empty(),
            Seq::<Seq<Seq<char>>>::empty(),
        ),
{
    let r = Recipe {
        assets: vec![
            asset(".bashrc.d/50-starship.bash", "starship/starship.bash", false, None),
        ],
        pre_install: vec![],
        post_install: vec![],
        pre_remove: vec![],
    };
    assert(r@.0 =~= seq![
            (".bashrc.d/50-starship.bash"@, "starship/starship.bash"@, false, None::<u32>),
        ]);
    assert(r@.1 =~~= Seq::<Seq<Seq<char>>>::empty());
    assert(r@.2 =~~= Seq::<Seq<Seq<char>>>::empty());
    assert(r@.3 =~~= Seq::<Seq<Seq<char>>>::empty());
    r
}

/// Wayland desktop.
pub fn sway() -> (r: Recipe)
    ensures
        r@ == (
            seq![
                (".bashrc.d/50-sway.bash"@, "sway/sway.bash"@, false, None::<u32>),
                (".config/foot/foot.ini"@, "sway/foot.ini"@, false, None::<u32>),
                (".config/fuzzel/fuzzel.ini"@, "sway/fuzzel.ini"@, false, None::<u32>),
                (".config/i3status-rust/config.toml"@, "sway/i3status-rust.toml"@, false, None::<u32>),
                (".config/sway/config"@, "sway/config"@, false, None::<u32>),
                (".config/systemd/user/swayidle.service"@, "sway/swayidle.service"@, false, None::<u32>),
                (".config/systemd/user/sway-session.target"@, "sway/sway-session.target"@, false, None::<u32>),
                (".xkb/symbols/us_henkan"@, "sway/us_henkan"@, false, None::<u32>),
            ],
            Seq::<Seq<Seq<char>>>::empty(),
            seq![seq!["systemctl"@, "--user"@, "daemon-reload"@], seq!["systemctl"@, "--user"@, "enable"@, "swayidle.service"@]],
            seq![seq!["systemctl"@, "--user"@, "disable"@, "swayidle.service"@]],
        ),
{
    let r = Recipe {
        assets: vec![
            asset(".bashrc.d/50-sway.bash", "sway/sway.bash", false, None),
            asset(".config/foot/foot.ini", "sway/foot.ini", false, None),
            asset(".config/fuzzel/fuzzel.ini", "sway/fuzzel.ini", false, None),
            asset(".config/i3status-rust/config.toml", "sway/i3status-rust.toml", false, None),
            asset(".config/sway/config", "sway/config", false, None),
            asset(".config/systemd/user/swayidle.service", "sway/swayidle.service", false, None),
            asset(".config/systemd/user/sway-session.target", "sway/sway-session.target", false, None),
            asset(".xkb/symbols/us_henkan", "sway/us_henkan", false, None),
        ],
        pre_install: vec![],
        post_install: vec![vec!["systemctl", "--user", "daemon-reload"], vec!["systemctl", "--user", "enable", "swayidle.service"]],
        pre_remove: vec![vec!["systemctl", "--user", "disable", "swayidle.service"]],
    };
    assert(r@.0 =~= seq![
            (".bashrc.d/50-sway.bash"@, "sway/sway.bash"@, false, None::<u32>),
            (".config/foot/foot.ini"@, "sway/foot.ini"@, false, None::<u32>),
            (".config/fuzzel/fuzzel.ini"@, "sway/fuzzel.ini"@, false, None::<u32>),
            (".config/i3status-rust/config.toml"@, "sway/i3status-rust.toml"@, false, None::<u32>),
            (".config/sway/config"@, "sway/config"@, false, None::<u32>),
            (".config/systemd/user/swayidle.service"@, "sway/swayidle.service"@, false, None::<u32>),
            (".config/systemd/user/sway-session.target"@, "sway/sway-session.target"@, false, None::<u32>),
            (".xkb/symbols/us_henkan"@, "sway/us_henkan"@, false, None::<u32>),
        ]);
    assert(r@.1 =~~= Seq::<Seq<Seq<char>>>::empty());
    assert(r@.2 =~~= seq![seq!["systemctl"@, "--user"@, "daemon-reload"@], seq!["systemctl"@, "--user"@, "enable"@, "swayidle.service"@]]);
    assert(r@.3 =~~= seq![seq!["systemctl"@, "--user"@, "disable"@, "swayidle.service"@]]);
    r
}

/// Terminal multiplexer.
pub fn tmux() -> (r: Recipe)
    ensures
        r@ == (
            seq![
                (".config/tmux/tmux.conf"@, "tmux/tmux.conf"@, false, None::<u32>),
            ],
            Seq::<Seq<Seq<char>>>::empty(),
            Seq::<Seq<Seq<char>>>::empty(),
            Seq::<Seq<Seq<char>>>::empty(),
        ),
{
    let r = Recipe {
        assets: vec![
            asset(".config/tmux/tmux.conf", "tmux/tmux.conf", false, None),
        ],
        pre_install: vec![],
        post_install: vec![],
        pre_remove: vec![],
    };
    assert(r@.0 =~= seq![
            (".config/tmux/tmux.conf"@, "tmux/tmux.conf"@, false, None::<u32>),
        ]);
    assert(r@.1 =~~= Seq::<Seq<Seq<char>>>::empty());
    assert(r@.2 =~~= Seq::<Seq<Seq<char>>>::empty());
    assert(r@.3 =~~= Seq::<Seq<Seq<char>>>::empty());
    r
}

/// Python package manager settings.
pub fn uv() -> (r: Recipe)
    ensures
        r@ == (
            seq![
                (".config/uv/uv.toml"@, "uv/uv.toml"@, true, None::<u32>),
            ],
            Seq::<Seq<Seq<char>>>::empty(),
            Seq::<Seq<Seq<char>>>::empty(),
            Seq::<Seq<Seq<char>>>::empty(),
        ),
{
    let r = Recipe {
        assets: vec![
            asset(".config/uv/uv.toml", "uv/uv.toml", true, None),
        ],
        pre_install: vec![],
        post_install: vec![],
        pre_remove: vec![],
    };
    assert(r@.0 =~= seq![
            (".config/uv/uv.toml"@, "uv/uv.toml"@, true, None::<u32>),
        ]);
    assert(r@.1 =~~= Seq::<Seq<Seq<char>>>::empty());
    assert(r@.2 =~~= Seq::<Seq<Seq<char>>>::empty());
    assert(r@.3 =~~= Seq::<Seq<Seq<char>>>::empty());
    r
}

/// Rendered template text, ending with a newline.
pub open spec fn terminated_spec(content: Seq<u8>) -> Seq<u8> {
    if content.len() > 0 && content.last() == 10u8 {
        content
    } else {
        content.push(10u8)
    }
}

/// Adds a final newline to rendered template text that lacks one.
pub fn terminated(content: Vec<u8>) -> (r: Vec<u8>)
    ensures
        r@ == terminated_spec(content@),
{
    let mut content = content;
    let n = content.len();
    if n > 0 && content[n - 1] == 10u8 {
        content
    } else {
        content.push(10u8);
        content
    }
}

} // verus!
