//! Per-crate Nix flake generation: `flake.nix` and `package.nix` for a
//! Rust crate, in the simple `buildRustPackage` style or the crate2nix
//! style.
use vstd::prelude::*;
use crate::path::{first_existing, join_path, path_join, pick_existing, upward_candidates, upward_paths};
use crate::text::{
    cat, cat3, cat5, join, join_strings, owned, push_line, push_str, str_eq, strip_trailing,
    trim_end_matches, views,
};

verus! {

broadcast use vstd::string::group_string_axioms;

/// `.cargo/config.toml` content that redirects crates.io to the nora
/// registry.
pub const NORA_CARGO_CONFIG: &'static str = "[source.crates-io]
replace-with = \"nora\"

[source.nora]
registry = \"http://127.0.0.1:4000/cargo/index\"
";

/// The style of `flake.nix` to generate.
#[derive(PartialEq, Eq, Structural, Clone, Copy, Debug)]
pub enum FlakeStyle {
    /// `buildRustPackage` with `cargoLock.lockFile`; source from a local
    /// directory or a git mirror.
    Simple,
    /// crate2nix pattern using nix-common; source from a git mirror.
    Crate2Nix,
}

impl FlakeStyle {
    /// `Crate2Nix` for `Some("crate2nix")`, `Simple` otherwise.
    pub fn from_str(s: Option<&str>) -> (r: FlakeStyle)
        ensures
            r == (match s {
                Some(t) => if t@ == "crate2nix"@ {
                    FlakeStyle::Crate2Nix
                } else {
                    FlakeStyle::Simple
                },
                None => FlakeStyle::Simple,
            }),
    {
        match s {
            Some(t) => if str_eq(t, "crate2nix") {
                FlakeStyle::Crate2Nix
            } else {
                FlakeStyle::Simple
            },
            None => FlakeStyle::Simple,
        }
    }

    /// The style's name: `simple` or `crate2nix`.
    pub fn to_string(&self) -> (r: String)
        ensures
            r@ == (match self {
                FlakeStyle::Simple => "simple"@,
                FlakeStyle::Crate2Nix => "crate2nix"@,
            }),
    {
        match self {
            FlakeStyle::Simple => owned("simple"),
            FlakeStyle::Crate2Nix => owned("crate2nix"),
        }
    }
}

/// Where the crate source comes from.
pub enum FlakeSource {
    /// A local directory (`src = ./.;`).
    LocalDir,
    /// A bare git mirror.
    GitMirror {
        /// Absolute path of the bare mirror
        mirror_path: String,
        /// Display name of the mirror
        display: String,
    },
}

impl FlakeSource {
    /// A copy of this source.
    pub fn duplicate(&self) -> (r: FlakeSource)
        ensures
            r == *self,
    {
        match self {
            FlakeSource::LocalDir => FlakeSource::LocalDir,
            FlakeSource::GitMirror { mirror_path, display } => FlakeSource::GitMirror {
                mirror_path: mirror_path.clone(),
                display: display.clone(),
            },
        }
    }
}

/// The lines of `package.nix`.
pub open spec fn package_nix_lines(
    name: Seq<char>,
    version: Seq<char>,
    has_lock: bool,
    vendor_dir: Option<Seq<char>>,
    workspace_lock: Option<Seq<char>>,
    nora: bool,
) -> Seq<Seq<char>> {
    let head = seq![
        "{ pkgs, lib, ... }:"@,
        Seq::<char>::empty(),
        "pkgs.rustPlatform.buildRustPackage {"@,
        "  pname = \""@ + name + "\";"@,
        "  version = \""@ + version + "\";"@,
        "  src = ./.;"@,
    ];
    let lock = seq!["  cargoLock.lockFile = ./Cargo.lock;"@];
    let body = if nora {
        (if has_lock {
            lock
        } else {
            match workspace_lock {
                Some(wl) => lock.push("  # (workspace lock originally at: "@ + wl + ")"@),
                None => Seq::empty(),
            }
        }).push("  doCheck = false;"@)
    } else {
        match vendor_dir {
            Some(v) => seq![
                "  cargoVendorDir = ./"@ + v + ";"@,
                "  # vendorHash = \"\";  # set after first build"@,
            ],
            None => if has_lock {
                lock
            } else {
                match workspace_lock {
                    Some(wl) => lock.push("  # (workspace lock originally at: "@ + wl + ")"@),
                    None => seq!["  # cargoLock.lockFile = ./Cargo.lock;  # add once Cargo.lock exists"@],
                }
            },
        }
    };
    head + body + seq!["}"@]
}

/// Pushes the lock-file lines of `package.nix` for a crate with or
/// without its own lock and with or without a workspace lock.
fn push_lock_lines(lines: &mut Vec<String>, has_lock: bool, workspace_lock: Option<&str>, nothing: bool)
    ensures
        views(final(lines)@) == views(old(lines)@) + (if has_lock {
            seq!["  cargoLock.lockFile = ./Cargo.lock;"@]
        } else {
            match workspace_lock {
                Some(wl) => seq![
                    "  cargoLock.lockFile = ./Cargo.lock;"@,
                    "  # (workspace lock originally at: "@ + wl@ + ")"@,
                ],
                None => if nothing {
                    Seq::empty()
                } else {
                    seq!["  # cargoLock.lockFile = ./Cargo.lock;  # add once Cargo.lock exists"@]
                },
            }
        }),
{
    let ghost before = views(lines@);
    if has_lock {
        push_line(lines, owned("  cargoLock.lockFile = ./Cargo.lock;"));
    } else {
        match workspace_lock {
            Some(wl) => {
                push_line(lines, owned("  cargoLock.lockFile = ./Cargo.lock;"));
                push_line(lines, cat3("  # (workspace lock originally at: ", wl, ")"));
            },
            None => {
                if !nothing {
                    push_line(
                        lines,
                        owned("  # cargoLock.lockFile = ./Cargo.lock;  # add once Cargo.lock exists"),
                    );
                }
            },
        }
    }
    assert(views(lines@) =~= before + (if has_lock {
        seq!["  cargoLock.lockFile = ./Cargo.lock;"@]
    } else {
        match workspace_lock {
            Some(wl) => seq![
                "  cargoLock.lockFile = ./Cargo.lock;"@,
                "  # (workspace lock originally at: "@ + wl@ + ")"@,
            ],
            None => if nothing {
                Seq::empty()
            } else {
                seq!["  # cargoLock.lockFile = ./Cargo.lock;  # add once Cargo.lock exists"@]
            },
        }
    }));
}

/// Renders `package.nix`, the `buildRustPackage` derivation that the simple
/// flake calls.
pub fn render_package_nix(
    crate_name: &str,
    crate_version: &str,
    has_lock: bool,
    vendor_dir: Option<&str>,
    workspace_lock: Option<&str>,
    nora: bool,
) -> (r: String)
    ensures
        r@ == join(
            package_nix_lines(
                crate_name@,
                crate_version@,
                has_lock,
                vendor_dir.deep_view(),
                workspace_lock.deep_view(),
                nora,
            ),
            "\n"@,
        ),
{
    let mut lines: Vec<String> = Vec::new();
    push_line(&mut lines, owned("{ pkgs, lib, ... }:"));
    push_line(&mut lines, String::new());
    push_line(&mut lines, owned("pkgs.rustPlatform.buildRustPackage {"));
    push_line(&mut lines, cat3("  pname = \"", crate_name, "\";"));
    push_line(&mut lines, cat3("  version = \"", crate_version, "\";"));
    push_line(&mut lines, owned("  src = ./.;"));
    let ghost head = views(lines@);
    if nora {
        push_lock_lines(&mut lines, has_lock, workspace_lock, true);
        push_line(&mut lines, owned("  doCheck = false;"));
    } else {
        match vendor_dir {
            Some(vendor) => {
                push_line(&mut lines, cat3("  cargoVendorDir = ./", vendor, ";"));
                push_line(&mut lines, owned("  # vendorHash = \"\";  # set after first build"));
            },
            None => {
                push_lock_lines(&mut lines, has_lock, workspace_lock, false);
            },
        }
    }
    push_line(&mut lines, owned("}"));
    assert(views(lines@) =~= package_nix_lines(
        crate_name@,
        crate_version@,
        has_lock,
        vendor_dir.deep_view(),
        workspace_lock.deep_view(),
        nora,
    ));
    proof {
        reveal_strlit("\n");
    }
    join_strings(&lines, "\n")
}


/// Header of a simple `flake.nix`, up to the crate name.
pub const SIMPLE_HEAD: &'static str = "# THIS FILE IS AUTO-GENERATED by cargo-vendormod
# DO NOT EDIT MANUALLY — regenerate with:
#   cargo-vendormod process crates --generate-flakes
#
# Crate: ";

/// Between the version and the extra inputs of a simple `flake.nix`.
pub const SIMPLE_INPUTS: &'static str = "\";

  inputs = {
    nixpkgs.url = \"github:NixOS/nixpkgs/nixpkgs-unstable\";
    flake-utils.url = \"github:numtide/flake-utils\";
";

/// Between the extra inputs and the output parameters of a simple
/// `flake.nix`.
pub const SIMPLE_OUTPUTS: &'static str = "  };

  outputs =
    ";

/// Between the output parameters and the source reference.
pub const SIMPLE_LET: &'static str = ":
    flake-utils.lib.eachDefaultSystem (
      system:
      let
        pkgs = import nixpkgs { inherit system; };
        real_src = ";

/// Between the source reference and the crate-named package.
pub const SIMPLE_PACKAGES: &'static str = ";
      in
      {
        packages = {
          default = pkgs.callPackage ./package.nix { src = real_src; };
          ";

/// Tail of a simple `flake.nix`.
pub const SIMPLE_TAIL: &'static str = " = self.packages.${system}.default;
        };

        devShells.default = pkgs.mkShell {
          buildInputs = with pkgs; [
            rustc
            cargo
            clippy
            rustfmt
          ];
        };

        # Verification: nix flake check
        checks.default = self.packages.${system}.default;
      }
    );
}
";

/// The concatenation of `parts`.
pub open spec fn concat(parts: Seq<Seq<char>>) -> Seq<char> {
    join(parts, Seq::empty())
}

/// The `src` input that a git mirror source adds.
pub open spec fn mirror_input(mirror: Seq<char>) -> Seq<char> {
    "    src = {\n      url = \"git+file://"@ + mirror + "\";\n      flake = false;\n    };\n"@
}

/// The pieces of a simple `flake.nix`.
pub open spec fn simple_flake_parts(name: Seq<char>, version: Seq<char>, source: FlakeSource) -> Seq<
    Seq<char>,
> {
    let (src_input, params, src_ref) = match source {
        FlakeSource::LocalDir => (Seq::<char>::empty(), "{ self, nixpkgs, flake-utils }"@, "./."@),
        FlakeSource::GitMirror { mirror_path, display } => (
            mirror_input(mirror_path@),
            "{ self, nixpkgs, flake-utils, src }"@,
            "src"@,
        ),
    };
    seq![
        SIMPLE_HEAD@,
        name,
        "\n# Version: "@,
        version,
        "\n\n{\n  description = \""@,
        name,
        " - "@,
        version,
        SIMPLE_INPUTS@,
        src_input,
        SIMPLE_OUTPUTS@,
        params,
        SIMPLE_LET@,
        src_ref,
        SIMPLE_PACKAGES@,
        name,
        SIMPLE_TAIL@,
    ]
}

/// Renders a simple `flake.nix`: a multi-system wrapper around
/// `package.nix`, with a `src` input when the source is a git mirror.
pub fn render_flake_nix_simple(crate_name: &str, crate_version: &str, source: &FlakeSource) -> (r:
    String)
    ensures
        r@ == concat(simple_flake_parts(crate_name@, crate_version@, *source)),
{
    let (src_input, params, src_ref) = match source {
        FlakeSource::LocalDir => (String::new(), owned("{ self, nixpkgs, flake-utils }"), owned("./.")),
        FlakeSource::GitMirror { mirror_path, display: _ } => (
            cat3(
                "    src = {\n      url = \"git+file://",
                mirror_path.as_str(),
                "\";\n      flake = false;\n    };\n",
            ),
            owned("{ self, nixpkgs, flake-utils, src }"),
            owned("src"),
        ),
    };
    let mut parts: Vec<String> = Vec::new();
    push_line(&mut parts, owned(SIMPLE_HEAD));
    push_line(&mut parts, owned(crate_name));
    push_line(&mut parts, owned("\n# Version: "));
    push_line(&mut parts, owned(crate_version));
    push_line(&mut parts, owned("\n\n{\n  description = \""));
    push_line(&mut parts, owned(crate_name));
    push_line(&mut parts, owned(" - "));
    push_line(&mut parts, owned(crate_version));
    push_line(&mut parts, owned(SIMPLE_INPUTS));
    push_line(&mut parts, src_input);
    push_line(&mut parts, owned(SIMPLE_OUTPUTS));
    push_line(&mut parts, params);
    push_line(&mut parts, owned(SIMPLE_LET));
    push_line(&mut parts, src_ref);
    push_line(&mut parts, owned(SIMPLE_PACKAGES));
    push_line(&mut parts, owned(crate_name));
    push_line(&mut parts, owned(SIMPLE_TAIL));
    assert(views(parts@) =~= simple_flake_parts(crate_name@, crate_version@, *source));
    proof {
        reveal_strlit("");
        assert(""@ =~= Seq::<char>::empty());
    }
    join_strings(&parts, "")
}

/// Header of a crate2nix `flake.nix`, up to the crate name.
pub const C2N_HEAD: &'static str = "# THIS FILE IS AUTO-GENERATED by cargo-vendormod
# DO NOT EDIT MANUALLY — regenerate with:
#   cargo-vendormod process crates --generate-flakes --style crate2nix
#
# Crate: ";

/// Between the description and the nix-common path.
pub const C2N_INPUTS: &'static str = " — crate2nix build from local git mirror\";

  inputs = {
    nixpkgs.url = \"github:NixOS/nixpkgs/nixos-unstable\";
    flake-utils.url = \"github:numtide/flake-utils\";
    rust-overlay = {
      url = \"github:oxalica/rust-overlay\";
      inputs.nixpkgs.follows = \"nixpkgs\";
    };
    nix-common = {
      url = \"path:";

/// Between the nix-common path and the mirror path.
pub const C2N_SRC: &'static str = "\";
      inputs.nixpkgs.follows = \"nixpkgs\";
    };
    src = {
      url = \"git+file://";

/// Between the mirror path and the crate name in `generatedCargoNix`.
pub const C2N_OUTPUTS: &'static str = "\";
      flake = false;
    };
  };

  outputs = { self, nixpkgs, flake-utils, rust-overlay, nix-common, src }:
    flake-utils.lib.eachDefaultSystem (system:
      let
        pkgs = import nixpkgs {
          inherit system;
          overlays = [ (import rust-overlay) ];
        };

        crate2nix = nix-common.crate2nix;
        tools = import \"${crate2nix}/tools.nix\" { inherit pkgs; };
        rustToolchain = pkgs.rust-bin.nightly.latest.default;

        cargoNix = import (tools.generatedCargoNix {
          name = \"";

/// Between the crate name in `generatedCargoNix` and the package name.
pub const C2N_PACKAGES: &'static str = "\";
          inherit src;
          cargo = rustToolchain;
        }) {
          inherit pkgs;
          buildRustCrateForPkgs = p:
            p.buildRustCrate.override {
              rustc = rustToolchain;
              defaultCrateOverrides = p.defaultCrateOverrides // {};
            };
        };

      in {
        packages = {
          default = cargoNix.rootCrate.build;
          ";

/// Tail of a crate2nix `flake.nix`.
pub const C2N_TAIL: &'static str = " = cargoNix.rootCrate.build;
        };

        devShells.default = pkgs.mkShell {
          packages = [ rustToolchain ];
        };
      });
}
";

/// The pieces of a crate2nix `flake.nix`.
pub open spec fn crate2nix_flake_parts(
    name: Seq<char>,
    version: Seq<char>,
    nix_common: Seq<char>,
    mirror_path: Seq<char>,
    mirror_display: Seq<char>,
) -> Seq<Seq<char>> {
    seq![
        C2N_HEAD@,
        name,
        "\n# Version: "@,
        version,
        "\n# Source: "@,
        trim_end_matches(mirror_display, ".git"@),
        "\n\n{\n  description = \""@,
        name,
        C2N_INPUTS@,
        nix_common,
        C2N_SRC@,
        mirror_path,
        C2N_OUTPUTS@,
        name,
        C2N_PACKAGES@,
        name,
        C2N_TAIL@,
    ]
}

/// Renders a crate2nix `flake.nix` that builds from a local git mirror
/// with the nix-common crate2nix tools.
pub fn render_flake_nix_crate2nix(
    crate_name: &str,
    crate_version: &str,
    nix_common: &str,
    mirror_path: &str,
    mirror_display: &str,
) -> (r: String)
    ensures
        r@ == concat(
            crate2nix_flake_parts(crate_name@, crate_version@, nix_common@, mirror_path@, mirror_display@),
        ),
{
    let display_name = strip_trailing(mirror_display, ".git");
    let mut parts: Vec<String> = Vec::new();
    push_line(&mut parts, owned(C2N_HEAD));
    push_line(&mut parts, owned(crate_name));
    push_line(&mut parts, owned("\n# Version: "));
    push_line(&mut parts, owned(crate_version));
    push_line(&mut parts, owned("\n# Source: "));
    push_line(&mut parts, display_name);
    push_line(&mut parts, owned("\n\n{\n  description = \""));
    push_line(&mut parts, owned(crate_name));
    push_line(&mut parts, owned(C2N_INPUTS));
    push_line(&mut parts, owned(nix_common));
    push_line(&mut parts, owned(C2N_SRC));
    push_line(&mut parts, owned(mirror_path));
    push_line(&mut parts, owned(C2N_OUTPUTS));
    push_line(&mut parts, owned(crate_name));
    push_line(&mut parts, owned(C2N_PACKAGES));
    push_line(&mut parts, owned(crate_name));
    push_line(&mut parts, owned(C2N_TAIL));
    assert(views(parts@) =~= crate2nix_flake_parts(
        crate_name@,
        crate_version@,
        nix_common@,
        mirror_path@,
        mirror_display@,
    ));
    proof {
        reveal_strlit("");
        assert(""@ =~= Seq::<char>::empty());
    }
    join_strings(&parts, "")
}


/// The `[package]` values of a `Cargo.toml` that flake generation reads.
pub struct CargoPackage {
    pub name: Option<String>,
    /// `None` also when the version is inherited from the workspace.
    pub version: Option<String>,
}

/// Where `Cargo.lock` comes from when building against nora.
#[derive(Debug)]
pub enum LockSource {
    /// The crate's own `Cargo.lock`.
    CrateLock,
    /// A workspace `Cargo.lock` found above the crate.
    WorkspaceLock(String),
    /// None found: generate one with `cargo generate-lockfile` in the
    /// crate directory, then use the crate's `Cargo.lock`.
    Generate,
}

/// Why a flake cannot be generated.
#[derive(Debug)]
pub enum FlakeError {
    /// The manifest has no `[package]` section (a virtual workspace); holds
    /// the manifest path.
    VirtualManifest(String),
    /// The crate2nix style needs the nix-common path.
    MissingNixCommon,
    /// The crate2nix style needs a git mirror source.
    NeedsGitMirror,
}

/// Files to write for one crate's flake.
pub struct FlakePlan {
    /// `<output_dir>/flakes/<crate name>`, to be created.
    pub flake_dir: String,
    /// Files to write, `(path, content)`, in order.
    pub files: Vec<(String, String)>,
    /// With nora: where the `Cargo.lock` copied into the flake directory
    /// comes from (copied when it exists).
    pub nora_lock: Option<LockSource>,
    /// With nora: `(directory, file)` of the `.cargo/config.toml` that
    /// redirects to nora, whose content is `NORA_CARGO_CONFIG`.
    pub nora_cargo_config: Option<(String, String)>,
    /// The number of flake files written (what generation reports).
    pub file_count: usize,
}

/// The crate name used for the flake (`crate` when the manifest has none).
pub open spec fn flake_crate_name(pkg: CargoPackage) -> Seq<char> {
    match pkg.name {
        Some(n) => n@,
        None => "crate"@,
    }
}

/// The crate version used for the flake (`0.0.0` when the manifest has
/// none).
pub open spec fn flake_crate_version(pkg: CargoPackage) -> Seq<char> {
    match pkg.version {
        Some(v) => v@,
        None => "0.0.0"@,
    }
}

/// What generating a flake gives for a crate directory, an output
/// directory and the crate's manifest and lock situation.
pub open spec fn flake_outcome(
    crate_dir: Seq<char>,
    output_dir: Seq<char>,
    package: Option<CargoPackage>,
    has_lock: bool,
    workspace_lock: Option<Seq<char>>,
    vendor_dir: Option<Seq<char>>,
    style: FlakeStyle,
    nix_common: Option<Seq<char>>,
    source: FlakeSource,
    nora: bool,
    r: Result<FlakePlan, FlakeError>,
) -> bool {
        &&& package is None ==> (r matches Err(FlakeError::VirtualManifest(m)) && m@ == join_path(
            crate_dir,
            "Cargo.toml"@,
        ))
        &&& package matches Some(pkg) ==> {
            let name = flake_crate_name(pkg);
            let version = flake_crate_version(pkg);
            let dir = join_path(join_path(output_dir, "flakes"@), name);
            match style {
                FlakeStyle::Simple => r matches Ok(plan) && plan.flake_dir@ == dir && plan.file_count
                    == 2 && plan.files.deep_view() == seq![
                    (
                        join_path(dir, "package.nix"@),
                        join(
                            package_nix_lines(
                                name,
                                version,
                                has_lock,
                                vendor_dir,
                                (if has_lock { None } else { workspace_lock }),
                                nora,
                            ),
                            "\n"@,
                        ),
                    ),
                    (join_path(dir, "flake.nix"@), concat(simple_flake_parts(name, version, source))),
                ] && (if nora {
                    &&& plan.nora_lock matches Some(l)
                    &&& lock_chosen(l, has_lock, workspace_lock)
                    &&& plan.nora_cargo_config.deep_view() == Some(
                        (
                            join_path(output_dir, ".cargo"@),
                            join_path(join_path(output_dir, ".cargo"@), "config.toml"@),
                        ),
                    )
                } else {
                    plan.nora_lock is None && plan.nora_cargo_config is None
                }),
                FlakeStyle::Crate2Nix => match nix_common {
                    None => r == Err::<FlakePlan, FlakeError>(FlakeError::MissingNixCommon),
                    Some(nc) => match source {
                        FlakeSource::LocalDir => r == Err::<FlakePlan, FlakeError>(
                            FlakeError::NeedsGitMirror,
                        ),
                        FlakeSource::GitMirror { mirror_path, display } => r matches Ok(plan)
                            && plan.flake_dir@ == dir && plan.file_count == 1
                            && plan.files.deep_view() == seq![
                            (
                                join_path(dir, "flake.nix"@),
                                concat(crate2nix_flake_parts(name, version, nc, mirror_path@, display@)),
                            ),
                        ] && plan.nora_lock is None && plan.nora_cargo_config is None,
                    },
                },
            }
        }
}

/// Plans the generation of `flake.nix` (and, for the simple style,
/// `package.nix`) for the crate in `crate_dir`.
///
/// `package` holds the `[package]` section of its `Cargo.toml` (`None` for a
/// virtual manifest), `has_lock` tells whether the crate directory holds a
/// `Cargo.lock`, and `workspace_lock` is the nearest `Cargo.lock` above it
/// (looked for only when it has none).
pub fn generate_flake(
    crate_dir: &str,
    output_dir: &str,
    package: Option<CargoPackage>,
    has_lock: bool,
    workspace_lock: Option<&str>,
    vendor_dir: Option<&str>,
    style: FlakeStyle,
    nix_common: Option<&str>,
    source: &FlakeSource,
    nora: bool,
) -> (r: Result<FlakePlan, FlakeError>)
    ensures
        flake_outcome(
            crate_dir@,
            output_dir@,
            package,
            has_lock,
            workspace_lock.deep_view(),
            vendor_dir.deep_view(),
            style,
            nix_common.deep_view(),
            *source,
            nora,
            r,
        ),
{
    let pkg = match package {
        Some(p) => p,
        None => {
            return Err(FlakeError::VirtualManifest(path_join(crate_dir, "Cargo.toml")));
        },
    };
    let crate_name = match &pkg.name {
        Some(n) => n.clone(),
        None => owned("crate"),
    };
    let crate_version = match &pkg.version {
        Some(v) => v.clone(),
        None => owned("0.0.0"),
    };
    let flakes = path_join(output_dir, "flakes");
    let flake_dir = path_join(flakes.as_str(), crate_name.as_str());
    let ws_lock = if has_lock {
        None
    } else {
        workspace_lock
    };
    match style {
        FlakeStyle::Simple => {
            let package_nix = render_package_nix(
                crate_name.as_str(),
                crate_version.as_str(),
                has_lock,
                vendor_dir,
                ws_lock,
                nora,
            );
            let flake_nix = render_flake_nix_simple(crate_name.as_str(), crate_version.as_str(), source);
            let mut files: Vec<(String, String)> = Vec::new();
            files.push((path_join(flake_dir.as_str(), "package.nix"), package_nix));
            files.push((path_join(flake_dir.as_str(), "flake.nix"), flake_nix));
            let (nora_lock, nora_cargo_config) = if nora {
                let lock = if has_lock {
                    LockSource::CrateLock
                } else {
                    match workspace_lock {
                        Some(wl) => LockSource::WorkspaceLock(owned(wl)),
                        None => LockSource::Generate,
                    }
                };
                let cargo_dir = path_join(output_dir, ".cargo");
                let config = path_join(cargo_dir.as_str(), "config.toml");
                (Some(lock), Some((cargo_dir, config)))
            } else {
                (None, None)
            };
            let plan = FlakePlan { flake_dir, files, nora_lock, nora_cargo_config, file_count: 2 };
            assert(plan.files.deep_view() =~= seq![
                (plan.files@[0].0@, plan.files@[0].1@),
                (plan.files@[1].0@, plan.files@[1].1@),
            ]);
            Ok(plan)
        },
        FlakeStyle::Crate2Nix => {
            let nc = match nix_common {
                Some(nc) => nc,
                None => {
                    return Err(FlakeError::MissingNixCommon);
                },
            };
            match source {
                FlakeSource::GitMirror { mirror_path, display } => {
                    let flake_nix = render_flake_nix_crate2nix(
                        crate_name.as_str(),
                        crate_version.as_str(),
                        nc,
                        mirror_path.as_str(),
                        display.as_str(),
                    );
                    let mut files: Vec<(String, String)> = Vec::new();
                    files.push((path_join(flake_dir.as_str(), "flake.nix"), flake_nix));
                    let plan = FlakePlan {
                        flake_dir,
                        files,
                        nora_lock: None,
                        nora_cargo_config: None,
                        file_count: 1,
                    };
                    assert(plan.files.deep_view() =~= seq![(plan.files@[0].0@, plan.files@[0].1@)]);
                    Ok(plan)
                },
                FlakeSource::LocalDir => Err(FlakeError::NeedsGitMirror),
            }
        },
    }
}

/// The lock source chosen for nora: the crate's own lock when it has one,
/// else the workspace lock found above it, else a generated one.
pub open spec fn lock_chosen(l: LockSource, has_lock: bool, workspace_lock: Option<Seq<char>>) -> bool {
    match l {
        LockSource::CrateLock => has_lock,
        LockSource::WorkspaceLock(p) => !has_lock && workspace_lock == Some(p@),
        LockSource::Generate => !has_lock && workspace_lock is None,
    }
}

/// Searches upward from `crate_dir` for the nearest `Cargo.lock`.
///
/// `exists[i]` tells whether the `i`-th path of
/// `upward_paths(crate_dir, "Cargo.lock")` exists; the first that does is
/// returned.
pub fn find_cargo_lock(crate_dir: &str, exists: &Vec<bool>) -> (r: Option<String>)
    ensures
        r.deep_view() == first_existing(upward_candidates(crate_dir@, "Cargo.lock"@), exists@),
{
    let candidates = upward_paths(crate_dir, "Cargo.lock");
    pick_existing(&candidates, exists)
}

} // verus!
