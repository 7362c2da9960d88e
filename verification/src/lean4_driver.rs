//! The Lean 4 language driver: one flake per Lean declaration module.
//!
//! A Lean 4 project is recognised by its toolchain file, its lakefile, a
//! `Mathlib` directory, or `.lean` sources. Each `.lean` source becomes a
//! module (its relative path without `.lean`, `/` read as `.`) with a
//! directory of its own (the module name with `.` read as `_`) holding a
//! copy of the source and a flake built with lean4-nix.
use vstd::prelude::*;
use crate::path::{first_existing, join_path, path_file_name, path_join, file_name_of, pick_existing, upward_candidates, upward_paths};
use crate::text::{chars_of, ends_with, has_suffix, owned, replace, replace_all, string_of_range};

verus! {

/// The flake template of a declaration module; `MODULE_NAME` stands for
/// the module's name.
pub const LAKE4NIX_DEP_FLAKE: &'static str = "\n{\n  description = \"MODULE_NAME\";\n\n  inputs = {\n    nixpkgs.follows = \"lean4-nix/nixpkgs\";\n    flake-parts.url = \"github:hercules-ci/flake-parts\";\n    lean4-nix.url = \"github:lenianiva/lean4-nix\";\n  };\n\n  outputs = inputs @ { nixpkgs, flake-parts, lean4-nix, ... }:\n    flake-parts.lib.mkFlake { inherit inputs; } {\n      systems = [\n        \"aarch64-darwin\"\n        \"aarch64-linux\"\n        \"x86_64-darwin\"\n        \"x86_64-linux\"\n      ];\n\n      perSystem = { system, pkgs, ... }: let\n        lake2nix = pkgs.callPackage lean4-nix.lake {};\n      in {\n        _module.args.pkgs = import nixpkgs {\n          inherit system;\n          overlays = [(lean4-nix.readToolchainFile ./lean-toolchain)];\n        };\n\n        packages.default = lake2nix.mkPackage {\n          name = \"mathlib-module-MODULE_NAME\";\n          src = ./.;\n        };\n\n        devShells.default = pkgs.mkShell {\n          packages = with pkgs.lean; [lean-all];\n        };\n      };\n    };\n}\n";

/// The Lean 4 driver.
pub struct Lean4Driver;

impl Lean4Driver {
    /// The driver.
    pub fn new() -> (r: Self) {
        Lean4Driver
    }

    /// The driver's name.
    pub fn name(&self) -> (r: &'static str)
        ensures
            r@ == "lean4"@,
    {
        "lean4"
    }

    /// Whether a directory holds a Lean 4 project: it has a
    /// `lean-toolchain`, a `lakefile.lean` or `lakefile.toml`, a `Mathlib`
    /// directory, or `.lean` files within two levels.
    pub fn detect(
        &self,
        has_toolchain: bool,
        has_lakefile_lean: bool,
        has_lakefile_toml: bool,
        has_mathlib: bool,
        has_lean_sources: bool,
    ) -> (r: bool)
        ensures
            r == (has_toolchain || has_lakefile_lean || has_lakefile_toml || has_mathlib || has_lean_sources),
    {
        has_toolchain || has_lakefile_lean || has_lakefile_toml || has_mathlib || has_lean_sources
    }

    /// The flake of the declaration module `decl_name`.
    pub fn decl_flake(&self, decl_name: &str) -> (r: String)
        ensures
            r@ == decl_flake_text(decl_name@),
    {
        proof {
            reveal_strlit(".");
            reveal_strlit("MODULE_NAME");
            reveal_strlit("mathlib-module-");
        }
        let flake_name = replace_all(decl_name, ".", "_");
        let with_name = replace_all(LAKE4NIX_DEP_FLAKE, "MODULE_NAME", decl_name);
        let mut tag = owned("mathlib-module-");
        tag.append(flake_name.as_str());
        replace_all(with_name.as_str(), "mathlib-module-", tag.as_str())
    }
}

/// The flake text of a declaration module: the template with the module's
/// name filled in and its package named after the module with `.` read as
/// `_`.
pub open spec fn decl_flake_text(decl: Seq<char>) -> Seq<char> {
    replace(
        replace(LAKE4NIX_DEP_FLAKE@, "MODULE_NAME"@, decl),
        "mathlib-module-"@,
        "mathlib-module-"@ + replace(decl, "."@, "_"@),
    )
}

/// `s` without one trailing `.lean`.
pub open spec fn without_lean_ext(s: Seq<char>) -> Seq<char> {
    if ends_with(s, ".lean"@) {
        s.take(s.len() - 5)
    } else {
        s
    }
}

fn strip_lean_ext(s: &str) -> (r: String)
    ensures
        r@ == without_lean_ext(s@),
{
    proof {
        reveal_strlit(".lean");
    }
    let v = chars_of(s);
    if has_suffix(s, ".lean") {
        string_of_range(&v, 0, v.len() - 5)
    } else {
        owned(s)
    }
}

/// Where one `.lean` source goes.
pub struct DeclPlan {
    /// The module name: the relative path without `.lean`, `/` read as `.`.
    pub module_name: String,
    /// `<output>/flakes/<module name with _ for .>`.
    pub decl_dir: String,
    /// Where the source is copied: `<decl_dir>/<stem>.lean`.
    pub source_copy: String,
    /// `(path, content)` of the module's flake.
    pub flake: (String, String),
}

/// Plans the split of one `.lean` source, given its path relative to the
/// source directory.
pub fn plan_decl(driver: &Lean4Driver, output_dir: &str, rel: &str) -> (r: DeclPlan)
    ensures
        r.module_name@ == replace(without_lean_ext(rel@), "/"@, "."@),
        r.decl_dir@ == join_path(join_path(output_dir@, "flakes"@), replace(r.module_name@, "."@, "_"@)),
        r.source_copy@ == join_path(
            r.decl_dir@,
            match path_file_name(rel@) {
                Some(f) => without_lean_ext(f),
                None => "unknown"@,
            } + ".lean"@,
        ),
        r.flake.0@ == join_path(r.decl_dir@, "flake.nix"@),
        r.flake.1@ == decl_flake_text(r.module_name@),
{
    proof {
        reveal_strlit("/");
        reveal_strlit(".");
    }
    let module_name = replace_all(strip_lean_ext(rel).as_str(), "/", ".");
    let flakes = path_join(output_dir, "flakes");
    let decl_dir = path_join(flakes.as_str(), replace_all(module_name.as_str(), ".", "_").as_str());
    let mut stem = match file_name_of(rel) {
        Some(f) => strip_lean_ext(f.as_str()),
        None => owned("unknown"),
    };
    stem.append(".lean");
    let source_copy = path_join(decl_dir.as_str(), stem.as_str());
    let flake_path = path_join(decl_dir.as_str(), "flake.nix");
    let content = driver.decl_flake(module_name.as_str());
    DeclPlan { module_name, decl_dir, source_copy, flake: (flake_path, content) }
}

/// Searches upward from `start` for `target`; `exists[i]` tells whether
/// the `i`-th path of `upward_paths(start, target)` exists.
pub fn find_ancestor(start: &str, target: &str, exists: &Vec<bool>) -> (r: Option<String>)
    ensures
        r.deep_view() == first_existing(upward_candidates(start@, target@), exists@),
{
    let candidates = upward_paths(start, target);
    pick_existing(&candidates, exists)
}

} // verus!
