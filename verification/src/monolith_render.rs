//! The files of a split workspace: each sub-crate's `Cargo.toml` and
//! `lib.rs`, the workspace manifest, the workspace flake and the split
//! README; and the plan suggested for a monolith from its `src/` listing.
use vstd::prelude::*;
use crate::monolith_split::{
    group_modules_by_prefix, group_names, in_group, insert_sorted, module_group, CrateDef, SplitContext, SplitPlan,
    WorkspaceMeta,
};
use crate::order::{first_above, lemma_first_above_bound, lemma_stable_order_len, stable_order, str_less, strictly_sorted};
use crate::text::{
    cat, cat3, cat5, concat, decimal, decimal_string, ends_with, join, join_strings, owned, push_line, push_str, replace,
    replace_all, str_eq, views,
};

verus! {

broadcast use vstd::string::group_string_axioms;

/// Lines written one after the other, each ended by a newline.
pub open spec fn text_of(lines: Seq<Seq<char>>) -> Seq<char> {
    join(lines, "\n"@) + "\n"@
}

fn text_from(lines: &Vec<String>) -> (r: String)
    ensures
        r@ == text_of(views(lines@)),
{
    let mut r = join_strings(lines, "\n");
    push_str(&mut r, "\n");
    r
}

/// `"x"` for each `x`, joined by `, `.
pub open spec fn quoted_list(xs: Seq<Seq<char>>) -> Seq<char> {
    join(xs.map_values(|x: Seq<char>| "\""@ + x + "\""@), ", "@)
}

fn quoted(xs: &Vec<String>) -> (r: String)
    ensures
        r@ == quoted_list(views(xs@)),
{
    let mut q: Vec<String> = Vec::new();
    let mut i: usize = 0;
    while i < xs.len()
        invariant
            i <= xs.len(),
            views(q@) == views(xs@).take(i as int).map_values(|x: Seq<char>| "\""@ + x + "\""@),
        decreases xs.len() - i,
    {
        push_line(&mut q, cat3("\"", xs[i].as_str(), "\""));
        assert(views(xs@).take(i + 1).map_values(|x: Seq<char>| "\""@ + x + "\""@) =~= views(xs@).take(i as int).map_values(
            |x: Seq<char>| "\""@ + x + "\""@,
        ).push("\""@ + xs@[i as int]@ + "\""@));
        i += 1;
    }
    assert(views(xs@).take(i as int) =~= views(xs@));
    join_strings(&q, ", ")
}

// ───────────────────────────── crate manifest ──────────────────────────

/// `key = "value"` when the value is not empty.
pub open spec fn optional_field(key: Seq<char>, v: Seq<char>) -> Seq<Seq<char>> {
    if v.len() > 0 {
        seq![key + " = \""@ + v + "\""@]
    } else {
        Seq::empty()
    }
}

/// The `[features]` lines.
pub open spec fn feature_lines(fs: Seq<(String, Vec<String>)>) -> Seq<Seq<char>>
    decreases fs.len(),
{
    if fs.len() == 0 {
        Seq::empty()
    } else {
        let f = fs.last();
        feature_lines(fs.drop_last()).push(if f.1@.len() == 0 {
            f.0@ + " = []"@
        } else {
            f.0@ + " = ["@ + quoted_list(views(f.1@)) + "]"@
        })
    }
}

/// The `[package]` section of a sub-crate's manifest.
pub open spec fn package_section(ws: WorkspaceMeta, c: CrateDef) -> Seq<Seq<char>> {
    seq![
        "[package]"@,
        "name = \""@ + c.name@ + "\""@,
        "version = \""@ + ws.version@ + "\""@,
        "edition = \""@ + ws.edition@ + "\""@,
    ] + optional_field("description"@, ws.description@) + optional_field("license"@, ws.license@) + optional_field(
        "repository"@,
        ws.repository@,
    ) + optional_field("readme"@, ws.readme@)
}

/// The `[lib]` section of a sub-crate's manifest: the crate name with
/// `_` for `-`.
pub open spec fn lib_section(c: CrateDef) -> Seq<Seq<char>> {
    seq![""@, "[lib]"@, "name = \""@ + replace(c.name@, "-"@, "_"@) + "\""@, "path = \"src/lib.rs\""@]
}

/// The lines of a sub-crate's `Cargo.toml`: package, library, features
/// when there are any, dependencies when there are any, and the lint that
/// forbids unsafe code.
pub open spec fn crate_toml_lines(ws: WorkspaceMeta, c: CrateDef) -> Seq<Seq<char>> {
    package_section(ws, c) + lib_section(c) + feature_section(c) + dependency_section(c) + seq![
        ""@,
        "[lints.rust]"@,
        "unsafe_code = \"forbid\""@,
    ]
}

fn push_optional(lines: &mut Vec<String>, key: &str, v: &String)
    ensures
        views(final(lines)@) == views(old(lines)@) + optional_field(key@, v@),
{
    if !v.as_str().is_empty() {
        push_line(lines, cat5(key, " = \"", v.as_str(), "\"", ""));
        proof {
            reveal_strlit("");
        }
        assert(views(lines@) =~= views(old(lines)@) + optional_field(key@, v@));
    } else {
        assert(views(lines@) =~= views(old(lines)@) + optional_field(key@, v@));
    }
}

/// The feature section of a sub-crate's manifest.
pub open spec fn feature_section(c: CrateDef) -> Seq<Seq<char>> {
    if c.features@.len() > 0 {
        seq![""@, "[features]"@] + feature_lines(c.features@)
    } else {
        Seq::empty()
    }
}

/// The dependency section of a sub-crate's manifest.
pub open spec fn dependency_section(c: CrateDef) -> Seq<Seq<char>> {
    if c.depends_on@.len() > 0 || c.external_deps@.len() > 0 || c.raw_deps@.len() > 0 {
        seq![""@, "[dependencies]"@] + views(c.depends_on@).map_values(
            |d: Seq<char>| d + " = { path = \"../"@ + d + "\" }"@,
        ) + c.external_deps@.map_values(|d: (String, String)| d.0@ + " = \""@ + d.1@ + "\""@) + views(c.raw_deps@)
    } else {
        Seq::empty()
    }
}

fn push_features(lines: &mut Vec<String>, c: &CrateDef)
    ensures
        views(final(lines)@) == views(old(lines)@) + feature_section(*c),
{
    let ghost start = views(lines@);
    if c.features.len() == 0 {
        assert(views(lines@) =~= start + feature_section(*c));
        return;
    }
    push_line(lines, owned(""));
    push_line(lines, owned("[features]"));
    let ghost head = views(lines@);
    proof {
        reveal_strlit("");
        assert(head =~= start + seq![""@, "[features]"@]);
    }
    let mut i: usize = 0;
    assert(c.features@.take(0) =~= Seq::<(String, Vec<String>)>::empty());
    assert(head + feature_lines(c.features@.take(0)) =~= head);
    while i < c.features.len()
        invariant
            i <= c.features.len(),
            views(lines@) == head + feature_lines(c.features@.take(i as int)),
        decreases c.features.len() - i,
    {
        let f = &c.features[i];
        let line = if f.1.len() == 0 {
            cat(f.0.as_str(), " = []")
        } else {
            let q = quoted(&f.1);
            cat5(f.0.as_str(), " = [", q.as_str(), "]", "")
        };
        proof {
            reveal_strlit("");
        }
        push_line(lines, line);
        assert(c.features@.take(i + 1).drop_last() =~= c.features@.take(i as int));
        assert(views(lines@) =~= head + feature_lines(c.features@.take(i + 1)));
        i += 1;
    }
    assert(c.features@.take(i as int) =~= c.features@);
    assert(views(lines@) =~= start + feature_section(*c));
}

fn push_dependencies(lines: &mut Vec<String>, c: &CrateDef)
    ensures
        views(final(lines)@) == views(old(lines)@) + dependency_section(*c),
{
    let ghost start = views(lines@);
    if !(c.depends_on.len() > 0 || c.external_deps.len() > 0 || c.raw_deps.len() > 0) {
        assert(views(lines@) =~= start + dependency_section(*c));
        return;
    }
    push_line(lines, owned(""));
    push_line(lines, owned("[dependencies]"));
    let ghost head = views(lines@);
    proof {
        reveal_strlit("");
        assert(head =~= start + seq![""@, "[dependencies]"@]);
    }
    let ghost internal = views(c.depends_on@).map_values(|d: Seq<char>| d + " = { path = \"../"@ + d + "\" }"@);
    let mut i: usize = 0;
    while i < c.depends_on.len()
        invariant
            i <= c.depends_on.len(),
            internal == views(c.depends_on@).map_values(|d: Seq<char>| d + " = { path = \"../"@ + d + "\" }"@),
            views(lines@) == head + internal.take(i as int),
        decreases c.depends_on.len() - i,
    {
        let d = c.depends_on[i].as_str();
        push_line(lines, cat5(d, " = { path = \"../", d, "\" }", ""));
        proof {
            reveal_strlit("");
        }
        assert(internal.take(i + 1) =~= internal.take(i as int).push(internal[i as int]));
        i += 1;
    }
    assert(internal.take(i as int) =~= internal);
    let ghost mid = views(lines@);
    let ghost external = c.external_deps@.map_values(|d: (String, String)| d.0@ + " = \""@ + d.1@ + "\""@);
    let mut j: usize = 0;
    while j < c.external_deps.len()
        invariant
            j <= c.external_deps.len(),
            external == c.external_deps@.map_values(|d: (String, String)| d.0@ + " = \""@ + d.1@ + "\""@),
            views(lines@) == mid + external.take(j as int),
        decreases c.external_deps.len() - j,
    {
        let d = &c.external_deps[j];
        push_line(lines, cat5(d.0.as_str(), " = \"", d.1.as_str(), "\"", ""));
        proof {
            reveal_strlit("");
        }
        assert(external.take(j + 1) =~= external.take(j as int).push(external[j as int]));
        j += 1;
    }
    assert(external.take(j as int) =~= external);
    let ghost mid2 = views(lines@);
    let mut k: usize = 0;
    while k < c.raw_deps.len()
        invariant
            k <= c.raw_deps.len(),
            views(lines@) == mid2 + views(c.raw_deps@).take(k as int),
        decreases c.raw_deps.len() - k,
    {
        push_line(lines, c.raw_deps[k].clone());
        assert(views(c.raw_deps@).take(k + 1) =~= views(c.raw_deps@).take(k as int).push(c.raw_deps@[k as int]@));
        k += 1;
    }
    assert(views(c.raw_deps@).take(k as int) =~= views(c.raw_deps@));
    assert(views(lines@) =~= start + dependency_section(*c));
}

fn push_package(lines: &mut Vec<String>, ws: &WorkspaceMeta, c: &CrateDef)
    ensures
        views(final(lines)@) == views(old(lines)@) + package_section(*ws, *c),
{
    let ghost start = views(lines@);
    push_line(lines, owned("[package]"));
    push_line(lines, cat3("name = \"", c.name.as_str(), "\""));
    push_line(lines, cat3("version = \"", ws.version.as_str(), "\""));
    push_line(lines, cat3("edition = \"", ws.edition.as_str(), "\""));
    let ghost a = views(lines@);
    push_optional(lines, "description", &ws.description);
    let ghost b = views(lines@);
    push_optional(lines, "license", &ws.license);
    let ghost cc = views(lines@);
    push_optional(lines, "repository", &ws.repository);
    let ghost d = views(lines@);
    push_optional(lines, "readme", &ws.readme);
    assert(views(lines@) =~= start + package_section(*ws, *c));
}

fn push_lib(lines: &mut Vec<String>, c: &CrateDef)
    ensures
        views(final(lines)@) == views(old(lines)@) + lib_section(*c),
{
    let ghost start = views(lines@);
    proof {
        reveal_strlit("-");
        reveal_strlit("");
    }
    push_line(lines, owned(""));
    push_line(lines, owned("[lib]"));
    let lib_name = replace_all(c.name.as_str(), "-", "_");
    push_line(lines, cat3("name = \"", lib_name.as_str(), "\""));
    push_line(lines, owned("path = \"src/lib.rs\""));
    assert(views(lines@) =~= start + lib_section(*c));
}

/// The sub-crate's `Cargo.toml` (`crate_toml_lines`).
pub fn generate_crate_toml(ctx: &SplitContext, crate_def: &CrateDef) -> (r: String)
    ensures
        r@ == text_of(crate_toml_lines(ctx.plan.workspace, *crate_def)),
{
    let mut lines: Vec<String> = Vec::new();
    push_package(&mut lines, &ctx.plan.workspace, crate_def);
    let ghost a = views(lines@);
    push_lib(&mut lines, crate_def);
    let ghost b = views(lines@);
    push_features(&mut lines, crate_def);
    let ghost c = views(lines@);
    push_dependencies(&mut lines, crate_def);
    let ghost d = views(lines@);
    proof {
        reveal_strlit("");
    }
    push_line(&mut lines, owned(""));
    push_line(&mut lines, owned("[lints.rust]"));
    push_line(&mut lines, owned("unsafe_code = \"forbid\""));
    assert(views(lines@) =~= d + seq![""@, "[lints.rust]"@, "unsafe_code = \"forbid\""@]);
    assert(a =~= package_section(ctx.plan.workspace, *crate_def));
    assert(views(lines@) =~= crate_toml_lines(ctx.plan.workspace, *crate_def));
    text_from(&lines)
}


// ───────────────────────────── lib.rs ──────────────────────────────────

/// A declaration per module: the feature-gated ones, then the file
/// modules, then the directory modules.
pub open spec fn module_decls(c: CrateDef) -> Seq<Seq<char>> {
    c.feature_gated@.map_values(
        |g: crate::monolith_split::FeatureGatedModule| "\n#[cfg(feature = \""@ + g.feature@ + "\")]\npub mod "@ + g.module@ + ";\n"@,
    ) + views(c.modules@).map_values(|m: Seq<char>| "\npub mod "@ + m + ";\n"@) + views(c.dir_modules@).map_values(
        |m: Seq<char>| "\npub mod "@ + m + ";\n"@,
    )
}

/// The sub-crate's `lib.rs`: a header naming the workspace, the lint that
/// forbids unsafe code, and its module declarations.
pub open spec fn lib_rs_text(ws: WorkspaceMeta, c: CrateDef) -> Seq<char> {
    "//! "@ + c.name@ + " \u{2014} Pi agent sub-crate\n//!\n//! Part of the "@ + ws.name@ + " workspace.\n\n"@
        + "#![forbid(unsafe_code)]\n"@ + concat(module_decls(c))
}

fn push_piece(r: &mut String, p: String, Ghost(parts): Ghost<Seq<Seq<char>>>, Ghost(head): Ghost<Seq<char>>)
    requires
        old(r)@ == head + concat(parts),
    ensures
        final(r)@ == head + concat(parts.push(p@)),
{
    push_str(r, p.as_str());
    assert(parts.push(p@).drop_last() =~= parts);
}

/// The sub-crate's `lib.rs` (`lib_rs_text`).
pub fn generate_lib_rs(ctx: &SplitContext, crate_def: &CrateDef) -> (r: String)
    ensures
        r@ == lib_rs_text(ctx.plan.workspace, *crate_def),
{
    let c = crate_def;
    let mut r = cat3("//! ", c.name.as_str(), " \u{2014} Pi agent sub-crate\n//!\n//! Part of the ");
    push_str(&mut r, ctx.plan.workspace.name.as_str());
    push_str(&mut r, " workspace.\n\n");
    push_str(&mut r, "#![forbid(unsafe_code)]\n");
    let ghost head = r@;
    let ghost decls = module_decls(*c);
    let ghost n1 = c.feature_gated@.len();
    let ghost n2 = c.modules@.len();
    assert(head + concat(decls.take(0)) =~= head);
    let mut i: usize = 0;
    while i < c.feature_gated.len()
        invariant
            i <= c.feature_gated.len(),
            decls == module_decls(*c),
            n1 == c.feature_gated@.len(),
            r@ == head + concat(decls.take(i as int)),
        decreases c.feature_gated.len() - i,
    {
        let g = &c.feature_gated[i];
        let mut p = cat3("\n#[cfg(feature = \"", g.feature.as_str(), "\")]\npub mod ");
        push_str(&mut p, g.module.as_str());
        push_str(&mut p, ";\n");
        assert(decls.take(i + 1) =~= decls.take(i as int).push(p@));
        push_piece(&mut r, p, Ghost(decls.take(i as int)), Ghost(head));
        i += 1;
    }
    let mut j: usize = 0;
    while j < c.modules.len()
        invariant
            j <= c.modules.len(),
            decls == module_decls(*c),
            n1 == c.feature_gated@.len(),
            n2 == c.modules@.len(),
            r@ == head + concat(decls.take(n1 + j)),
        decreases c.modules.len() - j,
    {
        let p = cat3("\npub mod ", c.modules[j].as_str(), ";\n");
        assert(decls.take(n1 + j + 1) =~= decls.take(n1 + j).push(p@));
        push_piece(&mut r, p, Ghost(decls.take(n1 + j)), Ghost(head));
        j += 1;
    }
    let mut k: usize = 0;
    while k < c.dir_modules.len()
        invariant
            k <= c.dir_modules.len(),
            decls == module_decls(*c),
            n1 == c.feature_gated@.len(),
            n2 == c.modules@.len(),
            r@ == head + concat(decls.take(n1 + n2 + k)),
        decreases c.dir_modules.len() - k,
    {
        let p = cat3("\npub mod ", c.dir_modules[k].as_str(), ";\n");
        assert(decls.take(n1 + n2 + k + 1) =~= decls.take(n1 + n2 + k).push(p@));
        push_piece(&mut r, p, Ghost(decls.take(n1 + n2 + k)), Ghost(head));
        k += 1;
    }
    assert(decls.take(n1 + n2 + k) =~= decls);
    r
}

// ───────────────────────────── workspace manifest ──────────────────────

/// The shared settings of the workspace manifest.
pub open spec fn workspace_settings(ws: WorkspaceMeta) -> Seq<Seq<char>> {
    seq![
        "    \".\","@,
        "]"@,
        ""@,
        "[workspace.package]"@,
        "version = \""@ + ws.version@ + "\""@,
        "edition = \""@ + ws.edition@ + "\""@,
        ""@,
        "[workspace.lints.rust]"@,
        "unsafe_code = \"forbid\""@,
        ""@,
    ]
}

/// The root crate of the workspace manifest, with its binary and library
/// named `lib_name`.
pub open spec fn workspace_root(ws: WorkspaceMeta, lib_name: Seq<char>) -> Seq<Seq<char>> {
    seq![
        "# Root binary crate"@,
        "[package]"@,
        "name = \""@ + ws.name@ + "\""@,
        "version.workspace = true"@,
        "edition.workspace = true"@,
        ""@,
        "[[bin]]"@,
        "name = \""@ + lib_name + "\""@,
        "path = \"src/main.rs\""@,
        ""@,
        "[lib]"@,
        "name = \""@ + lib_name + "\""@,
        "path = \"src/lib.rs\""@,
        ""@,
        "[dependencies]"@,
    ]
}

/// The lines of the workspace manifest: the members (each sub-crate and
/// the root), the shared package settings, the root binary and library
/// named after the workspace (with `_` for `-`), and a path dependency on
/// each sub-crate.
pub open spec fn workspace_toml_lines(plan: SplitPlan) -> Seq<Seq<char>> {
    let names = plan.crates@.map_values(|c: CrateDef| c.name@);
    seq!["[workspace]"@, "resolver = \"3\""@, "members = ["@] + names.map_values(|n: Seq<char>| "    \""@ + n + "\","@)
        + workspace_settings(plan.workspace) + workspace_root(plan.workspace, replace(plan.workspace.name@, "-"@, "_"@))
        + names.map_values(|n: Seq<char>| n + " = { path = \""@ + n + "\" }"@)
}

fn push_settings(lines: &mut Vec<String>, ws: &WorkspaceMeta)
    ensures
        views(final(lines)@) == views(old(lines)@) + workspace_settings(*ws),
{
    let ghost start = views(lines@);
    proof {
        reveal_strlit("");
    }
    push_line(lines, owned("    \".\","));
    push_line(lines, owned("]"));
    push_line(lines, owned(""));
    push_line(lines, owned("[workspace.package]"));
    push_line(lines, cat3("version = \"", ws.version.as_str(), "\""));
    push_line(lines, cat3("edition = \"", ws.edition.as_str(), "\""));
    push_line(lines, owned(""));
    push_line(lines, owned("[workspace.lints.rust]"));
    push_line(lines, owned("unsafe_code = \"forbid\""));
    push_line(lines, owned(""));
    assert(views(lines@) =~= start + workspace_settings(*ws));
}

fn push_root(lines: &mut Vec<String>, ws: &WorkspaceMeta, lib_name: &str)
    ensures
        views(final(lines)@) == views(old(lines)@) + workspace_root(*ws, lib_name@),
{
    let ghost start = views(lines@);
    proof {
        reveal_strlit("");
    }
    push_line(lines, owned("# Root binary crate"));
    push_line(lines, owned("[package]"));
    push_line(lines, cat3("name = \"", ws.name.as_str(), "\""));
    push_line(lines, owned("version.workspace = true"));
    push_line(lines, owned("edition.workspace = true"));
    push_line(lines, owned(""));
    push_line(lines, owned("[[bin]]"));
    push_line(lines, cat3("name = \"", lib_name, "\""));
    push_line(lines, owned("path = \"src/main.rs\""));
    push_line(lines, owned(""));
    push_line(lines, owned("[lib]"));
    push_line(lines, cat3("name = \"", lib_name, "\""));
    push_line(lines, owned("path = \"src/lib.rs\""));
    push_line(lines, owned(""));
    push_line(lines, owned("[dependencies]"));
    assert(views(lines@) =~= start + workspace_root(*ws, lib_name@));
}

fn push_each(lines: &mut Vec<String>, crates: &Vec<CrateDef>, before: &str, between: &str, after: &str)
    ensures
        views(final(lines)@) == views(old(lines)@) + crates@.map_values(|c: CrateDef| c.name@).map_values(
            |n: Seq<char>| before@ + n + between@ + n + after@,
        ),
{
    let ghost start = views(lines@);
    let ghost target = crates@.map_values(|c: CrateDef| c.name@).map_values(
        |n: Seq<char>| before@ + n + between@ + n + after@,
    );
    let mut i: usize = 0;
    assert(start + target.take(0) =~= start);
    while i < crates.len()
        invariant
            i <= crates.len(),
            target == crates@.map_values(|c: CrateDef| c.name@).map_values(
                |n: Seq<char>| before@ + n + between@ + n + after@,
            ),
            views(lines@) == start + target.take(i as int),
        decreases crates.len() - i,
    {
        let n = crates[i].name.as_str();
        push_line(lines, cat5(before, n, between, n, after));
        assert(target.take(i + 1) =~= target.take(i as int).push(target[i as int]));
        i += 1;
    }
    assert(target.take(i as int) =~= target);
}

fn push_members(lines: &mut Vec<String>, crates: &Vec<CrateDef>)
    ensures
        views(final(lines)@) == views(old(lines)@) + crates@.map_values(|c: CrateDef| c.name@).map_values(
            |n: Seq<char>| "    \""@ + n + "\","@,
        ),
{
    let ghost start = views(lines@);
    let ghost target = crates@.map_values(|c: CrateDef| c.name@).map_values(|n: Seq<char>| "    \""@ + n + "\","@);
    let mut i: usize = 0;
    assert(start + target.take(0) =~= start);
    while i < crates.len()
        invariant
            i <= crates.len(),
            target == crates@.map_values(|c: CrateDef| c.name@).map_values(|n: Seq<char>| "    \""@ + n + "\","@),
            views(lines@) == start + target.take(i as int),
        decreases crates.len() - i,
    {
        push_line(lines, cat3("    \"", crates[i].name.as_str(), "\","));
        assert(target.take(i + 1) =~= target.take(i as int).push(target[i as int]));
        i += 1;
    }
    assert(target.take(i as int) =~= target);
}

/// The workspace manifest (`workspace_toml_lines`).
pub fn generate_workspace_toml(ctx: &SplitContext) -> (r: String)
    ensures
        r@ == text_of(workspace_toml_lines(ctx.plan)),
{
    let ws = &ctx.plan.workspace;
    proof {
        reveal_strlit("-");
        reveal_strlit("");
    }
    let lib_name = replace_all(ws.name.as_str(), "-", "_");
    let mut lines: Vec<String> = Vec::new();
    push_line(&mut lines, owned("[workspace]"));
    push_line(&mut lines, owned("resolver = \"3\""));
    push_line(&mut lines, owned("members = ["));
    let ghost h = views(lines@);
    push_members(&mut lines, &ctx.plan.crates);
    let ghost a = views(lines@);
    push_settings(&mut lines, ws);
    let ghost b = views(lines@);
    push_root(&mut lines, ws, lib_name.as_str());
    let ghost c = views(lines@);
    push_each(&mut lines, &ctx.plan.crates, "", " = { path = \"", "\" }");
    proof {
        let names = ctx.plan.crates@.map_values(|c: CrateDef| c.name@);
        assert(names.map_values(|n: Seq<char>| ""@ + n + " = { path = \""@ + n + "\" }"@) =~= names.map_values(
            |n: Seq<char>| n + " = { path = \""@ + n + "\" }"@,
        ));
        assert(h =~= seq!["[workspace]"@, "resolver = \"3\""@, "members = ["@]);
        assert(views(lines@) =~= workspace_toml_lines(ctx.plan));
    }
    text_from(&lines)
}


// ───────────────────────────── flake ───────────────────────────────────

/// The opening of the workspace flake.
pub open spec fn flake_head(ws: WorkspaceMeta) -> Seq<Seq<char>> {
    seq![
        "{"@,
        "  description = \""@ + ws.name@ + " \u{2014} Modular Rust workspace\";"@,
        ""@,
        "  inputs = {"@,
        "    nixpkgs.url = \"git+file:///mnt/data1/git/github.com/NixOS/nixpkgs.git?ref=master\";"@,
        "  };"@,
        ""@,
        "  outputs = { self, nixpkgs }:"@,
        "    let"@,
        "      system = \"x86_64-linux\";"@,
        "      pkgs = nixpkgs.legacyPackages.${system};"@,
        ""@,
    ]
}

/// The helper that builds one sub-crate.
pub open spec fn flake_builder(ws: WorkspaceMeta) -> Seq<Seq<char>> {
    seq![
        "      # Build helper: build a single sub-crate"@,
        "      mkCrate = name: path:"@,
        "        pkgs.rustPlatform.buildRustPackage {"@,
        "          pname = name;"@,
        "          version = \""@ + ws.version@ + "\";"@,
        "          src = ./.;"@,
        "          cargoLock = { lockFile = ./Cargo.lock; };"@,
        "          buildAndTestSubdir = path;"@,
        "          nativeBuildInputs = with pkgs; [ pkg-config ];"@,
        "          buildInputs = with pkgs; [ openssl ];"@,
        "        };"@,
        ""@,
        "      crates = {"@,
    ]
}

/// The root binary package.
pub open spec fn flake_root(ws: WorkspaceMeta) -> Seq<Seq<char>> {
    seq![
        "      };"@,
        ""@,
        "      pi = pkgs.rustPlatform.buildRustPackage {"@,
        "        pname = \""@ + ws.name@ + "\";"@,
        "        version = \""@ + ws.version@ + "\";"@,
        "        src = ./.;"@,
        "        cargoLock = { lockFile = ./Cargo.lock; };"@,
        "        nativeBuildInputs = with pkgs; [ pkg-config makeWrapper ];"@,
        "        buildInputs = with pkgs; [ openssl ];"@,
        "        postInstall = ''"@,
        "          wrapProgram $out/bin/pi --prefix PATH : ${pkgs.lib.makeBinPath [ pkgs.ripgrep pkgs.fd pkgs.git pkgs.bash ]}"@,
        "        '';"@,
        "      };"@,
        "    in"@,
        "    {"@,
    ]
}

/// The packages and apps outputs.
pub open spec fn flake_outputs() -> Seq<Seq<char>> {
    seq![
        "      packages.${system} = crates // {"@,
        "        pi = pi;"@,
        "        default = pi;"@,
        "      };"@,
        ""@,
        "      apps.${system} = {"@,
        "        default = { type = \"app\"; program = \"${pi}/bin/pi\"; };"@,
        "      };"@,
        ""@,
    ]
}

/// The development shell and the closing.
pub open spec fn flake_shell(ws: WorkspaceMeta) -> Seq<Seq<char>> {
    seq![
        "      devShells.${system}.default = pkgs.mkShell {"@,
        "        buildInputs = with pkgs; [ rustc cargo rust-analyzer rustfmt clippy pkg-config openssl ripgrep fd git bash ];"@,
        "        shellHook = ''"@,
        "          echo \""@ + ws.name@ + " workspace \u{2014} $(rustc --version)\""@,
        "          echo \"  cargo build --workspace    \u{2192} build all crates\""@,
        "        '';"@,
        "      };"@,
        "    };"@,
        "}"@,
    ]
}

/// The lines of the workspace flake: a builder, one package per sub-crate,
/// the root binary, its app, and a development shell.
pub open spec fn flake_lines(plan: SplitPlan) -> Seq<Seq<char>> {
    flake_head(plan.workspace) + flake_builder(plan.workspace) + plan.crates@.map_values(|c: CrateDef| c.name@).map_values(
        |n: Seq<char>| "        "@ + n + " = mkCrate \""@ + n + "\" \""@ + n + "\";"@,
    ) + flake_root(plan.workspace) + flake_outputs() + flake_shell(plan.workspace)
}

fn push_flake_head(lines: &mut Vec<String>, ws: &WorkspaceMeta)
    ensures
        views(final(lines)@) == views(old(lines)@) + flake_head(*ws),
{
    let ghost start = views(lines@);
    proof {
        reveal_strlit("");
    }
    push_line(lines, owned("{"));
    push_line(lines, cat3("  description = \"", ws.name.as_str(), " \u{2014} Modular Rust workspace\";"));
    push_line(lines, owned(""));
    push_line(lines, owned("  inputs = {"));
    push_line(lines, owned("    nixpkgs.url = \"git+file:///mnt/data1/git/github.com/NixOS/nixpkgs.git?ref=master\";"));
    push_line(lines, owned("  };"));
    push_line(lines, owned(""));
    push_line(lines, owned("  outputs = { self, nixpkgs }:"));
    push_line(lines, owned("    let"));
    push_line(lines, owned("      system = \"x86_64-linux\";"));
    push_line(lines, owned("      pkgs = nixpkgs.legacyPackages.${system};"));
    push_line(lines, owned(""));
    assert(views(lines@) =~= start + flake_head(*ws));
}

fn push_flake_builder(lines: &mut Vec<String>, ws: &WorkspaceMeta)
    ensures
        views(final(lines)@) == views(old(lines)@) + flake_builder(*ws),
{
    let ghost start = views(lines@);
    proof {
        reveal_strlit("");
    }
    push_line(lines, owned("      # Build helper: build a single sub-crate"));
    push_line(lines, owned("      mkCrate = name: path:"));
    push_line(lines, owned("        pkgs.rustPlatform.buildRustPackage {"));
    push_line(lines, owned("          pname = name;"));
    push_line(lines, cat3("          version = \"", ws.version.as_str(), "\";"));
    push_line(lines, owned("          src = ./.;"));
    push_line(lines, owned("          cargoLock = { lockFile = ./Cargo.lock; };"));
    push_line(lines, owned("          buildAndTestSubdir = path;"));
    push_line(lines, owned("          nativeBuildInputs = with pkgs; [ pkg-config ];"));
    push_line(lines, owned("          buildInputs = with pkgs; [ openssl ];"));
    push_line(lines, owned("        };"));
    push_line(lines, owned(""));
    push_line(lines, owned("      crates = {"));
    assert(views(lines@) =~= start + flake_builder(*ws));
}

fn push_flake_root(lines: &mut Vec<String>, ws: &WorkspaceMeta)
    ensures
        views(final(lines)@) == views(old(lines)@) + flake_root(*ws),
{
    let ghost start = views(lines@);
    proof {
        reveal_strlit("");
    }
    push_line(lines, owned("      };"));
    push_line(lines, owned(""));
    push_line(lines, owned("      pi = pkgs.rustPlatform.buildRustPackage {"));
    push_line(lines, cat3("        pname = \"", ws.name.as_str(), "\";"));
    push_line(lines, cat3("        version = \"", ws.version.as_str(), "\";"));
    push_line(lines, owned("        src = ./.;"));
    push_line(lines, owned("        cargoLock = { lockFile = ./Cargo.lock; };"));
    push_line(lines, owned("        nativeBuildInputs = with pkgs; [ pkg-config makeWrapper ];"));
    push_line(lines, owned("        buildInputs = with pkgs; [ openssl ];"));
    push_line(lines, owned("        postInstall = ''"));
    push_line(
        lines,
        owned("          wrapProgram $out/bin/pi --prefix PATH : ${pkgs.lib.makeBinPath [ pkgs.ripgrep pkgs.fd pkgs.git pkgs.bash ]}"),
    );
    push_line(lines, owned("        '';"));
    push_line(lines, owned("      };"));
    push_line(lines, owned("    in"));
    push_line(lines, owned("    {"));
    assert(views(lines@) =~= start + flake_root(*ws));
}

fn push_flake_outputs(lines: &mut Vec<String>)
    ensures
        views(final(lines)@) == views(old(lines)@) + flake_outputs(),
{
    let ghost start = views(lines@);
    proof {
        reveal_strlit("");
    }
    push_line(lines, owned("      packages.${system} = crates // {"));
    push_line(lines, owned("        pi = pi;"));
    push_line(lines, owned("        default = pi;"));
    push_line(lines, owned("      };"));
    push_line(lines, owned(""));
    push_line(lines, owned("      apps.${system} = {"));
    push_line(lines, owned("        default = { type = \"app\"; program = \"${pi}/bin/pi\"; };"));
    push_line(lines, owned("      };"));
    push_line(lines, owned(""));
    assert(views(lines@) =~= start + flake_outputs());
}

fn push_flake_shell(lines: &mut Vec<String>, ws: &WorkspaceMeta)
    ensures
        views(final(lines)@) == views(old(lines)@) + flake_shell(*ws),
{
    let ghost start = views(lines@);
    push_line(lines, owned("      devShells.${system}.default = pkgs.mkShell {"));
    push_line(
        lines,
        owned("        buildInputs = with pkgs; [ rustc cargo rust-analyzer rustfmt clippy pkg-config openssl ripgrep fd git bash ];"),
    );
    push_line(lines, owned("        shellHook = ''"));
    push_line(lines, cat3("          echo \"", ws.name.as_str(), " workspace \u{2014} $(rustc --version)\""));
    push_line(lines, owned("          echo \"  cargo build --workspace    \u{2192} build all crates\""));
    push_line(lines, owned("        '';"));
    push_line(lines, owned("      };"));
    push_line(lines, owned("    };"));
    push_line(lines, owned("}"));
    assert(views(lines@) =~= start + flake_shell(*ws));
}

fn push_crate_packages(lines: &mut Vec<String>, crates: &Vec<CrateDef>)
    ensures
        views(final(lines)@) == views(old(lines)@) + crates@.map_values(|c: CrateDef| c.name@).map_values(
            |n: Seq<char>| "        "@ + n + " = mkCrate \""@ + n + "\" \""@ + n + "\";"@,
        ),
{
    let ghost start = views(lines@);
    let ghost target = crates@.map_values(|c: CrateDef| c.name@).map_values(
        |n: Seq<char>| "        "@ + n + " = mkCrate \""@ + n + "\" \""@ + n + "\";"@,
    );
    let mut i: usize = 0;
    assert(start + target.take(0) =~= start);
    while i < crates.len()
        invariant
            i <= crates.len(),
            target == crates@.map_values(|c: CrateDef| c.name@).map_values(
                |n: Seq<char>| "        "@ + n + " = mkCrate \""@ + n + "\" \""@ + n + "\";"@,
            ),
            views(lines@) == start + target.take(i as int),
        decreases crates.len() - i,
    {
        let n = crates[i].name.as_str();
        let mut l = cat5("        ", n, " = mkCrate \"", n, "\" \"");
        push_str(&mut l, n);
        push_str(&mut l, "\";");
        push_line(lines, l);
        assert(target.take(i + 1) =~= target.take(i as int).push(target[i as int]));
        i += 1;
    }
    assert(target.take(i as int) =~= target);
}

/// The workspace flake (`flake_lines`).
pub fn generate_flake_nix(ctx: &SplitContext) -> (r: String)
    ensures
        r@ == text_of(flake_lines(ctx.plan)),
{
    let ws = &ctx.plan.workspace;
    let mut lines: Vec<String> = Vec::new();
    push_flake_head(&mut lines, ws);
    let ghost a = views(lines@);
    push_flake_builder(&mut lines, ws);
    let ghost b = views(lines@);
    push_crate_packages(&mut lines, &ctx.plan.crates);
    let ghost c = views(lines@);
    push_flake_root(&mut lines, ws);
    let ghost d = views(lines@);
    push_flake_outputs(&mut lines);
    let ghost e = views(lines@);
    push_flake_shell(&mut lines, ws);
    assert(a =~= flake_head(*ws));
    assert(views(lines@) =~= flake_lines(ctx.plan));
    text_from(&lines)
}


// ───────────────────────────── README ──────────────────────────────────

/// The dependency counts of the crates.
pub open spec fn dep_counts(cs: Seq<CrateDef>) -> Seq<nat> {
    cs.map_values(|c: CrateDef| c.depends_on@.len())
}

fn dependency_order(crates: &Vec<CrateDef>) -> (r: Vec<usize>)
    ensures
        r@.map_values(|i: usize| i as int) == stable_order(dep_counts(crates@), crates.len() as nat),
        forall|q: int| 0 <= q < r.len() ==> (#[trigger] r@[q]) < crates.len(),
{
    let ghost keys = dep_counts(crates@);
    let mut order: Vec<usize> = Vec::new();
    let mut i: usize = 0;
    while i < crates.len()
        invariant
            i <= crates.len(),
            keys == dep_counts(crates@),
            order@.map_values(|x: usize| x as int) == stable_order(keys, i as nat),
            forall|q: int| 0 <= q < order.len() ==> (#[trigger] order@[q]) < i,
        decreases crates.len() - i,
    {
        let k = crates[i].depends_on.len();
        let ghost o = stable_order(keys, i as nat);
        proof {
            lemma_stable_order_len(keys, i as nat);
            lemma_first_above_bound(o, keys, keys[i as int]);
        }
        let mut p: usize = 0;
        assert(o.skip(0) =~= o);
        while p < order.len() && crates[order[p]].depends_on.len() <= k
            invariant
                p <= order.len(),
                i < crates.len(),
                k == crates@[i as int].depends_on@.len(),
                keys == dep_counts(crates@),
                o == stable_order(keys, i as nat),
                order@.map_values(|x: usize| x as int) == o,
                forall|q: int| 0 <= q < order.len() ==> (#[trigger] order@[q]) < i,
                first_above(o, keys, keys[i as int]) == p + first_above(o.skip(p as int), keys, keys[i as int]),
            decreases order.len() - p,
        {
            assert(o.skip(p as int).drop_first() =~= o.skip(p + 1));
            assert(o.skip(p as int)[0] == order@[p as int] as int);
            p += 1;
        }
        proof {
            if p < order.len() {
                assert(o.skip(p as int)[0] == order@[p as int] as int);
            }
        }
        let ghost before = order@;
        order.insert(p, i);
        assert(order@.map_values(|x: usize| x as int) =~= o.insert(p as int, i as int));
        i += 1;
    }
    order
}

/// `` `d` `` for each dependency, joined by `, `, or `none`.
pub open spec fn deps_text(c: CrateDef) -> Seq<char> {
    if c.depends_on@.len() == 0 {
        "none"@
    } else {
        join(views(c.depends_on@).map_values(|d: Seq<char>| "`"@ + d + "`"@), ", "@)
    }
}

/// The README row of a sub-crate.
pub open spec fn readme_row(c: CrateDef) -> Seq<char> {
    "| `"@ + c.name@ + "` | "@ + decimal((c.modules@.len() + c.dir_modules@.len()) as nat) + " files | depends: "@
        + deps_text(c) + " |"@
}

/// The lines of the split README: the workspace, the sub-crates in a
/// stable order by dependency count, and the next steps.
pub open spec fn readme_lines(plan: SplitPlan) -> Seq<Seq<char>> {
    let cs = plan.crates@;
    seq![
        "# "@ + plan.workspace.name@ + " \u{2014} Workspace Monolith Split\n"@,
        "Generated by `cargo-vendormod split`.\n"@,
        "## Sub-crates ("@ + decimal(cs.len()) + ")\n"@,
    ] + stable_order(dep_counts(cs), cs.len()).map_values(|i: int| readme_row(cs[i])) + seq![
        ""@,
        "## Next Steps\n"@,
        "1. Review `Cargo.workspace.toml` and merge with original `Cargo.toml`"@,
        "2. Rewrite `use crate::` \u{2192} `use <subcrate>::` in all moved files"@,
        "3. Run `cargo check --workspace`"@,
        "4. Fix compilation errors iteratively"@,
        "5. Review `flake.workspace.nix` and merge with existing `flake.nix`"@,
        "6. Run `nix flake lock && nix build .#pi`"@,
    ]
}

fn readme_row_text(c: &CrateDef) -> (r: String)
    requires
        c.modules@.len() + c.dir_modules@.len() <= usize::MAX,
    ensures
        r@ == readme_row(*c),
{
    let deps = if c.depends_on.len() == 0 {
        owned("none")
    } else {
        let mut q: Vec<String> = Vec::new();
        let mut i: usize = 0;
        while i < c.depends_on.len()
            invariant
                i <= c.depends_on.len(),
                views(q@) == views(c.depends_on@).take(i as int).map_values(|d: Seq<char>| "`"@ + d + "`"@),
            decreases c.depends_on.len() - i,
        {
            push_line(&mut q, cat3("`", c.depends_on[i].as_str(), "`"));
            assert(views(c.depends_on@).take(i + 1).map_values(|d: Seq<char>| "`"@ + d + "`"@) =~= views(
                c.depends_on@,
            ).take(i as int).map_values(|d: Seq<char>| "`"@ + d + "`"@).push("`"@ + c.depends_on@[i as int]@ + "`"@));
            i += 1;
        }
        assert(views(c.depends_on@).take(i as int) =~= views(c.depends_on@));
        join_strings(&q, ", ")
    };
    let n = decimal_string(c.modules.len() + c.dir_modules.len());
    let mut r = cat3("| `", c.name.as_str(), "` | ");
    push_str(&mut r, n.as_str());
    push_str(&mut r, " files | depends: ");
    push_str(&mut r, deps.as_str());
    push_str(&mut r, " |");
    r
}

/// The split README (`readme_lines`); each sub-crate's file count must fit
/// in a `usize`.
pub fn generate_workspace_readme(ctx: &SplitContext) -> (r: String)
    requires
        forall|k: int|
            0 <= k < ctx.plan.crates@.len() ==> (#[trigger] ctx.plan.crates@[k]).modules@.len()
                + ctx.plan.crates@[k].dir_modules@.len() <= usize::MAX,
    ensures
        r@ == text_of(readme_lines(ctx.plan)),
{
    let cs = &ctx.plan.crates;
    let mut lines: Vec<String> = Vec::new();
    push_line(&mut lines, cat3("# ", ctx.plan.workspace.name.as_str(), " \u{2014} Workspace Monolith Split\n"));
    push_line(&mut lines, owned("Generated by `cargo-vendormod split`.\n"));
    let n = decimal_string(cs.len());
    push_line(&mut lines, cat3("## Sub-crates (", n.as_str(), ")\n"));
    let ghost head = views(lines@);
    let order = dependency_order(cs);
    let ghost so = stable_order(dep_counts(cs@), cs.len() as nat);
    let ghost rows = so.map_values(|i: int| readme_row(cs@[i]));
    proof {
        lemma_stable_order_len(dep_counts(cs@), cs.len() as nat);
    }
    let mut j: usize = 0;
    assert(head + rows.take(0) =~= head);
    while j < order.len()
        invariant
            j <= order.len(),
            order@.map_values(|i: usize| i as int) == so,
            so.len() == order.len(),
            forall|q: int| 0 <= q < order.len() ==> (#[trigger] order@[q]) < cs.len(),
            forall|k: int|
                0 <= k < cs@.len() ==> (#[trigger] cs@[k]).modules@.len() + cs@[k].dir_modules@.len() <= usize::MAX,
            rows == so.map_values(|i: int| readme_row(cs@[i])),
            views(lines@) == head + rows.take(j as int),
        decreases order.len() - j,
    {
        let idx = order[j];
        let row = readme_row_text(&cs[idx]);
        push_line(&mut lines, row);
        assert(so[j as int] == idx as int);
        assert(rows.take(j + 1) =~= rows.take(j as int).push(rows[j as int]));
        j += 1;
    }
    assert(rows.take(j as int) =~= rows);
    let ghost mid = views(lines@);
    proof {
        reveal_strlit("");
    }
    push_line(&mut lines, owned(""));
    push_line(&mut lines, owned("## Next Steps\n"));
    push_line(&mut lines, owned("1. Review `Cargo.workspace.toml` and merge with original `Cargo.toml`"));
    push_line(&mut lines, owned("2. Rewrite `use crate::` \u{2192} `use <subcrate>::` in all moved files"));
    push_line(&mut lines, owned("3. Run `cargo check --workspace`"));
    push_line(&mut lines, owned("4. Fix compilation errors iteratively"));
    push_line(&mut lines, owned("5. Review `flake.workspace.nix` and merge with existing `flake.nix`"));
    push_line(&mut lines, owned("6. Run `nix flake lock && nix build .#pi`"));
    assert(views(lines@) =~= readme_lines(ctx.plan));
    text_from(&lines)
}


// ───────────────────────────── suggested plan ──────────────────────────

/// An entry of a monolith's `src/` directory.
pub struct SrcEntry {
    pub name: String,
    pub is_dir: bool,
    /// For a directory: it holds a `mod.rs`.
    pub has_mod_rs: bool,
}

/// Entries never turned into modules.
pub open spec fn skipped_entry(name: Seq<char>) -> bool {
    name == "main.rs"@ || name == "lib.rs"@ || name == "bin"@
}

/// `x` is the module of a `.rs` file among the entries.
pub open spec fn file_module(es: Seq<SrcEntry>, x: Seq<char>) -> bool {
    exists|i: int|
        0 <= i < es.len() && !skipped_entry((#[trigger] es[i]).name@) && !es[i].is_dir && ends_with(es[i].name@, ".rs"@)
            && x == es[i].name@.take(es[i].name@.len() - 3)
}

/// `x` is a directory module (a directory with a `mod.rs`) among the
/// entries.
pub open spec fn dir_module(es: Seq<SrcEntry>, x: Seq<char>) -> bool {
    exists|i: int| 0 <= i < es.len() && !skipped_entry((#[trigger] es[i]).name@) && es[i].is_dir && es[i].has_mod_rs && x == es[i].name@
}

/// Some module among the entries falls in group `g`.
pub open spec fn group_used(es: Seq<SrcEntry>, g: Seq<char>) -> bool {
    (exists|x: Seq<char>| file_module(es, x) && #[trigger] module_group(x) == g) || (exists|x: Seq<char>|
        dir_module(es, x) && #[trigger] module_group(x) == g)
}

/// A suggested sub-crate: named `pi-<group>`, holding, sorted and each
/// once, the file modules and the directory modules of its group, and
/// nothing else.
pub open spec fn suggested_crate(es: Seq<SrcEntry>, c: CrateDef) -> bool {
    let g = c.name@.skip(3);
    &&& c.name@ == "pi-"@ + g
    &&& strictly_sorted(views(c.modules@))
    &&& strictly_sorted(views(c.dir_modules@))
    &&& forall|x: Seq<char>| views(c.modules@).contains(x) <==> (file_module(es, x) && module_group(x) == g)
    &&& forall|x: Seq<char>| views(c.dir_modules@).contains(x) <==> (dir_module(es, x) && module_group(x) == g)
    &&& c.depends_on@.len() == 0 && c.external_deps@.len() == 0 && c.features@.len() == 0
    &&& c.raw_deps@.len() == 0 && c.feature_gated@.len() == 0
}

/// Some crate is named `pi-<g>`.
pub open spec fn crate_for_group(cs: Seq<CrateDef>, g: Seq<char>) -> bool {
    exists|k: int| 0 <= k < cs.len() && (#[trigger] cs[k]).name@ == "pi-"@ + g
}

/// The metadata used when the monolith has no `Cargo.toml`: the root
/// directory's name, version `0.1.0`, edition `2021`.
pub open spec fn default_meta_view(root_name: Seq<char>) -> (Seq<char>, Seq<char>, Seq<char>, Seq<char>, Seq<char>, Seq<char>, Seq<char>) {
    (root_name, "0.1.0"@, "2021"@, Seq::empty(), Seq::empty(), Seq::empty(), Seq::empty())
}

/// All fields of workspace metadata.
pub open spec fn meta_view(m: WorkspaceMeta) -> (Seq<char>, Seq<char>, Seq<char>, Seq<char>, Seq<char>, Seq<char>, Seq<char>) {
    (m.name@, m.version@, m.edition@, m.description@, m.license@, m.repository@, m.readme@)
}

proof fn lemma_in_group_contains(mods: Seq<Seq<char>>, g: Seq<char>, x: Seq<char>)
    ensures
        in_group(mods, g).contains(x) <==> (mods.contains(x) && module_group(x) == g),
    decreases mods.len(),
{
    if mods.len() > 0 {
        lemma_in_group_contains(mods.drop_last(), g, x);
        let r = in_group(mods.drop_last(), g);
        if mods.contains(x) && x != mods.last() {
            let i = choose|i: int| 0 <= i < mods.len() && mods[i] == x;
            assert(mods.drop_last()[i] == x);
        }
        if mods.drop_last().contains(x) {
            let i = choose|i: int| 0 <= i < mods.drop_last().len() && mods.drop_last()[i] == x;
            assert(mods[i] == x);
        }
        if module_group(mods.last()) == g {
            assert(in_group(mods, g) == r.push(mods.last()));
            if r.push(mods.last()).contains(x) && x != mods.last() {
                let i = choose|i: int| 0 <= i < r.push(mods.last()).len() && r.push(mods.last())[i] == x;
                assert(r[i] == x);
            }
            if r.contains(x) {
                let i = choose|i: int| 0 <= i < r.len() && r[i] == x;
                assert(r.push(mods.last())[i] == x);
            }
            assert(r.push(mods.last())[r.len() as int] == mods.last());
        }
        assert(mods[mods.len() - 1] == mods.last());
    }
}

proof fn lemma_in_group_sorted(mods: Seq<Seq<char>>, g: Seq<char>)
    requires
        strictly_sorted(mods),
    ensures
        strictly_sorted(in_group(mods, g)),
    decreases mods.len(),
{
    if mods.len() > 0 {
        let prev = mods.drop_last();
        assert(strictly_sorted(prev)) by {
            assert forall|i: int, j: int| 0 <= i < j < prev.len() implies str_less(
                #[trigger] prev[i],
                #[trigger] prev[j],
            ) by {
                assert(prev[i] == mods[i] && prev[j] == mods[j]);
            }
        }
        lemma_in_group_sorted(prev, g);
        if module_group(mods.last()) == g {
            let r = in_group(prev, g);
            let q = r.push(mods.last());
            assert forall|i: int, j: int| 0 <= i < j < q.len() implies crate::order::str_less(
                #[trigger] q[i],
                #[trigger] q[j],
            ) by {
                if j == r.len() {
                    assert(r.contains(r[i]));
                    lemma_in_group_contains(prev, g, r[i]);
                    let k = choose|k: int| 0 <= k < prev.len() && prev[k] == r[i];
                    assert(mods[k] == r[i]);
                    assert(crate::order::str_less(mods[k], mods[mods.len() - 1]));
                } else {
                    assert(q[i] == r[i] && q[j] == r[j]);
                }
            }
        }
    }
}

fn build_default_meta(root_name: &str) -> (m: WorkspaceMeta)
    ensures
        meta_view(m) == default_meta_view(root_name@),
{
    WorkspaceMeta {
        name: owned(root_name),
        version: owned("0.1.0"),
        edition: owned("2021"),
        description: String::new(),
        license: String::new(),
        repository: String::new(),
        readme: String::new(),
    }
}

/// A plan suggested for a monolith from its metadata (`None` when it has
/// no `Cargo.toml`, in which case defaults under the root directory's name
/// are used) and the entries of its `src/` directory: its `.rs` files and
/// its directories with a `mod.rs` (but `main.rs`, `lib.rs` and `bin`)
/// become modules, grouped by name prefix into sub-crates `pi-<group>`.
///
/// Each sub-crate's file and directory modules come sorted, each once.
pub fn suggest_plan(root_name: &str, meta: Option<WorkspaceMeta>, entries: &Vec<SrcEntry>) -> (r: SplitPlan)
    ensures
        meta_view(r.workspace) == match meta {
            Some(m) => meta_view(m),
            None => default_meta_view(root_name@),
        },
        r.external_deps.len() == 0,
        forall|k: int| 0 <= k < r.crates.len() ==> suggested_crate(entries@, #[trigger] r.crates@[k]),
        forall|g: Seq<char>| #[trigger] crate_for_group(r.crates@, g) <==> group_used(entries@, g),
{
    let workspace = match meta {
        Some(m) => m,
        None => build_default_meta(root_name),
    };
    proof {
        reveal_strlit(".rs");
    }
    let mut files: Vec<String> = Vec::new();
    let mut dirs: Vec<String> = Vec::new();
    let mut i: usize = 0;
    while i < entries.len()
        invariant
            i <= entries.len(),
            strictly_sorted(views(files@)),
            strictly_sorted(views(dirs@)),
            forall|x: Seq<char>| views(files@).contains(x) <==> file_module(entries@.take(i as int), x),
            forall|x: Seq<char>| views(dirs@).contains(x) <==> dir_module(entries@.take(i as int), x),
        decreases entries.len() - i,
    {
        let e = &entries[i];
        let ghost es = entries@.take(i + 1);
        assert(es[i as int] == entries@[i as int]);
        let skip = str_eq(e.name.as_str(), "main.rs") || str_eq(e.name.as_str(), "lib.rs") || str_eq(e.name.as_str(), "bin");
        if !skip && e.is_dir && e.has_mod_rs {
            insert_sorted(&mut dirs, e.name.as_str());
        } else if !skip && !e.is_dir && crate::text::has_suffix(e.name.as_str(), ".rs") {
            proof {
                reveal_strlit(".rs");
            }
            let cs = crate::text::chars_of(e.name.as_str());
            assert(cs.len() >= 3);
            let stem = crate::text::string_of_range(&cs, 0, cs.len() - 3);
            assert(cs@.subrange(0, cs.len() - 3) =~= e.name@.take(e.name@.len() - 3));
            insert_sorted(&mut files, stem.as_str());
        }
        proof {
            assert forall|x: Seq<char>| views(files@).contains(x) <==> file_module(es, x) by {
                if file_module(entries@.take(i as int), x) {
                    let j = choose|j: int| 0 <= j < i && !skipped_entry((#[trigger] entries@.take(i as int)[j]).name@)
                        && !entries@.take(i as int)[j].is_dir && ends_with(entries@.take(i as int)[j].name@, ".rs"@)
                        && x == entries@.take(i as int)[j].name@.take(entries@.take(i as int)[j].name@.len() - 3);
                    assert(es[j] == entries@.take(i as int)[j]);
                }
                if file_module(es, x) {
                    let j = choose|j: int| 0 <= j < es.len() && !skipped_entry((#[trigger] es[j]).name@) && !es[j].is_dir
                        && ends_with(es[j].name@, ".rs"@) && x == es[j].name@.take(es[j].name@.len() - 3);
                    if j < i {
                        assert(entries@.take(i as int)[j] == es[j]);
                    }
                }
            }
            assert forall|x: Seq<char>| views(dirs@).contains(x) <==> dir_module(es, x) by {
                if dir_module(entries@.take(i as int), x) {
                    let j = choose|j: int| 0 <= j < i && !skipped_entry((#[trigger] entries@.take(i as int)[j]).name@)
                        && entries@.take(i as int)[j].is_dir && entries@.take(i as int)[j].has_mod_rs && x == entries@.take(
                        i as int,
                    )[j].name@;
                    assert(es[j] == entries@.take(i as int)[j]);
                }
                if dir_module(es, x) {
                    let j = choose|j: int| 0 <= j < es.len() && !skipped_entry((#[trigger] es[j]).name@) && es[j].is_dir
                        && es[j].has_mod_rs && x == es[j].name@;
                    if j < i {
                        assert(entries@.take(i as int)[j] == es[j]);
                    }
                }
            }
        }
        i += 1;
    }
    assert(entries@.take(i as int) =~= entries@);
    let groups = group_modules_by_prefix(&files, &dirs);
    let mut crates: Vec<CrateDef> = Vec::new();
    let mut k: usize = 0;
    while k < groups.len()
        invariant
            k <= groups.len(),
            crates.len() == k,
            strictly_sorted(views(files@)),
            strictly_sorted(views(dirs@)),
            forall|x: Seq<char>| views(files@).contains(x) <==> file_module(entries@, x),
            forall|x: Seq<char>| views(dirs@).contains(x) <==> dir_module(entries@, x),
            forall|q: int|
                0 <= q < groups.len() ==> views((#[trigger] groups@[q]).1.0@) == in_group(views(files@), groups@[q].0@)
                    && views(groups@[q].1.1@) == in_group(views(dirs@), groups@[q].0@),
            forall|q: int|
                0 <= q < k ==> suggested_crate(entries@, #[trigger] crates@[q]) && crates@[q].name@.skip(3)
                    == groups@[q].0@,
        decreases groups.len() - k,
    {
        let g = &groups[k];
        let name = cat("pi-", g.0.as_str());
        proof {
            reveal_strlit("pi-");
            assert(name@.skip(3) =~= g.0@);
            assert(*g == groups@[k as int]);
            assert(views(g.1.0@) == in_group(views(files@), g.0@));
            assert(views(g.1.1@) == in_group(views(dirs@), g.0@));
            lemma_in_group_sorted(views(files@), g.0@);
            lemma_in_group_sorted(views(dirs@), g.0@);
            assert forall|x: Seq<char>| views(g.1.0@).contains(x) <==> (file_module(entries@, x) && module_group(x) == g.0@) by {
                lemma_in_group_contains(views(files@), g.0@, x);
            }
            assert forall|x: Seq<char>| views(g.1.1@).contains(x) <==> (dir_module(entries@, x) && module_group(x) == g.0@) by {
                lemma_in_group_contains(views(dirs@), g.0@, x);
            }
        }
        let c = CrateDef {
            name,
            modules: copy_strings(&g.1.0),
            dir_modules: copy_strings(&g.1.1),
            depends_on: Vec::new(),
            external_deps: Vec::new(),
            features: Vec::new(),
            raw_deps: Vec::new(),
            feature_gated: Vec::new(),
        };
        let ghost cv = c;
        let ghost before = crates@;
        crates.push(c);
        proof {
            assert(crates@[k as int] == cv);
            assert(cv.name@.skip(3) == g.0@);
            assert(views(cv.modules@) == views(g.1.0@));
            assert(views(cv.dir_modules@) == views(g.1.1@));
            assert(cv.name@ == "pi-"@ + cv.name@.skip(3));
            assert(strictly_sorted(views(cv.modules@)));
            assert(strictly_sorted(views(cv.dir_modules@)));
            assert(cv.name@.skip(3) == g.0@);
            assert forall|x: Seq<char>| #[trigger] views(cv.modules@).contains(x) implies (file_module(entries@, x) && module_group(x) == cv.name@.skip(3)) by {
                lemma_in_group_contains(views(files@), g.0@, x);
            }
            assert forall|x: Seq<char>| (file_module(entries@, x) && module_group(x) == cv.name@.skip(3)) implies #[trigger] views(cv.modules@).contains(x) by {
                lemma_in_group_contains(views(files@), g.0@, x);
            }
            assert forall|x: Seq<char>| #[trigger] views(cv.dir_modules@).contains(x) implies (dir_module(entries@, x) && module_group(x) == cv.name@.skip(3)) by {
                lemma_in_group_contains(views(dirs@), g.0@, x);
            }
            assert forall|x: Seq<char>| (dir_module(entries@, x) && module_group(x) == cv.name@.skip(3)) implies #[trigger] views(cv.dir_modules@).contains(x) by {
                lemma_in_group_contains(views(dirs@), g.0@, x);
            }
            assert(cv.depends_on@.len() == 0 && cv.external_deps@.len() == 0 && cv.features@.len() == 0);
            assert(cv.raw_deps@.len() == 0 && cv.feature_gated@.len() == 0);
            assert(suggested_crate(entries@, cv));
            assert forall|q: int| 0 <= q < k implies crates@[q] == before[q] by {}
        }
        k += 1;
    }
    proof {
        assert forall|gn: Seq<char>| #[trigger] crate_for_group(crates@, gn) <==> group_used(entries@, gn) by {
            reveal_strlit("pi-");
            if exists|k: int| 0 <= k < crates.len() && (#[trigger] crates@[k]).name@ == "pi-"@ + gn {
                let k = choose|k: int| 0 <= k < crates.len() && (#[trigger] crates@[k]).name@ == "pi-"@ + gn;
                assert(crates@[k].name@.skip(3) =~= gn);
                assert(group_names(groups@)[k] == gn);
                assert(group_names(groups@).contains(gn));
                if exists|i: int| 0 <= i < files.len() && module_group(#[trigger] files@[i]@) == gn {
                    let i = choose|i: int| 0 <= i < files.len() && module_group(#[trigger] files@[i]@) == gn;
                    assert(views(files@)[i] == files@[i]@);
                    assert(views(files@).contains(files@[i]@));
                } else {
                    let i = choose|i: int| 0 <= i < dirs.len() && module_group(#[trigger] dirs@[i]@) == gn;
                    assert(views(dirs@)[i] == dirs@[i]@);
                    assert(views(dirs@).contains(dirs@[i]@));
                }
            }
            if (exists|x: Seq<char>| file_module(entries@, x) && #[trigger] module_group(x) == gn) {
                let x = choose|x: Seq<char>| file_module(entries@, x) && #[trigger] module_group(x) == gn;
                assert(views(files@).contains(x));
                let i = choose|i: int| 0 <= i < views(files@).len() && views(files@)[i] == x;
                assert(module_group(files@[i]@) == gn);
                assert(group_names(groups@).contains(gn));
                let k = choose|k: int| 0 <= k < group_names(groups@).len() && group_names(groups@)[k] == gn;
                assert(crates@[k].name@ =~= "pi-"@ + gn);
            }
            if (exists|x: Seq<char>| dir_module(entries@, x) && #[trigger] module_group(x) == gn) {
                let x = choose|x: Seq<char>| dir_module(entries@, x) && #[trigger] module_group(x) == gn;
                assert(views(dirs@).contains(x));
                let i = choose|i: int| 0 <= i < views(dirs@).len() && views(dirs@)[i] == x;
                assert(module_group(dirs@[i]@) == gn);
                assert(group_names(groups@).contains(gn));
                let k = choose|k: int| 0 <= k < group_names(groups@).len() && group_names(groups@)[k] == gn;
                assert(crates@[k].name@ =~= "pi-"@ + gn);
            }
        }
    }
    SplitPlan { workspace, crates, external_deps: Vec::new() }
}

fn copy_strings(v: &Vec<String>) -> (r: Vec<String>)
    ensures
        views(r@) == views(v@),
{
    let mut r: Vec<String> = Vec::new();
    let mut i: usize = 0;
    while i < v.len()
        invariant
            i <= v.len(),
            views(r@) == views(v@).take(i as int),
        decreases v.len() - i,
    {
        push_line(&mut r, v[i].clone());
        assert(views(v@).take(i + 1) =~= views(v@).take(i as int).push(v@[i as int]@));
        i += 1;
    }
    assert(views(v@).take(i as int) =~= views(v@));
    r
}

} // verus!
