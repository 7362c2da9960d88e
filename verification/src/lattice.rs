//! Lattice nodes: one self-contained build context per project.
//!
//! A node holds the project's flake (for Rust), a `pipelight.toml` CI
//! pipeline (build, publish to nora, verify), a `.cargo/config.toml` that
//! redirects cargo to nora, a `SKILL.md` describing the project, and a copy
//! of its `Cargo.lock`.
use vstd::prelude::*;
use crate::crate_flake::{
    flake_outcome, generate_flake, CargoPackage, FlakeError, FlakePlan, FlakeSource, FlakeStyle,
    NORA_CARGO_CONFIG,
};
use crate::path::{join_path, path_join};
use crate::text::{cat, cat3, cat5, join, join_strings, lines, owned, push_line, push_str, str_eq, views};

verus! {

/// A project of the ecosystem.
pub struct LatticeProject {
    pub name: String,
    pub crate_name: String,
    pub version: String,
    pub source_dir: String,
    pub language: String,
    pub description: String,
    pub git_mirror: Option<String>,
    pub dependencies: Vec<String>,
}

/// The project is a Rust crate.
pub open spec fn is_rust(p: LatticeProject) -> bool {
    p.language@ == "Rust"@
}

// ───────────────────────────── pipelight.toml ──────────────────────────

/// The build pipeline, always present.
pub open spec fn build_pipeline(name: Seq<char>, version: Seq<char>, src: Seq<char>) -> Seq<Seq<char>> {
    seq![
        "# "@ + name + " — Pipelight CI pipeline"@,
        "# Run: pipelight run build-"@ + name,
        Seq::<char>::empty(),
        "[[pipelines]]"@,
        "name = \"build-"@ + name + "\""@,
        "triggers = [{ actions = [\"manual\"] }]"@,
        Seq::<char>::empty(),
        "[[pipelines.steps]]"@,
        "name = \"nix-build\""@,
        "commands = ["@,
        "  \"echo '=== Building "@ + name + " v"@ + version + " ==='\","@,
        "  \"cd "@ + src + " && nix build --no-link --print-build-logs\","@,
        "  \"echo '  -> Build complete'\""@,
        "]"@,
        Seq::<char>::empty(),
    ]
}

/// The publish pipeline (nora, Rust only).
pub open spec fn publish_pipeline(name: Seq<char>, version: Seq<char>, src: Seq<char>) -> Seq<Seq<char>> {
    seq![
        "[[pipelines]]"@,
        "name = \"publish-"@ + name + "\""@,
        "triggers = [{ actions = [\"manual\"] }]"@,
        Seq::<char>::empty(),
        "[[pipelines.steps]]"@,
        "name = \"publish-to-nora\""@,
        "commands = ["@,
        "  \"echo '=== Publishing "@ + name + " v"@ + version + " to nora ==='\","@,
        "  \"cd "@ + src + " && cargo publish --registry nora --allow-dirty 2>&1\","@,
        "  \"echo '  -> Published'\""@,
        "]"@,
        Seq::<char>::empty(),
        "[[pipelines.steps]]"@,
        "name = \"verify-in-nora\""@,
        "commands = ["@,
        "  \"echo '=== Verifying "@ + name + " in nora ==='\","@,
        "  \"curl -s http://127.0.0.1:4000/cargo/api/v1/crates/"@ + name + " 2>&1 | head -5\","@,
        "  \"echo '  -> Verified'\""@,
        "]"@,
        Seq::<char>::empty(),
    ]
}

/// The full CI pipeline (nora, Rust only).
pub open spec fn ci_pipeline(name: Seq<char>, version: Seq<char>, src: Seq<char>) -> Seq<Seq<char>> {
    seq![
        "[[pipelines]]"@,
        "name = \"ci-"@ + name + "\""@,
        "triggers = [{ actions = [\"manual\"] }]"@,
        Seq::<char>::empty(),
        "[[pipelines.steps]]"@,
        "name = \"build\""@,
        "commands = ["@,
        "  \"echo '=== CI: "@ + name + " v"@ + version + " ==='\","@,
        "  \"cd "@ + src + " && nix build --no-link --print-build-logs\","@,
        "]"@,
        Seq::<char>::empty(),
        "[[pipelines.steps]]"@,
        "name = \"publish\""@,
        "commands = ["@,
        "  \"cd "@ + src + " && cargo publish --registry nora --allow-dirty 2>&1\","@,
        "]"@,
        Seq::<char>::empty(),
        "[[pipelines.steps]]"@,
        "name = \"verify\""@,
        "commands = ["@,
        "  \"curl -s http://127.0.0.1:4000/cargo/api/v1/crates/"@ + name + " 2>&1 | head -3\","@,
        "]"@,
    ]
}

/// The lines of a project's `pipelight.toml`.
pub open spec fn pipelight_lines(p: LatticeProject, nora: bool) -> Seq<Seq<char>> {
    let n = p.crate_name@;
    let v = p.version@;
    let s = p.source_dir@;
    if nora && is_rust(p) {
        build_pipeline(n, v, s) + publish_pipeline(n, v, s) + ci_pipeline(n, v, s)
    } else {
        build_pipeline(n, v, s)
    }
}

/// Without the nora pipelines, a `pipelight.toml` has one pipeline: its
/// first line names the project, exactly one line opens a pipeline (the
/// fourth), that pipeline is `build-<name>`, and no publish or verify step
/// is there.
pub proof fn lemma_single_pipeline(p: LatticeProject, nora: bool)
    requires
        !(nora && is_rust(p)),
    ensures
        pipelight_lines(p, nora)[0] == "# "@ + p.crate_name@ + " — Pipelight CI pipeline"@,
        pipelight_lines(p, nora).contains("name = \"build-"@ + p.crate_name@ + "\""@),
        forall|i: int| 0 <= i < pipelight_lines(p, nora).len() ==> (#[trigger] pipelight_lines(p, nora)[i] == "[[pipelines]]"@ <==> i == 3),
        !pipelight_lines(p, nora).contains("name = \"publish-to-nora\""@),
        !pipelight_lines(p, nora).contains("name = \"verify-in-nora\""@),
{
    let n = p.crate_name@;
    let ls = pipelight_lines(p, nora);
    reveal_strlit("[[pipelines]]");
    reveal_strlit("# ");
    reveal_strlit("# Run: pipelight run build-");
    reveal_strlit("name = \"build-");
    reveal_strlit("triggers = [{ actions = [\"manual\"] }]");
    reveal_strlit("[[pipelines.steps]]");
    reveal_strlit("name = \"nix-build\"");
    reveal_strlit("commands = [");
    reveal_strlit("  \"echo '=== Building ");
    reveal_strlit("  \"cd ");
    reveal_strlit("  \"echo '  -> Build complete'\"");
    reveal_strlit("]");
    reveal_strlit("name = \"publish-to-nora\"");
    reveal_strlit("name = \"verify-in-nora\"");
    assert(ls.len() == 15);
    assert(ls[4] == "name = \"build-"@ + n + "\""@);
    assert forall|i: int| 0 <= i < ls.len() implies (#[trigger] ls[i] == "[[pipelines]]"@ <==> i == 3) by {
        if i != 3 && ls[i] == "[[pipelines]]"@ {
            assert(ls[i][0] == '[');
            if i == 7 {
                assert(ls[i][8] == '.');
                assert("[[pipelines]]"@[8] == 's');
            }
            assert(ls[i].len() == 13);
        }
    }
    assert forall|i: int| 0 <= i < ls.len() implies ls[i] != "name = \"publish-to-nora\""@ && ls[i] != "name = \"verify-in-nora\""@ by {
        if ls[i] == "name = \"publish-to-nora\""@ || ls[i] == "name = \"verify-in-nora\""@ {
            assert(ls[i].len() > 0 && ls[i][0] == 'n');
            assert(ls[0][0] == '#' && ls[1][0] == '#' && ls[2].len() == 0 && ls[3][0] == '[');
            assert(ls[5][0] == 't' && ls[6].len() == 0 && ls[7][0] == '[' && ls[9][0] == 'c');
            assert(ls[10][0] == ' ' && ls[11][0] == ' ' && ls[12][0] == ' ' && ls[13][0] == ']' && ls[14].len() == 0);
            if i == 4 {
                assert(ls[i][8] == 'b');
            } else {
                assert(i == 8);
                assert(ls[i][8] == 'n');
            }
        }
    }
}

/// `s` holds neither a newline nor a carriage return.
pub open spec fn plain(s: Seq<char>) -> bool {
    forall|q: int| 0 <= q < s.len() ==> s[q] != '\n' && s[q] != '\r'
}

proof fn lemma_plain_cat(a: Seq<char>, b: Seq<char>)
    requires
        plain(a),
        plain(b),
    ensures
        plain(a + b),
{
    assert forall|q: int| 0 <= q < (a + b).len() implies (a + b)[q] != '\n' && (a + b)[q] != '\r' by {
        if q < a.len() {
            assert((a + b)[q] == a[q]);
        } else {
            assert((a + b)[q] == b[q - a.len()]);
        }
    }
}

proof fn lemma_plain_literals()
    ensures
        plain("# "@),
        plain(" — Pipelight CI pipeline"@),
        plain("# Run: pipelight run build-"@),
        plain("[[pipelines]]"@),
        plain("name = \"build-"@),
        plain("\""@),
        plain("triggers = [{ actions = [\"manual\"] }]"@),
        plain("[[pipelines.steps]]"@),
        plain("name = \"nix-build\""@),
        plain("commands = ["@),
        plain("  \"echo '=== Building "@),
        plain(" v"@),
        plain(" ==='\","@),
        plain("  \"cd "@),
        plain(" && nix build --no-link --print-build-logs\","@),
        plain("  \"echo '  -> Build complete'\""@),
        plain("]"@),
        plain(Seq::<char>::empty()),
{
    reveal_strlit("# ");
    reveal_strlit(" — Pipelight CI pipeline");
    reveal_strlit("# Run: pipelight run build-");
    reveal_strlit("[[pipelines]]");
    reveal_strlit("name = \"build-");
    reveal_strlit("\"");
    reveal_strlit("triggers = [{ actions = [\"manual\"] }]");
    reveal_strlit("[[pipelines.steps]]");
    reveal_strlit("name = \"nix-build\"");
    reveal_strlit("commands = [");
    reveal_strlit("  \"echo '=== Building ");
    reveal_strlit(" v");
    reveal_strlit(" ==='\",");
    reveal_strlit("  \"cd ");
    reveal_strlit(" && nix build --no-link --print-build-logs\",");
    reveal_strlit("  \"echo '  -> Build complete'\"");
    reveal_strlit("]");
}

/// The text of a `pipelight.toml` without the nora pipelines reads back,
/// line by line, as its lines but the empty last one, when the project's
/// name, version and source directory hold no line breaks.
pub proof fn lemma_pipelight_text_lines(p: LatticeProject, nora: bool)
    requires
        !(nora && is_rust(p)),
        plain(p.crate_name@),
        plain(p.version@),
        plain(p.source_dir@),
    ensures
        lines(join(pipelight_lines(p, nora), "\n"@)) == pipelight_lines(p, nora).drop_last(),
{
    let n = p.crate_name@;
    let v = p.version@;
    let s = p.source_dir@;
    let ls = pipelight_lines(p, nora);
    lemma_plain_literals();
    lemma_plain_cat("# "@, n);
    lemma_plain_cat("# "@ + n, " — Pipelight CI pipeline"@);
    lemma_plain_cat("# Run: pipelight run build-"@, n);
    lemma_plain_cat("name = \"build-"@, n);
    lemma_plain_cat("name = \"build-"@ + n, "\""@);
    lemma_plain_cat("  \"echo '=== Building "@, n);
    lemma_plain_cat("  \"echo '=== Building "@ + n, " v"@);
    lemma_plain_cat("  \"echo '=== Building "@ + n + " v"@, v);
    lemma_plain_cat("  \"echo '=== Building "@ + n + " v"@ + v, " ==='\","@);
    lemma_plain_cat("  \"cd "@, s);
    lemma_plain_cat("  \"cd "@ + s, " && nix build --no-link --print-build-logs\","@);
    assert(ls.len() == 15);
    assert forall|i: int| 0 <= i < ls.len() implies plain(#[trigger] ls[i]) by {}
    assert forall|i: int, q: int| 0 <= i < ls.len() && 0 <= q < ls[i].len() implies #[trigger] ls[i][q] != '\n' by {
        assert(plain(ls[i]));
    }
    assert forall|i: int| 0 <= i < ls.len() - 1 implies crate::text::strip_cr(#[trigger] ls[i]) == ls[i] by {
        assert(plain(ls[i]));
        if ls[i].len() > 0 {
            assert(ls[i][ls[i].len() - 1] != '\r');
        }
    }
    reveal_strlit("\n");
    assert("\n"@ =~= seq!['\n']);
    crate::text::lemma_lines_of_join(ls);
}

/// Without the nora pipelines, the lines of a `pipelight.toml`: its first
/// line names the project, exactly one line opens a pipeline, that
/// pipeline is `build-<name>`, and no publish or verify step is there
/// (when the project's name, version and source directory hold no line
/// breaks).
pub proof fn lemma_single_pipeline_text(p: LatticeProject, nora: bool)
    requires
        !(nora && is_rust(p)),
        plain(p.crate_name@),
        plain(p.version@),
        plain(p.source_dir@),
    ensures
        ({
            let tl = lines(join(pipelight_lines(p, nora), "\n"@));
            &&& tl[0] == "# "@ + p.crate_name@ + " — Pipelight CI pipeline"@
            &&& tl.contains("name = \"build-"@ + p.crate_name@ + "\""@)
            &&& forall|i: int| 0 <= i < tl.len() ==> (#[trigger] tl[i] == "[[pipelines]]"@ <==> i == 3)
            &&& !tl.contains("name = \"publish-to-nora\""@)
            &&& !tl.contains("name = \"verify-in-nora\""@)
        }),
{
    lemma_pipelight_text_lines(p, nora);
    lemma_single_pipeline(p, nora);
    let ls = pipelight_lines(p, nora);
    let tl = ls.drop_last();
    assert(tl[4] == ls[4]);
    assert forall|i: int| 0 <= i < tl.len() implies (#[trigger] tl[i] == "[[pipelines]]"@ <==> i == 3) by {
        assert(tl[i] == ls[i]);
    }
    assert(!tl.contains("name = \"publish-to-nora\""@)) by {
        if tl.contains("name = \"publish-to-nora\""@) {
            let i = choose|i: int| 0 <= i < tl.len() && tl[i] == "name = \"publish-to-nora\""@;
            assert(ls[i] == tl[i]);
        }
    }
    assert(!tl.contains("name = \"verify-in-nora\""@)) by {
        if tl.contains("name = \"verify-in-nora\""@) {
            let i = choose|i: int| 0 <= i < tl.len() && tl[i] == "name = \"verify-in-nora\""@;
            assert(ls[i] == tl[i]);
        }
    }
}

fn push_build_pipeline(lines: &mut Vec<String>, name: &str, version: &str, src: &str)
    ensures
        views(final(lines)@) == views(old(lines)@) + build_pipeline(name@, version@, src@),
{
    let ghost before = views(lines@);
    push_line(lines, cat3("# ", name, " — Pipelight CI pipeline"));
    push_line(lines, cat("# Run: pipelight run build-", name));
    push_line(lines, String::new());
    push_line(lines, owned("[[pipelines]]"));
    push_line(lines, cat3("name = \"build-", name, "\""));
    push_line(lines, owned("triggers = [{ actions = [\"manual\"] }]"));
    push_line(lines, String::new());
    push_line(lines, owned("[[pipelines.steps]]"));
    push_line(lines, owned("name = \"nix-build\""));
    push_line(lines, owned("commands = ["));
    push_line(lines, cat5("  \"echo '=== Building ", name, " v", version, " ==='\","));
    push_line(lines, cat3("  \"cd ", src, " && nix build --no-link --print-build-logs\","));
    push_line(lines, owned("  \"echo '  -> Build complete'\""));
    push_line(lines, owned("]"));
    push_line(lines, String::new());
    assert(views(lines@) =~= before + build_pipeline(name@, version@, src@));
}

fn push_publish_pipeline(lines: &mut Vec<String>, name: &str, version: &str, src: &str)
    ensures
        views(final(lines)@) == views(old(lines)@) + publish_pipeline(name@, version@, src@),
{
    let ghost before = views(lines@);
    push_line(lines, owned("[[pipelines]]"));
    push_line(lines, cat3("name = \"publish-", name, "\""));
    push_line(lines, owned("triggers = [{ actions = [\"manual\"] }]"));
    push_line(lines, String::new());
    push_line(lines, owned("[[pipelines.steps]]"));
    push_line(lines, owned("name = \"publish-to-nora\""));
    push_line(lines, owned("commands = ["));
    push_line(lines, cat5("  \"echo '=== Publishing ", name, " v", version, " to nora ==='\","));
    push_line(lines, cat3("  \"cd ", src, " && cargo publish --registry nora --allow-dirty 2>&1\","));
    push_line(lines, owned("  \"echo '  -> Published'\""));
    push_line(lines, owned("]"));
    push_line(lines, String::new());
    push_line(lines, owned("[[pipelines.steps]]"));
    push_line(lines, owned("name = \"verify-in-nora\""));
    push_line(lines, owned("commands = ["));
    push_line(lines, cat3("  \"echo '=== Verifying ", name, " in nora ==='\","));
    push_line(
        lines,
        cat3("  \"curl -s http://127.0.0.1:4000/cargo/api/v1/crates/", name, " 2>&1 | head -5\","),
    );
    push_line(lines, owned("  \"echo '  -> Verified'\""));
    push_line(lines, owned("]"));
    push_line(lines, String::new());
    assert(views(lines@) =~= before + publish_pipeline(name@, version@, src@));
}

fn push_ci_pipeline(lines: &mut Vec<String>, name: &str, version: &str, src: &str)
    ensures
        views(final(lines)@) == views(old(lines)@) + ci_pipeline(name@, version@, src@),
{
    let ghost before = views(lines@);
    push_line(lines, owned("[[pipelines]]"));
    push_line(lines, cat3("name = \"ci-", name, "\""));
    push_line(lines, owned("triggers = [{ actions = [\"manual\"] }]"));
    push_line(lines, String::new());
    push_line(lines, owned("[[pipelines.steps]]"));
    push_line(lines, owned("name = \"build\""));
    push_line(lines, owned("commands = ["));
    push_line(lines, cat5("  \"echo '=== CI: ", name, " v", version, " ==='\","));
    push_line(lines, cat3("  \"cd ", src, " && nix build --no-link --print-build-logs\","));
    push_line(lines, owned("]"));
    push_line(lines, String::new());
    push_line(lines, owned("[[pipelines.steps]]"));
    push_line(lines, owned("name = \"publish\""));
    push_line(lines, owned("commands = ["));
    push_line(lines, cat3("  \"cd ", src, " && cargo publish --registry nora --allow-dirty 2>&1\","));
    push_line(lines, owned("]"));
    push_line(lines, String::new());
    push_line(lines, owned("[[pipelines.steps]]"));
    push_line(lines, owned("name = \"verify\""));
    push_line(lines, owned("commands = ["));
    push_line(
        lines,
        cat3("  \"curl -s http://127.0.0.1:4000/cargo/api/v1/crates/", name, " 2>&1 | head -3\","),
    );
    push_line(lines, owned("]"));
    assert(views(lines@) =~= before + ci_pipeline(name@, version@, src@));
}

/// Renders a project's `pipelight.toml`: a build pipeline, and with nora
/// for a Rust project also the publish and CI pipelines.
pub fn render_pipelight_toml(project: &LatticeProject, nora: bool) -> (r: String)
    ensures
        r@ == join(pipelight_lines(*project, nora), "\n"@),
{
    let name = project.crate_name.as_str();
    let version = project.version.as_str();
    let src = project.source_dir.as_str();
    let mut lines: Vec<String> = Vec::new();
    assert(views(lines@) =~= Seq::<Seq<char>>::empty());
    push_build_pipeline(&mut lines, name, version, src);
    if nora && str_eq(project.language.as_str(), "Rust") {
        push_publish_pipeline(&mut lines, name, version, src);
        push_ci_pipeline(&mut lines, name, version, src);
    }
    assert(views(lines@) =~= pipelight_lines(*project, nora));
    join_strings(&lines, "\n")
}

// ───────────────────────────── SKILL.md ────────────────────────────────

/// The description shown: the project's own, or a generated one.
pub open spec fn skill_description(p: LatticeProject) -> Seq<char> {
    if p.description@.len() == 0 {
        p.crate_name@ + " crate (v"@ + p.version@ + ")"@
    } else {
        p.description@
    }
}

/// The dependency list: one `  - dep` line per dependency.
pub open spec fn dep_items(deps: Seq<Seq<char>>) -> Seq<Seq<char>> {
    deps.map_values(|d: Seq<char>| "  - "@ + d)
}

/// The dependency section body.
pub open spec fn skill_dep_list(p: LatticeProject) -> Seq<char> {
    if p.dependencies.len() == 0 {
        "  (none detected)"@
    } else {
        join(dep_items(views(p.dependencies@)), "\n"@)
    }
}

/// The git mirror section.
pub open spec fn skill_mirror_section(p: LatticeProject) -> Seq<char> {
    match p.git_mirror {
        Some(m) => "## Git Mirror\n\n- Bare mirror: `"@ + m@ + "`\n- Working copy: `"@ + p.source_dir@
            + "`\n- Remotes: `origin` → local mirror, `upstream` → upstream"@,
        None => "## Git Mirror\n\n(no mirror configured)"@,
    }
}

/// The pipelight section.
pub open spec fn skill_pipelight_section(p: LatticeProject) -> Seq<char> {
    let n = p.crate_name@;
    let head = "## Pipelight\n\n```bash\npipelight run build-"@ + n + "    # nix build\n"@;
    if is_rust(p) {
        head + "pipelight run publish-"@ + n + "  # publish to nora\npipelight run ci-"@ + n
            + "       # build + publish + verify\n```"@
    } else {
        head + "```"@
    }
}

/// The nora section (Rust only).
pub open spec fn skill_nora_section(p: LatticeProject) -> Seq<char> {
    if is_rust(p) {
        NORA_SECTION@
    } else {
        Seq::empty()
    }
}

/// The nora section of `SKILL.md` for Rust projects.
pub const NORA_SECTION: &'static str = "## Nora\n\nThis crate is served from the local nora registry.\nOther flakes consume it via:\n\n```toml\n[source.nora]\nregistry = \"http://127.0.0.1:4000/cargo/index\"\n```";

/// The text of a project's `SKILL.md`.
pub open spec fn skill_md(p: LatticeProject) -> Seq<char> {
    "# "@ + p.crate_name@ + "\n\n"@ + skill_description(p) + "\n\n## Metadata\n\n- **Language**: "@
        + p.language@ + "\n- **Version**: "@ + p.version@ + "\n- **Source**: `"@ + p.source_dir@
        + "`\n- **Registry**: nora (http://127.0.0.1:4000/cargo/index)\n\n"@ + skill_mirror_section(p)
        + "\n\n## Dependencies\n\n"@ + skill_dep_list(p)
        + "\n\n## Nix Build\n\n```bash\nnix build\n```\n\n"@ + skill_pipelight_section(p) + "\n\n"@
        + skill_nora_section(p) + "\n"@
}

fn dep_list_text(deps: &Vec<String>) -> (r: String)
    ensures
        r@ == (if deps.len() == 0 {
            "  (none detected)"@
        } else {
            join(dep_items(views(deps@)), "\n"@)
        }),
{
    if deps.len() == 0 {
        return owned("  (none detected)");
    }
    let mut items: Vec<String> = Vec::new();
    for i in 0..deps.len()
        invariant
            views(items@) == dep_items(views(deps@)).take(i as int),
    {
        push_line(&mut items, cat("  - ", deps[i].as_str()));
        assert(views(items@) =~= dep_items(views(deps@)).take(i + 1));
    }
    assert(dep_items(views(deps@)).take(deps.len() as int) =~= dep_items(views(deps@)));
    join_strings(&items, "\n")
}

fn description_text(project: &LatticeProject) -> (r: String)
    ensures
        r@ == skill_description(*project),
{
    if project.description.as_str().is_empty() {
        let mut out = cat3(project.crate_name.as_str(), " crate (v", project.version.as_str());
        push_str(&mut out, ")");
        out
    } else {
        project.description.clone()
    }
}

fn mirror_text(project: &LatticeProject) -> (r: String)
    ensures
        r@ == skill_mirror_section(*project),
{
    match &project.git_mirror {
        Some(m) => {
            let mut out = cat3("## Git Mirror\n\n- Bare mirror: `", m.as_str(), "`\n- Working copy: `");
            push_str(&mut out, project.source_dir.as_str());
            push_str(&mut out, "`\n- Remotes: `origin` → local mirror, `upstream` → upstream");
            out
        },
        None => owned("## Git Mirror\n\n(no mirror configured)"),
    }
}

fn pipelight_text(project: &LatticeProject) -> (r: String)
    ensures
        r@ == skill_pipelight_section(*project),
{
    let name = project.crate_name.as_str();
    let mut out = cat3("## Pipelight\n\n```bash\npipelight run build-", name, "    # nix build\n");
    if str_eq(project.language.as_str(), "Rust") {
        push_str(&mut out, "pipelight run publish-");
        push_str(&mut out, name);
        push_str(&mut out, "  # publish to nora\npipelight run ci-");
        push_str(&mut out, name);
        push_str(&mut out, "       # build + publish + verify\n```");
    } else {
        push_str(&mut out, "```");
    }
    out
}

fn nora_text(project: &LatticeProject) -> (r: String)
    ensures
        r@ == skill_nora_section(*project),
{
    if str_eq(project.language.as_str(), "Rust") {
        owned(NORA_SECTION)
    } else {
        String::new()
    }
}

/// Renders a project's `SKILL.md`.
pub fn render_skill_md(project: &LatticeProject) -> (r: String)
    ensures
        r@ == skill_md(*project),
{
    let mut out = cat3("# ", project.crate_name.as_str(), "\n\n");
    let d = description_text(project);
    push_str(&mut out, d.as_str());
    push_str(&mut out, "\n\n## Metadata\n\n- **Language**: ");
    push_str(&mut out, project.language.as_str());
    push_str(&mut out, "\n- **Version**: ");
    push_str(&mut out, project.version.as_str());
    push_str(&mut out, "\n- **Source**: `");
    push_str(&mut out, project.source_dir.as_str());
    push_str(&mut out, "`\n- **Registry**: nora (http://127.0.0.1:4000/cargo/index)\n\n");
    let m = mirror_text(project);
    push_str(&mut out, m.as_str());
    push_str(&mut out, "\n\n## Dependencies\n\n");
    let deps = dep_list_text(&project.dependencies);
    push_str(&mut out, deps.as_str());
    push_str(&mut out, "\n\n## Nix Build\n\n```bash\nnix build\n```\n\n");
    let pl = pipelight_text(project);
    push_str(&mut out, pl.as_str());
    push_str(&mut out, "\n\n");
    let n = nora_text(project);
    push_str(&mut out, n.as_str());
    push_str(&mut out, "\n");
    out
}

// ───────────────────────────── the node ────────────────────────────────

/// What generating a lattice node writes.
pub struct LatticePlan {
    /// `<output_dir>/<crate name>`, to be created.
    pub node_dir: String,
    /// For a Rust project, its flake (written as `generate_flake` plans it).
    pub flake: Option<FlakePlan>,
    /// Files to write, `(path, content)`, in order.
    pub files: Vec<(String, String)>,
    /// `(from, to)`: the project's `Cargo.lock`, copied into the node.
    pub copy_lock: Option<(String, String)>,
    /// The number of files the node receives.
    pub file_count: usize,
}

/// The files of a lattice node besides its flake.
pub open spec fn node_files(p: LatticeProject, node: Seq<char>, nora: bool) -> Seq<(Seq<char>, Seq<char>)> {
    seq![(join_path(node, "pipelight.toml"@), join(pipelight_lines(p, nora), "\n"@))] + (if nora {
        seq![(join_path(join_path(node, ".cargo"@), "config.toml"@), NORA_CARGO_CONFIG@)]
    } else {
        Seq::empty()
    }) + seq![(join_path(node, "SKILL.md"@), skill_md(p))]
}

/// Plans a project's lattice node under `output_dir`.
///
/// For a Rust project its flake is generated as `generate_flake` does with
/// the simple style, a local source and no vendor directory; `package`,
/// `has_lock` and `workspace_lock` describe the project's manifest and
/// lock as `generate_flake` takes them. `has_lock` also decides whether the
/// project's `Cargo.lock` is copied into the node.
pub fn generate_lattice_node(
    project: &LatticeProject,
    output_dir: &str,
    nora: bool,
    package: Option<CargoPackage>,
    has_lock: bool,
    workspace_lock: Option<&str>,
) -> (r: Result<LatticePlan, FlakeError>)
    ensures
        is_rust(*project) ==> match r {
            Err(e) => flake_outcome(
                project.source_dir@,
                output_dir@,
                package,
                has_lock,
                workspace_lock.deep_view(),
                None,
                FlakeStyle::Simple,
                None,
                FlakeSource::LocalDir,
                nora,
                Err(e),
            ),
            Ok(lp) => lp.flake matches Some(fp) && flake_outcome(
                project.source_dir@,
                output_dir@,
                package,
                has_lock,
                workspace_lock.deep_view(),
                None,
                FlakeStyle::Simple,
                None,
                FlakeSource::LocalDir,
                nora,
                Ok(fp),
            ),
        },
        !is_rust(*project) ==> (r matches Ok(lp) && lp.flake is None),
        r matches Ok(lp) ==> {
            let node = join_path(output_dir@, project.crate_name@);
            &&& lp.node_dir@ == node
            &&& lp.files.deep_view() == node_files(*project, node, nora)
            &&& lp.copy_lock.deep_view() == (if has_lock {
                Some((join_path(project.source_dir@, "Cargo.lock"@), join_path(node, "Cargo.lock"@)))
            } else {
                None
            })
            &&& lp.file_count == (if is_rust(*project) { 2int } else { 0 }) + 2 + (if nora { 1int } else { 0 })
                + (if has_lock { 1int } else { 0 })
        },
{
    let node_dir = path_join(output_dir, project.crate_name.as_str());
    let mut count: usize = 0;
    let flake = if str_eq(project.language.as_str(), "Rust") {
        let src = FlakeSource::LocalDir;
        match generate_flake(
            project.source_dir.as_str(),
            output_dir,
            package,
            has_lock,
            workspace_lock,
            None,
            FlakeStyle::Simple,
            None,
            &src,
            nora,
        ) {
            Ok(fp) => {
                count = fp.file_count;
                Some(fp)
            },
            Err(e) => {
                return Err(e);
            },
        }
    } else {
        None
    };
    let mut files: Vec<(String, String)> = Vec::new();
    files.push((path_join(node_dir.as_str(), "pipelight.toml"), render_pipelight_toml(project, nora)));
    count = count + 1;
    if nora {
        let cargo_dir = path_join(node_dir.as_str(), ".cargo");
        files.push((path_join(cargo_dir.as_str(), "config.toml"), owned(NORA_CARGO_CONFIG)));
        count = count + 1;
    }
    files.push((path_join(node_dir.as_str(), "SKILL.md"), render_skill_md(project)));
    count = count + 1;
    let copy_lock = if has_lock {
        count = count + 1;
        Some((path_join(project.source_dir.as_str(), "Cargo.lock"), path_join(node_dir.as_str(), "Cargo.lock")))
    } else {
        None
    };
    let lp = LatticePlan { node_dir, flake, files, copy_lock, file_count: count };
    assert(lp.files.deep_view() =~= node_files(*project, lp.node_dir@, nora));
    Ok(lp)
}

} // verus!
