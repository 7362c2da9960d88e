//! The structure found in `Cargo.toml` files (schema elements and workload
//! patterns) and its two renderings: a Markdown analysis and a Graphviz
//! graph.
use vstd::prelude::*;
use crate::global_dep_graph::{builder_wf, graph_of, GlobalDependencyGraphBuilder};
use crate::text::{cat, cat3, cat5, concat, concat_strings, has_prefix, has_suffix, str_eq, decimal, decimal_string, join, join_strings, owned, push_str, views};

verus! {

broadcast use vstd::string::group_string_axioms;

/// The kind of a schema element.
#[derive(PartialEq, Eq, Structural, Clone, Copy, Debug)]
pub enum SchemaElementType {
    Package,
    Dependency,
    DevDependency,
    BuildDependency,
    Feature,
    Binary,
    Benchmark,
    Test,
    Profile,
    Metadata,
    Workspace,
    Patch,
    Replace,
    Lib,
    Target,
    Custom,
}

/// An element of a manifest's schema.
pub struct SchemaElement {
    pub element_type: SchemaElementType,
    pub path: String,
    pub value_type: String,
    pub is_array: bool,
    pub is_table: bool,
    pub is_inline_table: bool,
    pub children: Vec<String>,
    /// Key-value properties, in the order they are shown.
    pub properties: Vec<(String, String)>,
}

/// The kind of a workload pattern.
#[derive(PartialEq, Eq, Structural, Clone, Copy, Debug)]
pub enum WorkloadPatternType {
    BinaryTarget,
    TestSuite,
    BenchmarkSuite,
    FeatureFlag,
    ConditionalCompilation,
    WorkspaceMember,
    DependencyOverride,
    ProfileOptimization,
    MetadataExtension,
    CustomBuildScript,
}

/// A workload pattern recognised in a manifest.
pub struct WorkloadPattern {
    pub pattern_type: WorkloadPatternType,
    pub name: String,
    pub location: String,
    pub related_elements: Vec<String>,
    /// Key-value properties, in the order they are shown.
    pub properties: Vec<(String, String)>,
}

/// What one `Cargo.toml` holds.
pub struct TomlStructure {
    pub crate_name: String,
    pub crate_version: String,
    pub file_path: String,
    pub schema_elements: Vec<SchemaElement>,
    pub workload_patterns: Vec<WorkloadPattern>,
    pub is_workspace: bool,
    pub has_binaries: bool,
    pub has_tests: bool,
    pub has_benchmarks: bool,
}

// ───────────────────────────── labels ──────────────────────────────────

/// The label of an element kind in the Markdown analysis.
pub open spec fn element_label(t: SchemaElementType) -> Seq<char> {
    match t {
        SchemaElementType::Package => "Package"@,
        SchemaElementType::Dependency => "Dependency"@,
        SchemaElementType::DevDependency => "Dev Dependency"@,
        SchemaElementType::BuildDependency => "Build Dependency"@,
        SchemaElementType::Feature => "Feature"@,
        SchemaElementType::Binary => "Binary"@,
        SchemaElementType::Benchmark => "Benchmark"@,
        SchemaElementType::Test => "Test"@,
        SchemaElementType::Profile => "Profile"@,
        SchemaElementType::Metadata => "Metadata"@,
        SchemaElementType::Workspace => "Workspace"@,
        SchemaElementType::Patch => "Patch"@,
        SchemaElementType::Replace => "Replace"@,
        SchemaElementType::Lib => "Lib"@,
        SchemaElementType::Target => "Target"@,
        SchemaElementType::Custom => "Custom"@,
    }
}

fn element_label_str(t: SchemaElementType) -> (r: &'static str)
    ensures
        r@ == element_label(t),
{
    match t {
        SchemaElementType::Package => "Package",
        SchemaElementType::Dependency => "Dependency",
        SchemaElementType::DevDependency => "Dev Dependency",
        SchemaElementType::BuildDependency => "Build Dependency",
        SchemaElementType::Feature => "Feature",
        SchemaElementType::Binary => "Binary",
        SchemaElementType::Benchmark => "Benchmark",
        SchemaElementType::Test => "Test",
        SchemaElementType::Profile => "Profile",
        SchemaElementType::Metadata => "Metadata",
        SchemaElementType::Workspace => "Workspace",
        SchemaElementType::Patch => "Patch",
        SchemaElementType::Replace => "Replace",
        SchemaElementType::Lib => "Lib",
        SchemaElementType::Target => "Target",
        SchemaElementType::Custom => "Custom",
    }
}

/// The short label of an element kind in the graph.
pub open spec fn element_short_label(t: SchemaElementType) -> Seq<char> {
    match t {
        SchemaElementType::Dependency => "Dep"@,
        SchemaElementType::DevDependency => "DevDep"@,
        SchemaElementType::BuildDependency => "BuildDep"@,
        _ => element_label(t),
    }
}

fn element_short_label_str(t: SchemaElementType) -> (r: &'static str)
    ensures
        r@ == element_short_label(t),
{
    match t {
        SchemaElementType::Dependency => "Dep",
        SchemaElementType::DevDependency => "DevDep",
        SchemaElementType::BuildDependency => "BuildDep",
        _ => element_label_str(t),
    }
}

/// The fill colour of an element kind in the graph.
pub open spec fn element_color(t: SchemaElementType) -> Seq<char> {
    match t {
        SchemaElementType::Package => "lightyellow"@,
        SchemaElementType::Dependency => "lightpink"@,
        SchemaElementType::DevDependency => "lightpink"@,
        SchemaElementType::BuildDependency => "lightpink"@,
        SchemaElementType::Feature => "lightgreen"@,
        SchemaElementType::Binary => "lightblue"@,
        SchemaElementType::Benchmark => "lightblue"@,
        SchemaElementType::Test => "lightblue"@,
        SchemaElementType::Metadata => "lightgray"@,
        SchemaElementType::Workspace => "palegreen"@,
        _ => "white"@,
    }
}

fn element_color_str(t: SchemaElementType) -> (r: &'static str)
    ensures
        r@ == element_color(t),
{
    match t {
        SchemaElementType::Package => "lightyellow",
        SchemaElementType::Dependency => "lightpink",
        SchemaElementType::DevDependency => "lightpink",
        SchemaElementType::BuildDependency => "lightpink",
        SchemaElementType::Feature => "lightgreen",
        SchemaElementType::Binary => "lightblue",
        SchemaElementType::Benchmark => "lightblue",
        SchemaElementType::Test => "lightblue",
        SchemaElementType::Metadata => "lightgray",
        SchemaElementType::Workspace => "palegreen",
        _ => "white",
    }
}

/// The label of a pattern kind in the Markdown analysis.
pub open spec fn pattern_label(t: WorkloadPatternType) -> Seq<char> {
    match t {
        WorkloadPatternType::BinaryTarget => "Binary Target"@,
        WorkloadPatternType::TestSuite => "Test Suite"@,
        WorkloadPatternType::BenchmarkSuite => "Benchmark Suite"@,
        WorkloadPatternType::FeatureFlag => "Feature Flag"@,
        WorkloadPatternType::ConditionalCompilation => "Conditional Compilation"@,
        WorkloadPatternType::WorkspaceMember => "Workspace Member"@,
        WorkloadPatternType::DependencyOverride => "Dependency Override"@,
        WorkloadPatternType::ProfileOptimization => "Profile Optimization"@,
        WorkloadPatternType::MetadataExtension => "Metadata Extension"@,
        WorkloadPatternType::CustomBuildScript => "Custom Build Script"@,
    }
}

fn pattern_label_str(t: WorkloadPatternType) -> (r: &'static str)
    ensures
        r@ == pattern_label(t),
{
    match t {
        WorkloadPatternType::BinaryTarget => "Binary Target",
        WorkloadPatternType::TestSuite => "Test Suite",
        WorkloadPatternType::BenchmarkSuite => "Benchmark Suite",
        WorkloadPatternType::FeatureFlag => "Feature Flag",
        WorkloadPatternType::ConditionalCompilation => "Conditional Compilation",
        WorkloadPatternType::WorkspaceMember => "Workspace Member",
        WorkloadPatternType::DependencyOverride => "Dependency Override",
        WorkloadPatternType::ProfileOptimization => "Profile Optimization",
        WorkloadPatternType::MetadataExtension => "Metadata Extension",
        WorkloadPatternType::CustomBuildScript => "Custom Build Script",
    }
}

/// The plural label of a pattern kind in the summary.
pub open spec fn pattern_plural(t: WorkloadPatternType) -> Seq<char> {
    match t {
        WorkloadPatternType::BinaryTarget => "Binary Targets"@,
        WorkloadPatternType::TestSuite => "Test Suites"@,
        WorkloadPatternType::BenchmarkSuite => "Benchmark Suites"@,
        WorkloadPatternType::FeatureFlag => "Feature Flags"@,
        WorkloadPatternType::ConditionalCompilation => "Conditional Compilations"@,
        WorkloadPatternType::WorkspaceMember => "Workspace Members"@,
        WorkloadPatternType::DependencyOverride => "Dependency Overrides"@,
        WorkloadPatternType::ProfileOptimization => "Profile Optimizations"@,
        WorkloadPatternType::MetadataExtension => "Metadata Extensions"@,
        WorkloadPatternType::CustomBuildScript => "Custom Build Scripts"@,
    }
}

fn pattern_plural_str(t: WorkloadPatternType) -> (r: &'static str)
    ensures
        r@ == pattern_plural(t),
{
    match t {
        WorkloadPatternType::BinaryTarget => "Binary Targets",
        WorkloadPatternType::TestSuite => "Test Suites",
        WorkloadPatternType::BenchmarkSuite => "Benchmark Suites",
        WorkloadPatternType::FeatureFlag => "Feature Flags",
        WorkloadPatternType::ConditionalCompilation => "Conditional Compilations",
        WorkloadPatternType::WorkspaceMember => "Workspace Members",
        WorkloadPatternType::DependencyOverride => "Dependency Overrides",
        WorkloadPatternType::ProfileOptimization => "Profile Optimizations",
        WorkloadPatternType::MetadataExtension => "Metadata Extensions",
        WorkloadPatternType::CustomBuildScript => "Custom Build Scripts",
    }
}

/// The short label of a pattern kind in the graph.
pub open spec fn pattern_short_label(t: WorkloadPatternType) -> Seq<char> {
    match t {
        WorkloadPatternType::BinaryTarget => "Binary"@,
        WorkloadPatternType::TestSuite => "Test"@,
        WorkloadPatternType::BenchmarkSuite => "Benchmark"@,
        WorkloadPatternType::FeatureFlag => "Feature"@,
        WorkloadPatternType::ConditionalCompilation => "Conditional"@,
        WorkloadPatternType::WorkspaceMember => "Workspace"@,
        WorkloadPatternType::DependencyOverride => "Override"@,
        WorkloadPatternType::ProfileOptimization => "Profile"@,
        WorkloadPatternType::MetadataExtension => "Metadata"@,
        WorkloadPatternType::CustomBuildScript => "Build"@,
    }
}

fn pattern_short_label_str(t: WorkloadPatternType) -> (r: &'static str)
    ensures
        r@ == pattern_short_label(t),
{
    match t {
        WorkloadPatternType::BinaryTarget => "Binary",
        WorkloadPatternType::TestSuite => "Test",
        WorkloadPatternType::BenchmarkSuite => "Benchmark",
        WorkloadPatternType::FeatureFlag => "Feature",
        WorkloadPatternType::ConditionalCompilation => "Conditional",
        WorkloadPatternType::WorkspaceMember => "Workspace",
        WorkloadPatternType::DependencyOverride => "Override",
        WorkloadPatternType::ProfileOptimization => "Profile",
        WorkloadPatternType::MetadataExtension => "Metadata",
        WorkloadPatternType::CustomBuildScript => "Build",
    }
}

/// The fill colour of a pattern kind in the graph.
pub open spec fn pattern_color(t: WorkloadPatternType) -> Seq<char> {
    match t {
        WorkloadPatternType::BinaryTarget => "lightblue"@,
        WorkloadPatternType::TestSuite => "lightgreen"@,
        WorkloadPatternType::BenchmarkSuite => "lightyellow"@,
        WorkloadPatternType::FeatureFlag => "lightpink"@,
        WorkloadPatternType::ConditionalCompilation => "lightgray"@,
        WorkloadPatternType::WorkspaceMember => "palegreen"@,
        WorkloadPatternType::DependencyOverride => "orange"@,
        WorkloadPatternType::ProfileOptimization => "purple"@,
        WorkloadPatternType::MetadataExtension => "gray"@,
        WorkloadPatternType::CustomBuildScript => "brown"@,
    }
}

fn pattern_color_str(t: WorkloadPatternType) -> (r: &'static str)
    ensures
        r@ == pattern_color(t),
{
    match t {
        WorkloadPatternType::BinaryTarget => "lightblue",
        WorkloadPatternType::TestSuite => "lightgreen",
        WorkloadPatternType::BenchmarkSuite => "lightyellow",
        WorkloadPatternType::FeatureFlag => "lightpink",
        WorkloadPatternType::ConditionalCompilation => "lightgray",
        WorkloadPatternType::WorkspaceMember => "palegreen",
        WorkloadPatternType::DependencyOverride => "orange",
        WorkloadPatternType::ProfileOptimization => "purple",
        WorkloadPatternType::MetadataExtension => "gray",
        WorkloadPatternType::CustomBuildScript => "brown",
    }
}

/// `true` or `false`, as `bool` displays.
pub open spec fn bool_text(b: bool) -> Seq<char> {
    if b {
        "true"@
    } else {
        "false"@
    }
}

fn bool_str(b: bool) -> (r: &'static str)
    ensures
        r@ == bool_text(b),
{
    if b {
        "true"
    } else {
        "false"
    }
}

// ───────────────────────────── pieces ──────────────────────────────────

/// Appends a piece made of five parts.
fn push5(out: &mut Vec<String>, a: &str, b: &str, c: &str, d: &str, e: &str)
    ensures
        views(final(out)@) == views(old(out)@).push(a@ + b@ + c@ + d@ + e@),
{
    let mut s = owned(a);
    push_str(&mut s, b);
    push_str(&mut s, c);
    push_str(&mut s, d);
    push_str(&mut s, e);
    let ghost before = out@;
    out.push(s);
    assert(views(out@) =~= views(before).push(a@ + b@ + c@ + d@ + e@));
}

/// The lines of key-value properties.
pub open spec fn property_pieces(props: Seq<(String, String)>) -> Seq<Seq<char>>
    decreases props.len(),
{
    if props.len() == 0 {
        Seq::empty()
    } else {
        property_pieces(props.drop_last()).push("    - "@ + props.last().0@ + ": "@ + props.last().1@ + "\n"@)
    }
}

fn push_properties(out: &mut Vec<String>, props: &Vec<(String, String)>)
    ensures
        views(final(out)@) == views(old(out)@) + property_pieces(props@),
{
    let ghost start = views(out@);
    let mut i: usize = 0;
    assert(props@.take(0) =~= Seq::<(String, String)>::empty());
    assert(start + property_pieces(props@.take(0)) =~= start);
    while i < props.len()
        invariant
            i <= props.len(),
            views(out@) == start + property_pieces(props@.take(i as int)),
        decreases props.len() - i,
    {
        push5(out, "    - ", props[i].0.as_str(), ": ", props[i].1.as_str(), "\n");
        assert(props@.take(i + 1).drop_last() =~= props@.take(i as int));
        assert(views(out@) =~= start + property_pieces(props@.take(i + 1)));
        i += 1;
    }
    assert(props@.take(i as int) =~= props@);
}

/// The Markdown lines of a schema element.
pub open spec fn element_pieces(e: SchemaElement) -> Seq<Seq<char>> {
    seq!["- **"@ + e.path@ + "** ("@ + e.value_type@ + "): "@ + element_label(e.element_type) + "\n"@]
        + (if e.children@.len() > 0 {
        seq!["  - Children: "@ + join(views(e.children@), ", "@) + "\n"@]
    } else {
        Seq::empty()
    }) + (if e.properties@.len() > 0 {
        seq!["  - Properties:\n"@] + property_pieces(e.properties@)
    } else {
        Seq::empty()
    })
}

/// The Markdown lines of schema elements.
pub open spec fn elements_pieces(es: Seq<SchemaElement>) -> Seq<Seq<char>>
    decreases es.len(),
{
    if es.len() == 0 {
        Seq::empty()
    } else {
        elements_pieces(es.drop_last()) + element_pieces(es.last())
    }
}

fn push_element(out: &mut Vec<String>, e: &SchemaElement)
    ensures
        views(final(out)@) == views(old(out)@) + element_pieces(*e),
{
    let ghost start = views(out@);
    let mut s = cat5("- **", e.path.as_str(), "** (", e.value_type.as_str(), "): ");
    push_str(&mut s, element_label_str(e.element_type));
    push_str(&mut s, "\n");
    out.push(s);
    assert(views(out@) =~= start + element_pieces(*e).take(1));
    if e.children.len() > 0 {
        let j = join_strings(&e.children, ", ");
        let ghost b = out@;
        out.push(cat3("  - Children: ", j.as_str(), "\n"));
        assert(views(out@) =~= views(b).push("  - Children: "@ + j@ + "\n"@));
    }
    if e.properties.len() > 0 {
        let ghost b = out@;
        out.push(owned("  - Properties:\n"));
        assert(views(out@) =~= views(b).push("  - Properties:\n"@));
        push_properties(out, &e.properties);
    }
    assert(views(out@) =~= start + element_pieces(*e));
}

fn push_elements(out: &mut Vec<String>, es: &Vec<SchemaElement>)
    ensures
        views(final(out)@) == views(old(out)@) + elements_pieces(es@),
{
    let ghost start = views(out@);
    let mut i: usize = 0;
    assert(es@.take(0) =~= Seq::<SchemaElement>::empty());
    assert(start + elements_pieces(es@.take(0)) =~= start);
    while i < es.len()
        invariant
            i <= es.len(),
            views(out@) == start + elements_pieces(es@.take(i as int)),
        decreases es.len() - i,
    {
        push_element(out, &es[i]);
        assert(es@.take(i + 1).drop_last() =~= es@.take(i as int));
        assert(views(out@) =~= start + elements_pieces(es@.take(i + 1)));
        i += 1;
    }
    assert(es@.take(i as int) =~= es@);
}


/// The Markdown lines of a workload pattern.
pub open spec fn pattern_pieces(p: WorkloadPattern) -> Seq<Seq<char>> {
    seq!["- **"@ + p.name@ + "** ("@ + pattern_label(p.pattern_type) + "): "@ + p.location@ + "\n"@]
        + (if p.related_elements@.len() > 0 {
        seq!["  - Related Elements: "@ + join(views(p.related_elements@), ", "@) + "\n"@]
    } else {
        Seq::empty()
    }) + (if p.properties@.len() > 0 {
        seq!["  - Properties:\n"@] + property_pieces(p.properties@)
    } else {
        Seq::empty()
    })
}

/// The Markdown lines of workload patterns.
pub open spec fn patterns_pieces(ps: Seq<WorkloadPattern>) -> Seq<Seq<char>>
    decreases ps.len(),
{
    if ps.len() == 0 {
        Seq::empty()
    } else {
        patterns_pieces(ps.drop_last()) + pattern_pieces(ps.last())
    }
}

fn push_pattern(out: &mut Vec<String>, p: &WorkloadPattern)
    ensures
        views(final(out)@) == views(old(out)@) + pattern_pieces(*p),
{
    let ghost start = views(out@);
    let mut s = cat5("- **", p.name.as_str(), "** (", pattern_label_str(p.pattern_type), "): ");
    push_str(&mut s, p.location.as_str());
    push_str(&mut s, "\n");
    out.push(s);
    assert(views(out@) =~= start + pattern_pieces(*p).take(1));
    if p.related_elements.len() > 0 {
        let j = join_strings(&p.related_elements, ", ");
        let ghost b = out@;
        out.push(cat3("  - Related Elements: ", j.as_str(), "\n"));
        assert(views(out@) =~= views(b).push("  - Related Elements: "@ + j@ + "\n"@));
    }
    if p.properties.len() > 0 {
        let ghost b = out@;
        out.push(owned("  - Properties:\n"));
        assert(views(out@) =~= views(b).push("  - Properties:\n"@));
        push_properties(out, &p.properties);
    }
    assert(views(out@) =~= start + pattern_pieces(*p));
}

fn push_patterns(out: &mut Vec<String>, ps: &Vec<WorkloadPattern>)
    ensures
        views(final(out)@) == views(old(out)@) + patterns_pieces(ps@),
{
    let ghost start = views(out@);
    let mut i: usize = 0;
    assert(ps@.take(0) =~= Seq::<WorkloadPattern>::empty());
    assert(start + patterns_pieces(ps@.take(0)) =~= start);
    while i < ps.len()
        invariant
            i <= ps.len(),
            views(out@) == start + patterns_pieces(ps@.take(i as int)),
        decreases ps.len() - i,
    {
        push_pattern(out, &ps[i]);
        assert(ps@.take(i + 1).drop_last() =~= ps@.take(i as int));
        assert(views(out@) =~= start + patterns_pieces(ps@.take(i + 1)));
        i += 1;
    }
    assert(ps@.take(i as int) =~= ps@);
}

/// The Markdown section of the `i`-th structure (counted from 0).
pub open spec fn section_pieces(i: nat, t: TomlStructure) -> Seq<Seq<char>> {
    seq![
        "### "@ + decimal(i + 1) + " - "@ + t.crate_name@ + " v"@ + t.crate_version@ + "\n\n"@,
        "- **File Path**: "@ + t.file_path@ + "\n"@,
        "- **Is Workspace**: "@ + bool_text(t.is_workspace) + "\n"@,
        "- **Has Binaries**: "@ + bool_text(t.has_binaries) + "\n"@,
        "- **Has Tests**: "@ + bool_text(t.has_tests) + "\n"@,
        "- **Has Benchmarks**: "@ + bool_text(t.has_benchmarks) + "\n\n"@,
        "**Schema Elements**:\n\n"@,
    ] + elements_pieces(t.schema_elements@) + (if t.workload_patterns@.len() > 0 {
        seq!["\n**Workload Patterns**:\n\n"@] + patterns_pieces(t.workload_patterns@)
    } else {
        Seq::empty()
    }) + seq!["\n---\n\n"@]
}

/// The Markdown sections of structures.
pub open spec fn sections_pieces(ts: Seq<TomlStructure>) -> Seq<Seq<char>>
    decreases ts.len(),
{
    if ts.len() == 0 {
        Seq::empty()
    } else {
        sections_pieces(ts.drop_last()) + section_pieces((ts.len() - 1) as nat, ts.last())
    }
}

fn push_line_of(out: &mut Vec<String>, s: String)
    ensures
        views(final(out)@) == views(old(out)@).push(s@),
{
    let ghost b = out@;
    out.push(s);
    assert(views(out@) =~= views(b).push(s@));
}

fn push_section(out: &mut Vec<String>, i: usize, t: &TomlStructure)
    requires
        i < usize::MAX,
    ensures
        views(final(out)@) == views(old(out)@) + section_pieces(i as nat, *t),
{
    let ghost start = views(out@);
    let n = decimal_string(i + 1);
    let mut h = cat3("### ", n.as_str(), " - ");
    push_str(&mut h, t.crate_name.as_str());
    push_str(&mut h, " v");
    push_str(&mut h, t.crate_version.as_str());
    push_str(&mut h, "\n\n");
    push_line_of(out, h);
    push_line_of(out, cat3("- **File Path**: ", t.file_path.as_str(), "\n"));
    push_line_of(out, cat3("- **Is Workspace**: ", bool_str(t.is_workspace), "\n"));
    push_line_of(out, cat3("- **Has Binaries**: ", bool_str(t.has_binaries), "\n"));
    push_line_of(out, cat3("- **Has Tests**: ", bool_str(t.has_tests), "\n"));
    push_line_of(out, cat3("- **Has Benchmarks**: ", bool_str(t.has_benchmarks), "\n\n"));
    push_line_of(out, owned("**Schema Elements**:\n\n"));
    let ghost head = views(out@);
    push_elements(out, &t.schema_elements);
    if t.workload_patterns.len() > 0 {
        push_line_of(out, owned("\n**Workload Patterns**:\n\n"));
        push_patterns(out, &t.workload_patterns);
    }
    push_line_of(out, owned("\n---\n\n"));
    assert(views(out@) =~= start + section_pieces(i as nat, *t));
}

/// The number of structures with a flag set.
pub open spec fn count_flag(ts: Seq<TomlStructure>, which: int) -> nat
    decreases ts.len(),
{
    if ts.len() == 0 {
        0
    } else {
        let t = ts.last();
        let set = if which == 0 {
            t.is_workspace
        } else if which == 1 {
            t.has_binaries
        } else if which == 2 {
            t.has_tests
        } else {
            t.has_benchmarks
        };
        count_flag(ts.drop_last(), which) + if set { 1nat } else { 0nat }
    }
}

fn count_flags(ts: &Vec<TomlStructure>, which: u8) -> (r: usize)
    ensures
        r == count_flag(ts@, which as int),
{
    let mut c: usize = 0;
    let mut i: usize = 0;
    while i < ts.len()
        invariant
            i <= ts.len(),
            c == count_flag(ts@.take(i as int), which as int),
            c <= i,
        decreases ts.len() - i,
    {
        assert(ts@.take(i + 1).drop_last() =~= ts@.take(i as int));
        let t = &ts[i];
        let set = if which == 0 {
            t.is_workspace
        } else if which == 1 {
            t.has_binaries
        } else if which == 2 {
            t.has_tests
        } else {
            t.has_benchmarks
        };
        if set {
            c = c + 1;
        }
        i += 1;
    }
    assert(ts@.take(i as int) =~= ts@);
    c
}

/// The number of patterns of kind `k` among the patterns `ps`.
pub open spec fn count_kind(ps: Seq<WorkloadPattern>, k: WorkloadPatternType) -> nat
    decreases ps.len(),
{
    if ps.len() == 0 {
        0
    } else {
        count_kind(ps.drop_last(), k) + if ps.last().pattern_type == k { 1nat } else { 0nat }
    }
}

/// The number of patterns of kind `k` in all structures.
pub open spec fn kind_total(ts: Seq<TomlStructure>, k: WorkloadPatternType) -> nat
    decreases ts.len(),
{
    if ts.len() == 0 {
        0
    } else {
        kind_total(ts.drop_last(), k) + count_kind(ts.last().workload_patterns@, k)
    }
}

proof fn lemma_count_kind_bound(ps: Seq<WorkloadPattern>, k: WorkloadPatternType)
    ensures
        count_kind(ps, k) <= ps.len(),
    decreases ps.len(),
{
    if ps.len() > 0 {
        lemma_count_kind_bound(ps.drop_last(), k);
    }
}

fn count_kind_in(ps: &Vec<WorkloadPattern>, k: WorkloadPatternType) -> (r: usize)
    ensures
        r == count_kind(ps@, k),
{
    let mut c: usize = 0;
    let mut i: usize = 0;
    while i < ps.len()
        invariant
            i <= ps.len(),
            c == count_kind(ps@.take(i as int), k),
            c <= i,
        decreases ps.len() - i,
    {
        assert(ps@.take(i + 1).drop_last() =~= ps@.take(i as int));
        if ps[i].pattern_type == k {
            c = c + 1;
        }
        i += 1;
    }
    assert(ps@.take(i as int) =~= ps@);
    c
}

/// Counts the patterns of kind `k`; `None` when the count does not fit
/// in a `usize`.
fn kind_total_of(ts: &Vec<TomlStructure>, k: WorkloadPatternType) -> (r: Option<usize>)
    ensures
        r matches Some(n) ==> n == kind_total(ts@, k),
        r is None ==> kind_total(ts@, k) > usize::MAX,
{
    let mut c: usize = 0;
    let mut i: usize = 0;
    while i < ts.len()
        invariant
            i <= ts.len(),
            c == kind_total(ts@.take(i as int), k),
        decreases ts.len() - i,
    {
        assert(ts@.take(i + 1).drop_last() =~= ts@.take(i as int));
        let n = count_kind_in(&ts[i].workload_patterns, k);
        if n > usize::MAX - c {
            proof {
                lemma_kind_total_prefix(ts@, k, i + 1);
            }
            return None;
        }
        c = c + n;
        i += 1;
    }
    assert(ts@.take(i as int) =~= ts@);
    Some(c)
}

proof fn lemma_kind_total_prefix(ts: Seq<TomlStructure>, k: WorkloadPatternType, j: int)
    requires
        0 <= j <= ts.len(),
    ensures
        kind_total(ts.take(j), k) <= kind_total(ts, k),
    decreases ts.len(),
{
    if j < ts.len() {
        assert(ts.drop_last().take(j) =~= ts.take(j));
        lemma_kind_total_prefix(ts.drop_last(), k, j);
    } else {
        assert(ts.take(j) =~= ts);
    }
}

/// The pattern kinds in the order the summary lists them.
pub open spec fn all_kinds() -> Seq<WorkloadPatternType> {
    seq![
        WorkloadPatternType::BinaryTarget,
        WorkloadPatternType::TestSuite,
        WorkloadPatternType::BenchmarkSuite,
        WorkloadPatternType::FeatureFlag,
        WorkloadPatternType::ConditionalCompilation,
        WorkloadPatternType::WorkspaceMember,
        WorkloadPatternType::DependencyOverride,
        WorkloadPatternType::ProfileOptimization,
        WorkloadPatternType::MetadataExtension,
        WorkloadPatternType::CustomBuildScript,
    ]
}

/// The summary lines for the kinds `ks`: one per kind that occurs.
pub open spec fn summary_pieces(ts: Seq<TomlStructure>, ks: Seq<WorkloadPatternType>) -> Seq<Seq<char>>
    decreases ks.len(),
{
    if ks.len() == 0 {
        Seq::empty()
    } else {
        let k = ks.last();
        summary_pieces(ts, ks.drop_last()) + if kind_total(ts, k) > 0 {
            seq!["- **"@ + pattern_plural(k) + "**: "@ + decimal(kind_total(ts, k)) + "\n"@]
        } else {
            Seq::empty()
        }
    }
}

/// The Markdown analysis of the structures, with the time it was made.
///
/// The summary lists the pattern kinds in declaration order.
pub open spec fn structure_analysis(ts: Seq<TomlStructure>, generated: Seq<char>) -> Seq<char> {
    concat(
        seq![
            "# TOML Structure Analysis\n\n"@,
            "Generated: "@ + generated + "\n\n"@,
            "## Summary Statistics\n\n"@,
            "- **Total Cargo.toml Files Analyzed**: "@ + decimal(ts.len()) + "\n"@,
            "- **Workspace Files**: "@ + decimal(count_flag(ts, 0)) + "\n"@,
            "- **Files with Binaries**: "@ + decimal(count_flag(ts, 1)) + "\n"@,
            "- **Files with Tests**: "@ + decimal(count_flag(ts, 2)) + "\n"@,
            "- **Files with Benchmarks**: "@ + decimal(count_flag(ts, 3)) + "\n\n"@,
            "## Detailed TOML Structure Analysis\n\n"@,
        ] + sections_pieces(ts) + seq!["## Workload Pattern Summary\n\n"@] + summary_pieces(ts, all_kinds()),
    )
}

fn kind_at(i: usize) -> (k: WorkloadPatternType)
    requires
        i < 10,
    ensures
        k == all_kinds()[i as int],
{
    if i == 0 {
        WorkloadPatternType::BinaryTarget
    } else if i == 1 {
        WorkloadPatternType::TestSuite
    } else if i == 2 {
        WorkloadPatternType::BenchmarkSuite
    } else if i == 3 {
        WorkloadPatternType::FeatureFlag
    } else if i == 4 {
        WorkloadPatternType::ConditionalCompilation
    } else if i == 5 {
        WorkloadPatternType::WorkspaceMember
    } else if i == 6 {
        WorkloadPatternType::DependencyOverride
    } else if i == 7 {
        WorkloadPatternType::ProfileOptimization
    } else if i == 8 {
        WorkloadPatternType::MetadataExtension
    } else {
        WorkloadPatternType::CustomBuildScript
    }
}

/// The Markdown analysis of the structures (`structure_analysis`), or
/// `None` when the structures hold more patterns of a kind than a `usize`
/// counts.
pub fn toml_structure_analysis(ts: &Vec<TomlStructure>, generated: &str) -> (r: Option<String>)
    ensures
        r matches Some(t) ==> t@ == structure_analysis(ts@, generated@),
        r is None ==> exists|k: WorkloadPatternType| kind_total(ts@, k) > usize::MAX,
{
    let mut out: Vec<String> = Vec::new();
    push_line_of(&mut out, owned("# TOML Structure Analysis\n\n"));
    push_line_of(&mut out, cat3("Generated: ", generated, "\n\n"));
    push_line_of(&mut out, owned("## Summary Statistics\n\n"));
    let n = decimal_string(ts.len());
    push_line_of(&mut out, cat3("- **Total Cargo.toml Files Analyzed**: ", n.as_str(), "\n"));
    let w = decimal_string(count_flags(ts, 0));
    push_line_of(&mut out, cat3("- **Workspace Files**: ", w.as_str(), "\n"));
    let b = decimal_string(count_flags(ts, 1));
    push_line_of(&mut out, cat3("- **Files with Binaries**: ", b.as_str(), "\n"));
    let t = decimal_string(count_flags(ts, 2));
    push_line_of(&mut out, cat3("- **Files with Tests**: ", t.as_str(), "\n"));
    let m = decimal_string(count_flags(ts, 3));
    push_line_of(&mut out, cat3("- **Files with Benchmarks**: ", m.as_str(), "\n\n"));
    push_line_of(&mut out, owned("## Detailed TOML Structure Analysis\n\n"));
    let ghost head = views(out@);
    let mut i: usize = 0;
    assert(ts@.take(0) =~= Seq::<TomlStructure>::empty());
    assert(head + sections_pieces(ts@.take(0)) =~= head);
    while i < ts.len()
        invariant
            i <= ts.len(),
            views(out@) == head + sections_pieces(ts@.take(i as int)),
        decreases ts.len() - i,
    {
        push_section(&mut out, i, &ts[i]);
        assert(ts@.take(i + 1).drop_last() =~= ts@.take(i as int));
        assert(views(out@) =~= head + sections_pieces(ts@.take(i + 1)));
        i += 1;
    }
    assert(ts@.take(i as int) =~= ts@);
    push_line_of(&mut out, owned("## Workload Pattern Summary\n\n"));
    let ghost body = views(out@);
    let mut j: usize = 0;
    assert(all_kinds().take(0) =~= Seq::<WorkloadPatternType>::empty());
    assert(body + summary_pieces(ts@, all_kinds().take(0)) =~= body);
    while j < 10
        invariant
            j <= 10,
            views(out@) == body + summary_pieces(ts@, all_kinds().take(j as int)),
        decreases 10 - j,
    {
        let k = kind_at(j);
        assert(all_kinds().take(j + 1).drop_last() =~= all_kinds().take(j as int));
        assert(all_kinds().take(j + 1).last() == k);
        let c = match kind_total_of(ts, k) {
            Some(c) => c,
            None => {
                return None;
            },
        };
        if c > 0 {
            let d = decimal_string(c);
            let mut s = cat3("- **", pattern_plural_str(k), "**: ");
            push_str(&mut s, d.as_str());
            push_str(&mut s, "\n");
            push_line_of(&mut out, s);
        }
        assert(views(out@) =~= body + summary_pieces(ts@, all_kinds().take(j + 1)));
        j += 1;
    }
    assert(all_kinds().take(10) =~= all_kinds());
    let r = concat_strings(&out);
    proof {
        assert(views(out@) =~= seq![
            "# TOML Structure Analysis\n\n"@,
            "Generated: "@ + generated@ + "\n\n"@,
            "## Summary Statistics\n\n"@,
            "- **Total Cargo.toml Files Analyzed**: "@ + decimal(ts@.len()) + "\n"@,
            "- **Workspace Files**: "@ + decimal(count_flag(ts@, 0)) + "\n"@,
            "- **Files with Binaries**: "@ + decimal(count_flag(ts@, 1)) + "\n"@,
            "- **Files with Tests**: "@ + decimal(count_flag(ts@, 2)) + "\n"@,
            "- **Files with Benchmarks**: "@ + decimal(count_flag(ts@, 3)) + "\n\n"@,
            "## Detailed TOML Structure Analysis\n\n"@,
        ] + sections_pieces(ts@) + seq!["## Workload Pattern Summary\n\n"@] + summary_pieces(ts@, all_kinds()));
    }
    Some(r)
}


// ───────────────────────────── the graph ───────────────────────────────

/// The node of the `i`-th manifest.
pub open spec fn file_node(i: nat, t: TomlStructure) -> Seq<char> {
    "    file_"@ + decimal(i) + " [label=\""@ + t.crate_name@ + "\n"@ + t.crate_version@ + "\", shape="@ + (if t.is_workspace {
        "folder"@
    } else {
        "box"@
    }) + ", fillcolor="@ + (if t.is_workspace {
        "lightgreen"@
    } else {
        "lightblue"@
    }) + "];\n"@
}

/// The manifest nodes of the structures.
pub open spec fn file_nodes(ts: Seq<TomlStructure>) -> Seq<Seq<char>>
    decreases ts.len(),
{
    if ts.len() == 0 {
        Seq::empty()
    } else {
        file_nodes(ts.drop_last()).push(file_node((ts.len() - 1) as nat, ts.last()))
    }
}

/// The node and edge of the `j`-th element of the `i`-th manifest.
pub open spec fn element_node_pieces(i: nat, j: nat, e: SchemaElement) -> Seq<Seq<char>> {
    let id = "file_"@ + decimal(i) + "_elem_"@ + decimal(j);
    seq![
        "        "@ + id + " [label=\""@ + e.path@ + "\n"@ + element_short_label(e.element_type)
            + "\", shape=box, style=filled, fillcolor="@ + element_color(e.element_type) + "];\n"@,
        "        file_"@ + decimal(i) + " -> "@ + id + " [style=dashed];\n"@,
    ]
}

/// The element nodes of the `i`-th manifest.
pub open spec fn element_nodes(i: nat, es: Seq<SchemaElement>) -> Seq<Seq<char>>
    decreases es.len(),
{
    if es.len() == 0 {
        Seq::empty()
    } else {
        element_nodes(i, es.drop_last()) + element_node_pieces(i, (es.len() - 1) as nat, es.last())
    }
}

/// The cluster of the `i`-th manifest.
pub open spec fn cluster_pieces(i: nat, t: TomlStructure) -> Seq<Seq<char>> {
    seq![
        "    subgraph cluster_"@ + decimal(i) + " {\n"@,
        "        label=\""@ + t.crate_name@ + "\";\n"@,
        "        style=dashed;\n"@,
        "        color=gray;\n"@,
    ] + element_nodes(i, t.schema_elements@) + seq!["    }\n\n"@]
}

/// The clusters of the structures.
pub open spec fn clusters(ts: Seq<TomlStructure>) -> Seq<Seq<char>>
    decreases ts.len(),
{
    if ts.len() == 0 {
        Seq::empty()
    } else {
        clusters(ts.drop_last()) + cluster_pieces((ts.len() - 1) as nat, ts.last())
    }
}

/// The node and edge of the `j`-th pattern of the `i`-th manifest.
pub open spec fn pattern_node_pieces(i: nat, j: nat, p: WorkloadPattern) -> Seq<Seq<char>> {
    let id = "pattern_"@ + decimal(i) + "_"@ + decimal(j);
    seq![
        "    "@ + id + " [label=\""@ + p.name@ + "\n"@ + pattern_short_label(p.pattern_type)
            + "\", shape=ellipse, style=filled, fillcolor="@ + pattern_color(p.pattern_type) + "];\n"@,
        "    file_"@ + decimal(i) + " -> "@ + id + " [color=red, style=bold];\n"@,
    ]
}

/// The pattern nodes of the `i`-th manifest.
pub open spec fn pattern_nodes(i: nat, ps: Seq<WorkloadPattern>) -> Seq<Seq<char>>
    decreases ps.len(),
{
    if ps.len() == 0 {
        Seq::empty()
    } else {
        pattern_nodes(i, ps.drop_last()) + pattern_node_pieces(i, (ps.len() - 1) as nat, ps.last())
    }
}

/// The pattern nodes of all manifests.
pub open spec fn all_pattern_nodes(ts: Seq<TomlStructure>) -> Seq<Seq<char>>
    decreases ts.len(),
{
    if ts.len() == 0 {
        Seq::empty()
    } else {
        all_pattern_nodes(ts.drop_last()) + pattern_nodes((ts.len() - 1) as nat, ts.last().workload_patterns@)
    }
}

/// The Graphviz graph of the structures: a node per manifest, a cluster
/// per manifest with its schema elements, and a node per workload
/// pattern linked to its manifest.
pub open spec fn structure_graph(ts: Seq<TomlStructure>) -> Seq<char> {
    concat(
        seq![
            "digraph TOML_Structure {\n"@,
            "    rankdir=LR;\n"@,
            "    node [shape=box, style=filled, fillcolor=lightblue];\n"@,
            "    edge [color=gray];\n\n"@,
        ] + file_nodes(ts) + clusters(ts) + all_pattern_nodes(ts) + seq!["}\n"@],
    )
}

fn push_file_node(out: &mut Vec<String>, i: usize, t: &TomlStructure)
    ensures
        views(final(out)@) == views(old(out)@).push(file_node(i as nat, *t)),
{
    let d = decimal_string(i);
    let mut s = cat3("    file_", d.as_str(), " [label=\"");
    push_str(&mut s, t.crate_name.as_str());
    push_str(&mut s, "\n");
    push_str(&mut s, t.crate_version.as_str());
    push_str(&mut s, "\", shape=");
    push_str(&mut s, if t.is_workspace { "folder" } else { "box" });
    push_str(&mut s, ", fillcolor=");
    push_str(&mut s, if t.is_workspace { "lightgreen" } else { "lightblue" });
    push_str(&mut s, "];\n");
    push_line_of(out, s);
}

fn push_element_node(out: &mut Vec<String>, i: usize, j: usize, e: &SchemaElement)
    ensures
        views(final(out)@) == views(old(out)@) + element_node_pieces(i as nat, j as nat, *e),
{
    let ghost start = views(out@);
    let di = decimal_string(i);
    let dj = decimal_string(j);
    let id = cat5("file_", di.as_str(), "_elem_", dj.as_str(), "");
    proof {
        reveal_strlit("");
        assert(id@ =~= "file_"@ + decimal(i as nat) + "_elem_"@ + decimal(j as nat));
    }
    let mut s = cat3("        ", id.as_str(), " [label=\"");
    push_str(&mut s, e.path.as_str());
    push_str(&mut s, "\n");
    push_str(&mut s, element_short_label_str(e.element_type));
    push_str(&mut s, "\", shape=box, style=filled, fillcolor=");
    push_str(&mut s, element_color_str(e.element_type));
    push_str(&mut s, "];\n");
    push_line_of(out, s);
    let mut l = cat3("        file_", di.as_str(), " -> ");
    push_str(&mut l, id.as_str());
    push_str(&mut l, " [style=dashed];\n");
    push_line_of(out, l);
    assert(views(out@) =~= start + element_node_pieces(i as nat, j as nat, *e));
}

fn push_cluster(out: &mut Vec<String>, i: usize, t: &TomlStructure)
    ensures
        views(final(out)@) == views(old(out)@) + cluster_pieces(i as nat, *t),
{
    let ghost start = views(out@);
    let d = decimal_string(i);
    push_line_of(out, cat3("    subgraph cluster_", d.as_str(), " {\n"));
    push_line_of(out, cat3("        label=\"", t.crate_name.as_str(), "\";\n"));
    push_line_of(out, owned("        style=dashed;\n"));
    push_line_of(out, owned("        color=gray;\n"));
    let ghost head = views(out@);
    let es = &t.schema_elements;
    let mut j: usize = 0;
    assert(es@.take(0) =~= Seq::<SchemaElement>::empty());
    assert(head + element_nodes(i as nat, es@.take(0)) =~= head);
    while j < es.len()
        invariant
            j <= es.len(),
            es == &t.schema_elements,
            views(out@) == head + element_nodes(i as nat, es@.take(j as int)),
        decreases es.len() - j,
    {
        push_element_node(out, i, j, &es[j]);
        assert(es@.take(j + 1).drop_last() =~= es@.take(j as int));
        assert(views(out@) =~= head + element_nodes(i as nat, es@.take(j + 1)));
        j += 1;
    }
    assert(es@.take(j as int) =~= es@);
    push_line_of(out, owned("    }\n\n"));
    assert(views(out@) =~= start + cluster_pieces(i as nat, *t));
}

fn push_pattern_nodes(out: &mut Vec<String>, i: usize, ps: &Vec<WorkloadPattern>)
    ensures
        views(final(out)@) == views(old(out)@) + pattern_nodes(i as nat, ps@),
{
    let ghost start = views(out@);
    let di = decimal_string(i);
    let mut j: usize = 0;
    assert(ps@.take(0) =~= Seq::<WorkloadPattern>::empty());
    assert(start + pattern_nodes(i as nat, ps@.take(0)) =~= start);
    while j < ps.len()
        invariant
            j <= ps.len(),
            di@ == decimal(i as nat),
            views(out@) == start + pattern_nodes(i as nat, ps@.take(j as int)),
        decreases ps.len() - j,
    {
        let ghost before = views(out@);
        let p = &ps[j];
        let dj = decimal_string(j);
        let mut id = cat3("pattern_", di.as_str(), "_");
        push_str(&mut id, dj.as_str());
        let mut s = cat3("    ", id.as_str(), " [label=\"");
        push_str(&mut s, p.name.as_str());
        push_str(&mut s, "\n");
        push_str(&mut s, pattern_short_label_str(p.pattern_type));
        push_str(&mut s, "\", shape=ellipse, style=filled, fillcolor=");
        push_str(&mut s, pattern_color_str(p.pattern_type));
        push_str(&mut s, "];\n");
        push_line_of(out, s);
        let mut l = cat3("    file_", di.as_str(), " -> ");
        push_str(&mut l, id.as_str());
        push_str(&mut l, " [color=red, style=bold];\n");
        push_line_of(out, l);
        assert(views(out@) =~= before + pattern_node_pieces(i as nat, j as nat, *p));
        assert(ps@.take(j + 1).drop_last() =~= ps@.take(j as int));
        assert(views(out@) =~= start + pattern_nodes(i as nat, ps@.take(j + 1)));
        j += 1;
    }
    assert(ps@.take(j as int) =~= ps@);
}

/// The Graphviz graph of the structures (`structure_graph`).
pub fn toml_structure_graph(ts: &Vec<TomlStructure>) -> (r: String)
    ensures
        r@ == structure_graph(ts@),
{
    let mut out: Vec<String> = Vec::new();
    push_line_of(&mut out, owned("digraph TOML_Structure {\n"));
    push_line_of(&mut out, owned("    rankdir=LR;\n"));
    push_line_of(&mut out, owned("    node [shape=box, style=filled, fillcolor=lightblue];\n"));
    push_line_of(&mut out, owned("    edge [color=gray];\n\n"));
    let ghost head = views(out@);
    let mut i: usize = 0;
    assert(ts@.take(0) =~= Seq::<TomlStructure>::empty());
    assert(head + file_nodes(ts@.take(0)) =~= head);
    while i < ts.len()
        invariant
            i <= ts.len(),
            views(out@) == head + file_nodes(ts@.take(i as int)),
        decreases ts.len() - i,
    {
        push_file_node(&mut out, i, &ts[i]);
        assert(ts@.take(i + 1).drop_last() =~= ts@.take(i as int));
        assert(views(out@) =~= head + file_nodes(ts@.take(i + 1)));
        i += 1;
    }
    assert(ts@.take(i as int) =~= ts@);
    let ghost files = views(out@);
    let mut i: usize = 0;
    assert(files + clusters(ts@.take(0)) =~= files);
    while i < ts.len()
        invariant
            i <= ts.len(),
            views(out@) == files + clusters(ts@.take(i as int)),
        decreases ts.len() - i,
    {
        push_cluster(&mut out, i, &ts[i]);
        assert(ts@.take(i + 1).drop_last() =~= ts@.take(i as int));
        assert(views(out@) =~= files + clusters(ts@.take(i + 1)));
        i += 1;
    }
    assert(ts@.take(i as int) =~= ts@);
    let ghost clustered = views(out@);
    let mut i: usize = 0;
    assert(clustered + all_pattern_nodes(ts@.take(0)) =~= clustered);
    while i < ts.len()
        invariant
            i <= ts.len(),
            views(out@) == clustered + all_pattern_nodes(ts@.take(i as int)),
        decreases ts.len() - i,
    {
        push_pattern_nodes(&mut out, i, &ts[i].workload_patterns);
        assert(ts@.take(i + 1).drop_last() =~= ts@.take(i as int));
        assert(views(out@) =~= clustered + all_pattern_nodes(ts@.take(i + 1)));
        i += 1;
    }
    assert(ts@.take(i as int) =~= ts@);
    push_line_of(&mut out, owned("}\n"));
    let r = concat_strings(&out);
    proof {
        assert(views(out@) =~= seq![
            "digraph TOML_Structure {\n"@,
            "    rankdir=LR;\n"@,
            "    node [shape=box, style=filled, fillcolor=lightblue];\n"@,
            "    edge [color=gray];\n\n"@,
        ] + file_nodes(ts@) + clusters(ts@) + all_pattern_nodes(ts@) + seq!["}\n"@]);
    }
    r
}


/// Builds a dependency graph and renders what was found.
pub struct GlobalDependencyGraphAnalyzer {
    pub builder: GlobalDependencyGraphBuilder,
}

impl GlobalDependencyGraphAnalyzer {
    /// An analyzer of the workspace at `workspace_path`, with an empty
    /// builder.
    pub fn new(workspace_path: String) -> (r: Self)
        ensures
            builder_wf(r.builder),
            graph_of(r.builder).nodes.len() == 0,
            graph_of(r.builder).edges.len() == 0,
            r.builder.workspace_path@ == workspace_path@,
    {
        GlobalDependencyGraphAnalyzer { builder: GlobalDependencyGraphBuilder::new(workspace_path) }
    }

    /// The Markdown analysis of the manifests' structures
    /// (`structure_analysis`), headed with the time it was generated;
    /// `None` when a pattern kind occurs more often than a `usize` counts.
    pub fn generate_toml_structure_visualization(&self, structures: &Vec<TomlStructure>, generated: &str) -> (r: Option<String>)
        ensures
            r matches Some(t) ==> t@ == structure_analysis(structures@, generated@),
            r is None ==> exists|k: WorkloadPatternType| kind_total(structures@, k) > usize::MAX,
    {
        toml_structure_analysis(structures, generated)
    }

    /// The Graphviz graph of the manifests' structures (`structure_graph`).
    pub fn generate_toml_structure_graph(&self, structures: &Vec<TomlStructure>) -> (r: String)
        ensures
            r@ == structure_graph(structures@),
    {
        toml_structure_graph(structures)
    }
}


// ───────────────────────────── reading a manifest ──────────────────────

/// A table-like item: whether it is a `[table]` (not an inline table),
/// and its entries with their string values (`None` for other values).
pub struct TableItem {
    pub is_table: bool,
    pub entries: Vec<(String, Option<String>)>,
}

/// An entry of the `[features]` table and the kind of its value.
pub struct FeatureEntry {
    pub name: String,
    pub is_array: bool,
    pub is_table: bool,
    pub is_inline_table: bool,
}

/// An inline table of the `bin` array: its `name` and `path` strings.
pub struct BinTable {
    pub name: Option<String>,
    pub path: Option<String>,
}

/// What the analysis reads of a parsed `Cargo.toml`.
pub struct ManifestDoc {
    /// The `package` item, when present (its entries are empty unless it
    /// is table-like).
    pub package: Option<TableItem>,
    /// The `dependencies`, `dev-dependencies` and `build-dependencies`
    /// items that are tables: each entry's name and whether its value is
    /// table-like.
    pub dependencies: Option<Vec<(String, bool)>>,
    pub dev_dependencies: Option<Vec<(String, bool)>>,
    pub build_dependencies: Option<Vec<(String, bool)>>,
    /// The `features` item, when it is a table.
    pub features: Option<Vec<FeatureEntry>>,
    /// The `bin` item, when it is an inline array: each value that is an
    /// inline table.
    pub bins: Option<Vec<Option<BinTable>>>,
    pub has_bin: bool,
    pub has_bench: bool,
    pub has_test: bool,
    pub has_workspace: bool,
}

/// A schema element as plain values.
pub type ElementView = (SchemaElementType, Seq<char>, Seq<char>, bool, bool, bool, Seq<Seq<char>>, Seq<(Seq<char>, Seq<char>)>);

/// A workload pattern as plain values.
pub type PatternView = (WorkloadPatternType, Seq<char>, Seq<char>, Seq<Seq<char>>, Seq<(Seq<char>, Seq<char>)>);

pub open spec fn pair_views(ps: Seq<(String, String)>) -> Seq<(Seq<char>, Seq<char>)> {
    ps.map_values(|p: (String, String)| (p.0@, p.1@))
}

pub open spec fn element_view(e: SchemaElement) -> ElementView {
    (e.element_type, e.path@, e.value_type@, e.is_array, e.is_table, e.is_inline_table, views(e.children@), pair_views(e.properties@))
}

pub open spec fn pattern_view(p: WorkloadPattern) -> PatternView {
    (p.pattern_type, p.name@, p.location@, views(p.related_elements@), pair_views(p.properties@))
}

/// The keys of entries, each prefixed by `name.`.
pub open spec fn table_children(name: Seq<char>, es: Seq<(String, Option<String>)>) -> Seq<Seq<char>> {
    es.map_values(|e: (String, Option<String>)| name + "."@ + e.0@)
}

/// The entries with string values, as properties.
pub open spec fn table_properties(es: Seq<(String, Option<String>)>) -> Seq<(Seq<char>, Seq<char>)>
    decreases es.len(),
{
    if es.len() == 0 {
        Seq::empty()
    } else {
        let e = es.last();
        table_properties(es.drop_last()) + match e.1 {
            Some(v) => seq![(e.0@, v@)],
            None => Seq::empty(),
        }
    }
}

/// The element of a table item: its children and string properties when
/// it is a `[table]`.
pub open spec fn table_element(name: Seq<char>, item: TableItem, t: SchemaElementType) -> ElementView {
    (
        t,
        name,
        "table"@,
        false,
        true,
        false,
        if item.is_table { table_children(name, item.entries@) } else { Seq::empty() },
        if item.is_table { table_properties(item.entries@) } else { Seq::empty() },
    )
}

/// The elements of one dependency section.
pub open spec fn dependency_elements(section: Seq<char>, t: SchemaElementType, deps: Option<Vec<(String, bool)>>) -> Seq<ElementView> {
    match deps {
        Some(ds) => ds@.map_values(|d: (String, bool)| (
            t,
            section + "."@ + d.0@,
            "dependency"@,
            false,
            false,
            d.1,
            Seq::<Seq<char>>::empty(),
            Seq::<(Seq<char>, Seq<char>)>::empty(),
        )),
        None => Seq::empty(),
    }
}

/// The feature elements.
pub open spec fn feature_elements(fs: Option<Vec<FeatureEntry>>) -> Seq<ElementView> {
    match fs {
        Some(v) => v@.map_values(|f: FeatureEntry| (
            SchemaElementType::Feature,
            "features."@ + f.name@,
            "feature"@,
            f.is_array,
            f.is_table,
            f.is_inline_table,
            Seq::<Seq<char>>::empty(),
            Seq::<(Seq<char>, Seq<char>)>::empty(),
        )),
        None => Seq::empty(),
    }
}

/// `bin[i]`.
pub open spec fn bin_ref(i: nat) -> Seq<char> {
    "bin["@ + decimal(i) + "]"@
}

/// The binary elements of the first `bins.len()` bin values.
pub open spec fn binary_elements(bins: Seq<Option<BinTable>>) -> Seq<ElementView>
    decreases bins.len(),
{
    if bins.len() == 0 {
        Seq::empty()
    } else {
        let i = (bins.len() - 1) as nat;
        binary_elements(bins.drop_last()) + match bins.last() {
            Some(b) => match b.name {
                Some(n) => seq![(
                    SchemaElementType::Binary,
                    bin_ref(i),
                    "binary"@,
                    false,
                    false,
                    true,
                    seq![bin_ref(i) + ".name"@, bin_ref(i) + ".path"@],
                    seq![("name"@, n@), ("path"@, match b.path { Some(p) => p@, None => Seq::empty() })],
                )],
                None => Seq::empty(),
            },
            None => Seq::empty(),
        }
    }
}

/// The schema elements of a manifest: the package table, the
/// dependencies of each section, the features, and the named binaries.
pub open spec fn schema_of(doc: ManifestDoc) -> Seq<ElementView> {
    (match doc.package {
        Some(p) => seq![table_element("package"@, p, SchemaElementType::Package)],
        None => Seq::empty(),
    }) + dependency_elements("dependencies"@, SchemaElementType::Dependency, doc.dependencies)
        + dependency_elements("dev-dependencies"@, SchemaElementType::DevDependency, doc.dev_dependencies)
        + dependency_elements("build-dependencies"@, SchemaElementType::BuildDependency, doc.build_dependencies)
        + feature_elements(doc.features) + match doc.bins {
        Some(b) => binary_elements(b@),
        None => Seq::empty(),
    }
}

/// A feature name marks tests when it starts with `test-` or ends with
/// `-test`.
pub open spec fn test_feature(name: Seq<char>) -> bool {
    crate::text::starts_with(name, "test-"@) || crate::text::ends_with(name, "-test"@)
}

/// The manifest has test patterns: a test feature or a `test` item.
pub open spec fn tests_present(doc: ManifestDoc) -> bool {
    (match doc.features {
        Some(fs) => exists|i: int| 0 <= i < fs@.len() && test_feature((#[trigger] fs@[i]).name@),
        None => false,
    }) || doc.has_test
}


/// The paths of the feature elements, in order.
pub open spec fn feature_paths(es: Seq<ElementView>) -> Seq<Seq<char>>
    decreases es.len(),
{
    if es.len() == 0 {
        Seq::empty()
    } else {
        feature_paths(es.drop_last()) + if es.last().0 == SchemaElementType::Feature {
            seq![es.last().1]
        } else {
            Seq::empty()
        }
    }
}

/// The binary-target patterns of the bin values.
pub open spec fn binary_patterns(bins: Seq<Option<BinTable>>) -> Seq<PatternView>
    decreases bins.len(),
{
    if bins.len() == 0 {
        Seq::empty()
    } else {
        let i = (bins.len() - 1) as nat;
        binary_patterns(bins.drop_last()) + match bins.last() {
            Some(b) => match b.name {
                Some(n) => seq![(
                    WorkloadPatternType::BinaryTarget,
                    n@,
                    bin_ref(i),
                    seq![bin_ref(i)],
                    seq![("path"@, match b.path { Some(p) => p@, None => Seq::empty() })],
                )],
                None => Seq::empty(),
            },
            None => Seq::empty(),
        }
    }
}

/// The feature-flag patterns.
pub open spec fn feature_patterns(fs: Option<Vec<FeatureEntry>>) -> Seq<PatternView> {
    match fs {
        Some(v) => v@.map_values(|f: FeatureEntry| (
            WorkloadPatternType::FeatureFlag,
            f.name@,
            "features."@ + f.name@,
            seq!["features."@ + f.name@],
            Seq::<(Seq<char>, Seq<char>)>::empty(),
        )),
        None => Seq::empty(),
    }
}

/// The workload patterns of a manifest: its named binaries, a test suite
/// (related to every feature element) when tests are present, a benchmark
/// suite, its feature flags, and a workspace.
pub open spec fn patterns_of(doc: ManifestDoc, elements: Seq<ElementView>) -> Seq<PatternView> {
    (match doc.bins {
        Some(b) => binary_patterns(b@),
        None => Seq::empty(),
    }) + (if tests_present(doc) {
        seq![(WorkloadPatternType::TestSuite, "tests"@, "tests/"@, feature_paths(elements), Seq::<(Seq<char>, Seq<char>)>::empty())]
    } else {
        Seq::empty()
    }) + (if doc.has_bench {
        seq![(WorkloadPatternType::BenchmarkSuite, "benchmarks"@, "benchmarks/"@, seq!["bench"@], Seq::<(Seq<char>, Seq<char>)>::empty())]
    } else {
        Seq::empty()
    }) + feature_patterns(doc.features) + (if doc.has_workspace {
        seq![(WorkloadPatternType::WorkspaceMember, "workspace"@, "workspace"@, seq!["workspace"@], Seq::<(Seq<char>, Seq<char>)>::empty())]
    } else {
        Seq::empty()
    })
}

/// The string value of the first entry with the key.
pub open spec fn entry_str(es: Seq<(String, Option<String>)>, key: Seq<char>) -> Option<Seq<char>>
    decreases es.len(),
{
    if es.len() == 0 {
        None
    } else if es[0].0@ == key {
        match es[0].1 {
            Some(v) => Some(v@),
            None => None,
        }
    } else {
        entry_str(es.drop_first(), key)
    }
}

/// The package's string value under `key`, else the fallback.
pub open spec fn package_str(doc: ManifestDoc, key: Seq<char>, fallback: Seq<char>) -> Seq<char> {
    match doc.package {
        Some(p) => match entry_str(p.entries@, key) {
            Some(v) => v,
            None => fallback,
        },
        None => fallback,
    }
}

fn push_elem(out: &mut Vec<SchemaElement>, e: SchemaElement)
    ensures
        final(out)@.map_values(|x: SchemaElement| element_view(x)) == old(out)@.map_values(|x: SchemaElement| element_view(x)).push(element_view(e)),
{
    let ghost ev = element_view(e);
    out.push(e);
    assert(out@.map_values(|x: SchemaElement| element_view(x)) =~= old(out)@.map_values(|x: SchemaElement| element_view(x)).push(ev));
}

fn push_pat(out: &mut Vec<WorkloadPattern>, p: WorkloadPattern)
    ensures
        final(out)@.map_values(|x: WorkloadPattern| pattern_view(x)) == old(out)@.map_values(|x: WorkloadPattern| pattern_view(x)).push(pattern_view(p)),
{
    let ghost pv = pattern_view(p);
    out.push(p);
    assert(out@.map_values(|x: WorkloadPattern| pattern_view(x)) =~= old(out)@.map_values(|x: WorkloadPattern| pattern_view(x)).push(pv));
}

fn copy_opt(s: &Option<String>) -> (r: Option<String>)
    ensures
        r.deep_view() == s.deep_view(),
{
    match s {
        Some(v) => Some(v.clone()),
        None => None,
    }
}

/// The element of a table item (`table_element`).
pub fn analyze_table_element(name: &str, item: &TableItem, element_type: SchemaElementType) -> (r: SchemaElement)
    ensures
        element_view(r) == table_element(name@, *item, element_type),
{
    let mut children: Vec<String> = Vec::new();
    let mut properties: Vec<(String, String)> = Vec::new();
    if item.is_table {
        let es = &item.entries;
        let mut i: usize = 0;
        while i < es.len()
            invariant
                i <= es.len(),
                es == &item.entries,
                views(children@) == table_children(name@, es@.take(i as int)),
                pair_views(properties@) == table_properties(es@.take(i as int)),
            decreases es.len() - i,
        {
            assert(es@.take(i + 1).drop_last() =~= es@.take(i as int));
            let ghost cb = children@;
            children.push(cat3(name, ".", es[i].0.as_str()));
            assert(views(children@) =~= views(cb).push(name@ + "."@ + es@[i as int].0@));
            assert(table_children(name@, es@.take(i + 1)) =~= table_children(name@, es@.take(i as int)).push(
                name@ + "."@ + es@[i as int].0@,
            ));
            let ghost pb = properties@;
            match &es[i].1 {
                Some(v) => {
                    properties.push((es[i].0.clone(), v.clone()));
                    assert(pair_views(properties@) =~= pair_views(pb).push((es@[i as int].0@, v@)));
                },
                None => {},
            }
            assert(pair_views(properties@) =~= table_properties(es@.take(i + 1)));
            i += 1;
        }
        assert(es@.take(i as int) =~= es@);
    } else {
        assert(views(children@) =~= Seq::<Seq<char>>::empty());
        assert(pair_views(properties@) =~= Seq::<(Seq<char>, Seq<char>)>::empty());
    }
    SchemaElement {
        element_type,
        path: owned(name),
        value_type: owned("table"),
        is_array: false,
        is_table: true,
        is_inline_table: false,
        children,
        properties,
    }
}

fn push_dependency_elements(out: &mut Vec<SchemaElement>, section: &str, t: SchemaElementType, deps: &Option<Vec<(String, bool)>>)
    ensures
        final(out)@.map_values(|x: SchemaElement| element_view(x)) == old(out)@.map_values(|x: SchemaElement| element_view(x))
            + dependency_elements(section@, t, *deps),
{
    let ghost start = out@.map_values(|x: SchemaElement| element_view(x));
    match deps {
        Some(ds) => {
            let ghost target = dependency_elements(section@, t, *deps);
            let mut i: usize = 0;
            while i < ds.len()
                invariant
                    i <= ds.len(),
                    target == dependency_elements(section@, t, *deps),
                    *deps == Some(*ds),
                    out@.map_values(|x: SchemaElement| element_view(x)) == start + target.take(i as int),
                decreases ds.len() - i,
            {
                let e = SchemaElement {
                    element_type: t,
                    path: cat3(section, ".", ds[i].0.as_str()),
                    value_type: owned("dependency"),
                    is_array: false,
                    is_table: false,
                    is_inline_table: ds[i].1,
                    children: Vec::new(),
                    properties: Vec::new(),
                };
                assert(views(e.children@) =~= Seq::<Seq<char>>::empty());
                assert(pair_views(e.properties@) =~= Seq::<(Seq<char>, Seq<char>)>::empty());
                assert(element_view(e) == target[i as int]);
                push_elem(out, e);
                assert(target.take(i + 1) =~= target.take(i as int).push(target[i as int]));
                i += 1;
            }
            assert(target.take(i as int) =~= target);
        },
        None => {
            assert(start + dependency_elements(section@, t, *deps) =~= start);
        },
    }
}

/// The schema elements of a manifest (`schema_of`).
pub fn analyze_schema_elements(doc: &ManifestDoc) -> (r: Vec<SchemaElement>)
    ensures
        r@.map_values(|x: SchemaElement| element_view(x)) == schema_of(*doc),
{
    let mut out: Vec<SchemaElement> = Vec::new();
    match &doc.package {
        Some(p) => {
            let e = analyze_table_element("package", p, SchemaElementType::Package);
            push_elem(&mut out, e);
        },
        None => {},
    }
    let ghost s0 = out@.map_values(|x: SchemaElement| element_view(x));
    assert(s0 =~= match doc.package {
        Some(p) => seq![table_element("package"@, p, SchemaElementType::Package)],
        None => Seq::<ElementView>::empty(),
    });
    push_dependency_elements(&mut out, "dependencies", SchemaElementType::Dependency, &doc.dependencies);
    push_dependency_elements(&mut out, "dev-dependencies", SchemaElementType::DevDependency, &doc.dev_dependencies);
    push_dependency_elements(&mut out, "build-dependencies", SchemaElementType::BuildDependency, &doc.build_dependencies);
    let ghost s1 = out@.map_values(|x: SchemaElement| element_view(x));
    match &doc.features {
        Some(fs) => {
            let ghost target = feature_elements(doc.features);
            let mut i: usize = 0;
            while i < fs.len()
                invariant
                    i <= fs.len(),
                    doc.features == Some(*fs),
                    target == feature_elements(doc.features),
                    out@.map_values(|x: SchemaElement| element_view(x)) == s1 + target.take(i as int),
                decreases fs.len() - i,
            {
                let f = &fs[i];
                let e = SchemaElement {
                    element_type: SchemaElementType::Feature,
                    path: cat("features.", f.name.as_str()),
                    value_type: owned("feature"),
                    is_array: f.is_array,
                    is_table: f.is_table,
                    is_inline_table: f.is_inline_table,
                    children: Vec::new(),
                    properties: Vec::new(),
                };
                assert(views(e.children@) =~= Seq::<Seq<char>>::empty());
                assert(pair_views(e.properties@) =~= Seq::<(Seq<char>, Seq<char>)>::empty());
                assert(element_view(e) == target[i as int]);
                push_elem(&mut out, e);
                assert(target.take(i + 1) =~= target.take(i as int).push(target[i as int]));
                i += 1;
            }
            assert(target.take(i as int) =~= target);
        },
        None => {},
    }
    let ghost s2 = out@.map_values(|x: SchemaElement| element_view(x));
    match &doc.bins {
        Some(bins) => {
            let mut i: usize = 0;
            assert(bins@.take(0) =~= Seq::<Option<BinTable>>::empty());
            assert(s2 + binary_elements(bins@.take(0)) =~= s2);
            while i < bins.len()
                invariant
                    i <= bins.len(),
                    out@.map_values(|x: SchemaElement| element_view(x)) == s2 + binary_elements(bins@.take(i as int)),
                decreases bins.len() - i,
            {
                assert(bins@.take(i + 1).drop_last() =~= bins@.take(i as int));
                let ghost before = out@.map_values(|x: SchemaElement| element_view(x));
                match &bins[i] {
                    Some(b) => match &b.name {
                        Some(n) => {
                            let r = cat3("bin[", decimal_string(i).as_str(), "]");
                            let mut children: Vec<String> = Vec::new();
                            children.push(cat(r.as_str(), ".name"));
                            children.push(cat(r.as_str(), ".path"));
                            let mut properties: Vec<(String, String)> = Vec::new();
                            properties.push((owned("name"), n.clone()));
                            let path = match &b.path {
                                Some(p) => p.clone(),
                                None => String::new(),
                            };
                            properties.push((owned("path"), path));
                            let e = SchemaElement {
                                element_type: SchemaElementType::Binary,
                                path: r,
                                value_type: owned("binary"),
                                is_array: false,
                                is_table: false,
                                is_inline_table: true,
                                children,
                                properties,
                            };
                            assert(views(e.children@) =~= seq![bin_ref(i as nat) + ".name"@, bin_ref(i as nat) + ".path"@]);
                            assert(pair_views(e.properties@) =~= seq![("name"@, n@), ("path"@, match b.path { Some(p) => p@, None => Seq::empty() })]);
                            push_elem(&mut out, e);
                        },
                        None => {},
                    },
                    None => {},
                }
                assert(out@.map_values(|x: SchemaElement| element_view(x)) =~= s2 + binary_elements(bins@.take(i + 1)));
                i += 1;
            }
            assert(bins@.take(i as int) =~= bins@);
        },
        None => {},
    }
    proof {
        assert(out@.map_values(|x: SchemaElement| element_view(x)) =~= schema_of(*doc));
    }
    out
}

/// Whether the manifest has test patterns (`tests_present`).
pub fn has_test_patterns(doc: &ManifestDoc) -> (r: bool)
    ensures
        r == tests_present(*doc),
{
    proof {
        reveal_strlit("test-");
        reveal_strlit("-test");
    }
    match &doc.features {
        Some(fs) => {
            let mut i: usize = 0;
            while i < fs.len()
                invariant
                    i <= fs.len(),
                    doc.features == Some(*fs),
                    forall|k: int| 0 <= k < i ==> !test_feature((#[trigger] fs@[k]).name@),
                decreases fs.len() - i,
            {
                if has_prefix(fs[i].name.as_str(), "test-") || has_suffix(fs[i].name.as_str(), "-test") {
                    assert(test_feature(fs@[i as int].name@));
                    let ghost j = i as int;
                    assert(0 <= j < fs@.len() && test_feature(fs@[j].name@));
                    assert(doc.features->0@[j] == fs@[j]);
                    assert(tests_present(*doc));
                    return true;
                }
                i += 1;
            }
        },
        None => {},
    }
    doc.has_test
}


fn collect_feature_paths(elements: &Vec<SchemaElement>) -> (r: Vec<String>)
    ensures
        views(r@) == feature_paths(elements@.map_values(|x: SchemaElement| element_view(x))),
{
    let ghost ev = elements@.map_values(|x: SchemaElement| element_view(x));
    let mut r: Vec<String> = Vec::new();
    let mut i: usize = 0;
    assert(ev.take(0) =~= Seq::<ElementView>::empty());
    while i < elements.len()
        invariant
            i <= elements.len(),
            ev == elements@.map_values(|x: SchemaElement| element_view(x)),
            views(r@) == feature_paths(ev.take(i as int)),
        decreases elements.len() - i,
    {
        assert(ev.take(i + 1).drop_last() =~= ev.take(i as int));
        assert(ev.take(i + 1).last() == element_view(elements@[i as int]));
        if elements[i].element_type == SchemaElementType::Feature {
            let ghost b = r@;
            r.push(elements[i].path.clone());
            assert(views(r@) =~= views(b).push(elements@[i as int].path@));
        }
        assert(views(r@) =~= feature_paths(ev.take(i + 1)));
        i += 1;
    }
    assert(ev.take(i as int) =~= ev);
    r
}

fn simple_pattern(t: WorkloadPatternType, name: &str, location: &str, related: &str) -> (r: WorkloadPattern)
    ensures
        pattern_view(r) == (t, name@, location@, seq![related@], Seq::<(Seq<char>, Seq<char>)>::empty()),
{
    let mut rel: Vec<String> = Vec::new();
    rel.push(owned(related));
    let r = WorkloadPattern {
        pattern_type: t,
        name: owned(name),
        location: owned(location),
        related_elements: rel,
        properties: Vec::new(),
    };
    assert(views(r.related_elements@) =~= seq![related@]);
    assert(pair_views(r.properties@) =~= Seq::<(Seq<char>, Seq<char>)>::empty());
    r
}

/// The workload patterns of a manifest (`patterns_of`), given its schema
/// elements.
pub fn identify_workload_patterns(doc: &ManifestDoc, elements: &Vec<SchemaElement>) -> (r: Vec<WorkloadPattern>)
    ensures
        r@.map_values(|x: WorkloadPattern| pattern_view(x)) == patterns_of(
            *doc,
            elements@.map_values(|x: SchemaElement| element_view(x)),
        ),
{
    let mut out: Vec<WorkloadPattern> = Vec::new();
    match &doc.bins {
        Some(bins) => {
            let mut i: usize = 0;
            assert(bins@.take(0) =~= Seq::<Option<BinTable>>::empty());
            assert(out@.map_values(|x: WorkloadPattern| pattern_view(x)) =~= binary_patterns(bins@.take(0)));
            while i < bins.len()
                invariant
                    i <= bins.len(),
                    out@.map_values(|x: WorkloadPattern| pattern_view(x)) == binary_patterns(bins@.take(i as int)),
                decreases bins.len() - i,
            {
                assert(bins@.take(i + 1).drop_last() =~= bins@.take(i as int));
                match &bins[i] {
                    Some(b) => match &b.name {
                        Some(n) => {
                            let loc = cat3("bin[", decimal_string(i).as_str(), "]");
                            let mut rel: Vec<String> = Vec::new();
                            rel.push(loc.clone());
                            let mut properties: Vec<(String, String)> = Vec::new();
                            let path = match &b.path {
                                Some(p) => p.clone(),
                                None => String::new(),
                            };
                            properties.push((owned("path"), path));
                            let p = WorkloadPattern {
                                pattern_type: WorkloadPatternType::BinaryTarget,
                                name: n.clone(),
                                location: loc,
                                related_elements: rel,
                                properties,
                            };
                            assert(views(p.related_elements@) =~= seq![bin_ref(i as nat)]);
                            assert(pair_views(p.properties@) =~= seq![("path"@, match b.path { Some(q) => q@, None => Seq::empty() })]);
                            push_pat(&mut out, p);
                        },
                        None => {},
                    },
                    None => {},
                }
                assert(out@.map_values(|x: WorkloadPattern| pattern_view(x)) =~= binary_patterns(bins@.take(i + 1)));
                i += 1;
            }
            assert(bins@.take(i as int) =~= bins@);
        },
        None => {},
    }
    let ghost s0 = out@.map_values(|x: WorkloadPattern| pattern_view(x));
    if has_test_patterns(doc) {
        let p = WorkloadPattern {
            pattern_type: WorkloadPatternType::TestSuite,
            name: owned("tests"),
            location: owned("tests/"),
            related_elements: collect_feature_paths(elements),
            properties: Vec::new(),
        };
        assert(pair_views(p.properties@) =~= Seq::<(Seq<char>, Seq<char>)>::empty());
        push_pat(&mut out, p);
    }
    if doc.has_bench {
        push_pat(&mut out, simple_pattern(WorkloadPatternType::BenchmarkSuite, "benchmarks", "benchmarks/", "bench"));
    }
    let ghost s1 = out@.map_values(|x: WorkloadPattern| pattern_view(x));
    match &doc.features {
        Some(fs) => {
            let ghost target = feature_patterns(doc.features);
            let mut i: usize = 0;
            while i < fs.len()
                invariant
                    i <= fs.len(),
                    doc.features == Some(*fs),
                    target == feature_patterns(doc.features),
                    out@.map_values(|x: WorkloadPattern| pattern_view(x)) == s1 + target.take(i as int),
                decreases fs.len() - i,
            {
                let loc = cat("features.", fs[i].name.as_str());
                let p = simple_pattern(WorkloadPatternType::FeatureFlag, fs[i].name.as_str(), loc.as_str(), loc.as_str());
                assert(pattern_view(p) == target[i as int]);
                push_pat(&mut out, p);
                assert(target.take(i + 1) =~= target.take(i as int).push(target[i as int]));
                i += 1;
            }
            assert(target.take(i as int) =~= target);
        },
        None => {},
    }
    if doc.has_workspace {
        push_pat(&mut out, simple_pattern(WorkloadPatternType::WorkspaceMember, "workspace", "workspace", "workspace"));
    }
    proof {
        assert(out@.map_values(|x: WorkloadPattern| pattern_view(x)) =~= patterns_of(
            *doc,
            elements@.map_values(|x: SchemaElement| element_view(x)),
        ));
    }
    out
}

fn lookup_entry(es: &Vec<(String, Option<String>)>, key: &str) -> (r: Option<String>)
    ensures
        r.deep_view() == entry_str(es@, key@),
{
    let mut i: usize = 0;
    assert(es@.skip(0) =~= es@);
    while i < es.len()
        invariant
            i <= es.len(),
            entry_str(es@, key@) == entry_str(es@.skip(i as int), key@),
        decreases es.len() - i,
    {
        assert(es@.skip(i as int).drop_first() =~= es@.skip(i + 1));
        assert(es@.skip(i as int)[0] == es@[i as int]);
        if str_eq(es[i].0.as_str(), key) {
            return copy_opt(&es[i].1);
        }
        i += 1;
    }
    None
}

fn package_value(doc: &ManifestDoc, key: &str, fallback: &str) -> (r: String)
    ensures
        r@ == package_str(*doc, key@, fallback@),
{
    match &doc.package {
        Some(p) => match lookup_entry(&p.entries, key) {
            Some(v) => v,
            None => owned(fallback),
        },
        None => owned(fallback),
    }
}

/// What a `Cargo.toml` holds: the package name and version (`unknown`
/// and `0.0.0` when missing), its file path, schema elements, workload
/// patterns, and whether it has a workspace, binaries, tests and
/// benchmarks.
pub fn analyze_cargo_toml(doc: &ManifestDoc, file_path: &str) -> (r: TomlStructure)
    ensures
        r.crate_name@ == package_str(*doc, "name"@, "unknown"@),
        r.crate_version@ == package_str(*doc, "version"@, "0.0.0"@),
        r.file_path@ == file_path@,
        r.schema_elements@.map_values(|x: SchemaElement| element_view(x)) == schema_of(*doc),
        r.workload_patterns@.map_values(|x: WorkloadPattern| pattern_view(x)) == patterns_of(*doc, schema_of(*doc)),
        r.is_workspace == doc.has_workspace,
        r.has_binaries == doc.has_bin,
        r.has_tests == tests_present(*doc),
        r.has_benchmarks == doc.has_bench,
{
    let crate_name = package_value(doc, "name", "unknown");
    let crate_version = package_value(doc, "version", "0.0.0");
    let schema_elements = analyze_schema_elements(doc);
    let workload_patterns = identify_workload_patterns(doc, &schema_elements);
    TomlStructure {
        crate_name,
        crate_version,
        file_path: owned(file_path),
        schema_elements,
        workload_patterns,
        is_workspace: doc.has_workspace,
        has_binaries: doc.has_bin,
        has_tests: has_test_patterns(doc),
        has_benchmarks: doc.has_bench,
    }
}

} // verus!
