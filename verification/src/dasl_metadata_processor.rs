//! Metadata aggregated over the `.gitmodules` files of many projects.
//!
//! Every submodule is kept, and indexed by the value of its first `type`
//! annotation and of its first `fuzzer-engine` annotation.
use vstd::prelude::*;
use crate::gitmodules_metadata::{GitmodulesData, SubmoduleEntry, SubmoduleSpec};
use crate::path::{join_path, path_join};
use crate::str_map::{has_key, key_pos, lookup, StrMap};
use crate::text::{ends_with, has_suffix, lines, owned, split_lines, str_eq, trim, trimmed, views};

verus! {

/// Submodule metadata across projects.
pub struct DaslMetadata {
    pub total_projects: usize,
    pub total_submodules: usize,
    /// Submodules by the value of their first `type` annotation.
    pub by_type: StrMap<Vec<SubmoduleEntry>>,
    /// Submodules by the value of their first `fuzzer-engine` annotation.
    pub by_fuzzer_engine: StrMap<Vec<SubmoduleEntry>>,
    pub all_submodules: Vec<SubmoduleEntry>,
}

/// The indexes and the list of all submodules.
pub type MetadataIndex = (
    Seq<(Seq<char>, Seq<SubmoduleSpec>)>,
    Seq<(Seq<char>, Seq<SubmoduleSpec>)>,
    Seq<SubmoduleSpec>,
);

/// The value of the first annotation with this key.
pub open spec fn first_annotation(anns: Seq<(Seq<char>, Seq<char>)>, key: Seq<char>) -> Option<Seq<char>>
    decreases anns.len(),
{
    if anns.len() == 0 {
        None
    } else if anns[0].0 == key {
        Some(anns[0].1)
    } else {
        first_annotation(anns.drop_first(), key)
    }
}

/// `e` appended to the list under `k`, which is created when absent.
pub open spec fn append_under(
    m: Seq<(Seq<char>, Seq<SubmoduleSpec>)>,
    k: Seq<char>,
    e: SubmoduleSpec,
) -> Seq<(Seq<char>, Seq<SubmoduleSpec>)> {
    if has_key(m, k) {
        m.update(key_pos(m, k), (k, m[key_pos(m, k)].1.push(e)))
    } else {
        m.push((k, seq![e]))
    }
}

/// `m` with `e` indexed by its first annotation with key `ann`, if any.
pub open spec fn index_by(m: Seq<(Seq<char>, Seq<SubmoduleSpec>)>, ann: Seq<char>, e: SubmoduleSpec) -> Seq<
    (Seq<char>, Seq<SubmoduleSpec>),
> {
    match first_annotation(e.annotations, ann) {
        Some(v) => append_under(m, v, e),
        None => m,
    }
}

/// The index after adding one submodule.
pub open spec fn absorb(st: MetadataIndex, e: SubmoduleSpec) -> MetadataIndex {
    (index_by(st.0, "type"@, e), index_by(st.1, "fuzzer-engine"@, e), st.2.push(e))
}

/// The index after adding the submodules `es` in order.
pub open spec fn absorb_all(st: MetadataIndex, es: Seq<SubmoduleSpec>) -> MetadataIndex
    decreases es.len(),
{
    if es.len() == 0 {
        st
    } else {
        absorb(absorb_all(st, es.drop_last()), es.last())
    }
}

/// The index part of the metadata.
pub open spec fn index_of(m: DaslMetadata) -> MetadataIndex {
    (m.by_type.deep_view(), m.by_fuzzer_engine.deep_view(), m.all_submodules.deep_view())
}

/// The value of the first annotation of `e` with key `key`.
fn find_annotation(e: &SubmoduleEntry, key: &str) -> (r: Option<String>)
    ensures
        r.deep_view() == first_annotation(e.deep_view().annotations, key@),
{
    let ghost anns = e.deep_view().annotations;
    assert(anns.skip(0) =~= anns);
    for i in 0..e.annotations.len()
        invariant
            anns == e.deep_view().annotations,
            first_annotation(anns, key@) == first_annotation(anns.skip(i as int), key@),
    {
        assert(anns.skip(i as int)[0] == e.annotations@[i as int].deep_view());
        if str_eq(e.annotations[i].key.as_str(), key) {
            return Some(e.annotations[i].value.clone());
        }
        assert(anns.skip(i as int).drop_first() =~= anns.skip(i + 1));
    }
    None
}

/// Appends a copy of `e` under `k`.
fn append_entry(m: &mut StrMap<Vec<SubmoduleEntry>>, k: String, e: &SubmoduleEntry)
    ensures
        final(m).deep_view() == append_under(old(m).deep_view(), k@, e.deep_view()),
{
    match m.index_of(k.as_str()) {
        Some(i) => {
            let mut list = m.replace_value_at(i, Vec::new());
            let ghost before = list.deep_view();
            list.push(e.duplicate());
            assert(list.deep_view() =~= before.push(e.deep_view()));
            let ghost mid = m.deep_view();
            m.replace_value_at(i, list);
            assert(m.deep_view() =~= append_under(old(m).deep_view(), k@, e.deep_view()));
        },
        None => {
            let mut list: Vec<SubmoduleEntry> = Vec::new();
            list.push(e.duplicate());
            assert(list.deep_view() =~= seq![e.deep_view()]);
            m.insert(k, list);
        },
    }
}

impl DaslMetadata {
    /// No projects, no submodules.
    pub fn new() -> (r: DaslMetadata)
        ensures
            r.total_projects == 0,
            r.total_submodules == 0,
            index_of(r) == (
                Seq::<(Seq<char>, Seq<SubmoduleSpec>)>::empty(),
                Seq::<(Seq<char>, Seq<SubmoduleSpec>)>::empty(),
                Seq::<SubmoduleSpec>::empty(),
            ),
    {
        let r = DaslMetadata {
            total_projects: 0,
            total_submodules: 0,
            by_type: StrMap::new(),
            by_fuzzer_engine: StrMap::new(),
            all_submodules: Vec::new(),
        };
        assert(r.all_submodules.deep_view() =~= Seq::<SubmoduleSpec>::empty());
        r
    }

    /// Records one submodule: indexed by its first `type` and first
    /// `fuzzer-engine` annotation, and kept in the list of all.
    pub fn add_submodule(&mut self, e: SubmoduleEntry)
        ensures
            final(self).total_projects == old(self).total_projects,
            final(self).total_submodules == old(self).total_submodules,
            index_of(*final(self)) == absorb(index_of(*old(self)), e.deep_view()),
    {
        match find_annotation(&e, "type") {
            Some(t) => append_entry(&mut self.by_type, t, &e),
            None => {},
        }
        match find_annotation(&e, "fuzzer-engine") {
            Some(f) => append_entry(&mut self.by_fuzzer_engine, f, &e),
            None => {},
        }
        let ghost before = self.all_submodules.deep_view();
        self.all_submodules.push(e);
        assert(self.all_submodules.deep_view() =~= before.push(e.deep_view()));
    }

    /// Records a parsed `.gitmodules` file: one more project, and each of
    /// its submodules in order.
    pub fn add_project(&mut self, data: &GitmodulesData)
        requires
            old(self).total_projects < usize::MAX,
            old(self).total_submodules + data.submodules.deep_view().len() <= usize::MAX,
        ensures
            final(self).total_projects == old(self).total_projects + 1,
            final(self).total_submodules == old(self).total_submodules + data.submodules.deep_view().len(),
            index_of(*final(self)) == absorb_all(
                index_of(*old(self)),
                data.submodules.deep_view().map_values(|p: (Seq<char>, SubmoduleSpec)| p.1),
            ),
    {
        let n = data.submodules.len();
        self.total_projects = self.total_projects + 1;
        self.total_submodules = self.total_submodules + n;
        let ghost start = index_of(*self);
        let ghost es = data.submodules.deep_view().map_values(|p: (Seq<char>, SubmoduleSpec)| p.1);
        for i in 0..n
            invariant
                n == data.submodules.deep_view().len(),
                es == data.submodules.deep_view().map_values(|p: (Seq<char>, SubmoduleSpec)| p.1),
                self.total_projects == old(self).total_projects + 1,
                self.total_submodules == old(self).total_submodules + n,
                index_of(*self) == absorb_all(start, es.take(i as int)),
        {
            let e = data.submodules.value_at(i).duplicate();
            assert(es.take(i + 1).drop_last() =~= es.take(i as int));
            self.add_submodule(e);
        }
        assert(es.take(n as int) =~= es);
    }

    /// The submodules annotated `type = fuzzer-harness`.
    pub fn fuzzer_harnesses(&self) -> (r: &[SubmoduleEntry])
        ensures
            r@.map_values(|e: SubmoduleEntry| e.deep_view()) == match lookup(
                self.by_type.deep_view(),
                "fuzzer-harness"@,
            ) {
                Some(v) => v,
                None => Seq::empty(),
            },
    {
        match self.by_type.get("fuzzer-harness") {
            Some(v) => {
                assert(v@.map_values(|e: SubmoduleEntry| e.deep_view()) =~= v.deep_view());
                v.as_slice()
            },
            None => {
                let r: &[SubmoduleEntry] = &[];
                assert(r@.map_values(|e: SubmoduleEntry| e.deep_view()) =~= Seq::<SubmoduleSpec>::empty());
                r
            },
        }
    }
}

/// The `.gitmodules` files listed in a project list: each line, trimmed,
/// that ends with `.gitmodules`, taken under `base`.
pub open spec fn listed_gitmodules(content: Seq<char>, base: Seq<char>) -> Seq<Seq<char>>
    decreases lines(content).len(),
{
    listed_in(lines(content), base)
}

/// The listed `.gitmodules` files among `ls`, in order.
pub open spec fn listed_in(ls: Seq<Seq<char>>, base: Seq<char>) -> Seq<Seq<char>>
    decreases ls.len(),
{
    if ls.len() == 0 {
        Seq::empty()
    } else if ends_with(trim(ls.last()), ".gitmodules"@) {
        listed_in(ls.drop_last(), base).push(join_path(base, trim(ls.last())))
    } else {
        listed_in(ls.drop_last(), base)
    }
}

/// The `.gitmodules` paths a project list (`git.txt`) names, under the
/// DASL root `base`.
pub fn gitmodules_paths(content: &str, base: &str) -> (r: Vec<String>)
    ensures
        views(r@) == listed_gitmodules(content@, base@),
{
    let ls = split_lines(content);
    let mut r: Vec<String> = Vec::new();
    assert(views(ls@) == lines(content@));
    for i in 0..ls.len()
        invariant
            views(ls@) == lines(content@),
            views(r@) == listed_in(views(ls@).take(i as int), base@),
    {
        let t = trimmed(ls[i].as_str());
        assert(views(ls@).take(i + 1).drop_last() =~= views(ls@).take(i as int));
        assert(views(ls@).take(i + 1).last() == ls@[i as int]@);
        if has_suffix(t.as_str(), ".gitmodules") {
            let ghost before = views(r@);
            r.push(path_join(base, t.as_str()));
            assert(views(r@) =~= before.push(join_path(base@, t@)));
        }
    }
    assert(views(ls@).take(ls.len() as int) =~= views(ls@));
    r
}

} // verus!
