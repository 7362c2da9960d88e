//! Parser for `.gitmodules` files (with annotation comments) and for
//! `.git/config` files.
use vstd::prelude::*;
use crate::str_map::{StrMap, distinct_keys, has_key, insert_entry, key_pos, lookup};
use crate::text::{
    ends_with, has_prefix, has_suffix, lines, split_at_first, split_lines, split_once, starts_with,
    strip_leading, strip_trailing, trim, trim_end_matches, trim_start_matches, trimmed, views, str_eq,
    owned,
};

verus! {

broadcast use vstd::string::group_string_axioms;

/// Annotation attached to a `.gitmodules` entry.
pub struct Annotation {
    pub key: String,
    pub value: String,
}

impl DeepView for Annotation {
    type V = (Seq<char>, Seq<char>);

    open spec fn deep_view(&self) -> (Seq<char>, Seq<char>) {
        (self.key@, self.value@)
    }
}

impl Annotation {
    /// A copy of this annotation.
    pub fn duplicate(&self) -> (r: Annotation)
        ensures
            r.deep_view() == self.deep_view(),
    {
        Annotation { key: self.key.clone(), value: self.value.clone() }
    }
}

/// The abstract content of a submodule entry.
pub struct SubmoduleSpec {
    pub path: Seq<char>,
    pub url: Seq<char>,
    pub branch: Option<Seq<char>>,
    pub annotations: Seq<(Seq<char>, Seq<char>)>,
    pub tracked_attributes: Seq<(Seq<char>, Seq<char>)>,
}

/// Git submodule entry from `.gitmodules`.
pub struct SubmoduleEntry {
    pub path: String,
    pub url: String,
    pub branch: Option<String>,
    pub annotations: Vec<Annotation>,
    pub tracked_attributes: StrMap<String>,
}

impl DeepView for SubmoduleEntry {
    type V = SubmoduleSpec;

    open spec fn deep_view(&self) -> SubmoduleSpec {
        SubmoduleSpec {
            path: self.path@,
            url: self.url@,
            branch: self.branch.deep_view(),
            annotations: self.annotations.deep_view(),
            tracked_attributes: self.tracked_attributes.deep_view(),
        }
    }
}

/// A copy of a list of annotations.
pub fn copy_annotations(v: &Vec<Annotation>) -> (r: Vec<Annotation>)
    ensures
        r.deep_view() == v.deep_view(),
{
    let mut r: Vec<Annotation> = Vec::new();
    let mut i: usize = 0;
    while i < v.len()
        invariant
            i <= v.len(),
            r.deep_view() == v.deep_view().take(i as int),
        decreases v.len() - i,
    {
        let a = v[i].duplicate();
        let ghost before = r.deep_view();
        r.push(a);
        assert(r.deep_view() =~= before.push(a.deep_view()));
        assert(v.deep_view().take(i + 1) =~= v.deep_view().take(i as int).push(v.deep_view()[i as int]));
        i += 1;
    }
    assert(v.deep_view().take(v.len() as int) =~= v.deep_view());
    r
}

/// A copy of a string map of strings.
pub fn copy_string_map(m: &StrMap<String>) -> (r: StrMap<String>)
    ensures
        r.deep_view() == m.deep_view(),
{
    let mut r: StrMap<String> = StrMap::new();
    let mut i: usize = 0;
    let n = m.len();
    assert(m.deep_view().take(0) =~= Seq::<(Seq<char>, Seq<char>)>::empty());
    while i < n
        invariant
            i <= n == m.deep_view().len(),
            r.deep_view() == m.deep_view().take(i as int),
            distinct_keys(m.deep_view()),
        decreases n - i,
    {
        let k = m.key_at(i).clone();
        let v = m.value_at(i).clone();
        proof {
            let pre = m.deep_view().take(i as int);
            assert(!has_key(pre, k@)) by {
                if has_key(pre, k@) {
                    let j = key_pos(pre, k@);
                    assert(m.deep_view()[j].0 == m.deep_view()[i as int].0);
                }
            }
            assert(pre.push((k@, v@)) =~= m.deep_view().take(i + 1));
        }
        r.insert(k, v);
        i += 1;
    }
    assert(m.deep_view().take(n as int) =~= m.deep_view());
    r
}

impl SubmoduleEntry {
    /// A copy of this entry.
    pub fn duplicate(&self) -> (r: SubmoduleEntry)
        ensures
            r.deep_view() == self.deep_view(),
    {
        SubmoduleEntry {
            path: self.path.clone(),
            url: self.url.clone(),
            branch: match &self.branch {
                Some(b) => Some(b.clone()),
                None => None,
            },
            annotations: copy_annotations(&self.annotations),
            tracked_attributes: copy_string_map(&self.tracked_attributes),
        }
    }
}

/// Git config section.
pub struct ConfigSection {
    pub name: String,
    pub values: StrMap<String>,
}

impl DeepView for ConfigSection {
    type V = (Seq<char>, Seq<(Seq<char>, Seq<char>)>);

    open spec fn deep_view(&self) -> (Seq<char>, Seq<(Seq<char>, Seq<char>)>) {
        (self.name@, self.values.deep_view())
    }
}

/// Parsed `.git/config` file: its sections by name.
pub struct GitConfig {
    pub sections: StrMap<ConfigSection>,
}

/// The abstract content of a parsed git config.
pub type ConfigView = Seq<(Seq<char>, (Seq<char>, Seq<(Seq<char>, Seq<char>)>))>;

impl DeepView for GitConfig {
    type V = ConfigView;

    open spec fn deep_view(&self) -> ConfigView {
        self.sections.deep_view()
    }
}

/// The state of the git config parser between lines: the sections so far
/// and the name of the section being read.
pub open spec fn config_step(st: (ConfigView, Option<Seq<char>>), line: Seq<char>) -> (
    ConfigView,
    Option<Seq<char>>,
) {
    let t = trim(line);
    let (sections, current) = st;
    if t.len() == 0 || starts_with(t, seq!['#']) {
        st
    } else if starts_with(t, seq!['[']) && ends_with(t, seq![']']) {
        let name = trim_end_matches(trim_start_matches(t, seq!['[']), seq![']']);
        if has_key(sections, name) {
            (sections, Some(name))
        } else {
            (sections.push((name, (name, Seq::empty()))), Some(name))
        }
    } else {
        match split_once(t, seq!['=']) {
            Some(kv) => match current {
                Some(sec) => {
                    if has_key(sections, sec) {
                        let p = key_pos(sections, sec);
                        let (n, vals) = sections[p].1;
                        (
                            sections.update(p, (sec, (n, insert_entry(vals, trim(kv.0), trim(kv.1))))),
                            current,
                        )
                    } else {
                        st
                    }
                },
                None => st,
            },
            None => st,
        }
    }
}

/// Runs the git config parser over a sequence of lines.
pub open spec fn config_run(st: (ConfigView, Option<Seq<char>>), ls: Seq<Seq<char>>) -> (
    ConfigView,
    Option<Seq<char>>,
)
    decreases ls.len(),
{
    if ls.len() == 0 {
        st
    } else {
        config_run(config_step(st, ls[0]), ls.drop_first())
    }
}

/// The sections that parsing `content` yields.
pub open spec fn parse_git_config(content: Seq<char>) -> ConfigView {
    config_run((Seq::empty(), None), lines(content)).0
}

proof fn lemma_config_run_step(st: (ConfigView, Option<Seq<char>>), ls: Seq<Seq<char>>, i: int)
    requires
        0 <= i < ls.len(),
    ensures
        config_run(st, ls.skip(i)) == config_run(config_step(st, ls[i]), ls.skip(i + 1)),
{
    assert(ls.skip(i).drop_first() =~= ls.skip(i + 1));
}

// ───────────────────────────── a rendered section ───────────────────────

proof fn lemma_trim_keeps(s: Seq<char>)
    requires
        s.len() > 0,
        !crate::text::is_ws(s[0]),
        !crate::text::is_ws(s.last()),
    ensures
        trim(s) == s,
{
}

proof fn lemma_config_line(k: Seq<char>, v: Seq<char>)
    requires
        k.len() > 0,
        !crate::text::is_ws(k[0]),
        !crate::text::is_ws(k.last()),
        v.len() > 0 ==> !crate::text::is_ws(v[0]) && !crate::text::is_ws(v.last()),
        forall|q: int| 0 <= q < k.len() ==> k[q] != '=',
    ensures
        trim(k + seq![' ', '=', ' '] + v).len() > 0,
        trim(k + seq![' ', '=', ' '] + v)[0] == k[0],
        split_once(trim(k + seq![' ', '=', ' '] + v), seq!['=']) == Some((k + seq![' '], if v.len() > 0 {
            seq![' '] + v
        } else {
            Seq::<char>::empty()
        })),
        trim(k + seq![' ']) == k,
        trim(if v.len() > 0 {
            seq![' '] + v
        } else {
            Seq::<char>::empty()
        }) == v,
{
    let n: int = k.len() as int;
    let l = k + seq![' ', '=', ' '] + v;
    let t = if v.len() > 0 {
        l
    } else {
        k + seq![' ', '=']
    };
    if v.len() > 0 {
        assert(l.last() == v.last());
        assert(l[0] == k[0]);
        lemma_trim_keeps(l);
    } else {
        assert(l =~= k + seq![' ', '=', ' ']);
        assert(crate::text::trim_start(l) == l);
        assert(l.drop_last() =~= t);
        assert(crate::text::trim_end(t) == t);
        assert(trim(l) == t);
    }
    assert(t[n + 1] == '=');
    let sep = seq!['='];
    assert(crate::text::occurs_at(t, sep, n + 1)) by {
        assert(t.subrange(n + 1, n + 2) =~= sep);
    }
    crate::text::lemma_find_from(t, sep, 0);
    assert forall|q: int| 0 <= q < n + 1 implies !crate::text::occurs_at(t, sep, q) by {
        if crate::text::occurs_at(t, sep, q) {
            assert(t.subrange(q, q + 1)[0] == t[q]);
            if q < k.len() {
                assert(t[q] == k[q]);
            }
        }
    }
    assert(crate::text::find(t, sep) == Some(n + 1));
    assert(t.take(n + 1) =~= k + seq![' ']);
    if v.len() > 0 {
        assert(t.skip(n + 2) =~= seq![' '] + v);
        let sv = seq![' '] + v;
        assert(sv.drop_first() =~= v);
        assert(crate::text::trim_start(v) == v);
        assert(sv[0] == ' ');
        assert(crate::text::is_ws(' ')) by {
            assert((' ' as u32) == 0x20);
        }
        assert(crate::text::trim_start(sv) == crate::text::trim_start(sv.drop_first()));
        assert(crate::text::trim_start(sv) == v);
    } else {
        assert(t.skip(n + 2) =~= Seq::<char>::empty());
    }
    let ks = k + seq![' '];
    assert(ks[0] == k[0]);
    assert(crate::text::trim_start(ks) == ks);
    assert(ks.drop_last() =~= k);
    assert(crate::text::trim_end(k) == k);
}

/// A section rendered as `[<section>]` and `<key> = <value>` lines parses
/// back to that section holding that one value (so `get` gives the value
/// back), when the section name neither starts with `[` nor ends with `]`,
/// the key is not empty, has no `=`, and neither it nor the value has
/// whitespace at its ends, the key starts with neither `#` nor `[`, and no
/// part holds a newline.
pub proof fn lemma_config_round_trip(s: Seq<char>, k: Seq<char>, v: Seq<char>)
    requires
        forall|q: int| 0 <= q < s.len() ==> s[q] != '\n',
        forall|q: int| 0 <= q < k.len() ==> k[q] != '\n' && k[q] != '=',
        forall|q: int| 0 <= q < v.len() ==> v[q] != '\n',
        s.len() > 0 ==> s[0] != '[' && s.last() != ']',
        k.len() > 0,
        k[0] != '#' && k[0] != '[',
        !crate::text::is_ws(k[0]) && !crate::text::is_ws(k.last()),
        v.len() > 0 ==> !crate::text::is_ws(v[0]) && !crate::text::is_ws(v.last()),
    ensures
        parse_git_config(seq!['['] + s + seq![']', '\n'] + k + seq![' ', '=', ' '] + v + seq!['\n']) == seq![
            (s, (s, seq![(k, v)])),
        ],
{
    let h = seq!['['] + s + seq![']'];
    let kv = k + seq![' ', '=', ' '] + v;
    let content = seq!['['] + s + seq![']', '\n'] + k + seq![' ', '=', ' '] + v + seq!['\n'];
    assert(content =~= h + seq!['\n'] + (kv + seq!['\n'] + Seq::<char>::empty()));
    assert forall|q: int| 0 <= q < h.len() implies h[q] != '\n' by {
        if 0 < q < h.len() - 1 {
            assert(h[q] == s[q - 1]);
        }
    }
    assert forall|q: int| 0 <= q < kv.len() implies kv[q] != '\n' by {
        if q < k.len() {
            assert(kv[q] == k[q]);
        } else if q >= k.len() + 3 {
            assert(kv[q] == v[q - k.len() - 3]);
        }
    }
    crate::text::lemma_lines_first(h, kv + seq!['\n'] + Seq::<char>::empty());
    crate::text::lemma_lines_first(kv, Seq::<char>::empty());
    assert(lines(Seq::<char>::empty()) =~= Seq::<Seq<char>>::empty());
    assert(crate::text::strip_cr(h) == h);
    if v.len() > 0 {
        assert(kv.last() == v.last());
    } else {
        assert(kv.last() == ' ');
    }
    assert(crate::text::strip_cr(kv) == kv);
    let ls = lines(content);
    assert(ls =~= seq![h, kv]);
    // the header line
    lemma_trim_keeps(h);
    assert(crate::text::starts_with(h, seq!['['])) by {
        assert(h.take(1) =~= seq!['[']);
    }
    assert(ends_with(h, seq![']'])) by {
        assert(h.skip(h.len() - 1) =~= seq![']']);
    }
    assert(!starts_with(h, seq!['#']));
    let h1 = h.skip(1);
    assert(h1 =~= s + seq![']']);
    assert(!starts_with(h1, seq!['['])) by {
        if s.len() > 0 {
            assert(h1.take(1)[0] == s[0]);
        } else {
            assert(h1.take(1)[0] == ']');
        }
    }
    assert(trim_start_matches(h1, seq!['[']) == h1);
    assert(trim_start_matches(h, seq!['[']) == h1);
    assert(h1.take(h1.len() - 1) =~= s);
    assert(!ends_with(s, seq![']'])) by {
        if s.len() > 0 {
            assert(s.skip(s.len() - 1)[0] == s.last());
        }
    }
    assert(trim_end_matches(s, seq![']']) == s);
    assert(ends_with(h1, seq![']'])) by {
        assert(h1.skip(h1.len() - 1) =~= seq![']']);
    }
    assert(trim_end_matches(h1, seq![']']) == s);
    let st0: (ConfigView, Option<Seq<char>>) = (Seq::empty(), None);
    let secs1: ConfigView = seq![(s, (s, Seq::<(Seq<char>, Seq<char>)>::empty()))];
    assert(!has_key(st0.0, s));
    assert(config_step(st0, h) == (secs1, Some(s)));
    // the value line
    lemma_config_line(k, v);
    let t = trim(kv);
    assert(!starts_with(t, seq!['#'])) by {
        assert(t.take(1)[0] == k[0]);
    }
    assert(!(starts_with(t, seq!['[']) && ends_with(t, seq![']']))) by {
        if starts_with(t, seq!['[']) {
            assert(t.take(1)[0] == k[0]);
        }
    }
    assert(secs1[0].0 == s);
    assert(has_key(secs1, s));
    assert(key_pos(secs1, s) == 0);
    let vals = insert_entry(Seq::<(Seq<char>, Seq<char>)>::empty(), k, v);
    assert(vals =~= seq![(k, v)]);
    assert(config_step((secs1, Some(s)), kv) == (secs1.update(0, (s, (s, vals))), Some(s)));
    assert(secs1.update(0, (s, (s, vals))) =~= seq![(s, (s, seq![(k, v)]))]);
    lemma_config_run_step(st0, ls, 0);
    lemma_config_run_step(config_step(st0, ls[0]), ls, 1);
    assert(ls.skip(0) =~= ls);
    assert(ls.skip(2) =~= Seq::<Seq<char>>::empty());
}

impl GitConfig {
    /// An empty config.
    pub fn new() -> (r: GitConfig)
        ensures
            r.deep_view() == Seq::<(Seq<char>, (Seq<char>, Seq<(Seq<char>, Seq<char>)>))>::empty(),
    {
        GitConfig { sections: StrMap::new() }
    }

    /// Parses `.git/config` content. Parsing never fails.
    pub fn parse(content: &str) -> (r: Result<GitConfig, String>)
        ensures
            r matches Ok(c) && c.deep_view() == parse_git_config(content@),
    {
        let ls = split_lines(content);
        let mut config = GitConfig::new();
        let mut current: Option<String> = None;
        let mut i: usize = 0;
        proof {
            assert(views(ls@).skip(0) =~= views(ls@));
        }
        while i < ls.len()
            invariant
                i <= ls.len(),
                views(ls@) == lines(content@),
                config_run((config.deep_view(), current.deep_view()), views(ls@).skip(i as int))
                    == config_run((Seq::empty(), None), lines(content@)),
            decreases ls.len() - i,
        {
            proof {
                lemma_config_run_step((config.deep_view(), current.deep_view()), views(ls@), i as int);
                reveal_strlit("#");
                reveal_strlit("[");
                reveal_strlit("]");
                reveal_strlit("=");
                assert("#"@ =~= seq!['#']);
                assert("["@ =~= seq!['[']);
                assert("]"@ =~= seq![']']);
                assert("="@ =~= seq!['=']);
            }
            let t = trimmed(ls[i].as_str());
            let ghost st = (config.deep_view(), current.deep_view());
            if t.as_str().is_empty() || has_prefix(t.as_str(), "#") {
                assert(t@.len() == 0 || starts_with(t@, seq!['#']));
            } else if has_prefix(t.as_str(), "[") && has_suffix(t.as_str(), "]") {
                let inner = strip_leading(t.as_str(), "[");
                let name = strip_trailing(inner.as_str(), "]");
                if !config.sections.contains_key(name.as_str()) {
                    let sec = ConfigSection { name: name.clone(), values: StrMap::new() };
                    config.sections.insert(name.clone(), sec);
                    proof {
                        assert(insert_entry(st.0, name@, (name@, Seq::<(Seq<char>, Seq<char>)>::empty()))
                            == st.0.push((name@, (name@, Seq::<(Seq<char>, Seq<char>)>::empty()))));
                    }
                }
                current = Some(name);
            } else {
                match split_at_first(t.as_str(), "=") {
                    Some(kv) => {
                        match &current {
                            Some(sec) => {
                                match config.sections.index_of(sec.as_str()) {
                                    Some(p) => {
                                        let old_sec = config.sections.value_at(p);
                                        let mut vals = copy_string_map(&old_sec.values);
                                        let sec_name = old_sec.name.clone();
                                        let key = trimmed(kv.0.as_str());
                                        let value = trimmed(kv.1.as_str());
                                        vals.insert(key, value);
                                        config.sections.set_value_at(
                                            p,
                                            ConfigSection { name: sec_name, values: vals },
                                        );
                                    },
                                    None => {},
                                }
                            },
                            None => {},
                        }
                    },
                    None => {},
                }
            }
            i += 1;
        }
        proof {
            assert(views(ls@).skip(ls.len() as int) =~= Seq::<Seq<char>>::empty());
        }
        Ok(config)
    }

    /// The value of `key` in section `section`.
    pub fn get(&self, section: &str, key: &str) -> (r: Option<&String>)
        ensures
            r matches Some(v) ==> lookup(self.deep_view(), section@) matches Some(sec) && lookup(
                sec.1,
                key@,
            ) == Some(v@),
            r is None ==> match lookup(self.deep_view(), section@) {
                Some(sec) => lookup(sec.1, key@) is None,
                None => true,
            },
    {
        match self.sections.get(section) {
            Some(sec) => sec.values.get(key),
            None => None,
        }
    }
}


/// The state of the `.gitmodules` parser between lines.
pub struct GitmodulesState {
    pub subs: Seq<(Seq<char>, SubmoduleSpec)>,
    pub name: Option<Seq<char>>,
    pub path: Option<Seq<char>>,
    pub url: Option<Seq<char>>,
    pub anns: Seq<(Seq<char>, Seq<char>)>,
    pub in_anns: bool,
}

/// The parser state before the first line.
pub open spec fn gitmodules_start() -> GitmodulesState {
    GitmodulesState {
        subs: Seq::empty(),
        name: None,
        path: None,
        url: None,
        anns: Seq::empty(),
        in_anns: false,
    }
}

/// The entry that a complete `name`/`path`/`url` triple produces.
pub open spec fn new_entry(path: Seq<char>, url: Seq<char>, anns: Seq<(Seq<char>, Seq<char>)>) -> SubmoduleSpec {
    SubmoduleSpec {
        path,
        url,
        branch: None,
        annotations: anns,
        tracked_attributes: Seq::empty(),
    }
}

/// The submodules after flushing the pending entry, if it is complete.
pub open spec fn flush(st: GitmodulesState) -> Seq<(Seq<char>, SubmoduleSpec)> {
    match (st.name, st.path, st.url) {
        (Some(n), Some(p), Some(u)) => insert_entry(st.subs, n, new_entry(p, u, st.anns)),
        _ => st.subs,
    }
}

/// The pending entry is complete.
pub open spec fn pending_complete(st: GitmodulesState) -> bool {
    st.name is Some && st.path is Some && st.url is Some
}

/// One line of `.gitmodules`.
pub open spec fn gitmodules_step(st: GitmodulesState, line: Seq<char>) -> GitmodulesState {
    let t = trim(line);
    if t.len() == 0 {
        GitmodulesState {
            subs: flush(st),
            name: None,
            path: None,
            url: None,
            anns: if pending_complete(st) {
                Seq::empty()
            } else {
                st.anns
            },
            in_anns: false,
        }
    } else if starts_with(t, "[submodule \""@) {
        GitmodulesState {
            subs: flush(st),
            name: Some(trim_end_matches(trim_start_matches(t, "[submodule \""@), "\"]"@)),
            path: None,
            url: None,
            anns: if pending_complete(st) {
                Seq::empty()
            } else {
                st.anns
            },
            in_anns: false,
        }
    } else if starts_with(t, "path = "@) {
        GitmodulesState { path: Some(trim_start_matches(t, "path = "@)), ..st }
    } else if starts_with(t, "url = "@) {
        GitmodulesState { url: Some(trim_start_matches(t, "url = "@)), ..st }
    } else if starts_with(t, "branch = "@) {
        match st.name {
            Some(n) => {
                if has_key(st.subs, n) {
                    let p = key_pos(st.subs, n);
                    let e = st.subs[p].1;
                    GitmodulesState {
                        subs: st.subs.update(
                            p,
                            (n, SubmoduleSpec { branch: Some(trim_start_matches(t, "branch = "@)), ..e }),
                        ),
                        ..st
                    }
                } else {
                    st
                }
            },
            None => st,
        }
    } else if starts_with(t, "# gemini-annotations:"@) {
        GitmodulesState { in_anns: true, ..st }
    } else if starts_with(t, "#   "@) && st.in_anns {
        match split_once(trim_start_matches(t, "#   "@), ": "@) {
            Some(kv) => GitmodulesState { anns: st.anns.push(kv), ..st },
            None => st,
        }
    } else {
        st
    }
}

/// A `branch = ` line read while no `[submodule "…"]` header is pending:
/// the parser stops there.
pub open spec fn gitmodules_step_fails(st: GitmodulesState, line: Seq<char>) -> bool {
    let t = trim(line);
    t.len() != 0 && !starts_with(t, "[submodule \""@) && !starts_with(t, "path = "@) && !starts_with(
        t,
        "url = "@,
    ) && starts_with(t, "branch = "@) && st.name is None
}

/// Runs the `.gitmodules` parser over a sequence of lines.
pub open spec fn gitmodules_run(st: GitmodulesState, ls: Seq<Seq<char>>) -> GitmodulesState
    decreases ls.len(),
{
    if ls.len() == 0 {
        st
    } else {
        gitmodules_run(gitmodules_step(st, ls[0]), ls.drop_first())
    }
}

/// No line of `ls` makes the parser stop.
pub open spec fn gitmodules_run_ok(st: GitmodulesState, ls: Seq<Seq<char>>) -> bool
    decreases ls.len(),
{
    ls.len() == 0 || (!gitmodules_step_fails(st, ls[0]) && gitmodules_run_ok(
        gitmodules_step(st, ls[0]),
        ls.drop_first(),
    ))
}

/// `content` can be parsed: no `branch = ` line precedes its header.
pub open spec fn gitmodules_parsable(content: Seq<char>) -> bool {
    gitmodules_run_ok(gitmodules_start(), lines(content))
}

/// The submodules that parsing `content` yields.
pub open spec fn parse_gitmodules(content: Seq<char>) -> Seq<(Seq<char>, SubmoduleSpec)> {
    flush(gitmodules_run(gitmodules_start(), lines(content)))
}

proof fn lemma_gitmodules_skip(st: GitmodulesState, ls: Seq<Seq<char>>, i: int)
    requires
        0 <= i < ls.len(),
    ensures
        gitmodules_run(st, ls.skip(i)) == gitmodules_run(gitmodules_step(st, ls[i]), ls.skip(i + 1)),
        gitmodules_run_ok(st, ls.skip(i)) == (!gitmodules_step_fails(st, ls[i])
            && gitmodules_run_ok(gitmodules_step(st, ls[i]), ls.skip(i + 1))),
{
    assert(ls.skip(i).drop_first() =~= ls.skip(i + 1));
}

/// Some line of `ls` is a `[submodule "…"]` header naming `n`.
pub open spec fn named_in(ls: Seq<Seq<char>>, n: Seq<char>) -> bool {
    exists|i: int|
        0 <= i < ls.len() && starts_with(trim(#[trigger] ls[i]), "[submodule \""@) && trim_end_matches(
            trim_start_matches(trim(ls[i]), "[submodule \""@),
            "\"]"@,
        ) == n
}

/// Some line of `ls`, trimmed, is `key` followed by `v`.
pub open spec fn keyed_in(ls: Seq<Seq<char>>, key: Seq<char>, v: Seq<char>) -> bool {
    exists|i: int| 0 <= i < ls.len() && starts_with(trim(#[trigger] ls[i]), key) && trim_start_matches(trim(ls[i]), key) == v
}

/// Everything the parser holds comes from the lines `ls`: the names of the
/// entries and the pending name from headers, paths and URLs from `path = `
/// and `url = ` lines; no entry tracks an attribute.
pub open spec fn from_lines(ls: Seq<Seq<char>>, st: GitmodulesState) -> bool {
    &&& forall|j: int| 0 <= j < st.subs.len() ==> named_in(ls, (#[trigger] st.subs[j]).0)
        && keyed_in(ls, "path = "@, st.subs[j].1.path) && keyed_in(ls, "url = "@, st.subs[j].1.url)
        && st.subs[j].1.tracked_attributes.len() == 0
    &&& (st.name matches Some(n) ==> named_in(ls, n))
    &&& (st.path matches Some(p) ==> keyed_in(ls, "path = "@, p))
    &&& (st.url matches Some(u) ==> keyed_in(ls, "url = "@, u))
}

proof fn lemma_flush_from_lines(ls: Seq<Seq<char>>, st: GitmodulesState)
    requires
        from_lines(ls, st),
    ensures
        forall|j: int| 0 <= j < flush(st).len() ==> named_in(ls, (#[trigger] flush(st)[j]).0)
            && keyed_in(ls, "path = "@, flush(st)[j].1.path) && keyed_in(ls, "url = "@, flush(st)[j].1.url)
            && flush(st)[j].1.tracked_attributes.len() == 0,
{
    match (st.name, st.path, st.url) {
        (Some(n), Some(p), Some(u)) => {
            let f = flush(st);
            assert forall|j: int| 0 <= j < f.len() implies named_in(ls, (#[trigger] f[j]).0)
                && keyed_in(ls, "path = "@, f[j].1.path) && keyed_in(ls, "url = "@, f[j].1.url)
                && f[j].1.tracked_attributes.len() == 0 by {
                if has_key(st.subs, n) {
                    if j != key_pos(st.subs, n) {
                        assert(f[j] == st.subs[j]);
                    }
                } else if j < st.subs.len() {
                    assert(f[j] == st.subs[j]);
                }
            }
        },
        _ => {},
    }
}

proof fn lemma_step_from_lines(ls: Seq<Seq<char>>, st: GitmodulesState, i: int)
    requires
        0 <= i < ls.len(),
        from_lines(ls, st),
    ensures
        from_lines(ls, gitmodules_step(st, ls[i])),
{
    let t = trim(ls[i]);
    let nx = gitmodules_step(st, ls[i]);
    if t.len() == 0 {
        lemma_flush_from_lines(ls, st);
    } else if starts_with(t, "[submodule \""@) {
        lemma_flush_from_lines(ls, st);
        assert(named_in(ls, nx.name->0));
    } else if starts_with(t, "path = "@) {
        assert(keyed_in(ls, "path = "@, nx.path->0));
    } else if starts_with(t, "url = "@) {
        assert(keyed_in(ls, "url = "@, nx.url->0));
    } else if starts_with(t, "branch = "@) {
        match st.name {
            Some(n) => {
                if has_key(st.subs, n) {
                    let p = key_pos(st.subs, n);
                    assert forall|j: int| 0 <= j < nx.subs.len() implies named_in(ls, (#[trigger] nx.subs[j]).0)
                        && keyed_in(ls, "path = "@, nx.subs[j].1.path) && keyed_in(ls, "url = "@, nx.subs[j].1.url)
                        && nx.subs[j].1.tracked_attributes.len() == 0 by {
                        assert(st.subs[j] == st.subs[j]);
                        if j == p {
                            assert(nx.subs[j].1.path == st.subs[p].1.path);
                        }
                    }
                }
            },
            None => {},
        }
    }
}

proof fn lemma_run_from_lines(ls: Seq<Seq<char>>, st: GitmodulesState, i: int)
    requires
        0 <= i <= ls.len(),
        from_lines(ls, st),
    ensures
        from_lines(ls, gitmodules_run(st, ls.skip(i))),
    decreases ls.len() - i,
{
    if i < ls.len() {
        lemma_gitmodules_skip(st, ls, i);
        lemma_step_from_lines(ls, st, i);
        lemma_run_from_lines(ls, gitmodules_step(st, ls[i]), i + 1);
    } else {
        assert(ls.skip(i) =~= Seq::<Seq<char>>::empty());
    }
}

/// What parsing `.gitmodules` yields comes from the text: each entry's
/// name from a `[submodule "…"]` header line, its path from a `path = `
/// line and its URL from a `url = ` line (each line trimmed), and no entry
/// tracks an attribute.
pub proof fn lemma_parse_from_lines(content: Seq<char>)
    ensures
        forall|j: int| 0 <= j < parse_gitmodules(content).len() ==> named_in(lines(content), (#[trigger] parse_gitmodules(content)[j]).0)
            && keyed_in(lines(content), "path = "@, parse_gitmodules(content)[j].1.path)
            && keyed_in(lines(content), "url = "@, parse_gitmodules(content)[j].1.url)
            && parse_gitmodules(content)[j].1.tracked_attributes.len() == 0,
{
    let ls = lines(content);
    assert(from_lines(ls, gitmodules_start()));
    lemma_run_from_lines(ls, gitmodules_start(), 0);
    assert(ls.skip(0) =~= ls);
    lemma_flush_from_lines(ls, gitmodules_run(gitmodules_start(), ls));
}

/// No line of `ls`, trimmed, starts with `branch = `.
pub open spec fn no_branch_lines(ls: Seq<Seq<char>>) -> bool {
    forall|i: int| 0 <= i < ls.len() ==> !starts_with(trim(#[trigger] ls[i]), "branch = "@)
}

/// Every entry held has no branch.
pub open spec fn no_branches(subs: Seq<(Seq<char>, SubmoduleSpec)>) -> bool {
    forall|j: int| 0 <= j < subs.len() ==> (#[trigger] subs[j]).1.branch is None
}

proof fn lemma_flush_no_branches(st: GitmodulesState)
    requires
        no_branches(st.subs),
    ensures
        no_branches(flush(st)),
{
    match (st.name, st.path, st.url) {
        (Some(n), Some(p), Some(u)) => {
            let f = flush(st);
            assert forall|j: int| 0 <= j < f.len() implies (#[trigger] f[j]).1.branch is None by {
                if has_key(st.subs, n) {
                    if j != key_pos(st.subs, n) {
                        assert(f[j] == st.subs[j]);
                    }
                } else if j < st.subs.len() {
                    assert(f[j] == st.subs[j]);
                }
            }
        },
        _ => {},
    }
}

proof fn lemma_run_no_branch(ls: Seq<Seq<char>>, st: GitmodulesState, i: int)
    requires
        0 <= i <= ls.len(),
        no_branch_lines(ls),
        no_branches(st.subs),
    ensures
        gitmodules_run_ok(st, ls.skip(i)),
        no_branches(gitmodules_run(st, ls.skip(i)).subs),
    decreases ls.len() - i,
{
    if i < ls.len() {
        lemma_gitmodules_skip(st, ls, i);
        let t = trim(ls[i]);
        assert(!starts_with(t, "branch = "@));
        let nx = gitmodules_step(st, ls[i]);
        if t.len() == 0 || starts_with(t, "[submodule \""@) {
            lemma_flush_no_branches(st);
        }
        assert(no_branches(nx.subs));
        lemma_run_no_branch(ls, nx, i + 1);
    } else {
        assert(ls.skip(i) =~= Seq::<Seq<char>>::empty());
    }
}

/// A `.gitmodules` text with no `branch = ` line is always parsed, and
/// none of its entries has a branch (its names, paths and URLs come from
/// its lines: `lemma_parse_from_lines`).
pub proof fn lemma_parse_without_branches(content: Seq<char>)
    requires
        no_branch_lines(lines(content)),
    ensures
        gitmodules_parsable(content),
        no_branches(parse_gitmodules(content)),
{
    let ls = lines(content);
    lemma_run_no_branch(ls, gitmodules_start(), 0);
    assert(ls.skip(0) =~= ls);
    lemma_flush_no_branches(gitmodules_run(gitmodules_start(), ls));
}

/// Parsed `.gitmodules` file.
pub struct GitmodulesData {
    pub submodules: StrMap<SubmoduleEntry>,
    pub total_count: usize,
    pub git_config: Option<GitConfig>,
}

impl GitmodulesData {
    /// No submodules, no attached git config.
    pub fn new() -> (r: GitmodulesData)
        ensures
            r.submodules.deep_view().len() == 0,
            r.total_count == 0,
            r.git_config is None,
    {
        GitmodulesData { submodules: StrMap::new(), total_count: 0, git_config: None }
    }

    /// Whether `parse` accepts `content`: it stops at a `branch = ` line
    /// that comes while no submodule header is pending.
    pub fn is_parsable(content: &str) -> (r: bool)
        ensures
            r == gitmodules_parsable(content@),
    {
        let ls = split_lines(content);
        let mut named = false;
        let mut i: usize = 0;
        let ghost mut st = gitmodules_start();
        proof {
            assert(views(ls@).skip(0) =~= views(ls@));
        }
        while i < ls.len()
            invariant
                i <= ls.len(),
                views(ls@) == lines(content@),
                named == (st.name is Some),
                gitmodules_run_ok(st, views(ls@).skip(i as int)) == gitmodules_parsable(content@),
            decreases ls.len() - i,
        {
            proof {
                lemma_gitmodules_skip(st, views(ls@), i as int);
            }
            let t = trimmed(ls[i].as_str());
            if t.as_str().is_empty() {
                named = false;
            } else if has_prefix(t.as_str(), "[submodule \"") {
                named = true;
            } else if has_prefix(t.as_str(), "path = ") || has_prefix(t.as_str(), "url = ") {
            } else if has_prefix(t.as_str(), "branch = ") {
                if !named {
                    return false;
                }
            }
            proof {
                st = gitmodules_step(st, views(ls@)[i as int]);
            }
            i += 1;
        }
        proof {
            assert(views(ls@).skip(ls.len() as int) =~= Seq::<Seq<char>>::empty());
        }
        true
    }

    /// Parses `.gitmodules` content with annotation support.
    ///
    /// Each entry needs a `[submodule "name"]` header, a `path = ` and a
    /// `url = ` line; an entry ends at the next header, at a blank line or
    /// at the end of the text.
    /// Comment lines `#   key: value` that follow a
    /// `# gemini-annotations:` line become annotations of the entry.
    pub fn parse(content: &str) -> (r: Result<GitmodulesData, String>)
        requires
            gitmodules_parsable(content@),
        ensures
            r matches Ok(d) && d.submodules.deep_view() == parse_gitmodules(content@)
                && d.total_count == parse_gitmodules(content@).len() && d.git_config is None,
    {
        let ls = split_lines(content);
        let mut data = GitmodulesData::new();
        let mut name: Option<String> = None;
        let mut path: Option<String> = None;
        let mut url: Option<String> = None;
        let mut annotations: Vec<Annotation> = Vec::new();
        let mut in_annotations = false;
        let mut i: usize = 0;
        proof {
            assert(views(ls@).skip(0) =~= views(ls@));
            assert(annotations.deep_view() =~= Seq::<(Seq<char>, Seq<char>)>::empty());
            assert(data.submodules.deep_view() =~= Seq::<(Seq<char>, SubmoduleSpec)>::empty());
            assert(name.deep_view() == None::<Seq<char>>);
            assert(GitmodulesState {
                subs: data.submodules.deep_view(),
                name: name.deep_view(),
                path: path.deep_view(),
                url: url.deep_view(),
                anns: annotations.deep_view(),
                in_anns: in_annotations,
            } == gitmodules_start());
        }
        while i < ls.len()
            invariant
                i <= ls.len(),
                views(ls@) == lines(content@),
                data.git_config is None,
                gitmodules_run_ok(
                    GitmodulesState {
                        subs: data.submodules.deep_view(),
                        name: name.deep_view(),
                        path: path.deep_view(),
                        url: url.deep_view(),
                        anns: annotations.deep_view(),
                        in_anns: in_annotations,
                    },
                    views(ls@).skip(i as int),
                ),
                gitmodules_run(
                    GitmodulesState {
                        subs: data.submodules.deep_view(),
                        name: name.deep_view(),
                        path: path.deep_view(),
                        url: url.deep_view(),
                        anns: annotations.deep_view(),
                        in_anns: in_annotations,
                    },
                    views(ls@).skip(i as int),
                ) == gitmodules_run(gitmodules_start(), lines(content@)),
            decreases ls.len() - i,
        {
            let ghost st = GitmodulesState {
                subs: data.submodules.deep_view(),
                name: name.deep_view(),
                path: path.deep_view(),
                url: url.deep_view(),
                anns: annotations.deep_view(),
                in_anns: in_annotations,
            };
            proof {
                lemma_gitmodules_skip(st, views(ls@), i as int);
            }
            let t = trimmed(ls[i].as_str());
            if t.as_str().is_empty() {
                let n = name;
                let p = path;
                let u = url;
                name = None;
                path = None;
                url = None;
                match (n, p, u) {
                    (Some(n), Some(p), Some(u)) => {
                        let entry = SubmoduleEntry {
                            path: p,
                            url: u,
                            branch: None,
                            annotations: copy_annotations(&annotations),
                            tracked_attributes: StrMap::new(),
                        };
                        data.submodules.insert(n, entry);
                        annotations = Vec::new();
                        assert(annotations.deep_view() =~= Seq::<(Seq<char>, Seq<char>)>::empty());
                    },
                    _ => {},
                }
                in_annotations = false;
            } else if has_prefix(t.as_str(), "[submodule \"") {
                let n = name;
                let p = path;
                let u = url;
                path = None;
                url = None;
                match (n, p, u) {
                    (Some(n), Some(p), Some(u)) => {
                        let entry = SubmoduleEntry {
                            path: p,
                            url: u,
                            branch: None,
                            annotations: copy_annotations(&annotations),
                            tracked_attributes: StrMap::new(),
                        };
                        data.submodules.insert(n, entry);
                        annotations = Vec::new();
                        assert(annotations.deep_view() =~= Seq::<(Seq<char>, Seq<char>)>::empty());
                    },
                    _ => {},
                }
                let inner = strip_leading(t.as_str(), "[submodule \"");
                name = Some(strip_trailing(inner.as_str(), "\"]"));
                in_annotations = false;
            } else if has_prefix(t.as_str(), "path = ") {
                path = Some(strip_leading(t.as_str(), "path = "));
            } else if has_prefix(t.as_str(), "url = ") {
                url = Some(strip_leading(t.as_str(), "url = "));
            } else if has_prefix(t.as_str(), "branch = ") {
                match &name {
                    Some(n) => {
                        match data.submodules.index_of(n.as_str()) {
                            Some(p) => {
                                let mut e = data.submodules.value_at(p).duplicate();
                                e.branch = Some(strip_leading(t.as_str(), "branch = "));
                                data.submodules.set_value_at(p, e);
                            },
                            None => {},
                        }
                    },
                    None => {},
                }
            } else if has_prefix(t.as_str(), "# gemini-annotations:") {
                in_annotations = true;
            } else if has_prefix(t.as_str(), "#   ") && in_annotations {
                let a = strip_leading(t.as_str(), "#   ");
                match split_at_first(a.as_str(), ": ") {
                    Some(kv) => {
                        let ghost before = annotations.deep_view();
                        annotations.push(Annotation { key: kv.0, value: kv.1 });
                        assert(annotations.deep_view() =~= before.push((kv.0@, kv.1@)));
                    },
                    None => {},
                }
            }
            i += 1;
        }
        let ghost fin = GitmodulesState {
            subs: data.submodules.deep_view(),
            name: name.deep_view(),
            path: path.deep_view(),
            url: url.deep_view(),
            anns: annotations.deep_view(),
            in_anns: in_annotations,
        };
        proof {
            assert(views(ls@).skip(ls.len() as int) =~= Seq::<Seq<char>>::empty());
            assert(fin == gitmodules_run(gitmodules_start(), lines(content@)));
        }
        match (name, path, url) {
            (Some(n), Some(p), Some(u)) => {
                let entry = SubmoduleEntry {
                    path: p,
                    url: u,
                    branch: None,
                    annotations,
                    tracked_attributes: StrMap::new(),
                };
                assert(entry.deep_view() == new_entry(p@, u@, fin.anns));
                data.submodules.insert(n, entry);
                assert(data.submodules.deep_view() == flush(fin));
            },
            _ => {
                assert(data.submodules.deep_view() == flush(fin));
            },
        }
        data.total_count = data.submodules.len();
        Ok(data)
    }
}


/// The entry carries the annotation `key: value`.
pub open spec fn has_annotation(e: SubmoduleSpec, key: Seq<char>, value: Seq<char>) -> bool {
    exists|i: int| 0 <= i < e.annotations.len() && e.annotations[i] == (key, value)
}

/// The entries of `s`, in order, that carry the annotation `key: value`.
pub open spec fn entries_with_annotation(
    s: Seq<(Seq<char>, SubmoduleSpec)>,
    key: Seq<char>,
    value: Seq<char>,
) -> Seq<SubmoduleSpec>
    decreases s.len(),
{
    if s.len() == 0 {
        Seq::empty()
    } else {
        let rest = entries_with_annotation(s.drop_last(), key, value);
        if has_annotation(s.last().1, key, value) {
            rest.push(s.last().1)
        } else {
            rest
        }
    }
}

/// An entry is among those carrying an annotation exactly when some entry
/// of the map is that entry and carries it.
pub proof fn lemma_annotation_members(s: Seq<(Seq<char>, SubmoduleSpec)>, key: Seq<char>, value: Seq<char>, x: SubmoduleSpec)
    ensures
        entries_with_annotation(s, key, value).contains(x) <==> exists|i: int|
            0 <= i < s.len() && s[i].1 == x && has_annotation(s[i].1, key, value),
    decreases s.len(),
{
    let r = entries_with_annotation(s, key, value);
    if s.len() > 0 {
        let init = s.drop_last();
        lemma_annotation_members(init, key, value, x);
        let ri = entries_with_annotation(init, key, value);
        if r.contains(x) {
            let k = choose|k: int| 0 <= k < r.len() && r[k] == x;
            if k < ri.len() {
                assert(ri[k] == x);
                let i = choose|i: int| 0 <= i < init.len() && init[i].1 == x && has_annotation(init[i].1, key, value);
                assert(s[i] == init[i]);
            } else {
                assert(s[s.len() - 1].1 == x);
            }
        }
        if exists|i: int| 0 <= i < s.len() && s[i].1 == x && has_annotation(s[i].1, key, value) {
            let i = choose|i: int| 0 <= i < s.len() && s[i].1 == x && has_annotation(s[i].1, key, value);
            if i < s.len() - 1 {
                assert(init[i] == s[i]);
                let k = choose|k: int| 0 <= k < ri.len() && ri[k] == x;
                assert(r[k] == x);
            } else {
                assert(r[r.len() - 1] == x);
            }
        }
    }
}

/// How many entries of the map are `x` and carry the annotation.
pub open spec fn matching_count(s: Seq<(Seq<char>, SubmoduleSpec)>, key: Seq<char>, value: Seq<char>, x: SubmoduleSpec) -> nat
    decreases s.len(),
{
    if s.len() == 0 {
        0
    } else {
        matching_count(s.drop_last(), key, value, x) + if s.last().1 == x && has_annotation(s.last().1, key, value) {
            1nat
        } else {
            0nat
        }
    }
}

/// Each entry carrying an annotation is found once for every map entry
/// that holds it, and no other entry is found.
pub proof fn lemma_annotation_once_each(s: Seq<(Seq<char>, SubmoduleSpec)>, key: Seq<char>, value: Seq<char>, x: SubmoduleSpec)
    ensures
        entries_with_annotation(s, key, value).to_multiset().count(x) == matching_count(s, key, value, x),
    decreases s.len(),
{
    broadcast use vstd::seq_lib::group_to_multiset_ensures;
    broadcast use vstd::multiset::group_multiset_axioms;
    if s.len() == 0 {
        assert(entries_with_annotation(s, key, value) =~= Seq::<SubmoduleSpec>::empty());
    } else {
        lemma_annotation_once_each(s.drop_last(), key, value, x);
    }
}

/// The entries of `s`, in order, that track the attribute `key`.
pub open spec fn entries_with_attribute(s: Seq<(Seq<char>, SubmoduleSpec)>, key: Seq<char>) -> Seq<
    SubmoduleSpec,
>
    decreases s.len(),
{
    if s.len() == 0 {
        Seq::empty()
    } else {
        let rest = entries_with_attribute(s.drop_last(), key);
        if has_key(s.last().1.tracked_attributes, key) {
            rest.push(s.last().1)
        } else {
            rest
        }
    }
}

/// The submodules after setting tracked attribute `key` of entry `name`
/// to `value` (unchanged when there is no such entry).
pub open spec fn with_attribute(
    s: Seq<(Seq<char>, SubmoduleSpec)>,
    name: Seq<char>,
    key: Seq<char>,
    value: Seq<char>,
) -> Seq<(Seq<char>, SubmoduleSpec)> {
    if has_key(s, name) {
        let p = key_pos(s, name);
        let e = s[p].1;
        s.update(
            p,
            (name, SubmoduleSpec { tracked_attributes: insert_entry(e.tracked_attributes, key, value), ..e }),
        )
    } else {
        s
    }
}

impl GitmodulesData {
    /// Parses `.git/config` content and attaches it.
    pub fn with_git_config(self, config_content: &str) -> (r: Result<GitmodulesData, String>)
        ensures
            r matches Ok(d) && d.submodules.deep_view() == self.submodules.deep_view()
                && d.total_count == self.total_count && (d.git_config matches Some(c)
                && c.deep_view() == parse_git_config(config_content@)),
    {
        let mut s = self;
        match GitConfig::parse(config_content) {
            Ok(c) => {
                s.git_config = Some(c);
                Ok(s)
            },
            Err(e) => Err(e),
        }
    }

    /// Submodules carrying the annotation `key: value`, in entry order.
    pub fn find_by_annotation(&self, key: &str, value: &str) -> (r: Vec<&SubmoduleEntry>)
        ensures
            r.deep_view() == entries_with_annotation(self.submodules.deep_view(), key@, value@),
    {
        let mut r: Vec<&SubmoduleEntry> = Vec::new();
        let n = self.submodules.len();
        let mut i: usize = 0;
        while i < n
            invariant
                i <= n == self.submodules.deep_view().len(),
                r.deep_view() == entries_with_annotation(
                    self.submodules.deep_view().take(i as int),
                    key@,
                    value@,
                ),
            decreases n - i,
        {
            let e = self.submodules.value_at(i);
            let mut found = false;
            let mut j: usize = 0;
            while j < e.annotations.len()
                invariant
                    j <= e.annotations.len(),
                    found == exists|a: int|
                        0 <= a < j && e.annotations.deep_view()[a] == (key@, value@),
                decreases e.annotations.len() - j,
            {
                assert(e.annotations.deep_view()[j as int] == e.annotations@[j as int].deep_view());
                if str_eq(e.annotations[j].key.as_str(), key) && str_eq(
                    e.annotations[j].value.as_str(),
                    value,
                ) {
                    found = true;
                }
                j += 1;
            }
            proof {
                let t = self.submodules.deep_view().take(i + 1);
                assert(t.drop_last() =~= self.submodules.deep_view().take(i as int));
                assert(t.last().1 == e.deep_view());
                assert(e.deep_view().annotations == e.annotations.deep_view());
                assert(e.annotations.deep_view().len() == e.annotations.len());
                if found {
                    let a = choose|a: int|
                        0 <= a < e.annotations.len() && e.annotations.deep_view()[a] == (key@, value@);
                    assert(e.deep_view().annotations[a] == (key@, value@));
                }
                if has_annotation(e.deep_view(), key@, value@) {
                    let a = choose|a: int|
                        0 <= a < e.deep_view().annotations.len() && e.deep_view().annotations[a] == (key@, value@);
                    assert(e.annotations.deep_view()[a] == (key@, value@));
                }
                assert(found == has_annotation(t.last().1, key@, value@));
            }
            if found {
                let ghost before = r.deep_view();
                r.push(e);
                assert(r.deep_view() =~= before.push(e.deep_view()));
            }
            i += 1;
        }
        assert(self.submodules.deep_view().take(n as int) =~= self.submodules.deep_view());
        r
    }

    /// Sets tracked attribute `key` of submodule `name` to `value`; false
    /// when there is no such submodule.
    pub fn set_attribute(&mut self, name: &str, key: &str, value: &str) -> (r: bool)
        ensures
            r == has_key(old(self).submodules.deep_view(), name@),
            final(self).submodules.deep_view() == with_attribute(
                old(self).submodules.deep_view(),
                name@,
                key@,
                value@,
            ),
            final(self).total_count == old(self).total_count,
            final(self).git_config == old(self).git_config,
    {
        match self.submodules.index_of(name) {
            Some(p) => {
                let mut e = self.submodules.value_at(p).duplicate();
                e.tracked_attributes.insert(owned(key), owned(value));
                self.submodules.set_value_at(p, e);
                true
            },
            None => false,
        }
    }

    /// Submodules that track attribute `key`, in entry order.
    pub fn find_by_attribute(&self, key: &str) -> (r: Vec<&SubmoduleEntry>)
        ensures
            r.deep_view() == entries_with_attribute(self.submodules.deep_view(), key@),
    {
        let mut r: Vec<&SubmoduleEntry> = Vec::new();
        let n = self.submodules.len();
        let mut i: usize = 0;
        while i < n
            invariant
                i <= n == self.submodules.deep_view().len(),
                r.deep_view() == entries_with_attribute(self.submodules.deep_view().take(i as int), key@),
            decreases n - i,
        {
            let e = self.submodules.value_at(i);
            let found = e.tracked_attributes.contains_key(key);
            proof {
                let t = self.submodules.deep_view().take(i + 1);
                assert(t.drop_last() =~= self.submodules.deep_view().take(i as int));
            }
            if found {
                let ghost before = r.deep_view();
                r.push(e);
                assert(r.deep_view() =~= before.push(e.deep_view()));
            }
            i += 1;
        }
        assert(self.submodules.deep_view().take(n as int) =~= self.submodules.deep_view());
        r
    }
}

} // verus!
