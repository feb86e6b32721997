//! The manifest: a mapping from logical asset paths to physical
//! (content-hashed) file names, read from a JSON object whose values
//! are either a bare string or an object with a `file` member.  The
//! snapshot carries the source file's last observed modification time
//! and is replaced wholesale on reload; a failed reload keeps the
//! previous snapshot.

use vstd::prelude::*;
use vstd::string::*;

use crate::json::{
    json_as_string, json_doc_of, json_members_of, json_object_entries, json_parse, json_str_of,
};
use crate::strutil::{pair_views, str_eq};

verus! {

/// A file modification timestamp, as whole seconds relative to the
/// Unix epoch (negative for times before it) and nanoseconds within
/// the second.  The store only ever compares these for equality.
#[derive(Clone, Copy, Debug, PartialEq, Eq, Structural)]
pub struct Mtime {
    pub secs: i64,
    pub nanos: u32,
}

/// One manifest value, in either accepted shape: a bare string, or an
/// object with a `file` member.
pub enum ManifestValue {
    Direct(String),
    Entry { file: String },
}

/// The physical path a manifest value denotes, the same for both
/// shapes.
pub open spec fn physical_of(v: ManifestValue) -> Seq<char> {
    match v {
        ManifestValue::Direct(s) => s@,
        ManifestValue::Entry { file } => file@,
    }
}

pub fn manifest_value_file(v: ManifestValue) -> (r: String)
    ensures
        r@ == physical_of(v),
{
    match v {
        ManifestValue::Direct(s) => s,
        ManifestValue::Entry { file } => file,
    }
}

#[derive(Clone, Copy, Debug, PartialEq, Eq, Structural)]
pub enum ManifestError {
    Parse,
}

pub open spec fn unique_keys(entries: Seq<(Seq<char>, Seq<char>)>) -> bool {
    forall|i: int, j: int| 0 <= i < j < entries.len() ==> entries[i].0 != entries[j].0
}

/// The value the lookup table associates with `key`: that of the first
/// entry whose key matches (with well-formed tables the only one).
pub open spec fn spec_lookup(entries: Seq<(Seq<char>, Seq<char>)>, key: Seq<char>) -> Option<
    Seq<char>,
>
    decreases entries.len(),
{
    if entries.len() == 0 {
        None
    } else if entries[0].0 == key {
        Some(entries[0].1)
    } else {
        spec_lookup(entries.drop_first(), key)
    }
}

/// Law: the two manifest value shapes are equivalent encodings — a bare
/// string and an object whose `file` member holds the same string
/// denote the same physical path.
pub proof fn lemma_value_shape_equivalence(s: String)
    ensures
        physical_of(ManifestValue::Direct(s)) == physical_of(ManifestValue::Entry { file: s }),
{
}

pub open spec fn table_of(raw: Seq<(Seq<char>, ManifestValue)>) -> Seq<(Seq<char>, Seq<char>)> {
    raw.map_values(|p: (Seq<char>, ManifestValue)| (p.0, physical_of(p.1)))
}

/// Law: two raw manifests that agree key for key, with values equal up
/// to the choice of shape, produce identical lookup tables.
pub proof fn lemma_shape_equal_manifests_same_table(
    a: Seq<(Seq<char>, ManifestValue)>,
    b: Seq<(Seq<char>, ManifestValue)>,
)
    requires
        a.len() == b.len(),
        forall|i: int|
            0 <= i < a.len() ==> a[i].0 == b[i].0 && physical_of(a[i].1) == physical_of(b[i].1),
    ensures
        table_of(a) == table_of(b),
{
    assert(table_of(a) =~= table_of(b));
}

/// The string under a member list's first `file` member, when there is
/// one and it is a string.
pub open spec fn spec_file_member(ms: Seq<(Seq<char>, serde_json::Value)>) -> Option<Seq<char>>
    decreases ms.len(),
{
    if ms.len() == 0 {
        None
    } else if ms[0].0 == "file"@ {
        json_str_of(ms[0].1)
    } else {
        spec_file_member(ms.drop_first())
    }
}

/// The physical path a member's JSON value denotes: the string itself,
/// or the string under the object's `file` member; `None` when the
/// value has neither accepted shape.
pub open spec fn spec_value_physical(v: serde_json::Value) -> Option<Seq<char>> {
    if json_str_of(v) is Some {
        json_str_of(v)
    } else if json_members_of(v) is Some {
        spec_file_member(json_members_of(v).unwrap())
    } else {
        None
    }
}

/// The lookup table a member list denotes: each value normalized to
/// its physical path, in order; `None` as soon as one value has no
/// accepted shape.
pub open spec fn spec_manifest_table(ms: Seq<(Seq<char>, serde_json::Value)>) -> Option<
    Seq<(Seq<char>, Seq<char>)>,
>
    decreases ms.len(),
{
    if ms.len() == 0 {
        Some(Seq::<(Seq<char>, Seq<char>)>::empty())
    } else {
        match spec_value_physical(ms[0].1) {
            Some(p) => match spec_manifest_table(ms.drop_first()) {
                Some(t) => Some(seq![(ms[0].0, p)] + t),
                None => None,
            },
            None => None,
        }
    }
}

/// What manifest text parses to: the table of its JSON object's
/// members, `None` for text that is not well-formed JSON, not an
/// object, or holds a value of an unaccepted shape.
pub open spec fn spec_parse_manifest(s: Seq<char>) -> Option<Seq<(Seq<char>, Seq<char>)>> {
    match json_doc_of(s) {
        Some(doc) => match json_members_of(doc) {
            Some(ms) => spec_manifest_table(ms),
            None => None,
        },
        None => None,
    }
}

/// Law: the two manifest value encodings agree at the JSON level — a
/// bare string and an object whose `file` member holds the same string
/// denote the same physical path.
pub proof fn lemma_json_value_shapes_agree(
    v1: serde_json::Value,
    v2: serde_json::Value,
    s: Seq<char>,
)
    requires
        json_str_of(v1) == Some(s),
        json_str_of(v2) is None,
        json_members_of(v2) matches Some(ms) && spec_file_member(ms) == Some(s),
    ensures
        spec_value_physical(v1) == Some(s),
        spec_value_physical(v2) == Some(s),
{
}

/// Law: two JSON manifests whose members agree key for key, with
/// values denoting the same physical path in either encoding, parse
/// to identical lookup tables.
pub proof fn lemma_member_shape_equivalence(
    ms1: Seq<(Seq<char>, serde_json::Value)>,
    ms2: Seq<(Seq<char>, serde_json::Value)>,
)
    requires
        ms1.len() == ms2.len(),
        forall|i: int|
            0 <= i < ms1.len() ==> (#[trigger] ms1[i]).0 == ms2[i].0 && spec_value_physical(
                ms1[i].1,
            ) == spec_value_physical(ms2[i].1),
    ensures
        spec_manifest_table(ms1) == spec_manifest_table(ms2),
    decreases ms1.len(),
{
    if ms1.len() > 0 {
        assert forall|i: int| 0 <= i < ms1.drop_first().len() implies (#[trigger] ms1.drop_first()[
            i
        ]).0 == ms2.drop_first()[i].0 && spec_value_physical(ms1.drop_first()[i].1)
            == spec_value_physical(ms2.drop_first()[i].1) by {
            assert(ms1.drop_first()[i] == ms1[i + 1]);
            assert(ms2.drop_first()[i] == ms2[i + 1]);
        }
        lemma_member_shape_equivalence(ms1.drop_first(), ms2.drop_first());
    }
}

/// Classifies one JSON value as a manifest value, accepting the two
/// shapes and nothing else; members of an entry object other than
/// `file` are ignored.
fn classify_value(v: &serde_json::Value) -> (r: Option<ManifestValue>)
    ensures
        match r {
            Some(mv) => spec_value_physical(*v) == Some(physical_of(mv)),
            None => spec_value_physical(*v) is None,
        },
{
    if let Some(s) = json_as_string(v) {
        return Some(ManifestValue::Direct(s));
    }
    let members = match json_object_entries(v) {
        Some(m) => m,
        None => { return None },
    };
    let ghost ms = json_members_of(*v).unwrap();
    proof {
        assert(ms.skip(0) =~= ms);
    }
    let n = members.len();
    for i in 0..n
        invariant
            n == members@.len(),
            json_str_of(*v) is None,
            json_members_of(*v) == Some(ms),
            ms.len() == n,
            forall|k: int| 0 <= k < n ==> #[trigger] ms[k] == (members@[k].0@, members@[k].1),
            spec_value_physical(*v) == spec_file_member(ms.skip(i as int)),
    {
        proof {
            assert(ms.skip(i as int)[0] == ms[i as int]);
            assert(ms.skip(i as int).drop_first() =~= ms.skip(i + 1));
        }
        if str_eq(members[i].0.as_str(), "file") {
            return match json_as_string(&members[i].1) {
                Some(file) => Some(ManifestValue::Entry { file }),
                None => None,
            };
        }
    }
    proof {
        assert(ms.skip(n as int).len() == 0);
    }
    None
}

/// Parses manifest text: a JSON object, each value in one of the two
/// accepted shapes, normalized to its physical path.  The result is
/// `Ok` exactly when the text denotes a table, and then holds exactly
/// that table; the keys of a JSON object are unique, so the table's
/// keys are too.
pub fn parse_manifest_entries(contents: &str) -> (r: Result<Vec<(String, String)>, ManifestError>)
    ensures
        match r {
            Ok(v) => spec_parse_manifest(contents@) == Some(pair_views(v@)) && unique_keys(
                pair_views(v@),
            ),
            Err(_) => spec_parse_manifest(contents@) is None,
        },
{
    let parsed = match json_parse(contents) {
        Some(v) => v,
        None => { return Err(ManifestError::Parse) },
    };
    let members = match json_object_entries(&parsed) {
        Some(m) => m,
        None => { return Err(ManifestError::Parse) },
    };
    let ghost ms = json_members_of(parsed).unwrap();
    proof {
        assert(ms.skip(0) =~= ms);
        assert(pair_views(Seq::<(String, String)>::empty()) =~= Seq::<(
            Seq<char>,
            Seq<char>,
        )>::empty());
    }
    let n = members.len();
    let mut out: Vec<(String, String)> = Vec::new();
    for i in 0..n
        invariant
            n == members@.len(),
            json_doc_of(contents@) == Some(parsed),
            json_members_of(parsed) == Some(ms),
            ms.len() == n,
            forall|k: int| 0 <= k < n ==> #[trigger] ms[k] == (members@[k].0@, members@[k].1),
            forall|k: int, j: int| 0 <= k < j < n ==> members@[k].0@ != members@[j].0@,
            out@.len() == i,
            forall|k: int| 0 <= k < i ==> (#[trigger] out@[k]).0@ == members@[k].0@,
            spec_manifest_table(ms) == match spec_manifest_table(ms.skip(i as int)) {
                Some(t) => Some(pair_views(out@) + t),
                None => None::<Seq<(Seq<char>, Seq<char>)>>,
            },
    {
        proof {
            assert(ms.skip(i as int)[0] == ms[i as int]);
            assert(ms.skip(i as int).drop_first() =~= ms.skip(i + 1));
        }
        let value = match classify_value(&members[i].1) {
            Some(mv) => mv,
            None => { return Err(ManifestError::Parse) },
        };
        let ghost vphys = physical_of(value);
        let ghost out_old = out@;
        let key = members[i].0.clone();
        out.push((key, manifest_value_file(value)));
        proof {
            assert(pair_views(out@) =~= pair_views(out_old) + seq![(ms[i as int].0, vphys)]);
            if let Some(t) = spec_manifest_table(ms.skip(i + 1)) {
                assert(pair_views(out_old) + (seq![(ms[i as int].0, vphys)] + t) =~= pair_views(
                    out@,
                ) + t);
            }
        }
    }
    proof {
        assert(ms.skip(n as int).len() == 0);
        assert(pair_views(out@) + Seq::<(Seq<char>, Seq<char>)>::empty() =~= pair_views(out@));
        assert forall|i: int, j: int| 0 <= i < j < out@.len() implies pair_views(out@)[i].0
            != pair_views(out@)[j].0 by {
            assert(pair_views(out@)[i].0 == out@[i].0@);
            assert(pair_views(out@)[j].0 == out@[j].0@);
        }
    }
    Ok(out)
}

/// One self-consistent snapshot of the manifest: the lookup table and
/// the source file's modification time when it was read.
pub struct ManifestState {
    entries: Vec<(String, String)>,
    last_modified: Option<Mtime>,
}

impl ManifestState {
    /// The lookup table this snapshot holds.
    pub closed spec fn entries_view(&self) -> Seq<(Seq<char>, Seq<char>)> {
        pair_views(self.entries@)
    }

    /// The source file's modification time stored with the snapshot.
    pub closed spec fn mtime_view(&self) -> Option<Mtime> {
        self.last_modified
    }

    /// Each logical path appears at most once.
    pub open spec fn wf(&self) -> bool {
        unique_keys(self.entries_view())
    }

    pub fn new(entries: Vec<(String, String)>, last_modified: Option<Mtime>) -> (r: ManifestState)
        requires
            unique_keys(pair_views(entries@)),
        ensures
            r.wf(),
            r.entries_view() == pair_views(entries@),
            r.mtime_view() == last_modified,
    {
        ManifestState { entries, last_modified }
    }

    /// An empty snapshot, for a gateway configured without a manifest
    /// file.
    pub fn empty() -> (r: ManifestState)
        ensures
            r.wf(),
            r.entries_view() == Seq::<(Seq<char>, Seq<char>)>::empty(),
            r.mtime_view() is None,
    {
        let r = ManifestState { entries: Vec::new(), last_modified: None };
        proof {
            assert(r.entries_view() =~= Seq::<(Seq<char>, Seq<char>)>::empty());
        }
        r
    }

    /// Builds the startup snapshot from manifest text and the observed
    /// modification time; fails exactly when the text does not denote
    /// a table, and otherwise holds exactly that table.
    pub fn from_contents(contents: &str, modified: Option<Mtime>) -> (r: Result<
        ManifestState,
        ManifestError,
    >)
        ensures
            match r {
                Ok(st) => spec_parse_manifest(contents@) == Some(st.entries_view()) && st.wf()
                    && st.mtime_view() == modified,
                Err(_) => spec_parse_manifest(contents@) is None,
            },
    {
        match parse_manifest_entries(contents) {
            Ok(entries) => Ok(ManifestState { entries, last_modified: modified }),
            Err(e) => Err(e),
        }
    }

    /// The non-blocking point lookup over the current snapshot.
    pub fn lookup(&self, logical: &str) -> (r: Option<String>)
        ensures
            match r {
                Some(s) => spec_lookup(self.entries_view(), logical@) == Some(s@),
                None => spec_lookup(self.entries_view(), logical@) is None,
            },
    {
        let n = self.entries.len();
        proof {
            assert(self.entries_view().skip(0) =~= self.entries_view());
        }
        for i in 0..n
            invariant
                n == self.entries@.len(),
                spec_lookup(self.entries_view(), logical@) == spec_lookup(
                    self.entries_view().skip(i as int),
                    logical@,
                ),
        {
            proof {
                assert(self.entries_view().skip(i as int)[0] == self.entries_view()[i as int]);
                assert(self.entries_view().skip(i as int).drop_first() =~= self.entries_view().skip(
                    i + 1,
                ));
            }
            if str_eq(self.entries[i].0.as_str(), logical) {
                return Some(self.entries[i].1.clone());
            }
        }
        None
    }

    /// The poll decision: a reload is needed exactly when the observed
    /// modification time differs from the stored one.
    pub fn needs_reload(&self, observed: Option<Mtime>) -> (r: bool)
        ensures
            r == (observed != self.mtime_view()),
    {
        match (observed, self.last_modified) {
            (None, None) => false,
            (Some(a), Some(b)) => !(a.secs == b.secs && a.nanos == b.nanos),
            _ => true,
        }
    }

    /// The reload outcome: on a successful parse the snapshot is
    /// replaced wholesale and carries the observed modification time;
    /// on a parse failure the previous snapshot is retained unchanged,
    /// stored time included, preferring availability over freshness.
    pub fn with_reloaded(&self, observed: Option<Mtime>, parsed: Result<
        Vec<(String, String)>,
        ManifestError,
    >) -> (r: ManifestState)
        requires
            parsed matches Ok(v) ==> unique_keys(pair_views(v@)),
            self.wf(),
        ensures
            r.wf(),
            match parsed {
                Ok(v) => r.entries_view() == pair_views(v@) && r.mtime_view() == observed,
                Err(_) => r.entries_view() == self.entries_view() && r.mtime_view()
                    == self.mtime_view(),
            },
    {
        match parsed {
            Ok(entries) => ManifestState { entries, last_modified: observed },
            Err(_) => {
                let entries = clone_entries(&self.entries);
                proof {
                    assert(pair_views(entries@) =~= self.entries_view());
                }
                ManifestState { entries, last_modified: self.last_modified }
            },
        }
    }
}

fn clone_entries(v: &Vec<(String, String)>) -> (r: Vec<(String, String)>)
    ensures
        pair_views(r@) == pair_views(v@),
        r@.len() == v@.len(),
{
    let n = v.len();
    let mut out: Vec<(String, String)> = Vec::new();
    for i in 0..n
        invariant
            n == v@.len(),
            out@.len() == i,
            forall|k: int| 0 <= k < i ==> out@[k].0@ == v@[k].0@ && out@[k].1@ == v@[k].1@,
    {
        out.push((v[i].0.clone(), v[i].1.clone()));
    }
    proof {
        assert(pair_views(out@) =~= pair_views(v@));
    }
    out
}

} // verus!
