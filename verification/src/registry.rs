//! The settings document and the project registry over it.
//!
//! The document holds two key spaces: named scalar secrets and the projects
//! map.  Both are modelled as association sequences keyed by character
//! sequences; the project list is kept sorted by name, so listing is
//! deterministic.  Disk persistence is the caller's concern: every operation
//! here is a total transformation of an in-memory document, meant to run
//! between a reload and a save.
use vstd::pervasive::VecAdditionalExecFns;
use vstd::prelude::*;

use crate::settings::{
    default_project_settings, default_settings_view, ProjectSettings, ProjectSettingsView,
};
use crate::strutil::{
    is_blank, is_blank_spec, lemma_lex_lt_irrefl, lemma_lex_lt_total, lemma_lex_lt_trans, lex_lt,
    str_eq, str_lex_lt,
};

verus! {

/// A registry precondition violation.
#[derive(Clone, Copy, Debug, PartialEq, Eq, Structural)]
pub enum RegistryError {
    /// The project name is empty or whitespace-only.
    InvalidName,
    /// A project of that name already exists.
    AlreadyExists,
    /// No project of that name exists.
    NotFound,
}

/// First-match lookup in an association sequence.
pub open spec fn assoc_lookup<V>(s: Seq<(Seq<char>, V)>, key: Seq<char>) -> Option<V>
    decreases s.len(),
{
    if s.len() == 0 {
        None
    } else if s[0].0 == key {
        Some(s[0].1)
    } else {
        assoc_lookup(s.drop_first(), key)
    }
}

/// All keys of the association sequence are distinct.
pub open spec fn distinct_keys<V>(s: Seq<(Seq<char>, V)>) -> bool {
    forall|i: int, j: int| 0 <= i < j < s.len() ==> (#[trigger] s[i]).0 != (#[trigger] s[j]).0
}

/// The keys are strictly sorted in lexicographic order.
pub open spec fn sorted_keys<V>(s: Seq<(Seq<char>, V)>) -> bool {
    forall|i: int, j: int| 0 <= i < j < s.len() ==> lex_lt(
        (#[trigger] s[i]).0,
        (#[trigger] s[j]).0,
    )
}

/// Insertion into a sequence sorted by key, keeping the order.
pub open spec fn sorted_insert<V>(s: Seq<(Seq<char>, V)>, e: (Seq<char>, V)) -> Seq<
    (Seq<char>, V),
>
    decreases s.len(),
{
    if s.len() == 0 {
        seq![e]
    } else if lex_lt(e.0, s[0].0) {
        seq![e] + s
    } else {
        seq![s[0]] + sorted_insert(s.drop_first(), e)
    }
}

/// Removal of the first entry with the given key, if any.
pub open spec fn remove_key<V>(s: Seq<(Seq<char>, V)>, key: Seq<char>) -> Seq<(Seq<char>, V)>
    decreases s.len(),
{
    if s.len() == 0 {
        s
    } else if s[0].0 == key {
        s.drop_first()
    } else {
        seq![s[0]] + remove_key(s.drop_first(), key)
    }
}

/// Replacement of the value of the first entry with the given key, if any.
pub open spec fn set_key<V>(s: Seq<(Seq<char>, V)>, key: Seq<char>, v: V) -> Seq<(Seq<char>, V)>
    decreases s.len(),
{
    if s.len() == 0 {
        s
    } else if s[0].0 == key {
        seq![(key, v)] + s.drop_first()
    } else {
        seq![s[0]] + set_key(s.drop_first(), key, v)
    }
}

/// Sortedness makes keys distinct.
pub proof fn lemma_sorted_distinct<V>(s: Seq<(Seq<char>, V)>)
    requires
        sorted_keys(s),
    ensures
        distinct_keys(s),
{
    assert forall|i: int, j: int| 0 <= i < j < s.len() implies (#[trigger] s[i]).0 != (
    #[trigger] s[j]).0 by {
        if s[i].0 == s[j].0 {
            lemma_lex_lt_irrefl(s[i].0);
        }
    }
}

/// A key that the lookup misses occurs nowhere.
pub proof fn lemma_lookup_none_iff_absent<V>(s: Seq<(Seq<char>, V)>, key: Seq<char>)
    ensures
        assoc_lookup(s, key) is None <==> forall|i: int|
            0 <= i < s.len() ==> (#[trigger] s[i]).0 != key,
    decreases s.len(),
{
    if s.len() > 0 {
        lemma_lookup_none_iff_absent(s.drop_first(), key);
        if s[0].0 != key {
            assert forall|i: int| 1 <= i < s.len() implies (#[trigger] s[i]).0 == s.drop_first()[i
                - 1].0 by {}
        }
    }
}

/// What the lookup returns when `i` is the first position holding the key.
pub proof fn lemma_lookup_first<V>(s: Seq<(Seq<char>, V)>, key: Seq<char>, i: int)
    requires
        0 <= i < s.len(),
        s[i].0 == key,
        forall|k: int| 0 <= k < i ==> (#[trigger] s[k]).0 != key,
    ensures
        assoc_lookup(s, key) == Some(s[i].1),
    decreases i,
{
    if i > 0 {
        lemma_lookup_first(s.drop_first(), key, i - 1);
    }
}

/// Inserting an entry under a different key leaves a lookup unchanged.
pub proof fn lemma_lookup_sorted_insert_other<V>(
    s: Seq<(Seq<char>, V)>,
    e: (Seq<char>, V),
    other: Seq<char>,
)
    requires
        e.0 != other,
    ensures
        assoc_lookup(sorted_insert(s, e), other) == assoc_lookup(s, other),
    decreases s.len(),
{
    if s.len() == 0 {
        assert(sorted_insert(s, e).drop_first() =~= s);
    } else if lex_lt(e.0, s[0].0) {
        assert((seq![e] + s).drop_first() =~= s);
    } else {
        lemma_lookup_sorted_insert_other(s.drop_first(), e, other);
        assert((seq![s[0]] + sorted_insert(s.drop_first(), e)).drop_first() =~= sorted_insert(
            s.drop_first(),
            e,
        ));
    }
}

/// The inserted entry is found under its own key, provided the key was absent.
pub proof fn lemma_lookup_sorted_insert_same<V>(s: Seq<(Seq<char>, V)>, e: (Seq<char>, V))
    requires
        assoc_lookup(s, e.0) is None,
    ensures
        assoc_lookup(sorted_insert(s, e), e.0) == Some(e.1),
    decreases s.len(),
{
    if s.len() == 0 {
        assert(sorted_insert(s, e)[0] == e);
    } else if lex_lt(e.0, s[0].0) {
        assert((seq![e] + s)[0] == e);
    } else {
        lemma_lookup_sorted_insert_same(s.drop_first(), e);
        assert((seq![s[0]] + sorted_insert(s.drop_first(), e)).drop_first() =~= sorted_insert(
            s.drop_first(),
            e,
        ));
    }
}

/// Sorted insertion of an absent key keeps the keys sorted.
pub proof fn lemma_sorted_insert_sorted<V>(s: Seq<(Seq<char>, V)>, e: (Seq<char>, V))
    requires
        sorted_keys(s),
        assoc_lookup(s, e.0) is None,
    ensures
        sorted_keys(sorted_insert(s, e)),
    decreases s.len(),
{
    lemma_lookup_none_iff_absent(s, e.0);
    if s.len() == 0 {
    } else if lex_lt(e.0, s[0].0) {
        let t = seq![e] + s;
        assert forall|i: int, j: int| 0 <= i < j < t.len() implies lex_lt(
            (#[trigger] t[i]).0,
            (#[trigger] t[j]).0,
        ) by {
            if i == 0 {
                if j > 1 {
                    lemma_lex_lt_trans(e.0, s[0].0, s[j - 1].0);
                }
            }
        }
    } else {
        assert forall|k: int| 0 <= k < s.drop_first().len() implies (#[trigger] s.drop_first()[k]).0
            != e.0 by {
            assert(s.drop_first()[k] == s[k + 1]);
        }
        lemma_lookup_none_iff_absent(s.drop_first(), e.0);
        lemma_sorted_insert_sorted(s.drop_first(), e);
        let t = seq![s[0]] + sorted_insert(s.drop_first(), e);
        // the head is below everything inserted behind it
        lemma_lex_lt_total(e.0, s[0].0);
        assert(lex_lt(s[0].0, e.0));
        lemma_keys_of_sorted_insert(s.drop_first(), e);
        assert forall|i: int, j: int| 0 <= i < j < t.len() implies lex_lt(
            (#[trigger] t[i]).0,
            (#[trigger] t[j]).0,
        ) by {
            if i > 0 {
                assert(t[i] == sorted_insert(s.drop_first(), e)[i - 1]);
                assert(t[j] == sorted_insert(s.drop_first(), e)[j - 1]);
            } else {
                let tail = sorted_insert(s.drop_first(), e);
                assert(t[j] == tail[j - 1]);
                // t[j].0 is either e.0 or a key of s.drop_first(); the head
                // is below both
                if tail[j - 1].0 != e.0 {
                    let k = choose|k: int|
                        0 <= k < s.drop_first().len() && (#[trigger] s.drop_first()[k]).0 == tail[j
                            - 1].0;
                    assert(s.drop_first()[k] == s[k + 1]);
                    assert(lex_lt(s[0].0, s[k + 1].0));
                }
            }
        }
    }
}

/// Every key of a sorted insertion is the new key or one of the old ones.
pub proof fn lemma_keys_of_sorted_insert<V>(s: Seq<(Seq<char>, V)>, e: (Seq<char>, V))
    ensures
        sorted_insert(s, e).len() == s.len() + 1,
        forall|j: int|
            0 <= j < sorted_insert(s, e).len() ==> ((#[trigger] sorted_insert(s, e)[j]).0 == e.0
                || exists|k: int|
                0 <= k < s.len() && (#[trigger] s[k]).0 == sorted_insert(s, e)[j].0),
    decreases s.len(),
{
    if s.len() == 0 {
    } else if lex_lt(e.0, s[0].0) {
    } else {
        lemma_keys_of_sorted_insert(s.drop_first(), e);
        let t = seq![s[0]] + sorted_insert(s.drop_first(), e);
        assert forall|j: int|
            0 <= j < t.len() implies ((#[trigger] t[j]).0 == e.0 || exists|k: int|
            0 <= k < s.len() && (#[trigger] s[k]).0 == t[j].0) by {
            if j == 0 {
                assert(s[0].0 == t[0].0);
            } else {
                assert(t[j] == sorted_insert(s.drop_first(), e)[j - 1]);
                if t[j].0 != e.0 {
                    let k = choose|k: int|
                        0 <= k < s.drop_first().len() && (#[trigger] s.drop_first()[k]).0 == t[j].0;
                    assert(s[k + 1].0 == t[j].0);
                }
            }
        }
    }
}

/// Removing a key leaves other lookups unchanged.
pub proof fn lemma_lookup_remove_other<V>(s: Seq<(Seq<char>, V)>, key: Seq<char>, other: Seq<char>)
    requires
        key != other,
    ensures
        assoc_lookup(remove_key(s, key), other) == assoc_lookup(s, other),
    decreases s.len(),
{
    if s.len() > 0 {
        if s[0].0 != key {
            lemma_lookup_remove_other(s.drop_first(), key, other);
            assert((seq![s[0]] + remove_key(s.drop_first(), key)).drop_first() =~= remove_key(
                s.drop_first(),
                key,
            ));
        }
    }
}

/// After removing a key that occurred at most once, the key is gone.
pub proof fn lemma_lookup_remove_same<V>(s: Seq<(Seq<char>, V)>, key: Seq<char>)
    requires
        distinct_keys(s),
    ensures
        assoc_lookup(remove_key(s, key), key) is None,
    decreases s.len(),
{
    if s.len() > 0 {
        if s[0].0 == key {
            lemma_lookup_none_iff_absent(s.drop_first(), key);
            assert forall|i: int| 0 <= i < s.drop_first().len() implies (
            #[trigger] s.drop_first()[i]).0 != key by {
                assert(s.drop_first()[i] == s[i + 1]);
            }
        } else {
            assert forall|i: int, j: int| 0 <= i < j < s.drop_first().len() implies (
            #[trigger] s.drop_first()[i]).0 != (#[trigger] s.drop_first()[j]).0 by {
                assert(s.drop_first()[i] == s[i + 1]);
                assert(s.drop_first()[j] == s[j + 1]);
            }
            lemma_lookup_remove_same(s.drop_first(), key);
            assert((seq![s[0]] + remove_key(s.drop_first(), key)).drop_first() =~= remove_key(
                s.drop_first(),
                key,
            ));
        }
    }
}

/// Removing one entry of a sorted sequence keeps it sorted.
pub proof fn lemma_remove_at_sorted<V>(s: Seq<(Seq<char>, V)>, idx: int)
    requires
        sorted_keys(s),
        0 <= idx < s.len(),
    ensures
        sorted_keys(s.remove(idx)),
{
    let t = s.remove(idx);
    assert forall|i: int, j: int| 0 <= i < j < t.len() implies lex_lt(
        (#[trigger] t[i]).0,
        (#[trigger] t[j]).0,
    ) by {
        let i0: int = if i < idx {
            i
        } else {
            i + 1
        };
        let j0: int = if j < idx {
            j
        } else {
            j + 1
        };
        assert(t[i] == s[i0]);
        assert(t[j] == s[j0]);
        assert(lex_lt(s[i0].0, s[j0].0));
    }
}

/// Replacing a value leaves the key sequence unchanged.
pub proof fn lemma_set_key_keys<V>(s: Seq<(Seq<char>, V)>, key: Seq<char>, v: V)
    ensures
        set_key(s, key, v).len() == s.len(),
        forall|i: int| 0 <= i < s.len() ==> (#[trigger] set_key(s, key, v)[i]).0 == s[i].0,
    decreases s.len(),
{
    if s.len() > 0 {
        if s[0].0 == key {
            let t = seq![(key, v)] + s.drop_first();
            assert forall|i: int| 0 <= i < s.len() implies (#[trigger] t[i]).0 == s[i].0 by {
                if i > 0 {
                    assert(t[i] == s.drop_first()[i - 1]);
                }
            }
        } else {
            lemma_set_key_keys(s.drop_first(), key, v);
            let t = seq![s[0]] + set_key(s.drop_first(), key, v);
            assert forall|i: int| 0 <= i < s.len() implies (#[trigger] t[i]).0 == s[i].0 by {
                if i > 0 {
                    assert(t[i] == set_key(s.drop_first(), key, v)[i - 1]);
                    assert(s.drop_first()[i - 1] == s[i]);
                }
            }
        }
    }
}

/// Replacing a value changes the lookup of that key alone.
pub proof fn lemma_lookup_set_key<V>(
    s: Seq<(Seq<char>, V)>,
    key: Seq<char>,
    v: V,
    other: Seq<char>,
)
    ensures
        assoc_lookup(s, key) is Some ==> assoc_lookup(set_key(s, key, v), key) == Some(v),
        other != key ==> assoc_lookup(set_key(s, key, v), other) == assoc_lookup(s, other),
    decreases s.len(),
{
    if s.len() > 0 {
        if s[0].0 == key {
            let t = seq![(key, v)] + s.drop_first();
            assert(t.drop_first() =~= s.drop_first());
        } else {
            lemma_lookup_set_key(s.drop_first(), key, v, other);
            let t = seq![s[0]] + set_key(s.drop_first(), key, v);
            assert(t.drop_first() =~= set_key(s.drop_first(), key, v));
        }
    }
}

/// Inserting at the position the scan found realizes `sorted_insert`.
pub proof fn lemma_sorted_insert_at_index<V>(s: Seq<(Seq<char>, V)>, e: (Seq<char>, V), idx: int)
    requires
        0 <= idx <= s.len(),
        forall|k: int| 0 <= k < idx ==> !lex_lt(e.0, (#[trigger] s[k]).0),
        idx < s.len() ==> lex_lt(e.0, s[idx].0),
    ensures
        sorted_insert(s, e) == s.insert(idx, e),
    decreases s.len(),
{
    if s.len() == 0 {
        assert(sorted_insert(s, e) =~= s.insert(0, e));
    } else if lex_lt(e.0, s[0].0) {
        assert(idx == 0);
        assert(seq![e] + s =~= s.insert(0, e));
    } else {
        assert(idx > 0);
        assert forall|k: int| 0 <= k < idx - 1 implies !lex_lt(e.0, (#[trigger] s.drop_first()[k]).0) by {
            assert(s.drop_first()[k] == s[k + 1]);
        }
        if idx < s.len() {
            assert(s.drop_first()[idx - 1] == s[idx]);
        }
        lemma_sorted_insert_at_index(s.drop_first(), e, idx - 1);
        assert(seq![s[0]] + s.drop_first().insert(idx - 1, e) =~= s.insert(idx, e));
    }
}

/// Removing at the position of the first occurrence realizes `remove_key`.
pub proof fn lemma_remove_key_at_index<V>(s: Seq<(Seq<char>, V)>, key: Seq<char>, idx: int)
    requires
        0 <= idx < s.len(),
        s[idx].0 == key,
        forall|k: int| 0 <= k < idx ==> (#[trigger] s[k]).0 != key,
    ensures
        remove_key(s, key) == s.remove(idx),
    decreases idx,
{
    if idx == 0 {
        assert(s.drop_first() =~= s.remove(0));
    } else {
        assert forall|k: int| 0 <= k < idx - 1 implies (#[trigger] s.drop_first()[k]).0 != key by {
            assert(s.drop_first()[k] == s[k + 1]);
        }
        assert(s.drop_first()[idx - 1] == s[idx]);
        lemma_remove_key_at_index(s.drop_first(), key, idx - 1);
        assert(seq![s[0]] + s.drop_first().remove(idx - 1) =~= s.remove(idx));
    }
}

/// Updating at the position of the first occurrence realizes `set_key`.
pub proof fn lemma_set_key_at_index<V>(s: Seq<(Seq<char>, V)>, key: Seq<char>, v: V, idx: int)
    requires
        0 <= idx < s.len(),
        s[idx].0 == key,
        forall|k: int| 0 <= k < idx ==> (#[trigger] s[k]).0 != key,
    ensures
        set_key(s, key, v) == s.update(idx, (key, v)),
    decreases idx,
{
    if idx == 0 {
        assert(seq![(key, v)] + s.drop_first() =~= s.update(0, (key, v)));
    } else {
        assert forall|k: int| 0 <= k < idx - 1 implies (#[trigger] s.drop_first()[k]).0 != key by {
            assert(s.drop_first()[k] == s[k + 1]);
        }
        assert(s.drop_first()[idx - 1] == s[idx]);
        lemma_set_key_at_index(s.drop_first(), key, v, idx - 1);
        assert(seq![s[0]] + s.drop_first().update(idx - 1, (key, v)) =~= s.update(idx, (key, v)));
    }
}

/// One stored project: its unique name and its record.
pub struct Project {
    pub name: String,
    pub settings: ProjectSettings,
}

impl View for Project {
    type V = (Seq<char>, ProjectSettingsView);

    open spec fn view(&self) -> (Seq<char>, ProjectSettingsView) {
        (self.name@, self.settings@)
    }
}

/// The mathematical value of a settings document: both key spaces as
/// association sequences.
#[verifier::ext_equal]
pub struct SettingsDocumentView {
    pub secrets: Seq<(Seq<char>, Seq<char>)>,
    pub projects: Seq<(Seq<char>, ProjectSettingsView)>,
}

/// The in-memory settings document: named scalar secrets and the projects
/// map, the latter kept sorted by project name.
///
/// The document itself carries no I/O.  A caller that persists it must reload
/// the stored document before calling a mutating operation here and save the
/// result afterwards; interleaved writers fall back to last-write-wins.
pub struct SettingsDocument {
    pub secrets: Vec<(String, String)>,
    pub projects: Vec<Project>,
}

impl View for SettingsDocument {
    type V = SettingsDocumentView;

    open spec fn view(&self) -> SettingsDocumentView {
        SettingsDocumentView {
            secrets: self.secrets@.map_values(|e: (String, String)| (e.0@, e.1@)),
            projects: self.projects@.map_values(|p: Project| p@),
        }
    }
}

/// Outcome of creating a project: the name must be non-blank and free.
pub open spec fn create_project_spec(d: SettingsDocumentView, name: Seq<char>) -> Result<
    SettingsDocumentView,
    RegistryError,
> {
    if is_blank_spec(name) {
        Err(RegistryError::InvalidName)
    } else if assoc_lookup(d.projects, name) is Some {
        Err(RegistryError::AlreadyExists)
    } else {
        Ok(
            SettingsDocumentView {
                secrets: d.secrets,
                projects: sorted_insert(d.projects, (name, default_settings_view(name))),
            },
        )
    }
}

/// Outcome of replacing a project's record wholesale: the project must exist.
pub open spec fn save_project_settings_spec(
    d: SettingsDocumentView,
    name: Seq<char>,
    settings: ProjectSettingsView,
) -> Result<SettingsDocumentView, RegistryError> {
    if assoc_lookup(d.projects, name) is None {
        Err(RegistryError::NotFound)
    } else {
        Ok(
            SettingsDocumentView {
                secrets: d.secrets,
                projects: set_key(d.projects, name, settings),
            },
        )
    }
}

/// Outcome of deleting a project: the project must exist.
pub open spec fn delete_project_spec(d: SettingsDocumentView, name: Seq<char>) -> Result<
    SettingsDocumentView,
    RegistryError,
> {
    if assoc_lookup(d.projects, name) is None {
        Err(RegistryError::NotFound)
    } else {
        Ok(
            SettingsDocumentView {
                secrets: d.secrets,
                projects: remove_key(d.projects, name),
            },
        )
    }
}

/// Outcome of storing a named secret: replace it if present, append it
/// otherwise.
pub open spec fn set_secret_spec(
    d: SettingsDocumentView,
    key: Seq<char>,
    value: Seq<char>,
) -> SettingsDocumentView {
    SettingsDocumentView {
        secrets: if assoc_lookup(d.secrets, key) is None {
            d.secrets.push((key, value))
        } else {
            set_key(d.secrets, key, value)
        },
        projects: d.projects,
    }
}

impl SettingsDocument {
    /// Well-formedness: secret keys are distinct and project names are
    /// strictly sorted (hence unique).
    pub open spec fn wf(&self) -> bool {
        distinct_keys(self@.secrets) && sorted_keys(self@.projects)
    }

    /// The empty document a missing settings file is initialized with.
    pub fn new() -> (d: SettingsDocument)
        ensures
            d.wf(),
            d@.secrets == Seq::<(Seq<char>, Seq<char>)>::empty(),
            d@.projects == Seq::<(Seq<char>, ProjectSettingsView)>::empty(),
    {
        let d = SettingsDocument { secrets: Vec::new(), projects: Vec::new() };
        proof {
            assert(d@.secrets =~= Seq::<(Seq<char>, Seq<char>)>::empty());
            assert(d@.projects =~= Seq::<(Seq<char>, ProjectSettingsView)>::empty());
        }
        d
    }

    /// Index of the project named `name`, scanning from the front.
    fn find_project_index(&self, name: &str) -> (r: Option<usize>)
        ensures
            match r {
                Some(i) => i < self@.projects.len() && self@.projects[i as int].0 == name@
                    && forall|k: int| 0 <= k < i ==> (#[trigger] self@.projects[k]).0 != name@,
                None => forall|k: int|
                    0 <= k < self@.projects.len() ==> (#[trigger] self@.projects[k]).0 != name@,
            },
    {
        let n = self.projects.len();
        let mut i: usize = 0;
        while i < n
            invariant
                n == self.projects.len(),
                i <= n,
                forall|k: int| 0 <= k < i ==> (#[trigger] self@.projects[k]).0 != name@,
            decreases n - i,
        {
            if str_eq(self.projects[i].name.as_str(), name) {
                return Some(i);
            }
            i = i + 1;
        }
        None
    }

    /// Index of the secret named `key`, scanning from the front.
    fn find_secret_index(&self, key: &str) -> (r: Option<usize>)
        ensures
            match r {
                Some(i) => i < self@.secrets.len() && self@.secrets[i as int].0 == key@
                    && forall|k: int| 0 <= k < i ==> (#[trigger] self@.secrets[k]).0 != key@,
                None => forall|k: int|
                    0 <= k < self@.secrets.len() ==> (#[trigger] self@.secrets[k]).0 != key@,
            },
    {
        let n = self.secrets.len();
        let mut i: usize = 0;
        while i < n
            invariant
                n == self.secrets.len(),
                i <= n,
                forall|k: int| 0 <= k < i ==> (#[trigger] self@.secrets[k]).0 != key@,
            decreases n - i,
        {
            if str_eq(self.secrets[i].0.as_str(), key) {
                return Some(i);
            }
            i = i + 1;
        }
        None
    }

    /// Stores a named secret, replacing any previous value under that key.
    pub fn set_secret(&mut self, key: &str, value: String)
        requires
            old(self).wf(),
        ensures
            final(self).wf(),
            final(self)@ == set_secret_spec(old(self)@, key@, value@),
    {
        let ghost old_secrets = self@.secrets;
        match self.find_secret_index(key) {
            Some(i) => {
                proof {
                    lemma_lookup_first(old_secrets, key@, i as int);
                    lemma_set_key_at_index(old_secrets, key@, value@, i as int);
                }
                self.secrets.set(i, (key.to_owned(), value));
                proof {
                    assert(self@.secrets =~= old_secrets.update(i as int, (key@, value@)));
                    lemma_set_key_keys(old_secrets, key@, value@);
                    assert(distinct_keys(self@.secrets));
                    assert(self@ =~= set_secret_spec(old(self)@, key@, value@));
                }
            },
            None => {
                proof {
                    lemma_lookup_none_iff_absent(old_secrets, key@);
                }
                self.secrets.push((key.to_owned(), value));
                proof {
                    assert(self@.secrets =~= old_secrets.push((key@, value@)));
                    assert forall|i: int, j: int| 0 <= i < j < self@.secrets.len() implies (
                    #[trigger] self@.secrets[i]).0 != (#[trigger] self@.secrets[j]).0 by {
                        if j < old_secrets.len() {
                        } else {
                            assert(self@.secrets[i] == old_secrets[i]);
                        }
                    }
                    assert(self@ =~= set_secret_spec(old(self)@, key@, value@));
                }
            },
        }
    }

    /// Reads a named secret from the current in-memory snapshot.
    pub fn get_secret(&self, key: &str) -> (r: Option<String>)
        ensures
            match r {
                Some(v) => assoc_lookup(self@.secrets, key@) == Some(v@),
                None => assoc_lookup(self@.secrets, key@) is None,
            },
    {
        match self.find_secret_index(key) {
            Some(i) => {
                proof {
                    lemma_lookup_first(self@.secrets, key@, i as int);
                }
                Some(self.secrets[i].1.clone())
            },
            None => {
                proof {
                    lemma_lookup_none_iff_absent(self@.secrets, key@);
                }
                None
            },
        }
    }

    /// Creates a project under a fresh, non-blank name, with the default
    /// record.
    pub fn create_project(&mut self, name: &str) -> (r: Result<(), RegistryError>)
        requires
            old(self).wf(),
        ensures
            final(self).wf(),
            create_project_spec(old(self)@, name@) matches Ok(d2) ==> r == Ok::<
                (),
                RegistryError,
            >(()) && final(self)@ == d2,
            create_project_spec(old(self)@, name@) matches Err(e) ==> r == Err::<
                (),
                RegistryError,
            >(e) && final(self)@ == old(self)@,
    {
        if is_blank(name) {
            return Err(RegistryError::InvalidName);
        }
        let ghost old_projects = self@.projects;
        match self.find_project_index(name) {
            Some(i) => {
                proof {
                    lemma_lookup_first(old_projects, name@, i as int);
                }
                Err(RegistryError::AlreadyExists)
            },
            None => {
                proof {
                    lemma_lookup_none_iff_absent(old_projects, name@);
                }
                let n = self.projects.len();
                let mut idx: usize = 0;
                while idx < n && str_lex_lt(self.projects[idx].name.as_str(), name)
                    invariant
                        n == self.projects.len(),
                        self@.projects == old_projects,
                        idx <= n,
                        forall|k: int|
                            0 <= k < idx ==> lex_lt((#[trigger] self@.projects[k]).0, name@),
                    decreases n - idx,
                {
                    idx = idx + 1;
                }
                proof {
                    assert forall|k: int| 0 <= k < idx implies !lex_lt(
                        name@,
                        (#[trigger] old_projects[k]).0,
                    ) by {
                        if lex_lt(name@, old_projects[k].0) {
                            lemma_lex_lt_trans(name@, old_projects[k].0, name@);
                            lemma_lex_lt_irrefl(name@);
                        }
                    }
                    if idx < n {
                        lemma_lex_lt_total(name@, old_projects[idx as int].0);
                    }
                    lemma_sorted_insert_at_index(
                        old_projects,
                        (name@, default_settings_view(name@)),
                        idx as int,
                    );
                    lemma_sorted_insert_sorted(
                        old_projects,
                        (name@, default_settings_view(name@)),
                    );
                }
                let entry = Project {
                    name: name.to_owned(),
                    settings: default_project_settings(name),
                };
                self.projects.insert(idx, entry);
                proof {
                    assert(self@.projects =~= old_projects.insert(
                        idx as int,
                        (name@, default_settings_view(name@)),
                    ));
                    assert(self@ =~= (match create_project_spec(old(self)@, name@) {
                        Ok(d2) => d2,
                        Err(_) => old(self)@,
                    }));
                }
                Ok(())
            },
        }
    }

    /// All project names, in their stored (sorted) order.
    pub fn list_projects(&self) -> (r: Vec<String>)
        ensures
            r@.len() == self@.projects.len(),
            forall|i: int| 0 <= i < r@.len() ==> (#[trigger] r@[i])@ == self@.projects[i].0,
            self.wf() ==> forall|i: int, j: int|
                0 <= i < j < r@.len() ==> lex_lt((#[trigger] r@[i])@, (#[trigger] r@[j])@),
    {
        let n = self.projects.len();
        let mut out: Vec<String> = Vec::new();
        let mut i: usize = 0;
        while i < n
            invariant
                n == self.projects.len(),
                i <= n,
                out@.len() == i,
                forall|k: int| 0 <= k < i ==> (#[trigger] out@[k])@ == self@.projects[k].0,
            decreases n - i,
        {
            out.push(self.projects[i].name.clone());
            i = i + 1;
        }
        out
    }

    /// Reads a project's record; absence is not an error.
    pub fn get_project_settings(&self, name: &str) -> (r: Option<ProjectSettings>)
        ensures
            match r {
                Some(s) => assoc_lookup(self@.projects, name@) == Some(s@),
                None => assoc_lookup(self@.projects, name@) is None,
            },
    {
        match self.find_project_index(name) {
            Some(i) => {
                proof {
                    lemma_lookup_first(self@.projects, name@, i as int);
                }
                Some(self.projects[i].settings.clone())
            },
            None => {
                proof {
                    lemma_lookup_none_iff_absent(self@.projects, name@);
                }
                None
            },
        }
    }

    /// Replaces an existing project's record wholesale.
    pub fn save_project_settings(&mut self, name: &str, settings: ProjectSettings) -> (r: Result<
        (),
        RegistryError,
    >)
        requires
            old(self).wf(),
        ensures
            final(self).wf(),
            save_project_settings_spec(old(self)@, name@, settings@) matches Ok(d2) ==> r == Ok::<
                (),
                RegistryError,
            >(()) && final(self)@ == d2,
            save_project_settings_spec(old(self)@, name@, settings@) matches Err(e) ==> r == Err::<
                (),
                RegistryError,
            >(e) && final(self)@ == old(self)@,
    {
        let ghost old_projects = self@.projects;
        let ghost sv = settings@;
        match self.find_project_index(name) {
            Some(i) => {
                proof {
                    lemma_lookup_first(old_projects, name@, i as int);
                    lemma_set_key_at_index(old_projects, name@, sv, i as int);
                }
                self.projects.set(i, Project { name: name.to_owned(), settings });
                proof {
                    assert(self@.projects =~= old_projects.update(i as int, (name@, sv)));
                    lemma_set_key_keys(old_projects, name@, sv);
                    assert forall|a: int, b: int| 0 <= a < b < self@.projects.len() implies lex_lt(
                        (#[trigger] self@.projects[a]).0,
                        (#[trigger] self@.projects[b]).0,
                    ) by {
                        assert(self@.projects[a].0 == old_projects[a].0);
                        assert(self@.projects[b].0 == old_projects[b].0);
                    }
                    assert(self@ =~= (match save_project_settings_spec(old(self)@, name@, sv) {
                        Ok(d2) => d2,
                        Err(_) => old(self)@,
                    }));
                }
                Ok(())
            },
            None => {
                proof {
                    lemma_lookup_none_iff_absent(old_projects, name@);
                }
                Err(RegistryError::NotFound)
            },
        }
    }

    /// Deletes an existing project.
    pub fn delete_project(&mut self, name: &str) -> (r: Result<(), RegistryError>)
        requires
            old(self).wf(),
        ensures
            final(self).wf(),
            delete_project_spec(old(self)@, name@) matches Ok(d2) ==> r == Ok::<
                (),
                RegistryError,
            >(()) && final(self)@ == d2,
            delete_project_spec(old(self)@, name@) matches Err(e) ==> r == Err::<
                (),
                RegistryError,
            >(e) && final(self)@ == old(self)@,
    {
        let ghost old_projects = self@.projects;
        match self.find_project_index(name) {
            Some(i) => {
                proof {
                    lemma_lookup_first(old_projects, name@, i as int);
                    lemma_remove_key_at_index(old_projects, name@, i as int);
                    lemma_remove_at_sorted(old_projects, i as int);
                }
                self.projects.remove(i);
                proof {
                    assert(self@.projects =~= old_projects.remove(i as int));
                    assert(self@ =~= (match delete_project_spec(old(self)@, name@) {
                        Ok(d2) => d2,
                        Err(_) => old(self)@,
                    }));
                }
                Ok(())
            },
            None => {
                proof {
                    lemma_lookup_none_iff_absent(old_projects, name@);
                }
                Err(RegistryError::NotFound)
            },
        }
    }
}

/// Outcome of loading one stored project record into a document: replace the
/// record under its name if present, insert it in order otherwise.
pub open spec fn upsert_project_spec(
    d: SettingsDocumentView,
    name: Seq<char>,
    settings: ProjectSettingsView,
) -> SettingsDocumentView {
    SettingsDocumentView {
        secrets: d.secrets,
        projects: if assoc_lookup(d.projects, name) is None {
            sorted_insert(d.projects, (name, settings))
        } else {
            set_key(d.projects, name, settings)
        },
    }
}

impl SettingsDocument {
    /// Stores a project record under its name whether or not the name exists
    /// yet: the path a loaded document's records come in through.
    pub fn upsert_project(&mut self, name: &str, settings: ProjectSettings)
        requires
            old(self).wf(),
        ensures
            final(self).wf(),
            final(self)@ == upsert_project_spec(old(self)@, name@, settings@),
    {
        let ghost old_projects = self@.projects;
        let ghost sv = settings@;
        match self.find_project_index(name) {
            Some(i) => {
                proof {
                    lemma_lookup_first(old_projects, name@, i as int);
                    lemma_set_key_at_index(old_projects, name@, sv, i as int);
                }
                self.projects.set(i, Project { name: name.to_owned(), settings });
                proof {
                    assert(self@.projects =~= old_projects.update(i as int, (name@, sv)));
                    lemma_set_key_keys(old_projects, name@, sv);
                    assert forall|a: int, b: int| 0 <= a < b < self@.projects.len() implies lex_lt(
                        (#[trigger] self@.projects[a]).0,
                        (#[trigger] self@.projects[b]).0,
                    ) by {
                        assert(self@.projects[a].0 == old_projects[a].0);
                        assert(self@.projects[b].0 == old_projects[b].0);
                    }
                    assert(self@ =~= upsert_project_spec(old(self)@, name@, sv));
                }
            },
            None => {
                proof {
                    lemma_lookup_none_iff_absent(old_projects, name@);
                }
                let n = self.projects.len();
                let mut idx: usize = 0;
                while idx < n && str_lex_lt(self.projects[idx].name.as_str(), name)
                    invariant
                        n == self.projects.len(),
                        self@.projects == old_projects,
                        idx <= n,
                        forall|k: int|
                            0 <= k < idx ==> lex_lt((#[trigger] self@.projects[k]).0, name@),
                    decreases n - idx,
                {
                    idx = idx + 1;
                }
                proof {
                    assert forall|k: int| 0 <= k < idx implies !lex_lt(
                        name@,
                        (#[trigger] old_projects[k]).0,
                    ) by {
                        if lex_lt(name@, old_projects[k].0) {
                            lemma_lex_lt_trans(name@, old_projects[k].0, name@);
                            lemma_lex_lt_irrefl(name@);
                        }
                    }
                    if idx < n {
                        lemma_lex_lt_total(name@, old_projects[idx as int].0);
                    }
                    lemma_sorted_insert_at_index(old_projects, (name@, sv), idx as int);
                    lemma_sorted_insert_sorted(old_projects, (name@, sv));
                }
                self.projects.insert(idx, Project { name: name.to_owned(), settings });
                proof {
                    assert(self@.projects =~= old_projects.insert(idx as int, (name@, sv)));
                    assert(self@ =~= upsert_project_spec(old(self)@, name@, sv));
                }
            },
        }
    }
}

/// Law: creating a project and then looking it up yields exactly the default
/// record, every other name's lookup is untouched, and creating a name that
/// is already stored — in particular, creating the same name twice — fails
/// with `AlreadyExists`.
pub proof fn law_create_then_get(d: SettingsDocumentView, name: Seq<char>)
    ensures
        !is_blank_spec(name) && assoc_lookup(d.projects, name) is Some ==> create_project_spec(
            d,
            name,
        ) == Err::<SettingsDocumentView, RegistryError>(RegistryError::AlreadyExists),
        create_project_spec(d, name) matches Ok(d2) ==> assoc_lookup(d2.projects, name) == Some(
            default_settings_view(name),
        ),
        create_project_spec(d, name) matches Ok(d2) ==> forall|other: Seq<char>|
            other != name ==> assoc_lookup(d2.projects, other) == assoc_lookup(d.projects, other),
        create_project_spec(d, name) matches Ok(d2) ==> create_project_spec(d2, name) == Err::<
            SettingsDocumentView,
            RegistryError,
        >(RegistryError::AlreadyExists),
{
    if create_project_spec(d, name) is Ok {
        let e = (name, default_settings_view(name));
        lemma_lookup_sorted_insert_same(d.projects, e);
        assert forall|other: Seq<char>| other != name implies assoc_lookup(
            sorted_insert(d.projects, e),
            other,
        ) == assoc_lookup(d.projects, other) by {
            lemma_lookup_sorted_insert_other(d.projects, e, other);
        }
    }
}

/// Law: replacing a missing project's record fails with `NotFound`; a
/// successful replacement stores exactly the new record and leaves every
/// other name's lookup untouched.
pub proof fn law_save_replaces_whole_record(
    d: SettingsDocumentView,
    name: Seq<char>,
    settings: ProjectSettingsView,
)
    ensures
        assoc_lookup(d.projects, name) is None ==> save_project_settings_spec(d, name, settings)
            == Err::<SettingsDocumentView, RegistryError>(RegistryError::NotFound),
        save_project_settings_spec(d, name, settings) matches Ok(d2) ==> assoc_lookup(
            d2.projects,
            name,
        ) == Some(settings),
        save_project_settings_spec(d, name, settings) matches Ok(d2) ==> forall|other: Seq<char>|
            other != name ==> assoc_lookup(d2.projects, other) == assoc_lookup(d.projects, other),
{
    if save_project_settings_spec(d, name, settings) is Ok {
        lemma_lookup_set_key(d.projects, name, settings, name);
        assert forall|other: Seq<char>| other != name implies assoc_lookup(
            set_key(d.projects, name, settings),
            other,
        ) == assoc_lookup(d.projects, other) by {
            lemma_lookup_set_key(d.projects, name, settings, other);
        }
    }
}

/// Law: deleting a missing project fails with `NotFound`, and after a
/// successful deletion the name is gone: its lookup misses and no listed
/// project carries it.
pub proof fn law_delete_then_absent(d: SettingsDocumentView, name: Seq<char>)
    requires
        sorted_keys(d.projects),
    ensures
        assoc_lookup(d.projects, name) is None ==> delete_project_spec(d, name) == Err::<
            SettingsDocumentView,
            RegistryError,
        >(RegistryError::NotFound),
        delete_project_spec(d, name) matches Ok(d2) ==> assoc_lookup(d2.projects, name) is None
            && forall|i: int| 0 <= i < d2.projects.len() ==> (#[trigger] d2.projects[i]).0 != name,
        delete_project_spec(d, name) matches Ok(d2) ==> forall|other: Seq<char>|
            other != name ==> assoc_lookup(d2.projects, other) == assoc_lookup(d.projects, other),
{
    if delete_project_spec(d, name) is Ok {
        lemma_sorted_distinct(d.projects);
        lemma_lookup_remove_same(d.projects, name);
        lemma_lookup_none_iff_absent(remove_key(d.projects, name), name);
        assert forall|other: Seq<char>| other != name implies assoc_lookup(
            remove_key(d.projects, name),
            other,
        ) == assoc_lookup(d.projects, other) by {
            lemma_lookup_remove_other(d.projects, name, other);
        }
    }
}

/// Law: the listed names of a well-formed document are strictly sorted, so
/// the listing order never depends on the order of insertions.
pub proof fn law_list_sorted(d: SettingsDocumentView)
    requires
        sorted_keys(d.projects),
    ensures
        forall|i: int, j: int|
            0 <= i < j < d.projects.len() ==> lex_lt(
                (#[trigger] d.projects[i]).0,
                (#[trigger] d.projects[j]).0,
            ),
{
}

/// Law: reading a project's record is a pure function of the document, so two
/// reads with no mutation between them return the same value.
pub proof fn law_get_idempotent(
    d: SettingsDocumentView,
    name: Seq<char>,
    r1: Option<ProjectSettingsView>,
    r2: Option<ProjectSettingsView>,
)
    requires
        r1 == assoc_lookup(d.projects, name),
        r2 == assoc_lookup(d.projects, name),
    ensures
        r1 == r2,
{
}

} // verus!
