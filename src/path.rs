//! Paths held as a list of components, with the file-name rules of the
//! launcher's catalog (stem, extension, replacing an extension).

use vstd::prelude::*;

verus! {

/// A filesystem path: whether it starts at the root, and its components in order.
#[derive(Debug, Clone, PartialEq, Eq)]
pub struct GamePath {
    pub absolute: bool,
    pub parts: Vec<String>,
}

/// The mathematical value of a [`GamePath`].
pub struct PathModel {
    pub absolute: bool,
    pub parts: Seq<Seq<char>>,
}

/// The character sequences held by a list of strings.
pub open spec fn views(v: Seq<String>) -> Seq<Seq<char>> {
    v.map_values(|s: String| s@)
}

impl View for GamePath {
    type V = PathModel;

    open spec fn view(&self) -> PathModel {
        PathModel { absolute: self.absolute, parts: views(self.parts@) }
    }
}

/// The character sequence held by an optional string.
pub open spec fn opt_view(o: Option<String>) -> Option<Seq<char>> {
    match o {
        Some(s) => Some(s@),
        None => None,
    }
}

/// Index of the last `.` in `s`, or -1 when there is none.
pub open spec fn last_dot(s: Seq<char>) -> int
    decreases s.len(),
{
    if s.len() == 0 {
        -1
    } else if s.last() == '.' {
        s.len() - 1
    } else {
        last_dot(s.drop_last())
    }
}

pub open spec fn dot_dot() -> Seq<char> {
    seq!['.', '.']
}

/// The name without its extension. A name whose only dot leads it (a hidden
/// file) and the name `..` have no extension.
pub open spec fn stem_of(name: Seq<char>) -> Seq<char> {
    let k = last_dot(name);
    if k <= 0 || name == dot_dot() {
        name
    } else {
        name.subrange(0, k)
    }
}

/// What follows the last dot of the name, when it has an extension.
pub open spec fn extension_of(name: Seq<char>) -> Option<Seq<char>> {
    let k = last_dot(name);
    if k <= 0 || name == dot_dot() {
        None
    } else {
        Some(name.subrange(k + 1, name.len() as int))
    }
}

/// The name with its extension replaced by (or extended with) `ext`.
pub open spec fn with_extension(name: Seq<char>, ext: Seq<char>) -> Seq<char> {
    stem_of(name) + seq!['.'] + ext
}

/// The last component of a path, if it has one.
pub open spec fn file_name_of(p: PathModel) -> Option<Seq<char>> {
    if p.parts.len() == 0 {
        None
    } else {
        Some(p.parts.last())
    }
}

/// The path made of the first `k` components of `p`.
pub open spec fn prefix_of(p: PathModel, k: int) -> PathModel {
    PathModel { absolute: p.absolute, parts: p.parts.subrange(0, k) }
}

proof fn lemma_last_dot_range(s: Seq<char>)
    ensures
        -1 <= last_dot(s) < s.len(),
        last_dot(s) >= 0 ==> s[last_dot(s)] == '.',
    decreases s.len(),
{
    if s.len() > 0 && s.last() != '.' {
        lemma_last_dot_range(s.drop_last());
    }
}

proof fn lemma_last_dot(s: Seq<char>, k: int)
    requires
        -1 <= k < s.len(),
        k >= 0 ==> s[k] == '.',
        forall|j: int| k < j < s.len() ==> s[j] != '.',
    ensures
        last_dot(s) == k,
    decreases s.len(),
{
    if s.len() > 0 && s.last() != '.' {
        assert(k != s.len() - 1);
        assert forall|j: int| k < j < s.drop_last().len() implies s.drop_last()[j] != '.' by {
            assert(s.drop_last()[j] == s[j]);
        }
        if k >= 0 {
            assert(s.drop_last()[k] == s[k]);
        }
        lemma_last_dot(s.drop_last(), k);
    }
}

/// Position of the last `.` of `s`.
pub fn last_dot_index(s: &str) -> (r: Option<usize>)
    ensures
        match r {
            Some(k) => last_dot(s@) == k as int,
            None => last_dot(s@) == -1,
        },
{
    let n = s.unicode_len();
    let mut i: usize = n;
    while i > 0
        invariant
            i <= n,
            n == s@.len(),
            forall|j: int| i <= j < n ==> s@[j] != '.',
        decreases i,
    {
        if s.get_char(i - 1) == '.' {
            proof {
                lemma_last_dot(s@, i - 1);
            }
            return Some(i - 1);
        }
        i = i - 1;
    }
    proof {
        lemma_last_dot(s@, -1);
    }
    None
}

fn is_dot_dot(s: &str) -> (r: bool)
    ensures
        r == (s@ == dot_dot()),
{
    if s.unicode_len() == 2 {
        let a = s.get_char(0);
        let b = s.get_char(1);
        if a == '.' && b == '.' {
            assert(s@ =~= dot_dot());
            true
        } else {
            false
        }
    } else {
        false
    }
}

/// The name without its extension.
pub fn name_stem(name: &str) -> (r: String)
    ensures
        r@ == stem_of(name@),
{
    let dd = is_dot_dot(name);
    proof {
        lemma_last_dot_range(name@);
    }
    match last_dot_index(name) {
        Some(k) if k > 0 && !dd => name.substring_char(0, k).to_string(),
        _ => name.to_string(),
    }
}

/// The extension of a name, if it has one.
pub fn name_extension(name: &str) -> (r: Option<String>)
    ensures
        opt_view(r) == extension_of(name@),
{
    let dd = is_dot_dot(name);
    proof {
        lemma_last_dot_range(name@);
    }
    match last_dot_index(name) {
        Some(k) if k > 0 && !dd => {
            let n = name.unicode_len();
            Some(name.substring_char(k + 1, n).to_string())
        },
        _ => None,
    }
}

/// Whether the two texts hold the same characters.
pub fn same_text(a: &str, b: &str) -> (r: bool)
    ensures
        r == (a@ == b@),
{
    let n = a.unicode_len();
    if n != b.unicode_len() {
        return false;
    }
    let mut i: usize = 0;
    while i < n
        invariant
            i <= n == a@.len() == b@.len(),
            forall|j: int| 0 <= j < i ==> a@[j] == b@[j],
        decreases n - i,
    {
        if a.get_char(i) != b.get_char(i) {
            return false;
        }
        i = i + 1;
    }
    assert(a@ =~= b@);
    true
}

/// The name with its extension set to `ext`.
pub fn name_with_extension(name: &str, ext: &str) -> (r: String)
    ensures
        r@ == with_extension(name@, ext@),
{
    let mut r = name_stem(name);
    r.append(".");
    proof {
        reveal_strlit(".");
    }
    r.append(ext);
    r
}

/// The path `p` with one more component `name` at its end.
pub open spec fn child_of(p: PathModel, name: Seq<char>) -> PathModel {
    PathModel { absolute: p.absolute, parts: p.parts.push(name) }
}

/// The path `base` extended by the components of `p` from index `k` on.
pub open spec fn rebase(base: PathModel, p: PathModel, k: int) -> PathModel {
    PathModel { absolute: base.absolute, parts: base.parts + p.parts.subrange(k, p.parts.len() as int) }
}

/// The path `p` with the extension of its last component set to `ext`.
pub open spec fn set_extension_of(p: PathModel, ext: Seq<char>) -> PathModel {
    if p.parts.len() == 0 {
        p
    } else {
        PathModel {
            absolute: p.absolute,
            parts: p.parts.update(p.parts.len() - 1, with_extension(p.parts.last(), ext)),
        }
    }
}

impl GamePath {
    /// A path from its components.
    pub fn new(absolute: bool, parts: Vec<String>) -> (r: GamePath)
        ensures
            r.absolute == absolute,
            r.parts@ == parts@,
    {
        GamePath { absolute, parts }
    }

    /// The last component, if there is one.
    pub fn file_name(&self) -> (r: Option<String>)
        ensures
            opt_view(r) == file_name_of(self@),
    {
        let n = self.parts.len();
        if n == 0 {
            None
        } else {
            Some(self.parts[n - 1].clone())
        }
    }

    /// The last component without its extension.
    pub fn file_stem(&self) -> (r: Option<String>)
        ensures
            match file_name_of(self@) {
                Some(name) => opt_view(r) == Some(stem_of(name)),
                None => r is None,
            },
    {
        let n = self.parts.len();
        if n == 0 {
            None
        } else {
            Some(name_stem(self.parts[n - 1].as_str()))
        }
    }

    /// The extension of the last component.
    pub fn extension(&self) -> (r: Option<String>)
        ensures
            match file_name_of(self@) {
                Some(name) => opt_view(r) == extension_of(name),
                None => r is None,
            },
    {
        let n = self.parts.len();
        if n == 0 {
            None
        } else {
            name_extension(self.parts[n - 1].as_str())
        }
    }

    /// The path made of the first `k` components.
    pub fn prefix(&self, k: usize) -> (r: GamePath)
        requires
            k <= self.parts.len(),
        ensures
            r@ == prefix_of(self@, k as int),
    {
        let mut parts: Vec<String> = Vec::new();
        let mut i: usize = 0;
        while i < k
            invariant
                i <= k <= self.parts.len(),
                views(parts@) =~= views(self.parts@).subrange(0, i as int),
            decreases k - i,
        {
            let c = self.parts[i].clone();
            proof {
                assert(views(parts@.push(c)) =~= views(parts@).push(c@));
            }
            parts.push(c);
            i = i + 1;
        }
        GamePath { absolute: self.absolute, parts }
    }

    /// A copy of the path.
    pub fn duplicate(&self) -> (r: GamePath)
        ensures
            r@ == self@,
    {
        let r = self.prefix(self.parts.len());
        assert(r@.parts =~= self@.parts);
        r
    }

    /// Adds `name` as a last component.
    pub fn push(&mut self, name: String)
        ensures
            final(self)@ == child_of(old(self)@, name@),
    {
        proof {
            assert(views(self.parts@.push(name)) =~= views(self.parts@).push(name@));
        }
        self.parts.push(name);
    }

    /// Adds the components of `p` from index `k` on.
    pub fn extend_from(&mut self, p: &GamePath, k: usize)
        requires
            k <= p.parts.len(),
        ensures
            final(self)@ == rebase(old(self)@, p@, k as int),
    {
        let mut i: usize = k;
        while i < p.parts.len()
            invariant
                k <= i <= p.parts.len(),
                self.absolute == old(self).absolute,
                views(self.parts@) =~= views(old(self).parts@) + views(p.parts@).subrange(k as int, i as int),
            decreases p.parts.len() - i,
        {
            let c = p.parts[i].clone();
            proof {
                assert(views(self.parts@.push(c)) =~= views(self.parts@).push(c@));
            }
            self.parts.push(c);
            i = i + 1;
        }
    }

    /// Sets the extension of the last component to `ext`; no change to a
    /// path without components.
    pub fn set_extension(&mut self, ext: &str)
        ensures
            final(self)@ == set_extension_of(old(self)@, ext@),
    {
        let n = self.parts.len();
        if n > 0 {
            let name = name_with_extension(self.parts[n - 1].as_str(), ext);
            proof {
                assert(views(self.parts@.update(n - 1, name)) =~= views(self.parts@).update(n - 1, name@));
            }
            self.parts.set(n - 1, name);
        }
    }

    /// Whether the two paths are the same.
    pub fn same_as(&self, other: &GamePath) -> (r: bool)
        ensures
            r == (self@ == other@),
    {
        if self.absolute != other.absolute || self.parts.len() != other.parts.len() {
            proof {
                assert(views(self.parts@).len() != views(other.parts@).len() || self.absolute != other.absolute);
            }
            return false;
        }
        let mut i: usize = 0;
        while i < self.parts.len()
            invariant
                i <= self.parts.len() == other.parts.len(),
                forall|j: int| 0 <= j < i ==> self.parts@[j]@ == other.parts@[j]@,
            decreases self.parts.len() - i,
        {
            if self.parts[i] != other.parts[i] {
                proof {
                    assert(views(self.parts@)[i as int] != views(other.parts@)[i as int]);
                }
                return false;
            }
            i = i + 1;
        }
        assert(views(self.parts@) =~= views(other.parts@));
        true
    }
}

} // verus!
