//! Lexical model of filesystem paths.
//!
//! A path is an absolute/relative flag together with a sequence of name
//! components.  Parsing, joining and lexical cleaning (resolution of `.` and
//! `..` without touching the filesystem) are verified against spec functions
//! over this model.

use vstd::prelude::*;

use crate::text::str_eq;

verus! {

/// Spec-level model of a path: whether it is absolute, and its components.
pub ghost struct PathView {
    pub absolute: bool,
    pub comps: Seq<Seq<char>>,
}

/// A component never holds a path separator.
pub open spec fn no_slash(s: Seq<char>) -> bool {
    forall|i: int| 0 <= i < s.len() ==> s[i] != '/'
}

/// Well-formed component sequences: every component is nonempty and free of
/// separators.
pub open spec fn wf_comps(cs: Seq<Seq<char>>) -> bool {
    forall|i: int| 0 <= i < cs.len() ==> (#[trigger] cs[i]).len() > 0 && no_slash(cs[i])
}

/// One step of splitting: feed the next character into the accumulated
/// components plus the component currently being read.
pub open spec fn split_step(acc: (Seq<Seq<char>>, Seq<char>), c: char) -> (Seq<Seq<char>>, Seq<char>) {
    if c == '/' {
        if acc.1.len() > 0 {
            (acc.0.push(acc.1), Seq::empty())
        } else {
            acc
        }
    } else {
        (acc.0, acc.1.push(c))
    }
}

/// Fold of `split_step` over a string, left to right.
pub open spec fn split_fold(s: Seq<char>) -> (Seq<Seq<char>>, Seq<char>)
    decreases s.len(),
{
    if s.len() == 0 {
        (Seq::empty(), Seq::empty())
    } else {
        split_step(split_fold(s.drop_last()), s.last())
    }
}

/// The components of a path string: maximal runs of non-separator characters.
/// Empty runs (from repeated or trailing separators) yield no component.
pub open spec fn split_comps(s: Seq<char>) -> Seq<Seq<char>> {
    let f = split_fold(s);
    if f.1.len() > 0 {
        f.0.push(f.1)
    } else {
        f.0
    }
}

/// A path string denotes an absolute path when it starts with a separator.
pub open spec fn starts_absolute(s: Seq<char>) -> bool {
    s.len() > 0 && s[0] == '/'
}

/// The current-directory component.
pub open spec fn is_dot(c: Seq<char>) -> bool {
    c == "."@
}

/// The parent-directory component.
pub open spec fn is_dotdot(c: Seq<char>) -> bool {
    c == ".."@
}

/// One step of lexical cleaning: feed the next component into the already
/// cleaned prefix.  `.` disappears; `..` cancels a preceding name, is dropped
/// at the root of an absolute path, and survives at the front of a relative
/// one; every other component is kept.
pub open spec fn clean_push(absolute: bool, acc: Seq<Seq<char>>, comp: Seq<char>) -> Seq<Seq<char>> {
    if is_dot(comp) {
        acc
    } else if is_dotdot(comp) {
        if acc.len() > 0 && !is_dotdot(acc.last()) {
            acc.drop_last()
        } else if absolute {
            acc
        } else {
            acc.push(comp)
        }
    } else {
        acc.push(comp)
    }
}

/// Fold of `clean_push` over a component sequence, left to right.
pub open spec fn clean_fold(absolute: bool, cs: Seq<Seq<char>>) -> Seq<Seq<char>>
    decreases cs.len(),
{
    if cs.len() == 0 {
        Seq::empty()
    } else {
        clean_push(absolute, clean_fold(absolute, cs.drop_last()), cs.last())
    }
}

/// Cleaning preserves well-formedness of the component sequence.
pub proof fn lemma_clean_fold_wf(absolute: bool, cs: Seq<Seq<char>>)
    requires
        wf_comps(cs),
    ensures
        wf_comps(clean_fold(absolute, cs)),
    decreases cs.len(),
{
    if cs.len() > 0 {
        assert(wf_comps(cs.drop_last()));
        lemma_clean_fold_wf(absolute, cs.drop_last());
        reveal_strlit("..");
        assert(".."@.len() == 2 && ".."@[0] == '.' && ".."@[1] == '.');
        assert(no_slash(".."@));
    }
}

/// Cleaning an absolute path whose components are all plain names changes
/// nothing.
pub proof fn lemma_clean_fold_identity(cs: Seq<Seq<char>>)
    requires
        forall|i: int| 0 <= i < cs.len() ==> !is_dot(#[trigger] cs[i]) && !is_dotdot(cs[i]),
    ensures
        clean_fold(true, cs) == cs,
    decreases cs.len(),
{
    if cs.len() > 0 {
        assert(forall|i: int|
            0 <= i < cs.drop_last().len() ==> !is_dot(#[trigger] cs.drop_last()[i]) && !is_dotdot(
                cs.drop_last()[i],
            ));
        lemma_clean_fold_identity(cs.drop_last());
        assert(cs[cs.len() - 1] == cs.last());
        assert(clean_fold(true, cs) =~= cs.drop_last().push(cs.last()));
        assert(cs.drop_last().push(cs.last()) =~= cs);
    }
}

/// On an absolute path, every component that survives cleaning already stood
/// in the original sequence.
pub proof fn lemma_clean_fold_elements_absolute(cs: Seq<Seq<char>>)
    ensures
        forall|i: int|
            0 <= i < clean_fold(true, cs).len() ==> cs.contains(#[trigger] clean_fold(true, cs)[i]),
    decreases cs.len(),
{
    if cs.len() > 0 {
        lemma_clean_fold_elements_absolute(cs.drop_last());
        assert forall|i: int| 0 <= i < clean_fold(true, cs).len() implies cs.contains(
            #[trigger] clean_fold(true, cs)[i],
        ) by {
            let prev = clean_fold(true, cs.drop_last());
            let cur = clean_fold(true, cs);
            if cur == prev.push(cs.last()) && i == prev.len() {
                assert(cur[i] == cs.last());
                assert(cs[cs.len() - 1] == cs.last());
            } else {
                assert(prev.contains(cur[i]) || cs.drop_last().contains(cur[i])) by {
                    if cur == prev.drop_last() {
                        assert(cur[i] == prev[i]);
                        assert(prev.contains(cur[i]));
                    } else if cur == prev.push(cs.last()) {
                        assert(cur[i] == prev[i]);
                        assert(prev.contains(cur[i]));
                    } else {
                        assert(cur == prev);
                        assert(prev.contains(cur[i]));
                    }
                }
                if prev.contains(cur[i]) {
                    let j = choose|j: int| 0 <= j < prev.len() && prev[j] == cur[i];
                    assert(cs.drop_last().contains(cur[i]));
                }
                let j = choose|j: int| 0 <= j < cs.drop_last().len() && cs.drop_last()[j] == cur[i];
                assert(cs[j] == cur[i]);
            }
        }
    }
}

/// A filesystem path held as plain values: parsed once, then handled only
/// through its components.
#[derive(Debug, Clone, PartialEq)]
pub struct FsPath {
    pub absolute: bool,
    pub comps: Vec<String>,
}

impl View for FsPath {
    type V = PathView;

    open spec fn view(&self) -> PathView {
        PathView { absolute: self.absolute, comps: self.comps.deep_view() }
    }
}

impl FsPath {
    /// The type's invariant: all components nonempty and separator-free.
    pub open spec fn wf(&self) -> bool {
        wf_comps(self@.comps)
    }

    /// Parse a path string into its components.
    pub fn parse(s: &str) -> (r: FsPath)
        ensures
            r@.absolute == starts_absolute(s@),
            r@.comps == split_comps(s@),
            r.wf(),
    {
        let n = s.unicode_len();
        let absolute = n > 0 && s.get_char(0) == '/';
        let mut comps: Vec<String> = Vec::new();
        let mut start: usize = 0;
        let mut i: usize = 0;
        while i < n
            invariant
                n == s@.len(),
                0 <= start <= i <= n,
                split_fold(s@.take(i as int)) == (comps.deep_view(), s@.subrange(start as int, i as int)),
                forall|j: int| start <= j < i ==> s@[j] != '/',
                wf_comps(comps.deep_view()),
            decreases n - i,
        {
            let c = s.get_char(i);
            proof {
                assert(s@.take(i + 1).drop_last() =~= s@.take(i as int));
                assert(s@.take(i + 1).last() == s@[i as int]);
            }
            if c == '/' {
                if start < i {
                    let comp = s.substring_char(start, i).to_owned();
                    let ghost old_comps = comps.deep_view();
                    comps.push(comp);
                    proof {
                        assert(comps.deep_view() =~= old_comps.push(comp@));
                        assert(comps.deep_view() =~= split_fold(s@.take(i + 1)).0);
                    }
                }
                start = i + 1;
                proof {
                    assert(s@.subrange(start as int, i + 1) =~= Seq::<char>::empty());
                }
            } else {
                proof {
                    assert(s@.subrange(start as int, i + 1) =~= s@.subrange(start as int, i as int).push(s@[i as int]));
                }
            }
            i = i + 1;
        }
        if start < n {
            let comp = s.substring_char(start, n).to_owned();
            let ghost old_comps = comps.deep_view();
            comps.push(comp);
            proof {
                assert(comps.deep_view() =~= old_comps.push(comp@));
            }
        }
        proof {
            assert(s@.take(n as int) =~= s@);
        }
        FsPath { absolute, comps }
    }

    /// Copy a path, preserving its model.
    pub fn duplicate(&self) -> (r: FsPath)
        ensures
            r@ == self@,
    {
        let mut comps: Vec<String> = Vec::new();
        let mut i: usize = 0;
        while i < self.comps.len()
            invariant
                0 <= i <= self.comps.len(),
                comps@ == self.comps@.take(i as int),
            decreases self.comps.len() - i,
        {
            comps.push(self.comps[i].clone());
            proof {
                assert(comps@ =~= self.comps@.take(i + 1));
            }
            i = i + 1;
        }
        proof {
            assert(comps@ =~= self.comps@);
        }
        FsPath { absolute: self.absolute, comps }
    }

    /// Lexically clean the path: resolve `.` and `..` without consulting the
    /// filesystem.
    pub fn clean(&self) -> (r: FsPath)
        ensures
            r@.absolute == self@.absolute,
            r@.comps == clean_fold(self@.absolute, self@.comps),
            self.wf() ==> r.wf(),
    {
        let mut acc: Vec<String> = Vec::new();
        let mut i: usize = 0;
        while i < self.comps.len()
            invariant
                0 <= i <= self.comps.len(),
                acc.deep_view() == clean_fold(self@.absolute, self@.comps.take(i as int)),
            decreases self.comps.len() - i,
        {
            let comp = &self.comps[i];
            proof {
                assert(self@.comps.take(i + 1).drop_last() =~= self@.comps.take(i as int));
                assert(self@.comps.take(i + 1).last() == self@.comps[i as int]);
            }
            if str_eq(comp.as_str(), ".") {
                // dropped
            } else if str_eq(comp.as_str(), "..") {
                if acc.len() > 0 && !str_eq(acc[acc.len() - 1].as_str(), "..") {
                    let ghost old_acc = acc.deep_view();
                    acc.pop();
                    proof {
                        assert(acc.deep_view() =~= old_acc.drop_last());
                    }
                } else if self.absolute {
                    // dropped at the root
                } else {
                    let ghost old_acc = acc.deep_view();
                    acc.push(comp.clone());
                    proof {
                        assert(acc.deep_view() =~= old_acc.push(comp@));
                    }
                }
            } else {
                let ghost old_acc = acc.deep_view();
                acc.push(comp.clone());
                proof {
                    assert(acc.deep_view() =~= old_acc.push(comp@));
                }
            }
            i = i + 1;
        }
        proof {
            assert(self@.comps.take(self.comps.len() as int) =~= self@.comps);
            if self.wf() {
                lemma_clean_fold_wf(self@.absolute, self@.comps);
            }
        }
        FsPath { absolute: self.absolute, comps: acc }
    }

    /// Join another path onto this one, as the filesystem would: an absolute
    /// right-hand side replaces the left-hand side entirely.
    pub fn join(&self, other: &FsPath) -> (r: FsPath)
        ensures
            other@.absolute ==> r@ == other@,
            !other@.absolute ==> r@ == (PathView {
                absolute: self@.absolute,
                comps: self@.comps + other@.comps,
            }),
            self.wf() && other.wf() ==> r.wf(),
    {
        if other.absolute {
            other.duplicate()
        } else {
            let mut comps: Vec<String> = Vec::new();
            let mut i: usize = 0;
            while i < self.comps.len()
                invariant
                    0 <= i <= self.comps.len(),
                    comps@ == self.comps@.take(i as int),
                decreases self.comps.len() - i,
            {
                comps.push(self.comps[i].clone());
                proof {
                    assert(comps@ =~= self.comps@.take(i + 1));
                }
                i = i + 1;
            }
            let mut j: usize = 0;
            while j < other.comps.len()
                invariant
                    0 <= j <= other.comps.len(),
                    comps@ == self.comps@ + other.comps@.take(j as int),
                decreases other.comps.len() - j,
            {
                comps.push(other.comps[j].clone());
                proof {
                    assert(comps@ =~= self.comps@ + other.comps@.take(j + 1));
                }
                j = j + 1;
            }
            proof {
                assert(comps@ =~= self.comps@ + other.comps@);
                assert(comps.deep_view() =~= self.comps.deep_view() + other.comps.deep_view());
            }
            FsPath { absolute: self.absolute, comps }
        }
    }

    /// Component-wise prefix test, the lexical meaning of "inside".
    pub fn starts_with(&self, base: &FsPath) -> (r: bool)
        ensures
            r == starts_with_spec(self@, base@),
    {
        if self.absolute != base.absolute {
            return false;
        }
        if base.comps.len() > self.comps.len() {
            return false;
        }
        let mut i: usize = 0;
        while i < base.comps.len()
            invariant
                0 <= i <= base.comps.len(),
                base.comps.len() <= self.comps.len(),
                forall|j: int| 0 <= j < i ==> self@.comps[j] == base@.comps[j],
            decreases base.comps.len() - i,
        {
            if !str_eq(self.comps[i].as_str(), base.comps[i].as_str()) {
                proof {
                    assert(self@.comps.take(base@.comps.len() as int)[i as int]
                        == self@.comps[i as int]);
                }
                return false;
            }
            i = i + 1;
        }
        proof {
            assert(self@.comps.take(base@.comps.len() as int) =~= base@.comps);
        }
        true
    }

    /// Render the path as a string: components joined by separators, with a
    /// leading separator when the path is absolute.
    pub fn to_text(&self) -> (r: String)
        ensures
            r@ == path_text(self@),
    {
        let mut out = String::new();
        if self.absolute {
            out.append("/");
            proof {
                reveal_strlit("/");
                assert(out@ =~= seq!['/']);
            }
        }
        let mut i: usize = 0;
        while i < self.comps.len()
            invariant
                0 <= i <= self.comps.len(),
                out@ == (if self@.absolute {
                    seq!['/']
                } else {
                    Seq::<char>::empty()
                }) + joined_comps(self@.comps.take(i as int)),
            decreases self.comps.len() - i,
        {
            proof {
                assert(self@.comps.take(i + 1).drop_last() =~= self@.comps.take(i as int));
                assert(self@.comps.take(i + 1).last() == self@.comps[i as int]);
            }
            if i > 0 {
                out.append("/");
                proof {
                    reveal_strlit("/");
                }
            }
            out.append(self.comps[i].as_str());
            proof {
                reveal_strlit("/");
                assert(out@ =~= (if self@.absolute {
                    seq!['/']
                } else {
                    Seq::<char>::empty()
                }) + joined_comps(self@.comps.take(i + 1)));
            }
            i = i + 1;
        }
        proof {
            assert(self@.comps.take(self.comps.len() as int) =~= self@.comps);
        }
        out
    }
}

/// The index of the last `.` in a name, or -1 when there is none.
pub open spec fn last_dot(name: Seq<char>) -> int
    decreases name.len(),
{
    if name.len() == 0 {
        -1
    } else if name.last() == '.' {
        name.len() - 1
    } else {
        last_dot(name.drop_last())
    }
}

/// The extension of a file name: what follows the last `.`, provided that
/// dot is not the leading character (a leading dot marks a hidden file, not
/// an extension).
pub open spec fn extension_of(name: Seq<char>) -> Option<Seq<char>> {
    let k = last_dot(name);
    if k <= 0 {
        None
    } else {
        Some(name.subrange(k + 1, name.len() as int))
    }
}

/// If `name[k]` is a dot and no later character is, then `k` is the last dot.
pub proof fn lemma_last_dot_at(name: Seq<char>, k: int)
    requires
        0 <= k < name.len(),
        name[k] == '.',
        forall|j: int| k < j < name.len() ==> name[j] != '.',
    ensures
        last_dot(name) == k,
    decreases name.len(),
{
    if k < name.len() - 1 {
        lemma_last_dot_at(name.drop_last(), k);
    }
}

/// If no character is a dot, there is no last dot.
pub proof fn lemma_no_dot(name: Seq<char>)
    requires
        forall|j: int| 0 <= j < name.len() ==> name[j] != '.',
    ensures
        last_dot(name) == -1,
    decreases name.len(),
{
    if name.len() > 0 {
        lemma_no_dot(name.drop_last());
    }
}

impl FsPath {
    /// The name of the final component, if any.
    pub fn file_name(&self) -> (r: Option<&String>)
        ensures
            match r {
                Some(n) => self@.comps.len() > 0 && n@ == self@.comps.last(),
                None => self@.comps.len() == 0,
            },
    {
        if self.comps.len() == 0 {
            None
        } else {
            Some(&self.comps[self.comps.len() - 1])
        }
    }

    /// The name of the directory holding the final component, if any.
    pub fn parent_name(&self) -> (r: Option<&String>)
        ensures
            match r {
                Some(n) => self@.comps.len() >= 2 && n@ == self@.comps[self@.comps.len() - 2],
                None => self@.comps.len() < 2,
            },
    {
        if self.comps.len() < 2 {
            None
        } else {
            Some(&self.comps[self.comps.len() - 2])
        }
    }

    /// The path with the final component removed; a path without components
    /// is its own parent.
    pub fn parent(&self) -> (r: FsPath)
        ensures
            r@.absolute == self@.absolute,
            self@.comps.len() > 0 ==> r@.comps == self@.comps.drop_last(),
            self@.comps.len() == 0 ==> r@.comps == self@.comps,
            self.wf() ==> r.wf(),
    {
        let mut r = self.duplicate();
        if r.comps.len() > 0 {
            let ghost old_comps = r@.comps;
            r.comps.pop();
            proof {
                assert(r.comps.deep_view() =~= old_comps.drop_last());
            }
        }
        r
    }

    /// The extension of the final component, if any.
    pub fn extension(&self) -> (r: Option<String>)
        ensures
            match r {
                Some(e) => self@.comps.len() > 0 && extension_of(self@.comps.last()) == Some(e@),
                None => self@.comps.len() == 0 || extension_of(self@.comps.last()) is None,
            },
    {
        if self.comps.len() == 0 {
            return None;
        }
        let name = &self.comps[self.comps.len() - 1];
        let n = name.as_str().unicode_len();
        let mut i: usize = n;
        while i > 0
            invariant
                n == name@.len(),
                0 <= i <= n,
                self@.comps.len() > 0,
                name@ == self@.comps.last(),
                forall|j: int| i <= j < n ==> name@[j] != '.',
            decreases i,
        {
            if name.as_str().get_char(i - 1) == '.' {
                proof {
                    lemma_last_dot_at(name@, i - 1);
                }
                if i - 1 == 0 {
                    return None;
                }
                let ext = name.as_str().substring_char(i, n).to_owned();
                return Some(ext);
            }
            i = i - 1;
        }
        proof {
            lemma_no_dot(name@);
        }
        None
    }
}

/// The views of a sequence of paths.
pub open spec fn views_of(v: Seq<FsPath>) -> Seq<PathView> {
    v.map_values(|p: FsPath| p@)
}

/// Component-wise prefix: `p` lies at or below `base`.
pub open spec fn starts_with_spec(p: PathView, base: PathView) -> bool {
    p.absolute == base.absolute && base.comps.len() <= p.comps.len() && p.comps.take(
        base.comps.len() as int,
    ) == base.comps
}

/// Components joined by `/`, without a leading separator.
pub open spec fn joined_comps(cs: Seq<Seq<char>>) -> Seq<char>
    decreases cs.len(),
{
    if cs.len() == 0 {
        Seq::empty()
    } else if cs.len() == 1 {
        cs[0]
    } else {
        joined_comps(cs.drop_last()) + seq!['/'] + cs.last()
    }
}

/// The textual form of a path.
pub open spec fn path_text(p: PathView) -> Seq<char> {
    if p.absolute {
        seq!['/'] + joined_comps(p.comps)
    } else {
        joined_comps(p.comps)
    }
}

} // verus!
