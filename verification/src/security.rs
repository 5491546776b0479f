//! Path-safety validation: base-directory containment, a blocklist of
//! protected system paths, and a hard gate against user-data directories.

use vstd::prelude::*;

use crate::errors::ClearModelError;
use crate::path_model::{
    FsPath, PathView, clean_fold, is_dot, is_dotdot, lemma_clean_fold_elements_absolute,
    no_slash, split_comps, starts_absolute, starts_with_spec, wf_comps,
};
use crate::text::{has_substr, has_substr_ci, str_contains, str_contains_ci, str_eq};

verus! {

/// `p` anchored at `cwd` (when relative) and lexically cleaned.
pub open spec fn resolved(p: PathView, cwd: PathView) -> PathView {
    let anchored = if p.absolute {
        p
    } else {
        PathView { absolute: cwd.absolute, comps: cwd.comps + p.comps }
    };
    PathView { absolute: anchored.absolute, comps: clean_fold(anchored.absolute, anchored.comps) }
}

/// A component that canonicalization should have removed, or that smuggles
/// traversal syntax inside a name.
pub open spec fn suspicious_comp(c: Seq<char>) -> bool {
    has_substr(c, ".."@) || has_substr(c, "./"@) || is_dot(c)
}

/// Some component of the sequence is suspicious.
pub open spec fn any_suspicious(cs: Seq<Seq<char>>) -> bool {
    exists|i: int| 0 <= i < cs.len() && suspicious_comp(#[trigger] cs[i])
}

/// The validator accepts `p` against `base` exactly when the resolved path
/// stays inside the resolved base and no resolved component is suspicious.
pub open spec fn validate_ok(p: PathView, base: PathView, cwd: PathView) -> bool {
    starts_with_spec(resolved(p, cwd), resolved(base, cwd)) && !any_suspicious(
        resolved(p, cwd).comps,
    )
}

/// `e` reports a traversal of `p`.
pub open spec fn is_traversal_of(e: ClearModelError, p: PathView) -> bool {
    &&& e matches ClearModelError::PathTraversal { path }
    &&& path@ == p
}

/// Security utilities for safe path handling and traversal protection.
pub struct SecurityManager;

impl SecurityManager {
    /// Validate a candidate path against an allowed base directory.
    ///
    /// The path and the base are anchored at `cwd` when relative, then
    /// lexically cleaned; the cleaned path must stay inside the cleaned base,
    /// and no surviving component may be `.` or carry `..` or `./` inside its
    /// name.  On success the resolved path itself is returned.
    pub fn validate_and_sanitize_path(path: &FsPath, allowed_base: &FsPath, cwd: &FsPath) -> (r:
        Result<FsPath, ClearModelError>)
        requires
            path.wf(),
            allowed_base.wf(),
            cwd.wf(),
            cwd@.absolute,
        ensures
            match r {
                Ok(v) => validate_ok(path@, allowed_base@, cwd@) && v@ == resolved(path@, cwd@)
                    && v.wf(),
                Err(e) => {
                    &&& !validate_ok(path@, allowed_base@, cwd@)
                    &&& !starts_with_spec(resolved(path@, cwd@), resolved(allowed_base@, cwd@))
                        ==> is_traversal_of(e, resolved(path@, cwd@))
                    &&& starts_with_spec(resolved(path@, cwd@), resolved(allowed_base@, cwd@))
                        ==> e is Security
                },
            },
    {
        let anchored = cwd.join(path);
        let abs_path = anchored.clean();
        let anchored_base = cwd.join(allowed_base);
        let abs_base = anchored_base.clean();
        if !abs_path.starts_with(&abs_base) {
            return Err(ClearModelError::path_traversal(abs_path));
        }
        match Self::validate_path_components(&abs_path) {
            Ok(()) => Ok(abs_path),
            Err(e) => Err(e),
        }
    }

    /// Reject any component that canonicalization should have removed.
    fn validate_path_components(path: &FsPath) -> (r: Result<(), ClearModelError>)
        ensures
            r is Ok <==> !any_suspicious(path@.comps),
            r matches Err(e) ==> e is Security,
    {
        let mut i: usize = 0;
        while i < path.comps.len()
            invariant
                0 <= i <= path.comps.len(),
                forall|j: int| 0 <= j < i ==> !suspicious_comp(#[trigger] path@.comps[j]),
            decreases path.comps.len() - i,
        {
            let comp = &path.comps[i];
            if str_eq(comp.as_str(), ".") {
                proof {
                    assert(path@.comps[i as int] == comp@);
                    assert(suspicious_comp(path@.comps[i as int]));
                }
                let mut msg = String::new();
                msg.append("Unresolved current directory component found");
                return Err(ClearModelError::security(msg));
            }
            if str_contains(comp.as_str(), "..") || str_contains(comp.as_str(), "./") {
                proof {
                    assert(path@.comps[i as int] == comp@);
                    assert(suspicious_comp(path@.comps[i as int]));
                }
                let mut msg = String::new();
                msg.append("Suspicious path component: ");
                msg.append(comp.as_str());
                return Err(ClearModelError::security(msg));
            }
            i = i + 1;
        }
        Ok(())
    }
}

/// The blocklist of protected system paths, as component sequences; the empty
/// entry is the filesystem root.
pub open spec fn blocklist() -> Seq<Seq<Seq<char>>> {
    seq![
        seq![],
        seq!["bin"@],
        seq!["boot"@],
        seq!["dev"@],
        seq!["etc"@],
        seq!["lib"@],
        seq!["proc"@],
        seq!["root"@],
        seq!["sbin"@],
        seq!["sys"@],
        seq!["usr"@],
        seq!["var"@, "log"@],
        seq!["var"@, "lib"@],
    ]
}

/// `p`'s components equal the entry, or lie exactly one segment below it.
pub open spec fn matches_protected_entry(comps: Seq<Seq<char>>, e: Seq<Seq<char>>) -> bool {
    comps == e || (comps.len() == e.len() + 1 && comps.take(e.len() as int) == e)
}

/// An absolute path equal to a blocklisted system path, or one segment
/// inside one.
pub open spec fn is_protected_path(p: PathView) -> bool {
    p.absolute && exists|i: int|
        0 <= i < blocklist().len() && matches_protected_entry(p.comps, #[trigger] blocklist()[i])
}

/// Deletion may proceed at `p` only when `p` is no protected system path.
pub open spec fn deletion_safe(p: PathView) -> bool {
    !is_protected_path(p)
}

/// The keywords whose presence in a component marks a personal-data folder.
pub open spec fn user_data_keywords() -> Seq<Seq<char>> {
    seq![
        "documents"@,
        "desktop"@,
        "downloads"@,
        "pictures"@,
        "music"@,
        "videos"@,
        "dropbox"@,
        "googledrive"@,
    ]
}

/// The keywords that mark a path as a plausible cache location.
pub open spec fn cache_keywords() -> Seq<Seq<char>> {
    seq![
        "cache"@,
        "tmp"@,
        "temp"@,
        ".cache"@,
        "huggingface"@,
        "torch"@,
        "tensorflow"@,
        "keras"@,
        "transformers"@,
        "anthropic"@,
        "openai"@,
        "pytorch"@,
        "models"@,
    ]
}

/// Some component holds some keyword, folding ASCII case.
pub open spec fn comp_matches_any_ci(cs: Seq<Seq<char>>, kws: Seq<Seq<char>>) -> bool {
    exists|i: int, k: int|
        0 <= i < cs.len() && 0 <= k < kws.len() && #[trigger] has_substr_ci(cs[i], kws[k])
}

/// A path whose components name a personal-data folder.
pub open spec fn is_user_data(p: PathView) -> bool {
    comp_matches_any_ci(p.comps, user_data_keywords())
}

/// The hard gate admits `p` only when it names no personal data.
pub open spec fn cache_path_allowed(p: PathView) -> bool {
    !is_user_data(p)
}

/// A path that looks like a cache location.
pub open spec fn looks_like_cache_spec(p: PathView) -> bool {
    comp_matches_any_ci(p.comps, cache_keywords())
}

/// Build one single-name blocklist entry.
fn entry1(a: &str) -> (r: Vec<String>)
    ensures
        r.deep_view() == seq![a@],
{
    let mut v: Vec<String> = Vec::new();
    v.push(a.to_owned());
    proof {
        assert(v.deep_view() =~= seq![a@]);
    }
    v
}

/// Build one two-name blocklist entry.
fn entry2(a: &str, b: &str) -> (r: Vec<String>)
    ensures
        r.deep_view() == seq![a@, b@],
{
    let mut v: Vec<String> = Vec::new();
    v.push(a.to_owned());
    v.push(b.to_owned());
    proof {
        assert(v.deep_view() =~= seq![a@, b@]);
    }
    v
}

/// The blocklist as executable values.
fn blocklist_vec() -> (r: Vec<Vec<String>>)
    ensures
        r.deep_view() == blocklist(),
{
    let mut v: Vec<Vec<String>> = Vec::new();
    v.push(Vec::new());
    v.push(entry1("bin"));
    v.push(entry1("boot"));
    v.push(entry1("dev"));
    v.push(entry1("etc"));
    v.push(entry1("lib"));
    v.push(entry1("proc"));
    v.push(entry1("root"));
    v.push(entry1("sbin"));
    v.push(entry1("sys"));
    v.push(entry1("usr"));
    v.push(entry2("var", "log"));
    v.push(entry2("var", "lib"));
    proof {
        assert(v.deep_view() =~~= blocklist());
    }
    v
}

/// Build executable keyword lists from literals.
fn keywords_user_data() -> (r: Vec<String>)
    ensures
        r.deep_view() == user_data_keywords(),
{
    let mut v: Vec<String> = Vec::new();
    v.push("documents".to_owned());
    v.push("desktop".to_owned());
    v.push("downloads".to_owned());
    v.push("pictures".to_owned());
    v.push("music".to_owned());
    v.push("videos".to_owned());
    v.push("dropbox".to_owned());
    v.push("googledrive".to_owned());
    proof {
        assert(v.deep_view() =~= user_data_keywords());
    }
    v
}

/// The cache-indicator keywords as executable values.
fn keywords_cache() -> (r: Vec<String>)
    ensures
        r.deep_view() == cache_keywords(),
{
    let mut v: Vec<String> = Vec::new();
    v.push("cache".to_owned());
    v.push("tmp".to_owned());
    v.push("temp".to_owned());
    v.push(".cache".to_owned());
    v.push("huggingface".to_owned());
    v.push("torch".to_owned());
    v.push("tensorflow".to_owned());
    v.push("keras".to_owned());
    v.push("transformers".to_owned());
    v.push("anthropic".to_owned());
    v.push("openai".to_owned());
    v.push("pytorch".to_owned());
    v.push("models".to_owned());
    proof {
        assert(v.deep_view() =~= cache_keywords());
    }
    v
}

/// Does some component of `comps` hold some keyword of `kws`, case-folded?
fn any_comp_contains_ci(comps: &Vec<String>, kws: &Vec<String>) -> (r: bool)
    ensures
        r == comp_matches_any_ci(comps.deep_view(), kws.deep_view()),
{
    let mut i: usize = 0;
    while i < comps.len()
        invariant
            0 <= i <= comps.len(),
            forall|i2: int, k2: int|
                0 <= i2 < i && 0 <= k2 < kws.deep_view().len() ==> !has_substr_ci(
                    #[trigger] comps.deep_view()[i2],
                    #[trigger] kws.deep_view()[k2],
                ),
        decreases comps.len() - i,
    {
        let mut k: usize = 0;
        while k < kws.len()
            invariant
                0 <= i < comps.len(),
                0 <= k <= kws.len(),
                forall|k2: int|
                    0 <= k2 < k ==> !has_substr_ci(
                        comps.deep_view()[i as int],
                        #[trigger] kws.deep_view()[k2],
                    ),
        decreases kws.len() - k,
        {
            if str_contains_ci(comps[i].as_str(), kws[k].as_str()) {
                proof {
                    assert(has_substr_ci(comps.deep_view()[i as int], kws.deep_view()[k as int]));
                }
                return true;
            }
            k = k + 1;
        }
        i = i + 1;
    }
    false
}

/// Does `comps` equal `entry` or lie exactly one segment below it?
fn comps_match_entry(comps: &Vec<String>, entry: &Vec<String>) -> (r: bool)
    ensures
        r == matches_protected_entry(comps.deep_view(), entry.deep_view()),
{
    let cl = comps.len();
    let el = entry.len();
    if cl != el && !(cl > el && cl - 1 == el) {
        proof {
            assert(comps.deep_view().len() == comps.len());
            assert(entry.deep_view().len() == entry.len());
        }
        return false;
    }
    let mut i: usize = 0;
    while i < entry.len()
        invariant
            0 <= i <= entry.len(),
            entry.len() <= comps.len() <= entry.len() + 1,
            forall|j: int| 0 <= j < i ==> comps.deep_view()[j] == entry.deep_view()[j],
        decreases entry.len() - i,
    {
        if !str_eq(comps[i].as_str(), entry[i].as_str()) {
            proof {
                let cs = comps.deep_view();
                let e = entry.deep_view();
                if cs == e {
                    assert(cs[i as int] == e[i as int]);
                }
                if cs.take(e.len() as int) == e {
                    assert(cs.take(e.len() as int)[i as int] == cs[i as int]);
                }
            }
            return false;
        }
        i = i + 1;
    }
    proof {
        let cs = comps.deep_view();
        let e = entry.deep_view();
        if cs.len() == e.len() {
            assert(cs =~= e);
        } else {
            assert(cs.take(e.len() as int) =~= e);
        }
    }
    true
}

impl SecurityManager {
    /// Check that a path is safe to delete under: it must not be a protected
    /// system path nor sit directly inside one.
    pub fn validate_deletion_safety(path: &FsPath) -> (r: Result<(), ClearModelError>)
        ensures
            r is Ok <==> deletion_safe(path@),
            r matches Err(e) ==> e is Security,
    {
        let entries = blocklist_vec();
        if !path.absolute {
            return Ok(());
        }
        let mut i: usize = 0;
        while i < entries.len()
            invariant
                path@.absolute,
                entries.deep_view() == blocklist(),
                0 <= i <= entries.len(),
                forall|j: int|
                    0 <= j < i ==> !matches_protected_entry(
                        path@.comps,
                        #[trigger] blocklist()[j],
                    ),
            decreases entries.len() - i,
        {
            if comps_match_entry(&path.comps, &entries[i]) {
                proof {
                    assert(matches_protected_entry(path@.comps, blocklist()[i as int]));
                }
                let mut msg = String::new();
                msg.append("Attempted to delete critical system path: ");
                let text = path.to_text();
                msg.append(text.as_str());
                return Err(ClearModelError::security(msg));
            }
            i = i + 1;
        }
        Ok(())
    }

    /// Heuristic: does the path look like a cache location?  Advisory only.
    pub fn looks_like_cache(path: &FsPath) -> (r: bool)
        ensures
            r == looks_like_cache_spec(path@),
    {
        let kws = keywords_cache();
        any_comp_contains_ci(&path.comps, &kws)
    }

    /// Hard gate: refuse to treat a personal-data directory as a cache, even
    /// one inside an allowed base.
    pub fn validate_cache_path(path: &FsPath) -> (r: Result<(), ClearModelError>)
        ensures
            r is Ok <==> cache_path_allowed(path@),
            r matches Err(e) ==> e is Security,
    {
        let kws = keywords_user_data();
        if any_comp_contains_ci(&path.comps, &kws) {
            let mut msg = String::new();
            msg.append("Refusing to clean user data directory: ");
            let text = path.to_text();
            msg.append(text.as_str());
            return Err(ClearModelError::security(msg));
        }
        Ok(())
    }
}

/// What sanitizing a file name yields; determined by the input alone.
pub uninterp spec fn sanitize_of(s: Seq<char>) -> Seq<char>;

/// Relies on sanitize_filename::sanitize_with_options with fixed options
/// (portable rules, truncation, empty replacement): the result is a function
/// of the input string alone; separators and control characters are removed,
/// a name of only dots is emptied, so the result never holds `/` and is never
/// `.` or `..`; an empty input stays empty.
#[verifier::external_body]
fn sanitize_name(s: &str) -> (r: String)
    ensures
        r@ == sanitize_of(s@),
        no_slash(r@),
        !is_dot(r@),
        !is_dotdot(r@),
        s@.len() == 0 ==> r@.len() == 0,
{
    sanitize_filename::sanitize_with_options(
        s,
        sanitize_filename::Options { windows: false, truncate: true, replacement: "" },
    )
}

/// The candidate path that a sanitized name denotes: always relative.
pub open spec fn secure_candidate(s: Seq<char>) -> Seq<Seq<char>> {
    split_comps(sanitize_of(s))
}

/// The candidate joined onto its base.
pub open spec fn secure_joined(s: Seq<char>, base: PathView) -> PathView {
    PathView { absolute: base.absolute, comps: base.comps + secure_candidate(s) }
}

impl SecurityManager {
    /// Turn an untrusted name into a validated path under `base`: the name is
    /// sanitized, required to stay relative, joined onto the base, and passed
    /// through the full validator.
    pub fn create_secure_utf8_path(path: &str, base: &FsPath, cwd: &FsPath) -> (r: Result<
        FsPath,
        ClearModelError,
    >)
        requires
            base.wf(),
            cwd.wf(),
            cwd@.absolute,
        ensures
            match r {
                Ok(v) => validate_ok(secure_joined(path@, base@), base@, cwd@) && v@ == resolved(
                    secure_joined(path@, base@),
                    cwd@,
                ),
                Err(e) => !validate_ok(secure_joined(path@, base@), base@, cwd@),
            },
    {
        let sanitized = sanitize_name(path);
        let candidate = FsPath::parse(sanitized.as_str());
        if candidate.absolute {
            let mut msg = String::new();
            msg.append("Absolute paths not allowed in this context");
            return Err(ClearModelError::security(msg));
        }
        let full = base.join(&candidate);
        Self::validate_and_sanitize_path(&full, base, cwd)
    }
}

/// A protected system path, or a path one segment inside one, never passes
/// the deletion-safety gate, whatever the base-directory validator said.
pub proof fn lemma_protected_rejected(p: PathView)
    requires
        is_protected_path(p),
    ensures
        !deletion_safe(p),
{
}

/// A path holding a user-data keyword is refused by the hard gate even when
/// it lies inside an allowed base and the validator accepted it.
pub proof fn lemma_user_data_rejected(p: PathView, base: PathView, cwd: PathView)
    requires
        is_user_data(p),
        validate_ok(p, base, cwd),
    ensures
        !cache_path_allowed(p),
{
}

/// Whenever the resolved form of a path escapes the resolved base, the
/// validator refuses it: no escaping path is ever accepted.
pub proof fn lemma_traversal_rejected(p: PathView, base: PathView, cwd: PathView)
    requires
        !starts_with_spec(resolved(p, cwd), resolved(base, cwd)),
    ensures
        !validate_ok(p, base, cwd),
{
}

/// A suspicion-free component is in particular neither `.` nor `..`.
proof fn lemma_unsuspicious_is_plain(c: Seq<char>)
    requires
        !suspicious_comp(c),
    ensures
        !is_dot(c),
        !is_dotdot(c),
{
    if is_dotdot(c) {
        assert(c.subrange(0, 0 + ".."@.len() as int) =~= ".."@);
        assert(has_substr(c, ".."@));
    }
}

/// Any path standing syntactically below a clean absolute base — the base's
/// components followed by further plain names, none suspicious — is accepted
/// by the validator, and the canonical path handed back starts with the
/// canonical form of the base.
pub proof fn lemma_join_inside_base_accepted(base: PathView, rel: Seq<Seq<char>>, cwd: PathView)
    requires
        base.absolute,
        forall|i: int| 0 <= i < base.comps.len() ==> !suspicious_comp(#[trigger] base.comps[i]),
        forall|i: int| 0 <= i < rel.len() ==> !suspicious_comp(#[trigger] rel[i]),
    ensures
        validate_ok(PathView { absolute: true, comps: base.comps + rel }, base, cwd),
        resolved(PathView { absolute: true, comps: base.comps + rel }, cwd).comps == base.comps
            + rel,
{
    let joined = PathView { absolute: true, comps: base.comps + rel };
    assert forall|i: int| 0 <= i < joined.comps.len() implies !is_dot(#[trigger] joined.comps[i])
        && !is_dotdot(joined.comps[i]) && !suspicious_comp(joined.comps[i]) by {
        if i < base.comps.len() {
            assert(joined.comps[i] == base.comps[i]);
        } else {
            assert(joined.comps[i] == rel[i - base.comps.len()]);
        }
        lemma_unsuspicious_is_plain(joined.comps[i]);
    }
    assert forall|i: int| 0 <= i < base.comps.len() implies !is_dot(#[trigger] base.comps[i])
        && !is_dotdot(base.comps[i]) by {
        lemma_unsuspicious_is_plain(base.comps[i]);
    }
    crate::path_model::lemma_clean_fold_identity(joined.comps);
    crate::path_model::lemma_clean_fold_identity(base.comps);
    assert(resolved(joined, cwd).comps == base.comps + rel);
    assert(resolved(base, cwd).comps == base.comps);
    assert((base.comps + rel).take(base.comps.len() as int) =~= base.comps);
    assert(starts_with_spec(resolved(joined, cwd), resolved(base, cwd)));
}

/// Any absolute path lexically inside the base whose component names are free
/// of traversal syntax is accepted, and the canonical path handed back starts
/// with the canonical form of the base.
pub proof fn lemma_inside_base_accepted(p: PathView, base: PathView, cwd: PathView)
    requires
        p.absolute,
        starts_with_spec(resolved(p, cwd), resolved(base, cwd)),
        forall|i: int| 0 <= i < p.comps.len() ==> !suspicious_comp(#[trigger] p.comps[i]),
    ensures
        validate_ok(p, base, cwd),
        starts_with_spec(resolved(p, cwd), resolved(base, cwd)),
{
    lemma_clean_fold_elements_absolute(p.comps);
    let rcomps = resolved(p, cwd).comps;
    assert forall|i: int| 0 <= i < rcomps.len() implies !suspicious_comp(#[trigger] rcomps[i]) by {
        assert(p.comps.contains(rcomps[i]));
        let j = choose|j: int| 0 <= j < p.comps.len() && p.comps[j] == rcomps[i];
    }
}

} // verus!
