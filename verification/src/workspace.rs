//! Where the file a tool names lies: a path the model wrote is resolved against the
//! workspace, and refused when it climbs out of it.
//!
//! A path is handled as the list of its components, as `std::path::Path::components`
//! gives them; joining and normalising follow the rules std documents for `PathBuf::push`
//! and `PathBuf::pop` (verbatim prefixes aside), and prefixes compare by their text.

use std::path::{Component, Path};

use vstd::prelude::*;

use crate::text::{str_eq, utf8_len};
use crate::tools::{convert_windows_unix_style_path, is_char_boundary};

verus! {

/// A component of a path.
pub enum PathPart {
    /// A Windows prefix such as `C:`, with its text.
    Prefix(String),
    /// The root directory, with its separator.
    Root(String),
    /// `.`
    Here,
    /// `..`
    Up,
    /// A file or directory name.
    Name(String),
}

/// The contents of a path component.
pub ghost enum PartView {
    Prefix(Seq<char>),
    Root(Seq<char>),
    Here,
    Up,
    Name(Seq<char>),
}

impl View for PathPart {
    type V = PartView;

    open spec fn view(&self) -> PartView {
        match self {
            PathPart::Prefix(t) => PartView::Prefix(t@),
            PathPart::Root(t) => PartView::Root(t@),
            PathPart::Here => PartView::Here,
            PathPart::Up => PartView::Up,
            PathPart::Name(t) => PartView::Name(t@),
        }
    }
}

impl PathPart {
    /// A copy of the component.
    pub fn duplicate(&self) -> (c: PathPart)
        ensures
            c@ == self@,
    {
        match self {
            PathPart::Prefix(t) => PathPart::Prefix(t.clone()),
            PathPart::Root(t) => PathPart::Root(t.clone()),
            PathPart::Here => PathPart::Here,
            PathPart::Up => PathPart::Up,
            PathPart::Name(t) => PathPart::Name(t.clone()),
        }
    }
}

/// The contents of a list of components.
pub open spec fn part_views(v: Seq<PathPart>) -> Seq<PartView> {
    v.map_values(|p: PathPart| p@)
}

/// Whether two components are the same.
fn same_part(a: &PathPart, b: &PathPart) -> (r: bool)
    ensures
        r == (a@ == b@),
{
    match (a, b) {
        (PathPart::Prefix(x), PathPart::Prefix(y)) => str_eq(x.as_str(), y.as_str()),
        (PathPart::Root(x), PathPart::Root(y)) => str_eq(x.as_str(), y.as_str()),
        (PathPart::Here, PathPart::Here) => true,
        (PathPart::Up, PathPart::Up) => true,
        (PathPart::Name(x), PathPart::Name(y)) => str_eq(x.as_str(), y.as_str()),
        _ => false,
    }
}

// ---------------------------------------------------------------------------
// The rules
// ---------------------------------------------------------------------------

/// The path without its `.` components.
pub open spec fn without_here(s: Seq<PartView>) -> Seq<PartView>
    decreases s.len(),
{
    if s.len() == 0 {
        seq![]
    } else if s.last() is Here {
        without_here(s.drop_last())
    } else {
        without_here(s.drop_last()).push(s.last())
    }
}

/// One step of lexical normalisation: `.` is dropped, `..` takes back the last name (and
/// nothing above a root or a prefix), anything else is appended.
pub open spec fn lexical_step(acc: Seq<PartView>, p: PartView) -> Seq<PartView> {
    match p {
        PartView::Here => acc,
        PartView::Up => if acc.len() > 0 && acc.last() is Name {
            acc.drop_last()
        } else {
            acc
        },
        _ => acc.push(p),
    }
}

/// The path normalised without looking at the file system.
pub open spec fn lexical(s: Seq<PartView>) -> Seq<PartView>
    decreases s.len(),
{
    if s.len() == 0 {
        seq![]
    } else {
        lexical_step(lexical(s.drop_last()), s.last())
    }
}

/// `base` joined with a relative path `p`: a path that starts with a prefix replaces
/// `base`; one that starts at a root keeps only the prefix of `base`.
pub open spec fn joined(base: Seq<PartView>, p: Seq<PartView>) -> Seq<PartView> {
    if p.len() > 0 && p[0] is Prefix {
        p
    } else if p.len() > 0 && p[0] is Root {
        if base.len() > 0 && base[0] is Prefix {
            seq![base[0]] + p
        } else {
            p
        }
    } else {
        base + p
    }
}

/// Whether a path has a `..` component.
pub open spec fn climbs(s: Seq<PartView>) -> bool {
    exists|i: int| 0 <= i < s.len() && s[i] is Up
}

/// Where the file a tool names lies, or why it is refused. `converted` is the path as
/// written, in its Windows form where that applies, split into components; `raw` is the
/// path exactly as written, split; each comes with whether it is absolute. Without its `.`
/// components `converted` is the path meant, unless nothing is left of it, in which case
/// `raw` is. An empty path is refused, as is one with a `..` component; otherwise an
/// absolute path is normalised, a relative one is joined to the workspace first, and the
/// result must lie inside the workspace.
pub open spec fn resolve_spec(
    filename: Seq<char>,
    converted: Seq<PartView>,
    converted_absolute: bool,
    raw: Seq<PartView>,
    raw_absolute: bool,
    workspace: Seq<PartView>,
) -> Result<Seq<PartView>, Seq<char>> {
    let kept = without_here(converted);
    let path = if kept.len() > 0 {
        kept
    } else {
        raw
    };
    let absolute = if kept.len() > 0 {
        converted_absolute
    } else {
        raw_absolute
    };
    if kept.len() == 0 && filename.len() == 0 {
        Err("tool filename cannot be empty"@)
    } else if climbs(path) {
        Err("tool path `"@ + filename + "` cannot contain parent directory segments"@)
    } else {
        let resolved = if absolute {
            lexical(path)
        } else {
            lexical(joined(workspace, path))
        };
        if workspace.is_prefix_of(resolved) {
            Ok(resolved)
        } else {
            Err("tool path `"@ + filename + "` resolves outside the workspace"@)
        }
    }
}

// ---------------------------------------------------------------------------
// Proofs
// ---------------------------------------------------------------------------

/// A normalised path has no `.` and no `..` component.
pub proof fn lemma_lexical_is_plain(s: Seq<PartView>)
    ensures
        forall|i: int| 0 <= i < lexical(s).len() ==> !(#[trigger] lexical(s)[i] is Up) && !(lexical(s)[i] is Here),
    decreases s.len(),
{
    if s.len() > 0 {
        lemma_lexical_is_plain(s.drop_last());
        let acc = lexical(s.drop_last());
        if s.last() is Up && acc.len() > 0 && acc.last() is Name {
            assert forall|i: int| 0 <= i < acc.drop_last().len() implies !(#[trigger] acc.drop_last()[i] is Up)
                && !(acc.drop_last()[i] is Here) by {
                assert(acc.drop_last()[i] == acc[i]);
            }
        } else if !(s.last() is Here) && !(s.last() is Up) {
            assert forall|i: int| 0 <= i < acc.push(s.last()).len() implies !(#[trigger] acc.push(
                s.last(),
            )[i] is Up) && !(acc.push(s.last())[i] is Here) by {
                if i < acc.len() {
                    assert(acc.push(s.last())[i] == acc[i]);
                }
            }
        }
    }
}

/// A tool's file, once resolved, lies inside the workspace and its path has no `.` and no
/// `..` component.
pub proof fn lemma_resolved_stays_in_workspace(
    filename: Seq<char>,
    converted: Seq<PartView>,
    converted_absolute: bool,
    raw: Seq<PartView>,
    raw_absolute: bool,
    workspace: Seq<PartView>,
)
    ensures
        resolve_spec(filename, converted, converted_absolute, raw, raw_absolute, workspace) matches Ok(p)
            ==> workspace.is_prefix_of(p) && forall|i: int| 0 <= i < p.len() ==> !(#[trigger] p[i] is Up) && !(
            p[i] is Here),
{
    let kept = without_here(converted);
    let path = if kept.len() > 0 {
        kept
    } else {
        raw
    };
    lemma_lexical_is_plain(path);
    lemma_lexical_is_plain(joined(workspace, path));
}

// ---------------------------------------------------------------------------
// The code
// ---------------------------------------------------------------------------

/// The path without its `.` components.
fn drop_here(parts: &Vec<PathPart>) -> (r: Vec<PathPart>)
    ensures
        part_views(r@) == without_here(part_views(parts@)),
{
    let ghost s = part_views(parts@);
    let mut r: Vec<PathPart> = Vec::new();
    let mut i: usize = 0;
    while i < parts.len()
        invariant
            s == part_views(parts@),
            i <= parts@.len(),
            part_views(r@) == without_here(s.take(i as int)),
        decreases parts@.len() - i,
    {
        proof {
            assert(s.take(i + 1).drop_last() =~= s.take(i as int));
            assert(s.take(i + 1).last() == parts@[i as int]@);
        }
        match &parts[i] {
            PathPart::Here => {},
            p => {
                let ghost before = r@;
                r.push(p.duplicate());
                proof {
                    assert(part_views(r@) =~= part_views(before).push(parts@[i as int]@));
                }
            },
        }
        i = i + 1;
    }
    proof {
        assert(s.take(parts@.len() as int) =~= s);
    }
    r
}

/// Whether the path has a `..` component.
fn has_up(parts: &Vec<PathPart>) -> (r: bool)
    ensures
        r == climbs(part_views(parts@)),
{
    let mut i: usize = 0;
    while i < parts.len()
        invariant
            i <= parts@.len(),
            forall|j: int| 0 <= j < i ==> !(parts@[j]@ is Up),
        decreases parts@.len() - i,
    {
        if let PathPart::Up = &parts[i] {
            proof {
                assert(part_views(parts@)[i as int] is Up);
            }
            return true;
        }
        i = i + 1;
    }
    proof {
        assert forall|j: int| 0 <= j < part_views(parts@).len() implies !(#[trigger] part_views(parts@)[j] is Up) by {
            assert(part_views(parts@)[j] == parts@[j]@);
        }
    }
    false
}

/// The path normalised without looking at the file system.
pub fn lexical_parts(parts: &Vec<PathPart>) -> (r: Vec<PathPart>)
    ensures
        part_views(r@) == lexical(part_views(parts@)),
{
    let ghost s = part_views(parts@);
    let mut r: Vec<PathPart> = Vec::new();
    let mut i: usize = 0;
    while i < parts.len()
        invariant
            s == part_views(parts@),
            i <= parts@.len(),
            part_views(r@) == lexical(s.take(i as int)),
        decreases parts@.len() - i,
    {
        proof {
            assert(s.take(i + 1).drop_last() =~= s.take(i as int));
            assert(s.take(i + 1).last() == parts@[i as int]@);
        }
        let ghost before = r@;
        match &parts[i] {
            PathPart::Here => {},
            PathPart::Up => {
                let n = r.len();
                if n > 0 {
                    if let PathPart::Name(_) = &r[n - 1] {
                        r.pop();
                        proof {
                            assert(part_views(r@) =~= part_views(before).drop_last());
                        }
                    }
                }
            },
            p => {
                r.push(p.duplicate());
                proof {
                    assert(part_views(r@) =~= part_views(before).push(parts@[i as int]@));
                }
            },
        }
        i = i + 1;
    }
    proof {
        assert(s.take(parts@.len() as int) =~= s);
    }
    r
}

/// Copies of the components `from..` of `parts`, after those already in `out`.
fn append_parts(out: &mut Vec<PathPart>, parts: &Vec<PathPart>, from: usize)
    requires
        from <= parts@.len(),
    ensures
        part_views(final(out)@) == part_views(old(out)@) + part_views(parts@).subrange(
            from as int,
            parts@.len() as int,
        ),
{
    let ghost start = part_views(out@);
    let mut i: usize = from;
    while i < parts.len()
        invariant
            from <= i <= parts@.len(),
            part_views(out@) == start + part_views(parts@).subrange(from as int, i as int),
        decreases parts@.len() - i,
    {
        let ghost before = part_views(out@);
        out.push(parts[i].duplicate());
        proof {
            assert(part_views(out@) =~= before.push(parts@[i as int]@));
            assert(part_views(parts@).subrange(from as int, i + 1) =~= part_views(parts@).subrange(
                from as int,
                i as int,
            ).push(parts@[i as int]@));
        }
        i = i + 1;
    }
}

/// A relative path joined to `base`.
fn join_parts(base: &Vec<PathPart>, path: &Vec<PathPart>) -> (r: Vec<PathPart>)
    ensures
        part_views(r@) == joined(part_views(base@), part_views(path@)),
{
    let mut r: Vec<PathPart> = Vec::new();
    let starts_with_prefix = path.len() > 0 && match &path[0] {
        PathPart::Prefix(_) => true,
        _ => false,
    };
    let starts_at_root = path.len() > 0 && match &path[0] {
        PathPart::Root(_) => true,
        _ => false,
    };
    if starts_with_prefix {
        append_parts(&mut r, path, 0);
    } else if starts_at_root {
        let base_prefix = base.len() > 0 && match &base[0] {
            PathPart::Prefix(_) => true,
            _ => false,
        };
        if base_prefix {
            r.push(base[0].duplicate());
        }
        append_parts(&mut r, path, 0);
    } else {
        append_parts(&mut r, base, 0);
        append_parts(&mut r, path, 0);
    }
    proof {
        assert(part_views(path@).subrange(0, path@.len() as int) =~= part_views(path@));
        assert(part_views(base@).subrange(0, base@.len() as int) =~= part_views(base@));
        if path@.len() > 0 {
            assert(part_views(path@)[0] == path@[0]@);
        }
        if base@.len() > 0 {
            assert(part_views(base@)[0] == base@[0]@);
            assert(part_views(seq![base@[0]]) =~= seq![base@[0]@]);
        }
        assert(part_views(Seq::<PathPart>::empty()) =~= Seq::<PartView>::empty());
    }
    r
}

/// Whether `path` starts with the components of `base`.
fn starts_with_parts(path: &Vec<PathPart>, base: &Vec<PathPart>) -> (r: bool)
    ensures
        r == part_views(base@).is_prefix_of(part_views(path@)),
{
    if base.len() > path.len() {
        return false;
    }
    let mut i: usize = 0;
    while i < base.len()
        invariant
            base@.len() <= path@.len(),
            i <= base@.len(),
            forall|j: int| 0 <= j < i ==> base@[j]@ == path@[j]@,
        decreases base@.len() - i,
    {
        if !same_part(&base[i], &path[i]) {
            proof {
                assert(part_views(base@)[i as int] != part_views(path@)[i as int]);
            }
            return false;
        }
        i = i + 1;
    }
    proof {
        assert(part_views(base@) =~= part_views(path@).take(base@.len() as int));
    }
    true
}

/// Where the file a tool names lies, given its path split into components both in its
/// Windows form and as written, whether each is absolute, and the workspace's components
/// (normalised).
pub fn resolve_parts(
    filename: &str,
    converted: &Vec<PathPart>,
    converted_absolute: bool,
    raw: &Vec<PathPart>,
    raw_absolute: bool,
    workspace: &Vec<PathPart>,
) -> (r: Result<Vec<PathPart>, String>)
    ensures
        match r {
            Ok(p) => resolve_spec(
                filename@,
                part_views(converted@),
                converted_absolute,
                part_views(raw@),
                raw_absolute,
                part_views(workspace@),
            ) == Ok::<Seq<PartView>, Seq<char>>(part_views(p@)),
            Err(e) => resolve_spec(
                filename@,
                part_views(converted@),
                converted_absolute,
                part_views(raw@),
                raw_absolute,
                part_views(workspace@),
            ) == Err::<Seq<PartView>, Seq<char>>(e@),
        },
{
    let kept = drop_here(converted);
    let use_kept = kept.len() > 0;
    if !use_kept && filename.unicode_len() == 0 {
        return Err("tool filename cannot be empty".to_owned());
    }
    let path = if use_kept {
        kept
    } else {
        let mut copy: Vec<PathPart> = Vec::new();
        append_parts(&mut copy, raw, 0);
        proof {
            assert(part_views(raw@).subrange(0, raw@.len() as int) =~= part_views(raw@));
            assert(part_views(Seq::<PathPart>::empty()) =~= Seq::<PartView>::empty());
        }
        copy
    };
    proof {
        if !use_kept {
            assert(filename@.len() != 0);
        }
    }
    if has_up(&path) {
        let mut e = "tool path `".to_owned();
        e.append(filename);
        e.append("` cannot contain parent directory segments");
        return Err(e);
    }
    let absolute = if use_kept {
        converted_absolute
    } else {
        raw_absolute
    };
    let resolved = if absolute {
        lexical_parts(&path)
    } else {
        let whole = join_parts(workspace, &path);
        lexical_parts(&whole)
    };
    if starts_with_parts(&resolved, workspace) {
        Ok(resolved)
    } else {
        let mut e = "tool path `".to_owned();
        e.append(filename);
        e.append("` resolves outside the workspace");
        Err(e)
    }
}

// ---------------------------------------------------------------------------
// Splitting paths
// ---------------------------------------------------------------------------

/// The components of a path, as `std::path::Path::components` splits it on this system.
/// How a path splits depends on the system (Windows knows prefixes and two separators), so
/// nothing is stated of the result.
#[verifier::external_body]
fn path_parts(path: &str) -> (r: Vec<PathPart>) {
    Path::new(path).components().map(|c| match c {
        Component::Prefix(p) => PathPart::Prefix(p.as_os_str().to_string_lossy().into_owned()),
        Component::RootDir => PathPart::Root(c.as_os_str().to_string_lossy().into_owned()),
        Component::CurDir => PathPart::Here,
        Component::ParentDir => PathPart::Up,
        Component::Normal(n) => PathPart::Name(n.to_string_lossy().into_owned()),
    }).collect()
}

/// Whether a path is absolute, as `std::path::Path::is_absolute` decides on this system
/// (it depends on the system, so nothing is stated of the result).
#[verifier::external_body]
fn path_is_absolute(path: &str) -> (r: bool) {
    Path::new(path).is_absolute()
}

/// The components of the workspace directory at `dir`, normalised: as the system splits
/// the path, with `.` dropped and `..` applied. Whatever the system splits the path into,
/// the result has no `.` and no `..` component.
pub fn workspace_root(dir: &str) -> (r: Vec<PathPart>)
    ensures
        forall|i: int| 0 <= i < r@.len() ==> !(#[trigger] r@[i]@ is Up) && !(r@[i]@ is Here),
{
    let parts = path_parts(dir);
    let r = lexical_parts(&parts);
    proof {
        lemma_lexical_is_plain(part_views(parts@));
        assert forall|i: int| 0 <= i < r@.len() implies !(#[trigger] r@[i]@ is Up) && !(r@[i]@ is Here) by {
            assert(part_views(r@)[i] == r@[i]@);
        }
    }
    r
}

/// Whether `r` is what `resolve_spec` gives for the file name `filename` and the workspace
/// `workspace` (normalised), for some split of the name into components, in its Windows
/// form and as written, and some answer to whether each is absolute: the split the system
/// makes.
pub open spec fn resolves_as(
    filename: Seq<char>,
    workspace: Seq<PartView>,
    r: Result<Seq<PartView>, Seq<char>>,
) -> bool {
    exists|converted: Seq<PartView>, converted_absolute: bool, raw: Seq<PartView>, raw_absolute: bool|
        #[trigger] resolve_spec(filename, converted, converted_absolute, raw, raw_absolute, lexical(workspace))
            == r
}

/// Where the file a tool names lies inside the workspace whose components are `workspace`;
/// `is_windows` says whether Unix-style drive paths are to be turned into Windows ones.
/// Whatever the system splits the file name into: an empty file name (and only an empty
/// one) is refused as empty; a path that is accepted lies inside the workspace (normalised)
/// and has no `.` and no `..` component; and any other refusal is one of the two other
/// errors of `resolve_spec`. Over the components the system splits the names into, the
/// result is exactly `resolve_spec`'s: a name with a `..` component is refused, an absolute
/// one is normalised, and a relative one is joined to the workspace and normalised.
pub fn resolve_tool_path(filename: &str, workspace: &Vec<PathPart>, is_windows: bool) -> (r: Result<
    Vec<PathPart>,
    String,
>)
    requires
        !is_windows || utf8_len(filename@) < 7 || is_char_boundary(filename@, 5),
    ensures
        match r {
            Ok(p) => lexical(part_views(workspace@)).is_prefix_of(part_views(p@)) && forall|i: int|
                0 <= i < p@.len() ==> !(#[trigger] p@[i]@ is Up) && !(p@[i]@ is Here),
            Err(e) => e@ == "tool filename cannot be empty"@ || e@ == "tool path `"@ + filename@
                + "` cannot contain parent directory segments"@ || e@ == "tool path `"@ + filename@
                + "` resolves outside the workspace"@,
        },
        (r matches Err(e) && e@ == "tool filename cannot be empty"@) <==> filename@.len() == 0,
        resolves_as(
            filename@,
            part_views(workspace@),
            match r {
                Ok(p) => Ok(part_views(p@)),
                Err(e) => Err(e@),
            },
        ),
{
    if filename.unicode_len() == 0 {
        let r = Err("tool filename cannot be empty".to_owned());
        proof {
            let none = Seq::<PartView>::empty();
            assert(without_here(none).len() == 0);
            assert(resolve_spec(filename@, none, false, none, false, lexical(part_views(workspace@)))
                == Err::<Seq<PartView>, Seq<char>>("tool filename cannot be empty"@));
        }
        return r;
    }
    let converted_text = convert_windows_unix_style_path(filename, is_windows);
    let converted = path_parts(converted_text.as_str());
    let converted_absolute = path_is_absolute(converted_text.as_str());
    let raw = path_parts(filename);
    let raw_absolute = path_is_absolute(filename);
    let workspace_parts = lexical_parts(workspace);
    let r = resolve_parts(filename, &converted, converted_absolute, &raw, raw_absolute, &workspace_parts);
    proof {
        lemma_resolved_stays_in_workspace(
            filename@,
            part_views(converted@),
            converted_absolute,
            part_views(raw@),
            raw_absolute,
            part_views(workspace_parts@),
        );
        reveal_strlit("tool filename cannot be empty");
        reveal_strlit("tool path `");
        if r is Err {
            let e = r->Err_0;
            if e@ != "tool filename cannot be empty"@ {
            } else {
                let pre = "tool path `"@;
                assert(e@ == pre + filename@ + "` cannot contain parent directory segments"@ || e@
                    == pre + filename@ + "` resolves outside the workspace"@);
                assert(e@[5] == pre[5]);
                assert(false);
            }
        }
        if r is Ok {
            let p = r->Ok_0;
            assert forall|i: int| 0 <= i < p@.len() implies !(#[trigger] p@[i]@ is Up) && !(p@[i]@ is Here) by {
                assert(part_views(p@)[i] == p@[i]@);
            }
        }
        assert(part_views(workspace_parts@) == lexical(part_views(workspace@)));
        assert(resolve_spec(
            filename@,
            part_views(converted@),
            converted_absolute,
            part_views(raw@),
            raw_absolute,
            lexical(part_views(workspace@)),
        ) == match r {
            Ok(p) => Ok::<Seq<PartView>, Seq<char>>(part_views(p@)),
            Err(e) => Err::<Seq<PartView>, Seq<char>>(e@),
        });
    }
    r
}

} // verus!
