//! File-system path handling for stored attachments: names made safe, paths normalized, and
//! the guard that keeps every stored file under its storage root. Paths are Unix paths.
use vstd::prelude::*;
use crate::text::{chars_of, int_decimal, lit, push_char, push_i64, push_str, push_u64, nat_digits};
use crate::plugin::types::{AttachmentPolicy, AttachmentStoreConfig, ProviderError, SendFailureMode};
use crate::plugin::checks::{allows, enforce_attachment_policy};

verus! {

/// A character that may stay in a stored file's name.
pub open spec fn safe_name_char(c: char) -> bool {
    ('a' <= c <= 'z') || ('A' <= c <= 'Z') || ('0' <= c <= '9') || c == '.' || c == '_' || c == '-'
}

/// What `sanitize_path_component` returns.
pub open spec fn sanitized_component(s: Seq<char>) -> Seq<char> {
    if s.len() == 0 {
        "unknown"@
    } else {
        s.map_values(|c: char| if safe_name_char(c) { c } else { '_' })
    }
}

/// Replaces every character other than ASCII letters, digits, `.`, `_` and `-` by `_`; an
/// empty name becomes `unknown`.
pub fn sanitize_path_component(input: &str) -> (r: String)
    ensures
        r@ == sanitized_component(input@),
{
    let v = chars_of(input);
    if v.len() == 0 {
        return lit("unknown");
    }
    let mut out = String::new();
    let mut i: usize = 0;
    while i < v.len()
        invariant
            v@ == input@,
            i <= v@.len(),
            out@ == v@.take(i as int).map_values(|c: char| if safe_name_char(c) { c } else { '_' }),
        decreases v.len() - i,
    {
        let c = v[i];
        let keep = ('a' <= c && c <= 'z') || ('A' <= c && c <= 'Z') || ('0' <= c && c <= '9')
            || c == '.' || c == '_' || c == '-';
        push_char(&mut out, if keep { c } else { '_' });
        assert(out@ =~= v@.take(i + 1).map_values(
            |c: char| if safe_name_char(c) { c } else { '_' },
        ));
        i = i + 1;
    }
    assert(v@.take(v@.len() as int) =~= v@);
    out
}

/// A sanitized name holds only safe characters and is never empty.
pub proof fn sanitized_component_is_safe(s: Seq<char>)
    ensures
        sanitized_component(s).len() > 0,
        forall|i: int|
            0 <= i < sanitized_component(s).len() ==> safe_name_char(
                #[trigger] sanitized_component(s)[i],
            ),
{
    reveal_strlit("unknown");
}

/// Sanitizing a sanitized name changes nothing.
pub proof fn sanitize_is_idempotent(s: Seq<char>)
    ensures
        sanitized_component(sanitized_component(s)) == sanitized_component(s),
{
    sanitized_component_is_safe(s);
    let t = sanitized_component(s);
    assert(t.map_values(|c: char| if safe_name_char(c) { c } else { '_' }) =~= t);
}

/// A component of a path, as `Path::components` yields it on Unix.
pub enum PathComp {
    Root,
    Cur,
    Parent,
    Normal(Seq<char>),
}

/// The pieces of `s` between slashes, from the first (before any slash) to the last.
pub open spec fn segments_from(s: Seq<char>, cur: Seq<char>, acc: Seq<Seq<char>>) -> Seq<
    Seq<char>,
>
    decreases s.len(),
{
    if s.len() == 0 {
        acc.push(cur)
    } else if s[0] == '/' {
        segments_from(s.drop_first(), Seq::empty(), acc.push(cur))
    } else {
        segments_from(s.drop_first(), cur.push(s[0]), acc)
    }
}

pub open spec fn segments(s: Seq<char>) -> Seq<Seq<char>> {
    segments_from(s, Seq::empty(), Seq::empty())
}

/// The components that a piece between slashes yields, away from the start of the path:
/// empty pieces and `.` vanish, `..` is the parent.
pub open spec fn piece_comps(p: Seq<char>) -> Seq<PathComp> {
    if p.len() == 0 || p == "."@ {
        seq![]
    } else if p == ".."@ {
        seq![PathComp::Parent]
    } else {
        seq![PathComp::Normal(p)]
    }
}

pub open spec fn pieces_comps(ps: Seq<Seq<char>>) -> Seq<PathComp>
    decreases ps.len(),
{
    if ps.len() == 0 {
        seq![]
    } else {
        pieces_comps(ps.drop_last()) + piece_comps(ps.last())
    }
}

pub open spec fn is_rooted(s: Seq<char>) -> bool {
    s.len() > 0 && s[0] == '/'
}

/// `Path::components` on Unix: a root when the path starts with `/`, a leading `.` of a
/// relative path, then one component for each other piece that is not empty or `.`.
pub open spec fn path_comps(s: Seq<char>) -> Seq<PathComp> {
    let ps = segments(s);
    let first = if is_rooted(s) {
        seq![PathComp::Root]
    } else if ps[0] == "."@ {
        seq![PathComp::Cur]
    } else {
        piece_comps(ps[0])
    };
    first + pieces_comps(ps.drop_first())
}

/// One step of `normalize_path`: `..` drops the last name, `.` is skipped, anything else is
/// appended.
pub open spec fn norm_step(out: Seq<PathComp>, c: PathComp) -> Seq<PathComp> {
    match c {
        PathComp::Parent => if out.len() > 0 && out.last() is Normal {
            out.drop_last()
        } else {
            out
        },
        PathComp::Cur => out,
        _ => out.push(c),
    }
}

pub open spec fn normalized_comps(cs: Seq<PathComp>) -> Seq<PathComp>
    decreases cs.len(),
{
    if cs.len() == 0 {
        seq![]
    } else {
        norm_step(normalized_comps(cs.drop_last()), cs.last())
    }
}

/// The text of a path built from components (as `PathBuf::push` writes it).
pub open spec fn render_from(cs: Seq<PathComp>, i: int, acc: Seq<char>) -> Seq<char>
    decreases cs.len() - i,
{
    if i >= cs.len() || i < 0 {
        acc
    } else {
        let next = match cs[i] {
            PathComp::Root => "/"@,
            PathComp::Cur => if acc.len() == 0 || acc.last() == '/' { "."@ } else { "/."@ },
            PathComp::Parent => if acc.len() == 0 || acc.last() == '/' { ".."@ } else { "/.."@ },
            PathComp::Normal(n) => if acc.len() == 0 || acc.last() == '/' { n } else { "/"@ + n },
        };
        render_from(cs, i + 1, acc + next)
    }
}

pub open spec fn render(cs: Seq<PathComp>) -> Seq<char> {
    render_from(cs, 0, Seq::empty())
}

/// `normalize_path`: the path with `.` and `..` resolved lexically.
pub open spec fn normalized_path(s: Seq<char>) -> Seq<char> {
    render(normalized_comps(path_comps(s)))
}

} // verus!

verus! {

/// A component of a path.
#[derive(Debug, Clone)]
pub enum PathComponent {
    Root,
    Cur,
    Parent,
    Normal(String),
}

impl View for PathComponent {
    type V = PathComp;

    open spec fn view(&self) -> PathComp {
        match self {
            PathComponent::Root => PathComp::Root,
            PathComponent::Cur => PathComp::Cur,
            PathComponent::Parent => PathComp::Parent,
            PathComponent::Normal(s) => PathComp::Normal(s@),
        }
    }
}

pub open spec fn comps_view(v: Seq<PathComponent>) -> Seq<PathComp> {
    v.map_values(|c: PathComponent| c@)
}

fn copy_component(c: &PathComponent) -> (r: PathComponent)
    ensures
        r@ == c@,
{
    match c {
        PathComponent::Root => PathComponent::Root,
        PathComponent::Cur => PathComponent::Cur,
        PathComponent::Parent => PathComponent::Parent,
        PathComponent::Normal(s) => PathComponent::Normal(s.clone()),
    }
}

fn split_segments(v: &Vec<char>) -> (r: Vec<Vec<char>>)
    ensures
        r.deep_view() == segments(v@),
{
    let mut acc: Vec<Vec<char>> = Vec::new();
    let mut cur: Vec<char> = Vec::new();
    let mut i: usize = 0;
    assert(v@.skip(0) =~= v@);
    assert(acc.deep_view() =~= Seq::<Seq<char>>::empty());
    while i < v.len()
        invariant
            i <= v@.len(),
            segments(v@) == segments_from(v@.skip(i as int), cur@, acc.deep_view()),
        decreases v.len() - i,
    {
        assert(v@.skip(i as int).drop_first() =~= v@.skip(i + 1));
        assert(v@.skip(i as int)[0] == v@[i as int]);
        if v[i] == '/' {
            let ghost before = acc.deep_view();
            let ghost cv = cur@;
            assert(cur.deep_view() =~= cv);
            acc.push(cur);
            cur = Vec::new();
            assert(acc.deep_view() =~= before.push(cv));
            assert(cur@ =~= Seq::<char>::empty());
        } else {
            cur.push(v[i]);
        }
        i = i + 1;
    }
    assert(v@.skip(i as int) =~= Seq::<char>::empty());
    let ghost before = acc.deep_view();
    let ghost cv = cur@;
    assert(cur.deep_view() =~= cv);
    acc.push(cur);
    assert(acc.deep_view() =~= before.push(cv));
    acc
}

} // verus!

verus! {

proof fn lemma_segments_nonempty(s: Seq<char>, cur: Seq<char>, acc: Seq<Seq<char>>)
    ensures
        segments_from(s, cur, acc).len() > acc.len(),
    decreases s.len(),
{
    if s.len() > 0 {
        if s[0] == '/' {
            lemma_segments_nonempty(s.drop_first(), Seq::empty(), acc.push(cur));
        } else {
            lemma_segments_nonempty(s.drop_first(), cur.push(s[0]), acc);
        }
    }
}

fn push_piece(p: &Vec<char>, out: &mut Vec<PathComponent>)
    ensures
        comps_view(final(out)@) == comps_view(old(out)@) + piece_comps(p@),
{
    proof {
        reveal_strlit(".");
        reveal_strlit("..");
    }
    let ghost before = comps_view(out@);
    if p.len() == 0 {
        assert(piece_comps(p@) =~= seq![]);
        assert(comps_view(out@) =~= before + piece_comps(p@));
    } else if p.len() == 1 && p[0] == '.' {
        assert(p@ =~= "."@);
        assert(comps_view(out@) =~= before + piece_comps(p@));
    } else if p.len() == 2 && p[0] == '.' && p[1] == '.' {
        assert(p@ =~= ".."@);
        out.push(PathComponent::Parent);
        assert(comps_view(out@) =~= before + piece_comps(p@));
    } else {
        assert(p@ != "."@) by {
            if p@ == "."@ {
                assert(p@.len() == 1 && p@[0] == '.');
            }
        }
        assert(p@ != ".."@) by {
            if p@ == ".."@ {
                assert(p@.len() == 2 && p@[0] == '.' && p@[1] == '.');
            }
        }
        let name = string_of_chars(p);
        out.push(PathComponent::Normal(name));
        assert(comps_view(out@) =~= before + piece_comps(p@));
    }
}

fn string_of_chars(p: &Vec<char>) -> (s: String)
    ensures
        s@ == p@,
{
    crate::text::string_of(p)
}

/// `path.components()`.
pub fn path_components(s: &str) -> (r: Vec<PathComponent>)
    ensures
        comps_view(r@) == path_comps(s@),
{
    proof {
        reveal_strlit(".");
    }
    let v = chars_of(s);
    let ps = split_segments(&v);
    proof {
        lemma_segments_nonempty(v@, Seq::empty(), Seq::empty());
    }
    assert(ps@.len() == ps.deep_view().len());
    let mut out: Vec<PathComponent> = Vec::new();
    let ghost first: Seq<PathComp>;
    if v.len() > 0 && v[0] == '/' {
        out.push(PathComponent::Root);
        proof {
            first = seq![PathComp::Root];
            assert(comps_view(out@) =~= first);
        }
    } else {
        let p0 = &ps[0];
        assert(p0@ == ps.deep_view()[0]);
        if p0.len() == 1 && p0[0] == '.' {
            out.push(PathComponent::Cur);
            proof {
                assert(p0@ =~= "."@);
                first = seq![PathComp::Cur];
                assert(comps_view(out@) =~= first);
            }
        } else {
            assert(p0@ != "."@) by {
                if p0@ == "."@ {
                    assert(p0@.len() == 1 && p0@[0] == '.');
                }
            }
            push_piece(p0, &mut out);
            proof {
                first = piece_comps(p0@);
                assert(comps_view(out@) =~= first);
            }
        }
    }
    let ghost rest = segments(v@).drop_first();
    let mut j: usize = 1;
    assert(rest.take(0) =~= Seq::<Seq<char>>::empty());
    while j < ps.len()
        invariant
            1 <= j <= ps@.len(),
            ps.deep_view() == segments(v@),
            rest == segments(v@).drop_first(),
            comps_view(out@) == first + pieces_comps(rest.take(j - 1)),
        decreases ps.len() - j,
    {
        let ghost before = comps_view(out@);
        assert(ps[j as int]@ == ps.deep_view()[j as int]);
        push_piece(&ps[j], &mut out);
        assert(rest.take(j as int).drop_last() =~= rest.take(j - 1));
        assert(rest.take(j as int).last() == ps.deep_view()[j as int]);
        assert(comps_view(out@) =~= first + pieces_comps(rest.take(j as int)));
        j = j + 1;
    }
    assert(rest.take(j - 1) =~= rest);
    out
}

} // verus!

verus! {

fn normalize_components(cs: &Vec<PathComponent>) -> (r: Vec<PathComponent>)
    ensures
        comps_view(r@) == normalized_comps(comps_view(cs@)),
{
    let mut out: Vec<PathComponent> = Vec::new();
    let mut i: usize = 0;
    assert(comps_view(cs@).take(0) =~= Seq::<PathComp>::empty());
    assert(comps_view(out@) =~= Seq::<PathComp>::empty());
    while i < cs.len()
        invariant
            i <= cs@.len(),
            comps_view(out@) == normalized_comps(comps_view(cs@).take(i as int)),
        decreases cs.len() - i,
    {
        let ghost before = comps_view(out@);
        let ghost t = comps_view(cs@).take(i + 1);
        assert(t.drop_last() =~= comps_view(cs@).take(i as int));
        assert(t.last() == cs@[i as int]@);
        match &cs[i] {
            PathComponent::Parent => {
                let n = out.len();
                if n > 0 {
                    let is_name = match &out[n - 1] {
                        PathComponent::Normal(_) => true,
                        _ => false,
                    };
                    if is_name {
                        out.pop();
                        assert(comps_view(out@) =~= before.drop_last());
                    }
                }
            },
            PathComponent::Cur => {},
            c => {
                out.push(copy_component(c));
                assert(comps_view(out@) =~= before.push(cs@[i as int]@));
            },
        }
        i = i + 1;
    }
    assert(comps_view(cs@).take(i as int) =~= comps_view(cs@));
    out
}

/// Appends `s` and reports whether the text then ends in a separator (or is still empty).
fn append_tracking(acc: &mut String, at_sep: bool, s: &str) -> (r: bool)
    requires
        at_sep == (old(acc)@.len() == 0 || old(acc)@.last() == '/'),
    ensures
        final(acc)@ == old(acc)@ + s@,
        r == (final(acc)@.len() == 0 || final(acc)@.last() == '/'),
{
    let v = chars_of(s);
    push_str(acc, s);
    if v.len() == 0 {
        assert(final(acc)@ =~= old(acc)@);
        at_sep
    } else {
        assert(final(acc)@.last() == v@.last());
        v[v.len() - 1] == '/'
    }
}

/// The text of a path made of these components.
fn render_components(cs: &Vec<PathComponent>) -> (r: String)
    ensures
        r@ == render(comps_view(cs@)),
{
    let mut acc = String::new();
    let mut at_sep = true;
    let mut i: usize = 0;
    while i < cs.len()
        invariant
            i <= cs@.len(),
            at_sep == (acc@.len() == 0 || acc@.last() == '/'),
            render(comps_view(cs@)) == render_from(comps_view(cs@), i as int, acc@),
        decreases cs.len() - i,
    {
        let ghost before = acc@;
        assert(comps_view(cs@)[i as int] == cs@[i as int]@);
        match &cs[i] {
            PathComponent::Root => {
                at_sep = append_tracking(&mut acc, at_sep, "/");
            },
            PathComponent::Cur => {
                at_sep = if at_sep {
                    append_tracking(&mut acc, at_sep, ".")
                } else {
                    append_tracking(&mut acc, at_sep, "/.")
                };
            },
            PathComponent::Parent => {
                at_sep = if at_sep {
                    append_tracking(&mut acc, at_sep, "..")
                } else {
                    append_tracking(&mut acc, at_sep, "/..")
                };
            },
            PathComponent::Normal(n) => {
                if at_sep {
                    at_sep = append_tracking(&mut acc, at_sep, n.as_str());
                } else {
                    let mut piece = lit("/");
                    push_str(&mut piece, n.as_str());
                    at_sep = append_tracking(&mut acc, at_sep, piece.as_str());
                }
            },
        }
        i = i + 1;
    }
    acc
}

/// Resolves `.` and `..` lexically: `.` is dropped, and `..` removes the name before it
/// (at the root, or with no name before it, it is dropped).
pub fn normalize_path(path: &str) -> (r: String)
    ensures
        r@ == normalized_path(path@),
{
    let cs = path_components(path);
    let n = normalize_components(&cs);
    render_components(&n)
}

/// No `.` or `..` component is left after normalization, and a root can only come first.
pub proof fn normalized_has_no_dots(cs: Seq<PathComp>)
    ensures
        forall|i: int|
            0 <= i < normalized_comps(cs).len() ==> !(#[trigger] normalized_comps(cs)[i] is Cur)
                && !(normalized_comps(cs)[i] is Parent),
    decreases cs.len(),
{
    if cs.len() > 0 {
        normalized_has_no_dots(cs.drop_last());
    }
}

/// The components of `root` joined with `candidate` (`root.join(candidate)`): a rooted
/// candidate replaces the root. A leading `.` of the candidate is kept; it makes no
/// difference once the path is normalized.
pub open spec fn joined_comps(root: Seq<char>, candidate: Seq<char>) -> Seq<PathComp> {
    if is_rooted(candidate) {
        path_comps(candidate)
    } else {
        path_comps(root) + path_comps(candidate)
    }
}

/// `p` is a prefix of `q`, component by component (`Path::starts_with`).
pub open spec fn comps_prefix(p: Seq<PathComp>, q: Seq<PathComp>) -> bool {
    p.len() <= q.len() && q.take(p.len() as int) == p
}

fn same_component(a: &PathComponent, b: &PathComponent) -> (r: bool)
    ensures
        r == (a@ == b@),
{
    match a {
        PathComponent::Root => match b {
            PathComponent::Root => true,
            _ => false,
        },
        PathComponent::Cur => match b {
            PathComponent::Cur => true,
            _ => false,
        },
        PathComponent::Parent => match b {
            PathComponent::Parent => true,
            _ => false,
        },
        PathComponent::Normal(x) => match b {
            PathComponent::Normal(y) => {
                let e = *x == *y;
                e
            },
            _ => false,
        },
    }
}

fn has_prefix(p: &Vec<PathComponent>, q: &Vec<PathComponent>) -> (r: bool)
    ensures
        r == comps_prefix(comps_view(p@), comps_view(q@)),
{
    if p.len() > q.len() {
        return false;
    }
    let mut i: usize = 0;
    while i < p.len()
        invariant
            p@.len() <= q@.len(),
            i <= p@.len(),
            forall|j: int| 0 <= j < i ==> p@[j]@ == q@[j]@,
        decreases p.len() - i,
    {
        if !same_component(&p[i], &q[i]) {
            assert(comps_view(q@).take(p@.len() as int)[i as int] != comps_view(p@)[i as int]);
            return false;
        }
        i = i + 1;
    }
    assert(comps_view(q@).take(p@.len() as int) =~= comps_view(p@));
    true
}

fn append_components(dst: &mut Vec<PathComponent>, src: &Vec<PathComponent>)
    ensures
        comps_view(final(dst)@) == comps_view(old(dst)@) + comps_view(src@),
{
    let ghost start = comps_view(dst@);
    let mut i: usize = 0;
    assert(comps_view(dst@) =~= start + comps_view(src@).take(0));
    while i < src.len()
        invariant
            i <= src@.len(),
            comps_view(dst@) == start + comps_view(src@).take(i as int),
        decreases src.len() - i,
    {
        let ghost before = comps_view(dst@);
        let c = copy_component(&src[i]);
        dst.push(c);
        assert(comps_view(src@)[i as int] == src@[i as int]@);
        assert(comps_view(dst@) =~= before.push(src@[i as int]@));
        assert(comps_view(src@).take(i + 1) =~= comps_view(src@).take(i as int).push(
            comps_view(src@)[i as int],
        ));
        assert(comps_view(dst@) =~= start + comps_view(src@).take(i + 1));
        i = i + 1;
    }
    assert(comps_view(src@).take(src@.len() as int) =~= comps_view(src@));
}

/// The path that `safe_resolve_under_root` resolves `candidate` to, under the storage root
/// `root_abs` (the root as the file system resolves it).
pub open spec fn resolved_comps(root_abs: Seq<char>, candidate: Seq<char>) -> Seq<PathComp> {
    normalized_comps(joined_comps(root_abs, candidate))
}

/// Resolves `candidate` against the storage root `root_abs` (the root made absolute by the
/// file system, or the root as configured where that fails) and refuses any result that does
/// not lie under it.
pub fn safe_resolve_under_root(root_abs: &str, candidate: &str) -> (r: Result<String, ProviderError>)
    ensures
        comps_prefix(path_comps(root_abs@), resolved_comps(root_abs@, candidate@)) ==> r is Ok
            && r->Ok_0@ == render(resolved_comps(root_abs@, candidate@)),
        !comps_prefix(path_comps(root_abs@), resolved_comps(root_abs@, candidate@)) ==> r is Err
            && r->Err_0.mode == SendFailureMode::Provider && r->Err_0.message@
            == "attachment path escapes storage root"@ && r->Err_0.debug_message@ == "root="@
            + root_abs@ + " candidate="@ + render(resolved_comps(root_abs@, candidate@)),
{
    let root = path_components(root_abs);
    let cand = path_components(candidate);
    let rooted = {
        let v = chars_of(candidate);
        v.len() > 0 && v[0] == '/'
    };
    let joined = if rooted {
        cand
    } else {
        let mut j: Vec<PathComponent> = Vec::new();
        append_components(&mut j, &root);
        append_components(&mut j, &cand);
        assert(comps_view(j@) =~= comps_view(root@) + comps_view(cand@));
        j
    };
    let normalized = normalize_components(&joined);
    let shown = render_components(&normalized);
    if !has_prefix(&root, &normalized) {
        let mut d = lit("root=");
        push_str(&mut d, root_abs);
        push_str(&mut d, " candidate=");
        push_str(&mut d, shown.as_str());
        return Err(
            ProviderError {
                mode: SendFailureMode::Provider,
                message: lit("attachment path escapes storage root"),
                debug_message: d,
            },
        );
    }
    Ok(shown)
}

/// An accepted attachment path lies under the storage root: its components start with the
/// root's, and it holds no `.` or `..`.
pub proof fn resolved_path_stays_under_root(root_abs: Seq<char>, candidate: Seq<char>)
    requires
        comps_prefix(path_comps(root_abs), resolved_comps(root_abs, candidate)),
    ensures
        resolved_comps(root_abs, candidate).take(path_comps(root_abs).len() as int) == path_comps(
            root_abs,
        ),
        forall|i: int|
            0 <= i < resolved_comps(root_abs, candidate).len() ==> !(
            #[trigger] resolved_comps(root_abs, candidate)[i] is Parent) && !(resolved_comps(
                root_abs,
                candidate,
            )[i] is Cur),
{
    normalized_has_no_dots(joined_comps(root_abs, candidate));
}

} // verus!

verus! {

/// `PathBuf::push` on Unix: a rooted `b` replaces `a`; otherwise `b` is appended after a
/// separator, unless `a` is empty or already ends in one.
pub open spec fn path_join(a: Seq<char>, b: Seq<char>) -> Seq<char> {
    if is_rooted(b) {
        b
    } else if a.len() == 0 || a.last() == '/' {
        a + b
    } else {
        a + "/"@ + b
    }
}

pub fn join_path(a: &str, b: &str) -> (r: String)
    ensures
        r@ == path_join(a@, b@),
{
    let av = chars_of(a);
    let bv = chars_of(b);
    if bv.len() > 0 && bv[0] == '/' {
        return lit(b);
    }
    let mut s = lit(a);
    if !(av.len() == 0 || av[av.len() - 1] == '/') {
        push_str(&mut s, "/");
    }
    push_str(&mut s, b);
    s
}

/// Where a received attachment is stored: its directory, and the file in it.
#[derive(Debug, Clone)]
pub struct AttachmentTarget {
    pub dir: String,
    pub file: String,
}

/// The directory for a message's attachments: `<root>/<account>/<message id, sanitized>`.
pub open spec fn attachment_dir(root: Seq<char>, account_id: int, message_id: Seq<char>) -> Seq<
    char,
> {
    path_join(path_join(root, int_decimal(account_id)), sanitized_component(message_id))
}

/// The file of one attachment: `<dir>/<now>-<index>-<file name, sanitized>`.
pub open spec fn attachment_file(
    dir: Seq<char>,
    now_ts: int,
    index: nat,
    filename: Option<Seq<char>>,
) -> Seq<char> {
    let name = match filename {
        Some(f) => f,
        None => "attachment.bin"@,
    };
    path_join(dir, int_decimal(now_ts) + "-"@ + nat_digits(index) + "-"@ + sanitized_component(name))
}

pub open spec fn opt_view(o: Option<&str>) -> Option<Seq<char>> {
    match o {
        Some(s) => Some(s@),
        None => None,
    }
}

/// Where to store a received attachment, or `None` when no enabled store is configured or
/// the policy refuses the attachment (its content type, `application/octet-stream` when
/// unknown, or its size). The caller creates the directory, resolves the file under the
/// store's root with `safe_resolve_under_root`, and writes it.
pub fn plan_attachment_storage(
    store: Option<&AttachmentStoreConfig>,
    policy: &AttachmentPolicy,
    account_id: i64,
    message_id: &str,
    index: usize,
    filename: Option<&str>,
    content_type: Option<&str>,
    size: usize,
    now_ts: i64,
) -> (r: Option<AttachmentTarget>)
    ensures
        r is Some <==> (store is Some && store->0.enabled && size <= policy.max_size_bytes
            && allows(
            *policy,
            match content_type {
                Some(c) => c@,
                None => "application/octet-stream"@,
            },
        )),
        r is Some ==> r->0.dir@ == attachment_dir(store->0.dir@, account_id as int, message_id@)
            && r->0.file@ == attachment_file(
            r->0.dir@,
            now_ts as int,
            index as nat,
            opt_view(filename),
        ),
{
    let cfg = match store {
        Some(c) => c,
        None => return None,
    };
    if !cfg.enabled {
        return None;
    }
    let ct = match content_type {
        Some(c) => c,
        None => "application/octet-stream",
    };
    if enforce_attachment_policy(policy, ct, size).is_err() {
        return None;
    }
    let mut account = String::new();
    push_i64(&mut account, account_id);
    let acc_dir = join_path(cfg.dir.as_str(), account.as_str());
    let safe_id = sanitize_path_component(message_id);
    let dir = join_path(acc_dir.as_str(), safe_id.as_str());
    let name = match filename {
        Some(f) => f,
        None => "attachment.bin",
    };
    let safe_name = sanitize_path_component(name);
    let mut leaf = String::new();
    push_i64(&mut leaf, now_ts);
    push_str(&mut leaf, "-");
    push_u64(&mut leaf, index as u64);
    push_str(&mut leaf, "-");
    push_str(&mut leaf, safe_name.as_str());
    let file = join_path(dir.as_str(), leaf.as_str());
    Some(AttachmentTarget { dir, file })
}

} // verus!

verus! {

/// A name that a path component can hold after normalization: not empty, not `.` or `..`, and
/// without a slash.
pub open spec fn plain_name(n: Seq<char>) -> bool {
    &&& n.len() > 0
    &&& n != "."@
    &&& n != ".."@
    &&& forall|j: int| 0 <= j < n.len() ==> n[j] != '/'
}

/// Components as normalization leaves them: a root can only come first, and every other
/// component is a plain name.
pub open spec fn clean_comps(cs: Seq<PathComp>) -> bool {
    forall|i: int|
        0 <= i < cs.len() ==> match #[trigger] cs[i] {
            PathComp::Root => i == 0,
            PathComp::Normal(n) => plain_name(n),
            _ => false,
        }
}

/// Names, each after a slash.
pub open spec fn slash_each(ns: Seq<Seq<char>>) -> Seq<char>
    decreases ns.len(),
{
    if ns.len() == 0 {
        Seq::empty()
    } else {
        "/"@ + ns[0] + slash_each(ns.drop_first())
    }
}

/// The names of plain components.
pub open spec fn comp_names(cs: Seq<PathComp>) -> Seq<Seq<char>> {
    cs.map_values(|c: PathComp| match c {
        PathComp::Normal(n) => n,
        _ => Seq::empty(),
    })
}

proof fn lemma_segments_skip_name(x: Seq<char>, rest: Seq<char>, cur: Seq<char>, acc: Seq<Seq<char>>)
    requires
        forall|j: int| 0 <= j < x.len() ==> x[j] != '/',
    ensures
        segments_from(x + rest, cur, acc) == segments_from(rest, cur + x, acc),
    decreases x.len(),
{
    if x.len() > 0 {
        assert((x + rest)[0] == x[0]);
        assert((x + rest).drop_first() =~= x.drop_first() + rest);
        lemma_segments_skip_name(x.drop_first(), rest, cur.push(x[0]), acc);
        assert(cur.push(x[0]) + x.drop_first() =~= cur + x);
    } else {
        assert(x + rest =~= rest);
        assert(cur + x =~= cur);
    }
}

proof fn lemma_segments_slash_each(ns: Seq<Seq<char>>, cur: Seq<char>, acc: Seq<Seq<char>>)
    requires
        forall|i: int| 0 <= i < ns.len() ==> plain_name(#[trigger] ns[i]),
    ensures
        segments_from(slash_each(ns), cur, acc) == acc.push(cur) + ns,
    decreases ns.len(),
{
    reveal_strlit("/");
    if ns.len() == 0 {
        assert(acc.push(cur) + ns =~= acc.push(cur));
    } else {
        let s = slash_each(ns);
        let rest = slash_each(ns.drop_first());
        assert(s[0] == '/');
        assert(s.drop_first() =~= ns[0] + rest);
        assert(plain_name(ns[0]));
        lemma_segments_skip_name(ns[0], rest, Seq::empty(), acc.push(cur));
        assert(Seq::<char>::empty() + ns[0] =~= ns[0]);
        assert forall|i: int| 0 <= i < ns.drop_first().len() implies plain_name(#[trigger] ns.drop_first()[i]) by {
            assert(ns.drop_first()[i] == ns[i + 1]);
        }
        lemma_segments_slash_each(ns.drop_first(), ns[0], acc.push(cur));
        assert(acc.push(cur).push(ns[0]) + ns.drop_first() =~= acc.push(cur) + ns);
    }
}


/// Plain names become their components.
pub open spec fn normals(ns: Seq<Seq<char>>) -> Seq<PathComp> {
    ns.map_values(|n: Seq<char>| PathComp::Normal(n))
}

proof fn lemma_pieces_of_plain_names(ns: Seq<Seq<char>>)
    requires
        forall|i: int| 0 <= i < ns.len() ==> plain_name(#[trigger] ns[i]),
    ensures
        pieces_comps(ns) == normals(ns),
    decreases ns.len(),
{
    if ns.len() > 0 {
        assert(plain_name(ns.last()));
        assert forall|i: int| 0 <= i < ns.drop_last().len() implies plain_name(#[trigger] ns.drop_last()[i]) by {
            assert(ns.drop_last()[i] == ns[i]);
        }
        lemma_pieces_of_plain_names(ns.drop_last());
        assert(piece_comps(ns.last()) == seq![PathComp::Normal(ns.last())]);
        assert(normals(ns) =~= normals(ns.drop_last()) + seq![PathComp::Normal(ns.last())]);
    } else {
        assert(normals(ns) =~= Seq::<PathComp>::empty());
    }
}

/// Components from `i` on are plain names.
pub open spec fn plain_from(cs: Seq<PathComp>, i: int) -> bool {
    forall|k: int| i <= k < cs.len() ==> (#[trigger] cs[k] matches PathComp::Normal(n) && plain_name(n))
}

proof fn lemma_render_after_name(cs: Seq<PathComp>, i: int, acc: Seq<char>)
    requires
        0 <= i <= cs.len(),
        plain_from(cs, i),
        acc.len() > 0,
        acc.last() != '/',
    ensures
        render_from(cs, i, acc) == acc + slash_each(comp_names(cs.subrange(i, cs.len() as int))),
    decreases cs.len() - i,
{
    reveal_strlit("/");
    let names = comp_names(cs.subrange(i, cs.len() as int));
    if i < cs.len() {
        let n = cs[i]->Normal_0;
        assert(cs[i] matches PathComp::Normal(m) && plain_name(m));
        let acc2 = acc + ("/"@ + n);
        assert(acc2.last() == n.last());
        lemma_render_after_name(cs, i + 1, acc2);
        assert(names[0] == n);
        assert(names.drop_first() =~= comp_names(cs.subrange(i + 1, cs.len() as int)));
        assert(acc2 + slash_each(names.drop_first()) =~= acc + slash_each(names));
    } else {
        assert(names =~= Seq::<Seq<char>>::empty());
        assert(acc + slash_each(names) =~= acc);
    }
}

proof fn lemma_render_at_name(cs: Seq<PathComp>, i: int, acc: Seq<char>)
    requires
        0 <= i < cs.len(),
        plain_from(cs, i),
        acc.len() == 0 || acc.last() == '/',
    ensures
        render_from(cs, i, acc) == acc + slash_each(comp_names(cs.subrange(i, cs.len() as int))).drop_first(),
{
    reveal_strlit("/");
    let n = cs[i]->Normal_0;
    assert(cs[i] matches PathComp::Normal(m) && plain_name(m));
    let names = comp_names(cs.subrange(i, cs.len() as int));
    assert(names[0] == n);
    assert(names.drop_first() =~= comp_names(cs.subrange(i + 1, cs.len() as int)));
    lemma_render_after_name(cs, i + 1, acc + n);
    assert(slash_each(names).drop_first() =~= n + slash_each(names.drop_first()));
    assert(acc + n + slash_each(names.drop_first()) =~= acc + slash_each(names).drop_first());
}


/// Rendering clean components and reading the path back gives the same components.
proof fn lemma_clean_round_trip(cs: Seq<PathComp>)
    requires
        clean_comps(cs),
    ensures
        path_comps(render(cs)) == cs,
        cs.len() > 0 && cs[0] is Root ==> is_rooted(render(cs)),
{
    reveal_strlit("/");
    reveal_strlit(".");
    reveal_strlit("..");
    if cs.len() == 0 {
        assert(render(cs) =~= Seq::<char>::empty());
        assert(segments(render(cs)) =~= seq![Seq::<char>::empty()]);
        assert(path_comps(render(cs)) =~= cs);
    } else if cs[0] is Root {
        let names = comp_names(cs.subrange(1, cs.len() as int));
        assert forall|k: int| 1 <= k < cs.len() implies (#[trigger] cs[k] matches PathComp::Normal(n) && plain_name(n)) by {
            assert(clean_comps(cs));
        }
        assert(plain_from(cs, 1));
        assert forall|i: int| 0 <= i < names.len() implies plain_name(#[trigger] names[i]) by {
            assert(cs[i + 1] matches PathComp::Normal(n) && plain_name(n));
        }
        let r = render(cs);
        assert(Seq::<char>::empty() + "/"@ =~= "/"@);
        assert(r == render_from(cs, 1, "/"@));
        if cs.len() == 1 {
            assert(r == "/"@);
            let e = Seq::<char>::empty();
            assert(r.drop_first() =~= e);
            assert(segments_from(r, e, Seq::empty()) == segments_from(e, e, seq![e]));
            assert(segments_from(e, e, seq![e]) == seq![e].push(e));
            let ps = segments(r);
            assert(ps =~= seq![e, e]);
            assert(ps.drop_first() =~= seq![e]);
            assert(seq![e].drop_last() =~= Seq::<Seq<char>>::empty());
            assert(seq![e].last() == e);
            assert(piece_comps(e) =~= Seq::<PathComp>::empty());
            assert(pieces_comps(Seq::<Seq<char>>::empty()) =~= Seq::<PathComp>::empty());
            assert(pieces_comps(seq![e]) =~= Seq::<PathComp>::empty());
            assert(path_comps(r) =~= cs);
        } else {
            lemma_render_at_name(cs, 1, "/"@);
            assert(names.len() > 0);
            assert(slash_each(names)[0] == '/');
            assert(r =~= slash_each(names));
            lemma_segments_slash_each(names, Seq::empty(), Seq::empty());
            let ps = segments(r);
            assert(ps =~= seq![Seq::<char>::empty()] + names);
            assert(is_rooted(r));
            assert(ps.drop_first() =~= names);
            lemma_pieces_of_plain_names(names);
            assert(normals(names) =~= cs.drop_first());
            assert(path_comps(r) =~= cs);
        }
    } else {
        let names = comp_names(cs);
        assert forall|k: int| 0 <= k < cs.len() implies (#[trigger] cs[k] matches PathComp::Normal(n) && plain_name(n)) by {
            assert(clean_comps(cs));
        }
        assert(plain_from(cs, 0));
        assert forall|i: int| 0 <= i < names.len() implies plain_name(#[trigger] names[i]) by {
            assert(cs[i] matches PathComp::Normal(n) && plain_name(n));
        }
        lemma_render_at_name(cs, 0, Seq::empty());
        assert(cs.subrange(0, cs.len() as int) =~= cs);
        let r = render(cs);
        assert(r =~= names[0] + slash_each(names.drop_first()));
        lemma_segments_skip_name(names[0], slash_each(names.drop_first()), Seq::empty(), Seq::empty());
        assert forall|i: int| 0 <= i < names.drop_first().len() implies plain_name(#[trigger] names.drop_first()[i]) by {
            assert(names.drop_first()[i] == names[i + 1]);
        }
        lemma_segments_slash_each(names.drop_first(), names[0], Seq::empty());
        let ps = segments(r);
        assert(Seq::<char>::empty() + names[0] =~= names[0]);
        assert(ps =~= names);
        assert(r[0] == names[0][0]);
        assert(!is_rooted(r));
        assert(piece_comps(names[0]) == seq![PathComp::Normal(names[0])]);
        lemma_pieces_of_plain_names(names.drop_first());
        assert(normals(names.drop_first()) =~= cs.drop_first());
        assert(path_comps(r) =~= cs);
    }
}


/// Components such as `path_comps` yields: a root only first, and names that are plain.
pub open spec fn loose_comps(cs: Seq<PathComp>) -> bool {
    forall|i: int|
        0 <= i < cs.len() ==> match #[trigger] cs[i] {
            PathComp::Root => i == 0,
            PathComp::Cur => true,
            PathComp::Parent => true,
            PathComp::Normal(n) => plain_name(n),
        }
}

proof fn lemma_segments_no_slash(s: Seq<char>, cur: Seq<char>, acc: Seq<Seq<char>>)
    requires
        forall|j: int| 0 <= j < cur.len() ==> cur[j] != '/',
        forall|i: int, j: int| 0 <= i < acc.len() && 0 <= j < acc[i].len() ==> acc[i][j] != '/',
    ensures
        forall|i: int, j: int|
            0 <= i < segments_from(s, cur, acc).len() && 0 <= j < segments_from(s, cur, acc)[i].len()
                ==> segments_from(s, cur, acc)[i][j] != '/',
    decreases s.len(),
{
    if s.len() == 0 {
        assert forall|i: int, j: int|
            0 <= i < acc.push(cur).len() && 0 <= j < acc.push(cur)[i].len() implies acc.push(cur)[i][j] != '/' by {
            if i < acc.len() {
                assert(acc.push(cur)[i] == acc[i]);
            }
        }
        assert(segments_from(s, cur, acc) == acc.push(cur));
    } else if s[0] == '/' {
        let a2 = acc.push(cur);
        assert forall|i: int, j: int| 0 <= i < a2.len() && 0 <= j < a2[i].len() implies a2[i][j] != '/' by {
            if i < acc.len() {
                assert(a2[i] == acc[i]);
            }
        }
        lemma_segments_no_slash(s.drop_first(), Seq::empty(), a2);
        assert(segments_from(s, cur, acc) == segments_from(s.drop_first(), Seq::empty(), a2));
    } else {
        let c2 = cur.push(s[0]);
        assert forall|j: int| 0 <= j < c2.len() implies c2[j] != '/' by {
            if j < cur.len() {
                assert(c2[j] == cur[j]);
            }
        }
        lemma_segments_no_slash(s.drop_first(), c2, acc);
        assert(segments_from(s, cur, acc) == segments_from(s.drop_first(), c2, acc));
    }
}

proof fn lemma_pieces_loose(ps: Seq<Seq<char>>)
    requires
        forall|i: int, j: int| 0 <= i < ps.len() && 0 <= j < ps[i].len() ==> ps[i][j] != '/',
    ensures
        forall|k: int|
            0 <= k < pieces_comps(ps).len() ==> match #[trigger] pieces_comps(ps)[k] {
                PathComp::Parent => true,
                PathComp::Normal(n) => plain_name(n),
                _ => false,
            },
    decreases ps.len(),
{
    reveal_strlit(".");
    reveal_strlit("..");
    if ps.len() > 0 {
        lemma_pieces_loose(ps.drop_last());
        let prev = pieces_comps(ps.drop_last());
        let last = ps.last();
        assert(forall|j: int| 0 <= j < last.len() ==> last[j] != '/') by {
            assert forall|j: int| 0 <= j < last.len() implies last[j] != '/' by {
                assert(ps[ps.len() - 1] == last);
            }
        }
        let pc = piece_comps(last);
        assert forall|k: int| 0 <= k < pieces_comps(ps).len() implies match #[trigger] pieces_comps(ps)[k] {
            PathComp::Parent => true,
            PathComp::Normal(n) => plain_name(n),
            _ => false,
        } by {
            if k < prev.len() {
                assert(pieces_comps(ps)[k] == prev[k]);
            } else {
                assert(pieces_comps(ps)[k] == pc[k - prev.len()]);
            }
        }
    }
}

/// What `path_comps` yields is loose, and holds no root when the path is not rooted.
proof fn lemma_path_comps_loose(s: Seq<char>)
    ensures
        loose_comps(path_comps(s)),
        !is_rooted(s) ==> forall|i: int| 0 <= i < path_comps(s).len() ==> !(#[trigger] path_comps(s)[i] is Root),
{
    reveal_strlit(".");
    reveal_strlit("..");
    let ps = segments(s);
    lemma_segments_nonempty(s, Seq::empty(), Seq::empty());
    lemma_segments_no_slash(s, Seq::empty(), Seq::empty());
    let first = if is_rooted(s) {
        seq![PathComp::Root]
    } else if ps[0] == "."@ {
        seq![PathComp::Cur]
    } else {
        piece_comps(ps[0])
    };
    assert(first.len() <= 1);
    assert forall|i: int, j: int|
        0 <= i < ps.drop_first().len() && 0 <= j < ps.drop_first()[i].len() implies ps.drop_first()[i][j] != '/' by {
        assert(ps.drop_first()[i] == ps[i + 1]);
    }
    lemma_pieces_loose(ps.drop_first());
    let rest = pieces_comps(ps.drop_first());
    let cs = path_comps(s);
    assert forall|i: int| 0 <= i < cs.len() implies match #[trigger] cs[i] {
        PathComp::Root => i == 0,
        PathComp::Cur => true,
        PathComp::Parent => true,
        PathComp::Normal(n) => plain_name(n),
    } by {
        if i < first.len() {
            assert(cs[i] == first[i]);
            if !is_rooted(s) && ps[0] != "."@ && ps[0].len() > 0 && ps[0] != ".."@ {
                assert(forall|j: int| 0 <= j < ps[0].len() ==> ps[0][j] != '/');
            }
        } else {
            assert(cs[i] == rest[i - first.len()]);
        }
    }
}

/// Normalizing loose components leaves clean ones.
proof fn lemma_normalized_clean(cs: Seq<PathComp>)
    requires
        loose_comps(cs),
    ensures
        clean_comps(normalized_comps(cs)),
    decreases cs.len(),
{
    if cs.len() > 0 {
        let init = cs.drop_last();
        assert forall|i: int| 0 <= i < init.len() implies match #[trigger] init[i] {
            PathComp::Root => i == 0,
            PathComp::Cur => true,
            PathComp::Parent => true,
            PathComp::Normal(n) => plain_name(n),
        } by {
            assert(init[i] == cs[i]);
        }
        lemma_normalized_clean(init);
        let out = normalized_comps(init);
        let c = cs.last();
        assert(c == cs[cs.len() - 1]);
        let res = normalized_comps(cs);
        assert(res == norm_step(out, c));
        match c {
            PathComp::Parent => {
                if out.len() > 0 && out.last() is Normal {
                    assert forall|i: int| 0 <= i < res.len() implies match #[trigger] res[i] {
                        PathComp::Root => i == 0,
                        PathComp::Normal(n) => plain_name(n),
                        _ => false,
                    } by {
                        assert(res[i] == out[i]);
                    }
                }
            },
            PathComp::Cur => {},
            PathComp::Root => {
                assert(cs.len() == 1);
                assert(init.len() == 0);
                assert(res =~= seq![PathComp::Root]);
            },
            PathComp::Normal(n) => {
                assert forall|i: int| 0 <= i < res.len() implies match #[trigger] res[i] {
                    PathComp::Root => i == 0,
                    PathComp::Normal(m) => plain_name(m),
                    _ => false,
                } by {
                    if i < out.len() {
                        assert(res[i] == out[i]);
                    } else {
                        assert(res[i] == c);
                    }
                }
            },
        }
    }
}

/// Clean components are already normalized.
proof fn lemma_clean_is_normalized(cs: Seq<PathComp>)
    requires
        clean_comps(cs),
    ensures
        normalized_comps(cs) == cs,
    decreases cs.len(),
{
    if cs.len() > 0 {
        let init = cs.drop_last();
        assert forall|i: int| 0 <= i < init.len() implies match #[trigger] init[i] {
            PathComp::Root => i == 0,
            PathComp::Normal(n) => plain_name(n),
            _ => false,
        } by {
            assert(init[i] == cs[i]);
        }
        lemma_clean_is_normalized(init);
        let c = cs.last();
        assert(c == cs[cs.len() - 1]);
        assert(!(c is Parent) && !(c is Cur));
        assert(init.push(c) =~= cs);
    }
}

/// Normalizing a normalized path changes nothing.
pub proof fn normalize_is_idempotent(s: Seq<char>)
    ensures
        normalized_path(normalized_path(s)) == normalized_path(s),
{
    let n = normalized_comps(path_comps(s));
    lemma_path_comps_loose(s);
    lemma_normalized_clean(path_comps(s));
    lemma_clean_round_trip(n);
    lemma_clean_is_normalized(n);
}


/// Normalizing components that start with a root keeps that root first.
proof fn lemma_normalized_keeps_root(cs: Seq<PathComp>)
    requires
        cs.len() > 0,
        cs[0] is Root,
    ensures
        normalized_comps(cs).len() > 0,
        normalized_comps(cs)[0] is Root,
    decreases cs.len(),
{
    let init = cs.drop_last();
    if cs.len() == 1 {
        assert(init.len() == 0);
        assert(normalized_comps(cs) == norm_step(seq![], cs.last()));
    } else {
        assert(init[0] == cs[0]);
        lemma_normalized_keeps_root(init);
        let out = normalized_comps(init);
        assert(normalized_comps(cs) == norm_step(out, cs.last()));
        if cs.last() is Parent && out.last() is Normal {
            assert(out.len() > 1);
            assert(out.drop_last()[0] == out[0]);
        } else if !(cs.last() is Parent) && !(cs.last() is Cur) {
            assert(out.push(cs.last())[0] == out[0]);
        }
    }
}

/// A rooted path stays rooted when it is normalized: `..` never climbs above the root.
pub proof fn normalize_keeps_root(s: Seq<char>)
    requires
        is_rooted(s),
    ensures
        is_rooted(normalized_path(s)),
{
    let cs = path_comps(s);
    lemma_segments_nonempty(s, Seq::empty(), Seq::empty());
    assert(cs[0] is Root);
    lemma_normalized_keeps_root(cs);
    lemma_path_comps_loose(s);
    lemma_normalized_clean(cs);
    lemma_clean_round_trip(normalized_comps(cs));
}

/// Reading a normalized path's components again gives back what normalization left: no `.`
/// or `..` component, and a root only first.
pub proof fn normalized_reads_back_clean(s: Seq<char>)
    ensures
        path_comps(normalized_path(s)) == normalized_comps(path_comps(s)),
        forall|i: int|
            0 <= i < path_comps(normalized_path(s)).len() ==> !(#[trigger] path_comps(normalized_path(s))[i] is Cur)
                && !(path_comps(normalized_path(s))[i] is Parent)
                && (path_comps(normalized_path(s))[i] is Root ==> i == 0),
{
    let n = normalized_comps(path_comps(s));
    lemma_path_comps_loose(s);
    lemma_normalized_clean(path_comps(s));
    lemma_clean_round_trip(n);
    assert forall|i: int| 0 <= i < n.len() implies !(#[trigger] n[i] is Cur) && !(n[i] is Parent) && (n[i] is Root ==> i == 0) by {
        assert(clean_comps(n));
    }
}

/// Resolving, under a rooted storage root, a path that an earlier resolution accepted gives
/// that path back, accepted again.
pub proof fn resolving_is_stable(root_abs: Seq<char>, candidate: Seq<char>)
    requires
        is_rooted(root_abs),
        comps_prefix(path_comps(root_abs), resolved_comps(root_abs, candidate)),
    ensures
        resolved_comps(root_abs, render(resolved_comps(root_abs, candidate))) == resolved_comps(
            root_abs,
            candidate,
        ),
        comps_prefix(
            path_comps(root_abs),
            resolved_comps(root_abs, render(resolved_comps(root_abs, candidate))),
        ),
{
    let rc = path_comps(root_abs);
    let cc = path_comps(candidate);
    let joined = joined_comps(root_abs, candidate);
    lemma_path_comps_loose(root_abs);
    lemma_path_comps_loose(candidate);
    if !is_rooted(candidate) {
        assert forall|i: int| 0 <= i < joined.len() implies match #[trigger] joined[i] {
            PathComp::Root => i == 0,
            PathComp::Cur => true,
            PathComp::Parent => true,
            PathComp::Normal(n) => plain_name(n),
        } by {
            if i < rc.len() {
                assert(joined[i] == rc[i]);
            } else {
                assert(joined[i] == cc[i - rc.len()]);
            }
        }
    }
    assert(loose_comps(joined));
    lemma_normalized_clean(joined);
    let n = normalized_comps(joined);
    lemma_segments_nonempty(root_abs, Seq::empty(), Seq::empty());
    assert(rc[0] is Root);
    assert(n.take(rc.len() as int) == rc);
    assert(n[0] == rc[0]);
    lemma_clean_round_trip(n);
    lemma_clean_is_normalized(n);
    assert(joined_comps(root_abs, render(n)) == n);
}

} // verus!
