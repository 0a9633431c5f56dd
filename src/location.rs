//! URLs as the validator reads them: the text before the path, the path as a
//! sequence of segments, and the text after the path.
use vstd::prelude::*;

use crate::text::{replace, replace_all};

verus! {

/// The parts of `text` as the url crate parses it: everything before the path,
/// the path, and everything after it; `None` where `text` is not a URL.
pub uninterp spec fn url_parts(text: Seq<char>) -> Option<(Seq<char>, Seq<char>, Seq<char>)>;

/// Relies on `url::Url::parse`, and on slicing the parsed URL at
/// `url::Position::BeforePath` and `url::Position::AfterPath`.
#[verifier::external_body]
fn split_url(text: &str) -> (r: Option<(String, String, String)>)
    ensures
        r is None ==> url_parts(text@) is None,
        r matches Some(p) ==> url_parts(text@) == Some((p.0@, p.1@, p.2@)),
{
    match url::Url::parse(text) {
        Ok(u) => Some((
            u[..url::Position::BeforePath].to_string(),
            u.path().to_string(),
            u[url::Position::AfterPath..].to_string(),
        )),
        Err(_) => None,
    }
}

/// Whether a path is hierarchical: it starts with `/`.
pub open spec fn hierarchical(path: Seq<char>) -> bool {
    path.len() > 0 && path[0] == '/'
}

/// Whether a run of characters between two separators counts as a path
/// segment: empty runs and `.` do not.
pub open spec fn keeps(run: Seq<char>) -> bool {
    run.len() > 0 && run != seq!['.']
}

pub open spec fn close_run(segs: Seq<Seq<char>>, run: Seq<char>) -> Seq<Seq<char>> {
    if keeps(run) {
        segs.push(run)
    } else {
        segs
    }
}

/// The segments closed so far and the run still open after reading `p`.
pub open spec fn split_state(p: Seq<char>) -> (Seq<Seq<char>>, Seq<char>)
    decreases p.len(),
{
    if p.len() == 0 {
        (Seq::empty(), Seq::empty())
    } else {
        let (segs, run) = split_state(p.drop_last());
        if p.last() == '/' {
            (close_run(segs, run), Seq::empty())
        } else {
            (segs, run.push(p.last()))
        }
    }
}

/// The segments of a path: the runs between `/` separators, without empty
/// runs and without `.`.
pub open spec fn path_segments(p: Seq<char>) -> Seq<Seq<char>> {
    close_run(split_state(p).0, split_state(p).1)
}

/// `/` followed by each segment, the segments separated by `/`.
pub open spec fn slash_joined(segs: Seq<Seq<char>>) -> Seq<char>
    decreases segs.len(),
{
    if segs.len() == 0 {
        Seq::empty()
    } else {
        slash_joined(segs.drop_last()) + seq!['/'] + segs.last()
    }
}

/// The path text of a sequence of segments; the root path is `/`.
pub open spec fn path_text(segs: Seq<Seq<char>>) -> Seq<char> {
    if segs.len() == 0 {
        seq!['/']
    } else {
        slash_joined(segs)
    }
}

pub open spec fn texts(v: Seq<String>) -> Seq<Seq<char>> {
    v.map_values(|s: String| s@)
}

/// The placeholder that a path variable `name` takes in a URL path, as the
/// url crate percent-encodes `{name}`.
pub open spec fn placeholder(name: Seq<char>) -> Seq<char> {
    seq!['%', '7', 'B'] + name + seq!['%', '7', 'D']
}

/// What a URL is made of, for contracts.
pub ghost struct UrlView {
    pub head: Seq<char>,
    pub segments: Seq<Seq<char>>,
    pub tail: Seq<char>,
}

/// A URL: the text before its path (scheme, host, port), its path segments,
/// and the text after its path (query and fragment).
#[derive(Clone, Debug)]
pub struct Url {
    pub head: String,
    pub segments: Vec<String>,
    pub tail: String,
}

impl View for Url {
    type V = UrlView;

    open spec fn view(&self) -> UrlView {
        UrlView { head: self.head@, segments: texts(self.segments@), tail: self.tail@ }
    }
}

/// The URL whose path is `url`'s path followed by the segments of `template`'s
/// path; everything else is kept from `url`.
pub open spec fn joined(url: UrlView, template: UrlView) -> UrlView {
    UrlView { segments: url.segments + template.segments, ..url }
}

/// `url` with every placeholder of the variable `name` in its path replaced by `value`.
pub open spec fn substituted(url: UrlView, name: Seq<char>, value: Seq<char>) -> UrlView {
    UrlView {
        segments: url.segments.map_values(|s: Seq<char>| replace_all(s, placeholder(name), value)),
        ..url
    }
}

/// `url` with each variable of `vars` substituted in turn.
pub open spec fn substituted_all(url: UrlView, vars: Seq<(Seq<char>, Seq<char>)>) -> UrlView
    decreases vars.len(),
{
    if vars.len() == 0 {
        url
    } else {
        substituted(substituted_all(url, vars.drop_last()), vars.last().0, vars.last().1)
    }
}

/// The text of a URL.
pub open spec fn url_text(url: UrlView) -> Seq<char> {
    url.head + path_text(url.segments) + url.tail
}

fn keeps_run(run: &String) -> (r: bool)
    ensures
        r == keeps(run@),
{
    let n = run.as_str().unicode_len();
    if n == 0 {
        false
    } else if n == 1 && run.as_str().get_char(0) == '.' {
        assert(run@ =~= seq!['.']);
        false
    } else {
        assert(n == 1 ==> run@[0] != '.');
        assert(run@ != seq!['.']) by {
            if run@ == seq!['.'] {
                assert(run@.len() == 1);
            }
        }
        true
    }
}

/// Splits a path into its segments.
pub fn split_path(p: &str) -> (r: Vec<String>)
    ensures
        texts(r@) == path_segments(p@),
{
    let n = p.unicode_len();
    let mut segs: Vec<String> = Vec::new();
    let mut run = String::new();
    let mut i: usize = 0;
    while i < n
        invariant
            n == p@.len(),
            i <= n,
            split_state(p@.subrange(0, i as int)) == (texts(segs@), run@),
        decreases n - i,
    {
        let c = p.get_char(i);
        assert(p@.subrange(0, i + 1).drop_last() =~= p@.subrange(0, i as int));
        if c == '/' {
            if keeps_run(&run) {
                let ghost before = segs@;
                segs.push(run);
                assert(texts(segs@) =~= texts(before).push(run@));
            }
            run = String::new();
        } else {
            let piece = p.substring_char(i, i + 1);
            assert(piece@ =~= seq![c]);
            run.append(piece);
            assert(run@ =~= split_state(p@.subrange(0, i as int)).1.push(c));
        }
        i = i + 1;
    }
    assert(p@.subrange(0, n as int) =~= p@);
    if keeps_run(&run) {
        let ghost before = segs@;
        segs.push(run);
        assert(texts(segs@) =~= texts(before).push(run@));
    }
    segs
}

impl Url {
    /// Parses `text` as a URL with a hierarchical path (one that starts with
    /// `/`); `None` where the url crate rejects it or its path is not such a path.
    pub fn parse(text: &str) -> (r: Option<Url>)
        ensures
            r is None <==> !(url_parts(text@) matches Some(p) && hierarchical(p.1)),
            r matches Some(u) ==> ({
                let (head, path, tail) = url_parts(text@)->0;
                u@ == UrlView { head, segments: path_segments(path), tail }
            }),
    {
        match split_url(text) {
            None => None,
            Some((head, path, tail)) => {
                let p = path.as_str();
                if p.unicode_len() == 0 || p.get_char(0) != '/' {
                    return None;
                }
                let segments = split_path(p);
                Some(Url { head, segments, tail })
            },
        }
    }

    /// The path of this URL: `/`, or each segment after a `/`.
    pub fn path(&self) -> (r: String)
        ensures
            r@ == path_text(self@.segments),
    {
        let mut out = String::new();
        let mut i: usize = 0;
        while i < self.segments.len()
            invariant
                i <= self.segments.len(),
                out@ == slash_joined(texts(self.segments@).subrange(0, i as int)),
            decreases self.segments.len() - i,
        {
            let ghost prev = texts(self.segments@).subrange(0, i as int);
            assert(texts(self.segments@).subrange(0, i + 1).drop_last() =~= prev);
            out.append("/");
            out.append(self.segments[i].as_str());
            proof {
                reveal_strlit("/");
            }
            i = i + 1;
        }
        assert(texts(self.segments@).subrange(0, i as int) =~= texts(self.segments@));
        if i == 0 {
            let r = String::from_str("/");
            proof {
                reveal_strlit("/");
            }
            r
        } else {
            out
        }
    }

    /// The text of this URL.
    pub fn to_string(&self) -> (r: String)
        ensures
            r@ == url_text(self@),
    {
        let mut out = self.head.clone();
        let p = self.path();
        out.append(p.as_str());
        out.append(self.tail.as_str());
        out
    }
}

/// Appends the segments of `extra` to `segments`.
fn extend_segments(segments: &mut Vec<String>, extra: &Vec<String>)
    ensures
        texts(final(segments)@) == texts(old(segments)@) + texts(extra@),
{
    let ghost start = texts(segments@);
    let mut j: usize = 0;
    while j < extra.len()
        invariant
            j <= extra.len(),
            texts(segments@) == start + texts(extra@).subrange(0, j as int),
        decreases extra.len() - j,
    {
        let ghost before = segments@;
        segments.push(extra[j].clone());
        assert(texts(segments@) =~= texts(before).push(extra@[j as int]@));
        assert(texts(extra@).subrange(0, j + 1) =~= texts(extra@).subrange(0, j as int).push(
            extra@[j as int]@,
        ));
        j = j + 1;
    }
    assert(texts(extra@).subrange(0, j as int) =~= texts(extra@));
}

/// Appends the path of `url2` to the path of `url1`.
pub fn url_join(url1: &Url, url2: &Url) -> (r: Url)
    ensures
        r@ == joined(url1@, url2@),
{
    let mut segments: Vec<String> = Vec::new();
    assert(texts(segments@) =~= Seq::<Seq<char>>::empty());
    extend_segments(&mut segments, &url1.segments);
    extend_segments(&mut segments, &url2.segments);
    assert(Seq::<Seq<char>>::empty() + texts(url1.segments@) =~= texts(url1.segments@));
    Url { head: url1.head.clone(), segments, tail: url1.tail.clone() }
}

/// A copy of `url`.
pub(crate) fn copy_url(url: &Url) -> (r: Url)
    ensures
        r@ == url@,
{
    let mut segments: Vec<String> = Vec::new();
    assert(texts(segments@) =~= Seq::<Seq<char>>::empty());
    extend_segments(&mut segments, &url.segments);
    assert(Seq::<Seq<char>>::empty() + texts(url.segments@) =~= texts(url.segments@));
    Url { head: url.head.clone(), segments, tail: url.tail.clone() }
}

/// Replaces every placeholder of the path variable `name` in the path of `url` by `value`.
pub fn substitute(url: &Url, name: &str, value: &str) -> (r: Url)
    ensures
        r@ == substituted(url@, name@, value@),
{
    let mut token = String::from_str("%7B");
    token.append(name);
    token.append("%7D");
    proof {
        reveal_strlit("%7B");
        reveal_strlit("%7D");
    }
    assert(token@ =~= placeholder(name@));
    let mut segments: Vec<String> = Vec::new();
    let mut i: usize = 0;
    let ghost target = url@.segments.map_values(|s: Seq<char>| replace_all(s, placeholder(name@), value@));
    while i < url.segments.len()
        invariant
            i <= url.segments.len(),
            token@ == placeholder(name@),
            target == url@.segments.map_values(|s: Seq<char>| replace_all(s, placeholder(name@), value@)),
            texts(segments@) == target.subrange(0, i as int),
        decreases url.segments.len() - i,
    {
        let ghost before = segments@;
        let seg = replace(url.segments[i].as_str(), token.as_str(), value);
        segments.push(seg);
        assert(texts(segments@) =~= texts(before).push(seg@));
        assert(target.subrange(0, i + 1) =~= target.subrange(0, i as int).push(target[i as int]));
        i = i + 1;
    }
    assert(target.subrange(0, i as int) =~= target);
    let r = Url { head: url.head.clone(), segments, tail: url.tail.clone() };
    assert(r@ =~= substituted(url@, name@, value@));
    r
}

/// Substitutes each `(name, value)` of `vars`, in order, in the path of `url`.
pub fn replace_vars(url: &Url, vars: Vec<(&str, &str)>) -> (r: Url)
    ensures
        r@ == substituted_all(url@, vars@.map_values(|v: (&str, &str)| (v.0@, v.1@))),
{
    let ghost vs = vars@.map_values(|v: (&str, &str)| (v.0@, v.1@));
    let mut out = copy_url(url);
    let mut i: usize = 0;
    while i < vars.len()
        invariant
            i <= vars.len(),
            vs == vars@.map_values(|v: (&str, &str)| (v.0@, v.1@)),
            out@ == substituted_all(url@, vs.subrange(0, i as int)),
        decreases vars.len() - i,
    {
        let (name, value) = vars[i];
        assert(vs.subrange(0, i + 1).drop_last() =~= vs.subrange(0, i as int));
        out = substitute(&out, name, value);
        i = i + 1;
    }
    assert(vs.subrange(0, i as int) =~= vs);
    out
}

/// One character of a path read on from a state of `split_state`.
pub open spec fn split_step(st: (Seq<Seq<char>>, Seq<char>), c: char) -> (Seq<Seq<char>>, Seq<char>) {
    if c == '/' {
        (close_run(st.0, st.1), Seq::empty())
    } else {
        (st.0, st.1.push(c))
    }
}

/// The state after reading `q` on from the state `st`.
pub open spec fn split_from(st: (Seq<Seq<char>>, Seq<char>), q: Seq<char>) -> (Seq<Seq<char>>, Seq<char>)
    decreases q.len(),
{
    if q.len() == 0 {
        st
    } else {
        split_step(split_from(st, q.drop_last()), q.last())
    }
}

proof fn lemma_split_concat(p: Seq<char>, q: Seq<char>)
    ensures
        split_state(p + q) == split_from(split_state(p), q),
    decreases q.len(),
{
    if q.len() == 0 {
        assert(p + q =~= p);
    } else {
        assert((p + q).drop_last() =~= p + q.drop_last());
        lemma_split_concat(p, q.drop_last());
    }
}

proof fn lemma_split_shift(done: Seq<Seq<char>>, q: Seq<char>)
    ensures
        split_from((done, Seq::empty()), q) == ({
            let st = split_from((Seq::empty(), Seq::empty()), q);
            (done + st.0, st.1)
        }),
    decreases q.len(),
{
    if q.len() > 0 {
        lemma_split_shift(done, q.drop_last());
        let st = split_from((Seq::<Seq<char>>::empty(), Seq::<char>::empty()), q.drop_last());
        assert((done + st.0).push(st.1) =~= done + st.0.push(st.1));
    }
}

proof fn lemma_split_state_is_split_from(p: Seq<char>)
    ensures
        split_state(p) == split_from((Seq::empty(), Seq::empty()), p),
    decreases p.len(),
{
    if p.len() > 0 {
        lemma_split_state_is_split_from(p.drop_last());
    }
}

/// The segments of two paths joined by `/` are the segments of the first
/// followed by those of the second.
pub proof fn lemma_path_segments_concat(x: Seq<char>, y: Seq<char>)
    ensures
        path_segments(x + seq!['/'] + y) == path_segments(x) + path_segments(y),
{
    let xs = x + seq!['/'];
    assert(xs.drop_last() =~= x);
    assert(split_state(xs) == (path_segments(x), Seq::<char>::empty()));
    lemma_split_concat(xs, y);
    lemma_split_shift(path_segments(x), y);
    lemma_split_state_is_split_from(y);
    let st = split_state(y);
    assert((path_segments(x) + st.0).push(st.1) =~= path_segments(x) + st.0.push(st.1));
}

/// Joining a template and then a second one to a URL gives the URL that
/// joining, at once, a template with the segments of both gives.
pub proof fn lemma_join_associative(root: UrlView, a: UrlView, b: UrlView, ab: UrlView)
    requires
        ab.segments == a.segments + b.segments,
    ensures
        joined(joined(root, a), b) == joined(root, ab),
{
    assert(root.segments + a.segments + b.segments =~= root.segments + (a.segments + b.segments));
}

} // verus!
