//! Building object keys and listing prefixes from a request scope.

use vstd::prelude::*;
use vstd::string::*;
use crate::scope::{
    RequestScope, ResolveError, opt_seg, present_segments, scope_fields, scope_valid, segment_ok,
    segments_ok, valid_segment, views_of_strings,
};

verus! {

/// The `/`-joined key formed by `segs`: the segments in order, one separator
/// between neighbours, none inserted for what is not there.
pub open spec fn join_segments(segs: Seq<Seq<char>>) -> Seq<char>
    decreases segs.len(),
{
    if segs.len() == 0 {
        Seq::empty()
    } else if segs.len() == 1 {
        segs[0]
    } else {
        join_segments(segs.drop_last()) + seq!['/'] + segs.last()
    }
}

/// The segments in order, each followed by the separator: the shape of a
/// listing prefix. The trailing separator keeps one tenant's prefix from
/// matching another tenant's longer identifier.
pub open spec fn slash_terminated(segs: Seq<Seq<char>>) -> Seq<char>
    decreases segs.len(),
{
    if segs.len() == 0 {
        Seq::empty()
    } else {
        slash_terminated(segs.drop_last()) + segs.last() + seq!['/']
    }
}

/// The canonical object key of scope `s` and file name `f`: the present
/// fields in canonical order, then the file name, joined by `/`.
pub open spec fn key_spec(s: RequestScope, f: Seq<char>) -> Seq<char> {
    join_segments(present_segments(scope_fields(s)).push(f))
}

/// The canonical listing prefix of scope `s`: the present fields in canonical
/// order, each followed by `/`.
pub open spec fn prefix_spec(s: RequestScope) -> Seq<char> {
    slash_terminated(present_segments(scope_fields(s)))
}

/// Exactly what `resolve` returns: `MissingFileName` when the file name is
/// absent or empty; otherwise `InvalidSegment` when the file name or any
/// present field is unusable as a segment; otherwise the canonical key.
pub open spec fn resolve_spec(s: RequestScope, f: Option<Seq<char>>) -> Result<
    Seq<char>,
    ResolveError,
> {
    match f {
        Option::None => Result::Err(ResolveError::MissingFileName),
        Option::Some(name) => if name.len() == 0 {
            Result::Err(ResolveError::MissingFileName)
        } else if !valid_segment(name) || !scope_valid(s) {
            Result::Err(ResolveError::InvalidSegment)
        } else {
            Result::Ok(key_spec(s, name))
        },
    }
}

/// Exactly what `resolve_prefix` returns: `InvalidSegment` when any present
/// field is unusable as a segment, the canonical listing prefix otherwise.
pub open spec fn resolve_prefix_spec(s: RequestScope) -> Result<Seq<char>, ResolveError> {
    if scope_valid(s) {
        Result::Ok(prefix_spec(s))
    } else {
        Result::Err(ResolveError::InvalidSegment)
    }
}

/// The view of an owned resolution result.
pub open spec fn result_view(r: Result<String, ResolveError>) -> Result<Seq<char>, ResolveError> {
    match r {
        Result::Ok(k) => Result::Ok(k@),
        Result::Err(e) => Result::Err(e),
    }
}

/// Joining the segments and then one more equals the slash-terminated join of
/// the segments followed by the extra one: every key extends its prefix.
pub proof fn lemma_join_push(segs: Seq<Seq<char>>, f: Seq<char>)
    ensures
        join_segments(segs.push(f)) == slash_terminated(segs) + f,
    decreases segs.len(),
{
    let p = segs.push(f);
    assert(p.drop_last() =~= segs);
    assert(p.last() == f);
    if segs.len() == 0 {
        assert(join_segments(p) == p[0]);
        assert(slash_terminated(segs) + f =~= f);
    } else {
        lemma_join_then_slash(segs);
        assert(join_segments(p) =~= slash_terminated(segs) + f);
    }
}

proof fn lemma_join_then_slash(segs: Seq<Seq<char>>)
    requires
        segs.len() > 0,
    ensures
        slash_terminated(segs) == join_segments(segs) + seq!['/'],
    decreases segs.len(),
{
    if segs.len() == 1 {
        assert(segs.drop_last() =~= Seq::<Seq<char>>::empty());
        assert(slash_terminated(Seq::<Seq<char>>::empty()) =~= Seq::<char>::empty());
        assert(slash_terminated(segs) =~= join_segments(segs) + seq!['/']);
    } else {
        lemma_join_then_slash(segs.drop_last());
        assert(slash_terminated(segs) =~= join_segments(segs) + seq!['/']);
    }
}

/// Joins the segments, each followed by the separator.
fn join_slash_terminated(v: &Vec<String>) -> (r: String)
    ensures
        r@ == slash_terminated(views_of_strings(v@)),
{
    let mut r = String::new();
    let mut i: usize = 0;
    while i < v.len()
        invariant
            i <= v@.len(),
            r@ == slash_terminated(views_of_strings(v@).take(i as int)),
        decreases v@.len() - i,
    {
        r.append(v[i].as_str());
        r.append("/");
        proof {
            reveal_strlit("/");
            assert("/"@ =~= seq!['/']);
            let vs = views_of_strings(v@);
            assert(vs.take(i as int + 1).drop_last() =~= vs.take(i as int));
            assert(vs.take(i as int + 1).last() == vs[i as int]);
            assert(r@ =~= slash_terminated(vs.take(i as int + 1)));
        }
        i += 1;
    }
    proof {
        assert(views_of_strings(v@).take(v@.len() as int) =~= views_of_strings(v@));
    }
    r
}

/// Maps a request scope and a requested file name to the canonical object
/// key under which the object is stored.
///
/// The key is the scope's present fields in canonical order, then the file
/// name, joined by `/`. A request without a file name (or with an empty one)
/// is rejected with `MissingFileName`; a scope field or file name that is
/// empty or contains a raw `/` is rejected with `InvalidSegment`, so that no
/// request can name a key outside its own scope.
pub fn resolve(scope: &RequestScope, file_name: &Option<String>) -> (r: Result<
    String,
    ResolveError,
>)
    ensures
        result_view(r) == resolve_spec(*scope, opt_seg(*file_name)),
{
    let name: &String = match file_name {
        Option::Some(n) => n,
        Option::None => {
            return Result::Err(ResolveError::MissingFileName);
        },
    };
    if name.as_str().unicode_len() == 0 {
        return Result::Err(ResolveError::MissingFileName);
    }
    if !segment_ok(name.as_str()) {
        return Result::Err(ResolveError::InvalidSegment);
    }
    let segs = scope.segments();
    if !segments_ok(&segs) {
        return Result::Err(ResolveError::InvalidSegment);
    }
    let mut key = join_slash_terminated(&segs);
    key.append(name.as_str());
    proof {
        lemma_join_push(views_of_strings(segs@), name@);
    }
    Result::Ok(key)
}

/// A transient response value: a URL issued by the object-store client,
/// paired with the object key it was issued for. It is never stored and lives
/// only for the duration of one response.
pub struct PresignedObject {
    pub url: String,
    pub file_name: String,
}

impl PresignedObject {
    /// Pairs a URL, obtained from the outside presigner for `file_name`, with
    /// that key, so a response always reports the key the URL grants.
    pub fn new(url: String, file_name: String) -> (p: PresignedObject)
        ensures
            p.url@ == url@,
            p.file_name@ == file_name@,
    {
        PresignedObject { url, file_name }
    }
}

/// Maps a request scope to the canonical listing prefix that confines a
/// listing or deletion to the caller's own key space.
///
/// The prefix is the scope's present fields in canonical order, each followed
/// by `/`; an empty scope yields the empty prefix. A scope field that is
/// empty or contains a raw `/` is rejected with `InvalidSegment`.
pub fn resolve_prefix(scope: &RequestScope) -> (r: Result<String, ResolveError>)
    ensures
        result_view(r) == resolve_prefix_spec(*scope),
{
    let segs = scope.segments();
    if !segments_ok(&segs) {
        return Result::Err(ResolveError::InvalidSegment);
    }
    Result::Ok(join_slash_terminated(&segs))
}

} // verus!
