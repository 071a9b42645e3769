//! The guarantees the resolver gives across calls: determinism, well-formed
//! keys, and tenant isolation of listing prefixes.

use vstd::prelude::*;
use crate::scope::{
    RequestScope, ResolveError, all_segments_valid, opt_seg, present_segments, scope_fields,
    scope_valid, valid_segment,
};
use crate::resolve::{
    join_segments, key_spec, lemma_join_push, prefix_spec, resolve_spec, slash_terminated,
};

verus! {

/// A well-formed object key: non-empty, with no empty segment — it neither
/// starts nor ends with the separator, and no two separators are adjacent.
pub open spec fn no_empty_segments(k: Seq<char>) -> bool {
    &&& k.len() > 0
    &&& k[0] != '/'
    &&& k[k.len() - 1] != '/'
    &&& forall|i: int| 1 <= i < k.len() ==> !(k[i - 1] == '/' && #[trigger] k[i] == '/')
}

proof fn lemma_valid_segment_chars(s: Seq<char>)
    requires
        valid_segment(s),
    ensures
        forall|i: int| 0 <= i < s.len() ==> #[trigger] s[i] != '/',
{
    assert forall|i: int| 0 <= i < s.len() implies #[trigger] s[i] != '/' by {
        if s[i] == '/' {
            assert(s.contains('/'));
        }
    }
}

proof fn lemma_join_no_empty(segs: Seq<Seq<char>>)
    requires
        segs.len() > 0,
        all_segments_valid(segs),
    ensures
        no_empty_segments(join_segments(segs)),
    decreases segs.len(),
{
    let k = join_segments(segs);
    if segs.len() == 1 {
        assert(k == segs[0]);
        assert(valid_segment(segs[0]));
        lemma_valid_segment_chars(segs[0]);
        assert(no_empty_segments(k));
    } else {
        let dl = segs.drop_last();
        assert forall|i: int| 0 <= i < dl.len() implies valid_segment(#[trigger] dl[i]) by {
            assert(dl[i] == segs[i]);
        }
        lemma_join_no_empty(dl);
        let a = join_segments(dl);
        let b = segs.last();
        assert(valid_segment(b));
        lemma_valid_segment_chars(b);
        assert(k == a + seq!['/'] + b);
        assert(k.len() == a.len() + 1 + b.len());
        assert(k[0] == a[0]);
        assert(k[k.len() - 1] == b[b.len() - 1]);
        assert forall|i: int| 1 <= i < k.len() implies !(k[i - 1] == '/' && #[trigger] k[i]
            == '/') by {
            if i < a.len() {
                assert(k[i] == a[i]);
                assert(k[i - 1] == a[i - 1]);
            } else if i == a.len() {
                assert(k[i - 1] == a[a.len() - 1]);
            } else if i == a.len() + 1 {
                assert(k[i] == b[0]);
            } else {
                assert(k[i] == b[i - a.len() - 1]);
                assert(k[i - 1] == b[i - a.len() - 2]);
            }
        }
    }
}

/// Law: a resolved key never holds an empty segment. An absent field shifts
/// the later segments left; it never leaves a separator behind, so the key
/// neither starts nor ends with `/` and never holds `//`.
pub proof fn lemma_key_no_empty_segments(s: RequestScope, f: Seq<char>)
    requires
        scope_valid(s),
        valid_segment(f),
    ensures
        no_empty_segments(key_spec(s, f)),
{
    let p = present_segments(scope_fields(s));
    let segs = p.push(f);
    assert forall|i: int| 0 <= i < segs.len() implies valid_segment(#[trigger] segs[i]) by {
        if i < p.len() {
            assert(segs[i] == p[i]);
            assert(valid_segment(p[i]));
        } else {
            assert(segs[i] == f);
        }
    }
    lemma_join_no_empty(segs);
}

/// Law: resolution is deterministic. The outcome — key or error — is a
/// function of the scope and the file name alone, so two resolutions of the
/// same request always agree.
pub proof fn lemma_resolve_deterministic(
    s: RequestScope,
    f: Option<Seq<char>>,
    r1: Result<Seq<char>, ResolveError>,
    r2: Result<Seq<char>, ResolveError>,
)
    requires
        r1 == resolve_spec(s, f),
        r2 == resolve_spec(s, f),
    ensures
        r1 == r2,
{
}

/// Law: a scope's key is its listing prefix followed by the file name, so
/// every object stored under a scope is found again by listing that scope.
pub proof fn lemma_key_extends_prefix(s: RequestScope, f: Seq<char>)
    ensures
        key_spec(s, f) == prefix_spec(s) + f,
        prefix_spec(s).is_prefix_of(key_spec(s, f)),
{
    lemma_join_push(present_segments(scope_fields(s)), f);
    assert(prefix_spec(s) =~= (prefix_spec(s) + f).subrange(0, prefix_spec(s).len() as int));
}

proof fn lemma_prefix_extend(p: Seq<char>, m: Seq<char>, z: Seq<char>)
    requires
        p.is_prefix_of(m),
    ensures
        p.is_prefix_of(m + z),
{
    assert((m + z).subrange(0, p.len() as int) =~= p);
}

proof fn lemma_present_first(fields: Seq<Option<Seq<char>>>)
    requires
        fields.len() > 0,
        fields[0] is Some,
    ensures
        present_segments(fields).len() > 0,
        present_segments(fields)[0] == fields[0]->0,
    decreases fields.len(),
{
    let dl = fields.drop_last();
    if fields.len() == 1 {
        assert(dl =~= Seq::<Option<Seq<char>>>::empty());
        assert(present_segments(dl) =~= Seq::<Seq<char>>::empty());
    } else {
        assert(dl[0] == fields[0]);
        lemma_present_first(dl);
    }
}

proof fn lemma_slash_terminated_starts(segs: Seq<Seq<char>>)
    requires
        segs.len() > 0,
    ensures
        (segs[0] + seq!['/']).is_prefix_of(slash_terminated(segs)),
    decreases segs.len(),
{
    let dl = segs.drop_last();
    if segs.len() == 1 {
        assert(dl =~= Seq::<Seq<char>>::empty());
        assert(slash_terminated(dl) =~= Seq::<char>::empty());
        assert(slash_terminated(segs) =~= segs[0] + seq!['/']);
    } else {
        assert(dl[0] == segs[0]);
        lemma_slash_terminated_starts(dl);
        assert(slash_terminated(segs) =~= slash_terminated(dl) + (segs.last() + seq!['/']));
        lemma_prefix_extend(
            segs[0] + seq!['/'],
            slash_terminated(dl),
            segs.last() + seq!['/'],
        );
    }
}

proof fn lemma_slash_terminated_not_prefix(a: Seq<char>, b: Seq<char>, x: Seq<char>, y: Seq<char>)
    requires
        valid_segment(a),
        valid_segment(b),
        a != b,
        (a + seq!['/']).is_prefix_of(x),
        (b + seq!['/']).is_prefix_of(y),
    ensures
        !x.is_prefix_of(y),
{
    lemma_valid_segment_chars(a);
    lemma_valid_segment_chars(b);
    let pa = a + seq!['/'];
    let pb = b + seq!['/'];
    assert forall|i: int| 0 <= i < pa.len() implies #[trigger] x[i] == pa[i] by {
        assert(pa[i] == x.subrange(0, pa.len() as int)[i]);
    }
    assert forall|i: int| 0 <= i < pb.len() implies #[trigger] y[i] == pb[i] by {
        assert(pb[i] == y.subrange(0, pb.len() as int)[i]);
    }
    assert(x[a.len() as int] == '/');
    assert(y[b.len() as int] == '/');
    if x.is_prefix_of(y) {
        assert forall|i: int| 0 <= i < x.len() implies #[trigger] x[i] == y[i] by {
            assert(x[i] == y.subrange(0, x.len() as int)[i]);
        }
        if a.len() == b.len() {
            assert forall|i: int| 0 <= i < a.len() implies #[trigger] a[i] == b[i] by {
                assert(x[i] == pa[i]);
                assert(y[i] == pb[i]);
                assert(x[i] == y[i]);
            }
            assert(a =~= b);
        } else if a.len() < b.len() {
            assert(y[a.len() as int] == b[a.len() as int]);
            assert(x[a.len() as int] == y[a.len() as int]);
            assert(false);
        } else {
            assert(x[b.len() as int] == a[b.len() as int]);
            assert(x[b.len() as int] == y[b.len() as int]);
            assert(false);
        }
    }
}

/// Law: tenant isolation. Two scopes naming different clients yield listing
/// prefixes of which neither is a prefix of the other, and which are never
/// equal — one tenant's listing scope can never enclose another's.
pub proof fn lemma_tenant_isolation(s1: RequestScope, s2: RequestScope, c1: Seq<char>, c2: Seq<char>)
    requires
        scope_valid(s1),
        scope_valid(s2),
        opt_seg(s1.client_id) == Option::Some(c1),
        opt_seg(s2.client_id) == Option::Some(c2),
        c1 != c2,
    ensures
        prefix_spec(s1) != prefix_spec(s2),
        !prefix_spec(s1).is_prefix_of(prefix_spec(s2)),
        !prefix_spec(s2).is_prefix_of(prefix_spec(s1)),
{
    let p1 = present_segments(scope_fields(s1));
    let p2 = present_segments(scope_fields(s2));
    lemma_present_first(scope_fields(s1));
    lemma_present_first(scope_fields(s2));
    assert(p1[0] == c1);
    assert(p2[0] == c2);
    assert(valid_segment(c1));
    assert(valid_segment(c2));
    lemma_slash_terminated_starts(p1);
    lemma_slash_terminated_starts(p2);
    lemma_slash_terminated_not_prefix(c1, c2, prefix_spec(s1), prefix_spec(s2));
    lemma_slash_terminated_not_prefix(c2, c1, prefix_spec(s2), prefix_spec(s1));
    if prefix_spec(s1) == prefix_spec(s2) {
        assert(prefix_spec(s1).is_prefix_of(prefix_spec(s2)));
    }
}

/// Law: a tenant's listing prefix never captures another tenant's objects —
/// no key resolved under one client's scope begins with the prefix of a scope
/// naming a different client.
pub proof fn lemma_prefix_excludes_foreign_keys(
    s1: RequestScope,
    s2: RequestScope,
    c1: Seq<char>,
    c2: Seq<char>,
    f: Seq<char>,
)
    requires
        scope_valid(s1),
        scope_valid(s2),
        opt_seg(s1.client_id) == Option::Some(c1),
        opt_seg(s2.client_id) == Option::Some(c2),
        c1 != c2,
    ensures
        !prefix_spec(s2).is_prefix_of(key_spec(s1, f)),
{
    let p1 = present_segments(scope_fields(s1));
    let p2 = present_segments(scope_fields(s2));
    lemma_present_first(scope_fields(s1));
    lemma_present_first(scope_fields(s2));
    assert(valid_segment(c1));
    assert(valid_segment(c2));
    lemma_slash_terminated_starts(p1);
    lemma_slash_terminated_starts(p2);
    lemma_key_extends_prefix(s1, f);
    lemma_prefix_extend(c1 + seq!['/'], prefix_spec(s1), f);
    assert(key_spec(s1, f) == prefix_spec(s1) + f);
    lemma_slash_terminated_not_prefix(c2, c1, prefix_spec(s2), key_spec(s1, f));
}

} // verus!
