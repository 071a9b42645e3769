//! The identifying dimensions of a request and their validation.

use vstd::prelude::*;
use vstd::string::*;

verus! {

/// Why a resolution request was rejected.
#[derive(Clone, Copy, Debug, PartialEq, Eq, Structural)]
pub enum ResolveError {
    /// The request supplied no file name, or an empty one.
    MissingFileName,
    /// A supplied scope field, or the file name, is empty or contains a raw
    /// path separator, which would let a request escape its own key space.
    InvalidSegment,
}

/// The optional identifying dimensions a caller may supply with a request.
///
/// Every field is an opaque path segment; any subset may be absent. The fields
/// are always consumed in the fixed canonical order in which they are declared
/// here, so two requests carrying the same present fields with the same values
/// name the same key space.
pub struct RequestScope {
    pub client_id: Option<String>,
    pub container_id: Option<String>,
    pub container_type: Option<String>,
    pub table_name: Option<String>,
    pub column_name: Option<String>,
    pub record_id: Option<String>,
    pub user_id: Option<String>,
    pub role_id: Option<String>,
}

/// A usable path segment: non-empty and free of the separator, so that the
/// segment boundaries of a joined key are unambiguous.
pub open spec fn valid_segment(s: Seq<char>) -> bool {
    s.len() > 0 && !s.contains('/')
}

/// The view of an optional field.
pub open spec fn opt_seg(o: Option<String>) -> Option<Seq<char>> {
    match o {
        Option::Some(s) => Option::Some(s@),
        Option::None => Option::None,
    }
}

/// The scope's fields, in the fixed canonical order.
pub open spec fn scope_fields(s: RequestScope) -> Seq<Option<Seq<char>>> {
    seq![
        opt_seg(s.client_id),
        opt_seg(s.container_id),
        opt_seg(s.container_type),
        opt_seg(s.table_name),
        opt_seg(s.column_name),
        opt_seg(s.record_id),
        opt_seg(s.user_id),
        opt_seg(s.role_id),
    ]
}

/// The present fields among `fields`, in order, absent ones skipped.
pub open spec fn present_segments(fields: Seq<Option<Seq<char>>>) -> Seq<Seq<char>>
    decreases fields.len(),
{
    if fields.len() == 0 {
        seq![]
    } else {
        let tail = match fields.last() {
            Option::Some(s) => seq![s],
            Option::None => seq![],
        };
        present_segments(fields.drop_last()) + tail
    }
}

/// The views of a vector of owned segments.
pub open spec fn views_of_strings(v: Seq<String>) -> Seq<Seq<char>> {
    Seq::new(v.len(), |i: int| v[i]@)
}

/// Every segment of the sequence is usable as a path segment.
pub open spec fn all_segments_valid(segs: Seq<Seq<char>>) -> bool {
    forall|i: int| 0 <= i < segs.len() ==> valid_segment(#[trigger] segs[i])
}

/// Every present field of the scope is usable as a path segment.
pub open spec fn scope_valid(s: RequestScope) -> bool {
    all_segments_valid(present_segments(scope_fields(s)))
}

/// `segs` extended by `o` if it is present, unchanged otherwise.
pub open spec fn push_opt(segs: Seq<Seq<char>>, o: Option<Seq<char>>) -> Seq<Seq<char>> {
    match o {
        Option::Some(s) => segs.push(s),
        Option::None => segs,
    }
}

proof fn lemma_present_push(fields: Seq<Option<Seq<char>>>, o: Option<Seq<char>>)
    ensures
        present_segments(fields.push(o)) == push_opt(present_segments(fields), o),
{
    let p = fields.push(o);
    assert(p.drop_last() =~= fields);
    assert(p.last() == o);
    match o {
        Option::Some(s) => {
            assert(present_segments(fields) + seq![s] =~= present_segments(fields).push(s));
        }
        Option::None => {
            assert(present_segments(fields) + Seq::<Seq<char>>::empty() =~= present_segments(
                fields,
            ));
        }
    }
}

fn push_present(v: &mut Vec<String>, field: &Option<String>)
    ensures
        views_of_strings(final(v)@) == push_opt(views_of_strings(old(v)@), opt_seg(*field)),
{
    match field {
        Option::Some(s) => {
            v.push(s.clone());
            proof {
                assert(views_of_strings(v@) =~= views_of_strings(old(v)@).push(s@));
            }
        },
        Option::None => {},
    }
}

impl RequestScope {
    /// A scope with every dimension absent.
    pub fn empty() -> (s: RequestScope)
        ensures
            scope_fields(s) =~= Seq::new(8, |i: int| Option::<Seq<char>>::None),
    {
        RequestScope {
            client_id: Option::None,
            container_id: Option::None,
            container_type: Option::None,
            table_name: Option::None,
            column_name: Option::None,
            record_id: Option::None,
            user_id: Option::None,
            role_id: Option::None,
        }
    }

    /// The present fields of the scope, in canonical order, as owned segments.
    pub fn segments(&self) -> (v: Vec<String>)
        ensures
            views_of_strings(v@) == present_segments(scope_fields(*self)),
    {
        let mut v: Vec<String> = Vec::new();
        push_present(&mut v, &self.client_id);
        push_present(&mut v, &self.container_id);
        push_present(&mut v, &self.container_type);
        push_present(&mut v, &self.table_name);
        push_present(&mut v, &self.column_name);
        push_present(&mut v, &self.record_id);
        push_present(&mut v, &self.user_id);
        push_present(&mut v, &self.role_id);
        proof {
            let fs = scope_fields(*self);
            let e = Seq::<Option<Seq<char>>>::empty();
            let s0 = e.push(fs[0]);
            let s1 = s0.push(fs[1]);
            let s2 = s1.push(fs[2]);
            let s3 = s2.push(fs[3]);
            let s4 = s3.push(fs[4]);
            let s5 = s4.push(fs[5]);
            let s6 = s5.push(fs[6]);
            let s7 = s6.push(fs[7]);
            assert(fs =~= s7);
            assert(present_segments(e) =~= Seq::<Seq<char>>::empty());
            assert(views_of_strings(Seq::<String>::empty()) =~= Seq::<Seq<char>>::empty());
            lemma_present_push(e, fs[0]);
            lemma_present_push(s0, fs[1]);
            lemma_present_push(s1, fs[2]);
            lemma_present_push(s2, fs[3]);
            lemma_present_push(s3, fs[4]);
            lemma_present_push(s4, fs[5]);
            lemma_present_push(s5, fs[6]);
            lemma_present_push(s6, fs[7]);
        }
        v
    }
}

/// Decides whether `s` can stand as one segment of an object key.
pub fn segment_ok(s: &str) -> (b: bool)
    ensures
        b == valid_segment(s@),
{
    let n = s.unicode_len();
    if n == 0 {
        return false;
    }
    let mut i: usize = 0;
    while i < n
        invariant
            i <= n,
            n == s@.len(),
            forall|j: int| 0 <= j < i ==> s@[j] != '/',
        decreases n - i,
    {
        if s.get_char(i) == '/' {
            assert(s@.contains('/'));
            return false;
        }
        i += 1;
    }
    assert(!s@.contains('/'));
    true
}

/// Decides whether every segment of `v` can stand in an object key.
pub fn segments_ok(v: &Vec<String>) -> (b: bool)
    ensures
        b == all_segments_valid(views_of_strings(v@)),
{
    let mut i: usize = 0;
    while i < v.len()
        invariant
            i <= v@.len(),
            forall|j: int| 0 <= j < i ==> valid_segment(#[trigger] views_of_strings(v@)[j]),
        decreases v@.len() - i,
    {
        if !segment_ok(v[i].as_str()) {
            assert(!valid_segment(views_of_strings(v@)[i as int]));
            return false;
        }
        i += 1;
    }
    true
}

} // verus!
