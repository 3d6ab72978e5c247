use vstd::prelude::*;

verus! {

/// Whether `c` has the Unicode `White_Space` property.
pub open spec fn is_white(c: char) -> bool {
    ('\u{9}' <= c && c <= '\u{d}') || c == ' ' || c == '\u{85}' || c == '\u{a0}'
        || c == '\u{1680}' || ('\u{2000}' <= c && c <= '\u{200a}') || c == '\u{2028}'
        || c == '\u{2029}' || c == '\u{202f}' || c == '\u{205f}' || c == '\u{3000}'
}

/// `s` without its leading white space.
pub open spec fn trim_start_of(s: Seq<char>) -> Seq<char>
    decreases s.len(),
{
    if s.len() > 0 && is_white(s[0]) {
        trim_start_of(s.drop_first())
    } else {
        s
    }
}

/// `s` without its trailing white space.
pub open spec fn trim_end_of(s: Seq<char>) -> Seq<char>
    decreases s.len(),
{
    if s.len() > 0 && is_white(s.last()) {
        trim_end_of(s.drop_last())
    } else {
        s
    }
}

/// `s` without leading and trailing white space.
pub open spec fn trim_of(s: Seq<char>) -> Seq<char> {
    trim_end_of(trim_start_of(s))
}

/// What `str::to_lowercase` makes of a string.
pub uninterp spec fn lower_of(s: Seq<char>) -> Seq<char>;

/// Relies on `str::trim`: removes leading and trailing `White_Space` characters.
#[verifier::external_body]
pub(crate) fn trim(s: &str) -> (r: String)
    ensures
        r@ == trim_of(s@),
{
    s.trim().to_string()
}

/// Relies on `str::to_lowercase`: the result depends on the characters alone,
/// and the empty string stays empty.
#[verifier::external_body]
pub(crate) fn to_lowercase(s: &str) -> (r: String)
    ensures
        r@ == lower_of(s@),
        s@.len() == 0 ==> r@.len() == 0,
{
    s.to_lowercase()
}

/// Whether `w` occurs in `t` as a contiguous run of characters.
pub open spec fn contains_word(t: Seq<char>, w: Seq<char>) -> bool {
    exists|i: int| 0 <= i && i + w.len() <= t.len() && #[trigger] t.subrange(i, i + w.len()) == w
}

/// Padding a string with white space on either side leaves its trimmed form unchanged.
pub proof fn lemma_trim_padding(p: Seq<char>, s: Seq<char>, q: Seq<char>)
    requires
        forall|i: int| 0 <= i < p.len() ==> is_white(#[trigger] p[i]),
        forall|i: int| 0 <= i < q.len() ==> is_white(#[trigger] q[i]),
    ensures
        trim_of(p + s + q) == trim_of(s),
    decreases p.len() + q.len(),
{
    if p.len() > 0 {
        assert((p + s + q).drop_first() =~= p.drop_first() + s + q);
        lemma_trim_padding(p.drop_first(), s, q);
    } else if q.len() > 0 {
        assert(p + s + q =~= s + q);
        lemma_trim_end_padding(trim_start_of(s), s, q);
    } else {
        assert(p + s + q =~= s);
    }
}

proof fn lemma_trim_end_padding(t: Seq<char>, s: Seq<char>, q: Seq<char>)
    requires
        t == trim_start_of(s),
        forall|i: int| 0 <= i < q.len() ==> is_white(#[trigger] q[i]),
    ensures
        trim_of(s + q) == trim_of(s),
{
    lemma_trim_start_append(s, q);
    if trim_start_of(s + q) == trim_start_of(s) + q {
        lemma_trim_end_white_suffix(trim_start_of(s), q);
    } else {
        lemma_trim_start_all_white(q);
    }
}

proof fn lemma_trim_end_white_suffix(u: Seq<char>, q: Seq<char>)
    requires
        forall|i: int| 0 <= i < q.len() ==> is_white(#[trigger] q[i]),
    ensures
        trim_end_of(u + q) == trim_end_of(u),
    decreases q.len(),
{
    if q.len() == 0 {
        assert(u + q =~= u);
    } else {
        assert((u + q).last() == q[q.len() - 1]);
        assert((u + q).drop_last() =~= u + q.drop_last());
        lemma_trim_end_white_suffix(u, q.drop_last());
    }
}

proof fn lemma_trim_start_append(s: Seq<char>, q: Seq<char>)
    ensures
        trim_start_of(s + q) == trim_start_of(s) + q || (trim_start_of(s).len() == 0
            && trim_start_of(s + q) == trim_start_of(q)),
    decreases s.len(),
{
    if s.len() == 0 {
        assert(s + q =~= q);
    } else if is_white(s[0]) {
        assert((s + q)[0] == s[0]);
        assert((s + q).drop_first() =~= s.drop_first() + q);
        lemma_trim_start_append(s.drop_first(), q);
    } else {
        assert((s + q)[0] == s[0]);
    }
}

proof fn lemma_trim_start_all_white(q: Seq<char>)
    requires
        forall|i: int| 0 <= i < q.len() ==> is_white(#[trigger] q[i]),
    ensures
        trim_start_of(q).len() == 0,
    decreases q.len(),
{
    if q.len() > 0 {
        assert(is_white(q[0]));
        lemma_trim_start_all_white(q.drop_first());
    }
}

} // verus!
