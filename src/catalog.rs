use vstd::prelude::*;
use crate::error::GError;
use crate::target::{Target, TargetTy};
use crate::text::contains_word;

verus! {

/// Where GHC releases are listed and downloaded from.
pub const GHC_DOWNLOAD_BASE_URL: &'static str = "https://downloads.haskell.org/~ghc";

/// The rule that picks release entries out of the index listing.
pub const VERSION_PATTERN: &'static str = "(latest|master|^[0-9]+)";

/// Whether an index label names a release: it holds `latest` or `master`,
/// or starts with a decimal digit.
pub open spec fn is_version_label(t: Seq<char>) -> bool {
    contains_word(t, seq!['l', 'a', 't', 'e', 's', 't'])
        || contains_word(t, seq!['m', 'a', 's', 't', 'e', 'r'])
        || (t.len() > 0 && '0' <= t[0] && t[0] <= '9')
}

/// The download location of a release label.
pub open spec fn location_of(label: Seq<char>) -> Seq<char> {
    GHC_DOWNLOAD_BASE_URL@ + seq!['/'] + label
}

/// The catalog that an index listing with these labels, in this order, yields.
pub open spec fn catalog_of(labels: Seq<Seq<char>>) -> Map<(TargetTy, Seq<char>), Seq<char>>
    decreases labels.len(),
{
    if labels.len() == 0 {
        Map::empty()
    } else {
        let m = catalog_of(labels.drop_last());
        let l = labels.last();
        if is_version_label(l) {
            m.insert((TargetTy::GHC, l), location_of(l))
        } else {
            m
        }
    }
}

/// The texts of the elements named `tag` in an HTML document, in document order.
pub uninterp spec fn element_texts_of(html: Seq<char>, tag: Seq<char>) -> Seq<Seq<char>>;

/// The largest index document, in bytes of UTF-8, that is handed to the HTML
/// parser. The parser keeps each text node in a buffer whose capacity is a
/// power of two below `2^32`, and a text node can grow to three times the
/// input (each NUL becomes a three-byte U+FFFD), so the input stays under a
/// third of `2^31`.
pub const MAX_INDEX_BYTES: usize = 715827882;

/// The most `<` characters an index document may hold. Each element is
/// opened by a tag, so this bounds how deeply elements nest; the parser's
/// tree is copied and read by recursion, one stack frame per level.
pub const MAX_INDEX_TAGS: usize = 1024;

/// How often the byte `x` occurs in `b`.
pub open spec fn count_byte(b: Seq<u8>, x: u8) -> nat
    decreases b.len(),
{
    if b.len() == 0 {
        0
    } else {
        count_byte(b.drop_last(), x) + if b.last() == x {
            1nat
        } else {
            0nat
        }
    }
}

/// Whether a document is within the HTML parser's limits: its length in
/// UTF-8 and the number of `<` characters (byte `0x3C`) in it.
pub open spec fn parser_can_hold(html: Seq<char>) -> bool {
    &&& vstd::utf8::encode_utf8(html).len() <= MAX_INDEX_BYTES
    &&& count_byte(vstd::utf8::encode_utf8(html), 0x3Cu8) <= MAX_INDEX_TAGS
}

/// The number of `<` bytes in `b`.
fn count_tag_openers(b: &[u8]) -> (r: usize)
    ensures
        r == count_byte(b@, 0x3Cu8),
{
    let mut n: usize = 0;
    let mut i: usize = 0;
    while i < b.len()
        invariant
            0 <= i <= b@.len(),
            n <= i,
            n == count_byte(b@.subrange(0, i as int), 0x3Cu8),
        decreases b@.len() - i,
    {
        proof {
            assert(b@.subrange(0, i + 1).drop_last() =~= b@.subrange(0, i as int));
        }
        if b[i] == 0x3Cu8 {
            n = n + 1;
        }
        i = i + 1;
    }
    proof {
        assert(b@.subrange(0, b@.len() as int) =~= b@);
    }
    n
}

/// Relies on select's `Document::from`, `Document::find` with `Name`, and
/// `Node::text`: parses the document and lists the combined text of each
/// element with the given name, in document order. Within the limits of
/// `parser_can_hold` no text buffer outgrows its `u32` capacity and the
/// recursive copy and read of the tree stay a few thousand frames deep.
#[verifier::external_body]
fn element_texts(html: &str, tag: &str) -> (r: Vec<String>)
    requires
        parser_can_hold(html@),
    ensures
        r@.map_values(|s: String| s@) == element_texts_of(html@, tag@),
{
    let document = select::document::Document::from(html);
    document.find(select::predicate::Name(tag)).map(|n| n.text()).collect()
}

/// Relies on regex's `Regex::new` and `Regex::is_match`: the version pattern
/// compiles, and it matches a text exactly when the text holds `latest` or
/// `master` or starts with a character in `0`..=`9`.
#[verifier::external_body]
fn regex_is_match(pattern: &str, text: &str) -> (r: Option<bool>)
    ensures
        pattern@ == VERSION_PATTERN@ ==> r == Some(is_version_label(text@)),
{
    match regex::Regex::new(pattern) {
        Ok(re) => Some(re.is_match(text)),
        Err(_) => None,
    }
}

/// A release listed in the catalog.
#[derive(Debug)]
pub struct CatalogEntry {
    pub target: Target,
    pub download_location: String,
}

/// The map that a list of entries stands for; a later entry wins over an
/// earlier one with the same target.
pub open spec fn entries_map(s: Seq<CatalogEntry>) -> Map<(TargetTy, Seq<char>), Seq<char>>
    decreases s.len(),
{
    if s.len() == 0 {
        Map::empty()
    } else {
        entries_map(s.drop_last()).insert(s.last().target@, s.last().download_location@)
    }
}

/// Whether no two entries share a target.
pub open spec fn entries_unique(s: Seq<CatalogEntry>) -> bool {
    forall|i: int, j: int|
        0 <= i < s.len() && 0 <= j < s.len() && i != j ==> #[trigger] s[i].target@ != #[trigger] s[j].target@
}

/// The value that a map holds at a key, if any.
pub open spec fn lookup(m: Map<(TargetTy, Seq<char>), Seq<char>>, k: (TargetTy, Seq<char>)) -> Option<Seq<char>> {
    if m.contains_key(k) {
        Some(m[k])
    } else {
        None
    }
}

/// The view of an optional string.
pub open spec fn opt_text(o: Option<String>) -> Option<Seq<char>> {
    match o {
        Some(s) => Some(s@),
        None => None,
    }
}

proof fn lemma_unique_drop_last(s: Seq<CatalogEntry>)
    requires
        entries_unique(s),
        s.len() > 0,
    ensures
        entries_unique(s.drop_last()),
{
    let p = s.drop_last();
    assert forall|i: int, j: int| 0 <= i < p.len() && 0 <= j < p.len() && i != j implies #[trigger] p[i].target@
        != #[trigger] p[j].target@ by {
        assert(p[i] == s[i] && p[j] == s[j]);
    }
}

proof fn lemma_unique_update(s: Seq<CatalogEntry>, i: int, e: CatalogEntry)
    requires
        entries_unique(s),
        0 <= i < s.len(),
        e.target@ == s[i].target@,
    ensures
        entries_unique(s.update(i, e)),
{
    let t = s.update(i, e);
    assert forall|a: int, b: int| 0 <= a < t.len() && 0 <= b < t.len() && a != b implies #[trigger] t[a].target@
        != #[trigger] t[b].target@ by {
        assert(t[a].target@ == s[a].target@ && t[b].target@ == s[b].target@);
    }
}

proof fn lemma_unique_push(s: Seq<CatalogEntry>, e: CatalogEntry)
    requires
        entries_unique(s),
        forall|j: int| 0 <= j < s.len() ==> (#[trigger] s[j]).target@ != e.target@,
    ensures
        entries_unique(s.push(e)),
{
    let t = s.push(e);
    assert forall|a: int, b: int| 0 <= a < t.len() && 0 <= b < t.len() && a != b implies #[trigger] t[a].target@
        != #[trigger] t[b].target@ by {
        if a < s.len() && b < s.len() {
            assert(s[a].target@ != s[b].target@);
        } else if a < s.len() {
            assert(s[a].target@ != e.target@);
        } else {
            assert(s[b].target@ != e.target@);
        }
    }
}

proof fn lemma_entries_map_index(s: Seq<CatalogEntry>, i: int)
    requires
        entries_unique(s),
        0 <= i < s.len(),
    ensures
        entries_map(s).contains_key(s[i].target@),
        entries_map(s)[s[i].target@] == s[i].download_location@,
    decreases s.len(),
{
    if i < s.len() - 1 {
        lemma_unique_drop_last(s);
        lemma_entries_map_index(s.drop_last(), i);
        assert(s[i].target@ != s[s.len() - 1].target@);
    }
}

proof fn lemma_entries_map_absent(s: Seq<CatalogEntry>, k: (TargetTy, Seq<char>))
    requires
        forall|i: int| 0 <= i < s.len() ==> (#[trigger] s[i]).target@ != k,
    ensures
        !entries_map(s).contains_key(k),
    decreases s.len(),
{
    if s.len() > 0 {
        lemma_entries_map_absent(s.drop_last(), k);
        assert(s[s.len() - 1].target@ != k);
    }
}

proof fn lemma_entries_map_update(s: Seq<CatalogEntry>, i: int, e: CatalogEntry)
    requires
        entries_unique(s),
        0 <= i < s.len(),
        e.target@ == s[i].target@,
    ensures
        entries_map(s.update(i, e)) == entries_map(s).insert(e.target@, e.download_location@),
    decreases s.len(),
{
    let t = s.update(i, e);
    if i == s.len() - 1 {
        assert(t.drop_last() =~= s.drop_last());
        assert(entries_map(t) =~= entries_map(s).insert(e.target@, e.download_location@));
    } else {
        assert(t.drop_last() =~= s.drop_last().update(i, e));
        lemma_unique_drop_last(s);
        lemma_entries_map_update(s.drop_last(), i, e);
        assert(s[i].target@ != s[s.len() - 1].target@);
        assert(entries_map(t) =~= entries_map(s).insert(e.target@, e.download_location@));
    }
}

/// The catalog of installable releases: a map from target to download location.
#[derive(Debug)]
pub struct TargetCache {
    entries: Vec<CatalogEntry>,
}

impl View for TargetCache {
    type V = Map<(TargetTy, Seq<char>), Seq<char>>;

    closed spec fn view(&self) -> Map<(TargetTy, Seq<char>), Seq<char>> {
        entries_map(self.entries@)
    }
}

impl TargetCache {
    /// Whether the catalog holds each target at most once.
    pub closed spec fn wf(&self) -> bool {
        entries_unique(self.entries@)
    }

    /// An empty catalog.
    pub fn new() -> (r: Self)
        ensures
            r.wf(),
            r@ == Map::<(TargetTy, Seq<char>), Seq<char>>::empty(),
    {
        TargetCache { entries: Vec::new() }
    }

    /// The number of targets in the catalog.
    pub fn len(&self) -> (r: usize)
        requires
            self.wf(),
        ensures
            r == self@.len(),
    {
        proof { self.lemma_len(); }
        self.entries.len()
    }

    proof fn lemma_len(&self)
        requires
            self.wf(),
        ensures
            self@.len() == self.entries@.len(),
            self@.dom().finite(),
    {
        lemma_entries_len(self.entries@);
    }

    /// The download location of a target, if the catalog lists it.
    pub fn resolve(&self, target: &Target) -> (r: Option<String>)
        requires
            self.wf(),
        ensures
            opt_text(r) == lookup(self@, target@),
    {
        let mut i: usize = 0;
        while i < self.entries.len()
            invariant
                self.wf(),
                0 <= i <= self.entries@.len(),
                forall|j: int| 0 <= j < i ==> (#[trigger] self.entries@[j]).target@ != target@,
            decreases self.entries@.len() - i,
        {
            if self.entries[i].target == *target {
                proof {
                    lemma_entries_map_index(self.entries@, i as int);
                }
                return Some(self.entries[i].download_location.clone());
            }
            i = i + 1;
        }
        proof {
            lemma_entries_map_absent(self.entries@, target@);
        }
        None
    }

    /// Lists `target` at `location`, replacing any earlier location of it.
    pub fn insert(&mut self, target: Target, location: String)
        requires
            old(self).wf(),
        ensures
            final(self).wf(),
            final(self)@ == old(self)@.insert(target@, location@),
    {
        let mut i: usize = 0;
        while i < self.entries.len()
            invariant
                self.wf(),
                self == old(self),
                0 <= i <= self.entries@.len(),
                forall|j: int| 0 <= j < i ==> (#[trigger] self.entries@[j]).target@ != target@,
            decreases self.entries@.len() - i,
        {
            if self.entries[i].target == target {
                let e = CatalogEntry { target, download_location: location };
                proof {
                    lemma_entries_map_update(self.entries@, i as int, e);
                    lemma_unique_update(self.entries@, i as int, e);
                }
                self.entries.set(i, e);
                return;
            }
            i = i + 1;
        }
        let e = CatalogEntry { target, download_location: location };
        proof {
            assert(self.entries@.push(e).drop_last() =~= self.entries@);
            lemma_unique_push(self.entries@, e);
        }
        self.entries.push(e);
    }

    /// The catalog that an index listing with these labels yields: one GHC
    /// entry for each label that names a release, at the base URL joined
    /// with the label.
    pub fn from_labels(labels: &Vec<String>) -> (r: Result<TargetCache, GError>)
        ensures
            r is Ok,
            r.unwrap().wf(),
            r.unwrap()@ == catalog_of(labels@.map_values(|s: String| s@)),
    {
        let ghost all = labels@.map_values(|s: String| s@);
        let mut scratch = TargetCache::new();
        let mut i: usize = 0;
        while i < labels.len()
            invariant
                scratch.wf(),
                0 <= i <= labels@.len(),
                all == labels@.map_values(|s: String| s@),
                scratch@ == catalog_of(all.subrange(0, i as int)),
            decreases labels@.len() - i,
        {
            let label = &labels[i];
            proof {
                assert(all.subrange(0, i + 1).drop_last() =~= all.subrange(0, i as int));
                assert(all.subrange(0, i + 1).last() == label@);
            }
            match regex_is_match(VERSION_PATTERN, label.as_str()) {
                None => {
                    return Err(GError::CatalogUnavailable);
                },
                Some(true) => {
                    let location = GHC_DOWNLOAD_BASE_URL.to_owned().concat("/").concat(label.as_str());
                    proof {
                        reveal_strlit("/");
                        assert("/"@ =~= seq!['/']);
                    }
                    scratch.insert(Target { target_ty: TargetTy::GHC, version: label.clone() }, location);
                },
                Some(false) => {},
            }
            i = i + 1;
        }
        proof {
            assert(all.subrange(0, labels@.len() as int) =~= all);
        }
        Ok(scratch)
    }

    /// Rebuilds the catalog from a fetched index document, or from a failed
    /// fetch (`None`). A fresh catalog replaces the whole mapping; a failed
    /// fetch, or a document beyond the parser's limits (`MAX_INDEX_BYTES`,
    /// `MAX_INDEX_TAGS`), leaves the catalog exactly as it was.
    pub fn build(&mut self, index_html: Option<String>) -> (r: Result<(), GError>)
        requires
            old(self).wf(),
        ensures
            final(self).wf(),
            match index_html {
                None => r == Err::<(), GError>(GError::CatalogUnavailable) && final(self)@ == old(self)@,
                Some(h) => if parser_can_hold(h@) {
                    r is Ok && final(self)@ == catalog_of(element_texts_of(h@, seq!['a']))
                } else {
                    r == Err::<(), GError>(GError::CatalogUnavailable) && final(self)@ == old(self)@
                },
            },
    {
        match index_html {
            None => Err(GError::CatalogUnavailable),
            Some(h) => {
                let bytes = h.as_str().as_bytes();
                if bytes.len() > MAX_INDEX_BYTES {
                    return Err(GError::CatalogUnavailable);
                }
                if count_tag_openers(bytes) > MAX_INDEX_TAGS {
                    return Err(GError::CatalogUnavailable);
                }
                proof {
                    reveal_strlit("a");
                    assert("a"@ =~= seq!['a']);
                }
                let labels = element_texts(h.as_str(), "a");
                match TargetCache::from_labels(&labels) {
                    Ok(fresh) => {
                        *self = fresh;
                        Ok(())
                    },
                    Err(e) => Err(e),
                }
            },
        }
    }
}

proof fn lemma_entries_len(s: Seq<CatalogEntry>)
    requires
        entries_unique(s),
    ensures
        entries_map(s).len() == s.len(),
        entries_map(s).dom().finite(),
    decreases s.len(),
{
    if s.len() > 0 {
        let p = s.drop_last();
        lemma_unique_drop_last(s);
        lemma_entries_len(p);
        assert forall|i: int| 0 <= i < p.len() implies (#[trigger] p[i]).target@ != s.last().target@ by {
            assert(s[i].target@ != s[s.len() - 1].target@);
        }
        lemma_entries_map_absent(p, s.last().target@);
    }
}

} // verus!
