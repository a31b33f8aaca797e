//! The research-artifact catalogue: classification, checksumming,
//! front-matter tag extraction, index deduplication and summarization.
use vstd::prelude::*;

verus! {

use crate::textutil::contains_seq;
use crate::textutil::ends_with_seq;
use crate::textutil::hex8_chars;
use crate::textutil::lower_of;
use crate::textutil::str_contains;
use crate::textutil::str_ends_with;
use crate::textutil::str_eq;
use crate::textutil::to_lowercase;
use crate::textutil::utf8_lossy_of;

/// One catalogued artifact.
pub struct ResearchArtifact {
    pub id: String,
    pub kind: String,
    pub path: String,
    pub ts: String,
    pub ttl: u64,
    pub tags: Vec<String>,
    pub checksum: String,
    pub git_commit: Option<String>,
    pub git_branch: Option<String>,
}

/// An artifact nearing or past its expiry.
pub struct ExpiringArtifact {
    pub path: String,
    pub expires_at: String,
    pub seconds_remaining: i64,
}

/// The catalogue's covered time span.
pub struct TimeSpan {
    pub earliest: String,
    pub latest: String,
}

/// The Adler-32 state after a byte sequence: the running sum and the sum
/// of running sums, each modulo 65521.
pub open spec fn adler_pair(s: Seq<u8>) -> (int, int)
    decreases s.len(),
{
    if s.len() == 0 {
        (1int, 0int)
    } else {
        let p = adler_pair(s.drop_last());
        let a = (p.0 + s.last()) % 65521;
        (a, (p.1 + a) % 65521)
    }
}

/// The Adler-32 checksum: the sum-of-sums in the high half, the running
/// sum in the low half.
pub open spec fn adler32_spec(s: Seq<u8>) -> int {
    adler_pair(s).1 * 65536 + adler_pair(s).0
}

/// Computes the Adler-32 checksum of a byte string.
pub fn adler32(bytes: &[u8]) -> (r: u32)
    ensures
        r == adler32_spec(bytes@),
{
    let mut a: u32 = 1;
    let mut b: u32 = 0;
    let n = bytes.len();
    let mut i: usize = 0;
    while i < n
        invariant
            n == bytes@.len(),
            i <= n,
            a < 65521 || (i == 0 && a == 1),
            b < 65521,
            a == adler_pair(bytes@.take(i as int)).0,
            b == adler_pair(bytes@.take(i as int)).1,
        decreases n - i,
    {
        proof {
            assert(bytes@.take(i + 1).drop_last() =~= bytes@.take(i as int));
            assert(bytes@.take(i + 1).last() == bytes@[i as int]);
        }
        a = (a + bytes[i] as u32) % 65521;
        b = (b + a) % 65521;
        i += 1;
    }
    proof {
        assert(bytes@.take(n as int) =~= bytes@);
    }
    b * 65536 + a
}

/// The checksum rendered as the catalogue writes it: eight hexadecimal
/// digits.
pub fn checksum_hex(bytes: &[u8]) -> (r: String)
    ensures
        r@ == hex8_chars(adler32_spec(bytes@)),
{
    crate::textutil::hex8(adler32(bytes))
}

/// The artifact kind for a lower-cased path, decided by the first matching
/// location pattern, then by extension.
pub open spec fn kind_chars(lp: Seq<char>) -> Seq<char> {
    if contains_seq(lp, "/prompts/"@) {
        "prompt"@
    } else if contains_seq(lp, "/policies/"@) {
        "policy"@
    } else if contains_seq(lp, "/schemas/"@) {
        "schema"@
    } else if contains_seq(lp, "/trace/golden/"@) {
        "trace"@
    } else if contains_seq(lp, "/docs/"@) || ends_with_seq(lp, "readme.md"@) {
        "doc"@
    } else if ends_with_seq(lp, ".json"@) || ends_with_seq(lp, ".yaml"@) || ends_with_seq(
        lp,
        ".yml"@,
    ) {
        "dataset"@
    } else {
        "other"@
    }
}

/// Classifies a path into an artifact kind.
pub fn kind_for(path: &str) -> (r: String)
    ensures
        r@ == kind_chars(lower_of(path@)),
{
    let lowered = to_lowercase(path);
    let p = lowered.as_str();
    let kind: &str = if str_contains(p, "/prompts/") {
        "prompt"
    } else if str_contains(p, "/policies/") {
        "policy"
    } else if str_contains(p, "/schemas/") {
        "schema"
    } else if str_contains(p, "/trace/golden/") {
        "trace"
    } else if str_contains(p, "/docs/") || str_ends_with(p, "readme.md") {
        "doc"
    } else if str_ends_with(p, ".json") || str_ends_with(p, ".yaml") || str_ends_with(p, ".yml") {
        "dataset"
    } else {
        "other"
    };
    String::from_str(kind)
}

/// An insertion-ordered counting map with text keys. Keys are unique; a
/// missing key counts as zero.
pub struct CountMap {
    entries: Vec<(String, usize)>,
    increments: Ghost<int>,
}

impl CountMap {
    /// Keys are unique and every count is covered by the number of
    /// increments taken so far.
    pub closed spec fn wf(self) -> bool {
        &&& forall|i: int, j: int|
            0 <= i < j < self.entries@.len() ==> self.entries@[i].0@ != self.entries@[j].0@
        &&& forall|i: int|
            0 <= i < self.entries@.len() ==> #[trigger] self.entries@[i].1 <= self.increments@
        &&& self.increments@ >= 0
    }

    /// How many increments this map has taken.
    pub closed spec fn increments(self) -> int {
        self.increments@
    }

    /// The key is present.
    pub closed spec fn has(self, k: Seq<char>) -> bool {
        exists|i: int| 0 <= i < self.entries@.len() && #[trigger] self.entries@[i].0@ == k
    }

    /// The count recorded under a key; zero when absent.
    pub closed spec fn count(self, k: Seq<char>) -> int {
        if self.has(k) {
            let i = choose|i: int|
                0 <= i < self.entries@.len() && #[trigger] self.entries@[i].0@ == k;
            self.entries@[i].1 as int
        } else {
            0
        }
    }

    /// The keys in insertion order.
    pub closed spec fn keys(self) -> Seq<Seq<char>> {
        self.entries@.map_values(|e: (String, usize)| e.0@)
    }

    pub fn new() -> (m: Self)
        ensures
            m.wf(),
            m.increments() == 0,
            forall|k: Seq<char>| m.count(k) == 0,
            m.keys().len() == 0,
    {
        CountMap { entries: Vec::new(), increments: Ghost(0) }
    }

    /// With unique keys, the count under the key at `i` is that entry's
    /// count.
    proof fn lemma_count_at(self, i: int)
        requires
            self.wf(),
            0 <= i < self.entries@.len(),
        ensures
            self.has(self.entries@[i].0@),
            self.count(self.entries@[i].0@) == self.entries@[i].1,
    {
        let k = self.entries@[i].0@;
        assert(self.has(k)) by {
            assert(self.entries@[i].0@ == k);
        }
        let w = choose|w: int| 0 <= w < self.entries@.len() && #[trigger] self.entries@[w].0@ == k;
        if w != i {
            if w < i {
                assert(self.entries@[w].0@ != self.entries@[i].0@);
            } else {
                assert(self.entries@[i].0@ != self.entries@[w].0@);
            }
        }
    }

    /// A key present in the map names some entry.
    proof fn lemma_witness(self, k: Seq<char>) -> (w: int)
        requires
            self.has(k),
        ensures
            0 <= w < self.entries@.len(),
            self.entries@[w].0@ == k,
    {
        choose|w: int| 0 <= w < self.entries@.len() && #[trigger] self.entries@[w].0@ == k
    }

    /// The entries in insertion order, each key with its count.
    pub fn entries(&self) -> (v: &Vec<(String, usize)>)
        requires
            self.wf(),
        ensures
            v@.len() == self.keys().len(),
            forall|i: int|
                0 <= i < v@.len() ==> #[trigger] v@[i].0@ == self.keys()[i] && v@[i].1 == self.count(
                    self.keys()[i],
                ),
    {
        proof {
            assert forall|i: int| 0 <= i < self.entries@.len() implies #[trigger] self.entries@[i].0@
                == self.keys()[i] && self.entries@[i].1 == self.count(self.keys()[i]) by {
                self.lemma_count_at(i);
            }
        }
        &self.entries
    }

    /// Looks a key up; zero when absent.
    pub fn get(&self, key: &str) -> (c: usize)
        requires
            self.wf(),
        ensures
            c == self.count(key@),
    {
        let n = self.entries.len();
        let mut i: usize = 0;
        while i < n
            invariant
                self.wf(),
                n == self.entries@.len(),
                i <= n,
                forall|k: int| 0 <= k < i ==> #[trigger] self.entries@[k].0@ != key@,
            decreases n - i,
        {
            if str_eq(self.entries[i].0.as_str(), key) {
                proof {
                    self.lemma_count_at(i as int);
                }
                return self.entries[i].1;
            }
            i += 1;
        }
        proof {
            if self.has(key@) {
                let w = self.lemma_witness(key@);
            }
        }
        0
    }

    /// Adds one to a key's count, creating it at the back when absent.
    pub fn increment(&mut self, key: &str)
        requires
            old(self).wf(),
            old(self).increments() < usize::MAX,
        ensures
            final(self).wf(),
            final(self).increments() == old(self).increments() + 1,
            final(self).count(key@) == old(self).count(key@) + 1,
            forall|k: Seq<char>| k != key@ ==> final(self).count(k) == old(self).count(k),
            final(self).keys() == if old(self).has(key@) {
                old(self).keys()
            } else {
                old(self).keys().push(key@)
            },
    {
        let n = self.entries.len();
        let mut i: usize = 0;
        while i < n
            invariant
                *self == *old(self),
                old(self).wf(),
                old(self).increments() < usize::MAX,
                n == self.entries@.len(),
                i <= n,
                forall|k: int| 0 <= k < i ==> #[trigger] self.entries@[k].0@ != key@,
            decreases n - i,
        {
            if str_eq(self.entries[i].0.as_str(), key) {
                let c = self.entries[i].1;
                proof {
                    assert(old(self).entries@[i as int].1 <= old(self).increments());
                    old(self).lemma_count_at(i as int);
                }
                let name = self.entries[i].0.clone();
                self.entries.set(i, (name, c + 1));
                proof {
                    self.increments@ = self.increments@ + 1;
                    let se = self.entries@;
                    let oe = old(self).entries@;
                    assert(forall|x: int|
                        0 <= x < se.len() ==> #[trigger] se[x].0@ == oe[x].0@);
                    assert(self.wf()) by {
                        assert forall|x: int, y: int| 0 <= x < y < se.len() implies se[x].0@
                            != se[y].0@ by {
                            assert(oe[x].0@ != oe[y].0@);
                        }
                    }
                    self.lemma_count_at(i as int);
                    assert forall|k: Seq<char>| k != key@ implies self.count(k) == old(self).count(
                        k,
                    ) by {
                        if self.has(k) {
                            let x = self.lemma_witness(k);
                            assert(oe[x].0@ == k);
                            self.lemma_count_at(x);
                            old(self).lemma_count_at(x);
                        } else if old(self).has(k) {
                            let x = old(self).lemma_witness(k);
                            assert(se[x].0@ == k);
                            assert(self.has(k)) by {
                                assert(self.entries@[x].0@ == k);
                            }
                        }
                    }
                    assert(self.keys() =~= old(self).keys());
                }
                return ;
            }
            i += 1;
        }
        proof {
            assert(!old(self).has(key@)) by {
                if old(self).has(key@) {
                    let w = old(self).lemma_witness(key@);
                    assert(self.entries@[w].0@ != key@);
                }
            }
        }
        self.entries.push((String::from_str(key), 1));
        proof {
            self.increments@ = self.increments@ + 1;
            let se = self.entries@;
            let oe = old(self).entries@;
            assert(se[n as int].0@ == key@);
            assert(forall|x: int| 0 <= x < n ==> #[trigger] se[x].0@ == oe[x].0@);
            assert(self.wf()) by {
                assert forall|x: int, y: int| 0 <= x < y < se.len() implies se[x].0@ != se[y].0@ by {
                    if y < n {
                        assert(oe[x].0@ != oe[y].0@);
                    } else {
                        assert(oe[x].0@ != key@);
                    }
                }
                assert forall|x: int| 0 <= x < se.len() implies #[trigger] se[x].1
                    <= self.increments@ by {
                    if x < n {
                        assert(oe[x].1 <= old(self).increments());
                    }
                }
            }
            self.lemma_count_at(n as int);
            assert(old(self).count(key@) == 0);
            assert forall|k: Seq<char>| k != key@ implies self.count(k) == old(self).count(k) by {
                if self.has(k) {
                    let x = self.lemma_witness(k);
                    assert(x != n);
                    assert(oe[x].0@ == k);
                    self.lemma_count_at(x);
                    old(self).lemma_count_at(x);
                } else if old(self).has(k) {
                    let x = old(self).lemma_witness(k);
                    assert(se[x].0@ == k);
                    assert(self.has(k)) by {
                        assert(self.entries@[x].0@ == k);
                    }
                }
            }
            assert(self.keys() =~= old(self).keys().push(key@));
        }
    }
}


/// A character `str::trim` removes at either end (the ASCII whitespace
/// subset).
pub open spec fn is_space_char(c: char) -> bool {
    c == ' ' || c == '\t' || c == '\n' || c == '\r' || c == '\u{b}' || c == '\u{c}'
}

/// The text with leading and trailing whitespace removed.
pub open spec fn trim_chars(s: Seq<char>) -> Seq<char>
    decreases s.len(),
{
    if s.len() == 0 {
        s
    } else if is_space_char(s[0]) {
        trim_chars(s.skip(1))
    } else if is_space_char(s.last()) {
        trim_chars(s.drop_last())
    } else {
        s
    }
}

/// The text split at newlines, as `str::lines` splits it: the final line
/// needs no trailing newline, and a trailing newline adds no empty line.
pub open spec fn split_lines(s: Seq<char>) -> Seq<Seq<char>>
    decreases s.len(),
    via split_lines_decreases
{
    if s.len() == 0 {
        Seq::empty()
    } else {
        match s.index_of_first('\n') {
            Some(e) => seq![s.take(e)] + split_lines(s.skip(e + 1)),
            None => seq![s],
        }
    }
}

#[via_fn]
proof fn split_lines_decreases(s: Seq<char>) {
    if s.len() > 0 {
        s.index_of_first_ensures('\n');
    }
}

/// The text with every leading dash removed, as `trim_start_matches('-')`
/// leaves it.
pub open spec fn strip_dashes(s: Seq<char>) -> Seq<char>
    decreases s.len(),
{
    if s.len() > 0 && s[0] == '-' {
        strip_dashes(s.skip(1))
    } else {
        s
    }
}

/// The tag values the front-matter scanner collects from the given lines:
/// a closing marker or a blank line inside the tag block ends the scan, a
/// `tags:` header opens the block, and inside it each dash item's trimmed
/// value is collected.
pub open spec fn tags_in_lines(lines: Seq<Seq<char>>, in_tags: bool) -> Seq<Seq<char>>
    decreases lines.len(),
{
    if lines.len() == 0 {
        Seq::empty()
    } else {
        let t = trim_chars(lines[0]);
        let rest = lines.skip(1);
        if t == "---"@ {
            Seq::empty()
        } else if crate::textutil::starts_with_seq(t, "tags:"@) {
            tags_in_lines(rest, true)
        } else if in_tags {
            if t.len() > 0 && t[0] == '-' {
                let val = trim_chars(strip_dashes(t));
                (if val.len() > 0 {
                    seq![val]
                } else {
                    Seq::<Seq<char>>::empty()
                }) + tags_in_lines(rest, true)
            } else if t.len() == 0 {
                Seq::empty()
            } else {
                tags_in_lines(rest, false)
            }
        } else {
            tags_in_lines(rest, false)
        }
    }
}

/// The tags of a document: nothing unless the first line is the
/// front-matter marker, else whatever the scanner collects from the
/// remaining lines.
pub open spec fn front_tags(s: Seq<char>) -> Seq<Seq<char>> {
    let ls = split_lines(s);
    if ls.len() > 0 && trim_chars(ls[0]) == "---"@ {
        tags_in_lines(ls.skip(1), false)
    } else {
        Seq::empty()
    }
}

/// The position of the line break at or after `from`, or the text's end.
fn find_line_end(s: &str, from: usize, n: usize) -> (e: usize)
    requires
        n == s@.len(),
        from <= n,
    ensures
        from <= e <= n,
        forall|k: int| from <= k < e ==> s@[k] != '\n',
        e < n ==> s@[e as int] == '\n',
{
    let mut e = from;
    while e < n
        invariant
            n == s@.len(),
            from <= e <= n,
            forall|k: int| from <= k < e ==> s@[k] != '\n',
        decreases n - e,
    {
        if s.get_char(e) == '\n' {
            return e;
        }
        e += 1;
    }
    e
}

/// Whether the character at `i` is trimmed whitespace.
fn is_space_at(s: &str, i: usize) -> (r: bool)
    requires
        i < s@.len(),
    ensures
        r == is_space_char(s@[i as int]),
{
    let c = s.get_char(i);
    c == ' ' || c == '\t' || c == '\n' || c == '\r' || c == '\u{b}' || c == '\u{c}'
}

/// The bounds of `trim` applied to the line `s[a..b]`.
fn trim_range(s: &str, a: usize, b: usize) -> (r: (usize, usize))
    requires
        a <= b <= s@.len(),
    ensures
        a <= r.0 <= r.1 <= b,
        s@.subrange(r.0 as int, r.1 as int) == trim_chars(s@.subrange(a as int, b as int)),
{
    let mut lo = a;
    let mut hi = b;
    while lo < hi && is_space_at(s, lo)
        invariant
            a <= lo <= hi <= b <= s@.len(),
            trim_chars(s@.subrange(lo as int, hi as int)) == trim_chars(
                s@.subrange(a as int, b as int),
            ),
        decreases hi - lo,
    {
        proof {
            let cur = s@.subrange(lo as int, hi as int);
            assert(is_space_char(cur[0]));
            assert(cur.skip(1) =~= s@.subrange(lo + 1, hi as int));
        }
        lo += 1;
    }
    while hi > lo && is_space_at(s, hi - 1)
        invariant
            a <= lo <= hi <= b <= s@.len(),
            trim_chars(s@.subrange(lo as int, hi as int)) == trim_chars(
                s@.subrange(a as int, b as int),
            ),
            lo < hi ==> !is_space_char(s@[lo as int]),
        decreases hi - lo,
    {
        proof {
            let cur = s@.subrange(lo as int, hi as int);
            assert(cur[0] == s@[lo as int]);
            assert(cur.last() == s@[hi - 1]);
            assert(is_space_char(cur.last()));
            assert(cur.drop_last() =~= s@.subrange(lo as int, hi - 1));
        }
        hi -= 1;
    }
    proof {
        let cur = s@.subrange(lo as int, hi as int);
        if lo == hi {
            assert(cur.len() == 0);
        } else {
            assert(cur[0] == s@[lo as int]);
            assert(cur.last() == s@[hi - 1]);
        }
    }
    (lo, hi)
}

/// Whether the range `s[a..b]` holds exactly the characters of `lit`.
fn range_eq(s: &str, a: usize, b: usize, lit: &str) -> (r: bool)
    requires
        a <= b <= s@.len(),
    ensures
        r == (s@.subrange(a as int, b as int) == lit@),
{
    let m = lit.unicode_len();
    if b - a != m {
        return false;
    }
    let mut j: usize = 0;
    while j < m
        invariant
            a <= b <= s@.len(),
            m == lit@.len(),
            b - a == m,
            j <= m,
            forall|k: int| 0 <= k < j ==> s@[a + k] == lit@[k],
        decreases m - j,
    {
        if s.get_char(a + j) != lit.get_char(j) {
            proof {
                assert(s@.subrange(a as int, b as int)[j as int] == s@[a + j]);
            }
            return false;
        }
        j += 1;
    }
    proof {
        assert(s@.subrange(a as int, b as int) =~= lit@);
    }
    true
}

/// Whether the range `s[a..b]` begins with the characters of `lit`.
fn range_starts_with(s: &str, a: usize, b: usize, lit: &str) -> (r: bool)
    requires
        a <= b <= s@.len(),
    ensures
        r == crate::textutil::starts_with_seq(s@.subrange(a as int, b as int), lit@),
{
    let m = lit.unicode_len();
    if b - a < m {
        return false;
    }
    let mut j: usize = 0;
    while j < m
        invariant
            a <= b <= s@.len(),
            m == lit@.len(),
            m <= b - a,
            j <= m,
            forall|k: int| 0 <= k < j ==> s@[a + k] == lit@[k],
        decreases m - j,
    {
        if s.get_char(a + j) != lit.get_char(j) {
            proof {
                let sub = s@.subrange(a as int, b as int);
                assert(sub.subrange(0, m as int)[j as int] == s@[a + j]);
            }
            return false;
        }
        j += 1;
    }
    proof {
        let sub = s@.subrange(a as int, b as int);
        assert(sub.subrange(0, m as int) =~= lit@);
    }
    true
}

/// Extracts the tag list from a document's leading YAML front matter.
pub fn front_matter_tags(buf: &[u8]) -> (tags: Vec<String>)
    ensures
        tags@.map_values(|t: String| t@) == front_tags(utf8_lossy_of(buf@)),
{
    let decoded = crate::textutil::utf8_lossy(buf);
    let s = decoded.as_str();
    let n = s.unicode_len();
    let ghost sv = s@;
    let ghost llist = split_lines(sv);

    let mut tags: Vec<String> = Vec::new();

    if n == 0 {
        return tags;
    }
    // Collect the line boundaries, and check the opening marker as soon as
    // the first line is in hand.
    let mut ranges: Vec<(usize, usize)> = Vec::new();
    let mut pos: usize = 0;
    let mut open = false;
    proof {
        assert(sv.skip(0) =~= sv);
        assert(llist.take(0) + split_lines(sv) =~= llist);
    }
    while pos < n
        invariant
            n == sv.len(),
            sv == s@,
            sv == utf8_lossy_of(buf@),
            llist == split_lines(sv),
            tags@.len() == 0,
            pos == 0 ==> ranges@.len() == 0,
            pos == 0 || open,
            open ==> llist.len() > 0 && trim_chars(llist[0]) == "---"@,
            pos <= n,
            ranges@.len() <= llist.len(),
            forall|i: int|
                0 <= i < ranges@.len() ==> 0 <= #[trigger] ranges@[i].0 <= ranges@[i].1 <= n
                    && sv.subrange(ranges@[i].0 as int, ranges@[i].1 as int) == llist[i],
            llist =~= llist.take(ranges@.len() as int) + split_lines(sv.skip(pos as int)),
            pos < n ==> ranges@.len() < llist.len(),
            pos == n ==> ranges@.len() == llist.len(),
        decreases n - pos,
    {
        let e = find_line_end(s, pos, n);
        proof {
            let suffix = sv.skip(pos as int);
            suffix.index_of_first_ensures('\n');
            if e < n {
                assert(suffix[e - pos] == '\n');
                match suffix.index_of_first('\n') {
                    Some(fi) => {
                        if fi < e - pos {
                            assert(sv[pos + fi] != '\n');
                        }
                        if fi > e - pos {
                            assert(suffix[e - pos] != '\n');
                        }
                        assert(fi == e - pos);
                        assert(split_lines(suffix) == seq![suffix.take(fi)] + split_lines(
                            suffix.skip(fi + 1),
                        ));
                        assert(suffix.take(fi) =~= sv.subrange(pos as int, e as int));
                        assert(suffix.skip(fi + 1) =~= sv.skip(e + 1));
                        assert(split_lines(suffix) == seq![sv.subrange(pos as int, e as int)]
                            + split_lines(sv.skip(e + 1)));
                    },
                    None => {
                        assert(suffix.contains('\n')) by {
                            assert(suffix[e - pos] == '\n');
                        }
                        assert(false);
                    },
                }
            } else {
                match suffix.index_of_first('\n') {
                    Some(fi) => {
                        assert(sv[pos + fi] != '\n');
                        assert(false);
                    },
                    None => {},
                }
                assert(split_lines(suffix) == seq![suffix]);
                assert(suffix =~= sv.subrange(pos as int, n as int));
                assert(split_lines(suffix) == seq![sv.subrange(pos as int, e as int)]);
            }
            assert(llist.take(ranges@.len() as int).push(sv.subrange(pos as int, e as int))
                =~= llist.take(ranges@.len() as int + 1));
        }
        ranges.push((pos, e));
        proof {
            if e < n {
                assert(llist =~= llist.take(ranges@.len() as int) + split_lines(
                    sv.skip(e + 1),
                ));
            } else {
                assert(split_lines(sv.skip(n as int)) =~= Seq::<Seq<char>>::empty());
                assert(llist =~= llist.take(ranges@.len() as int) + split_lines(
                    sv.skip(n as int),
                ));
            }
            assert(llist[ranges@.len() - 1] == sv.subrange(pos as int, e as int));
        }
        if pos == 0 {
            let t = trim_range(s, pos, e);
            open = range_eq(s, t.0, t.1, "---");
            if !open {
                proof {
                    assert(llist[0] == sv.subrange(0, e as int));
                    assert(front_tags(sv) =~= Seq::<Seq<char>>::empty());
                    assert(tags@.map_values(|t: String| t@) =~= Seq::<Seq<char>>::empty());
                }
                return tags;
            }
        }
        if e < n {
            pos = e + 1;
        } else {
            pos = n;
        }
    }
    if !open {
        // An empty text has no lines at all, so no front matter.
        return tags;
    }
    proof {
        assert(llist.len() > 0);
        assert(trim_chars(llist[0]) == "---"@);
        assert(llist =~= llist.take(llist.len() as int));
    }

    // Scan the remaining lines for the tag block.
    let mut in_tags = false;
    let mut i: usize = 1;
    let nlines = ranges.len();
    while i < nlines
        invariant
            n == sv.len(),
            sv == s@,
            sv == utf8_lossy_of(buf@),
            llist == split_lines(sv),
            nlines == ranges@.len(),
            nlines == llist.len(),
            1 <= i <= nlines,
            forall|k: int|
                0 <= k < ranges@.len() ==> 0 <= #[trigger] ranges@[k].0 <= ranges@[k].1 <= n
                    && sv.subrange(ranges@[k].0 as int, ranges@[k].1 as int) == llist[k],
            front_tags(sv) == tags@.map_values(|t: String| t@) + tags_in_lines(
                llist.skip(i as int),
                in_tags,
            ),
        decreases nlines - i,
    {
        let (la, lb) = (ranges[i].0, ranges[i].1);
        let t = trim_range(s, la, lb);
        let ghost tv = trim_chars(llist[i as int]);
        proof {
            assert(sv.subrange(la as int, lb as int) == llist[i as int]);
            assert(sv.subrange(t.0 as int, t.1 as int) == tv);
            assert(llist.skip(i as int)[0] == llist[i as int]);
            assert(llist.skip(i as int).skip(1) =~= llist.skip(i + 1));
        }
        if range_eq(s, t.0, t.1, "---") {
            proof {
                assert(tags_in_lines(llist.skip(i as int), in_tags) =~= Seq::<Seq<char>>::empty());
                assert(tags@.map_values(|t: String| t@) + Seq::<Seq<char>>::empty() =~= tags@
                    .map_values(|t: String| t@));
            }
            return tags;
        }
        if range_starts_with(s, t.0, t.1, "tags:") {
            in_tags = true;
            i += 1;
            continue ;
        }
        if in_tags {
            if t.1 > t.0 && s.get_char(t.0) == '-' {
                // A dash item: drop the leading dashes, trim, and keep a
                // non-empty value.
                let mut da = t.0;
                while da < t.1 && s.get_char(da) == '-'
                    invariant
                        t.0 <= da <= t.1 <= sv.len(),
                        sv == s@,
                        strip_dashes(sv.subrange(da as int, t.1 as int)) == strip_dashes(
                            sv.subrange(t.0 as int, t.1 as int),
                        ),
                    decreases t.1 - da,
                {
                    proof {
                        let cur = sv.subrange(da as int, t.1 as int);
                        assert(cur[0] == sv[da as int]);
                        assert(cur.skip(1) =~= sv.subrange(da + 1, t.1 as int));
                    }
                    da += 1;
                }
                proof {
                    let cur = sv.subrange(da as int, t.1 as int);
                    if da < t.1 {
                        assert(cur[0] == sv[da as int]);
                    }
                    assert(strip_dashes(cur) == cur);
                }
                let v = trim_range(s, da, t.1);
                let ghost val = trim_chars(strip_dashes(tv));
                proof {
                    assert(sv.subrange(v.0 as int, v.1 as int) == val);
                }
                if v.1 > v.0 {
                    let ghost before = tags@;
                    let tag = String::from_str(s.substring_char(v.0, v.1));
                    tags.push(tag);
                    proof {
                        assert(tags@.map_values(|t: String| t@) =~= before.map_values(
                            |t: String| t@,
                        ).push(val));
                        assert(before.map_values(|t: String| t@).push(val) + tags_in_lines(
                            llist.skip(i + 1),
                            true,
                        ) =~= before.map_values(|t: String| t@) + (seq![val] + tags_in_lines(
                            llist.skip(i + 1),
                            true,
                        )));
                    }
                }
                in_tags = true;
            } else if t.1 == t.0 {
                proof {
                    assert(tv.len() == 0);
                    assert(tags_in_lines(llist.skip(i as int), in_tags) =~= Seq::<
                        Seq<char>,
                    >::empty());
                    assert(tags@.map_values(|t: String| t@) + Seq::<Seq<char>>::empty() =~= tags@
                        .map_values(|t: String| t@));
                }
                return tags;
            } else {
                proof {
                    assert(tv.len() > 0);
                    assert(tv[0] == sv[t.0 as int]);
                }
                in_tags = false;
            }
        }
        i += 1;
    }
    proof {
        assert(llist.skip(nlines as int) =~= Seq::<Seq<char>>::empty());
        assert(tags@.map_values(|t: String| t@) + Seq::<Seq<char>>::empty() =~= tags@.map_values(
            |t: String| t@,
        ));
    }
    tags
}

/// The fourteen-day default time-to-live of a catalogued artifact, in
/// seconds.
pub const DEFAULT_TTL_SECS: u64 = 1_209_600;

/// The tags recorded for a file: its front matter's, with a default
/// `policy` tag for otherwise untagged policy files.
pub open spec fn file_tags(path: Seq<char>, bytes: Seq<u8>) -> Seq<Seq<char>> {
    let base = front_tags(utf8_lossy_of(bytes));
    if base.len() == 0 && kind_chars(lower_of(path)) == "policy"@ {
        seq!["policy"@]
    } else {
        base
    }
}

/// Builds the catalogue record of one file from its path, bytes, modified
/// time and repository provenance. The timestamp falls back to the current
/// time where the file's own is unavailable.
pub fn artifact_from_file(
    path: &str,
    rel: &str,
    bytes: &[u8],
    mtime_secs: Option<i64>,
    now_secs: i64,
    git_commit: Option<String>,
    git_branch: Option<String>,
) -> (a: ResearchArtifact)
    requires
        crate::timefmt::RFC3339_MIN_SECS <= now_secs <= crate::timefmt::FORMAT_MAX_SECS,
        mtime_secs matches Some(t) ==> crate::timefmt::RFC3339_MIN_SECS <= t
            <= crate::timefmt::FORMAT_MAX_SECS,
    ensures
        a.id@ == rel@ + "#"@ + hex8_chars(adler32_spec(bytes@)),
        a.kind@ == kind_chars(lower_of(path@)),
        a.path@ == rel@,
        a.ts@ == crate::timefmt::rfc3339_of(
            match mtime_secs {
                Some(t) => t as int,
                None => now_secs as int,
            },
        ),
        a.ttl == if contains_seq(path@, "trace/golden/"@) {
            0
        } else {
            DEFAULT_TTL_SECS
        },
        a.tags@.map_values(|t: String| t@) == file_tags(path@, bytes@),
        a.checksum@ == hex8_chars(adler32_spec(bytes@)),
        a.git_commit == git_commit,
        a.git_branch == git_branch,
{
    let checksum = checksum_hex(bytes);
    let ts = match mtime_secs {
        Some(t) => crate::timefmt::format_rfc3339(t),
        None => crate::timefmt::format_rfc3339(now_secs),
    };
    let ttl: u64 = if str_contains(path, "trace/golden/") {
        0
    } else {
        DEFAULT_TTL_SECS
    };
    let kind = kind_for(path);
    let mut tags = front_matter_tags(bytes);
    if tags.len() == 0 && str_eq(kind.as_str(), "policy") {
        tags.push(String::from_str("policy"));
        proof {
            assert(tags@.map_values(|t: String| t@) =~= seq!["policy"@]);
        }
    }
    let mut id = String::from_str(rel);
    id.append("#");
    id.append(checksum.as_str());
    ResearchArtifact {
        id,
        kind,
        path: String::from_str(rel),
        ts,
        ttl,
        tags,
        checksum,
        git_commit,
        git_branch,
    }
}

/// Some artifact in `s` carries the checksum `c`.
pub open spec fn has_checksum(s: Seq<ResearchArtifact>, c: Seq<char>) -> bool {
    exists|m: int| 0 <= m < s.len() && (#[trigger] s[m].checksum@) == c
}

/// The artifact at `i` is the first with its checksum.
pub open spec fn first_with_checksum(arts: Seq<ResearchArtifact>, i: int) -> bool {
    forall|j: int| 0 <= j < i ==> (#[trigger] arts[j].checksum@) != arts[i].checksum@
}

/// The artifacts that carry a checksum not seen earlier, in order.
pub open spec fn dedup_by_checksum(arts: Seq<ResearchArtifact>) -> Seq<ResearchArtifact>
    decreases arts.len(),
{
    if arts.len() == 0 {
        Seq::empty()
    } else {
        let prefix = dedup_by_checksum(arts.drop_last());
        if first_with_checksum(arts, arts.len() - 1) {
            prefix.push(arts.last())
        } else {
            prefix
        }
    }
}

/// Merges several per-root indexes into one, keeping of each checksum the
/// first artifact encountered.
pub fn build_index_multi(indexes: Vec<Vec<ResearchArtifact>>) -> (out: Vec<ResearchArtifact>)
    ensures
        out@ == dedup_by_checksum(indexes@.map_values(|v: Vec<ResearchArtifact>| v@).flatten()),
{
    let mut all: Vec<ResearchArtifact> = Vec::new();
    let mut indexes = indexes;
    let ghost flat = indexes@.map_values(|v: Vec<ResearchArtifact>| v@).flatten();
    proof {
        assert(indexes@.map_values(|v: Vec<ResearchArtifact>| v@).flatten() == flat);
    }
    while indexes.len() > 0
        invariant
            all@ + indexes@.map_values(|v: Vec<ResearchArtifact>| v@).flatten() == flat,
        decreases indexes@.len(),
    {
        let ghost pre = indexes@.map_values(|v: Vec<ResearchArtifact>| v@);
        let mut chunk = indexes.remove(0);
        proof {
            assert(indexes@.map_values(|v: Vec<ResearchArtifact>| v@) =~= pre.drop_first());
            assert(pre.flatten() == chunk@ + pre.drop_first().flatten()) by {
                assert(pre.len() > 0);
                assert(pre.first() == chunk@);
                assert(pre.flatten() == pre.first().add(pre.drop_first().flatten()));
            }
        }
        while chunk.len() > 0
            invariant
                all@ + chunk@ + indexes@.map_values(|v: Vec<ResearchArtifact>| v@).flatten()
                    == flat,
            decreases chunk@.len(),
        {
            let ghost chunkpre = chunk@;
            let a = chunk.remove(0);
            proof {
                assert(chunkpre =~= seq![a] + chunk@);
            }
            let ghost allpre = all@;
            all.push(a);
            proof {
                assert(all@ =~= allpre + seq![a]);
                assert(all@ + chunk@ =~= allpre + (seq![a] + chunk@));
            }
        }
        proof {
            assert(all@ + chunk@ =~= all@);
        }
    }
    proof {
        assert(indexes@.map_values(|v: Vec<ResearchArtifact>| v@) =~= Seq::<
            Seq<ResearchArtifact>,
        >::empty());
        assert(Seq::<Seq<ResearchArtifact>>::empty().flatten() =~= Seq::<
            ResearchArtifact,
        >::empty());
        assert(all@ =~= flat);
    }

    // Keep of each checksum only the first artifact seen.
    let mut out: Vec<ResearchArtifact> = Vec::new();
    let ghost total = flat.len();
    while all.len() > 0
        invariant
            all@ == flat.skip(flat.len() - all@.len()),
            all@.len() <= flat.len(),
            out@ == dedup_by_checksum(flat.take(flat.len() - all@.len())),
            forall|j: int|
                0 <= j < flat.len() - all@.len() ==> #[trigger] has_checksum(
                    out@,
                    flat[j].checksum@,
                ),
            forall|m: int|
                0 <= m < out@.len() ==> #[trigger] has_checksum(
                    flat.take(flat.len() - all@.len()),
                    out@[m].checksum@,
                ),
        decreases all@.len(),
    {
        let ghost i = flat.len() - all@.len();
        proof {
            assert(all@[0] == flat.skip(i)[0]);
            assert(flat.skip(i)[0] == flat[i]);
            assert(flat.take(i + 1).drop_last() =~= flat.take(i));
            assert(flat.take(i + 1).last() == flat[i]);
        }
        let mut seen = false;
        let mut m: usize = 0;
        let olen = out.len();
        while m < olen && !seen
            invariant
                olen == out@.len(),
                m <= olen,
                all@.len() > 0,
                all@[0] == flat[i],
                0 <= i < flat.len(),
                seen ==> exists|x: int|
                    0 <= x < out@.len() && (#[trigger] out@[x].checksum@) == flat[i].checksum@,
                !seen ==> forall|x: int|
                    0 <= x < m ==> (#[trigger] out@[x].checksum@) != flat[i].checksum@,
            decreases olen - m + (if seen {
                0int
            } else {
                1int
            }),
        {
            if str_eq(out[m].checksum.as_str(), all[0].checksum.as_str()) {
                seen = true;
            } else {
                m += 1;
            }
        }
        let a = all.remove(0);
        proof {
            assert(a == flat[i]);
            assert(all@ =~= flat.skip(i + 1));
        }
        if seen {
            proof {
                let x = choose|x: int|
                    0 <= x < out@.len() && (#[trigger] out@[x].checksum@) == flat[i].checksum@;
                assert(has_checksum(flat.take(i), out@[x].checksum@));
                let j = choose|j: int|
                    0 <= j < flat.take(i).len() && (#[trigger] flat.take(i)[j].checksum@) == out@[x]
                        .checksum@;
                assert(!first_with_checksum(flat.take(i + 1), i)) by {
                    assert(flat.take(i + 1)[j].checksum@ == flat.take(i + 1)[i].checksum@);
                }
                assert(out@ == dedup_by_checksum(flat.take(i + 1)));
                assert forall|k: int| 0 <= k < i + 1 implies #[trigger] has_checksum(
                    out@,
                    flat[k].checksum@,
                ) by {
                    if k == i {
                        assert(out@[x].checksum@ == flat[i].checksum@);
                    }
                }
                assert forall|m2: int| 0 <= m2 < out@.len() implies #[trigger] has_checksum(
                    flat.take(i + 1),
                    out@[m2].checksum@,
                ) by {
                    assert(has_checksum(flat.take(i), out@[m2].checksum@));
                    let jj = choose|jj: int|
                        0 <= jj < flat.take(i).len() && (#[trigger] flat.take(i)[jj].checksum@)
                            == out@[m2].checksum@;
                    assert(flat.take(i + 1)[jj].checksum@ == out@[m2].checksum@);
                }
            }
        } else {
            proof {
                assert(m == olen);
                assert(forall|x: int|
                    0 <= x < out@.len() ==> (#[trigger] out@[x].checksum@) != flat[i].checksum@);
                assert(first_with_checksum(flat.take(i + 1), i)) by {
                    assert forall|j: int| 0 <= j < i implies (#[trigger] flat.take(i + 1)[j]
                        .checksum@) != flat.take(i + 1)[i].checksum@ by {
                        if flat[j].checksum@ == flat[i].checksum@ {
                            assert(has_checksum(out@, flat[j].checksum@));
                            let x = choose|x: int|
                                0 <= x < out@.len() && (#[trigger] out@[x].checksum@) == flat[j]
                                    .checksum@;
                            assert(out@[x].checksum@ == flat[i].checksum@);
                            assert(false);
                        }
                    }
                }
            }
            let ghost outpre = out@;
            out.push(a);
            proof {
                assert(out@ =~= outpre.push(flat[i]));
                assert(out@ == dedup_by_checksum(flat.take(i + 1)));
                assert forall|k: int| 0 <= k < i + 1 implies #[trigger] has_checksum(
                    out@,
                    flat[k].checksum@,
                ) by {
                    if k < i {
                        assert(has_checksum(outpre, flat[k].checksum@));
                        let x = choose|x: int|
                            0 <= x < outpre.len() && (#[trigger] outpre[x].checksum@) == flat[k]
                                .checksum@;
                        assert(out@[x].checksum@ == flat[k].checksum@);
                    } else {
                        assert(out@[out@.len() - 1].checksum@ == flat[k].checksum@);
                    }
                }
                assert forall|m2: int| 0 <= m2 < out@.len() implies #[trigger] has_checksum(
                    flat.take(i + 1),
                    out@[m2].checksum@,
                ) by {
                    if m2 < out@.len() - 1 {
                        assert(has_checksum(flat.take(i), outpre[m2].checksum@));
                        let jj = choose|jj: int|
                            0 <= jj < flat.take(i).len() && (#[trigger] flat.take(i)[jj].checksum@)
                                == outpre[m2].checksum@;
                        assert(flat.take(i + 1)[jj].checksum@ == out@[m2].checksum@);
                    } else {
                        assert(flat.take(i + 1)[i].checksum@ == out@[m2].checksum@);
                    }
                }
            }
        }
    }
    proof {
        assert(flat.take(flat.len() - all@.len()) =~= flat);
    }
    out
}

/// A copy of a string list.
fn clone_strings(v: &Vec<String>) -> (r: Vec<String>)
    ensures
        r@ == v@,
{
    let mut r: Vec<String> = Vec::new();
    let mut i: usize = 0;
    while i < v.len()
        invariant
            i <= v@.len(),
            r@ == v@.take(i as int),
        decreases v@.len() - i,
    {
        r.push(v[i].clone());
        proof {
            assert(v@.take(i + 1).drop_last() =~= v@.take(i as int));
            assert(r@ =~= v@.take(i + 1));
        }
        i += 1;
    }
    proof {
        assert(v@.take(v@.len() as int) =~= v@);
    }
    r
}


/// The number of artifacts in `arts` of kind `k`.
pub open spec fn count_kind(arts: Seq<ResearchArtifact>, k: Seq<char>) -> int
    decreases arts.len(),
{
    if arts.len() == 0 {
        0
    } else {
        count_kind(arts.drop_last(), k) + if arts.last().kind@ == k {
            1int
        } else {
            0int
        }
    }
}

/// How often the tag `k` occurs in a tag list.
pub open spec fn tag_mult(tags: Seq<String>, k: Seq<char>) -> int
    decreases tags.len(),
{
    if tags.len() == 0 {
        0
    } else {
        tag_mult(tags.drop_last(), k) + if tags.last()@ == k {
            1int
        } else {
            0int
        }
    }
}

/// How often the tag `k` occurs over all artifacts.
pub open spec fn count_tag(arts: Seq<ResearchArtifact>, k: Seq<char>) -> int
    decreases arts.len(),
{
    if arts.len() == 0 {
        0
    } else {
        count_tag(arts.drop_last(), k) + tag_mult(arts.last().tags@, k)
    }
}

/// The branch an artifact counts under: its non-empty branch name, or the
/// unknown marker.
pub open spec fn branch_key(a: ResearchArtifact) -> Seq<char> {
    match a.git_branch {
        Some(b) => if b@.len() > 0 {
            b@
        } else {
            "<unknown>"@
        },
        None => "<unknown>"@,
    }
}

/// The number of artifacts counting under branch `k`.
pub open spec fn count_branch(arts: Seq<ResearchArtifact>, k: Seq<char>) -> int
    decreases arts.len(),
{
    if arts.len() == 0 {
        0
    } else {
        count_branch(arts.drop_last(), k) + if branch_key(arts.last()) == k {
            1int
        } else {
            0int
        }
    }
}

/// The number of artifacts without tags.
pub open spec fn count_untagged(arts: Seq<ResearchArtifact>) -> int
    decreases arts.len(),
{
    if arts.len() == 0 {
        0
    } else {
        count_untagged(arts.drop_last()) + if arts.last().tags@.len() == 0 {
            1int
        } else {
            0int
        }
    }
}

/// An artifact records no commit, or an empty one.
pub open spec fn commit_missing(a: ResearchArtifact) -> bool {
    match a.git_commit {
        Some(c) => c@.len() == 0,
        None => true,
    }
}

/// The number of artifacts without a usable commit.
pub open spec fn count_missing(arts: Seq<ResearchArtifact>) -> int
    decreases arts.len(),
{
    if arts.len() == 0 {
        0
    } else {
        count_missing(arts.drop_last()) + if commit_missing(arts.last()) {
            1int
        } else {
            0int
        }
    }
}

/// The number of tags over all artifacts.
pub open spec fn total_tags(arts: Seq<ResearchArtifact>) -> int
    decreases arts.len(),
{
    if arts.len() == 0 {
        0
    } else {
        total_tags(arts.drop_last()) + arts.last().tags@.len()
    }
}

/// Tag totals only grow with the prefix.
proof fn lemma_total_tags_mono(arts: Seq<ResearchArtifact>, i: int)
    requires
        0 <= i <= arts.len(),
    ensures
        total_tags(arts.take(i)) <= total_tags(arts),
    decreases arts.len() - i,
{
    if i == arts.len() {
        assert(arts.take(i) =~= arts);
    } else {
        lemma_total_tags_mono(arts, i + 1);
        assert(arts.take(i + 1).drop_last() =~= arts.take(i));
    }
}

/// The earliest parseable timestamp over the artifacts, in Unix seconds.
pub open spec fn earliest_ts(arts: Seq<ResearchArtifact>) -> Option<int>
    decreases arts.len(),
{
    if arts.len() == 0 {
        None
    } else {
        let prev = earliest_ts(arts.drop_last());
        match crate::timefmt::rfc3339_secs(arts.last().ts@) {
            Some(t) => match prev {
                Some(e) => if t < e {
                    Some(t)
                } else {
                    Some(e)
                },
                None => Some(t),
            },
            None => prev,
        }
    }
}

/// The latest parseable timestamp over the artifacts, in Unix seconds.
pub open spec fn latest_ts(arts: Seq<ResearchArtifact>) -> Option<int>
    decreases arts.len(),
{
    if arts.len() == 0 {
        None
    } else {
        let prev = latest_ts(arts.drop_last());
        match crate::timefmt::rfc3339_secs(arts.last().ts@) {
            Some(t) => match prev {
                Some(l) => if t > l {
                    Some(t)
                } else {
                    Some(l)
                },
                None => Some(t),
            },
            None => prev,
        }
    }
}

/// A catalogue has an earliest parseable timestamp exactly when it has a
/// latest one.
proof fn lemma_span_agree(arts: Seq<ResearchArtifact>)
    ensures
        earliest_ts(arts) is Some <==> latest_ts(arts) is Some,
    decreases arts.len(),
{
    if arts.len() > 0 {
        lemma_span_agree(arts.drop_last());
    }
}

/// The window before expiry within which an artifact counts as expiring
/// soon: 72 hours, in seconds.
pub const SOON_WINDOW_SECS: i64 = 259_200;

/// Largest time-to-live the summary accepts, so that expiry timestamps
/// stay within the range the formatter covers.
pub const TTL_LIMIT_SECS: u64 = 7_000_000_000_000;

/// The content of an expiry record, for specification purposes: path,
/// rendered expiry time and seconds remaining.
pub open spec fn er_view(e: ExpiringArtifact) -> (Seq<char>, Seq<char>, int) {
    (e.path@, e.expires_at@, e.seconds_remaining as int)
}

/// The expiry record an artifact yields at `now`: only artifacts with a
/// parseable timestamp and a positive time-to-live yield one.
pub open spec fn expiry_view_of(a: ResearchArtifact, now: int) -> Option<
    (Seq<char>, Seq<char>, int),
> {
    match crate::timefmt::rfc3339_secs(a.ts@) {
        Some(t) => if a.ttl > 0 {
            Some((a.path@, crate::timefmt::rfc3339_of(t + a.ttl), t + a.ttl - now))
        } else {
            None
        },
        None => None,
    }
}

/// The expiry records of the artifacts already past expiry, in artifact
/// order.
pub open spec fn expired_views(arts: Seq<ResearchArtifact>, now: int) -> Seq<
    (Seq<char>, Seq<char>, int),
>
    decreases arts.len(),
{
    if arts.len() == 0 {
        Seq::empty()
    } else {
        expired_views(arts.drop_last(), now) + (match expiry_view_of(arts.last(), now) {
            Some(v) => if v.2 <= 0 {
                seq![v]
            } else {
                Seq::empty()
            },
            None => Seq::empty(),
        })
    }
}

/// The expiry records of the artifacts within the soon-window, in artifact
/// order.
pub open spec fn soon_views(arts: Seq<ResearchArtifact>, now: int) -> Seq<
    (Seq<char>, Seq<char>, int),
>
    decreases arts.len(),
{
    if arts.len() == 0 {
        Seq::empty()
    } else {
        soon_views(arts.drop_last(), now) + (match expiry_view_of(arts.last(), now) {
            Some(v) => if 0 < v.2 <= SOON_WINDOW_SECS as int {
                seq![v]
            } else {
                Seq::empty()
            },
            None => Seq::empty(),
        })
    }
}

/// The records are ordered by seconds remaining.
pub open spec fn sorted_by_remaining(s: Seq<ExpiringArtifact>) -> bool {
    forall|i: int, j: int|
        0 <= i < j < s.len() ==> (#[trigger] s[i].seconds_remaining) <= #[trigger] s[j]
            .seconds_remaining
}

/// The list holds, ordered by seconds remaining, exactly the records whose
/// contents `views` lists.
pub open spec fn sorted_record_list(
    list: Seq<ExpiringArtifact>,
    views: Seq<(Seq<char>, Seq<char>, int)>,
) -> bool {
    &&& sorted_by_remaining(list)
    &&& exists|pre: Seq<ExpiringArtifact>|
        pre.map_values(|e: ExpiringArtifact| er_view(e)) == views && list.to_multiset() == (
        #[trigger] pre.to_multiset())
}

/// Sorts expiry records by seconds remaining.
fn sort_by_remaining(v: Vec<ExpiringArtifact>) -> (r: Vec<ExpiringArtifact>)
    ensures
        r@.to_multiset() == v@.to_multiset(),
        sorted_by_remaining(r@),
{
    let mut v = v;
    let ghost orig = v@;
    let n = v.len();
    let mut i: usize = 0;
    while i < n
        invariant
            n == v@.len(),
            i <= n,
            v@.to_multiset() == orig.to_multiset(),
            forall|a: int, b: int|
                n - i <= a < b < n ==> (#[trigger] v@[a].seconds_remaining) <= #[trigger] v@[b]
                    .seconds_remaining,
            forall|a: int, b: int|
                0 <= a < n - i && n - i <= b < n ==> (#[trigger] v@[a].seconds_remaining)
                    <= #[trigger] v@[b].seconds_remaining,
        decreases n - i,
    {
        let mut j: usize = 0;
        while j + 1 < n - i
            invariant
                n == v@.len(),
                i < n,
                j < n - i,
                v@.to_multiset() == orig.to_multiset(),
                forall|a: int, b: int|
                    n - i <= a < b < n ==> (#[trigger] v@[a].seconds_remaining) <= #[trigger] v@[b]
                        .seconds_remaining,
                forall|a: int, b: int|
                    0 <= a < n - i && n - i <= b < n ==> (#[trigger] v@[a].seconds_remaining)
                        <= #[trigger] v@[b].seconds_remaining,
                forall|a: int|
                    0 <= a < j ==> (#[trigger] v@[a].seconds_remaining) <= v@[j as int]
                        .seconds_remaining,
            decreases n - i - j,
        {
            if v[j].seconds_remaining > v[j + 1].seconds_remaining {
                let ghost before = v@;
                let x = v.remove(j);
                v.insert(j + 1, x);
                proof {
                    before.to_multiset_ensures();
                    vstd::seq_lib::to_multiset_remove(before, j as int);
                    vstd::seq_lib::to_multiset_insert(
                        before.remove(j as int),
                        j + 1,
                        before[j as int],
                    );
                    assert(v@ == before.remove(j as int).insert(j + 1, before[j as int]));
                    assert(before.contains(before[j as int]));
                    assert(before.to_multiset().count(before[j as int]) > 0);
                    assert(v@.to_multiset() =~= before.to_multiset()) by {
                        broadcast use vstd::multiset::group_multiset_axioms;

                        assert(v@.to_multiset() == before.to_multiset().remove(
                            before[j as int],
                        ).insert(before[j as int]));
                    }
                }
            }
            j += 1;
        }
        proof {
            // After this pass the bubbled element at the window's edge is
            // below everything already sorted behind it.
            assert forall|a: int, b: int| n - i - 1 <= a < b < n implies (#[trigger] v@[a]
                .seconds_remaining) <= #[trigger] v@[b].seconds_remaining by {
                if a == n - i - 1 && b >= n - i {
                }
            }
        }
        i += 1;
    }
    v
}

/// The catalogue summary.
pub struct ResearchSummary {
    pub total: usize,
    pub by_kind: CountMap,
    pub by_tag: CountMap,
    pub by_branch: CountMap,
    pub untagged: usize,
    pub missing_git_commit: usize,
    pub time_span: Option<TimeSpan>,
    pub expiring_soon: Vec<ExpiringArtifact>,
    pub expired: Vec<ExpiringArtifact>,
}

/// Summarizes the catalogue at `now`: counts by kind, tag and branch,
/// untagged and commit-less artifacts, the covered time span, and the
/// artifacts expiring soon or already expired, each list ordered by
/// seconds remaining.
pub fn summarize(artifacts: &Vec<ResearchArtifact>, now_secs: i64) -> (s: ResearchSummary)
    requires
        -crate::run::CLOCK_MAX_SECS <= now_secs <= crate::run::CLOCK_MAX_SECS,
        forall|i: int|
            0 <= i < artifacts@.len() ==> (#[trigger] artifacts@[i].ttl) <= TTL_LIMIT_SECS,
        total_tags(artifacts@) <= usize::MAX,
    ensures
        s.total == artifacts@.len(),
        s.by_kind.wf() && s.by_tag.wf() && s.by_branch.wf(),
        forall|k: Seq<char>| #[trigger] s.by_kind.count(k) == count_kind(artifacts@, k),
        forall|k: Seq<char>| #[trigger] s.by_tag.count(k) == count_tag(artifacts@, k),
        forall|k: Seq<char>| #[trigger] s.by_branch.count(k) == count_branch(artifacts@, k),
        s.untagged == count_untagged(artifacts@),
        s.missing_git_commit == count_missing(artifacts@),
        s.time_span is Some <==> earliest_ts(artifacts@) is Some,
        s.time_span matches Some(t) ==> (match earliest_ts(artifacts@) {
            Some(e) => t.earliest@ == crate::timefmt::rfc3339_of(e),
            None => false,
        }) && (match latest_ts(artifacts@) {
            Some(l) => t.latest@ == crate::timefmt::rfc3339_of(l),
            None => false,
        }),
        sorted_record_list(s.expiring_soon@, soon_views(artifacts@, now_secs as int)),
        sorted_record_list(s.expired@, expired_views(artifacts@, now_secs as int)),
{
    let ghost av = artifacts@;
    let ghost now = now_secs as int;
    let mut by_kind = CountMap::new();
    let mut by_tag = CountMap::new();
    let mut by_branch = CountMap::new();
    let mut untagged: usize = 0;
    let mut missing_git_commit: usize = 0;
    let mut earliest: Option<i64> = None;
    let mut latest: Option<i64> = None;
    let mut expiring_soon: Vec<ExpiringArtifact> = Vec::new();
    let mut expired: Vec<ExpiringArtifact> = Vec::new();

    let n = artifacts.len();
    let mut i: usize = 0;
    while i < n
        invariant
            av == artifacts@,
            now == now_secs as int,
            -crate::run::CLOCK_MAX_SECS <= now_secs <= crate::run::CLOCK_MAX_SECS,
            forall|x: int| 0 <= x < av.len() ==> (#[trigger] av[x].ttl) <= TTL_LIMIT_SECS,
            total_tags(av) <= usize::MAX,
            n == av.len(),
            i <= n,
            by_kind.wf() && by_tag.wf() && by_branch.wf(),
            by_kind.increments() == i,
            by_tag.increments() == total_tags(av.take(i as int)),
            by_branch.increments() == i,
            forall|k: Seq<char>| #[trigger] by_kind.count(k) == count_kind(av.take(i as int), k),
            forall|k: Seq<char>| #[trigger] by_tag.count(k) == count_tag(av.take(i as int), k),
            forall|k: Seq<char>|
                #[trigger] by_branch.count(k) == count_branch(av.take(i as int), k),
            untagged == count_untagged(av.take(i as int)),
            untagged <= i,
            missing_git_commit == count_missing(av.take(i as int)),
            missing_git_commit <= i,
            match earliest {
                Some(e) => earliest_ts(av.take(i as int)) == Some(e as int)
                    && crate::timefmt::RFC3339_MIN_SECS <= e <= crate::timefmt::RFC3339_MAX_SECS,
                None => earliest_ts(av.take(i as int)) is None,
            },
            match latest {
                Some(l) => latest_ts(av.take(i as int)) == Some(l as int)
                    && crate::timefmt::RFC3339_MIN_SECS <= l <= crate::timefmt::RFC3339_MAX_SECS,
                None => latest_ts(av.take(i as int)) is None,
            },
            expiring_soon@.map_values(|e: ExpiringArtifact| er_view(e)) == soon_views(
                av.take(i as int),
                now,
            ),
            expired@.map_values(|e: ExpiringArtifact| er_view(e)) == expired_views(
                av.take(i as int),
                now,
            ),
        decreases n - i,
    {
        proof {
            assert(av.take(i + 1).drop_last() =~= av.take(i as int));
            assert(av.take(i + 1).last() == av[i as int]);
            lemma_total_tags_mono(av, i + 1);
        }
        let art = &artifacts[i];

        by_kind.increment(art.kind.as_str());

        if art.tags.len() == 0 {
            untagged += 1;
        }
        let tn = art.tags.len();
        let mut j: usize = 0;
        while j < tn
            invariant
                av == artifacts@,
                n == av.len(),
                i < n,
                tn == av[i as int].tags@.len(),
                j <= tn,
                total_tags(av) <= usize::MAX,
                by_tag.wf(),
                by_tag.increments() == total_tags(av.take(i as int)) + j,
                total_tags(av.take(i as int)) + tn <= total_tags(av.take(i + 1)),
                total_tags(av.take(i + 1)) <= total_tags(av),
                forall|k: Seq<char>|
                    #[trigger] by_tag.count(k) == count_tag(av.take(i as int), k) + tag_mult(
                        av[i as int].tags@.take(j as int),
                        k,
                    ),
            decreases tn - j,
        {
            proof {
                assert(av[i as int].tags@.take(j + 1).drop_last() =~= av[i as int].tags@.take(
                    j as int,
                ));
                assert(av[i as int].tags@.take(j + 1).last() == av[i as int].tags@[j as int]);
            }
            let ghost pretag = by_tag;
            by_tag.increment(artifacts[i].tags[j].as_str());
            proof {
                assert forall|k: Seq<char>| #[trigger] by_tag.count(k) == count_tag(
                    av.take(i as int),
                    k,
                ) + tag_mult(av[i as int].tags@.take(j + 1), k) by {
                    if k == av[i as int].tags@[j as int]@ {
                    } else {
                    }
                }
            }
            j += 1;
        }
        proof {
            assert(av[i as int].tags@.take(tn as int) =~= av[i as int].tags@);
        }

        match &art.git_branch {
            Some(b) => {
                if !b.as_str().is_empty() {
                    by_branch.increment(b.as_str());
                } else {
                    by_branch.increment("<unknown>");
                }
            },
            None => {
                by_branch.increment("<unknown>");
            },
        }
        proof {
            assert forall|k: Seq<char>| #[trigger] by_branch.count(k) == count_branch(
                av.take(i + 1),
                k,
            ) by {}
        }

        let missing = match &art.git_commit {
            Some(c) => c.as_str().is_empty(),
            None => true,
        };
        if missing {
            missing_git_commit += 1;
        }

        match crate::timefmt::parse_rfc3339(art.ts.as_str()) {
            Some(t) => {
                earliest = match earliest {
                    Some(e) => if t < e {
                        Some(t)
                    } else {
                        Some(e)
                    },
                    None => Some(t),
                };
                latest = match latest {
                    Some(l) => if t > l {
                        Some(t)
                    } else {
                        Some(l)
                    },
                    None => Some(t),
                };

                if art.ttl > 0 {
                    let expires: i64 = t + (art.ttl as i64);
                    let remaining: i64 = expires - now_secs;
                    let record = ExpiringArtifact {
                        path: art.path.clone(),
                        expires_at: crate::timefmt::format_rfc3339(expires),
                        seconds_remaining: remaining,
                    };
                    proof {
                        assert(expiry_view_of(av[i as int], now) == Some(
                            er_view(record),
                        ));
                    }
                    if remaining <= 0 {
                        let ghost pre = expired@;
                        expired.push(record);
                        proof {
                            assert(expired@.map_values(|e: ExpiringArtifact| er_view(e)) =~= pre
                                .map_values(|e: ExpiringArtifact| er_view(e)).push(
                                er_view(expired@.last()),
                            ));
                            assert(expired@.map_values(|e: ExpiringArtifact| er_view(e))
                                =~= expired_views(av.take(i + 1), now));
                            assert(expiring_soon@.map_values(|e: ExpiringArtifact| er_view(e))
                                =~= soon_views(av.take(i + 1), now));
                        }
                    } else if remaining <= SOON_WINDOW_SECS {
                        let ghost pre = expiring_soon@;
                        expiring_soon.push(record);
                        proof {
                            assert(expiring_soon@.map_values(|e: ExpiringArtifact| er_view(e))
                                =~= pre.map_values(|e: ExpiringArtifact| er_view(e)).push(
                                er_view(expiring_soon@.last()),
                            ));
                            assert(expiring_soon@.map_values(|e: ExpiringArtifact| er_view(e))
                                =~= soon_views(av.take(i + 1), now));
                            assert(expired@.map_values(|e: ExpiringArtifact| er_view(e))
                                =~= expired_views(av.take(i + 1), now));
                        }
                    } else {
                        proof {
                            assert(expiring_soon@.map_values(|e: ExpiringArtifact| er_view(e))
                                =~= soon_views(av.take(i + 1), now));
                            assert(expired@.map_values(|e: ExpiringArtifact| er_view(e))
                                =~= expired_views(av.take(i + 1), now));
                        }
                    }
                } else {
                    proof {
                        assert(expiry_view_of(av[i as int], now) is None);
                        assert(expiring_soon@.map_values(|e: ExpiringArtifact| er_view(e))
                            =~= soon_views(av.take(i + 1), now));
                        assert(expired@.map_values(|e: ExpiringArtifact| er_view(e))
                            =~= expired_views(av.take(i + 1), now));
                    }
                }
            },
            None => {
                proof {
                    assert(expiry_view_of(av[i as int], now) is None);
                    assert(expiring_soon@.map_values(|e: ExpiringArtifact| er_view(e))
                        =~= soon_views(av.take(i + 1), now));
                    assert(expired@.map_values(|e: ExpiringArtifact| er_view(e)) =~= expired_views(
                        av.take(i + 1),
                        now,
                    ));
                }
            },
        }

        proof {
            lemma_total_tags_mono(av, i + 1);
        }
        i += 1;
    }
    proof {
        assert(av.take(n as int) =~= av);
    }

    let ghost soon_pre = expiring_soon@;
    let ghost expired_pre = expired@;
    let expiring_soon = sort_by_remaining(expiring_soon);
    let expired = sort_by_remaining(expired);
    proof {
        assert(sorted_record_list(expiring_soon@, soon_views(av, now))) by {
            assert(soon_pre.map_values(|e: ExpiringArtifact| er_view(e)) == soon_views(av, now));
            assert(expiring_soon@.to_multiset() == soon_pre.to_multiset());
        }
        assert(sorted_record_list(expired@, expired_views(av, now))) by {
            assert(expired_pre.map_values(|e: ExpiringArtifact| er_view(e)) == expired_views(
                av,
                now,
            ));
            assert(expired@.to_multiset() == expired_pre.to_multiset());
        }
    }

    proof {
        lemma_span_agree(av);
    }
    let time_span = match (earliest, latest) {
        (Some(e), Some(l)) => Some(
            TimeSpan {
                earliest: crate::timefmt::format_rfc3339(e),
                latest: crate::timefmt::format_rfc3339(l),
            },
        ),
        _ => None,
    };

    ResearchSummary {
        total: artifacts.len(),
        by_kind,
        by_tag,
        by_branch,
        untagged,
        missing_git_commit,
        time_span,
        expiring_soon,
        expired,
    }
}

} // verus!
