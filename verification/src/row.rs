//! An editable line of text, addressed by grapheme-cluster index rather than
//! byte index. The cluster boundaries come from the `unicode-segmentation`
//! crate; everything done with the clusters afterwards is verified.

use vstd::prelude::*;

use crate::text::chars_to_string;
use unicode_segmentation::UnicodeSegmentation;

verus! {

/// The grapheme clusters of a character sequence, in order. What the
/// boundaries are is defined by Unicode extended grapheme segmentation, as
/// implemented by the `unicode-segmentation` crate; this crate does not
/// restate that definition, it only names the result.
pub uninterp spec fn grapheme_split(s: Seq<char>) -> Seq<Seq<char>>;

/// All clusters joined back together.
pub open spec fn concat_clusters(cs: Seq<Seq<char>>) -> Seq<char>
    decreases cs.len(),
{
    if cs.len() == 0 {
        Seq::empty()
    } else {
        cs[0] + concat_clusters(cs.drop_first())
    }
}

/// The cluster consisting of a single horizontal tab.
pub open spec fn tab_cluster() -> Seq<char> {
    seq!['\t']
}

/// What a cluster contributes to rendered output: a tab becomes four literal
/// spaces, every other cluster stands as it is.
pub open spec fn expand_cluster(c: Seq<char>) -> Seq<char> {
    if c == tab_cluster() {
        seq![' ', ' ', ' ', ' ']
    } else {
        c
    }
}

/// The rendered text of a cluster sequence: each cluster expanded, joined.
pub open spec fn rendered_clusters(cs: Seq<Seq<char>>) -> Seq<char>
    decreases cs.len(),
{
    if cs.len() == 0 {
        Seq::empty()
    } else {
        expand_cluster(cs[0]) + rendered_clusters(cs.drop_first())
    }
}

/// The rendered text of cluster indices `[start, end)`, with `end` clamped to
/// the cluster count and `start` clamped to `end`.
pub open spec fn render_range(cs: Seq<Seq<char>>, start: int, end: int) -> Seq<char> {
    let e = if end > cs.len() {
        cs.len() as int
    } else {
        end
    };
    let s = if start > e {
        e
    } else {
        start
    };
    rendered_clusters(cs.subrange(s, e))
}

/// The cluster sequence after inserting `c` as a new cluster at `at`,
/// appending when `at` is past the end.
pub open spec fn inserted(cs: Seq<Seq<char>>, at: int, c: char) -> Seq<Seq<char>> {
    let i = if at > cs.len() {
        cs.len() as int
    } else {
        at
    };
    cs.insert(i, seq![c])
}

/// The cluster sequence after deleting the cluster at `at`; out-of-range
/// deletion changes nothing.
pub open spec fn deleted(cs: Seq<Seq<char>>, at: int) -> Seq<Seq<char>> {
    if 0 <= at < cs.len() {
        cs.remove(at)
    } else {
        cs
    }
}

/// The characters with the Unicode `White_Space` property.
pub open spec fn is_ws_char(c: char) -> bool {
    ||| c == ' '
    ||| c == '\t'
    ||| c == '\n'
    ||| c == '\u{b}'
    ||| c == '\u{c}'
    ||| c == '\r'
    ||| c == '\u{85}'
    ||| c == '\u{a0}'
    ||| c == '\u{1680}'
    ||| c == '\u{2000}'
    ||| c == '\u{2001}'
    ||| c == '\u{2002}'
    ||| c == '\u{2003}'
    ||| c == '\u{2004}'
    ||| c == '\u{2005}'
    ||| c == '\u{2006}'
    ||| c == '\u{2007}'
    ||| c == '\u{2008}'
    ||| c == '\u{2009}'
    ||| c == '\u{200a}'
    ||| c == '\u{2028}'
    ||| c == '\u{2029}'
    ||| c == '\u{202f}'
    ||| c == '\u{205f}'
    ||| c == '\u{3000}'
}

/// A cluster made of whitespace characters only.
pub open spec fn is_ws_cluster(c: Seq<char>) -> bool {
    forall|i: int| 0 <= i < c.len() ==> is_ws_char(c[i])
}

/// How many clusters at the front of the row are whitespace.
pub open spec fn leading_ws(cs: Seq<Seq<char>>) -> int
    decreases cs.len(),
{
    if cs.len() == 0 {
        0
    } else if !is_ws_cluster(cs[0]) {
        0
    } else {
        1 + leading_ws(cs.drop_first())
    }
}

pub proof fn lemma_leading_ws_bounds(cs: Seq<Seq<char>>)
    ensures
        0 <= leading_ws(cs) <= cs.len(),
    decreases cs.len(),
{
    if cs.len() > 0 && is_ws_cluster(cs[0]) {
        lemma_leading_ws_bounds(cs.drop_first());
    }
}

proof fn lemma_leading_ws_count(cs: Seq<Seq<char>>, i: int)
    requires
        0 <= i <= cs.len(),
        forall|j: int| 0 <= j < i ==> is_ws_cluster(#[trigger] cs[j]),
        i == cs.len() || !is_ws_cluster(cs[i]),
    ensures
        leading_ws(cs) == i,
    decreases i,
{
    if i == 0 {
    } else {
        assert(is_ws_cluster(cs[0]));
        assert(forall|j: int|
            0 <= j < i - 1 ==> #[trigger] cs.drop_first()[j] == cs[j + 1]);
        lemma_leading_ws_count(cs.drop_first(), i - 1);
    }
}

proof fn lemma_rendered_clusters_push(cs: Seq<Seq<char>>, c: Seq<char>)
    ensures
        rendered_clusters(cs.push(c)) == rendered_clusters(cs) + expand_cluster(c),
    decreases cs.len(),
{
    if cs.len() == 0 {
        assert(cs.push(c)[0] == c);
        assert(cs.push(c).drop_first() =~= cs);
        assert(rendered_clusters(cs.push(c)) == expand_cluster(c) + rendered_clusters(cs));
        assert(expand_cluster(c) + rendered_clusters(cs) =~= expand_cluster(c));
        assert(rendered_clusters(cs) + expand_cluster(c) =~= expand_cluster(c));
    } else {
        assert(cs.push(c)[0] == cs[0]);
        assert(cs.push(c).drop_first() =~= cs.drop_first().push(c));
        lemma_rendered_clusters_push(cs.drop_first(), c);
        assert(rendered_clusters(cs.push(c)) == expand_cluster(cs[0]) + (rendered_clusters(
            cs.drop_first(),
        ) + expand_cluster(c)));
        assert(expand_cluster(cs[0]) + (rendered_clusters(cs.drop_first()) + expand_cluster(c))
            =~= (expand_cluster(cs[0]) + rendered_clusters(cs.drop_first())) + expand_cluster(c));
    }
}

/// An editable line: an ordered sequence of grapheme clusters. The view of a
/// `Row` is that sequence; its length is the cluster count.
pub struct Row {
    graphemes: Vec<Vec<char>>,
}

impl View for Row {
    type V = Seq<Seq<char>>;

    closed spec fn view(&self) -> Seq<Seq<char>> {
        Seq::new(self.graphemes@.len(), |i: int| self.graphemes@[i]@)
    }
}

impl Default for Row {
    /// An empty row, with no clusters.
    fn default() -> (r: Row)
        ensures
            r@ == Seq::<Seq<char>>::empty(),
    {
        let r = Row { graphemes: Vec::new() };
        proof {
            assert(r@ =~= Seq::<Seq<char>>::empty());
        }
        r
    }
}

/// Relies on `UnicodeSegmentation::graphemes` (extended clusters) of the
/// `unicode-segmentation` crate: splitting a string slice yields its grapheme
/// clusters in order, and the clusters are substrings that concatenate back
/// to the original string.
#[verifier::external_body]
fn split_graphemes(s: &str) -> (clusters: Vec<Vec<char>>)
    ensures
        clusters@.len() == grapheme_split(s@).len(),
        forall|i: int|
            0 <= i < clusters@.len() ==> #[trigger] clusters@[i]@ == grapheme_split(s@)[i],
        concat_clusters(Seq::new(clusters@.len(), |i: int| clusters@[i]@)) == s@,
{
    s.graphemes(true).map(|g| g.chars().collect()).collect()
}

impl Row {
    /// Builds a row from one line of text by splitting it into grapheme
    /// clusters.
    pub fn from_line(s: &str) -> (r: Row)
        ensures
            r@ == grapheme_split(s@),
            concat_clusters(r@) == s@,
    {
        let r = Row { graphemes: split_graphemes(s) };
        proof {
            assert(r@ =~= grapheme_split(s@));
        }
        r
    }

    /// The number of grapheme clusters in the row.
    pub fn len(&self) -> (n: usize)
        ensures
            n == self@.len(),
    {
        self.graphemes.len()
    }

    /// Whether the row has no clusters at all.
    pub fn is_empty(&self) -> (b: bool)
        ensures
            b == (self@.len() == 0),
    {
        self.graphemes.is_empty()
    }

    /// The text spanning cluster indices `[start, end)`; `end` is clamped to
    /// the cluster count and `start` to `end`, so any range is safe. A tab
    /// cluster is rendered as four spaces, which is why the returned string
    /// may hold more characters than `end - start`.
    pub fn render(&self, start: usize, end: usize) -> (s: String)
        ensures
            s@ == render_range(self@, start as int, end as int),
    {
        let e = if end > self.graphemes.len() {
            self.graphemes.len()
        } else {
            end
        };
        let st = if start > e {
            e
        } else {
            start
        };
        let mut out: Vec<char> = Vec::new();
        let mut i = st;
        proof {
            assert(self@.subrange(st as int, st as int) =~= Seq::<Seq<char>>::empty());
        }
        while i < e
            invariant
                st <= i <= e <= self.graphemes@.len(),
                self@.len() == self.graphemes@.len(),
                out@ == rendered_clusters(self@.subrange(st as int, i as int)),
            decreases e - i,
        {
            let g = &self.graphemes[i];
            let ghost prefix = self@.subrange(st as int, i as int);
            if g.len() == 1 && g[0] == '\t' {
                proof {
                    assert(g@ =~= tab_cluster());
                }
                out.push(' ');
                out.push(' ');
                out.push(' ');
                out.push(' ');
            } else {
                proof {
                    assert(g@ != tab_cluster());
                    assert(expand_cluster(g@) == g@);
                }
                let mut j: usize = 0;
                while j < g.len()
                    invariant
                        j <= g@.len(),
                        out@ == rendered_clusters(prefix) + g@.subrange(0, j as int),
                    decreases g@.len() - j,
                {
                    out.push(g[j]);
                    j += 1;
                    proof {
                        assert(out@ =~= rendered_clusters(prefix) + g@.subrange(0, j as int));
                    }
                }
                proof {
                    assert(g@.subrange(0, g@.len() as int) =~= g@);
                }
            }
            proof {
                lemma_rendered_clusters_push(prefix, g@);
                assert(prefix.push(g@) =~= self@.subrange(st as int, i + 1));
                assert(out@ =~= rendered_clusters(prefix) + expand_cluster(g@));
            }
            i += 1;
        }
        proof {
            if end > self@.len() {
                assert(e == self@.len());
            }
            assert(out@ == render_range(self@, start as int, end as int));
        }
        chars_to_string(&out)
    }

    /// Inserts `c` as a new cluster at cluster index `at`; an index at or
    /// past the end appends.
    pub fn insert(&mut self, at: usize, c: char)
        ensures
            final(self)@ == inserted(old(self)@, at as int, c),
    {
        let i = if at > self.graphemes.len() {
            self.graphemes.len()
        } else {
            at
        };
        let mut cluster: Vec<char> = Vec::new();
        cluster.push(c);
        proof {
            assert(cluster@ =~= seq![c]);
        }
        self.graphemes.insert(i, cluster);
        proof {
            assert(self@ =~= inserted(old(self)@, at as int, c));
        }
    }

    /// Removes the cluster at index `at` if there is one; deleting at or past
    /// the end changes nothing.
    pub fn delete(&mut self, at: usize)
        ensures
            final(self)@ == deleted(old(self)@, at as int),
            at >= old(self)@.len() ==> *final(self) == *old(self),
    {
        if at < self.graphemes.len() {
            self.graphemes.remove(at);
            proof {
                assert(self@ =~= deleted(old(self)@, at as int));
            }
        }
    }

    /// The cluster count after stripping leading whitespace clusters; the
    /// difference from `len` is the column of the first non-whitespace
    /// cluster.
    pub fn len_no_whitespace(&self) -> (n: usize)
        ensures
            n == self@.len() - leading_ws(self@),
    {
        let total = self.graphemes.len();
        let mut i: usize = 0;
        while i < total && cluster_is_ws(&self.graphemes[i])
            invariant
                i <= total,
                total == self@.len(),
                forall|j: int| 0 <= j < i ==> is_ws_cluster(#[trigger] self@[j]),
            decreases total - i,
        {
            i += 1;
        }
        proof {
            lemma_leading_ws_count(self@, i as int);
        }
        total - i
    }
}

/// Whether every character of the cluster is whitespace.
fn cluster_is_ws(g: &Vec<char>) -> (b: bool)
    ensures
        b == is_ws_cluster(g@),
{
    let mut j: usize = 0;
    while j < g.len()
        invariant
            j <= g@.len(),
            forall|k: int| 0 <= k < j ==> is_ws_char(#[trigger] g@[k]),
        decreases g@.len() - j,
    {
        if !ws_char(g[j]) {
            return false;
        }
        j += 1;
    }
    true
}

/// Whether `c` has the Unicode `White_Space` property.
fn ws_char(c: char) -> (b: bool)
    ensures
        b == is_ws_char(c),
{
    c == ' ' || c == '\t' || c == '\n' || c == '\u{b}' || c == '\u{c}' || c == '\r' || c == '\u{85}'
        || c == '\u{a0}' || c == '\u{1680}' || c == '\u{2000}' || c == '\u{2001}' || c == '\u{2002}'
        || c == '\u{2003}' || c == '\u{2004}' || c == '\u{2005}' || c == '\u{2006}'
        || c == '\u{2007}' || c == '\u{2008}' || c == '\u{2009}' || c == '\u{200a}'
        || c == '\u{2028}' || c == '\u{2029}' || c == '\u{202f}' || c == '\u{205f}'
        || c == '\u{3000}'
}

/// Inserting a character at a valid cluster index grows the row by exactly
/// one cluster, and rendering just that index yields the character itself,
/// or four spaces when the character is a tab.
pub proof fn lemma_insert_then_render(cs: Seq<Seq<char>>, i: int, c: char)
    requires
        0 <= i <= cs.len(),
    ensures
        inserted(cs, i, c).len() == cs.len() + 1,
        render_range(inserted(cs, i, c), i, i + 1) == expand_cluster(seq![c]),
{
    let cs2 = inserted(cs, i, c);
    assert(cs2[i] == seq![c]);
    let sub = cs2.subrange(i, i + 1);
    assert(sub =~= seq![cs2[i]]);
    assert(sub[0] == seq![c]);
    assert(sub.drop_first() =~= Seq::<Seq<char>>::empty());
    assert(rendered_clusters(sub) == expand_cluster(seq![c]) + rendered_clusters(sub.drop_first()));
    assert(rendered_clusters(sub) =~= expand_cluster(seq![c]));
}

/// Rendering a row with no tab cluster reproduces the concatenation of its
/// clusters exactly.
pub proof fn lemma_render_no_tabs(cs: Seq<Seq<char>>)
    requires
        forall|i: int| 0 <= i < cs.len() ==> #[trigger] cs[i] != tab_cluster(),
    ensures
        render_range(cs, 0, cs.len() as int) == concat_clusters(cs),
    decreases cs.len(),
{
    assert(cs.subrange(0, cs.len() as int) =~= cs);
    if cs.len() == 0 {
    } else {
        assert(forall|i: int|
            0 <= i < cs.drop_first().len() ==> #[trigger] cs.drop_first()[i] == cs[i + 1]);
        lemma_render_no_tabs(cs.drop_first());
        assert(cs.drop_first().subrange(0, cs.drop_first().len() as int) =~= cs.drop_first());
        assert(rendered_clusters(cs) == expand_cluster(cs[0]) + rendered_clusters(cs.drop_first()));
        assert(expand_cluster(cs[0]) == cs[0]);
    }
}

/// Round trip: a row built by splitting a tab-free text renders, over its
/// whole range, to that text again, so splitting the rendered text yields
/// the original cluster sequence. The hypothesis that the clusters
/// concatenate back to the text holds of every actual split, by the contract
/// of the segmentation call.
pub proof fn lemma_render_round_trip(s: Seq<char>)
    requires
        concat_clusters(grapheme_split(s)) == s,
        forall|i: int|
            0 <= i < grapheme_split(s).len() ==> #[trigger] grapheme_split(s)[i] != tab_cluster(),
    ensures
        render_range(grapheme_split(s), 0, grapheme_split(s).len() as int) == s,
        grapheme_split(render_range(grapheme_split(s), 0, grapheme_split(s).len() as int))
            == grapheme_split(s),
{
    lemma_render_no_tabs(grapheme_split(s));
}

} // verus!
