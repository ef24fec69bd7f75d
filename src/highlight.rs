use vstd::prelude::*;

verus! {

/// Whether position `i` of the text is one of the matched positions.
pub open spec fn is_matched(indices: Seq<usize>, i: int) -> bool {
    0 <= i && indices.contains(i as usize)
}

/// What is written just before the character at position `i`: the prefix
/// where a run of matched positions starts, the suffix where one has just
/// ended, and nothing otherwise.
pub open spec fn marker_before(indices: Seq<usize>, pre: Seq<char>, post: Seq<char>, i: int) -> Seq<char> {
    if is_matched(indices, i) && !is_matched(indices, i - 1) {
        pre
    } else if !is_matched(indices, i) && is_matched(indices, i - 1) {
        post
    } else {
        Seq::empty()
    }
}

/// The rendering of the first `n` characters of `text`, each preceded by its marker.
pub open spec fn highlighted_prefix(
    text: Seq<char>,
    indices: Seq<usize>,
    pre: Seq<char>,
    post: Seq<char>,
    n: nat,
) -> Seq<char>
    decreases n,
{
    if n == 0 {
        Seq::empty()
    } else {
        highlighted_prefix(text, indices, pre, post, (n - 1) as nat) + marker_before(
            indices,
            pre,
            post,
            n - 1,
        ) + seq![text[n - 1]]
    }
}

/// The suffix that closes a run of matched positions reaching the end of the text.
pub open spec fn closing_marker(text: Seq<char>, indices: Seq<usize>, post: Seq<char>) -> Seq<char> {
    if is_matched(indices, text.len() - 1) {
        post
    } else {
        Seq::empty()
    }
}

/// `text` with every maximal run of matched positions wrapped in `pre` and `post`.
pub open spec fn highlighted(text: Seq<char>, indices: Seq<usize>, pre: Seq<char>, post: Seq<char>) -> Seq<char> {
    highlighted_prefix(text, indices, pre, post, text.len()) + closing_marker(text, indices, post)
}

/// Relies on String::push: appends one character at the end.
#[verifier::external_body]
fn push_char(s: &mut String, c: char)
    ensures
        final(s)@ == old(s)@.push(c),
{
    s.push(c)
}

/// Whether `x` occurs in `v`.
pub fn contains_index(v: &Vec<usize>, x: usize) -> (r: bool)
    ensures
        r == v@.contains(x),
{
    let mut k: usize = 0;
    while k < v.len()
        invariant
            k <= v.len(),
            forall|j: int| 0 <= j < k ==> v@[j] != x,
        decreases v.len() - k,
    {
        if v[k] == x {
            return true;
        }
        k = k + 1;
    }
    false
}

/// Wraps every maximal run of matched character positions of `text` in `pre` and `post`.
pub fn highlight_runs(text: &str, indices: &Vec<usize>, pre: &str, post: &str) -> (r: String)
    ensures
        r@ == highlighted(text@, indices@, pre@, post@),
{
    let n = text.unicode_len();
    let mut result = String::new();
    let mut in_match = false;
    let mut i: usize = 0;
    for c in it: text.chars()
        invariant
            n == text@.len(),
            it.seq() == text@,
            i == it.index(),
            i <= n,
            result@ == highlighted_prefix(text@, indices@, pre@, post@, i as nat),
            in_match == is_matched(indices@, i - 1),
    {
        let matching = contains_index(indices, i);
        if matching && !in_match {
            result.append(pre);
        }
        if !matching && in_match {
            result.append(post);
        }
        push_char(&mut result, c);
        in_match = matching;
        i = i + 1;
    }
    if in_match {
        result.append(post);
    }
    result
}

/// The longer of the two markers (the prefix where they are as long).
pub open spec fn longer_marker(pre: Seq<char>, post: Seq<char>) -> Seq<char> {
    if pre.len() >= post.len() { pre } else { post }
}

/// The shorter of the two markers (the suffix where they are as long).
pub open spec fn shorter_marker(pre: Seq<char>, post: Seq<char>) -> Seq<char> {
    if pre.len() >= post.len() { post } else { pre }
}

/// `s` with every occurrence of the markers removed, scanning from the end
/// and trying the longer marker first; an empty marker is never removed.
pub open spec fn strip_markers(s: Seq<char>, pre: Seq<char>, post: Seq<char>) -> Seq<char>
    decreases s.len(),
{
    let long = longer_marker(pre, post);
    let short = shorter_marker(pre, post);
    if s.len() == 0 {
        Seq::empty()
    } else if long.len() > 0 && long.is_suffix_of(s) {
        strip_markers(s.subrange(0, s.len() - long.len()), pre, post)
    } else if short.len() > 0 && short.is_suffix_of(s) {
        strip_markers(s.subrange(0, s.len() - short.len()), pre, post)
    } else {
        strip_markers(s.drop_last(), pre, post).push(s.last())
    }
}

/// No character of `text` occurs in either marker.
pub open spec fn apart_from_markers(text: Seq<char>, pre: Seq<char>, post: Seq<char>) -> bool {
    forall|i: int| 0 <= i < text.len() ==> !pre.contains(#[trigger] text[i]) && !post.contains(text[i])
}

proof fn lemma_strip_push_char(h: Seq<char>, c: char, pre: Seq<char>, post: Seq<char>)
    requires
        !pre.contains(c),
        !post.contains(c),
    ensures
        strip_markers(h.push(c), pre, post) == strip_markers(h, pre, post).push(c),
{
    let s = h.push(c);
    let long = longer_marker(pre, post);
    let short = shorter_marker(pre, post);
    if long.len() > 0 && long.is_suffix_of(s) {
        assert(long[long.len() - 1] == s[s.len() - 1]);
        assert(pre.contains(c) || post.contains(c));
    }
    if short.len() > 0 && short.is_suffix_of(s) {
        assert(short[short.len() - 1] == s[s.len() - 1]);
        assert(pre.contains(c) || post.contains(c));
    }
    assert(s.drop_last() =~= h);
}

proof fn lemma_strip_marker(h: Seq<char>, m: Seq<char>, pre: Seq<char>, post: Seq<char>)
    requires
        m == pre || m == post,
        h.len() > 0 ==> !pre.contains(h.last()) && !post.contains(h.last()),
    ensures
        strip_markers(h + m, pre, post) == strip_markers(h, pre, post),
{
    let s = h + m;
    let long = longer_marker(pre, post);
    let short = shorter_marker(pre, post);
    if m.len() == 0 {
        assert(s =~= h);
    } else {
        if long.len() > m.len() && long.is_suffix_of(s) {
            let j = long.len() - m.len() - 1;
            assert(long[j] == s[s.len() - m.len() - 1]);
            assert(s[s.len() - m.len() - 1] == h.last());
            assert(pre.contains(h.last()) || post.contains(h.last()));
        }
        if long.len() == m.len() && long.is_suffix_of(s) {
            assert(long =~= m);
        }
        if !(long.len() > 0 && long.is_suffix_of(s)) {
            assert(long.len() < m.len() || !(m =~= long));
            assert(m =~= short);
            assert(short.is_suffix_of(s)) by {
                assert(s.subrange(s.len() - m.len(), s.len() as int) =~= m);
            }
        }
        assert(s.subrange(0, s.len() - m.len()) =~= h);
    }
}

proof fn lemma_strip_highlighted_prefix(
    text: Seq<char>,
    indices: Seq<usize>,
    pre: Seq<char>,
    post: Seq<char>,
    n: nat,
)
    requires
        n <= text.len(),
        apart_from_markers(text, pre, post),
    ensures
        strip_markers(highlighted_prefix(text, indices, pre, post, n), pre, post) == text.subrange(0, n as int),
        n > 0 ==> highlighted_prefix(text, indices, pre, post, n).len() > 0
            && highlighted_prefix(text, indices, pre, post, n).last() == text[n - 1],
    decreases n,
{
    if n == 0 {
        assert(text.subrange(0, 0) =~= Seq::<char>::empty());
    } else {
        let k = (n - 1) as nat;
        let h = highlighted_prefix(text, indices, pre, post, k);
        let m = marker_before(indices, pre, post, k as int);
        lemma_strip_highlighted_prefix(text, indices, pre, post, k);
        if m.len() > 0 {
            lemma_strip_marker(h, m, pre, post);
        } else {
            assert(h + m =~= h);
        }
        assert(!pre.contains(text[k as int]) && !post.contains(text[k as int]));
        lemma_strip_push_char(h + m, text[k as int], pre, post);
        assert(h + m + seq![text[k as int]] =~= (h + m).push(text[k as int]));
        assert(text.subrange(0, n as int) =~= text.subrange(0, k as int).push(text[k as int]));
    }
}

/// Removing the markers from a highlighted text gives the text back, for a
/// text that shares no character with the markers.
pub proof fn lemma_strip_highlighted(text: Seq<char>, indices: Seq<usize>, pre: Seq<char>, post: Seq<char>)
    requires
        apart_from_markers(text, pre, post),
    ensures
        strip_markers(highlighted(text, indices, pre, post), pre, post) == text,
{
    let n = text.len();
    let h = highlighted_prefix(text, indices, pre, post, n);
    lemma_strip_highlighted_prefix(text, indices, pre, post, n);
    if is_matched(indices, n - 1) && post.len() > 0 {
        lemma_strip_marker(h, post, pre, post);
    } else {
        assert(h + closing_marker(text, indices, post) =~= h);
    }
    assert(text.subrange(0, n as int) =~= text);
}

} // verus!
