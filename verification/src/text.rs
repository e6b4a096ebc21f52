//! Comma-separated list handling: splitting on commas, trimming
//! whitespace, and joining back, together with the laws relating them.

use vstd::prelude::*;

verus! {

/// The Unicode `White_Space` characters, exactly the set that
/// `char::is_whitespace` recognises.
pub open spec fn is_space_char(c: char) -> bool {
    c == '\u{0009}' || c == '\u{000A}' || c == '\u{000B}' || c == '\u{000C}'
        || c == '\u{000D}' || c == ' ' || c == '\u{0085}' || c == '\u{00A0}'
        || c == '\u{1680}' || c == '\u{2000}' || c == '\u{2001}' || c == '\u{2002}'
        || c == '\u{2003}' || c == '\u{2004}' || c == '\u{2005}' || c == '\u{2006}'
        || c == '\u{2007}' || c == '\u{2008}' || c == '\u{2009}' || c == '\u{200A}'
        || c == '\u{2028}' || c == '\u{2029}' || c == '\u{202F}' || c == '\u{205F}'
        || c == '\u{3000}'
}

/// Decides `is_space_char`.
pub fn is_space(c: char) -> (r: bool)
    ensures
        r == is_space_char(c),
{
    match c {
        '\u{0009}' | '\u{000A}' | '\u{000B}' | '\u{000C}' | '\u{000D}' | ' '
        | '\u{0085}' | '\u{00A0}' | '\u{1680}' | '\u{2000}' | '\u{2001}'
        | '\u{2002}' | '\u{2003}' | '\u{2004}' | '\u{2005}' | '\u{2006}'
        | '\u{2007}' | '\u{2008}' | '\u{2009}' | '\u{200A}' | '\u{2028}'
        | '\u{2029}' | '\u{202F}' | '\u{205F}' | '\u{3000}' => true,
        _ => false,
    }
}

/// The sequence with its leading whitespace removed.
pub open spec fn trim_start_spec(s: Seq<char>) -> Seq<char>
    decreases s.len(),
{
    if s.len() > 0 && is_space_char(s.first()) {
        trim_start_spec(s.drop_first())
    } else {
        s
    }
}

/// The sequence with its trailing whitespace removed.
pub open spec fn trim_end_spec(s: Seq<char>) -> Seq<char>
    decreases s.len(),
{
    if s.len() > 0 && is_space_char(s.last()) {
        trim_end_spec(s.drop_last())
    } else {
        s
    }
}

/// The sequence with leading and trailing whitespace removed.
pub open spec fn trim_spec(s: Seq<char>) -> Seq<char> {
    trim_end_spec(trim_start_spec(s))
}

/// The segments of `s` between commas, in order.  A string with no
/// comma is one segment, so the result is never empty; `n` commas
/// yield `n + 1` segments, empty ones included.
pub open spec fn split_commas(s: Seq<char>) -> Seq<Seq<char>>
    decreases s.len(),
{
    if s.len() == 0 {
        seq![Seq::<char>::empty()]
    } else if s.first() == ',' {
        seq![Seq::<char>::empty()] + split_commas(s.drop_first())
    } else {
        let rest = split_commas(s.drop_first());
        seq![seq![s.first()] + rest.first()] + rest.drop_first()
    }
}

/// The segments joined back with a single comma between neighbours.
pub open spec fn join_commas(parts: Seq<Seq<char>>) -> Seq<char>
    decreases parts.len(),
{
    if parts.len() == 0 {
        Seq::<char>::empty()
    } else if parts.len() == 1 {
        parts.first()
    } else {
        join_commas(parts.drop_last()) + seq![','] + parts.last()
    }
}

/// A raw comma-separated package list, parsed: split on commas, each
/// segment trimmed, order kept, nothing filtered.
pub open spec fn parse_spec(s: Seq<char>) -> Seq<Seq<char>> {
    split_commas(s).map_values(|e: Seq<char>| trim_spec(e))
}

/// The views of a sequence of strings.
pub open spec fn views_of(v: Seq<String>) -> Seq<Seq<char>> {
    v.map_values(|s: String| s@)
}

proof fn lemma_trim_start_is_skip(s: Seq<char>, k: int)
    requires
        0 <= k <= s.len(),
        forall|j: int| 0 <= j < k ==> is_space_char(#[trigger] s[j]),
        k < s.len() ==> !is_space_char(s[k]),
    ensures
        trim_start_spec(s) == s.skip(k),
    decreases k,
{
    if k == 0 {
        assert(s.skip(0) =~= s);
    } else {
        lemma_trim_start_is_skip(s.drop_first(), k - 1);
        assert(s.drop_first().skip(k - 1) =~= s.skip(k));
    }
}

proof fn lemma_trim_end_is_take(s: Seq<char>, k: int)
    requires
        0 <= k <= s.len(),
        forall|j: int| k <= j < s.len() ==> is_space_char(#[trigger] s[j]),
        k > 0 ==> !is_space_char(s[k - 1]),
    ensures
        trim_end_spec(s) == s.take(k),
    decreases s.len(),
{
    if k == s.len() {
        if s.len() > 0 && is_space_char(s.last()) {
            assert(!is_space_char(s[k - 1]));
            assert(false);
        }
        assert(s.take(k) =~= s);
    } else {
        lemma_trim_end_is_take(s.drop_last(), k);
        assert(s.drop_last().take(k) =~= s.take(k));
    }
}

/// Splitting yields at least one segment.
pub proof fn lemma_split_len(s: Seq<char>)
    ensures
        split_commas(s).len() >= 1,
    decreases s.len(),
{
    if s.len() > 0 {
        lemma_split_len(s.drop_first());
    }
}

/// No segment of a split contains a comma.
pub proof fn lemma_split_no_comma(s: Seq<char>)
    ensures
        forall|k: int, j: int|
            0 <= k < split_commas(s).len() && 0 <= j < split_commas(s)[k].len()
                ==> #[trigger] split_commas(s)[k][j] != ',',
    decreases s.len(),
{
    if s.len() > 0 {
        lemma_split_len(s.drop_first());
        lemma_split_no_comma(s.drop_first());
    }
}

/// A comma-free sequence splits into just itself.
pub proof fn lemma_split_commafree(s: Seq<char>)
    requires
        forall|j: int| 0 <= j < s.len() ==> #[trigger] s[j] != ',',
    ensures
        split_commas(s) == seq![s],
    decreases s.len(),
{
    if s.len() == 0 {
        assert(split_commas(s) =~~= seq![s]);
    } else {
        assert(s[0] != ',');
        lemma_split_commafree(s.drop_first());
        let rest = split_commas(s.drop_first());
        assert(rest == seq![s.drop_first()]);
        assert(rest.first() == s.drop_first());
        assert(rest.drop_first() =~= Seq::<Seq<char>>::empty());
        assert(seq![s.first()] + s.drop_first() =~= s);
        assert(split_commas(s) =~~= seq![s]);
    }
}

/// Splitting distributes over a comma: the segments of
/// `a + "," + b` are the segments of `a` followed by those of `b`.
pub proof fn lemma_split_append(a: Seq<char>, b: Seq<char>)
    ensures
        split_commas(a + seq![','] + b) == split_commas(a) + split_commas(b),
    decreases a.len(),
{
    let s = a + seq![','] + b;
    if a.len() == 0 {
        assert(s =~= seq![','] + b);
        assert(s.first() == ',');
        assert(s.drop_first() =~= b);
        assert(split_commas(s) =~= split_commas(a) + split_commas(b));
    } else {
        lemma_split_append(a.drop_first(), b);
        lemma_split_len(a.drop_first() + seq![','] + b);
        lemma_split_len(a.drop_first());
        assert(s.first() == a.first());
        assert(s.drop_first() =~= a.drop_first() + seq![','] + b);
        let rest = split_commas(s.drop_first());
        assert(rest == split_commas(a.drop_first()) + split_commas(b));
        if a.first() == ',' {
            assert(split_commas(s) == seq![Seq::<char>::empty()] + rest);
            assert(split_commas(a) == seq![Seq::<char>::empty()]
                + split_commas(a.drop_first()));
            assert(split_commas(s) =~= split_commas(a) + split_commas(b));
        } else {
            assert(rest.first() == split_commas(a.drop_first()).first());
            assert(rest.drop_first() =~= split_commas(a.drop_first()).drop_first()
                + split_commas(b));
            assert(split_commas(s) =~= split_commas(a) + split_commas(b));
        }
    }
}

proof fn lemma_trim_start_props(s: Seq<char>)
    ensures
        trim_start_spec(s).len() <= s.len(),
        trim_start_spec(s) == s.skip(s.len() - trim_start_spec(s).len()),
        trim_start_spec(s).len() > 0 ==> !is_space_char(trim_start_spec(s).first()),
    decreases s.len(),
{
    if s.len() > 0 && is_space_char(s.first()) {
        lemma_trim_start_props(s.drop_first());
        let t = trim_start_spec(s);
        assert(s.drop_first().skip(s.len() - 1 - t.len()) =~= s.skip(s.len() - t.len()));
    } else {
        assert(s.skip(0) =~= s);
    }
}

proof fn lemma_trim_end_props(s: Seq<char>)
    ensures
        trim_end_spec(s).len() <= s.len(),
        trim_end_spec(s) == s.take(trim_end_spec(s).len() as int),
        trim_end_spec(s).len() > 0 ==> !is_space_char(trim_end_spec(s).last()),
    decreases s.len(),
{
    if s.len() > 0 && is_space_char(s.last()) {
        lemma_trim_end_props(s.drop_last());
        let t = trim_end_spec(s);
        assert(s.drop_last().take(t.len() as int) =~= s.take(t.len() as int));
    } else {
        assert(s.take(s.len() as int) =~= s);
    }
}

/// Trimming is idempotent: an already-trimmed sequence is unchanged.
pub proof fn lemma_trim_idempotent(s: Seq<char>)
    ensures
        trim_spec(trim_spec(s)) == trim_spec(s),
{
    let y = trim_start_spec(s);
    let x = trim_end_spec(y);
    lemma_trim_start_props(s);
    lemma_trim_end_props(y);
    if x.len() > 0 {
        assert(x.first() == y.first());
        assert(!is_space_char(x.first()));
        assert(trim_start_spec(x) == x);
        assert(!is_space_char(x.last()));
        assert(trim_end_spec(x) == x);
    }
}

/// Trimming adds no character: a comma-free sequence stays comma-free.
proof fn lemma_trim_keeps_commafree(s: Seq<char>)
    requires
        forall|j: int| 0 <= j < s.len() ==> #[trigger] s[j] != ',',
    ensures
        forall|j: int| 0 <= j < trim_spec(s).len() ==> #[trigger] trim_spec(s)[j] != ',',
{
    let y = trim_start_spec(s);
    let x = trim_end_spec(y);
    lemma_trim_start_props(s);
    lemma_trim_end_props(y);
    let k = s.len() - y.len();
    assert forall|j: int| 0 <= j < x.len() implies #[trigger] x[j] != ',' by {
        assert(x[j] == y[j]);
        assert(y[j] == s[k + j]);
    }
}

/// Joining comma-free segments with commas and splitting again
/// recovers exactly the segments.
pub proof fn lemma_join_split_roundtrip(parts: Seq<Seq<char>>)
    requires
        parts.len() >= 1,
        forall|k: int, j: int|
            0 <= k < parts.len() && 0 <= j < parts[k].len()
                ==> #[trigger] parts[k][j] != ',',
    ensures
        split_commas(join_commas(parts)) == parts,
    decreases parts.len(),
{
    if parts.len() == 1 {
        lemma_split_commafree(parts.first());
        assert(split_commas(join_commas(parts)) =~= parts);
    } else {
        let dl = parts.drop_last();
        lemma_join_split_roundtrip(dl);
        lemma_split_append(join_commas(dl), parts.last());
        lemma_split_commafree(parts.last());
        assert(split_commas(join_commas(parts)) =~= parts);
    }
}

/// Parsing is idempotent on its own output: joining the parsed
/// segments with commas and parsing again gives the same segments.
pub proof fn lemma_parse_join_idempotent(s: Seq<char>)
    ensures
        parse_spec(join_commas(parse_spec(s))) == parse_spec(s),
{
    let raw = split_commas(s);
    let parts = parse_spec(s);
    lemma_split_len(s);
    lemma_split_no_comma(s);
    assert forall|k: int, j: int|
        0 <= k < parts.len() && 0 <= j < parts[k].len() implies #[trigger] parts[k][j]
        != ',' by {
        lemma_trim_keeps_commafree(raw[k]);
        assert(parts[k] == trim_spec(raw[k]));
    }
    lemma_join_split_roundtrip(parts);
    assert forall|k: int| 0 <= k < parts.len() implies #[trigger] parse_spec(
        join_commas(parts),
    )[k] == parts[k] by {
        lemma_trim_keeps_commafree(raw[k]);
        lemma_trim_idempotent(raw[k]);
    }
    assert(parse_spec(join_commas(parts)) =~= parts);
}

/// Joins the strings with a single comma between neighbours, as
/// `join_commas` describes.
pub fn join_with_commas(v: &Vec<String>) -> (r: String)
    ensures
        r@ == join_commas(views_of(v@)),
{
    let ghost all = views_of(v@);
    let mut r = String::new();
    let mut i: usize = 0;
    while i < v.len()
        invariant
            0 <= i <= v.len(),
            all == views_of(v@),
            all.len() == v@.len(),
            r@ == join_commas(all.take(i as int)),
        decreases v.len() - i,
    {
        if i > 0 {
            r.append(",");
        }
        r.append(v[i].as_str());
        proof {
            reveal_strlit(",");
            assert(","@ =~= seq![',']);
            assert(all[i as int] == v@[i as int]@);
            let upto = all.take(i + 1);
            assert(upto.drop_last() =~= all.take(i as int));
            assert(upto.last() == all[i as int]);
            assert(r@ =~= join_commas(upto));
        }
        i = i + 1;
    }
    proof {
        assert(all.take(v@.len() as int) =~= all);
    }
    r
}

/// Splits on commas and trims each segment, as `parse_spec` describes.
pub fn parse_packages(s: &str) -> (r: Vec<String>)
    ensures
        views_of(r@) == parse_spec(s@),
{
    let n = s.unicode_len();
    let mut r: Vec<String> = Vec::new();
    proof {
        assert(s@.subrange(0, n as int) =~= s@);
        assert(views_of(r@) =~= Seq::<Seq<char>>::empty());
        assert(views_of(r@) + parse_spec(s@) =~= parse_spec(s@));
    }
    let mut start: usize = 0;
    let mut i: usize = 0;
    while i < n
        invariant
            0 <= start <= i <= n,
            n == s@.len(),
            forall|j: int| start <= j < i ==> #[trigger] s@[j] != ',',
            parse_spec(s@) == views_of(r@)
                + split_commas(s@.subrange(start as int, n as int)).map_values(
                |e: Seq<char>| trim_spec(e)),
        decreases n - i,
    {
        if s.get_char(i) == ',' {
            let piece = s.substring_char(start, i);
            let trimmed = trim(piece);
            proof {
                let seg = s@.subrange(start as int, i as int);
                let rest = s@.subrange(i + 1, n as int);
                assert(s@.subrange(start as int, n as int) =~= seg + seq![','] + rest);
                lemma_split_append(seg, rest);
                lemma_split_commafree(seg);
                let old_views = views_of(r@);
                assert(views_of(r@.push(trimmed)) =~= old_views + seq![trimmed@]);
                assert((seq![seg] + split_commas(rest)).map_values(
                    |e: Seq<char>| trim_spec(e)) =~= seq![trim_spec(seg)]
                    + split_commas(rest).map_values(|e: Seq<char>| trim_spec(e)));
                assert(parse_spec(s@) =~= views_of(r@.push(trimmed))
                    + split_commas(rest).map_values(|e: Seq<char>| trim_spec(e)));
            }
            r.push(trimmed);
            start = i + 1;
        }
        i = i + 1;
    }
    let piece = s.substring_char(start, n);
    let trimmed = trim(piece);
    proof {
        let seg = s@.subrange(start as int, n as int);
        lemma_split_commafree(seg);
        let old_views = views_of(r@);
        assert(views_of(r@.push(trimmed)) =~= old_views + seq![trimmed@]);
        assert(seq![seg].map_values(|e: Seq<char>| trim_spec(e)) =~= seq![trim_spec(seg)]);
        assert(parse_spec(s@) =~= views_of(r@.push(trimmed)));
    }
    r.push(trimmed);
    r
}

/// Trims leading and trailing whitespace, as `trim_spec` describes.
pub fn trim(s: &str) -> (r: String)
    ensures
        r@ == trim_spec(s@),
{
    let n = s.unicode_len();
    let mut start: usize = 0;
    while start < n && is_space(s.get_char(start))
        invariant
            0 <= start <= n,
            n == s@.len(),
            forall|j: int| 0 <= j < start ==> is_space_char(#[trigger] s@[j]),
        decreases n - start,
    {
        start = start + 1;
    }
    let mut end: usize = n;
    while end > start && is_space(s.get_char(end - 1))
        invariant
            start <= end <= n,
            n == s@.len(),
            forall|j: int| end <= j < n ==> is_space_char(#[trigger] s@[j]),
        decreases end,
    {
        end = end - 1;
    }
    proof {
        lemma_trim_start_is_skip(s@, start as int);
        let tail = s@.skip(start as int);
        lemma_trim_end_is_take(tail, end - start);
        assert(tail.take(end - start) =~= s@.subrange(start as int, end as int));
    }
    String::from_str(s.substring_char(start, end))
}

} // verus!
