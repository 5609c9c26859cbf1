//! The extraction marker protocol.
//!
//! Within a qualifying element's text, everything up to and including the
//! start marker is discarded; the text from there up to the next end marker
//! is the manifest region; everything after the end marker is the body
//! region. Each line of the manifest region is trimmed, its comment prefix
//! `//!` stripped (lines without it are dropped), trimmed again, and the
//! results are reassembled with one line feed after each line. If either
//! marker is absent the protocol yields nothing.
//!
//! Trimming removes ASCII whitespace from both ends of a line.

use vstd::prelude::*;

use crate::text::{
    find_chars, lit_chars, spec_find, spec_strip_prefix, spec_trim, strip_prefix_chars, sub_chars,
    trim_chars, lemma_find_props,
};

verus! {

/// The marker that opens the manifest region.
pub open spec fn start_marker() -> Seq<char> {
    "//! ```cargo"@
}

/// The marker that closes the manifest region.
pub open spec fn end_marker() -> Seq<char> {
    "//! ```"@
}

/// Splits a text into manifest region and body region at the markers.
pub open spec fn spec_split_markers(t: Seq<char>) -> Option<(Seq<char>, Seq<char>)> {
    match spec_find(t, start_marker(), 0) {
        Option::None => Option::None,
        Option::Some(i) => {
            let rest = t.subrange(i + start_marker().len(), t.len() as int);
            match spec_find(rest, end_marker(), 0) {
                Option::None => Option::None,
                Option::Some(j) => Option::Some(
                    (
                        rest.subrange(0, j),
                        rest.subrange(j + end_marker().len(), rest.len() as int),
                    ),
                ),
            }
        },
    }
}

/// Splits `t` at the markers; the first occurrence of each marker counts.
pub fn split_markers(t: &Vec<char>) -> (r: Option<(Vec<char>, Vec<char>)>)
    ensures
        match r {
            Option::Some(p) => spec_split_markers(t@) == Option::Some((p.0@, p.1@)),
            Option::None => spec_split_markers(t@) is None,
        },
{
    let sm = lit_chars("//! ```cargo");
    match find_chars(t, &sm, 0) {
        Option::None => None,
        Option::Some(i) => {
            proof {
                lemma_find_props(t@, sm@, 0);
                assert(t@.len() == t.len());
            }
            let rest = sub_chars(t, i + sm.len(), t.len());
            let em = lit_chars("//! ```");
            match find_chars(&rest, &em, 0) {
                Option::None => None,
                Option::Some(j) => {
                    proof {
                        lemma_find_props(rest@, em@, 0);
                        assert(rest@.len() == rest.len());
                    }
                    let region = sub_chars(&rest, 0, j);
                    let body = sub_chars(&rest, j + em.len(), rest.len());
                    Some((region, body))
                },
            }
        },
    }
}

/// The number of characters of `s` before its first line feed, or all of
/// `s` if it has none.
pub open spec fn line_len(s: Seq<char>) -> nat
    decreases s.len(),
{
    if s.len() == 0 {
        0
    } else if s[0] == '\n' {
        0
    } else {
        1 + line_len(s.drop_first())
    }
}

/// Characterization of `line_len`.
pub proof fn lemma_line_len(s: Seq<char>)
    ensures
        line_len(s) <= s.len(),
        forall|j: int| 0 <= j < line_len(s) ==> s[j] != '\n',
        line_len(s) < s.len() ==> s[line_len(s) as int] == '\n',
    decreases s.len(),
{
    if s.len() > 0 && s[0] != '\n' {
        lemma_line_len(s.drop_first());
        assert forall|j: int| 0 <= j < line_len(s) implies s[j] != '\n' by {
            if j >= 1 {
                assert(s.drop_first()[j - 1] == s[j]);
                assert(s.drop_first()[j - 1] != '\n');
            }
        }
        if line_len(s) < s.len() {
            assert(s.drop_first()[line_len(s) as int - 1] == '\n');
        }
    }
}

/// A line without its trailing carriage return.
pub open spec fn spec_chomp_cr(l: Seq<char>) -> Seq<char> {
    if l.len() > 0 && l.last() == '\r' {
        l.drop_last()
    } else {
        l
    }
}

/// The lines of `s`: split at each line feed, with a carriage return
/// immediately before a line feed removed; a final fragment without a line
/// feed is kept as it stands, and an empty final fragment is no line.
pub open spec fn spec_lines(s: Seq<char>) -> Seq<Seq<char>>
    decreases s.len(),
{
    if s.len() == 0 {
        Seq::<Seq<char>>::empty()
    } else {
        let k = line_len(s);
        if k >= s.len() {
            seq![s]
        } else {
            seq![spec_chomp_cr(s.subrange(0, k as int))] + spec_lines(
                s.subrange(k as int + 1, s.len() as int),
            )
        }
    }
}

/// Splits `v` into its lines.
pub fn split_lines(v: &Vec<char>) -> (r: Vec<Vec<char>>)
    ensures
        r@.len() == spec_lines(v@).len(),
        forall|i: int| 0 <= i < r@.len() ==> r@[i]@ == spec_lines(v@)[i],
    decreases v@.len(),
{
    if v.len() == 0 {
        return Vec::new();
    }
    let mut k: usize = 0;
    while k < v.len() && v[k] != '\n'
        invariant
            0 <= k <= v@.len(),
            v@.len() <= usize::MAX,
            forall|j: int| 0 <= j < k ==> v@[j] != '\n',
        decreases v@.len() - k,
    {
        k += 1;
    }
    proof {
        lemma_line_len(v@);
        if k < v@.len() {
            assert(v@[k as int] == '\n');
        }
        assert(k == line_len(v@)) by {
            if k < line_len(v@) {
                assert(v@[k as int] != '\n');
            }
            if line_len(v@) < k {
                assert(v@[line_len(v@) as int] != '\n');
            }
        }
    }
    let mut first = sub_chars(v, 0, k);
    if first.len() > 0 && first[first.len() - 1] == '\r' {
        let chomped = sub_chars(&first, 0, first.len() - 1);
        proof {
            assert(chomped@ =~= first@.drop_last());
        }
        first = chomped;
    }
    proof {
        assert(first@ == spec_chomp_cr(v@.subrange(0, k as int)));
    }
    if k == v.len() {
        let full = sub_chars(v, 0, v.len());
        proof {
            assert(full@ =~= v@);
        }
        let mut r: Vec<Vec<char>> = Vec::new();
        r.push(full);
        return r;
    }
    let rest = sub_chars(v, k + 1, v.len());
    let mut tail = split_lines(&rest);
    let mut r: Vec<Vec<char>> = Vec::new();
    r.push(first);
    r.append(&mut tail);
    proof {
        let ls = spec_lines(v@);
        assert(ls == seq![spec_chomp_cr(v@.subrange(0, k as int))] + spec_lines(
            v@.subrange(k + 1, v@.len() as int),
        ));
        assert(r@.len() == ls.len());
        assert(forall|i: int| 0 <= i < r@.len() ==> r@[i]@ == ls[i]) by {
            assert(r@[0]@ == ls[0]);
            assert(forall|i: int|
                1 <= i < r@.len() ==> r@[i]@ == spec_lines(v@.subrange(
                    k + 1,
                    v@.len() as int,
                ))[i - 1] && r@[i]@ == ls[i]);
        }
    }
    r
}

/// What one manifest line contributes: trimmed, stripped of its `//!`
/// prefix, trimmed again, with a line feed appended; nothing if the prefix
/// is missing.
pub open spec fn spec_line_piece(l: Seq<char>) -> Seq<char> {
    match spec_strip_prefix(spec_trim(l), "//!"@) {
        Option::Some(rest) => spec_trim(rest).push('\n'),
        Option::None => Seq::<char>::empty(),
    }
}

/// The concatenation of the contributions of all lines.
pub open spec fn spec_join_pieces(lines: Seq<Seq<char>>) -> Seq<char>
    decreases lines.len(),
{
    if lines.len() == 0 {
        Seq::<char>::empty()
    } else {
        spec_line_piece(lines[0]) + spec_join_pieces(lines.drop_first())
    }
}

/// Appending one line to a batch appends its contribution.
proof fn lemma_join_snoc(lines: Seq<Seq<char>>, x: Seq<char>)
    ensures
        spec_join_pieces(lines.push(x)) == spec_join_pieces(lines) + spec_line_piece(x),
    decreases lines.len(),
{
    if lines.len() == 0 {
        assert(lines.push(x)[0] == x);
        assert(lines.push(x).drop_first() =~= Seq::<Seq<char>>::empty());
        assert(spec_join_pieces(Seq::<Seq<char>>::empty()) == Seq::<char>::empty());
        assert(spec_join_pieces(lines.push(x)) == spec_line_piece(x) + Seq::<char>::empty());
        assert(spec_line_piece(x) + Seq::<char>::empty() =~= spec_line_piece(x));
        assert(spec_join_pieces(lines) + spec_line_piece(x) =~= spec_line_piece(x));
    } else {
        lemma_join_snoc(lines.drop_first(), x);
        assert(lines.push(x).drop_first() =~= lines.drop_first().push(x));
        assert(lines.push(x)[0] == lines[0]);
        assert(spec_join_pieces(lines.push(x)) == spec_line_piece(lines[0]) + spec_join_pieces(
            lines.drop_first().push(x),
        ));
        assert(spec_line_piece(lines[0]) + (spec_join_pieces(lines.drop_first())
            + spec_line_piece(x)) =~= (spec_line_piece(lines[0]) + spec_join_pieces(
            lines.drop_first(),
        )) + spec_line_piece(x));
    }
}

/// The manifest source text assembled from a manifest region.
pub open spec fn spec_manifest_text(region: Seq<char>) -> Seq<char> {
    spec_join_pieces(spec_lines(region))
}

/// Appends `src` to `dst`.
pub fn append_chars(dst: &mut Vec<char>, src: &Vec<char>)
    ensures
        final(dst)@ == old(dst)@ + src@,
{
    let mut i: usize = 0;
    while i < src.len()
        invariant
            0 <= i <= src@.len(),
            dst@ == old(dst)@ + src@.take(i as int),
        decreases src@.len() - i,
    {
        dst.push(src[i]);
        proof {
            assert(old(dst)@ + src@.take(i as int) + seq![src@[i as int]] =~= old(dst)@
                + src@.take(i + 1 as int));
        }
        i += 1;
    }
    proof {
        assert(old(dst)@ + src@.take(src@.len() as int) =~= old(dst)@ + src@);
    }
}

/// Assembles the manifest source text from a manifest region.
pub fn manifest_text(region: &Vec<char>) -> (r: Vec<char>)
    ensures
        r@ == spec_manifest_text(region@),
{
    let lines = split_lines(region);
    let ghost ls = spec_lines(region@);
    let bang = lit_chars("//!");
    let mut out: Vec<char> = Vec::new();
    let mut i: usize = 0;
    while i < lines.len()
        invariant
            0 <= i <= lines@.len(),
            lines@.len() == ls.len(),
            forall|j: int| 0 <= j < ls.len() ==> lines@[j]@ == ls[j],
            bang@ == "//!"@,
            out@ == spec_join_pieces(ls.take(i as int)),
        decreases lines@.len() - i,
    {
        let line = sub_chars(&lines[i], 0, lines[i].len());
        proof {
            assert(line@ =~= ls[i as int]);
        }
        let trimmed = trim_chars(line);
        match strip_prefix_chars(&trimmed, &bang) {
            Option::Some(rest) => {
                let rest2 = trim_chars(rest);
                append_chars(&mut out, &rest2);
                out.push('\n');
                proof {
                    assert(spec_line_piece(ls[i as int]) =~= rest2@.push('\n'));
                }
            },
            Option::None => {
                proof {
                    assert(spec_line_piece(ls[i as int]) =~= Seq::<char>::empty());
                }
            },
        }
        proof {
            lemma_join_snoc(ls.take(i as int), ls[i as int]);
            assert(ls.take(i as int).push(ls[i as int]) =~= ls.take(i + 1 as int));
            assert(out@ =~= spec_join_pieces(ls.take(i + 1 as int)));
        }
        i += 1;
    }
    proof {
        assert(ls.take(ls.len() as int) =~= ls);
    }
    out
}

/// The manifest source text and body drawn from a qualifying element's
/// text, if the markers are present.
pub open spec fn spec_extract(t: Seq<char>) -> Option<(Seq<char>, Seq<char>)> {
    match spec_split_markers(t) {
        Option::None => Option::None,
        Option::Some(p) => Option::Some((spec_manifest_text(p.0), p.1)),
    }
}

/// Extracts manifest source text and body region from an element's text.
pub fn extract_parts(t: &Vec<char>) -> (r: Option<(Vec<char>, Vec<char>)>)
    ensures
        match r {
            Option::Some(p) => spec_extract(t@) == Option::Some((p.0@, p.1@)),
            Option::None => spec_extract(t@) is None,
        },
{
    match split_markers(t) {
        Option::None => None,
        Option::Some(p) => {
            let text = manifest_text(&p.0);
            Some((text, p.1))
        },
    }
}

} // verus!
