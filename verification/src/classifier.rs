//! The reply classifier: turns raw reply text into a control command.
//!
//! Email replies are split into lines; empty lines, quoted lines (starting
//! with `>`) and attribution lines ("On <date> at <time> ... wrote:") are
//! dropped. When exactly one line survives, it is matched case-insensitively
//! against the known keywords; otherwise the whole reply is an unknown
//! command. Chat replies carry no quoting artifacts and are matched directly.

use vstd::prelude::*;
use vstd::seq_lib::*;

use crate::backend::{BackendCommand, SpecCommand};
use crate::text::{chars_of, copy_range};

verus! {

/// Index of the first newline in `s`, or `s.len()` if there is none.
pub open spec fn first_nl(s: Seq<char>) -> nat
    decreases s.len(),
{
    if s.len() == 0 {
        0
    } else if s[0] == '\n' {
        0
    } else {
        1 + first_nl(s.drop_first())
    }
}

/// Whether `s` contains a newline character.
pub open spec fn has_nl(s: Seq<char>) -> bool {
    exists|j: int| 0 <= j < s.len() && s[j] == '\n'
}

pub proof fn lemma_first_nl_bounds(s: Seq<char>)
    ensures
        first_nl(s) <= s.len(),
        forall|j: int| 0 <= j < first_nl(s) ==> s[j] != '\n',
        first_nl(s) < s.len() ==> s[first_nl(s) as int] == '\n',
    decreases s.len(),
{
    if s.len() == 0 {
    } else if s[0] == '\n' {
    } else {
        lemma_first_nl_bounds(s.drop_first());
        assert forall|j: int| 0 <= j < first_nl(s) implies s[j] != '\n' by {
            if j > 0 {
                assert(s.drop_first()[j - 1] != '\n');
            }
        }
    }
}

/// If the first `d` characters are not newlines and position `d` is a newline
/// (or the end), then `d` is the first newline position.
pub proof fn lemma_first_nl_at(s: Seq<char>, d: int)
    requires
        0 <= d <= s.len(),
        forall|j: int| 0 <= j < d ==> s[j] != '\n',
        d < s.len() ==> s[d] == '\n',
    ensures
        first_nl(s) == d,
    decreases d,
{
    if s.len() == 0 {
    } else if d == 0 {
    } else {
        assert(s[0] != '\n');
        lemma_first_nl_at(s.drop_first(), d - 1);
    }
}

/// The lines of `s`, split on `'\n'`. A trailing newline yields a final
/// empty line; an empty input yields one empty line.
pub open spec fn split_lines(s: Seq<char>) -> Seq<Seq<char>>
    decreases s.len(),
{
    let i = first_nl(s) as int;
    if i >= s.len() {
        seq![s]
    } else {
        seq![s.subrange(0, i)] + split_lines(s.subrange(i + 1, s.len() as int))
    }
}

/// No line produced by `split_lines` contains a newline.
pub proof fn lemma_split_lines_no_nl(s: Seq<char>)
    ensures
        forall|k: int| 0 <= k < split_lines(s).len() ==> !has_nl(#[trigger] split_lines(s)[k]),
    decreases s.len(),
{
    lemma_first_nl_bounds(s);
    let i = first_nl(s) as int;
    if i >= s.len() {
        assert(split_lines(s)[0] == s);
        assert(!has_nl(s));
    } else {
        let head = s.subrange(0, i);
        let rest = s.subrange(i + 1, s.len() as int);
        assert(!has_nl(head));
        lemma_split_lines_no_nl(rest);
        assert forall|k: int| 0 <= k < split_lines(s).len() implies !has_nl(
            #[trigger] split_lines(s)[k],
        ) by {
            if k == 0 {
                assert(split_lines(s)[0] == head);
            } else {
                assert(split_lines(s)[k] == split_lines(rest)[k - 1]);
            }
        }
    }
}

/// A newline-free text splits into exactly itself.
pub proof fn lemma_split_single(l: Seq<char>)
    requires
        !has_nl(l),
    ensures
        split_lines(l) == seq![l],
{
    lemma_first_nl_at(l, l.len() as int);
}

/// Marker `" at "` standing at position `i` of `l`.
pub open spec fn at_marker(l: Seq<char>, i: int) -> bool {
    &&& l[i] == ' '
    &&& l[i + 1] == 'a'
    &&& l[i + 2] == 't'
    &&& l[i + 3] == ' '
}

/// Marker `"wrote:"` standing at position `j` of `l`.
pub open spec fn wrote_marker(l: Seq<char>, j: int) -> bool {
    &&& l[j] == 'w'
    &&& l[j + 1] == 'r'
    &&& l[j + 2] == 'o'
    &&& l[j + 3] == 't'
    &&& l[j + 4] == 'e'
    &&& l[j + 5] == ':'
}

/// An email client's attribution line: it starts with `"On"`, and after at
/// least one further character carries `" at "`, and after at least one more
/// character `"wrote:"`.
pub open spec fn is_attribution(l: Seq<char>) -> bool {
    &&& l.len() >= 2
    &&& l[0] == 'O'
    &&& l[1] == 'n'
    &&& exists|i: int, j: int|
        3 <= i && i + 5 <= j && j + 6 <= l.len() && #[trigger] at_marker(l, i)
            && #[trigger] wrote_marker(l, j)
}

/// A line the classifier keeps: non-empty, not quoted, not an attribution.
pub open spec fn keep_line(l: Seq<char>) -> bool {
    &&& l.len() > 0
    &&& l[0] != '>'
    &&& !is_attribution(l)
}

/// The lines of an email reply that survive quoted-reply stripping.
pub open spec fn surviving_lines(s: Seq<char>) -> Seq<Seq<char>> {
    split_lines(s).filter(|l: Seq<char>| keep_line(l))
}

/// Decides whether `"wrote:"` stands at some position `j >= lo` of `l`.
fn has_wrote_from(l: &Vec<char>, lo: usize) -> (r: bool)
    ensures
        r == exists|j: int|
            lo <= j && j + 6 <= l@.len() && #[trigger] wrote_marker(l@, j),
{
    let n = l.len();
    if n < 6 || lo > n - 6 {
        return false;
    }
    let mut j: usize = lo;
    while j <= n - 6
        invariant
            n == l@.len(),
            n >= 6,
            lo <= j <= n - 5,
            forall|j2: int| lo <= j2 < j && j2 + 6 <= n ==> !#[trigger] wrote_marker(l@, j2),
        decreases n - j,
    {
        if l[j] == 'w' && l[j + 1] == 'r' && l[j + 2] == 'o' && l[j + 3] == 't' && l[j + 4] == 'e'
            && l[j + 5] == ':' {
            assert(wrote_marker(l@, j as int));
            return true;
        }
        j += 1;
    }
    false
}

/// Decides whether `l` is an attribution line.
fn is_attribution_exec(l: &Vec<char>) -> (r: bool)
    ensures
        r == is_attribution(l@),
{
    let n = l.len();
    if n < 14 {
        // Too short for "On" + gap + " at " + gap + "wrote:".
        assert(!is_attribution(l@)) by {
            if is_attribution(l@) {
                let (i, j) = choose|i: int, j: int|
                    3 <= i && i + 5 <= j && j + 6 <= l@.len() && #[trigger] at_marker(l@, i)
                        && #[trigger] wrote_marker(l@, j);
                assert(l@.len() >= 14);
            }
        }
        return false;
    }
    if l[0] != 'O' || l[1] != 'n' {
        return false;
    }
    let mut i: usize = 3;
    while i <= n - 11
        invariant
            n == l@.len(),
            n >= 14,
            l@[0] == 'O',
            l@[1] == 'n',
            3 <= i <= n - 10,
            forall|i2: int, j2: int|
                3 <= i2 < i && i2 + 5 <= j2 && j2 + 6 <= n ==> !(#[trigger] at_marker(l@, i2)
                    && #[trigger] wrote_marker(l@, j2)),
        decreases n - i,
    {
        if l[i] == ' ' && l[i + 1] == 'a' && l[i + 2] == 't' && l[i + 3] == ' ' {
            if has_wrote_from(l, i + 5) {
                proof {
                    let j = choose|j: int|
                        i + 5 <= j && j + 6 <= l@.len() && #[trigger] wrote_marker(l@, j);
                    assert(at_marker(l@, i as int));
                    assert(3 <= i as int && i as int + 5 <= j && j + 6 <= l@.len());
                }
                return true;
            }
        }
        i += 1;
    }
    assert(!is_attribution(l@)) by {
        if is_attribution(l@) {
            let (i2, j2) = choose|i2: int, j2: int|
                3 <= i2 && i2 + 5 <= j2 && j2 + 6 <= l@.len() && #[trigger] at_marker(l@, i2)
                    && #[trigger] wrote_marker(l@, j2);
            assert(i2 < i);
        }
    }
    false
}

/// Case-insensitive match of `l` against the all-lowercase ASCII keyword `k`:
/// equal lengths, and each character equal after ASCII lowercasing.
pub open spec fn keyword_match(l: Seq<char>, k: Seq<char>) -> bool {
    &&& l.len() == k.len()
    &&& forall|i: int| 0 <= i < l.len() ==> lower_eq(#[trigger] l[i], k[i])
}

/// Whether `c` equals `k` once `c` is lowercased (ASCII case folding only).
pub open spec fn lower_eq(c: char, k: char) -> bool {
    if 65 <= c as u32 <= 90 {
        c as u32 + 32 == k as u32
    } else {
        c == k
    }
}

/// The line of `v` that a start/end pair denotes.
pub open spec fn range_line(v: Seq<char>, p: (usize, usize)) -> Seq<char> {
    v.subrange(p.0 as int, p.1 as int)
}

/// The lines all the pairs denote.
pub open spec fn range_lines(v: Seq<char>, ps: Seq<(usize, usize)>) -> Seq<Seq<char>> {
    ps.map_values(|p: (usize, usize)| range_line(v, p))
}

/// Splits `v` on newlines, returning each line as a start/end pair of
/// character positions.
fn split_ranges(v: &Vec<char>) -> (r: Vec<(usize, usize)>)
    ensures
        forall|k: int| 0 <= k < r@.len() ==> (#[trigger] r@[k]).0 <= r@[k].1 <= v@.len(),
        range_lines(v@, r@) == split_lines(v@),
{
    let n = v.len();
    let mut out: Vec<(usize, usize)> = Vec::new();
    let mut start: usize = 0;
    let mut i: usize = 0;
    proof {
        assert(v@.subrange(0, n as int) =~= v@);
        assert(range_lines(v@, out@) + split_lines(v@) =~~= split_lines(v@));
    }
    while i < n
        invariant
            n == v@.len(),
            start <= i <= n,
            forall|k: int| 0 <= k < out@.len() ==> (#[trigger] out@[k]).0 <= out@[k].1 <= n,
            forall|j: int| start <= j < i ==> v@[j] != '\n',
            range_lines(v@, out@) + split_lines(v@.subrange(start as int, n as int))
                =~~= split_lines(v@),
        decreases n - i,
    {
        if v[i] == '\n' {
            proof {
                let tail = v@.subrange(start as int, n as int);
                assert forall|j: int| 0 <= j < i - start implies tail[j] != '\n' by {
                    assert(tail[j] == v@[start + j]);
                }
                lemma_first_nl_at(tail, i - start);
                assert(tail.subrange(0, i - start) =~= v@.subrange(start as int, i as int));
                assert(tail.subrange(i - start + 1, tail.len() as int) =~= v@.subrange(
                    i as int + 1,
                    n as int,
                ));
                let out2 = out@.push((start, i));
                assert(range_lines(v@, out2) =~= range_lines(v@, out@).push(
                    range_line(v@, (start, i)),
                ));
                assert(range_lines(v@, out2) + split_lines(v@.subrange(i as int + 1, n as int))
                    =~~= split_lines(v@));
            }
            out.push((start, i));
            start = i + 1;
        }
        i += 1;
    }
    proof {
        let tail = v@.subrange(start as int, n as int);
        assert forall|j: int| 0 <= j < tail.len() implies tail[j] != '\n' by {
            assert(tail[j] == v@[start + j]);
        }
        lemma_first_nl_at(tail, tail.len() as int);
        let out2 = out@.push((start, n));
        assert(range_lines(v@, out2) =~= range_lines(v@, out@).push(range_line(v@, (start, n))));
        assert(range_lines(v@, out2) =~~= split_lines(v@));
    }
    out.push((start, n));
    out
}

/// Decides `keyword_match(l@, kw@)`.
fn line_is_keyword(l: &Vec<char>, kw: &str) -> (r: bool)
    ensures
        r == keyword_match(l@, kw@),
{
    let n = l.len();
    if n != kw.unicode_len() {
        return false;
    }
    let mut i: usize = 0;
    while i < n
        invariant
            n == l@.len() == kw@.len(),
            i <= n,
            forall|i2: int| 0 <= i2 < i ==> lower_eq(#[trigger] l@[i2], kw@[i2]),
        decreases n - i,
    {
        let c = l[i];
        let k = kw.get_char(i);
        let cu = c as u32;
        if 65 <= cu && cu <= 90 {
            if cu + 32 != k as u32 {
                return false;
            }
        } else {
            if c != k {
                return false;
            }
        }
        i += 1;
    }
    true
}

/// Classification of a single extracted line: the keywords `rerun`, `done`
/// and `cat` (matched case-insensitively) map to their commands; anything
/// else is unknown, carrying the line verbatim.
pub open spec fn classify_line_spec(l: Seq<char>) -> SpecCommand {
    if keyword_match(l, "rerun"@) {
        SpecCommand::Rerun
    } else if keyword_match(l, "done"@) {
        SpecCommand::Done
    } else if keyword_match(l, "cat"@) {
        SpecCommand::Cat
    } else {
        SpecCommand::Unknown(l)
    }
}

/// Classification of a raw email reply: when exactly one line survives the
/// quoted-reply stripping it is classified; otherwise the reply is malformed
/// and the whole raw text is an unknown command.
pub open spec fn spec_classify_email(s: Seq<char>) -> SpecCommand {
    if surviving_lines(s).len() == 1 {
        classify_line_spec(surviving_lines(s)[0])
    } else {
        SpecCommand::Unknown(s)
    }
}

/// Classification of a chat reply: the raw body is matched directly.
pub open spec fn spec_classify_chat(s: Seq<char>) -> SpecCommand {
    classify_line_spec(s)
}

/// Decides whether the line of `v` between `from` and `to` survives the
/// stripping.
fn line_kept(v: &Vec<char>, from: usize, to: usize) -> (r: bool)
    requires
        from <= to <= v@.len(),
    ensures
        r == keep_line(range_line(v@, (from, to))),
{
    if from == to {
        return false;
    }
    if v[from] == '>' {
        return false;
    }
    let line = copy_range(v, from, to);
    !is_attribution_exec(&line)
}

/// Classifies the extracted line given as the range `p` of `v`, taking the
/// unknown-command text from `body` (whose characters are `v`).
fn classify_range(body: &str, v: &Vec<char>, p: (usize, usize)) -> (r: BackendCommand)
    requires
        v@ == body@,
        p.0 <= p.1 <= v@.len(),
    ensures
        r@ == classify_line_spec(range_line(v@, p)),
{
    let line = copy_range(v, p.0, p.1);
    if line_is_keyword(&line, "rerun") {
        BackendCommand::Rerun
    } else if line_is_keyword(&line, "done") {
        BackendCommand::Done
    } else if line_is_keyword(&line, "cat") {
        BackendCommand::Cat
    } else {
        let text = body.substring_char(p.0, p.1);
        BackendCommand::Unknown(String::from_str(text))
    }
}

/// Classifies a raw email reply.
///
/// The reply is split into lines; empty, quoted and attribution lines are
/// dropped. Exactly one surviving line is classified by keyword; any other
/// shape is malformed and yields the unknown command carrying the whole raw
/// text.
pub fn classify_email_reply(body: &str) -> (r: BackendCommand)
    ensures
        r@ == spec_classify_email(body@),
{
    let v = chars_of(body);
    let ranges = split_ranges(&v);
    let m = ranges.len();
    let mut kept: Vec<(usize, usize)> = Vec::new();
    let mut k: usize = 0;
    proof {
        assert(range_lines(v@, ranges@).subrange(0, 0) =~= Seq::<Seq<char>>::empty());
        assert(range_lines(v@, kept@) =~= Seq::<Seq<char>>::empty());
        assert(Seq::<Seq<char>>::empty().filter(|l: Seq<char>| keep_line(l))
            =~= Seq::<Seq<char>>::empty()) by {
            reveal(Seq::filter);
        }
    }
    while k < m
        invariant
            m == ranges@.len(),
            k <= m,
            v@ == body@,
            forall|k2: int| 0 <= k2 < m ==> (#[trigger] ranges@[k2]).0 <= ranges@[k2].1
                <= v@.len(),
            forall|k2: int| 0 <= k2 < kept@.len() ==> (#[trigger] kept@[k2]).0 <= kept@[k2].1
                <= v@.len(),
            range_lines(v@, kept@) =~~= range_lines(v@, ranges@).subrange(0, k as int).filter(
                |l: Seq<char>| keep_line(l),
            ),
        decreases m - k,
    {
        let p = ranges[k];
        proof {
            let pred = |l: Seq<char>| keep_line(l);
            let pre = range_lines(v@, ranges@).subrange(0, k as int);
            let pre2 = range_lines(v@, ranges@).subrange(0, k as int + 1);
            assert(pre2 =~= pre.push(range_line(v@, ranges@[k as int])));
            assert(pre2.drop_last() =~= pre);
            assert(pre2.last() == range_line(v@, ranges@[k as int]));
            assert(pre2.filter(pred) == if pred(range_line(v@, ranges@[k as int])) {
                pre.filter(pred).push(range_line(v@, ranges@[k as int]))
            } else {
                pre.filter(pred)
            }) by {
                reveal(Seq::filter);
            }
            if pred(range_line(v@, ranges@[k as int])) {
                assert(range_lines(v@, kept@.push(p)) =~= range_lines(v@, kept@).push(
                    range_line(v@, p),
                ));
            }
        }
        if line_kept(&v, p.0, p.1) {
            kept.push(p);
        }
        k += 1;
    }
    proof {
        assert(range_lines(v@, ranges@).subrange(0, m as int) =~= range_lines(v@, ranges@));
        assert(range_lines(v@, kept@) =~~= surviving_lines(v@));
    }
    if kept.len() == 1 {
        let p = kept[0];
        proof {
            assert(range_lines(v@, kept@)[0] == range_line(v@, kept@[0]));
            assert(surviving_lines(body@)[0] == range_line(v@, p));
        }
        classify_range(body, &v, p)
    } else {
        proof {
            assert(range_lines(v@, kept@).len() == kept@.len());
        }
        BackendCommand::Unknown(String::from_str(body))
    }
}

/// A reply of exactly one surviving line — non-empty, not quoted, not an
/// attribution, without a newline — is classified as that line: the matching
/// keyword's command, or the unknown command carrying the line verbatim.
pub proof fn single_line_classification(l: Seq<char>)
    requires
        keep_line(l),
        !has_nl(l),
    ensures
        spec_classify_email(l) == classify_line_spec(l),
{
    lemma_split_single(l);
    assert(surviving_lines(l) =~= seq![l]) by {
        reveal(Seq::filter);
        assert(seq![l].drop_last() =~= Seq::<Seq<char>>::empty());
        assert(seq![l].last() == l);
    }
}

/// The line the email classifier extracts from `s`: the one surviving line
/// when the reply is well formed, the whole text otherwise.
pub open spec fn extracted_reply(s: Seq<char>) -> Seq<char> {
    if surviving_lines(s).len() == 1 {
        surviving_lines(s)[0]
    } else {
        s
    }
}

/// Quoted-reply stripping is idempotent: classifying the text the classifier
/// itself extracted yields the same command.
pub proof fn classify_idempotent(s: Seq<char>)
    ensures
        spec_classify_email(extracted_reply(s)) == spec_classify_email(s),
{
    let pred = |x: Seq<char>| keep_line(x);
    if surviving_lines(s).len() == 1 {
        let l = surviving_lines(s)[0];
        assert(keep_line(l)) by {
            split_lines(s).lemma_filter_pred(pred, 0);
        }
        assert(!has_nl(l)) by {
            assert(surviving_lines(s).contains(l));
            split_lines(s).lemma_filter_contains_rev(pred, l);
            let k = choose|k: int| 0 <= k < split_lines(s).len() && split_lines(s)[k] == l;
            lemma_split_lines_no_nl(s);
        }
        single_line_classification(l);
    }
}

/// Classifies a chat reply: no quoting artifacts, the raw body is matched.
pub fn classify_chat_reply(msg: &str) -> (r: BackendCommand)
    ensures
        r@ == spec_classify_chat(msg@),
{
    let v = chars_of(msg);
    if line_is_keyword(&v, "rerun") {
        BackendCommand::Rerun
    } else if line_is_keyword(&v, "done") {
        BackendCommand::Done
    } else if line_is_keyword(&v, "cat") {
        BackendCommand::Cat
    } else {
        BackendCommand::Unknown(String::from_str(msg))
    }
}

} // verus!
