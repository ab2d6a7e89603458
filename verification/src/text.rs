//! Characters in and out of strings, and the splitting of text into fields
//! and lines.

use vstd::prelude::*;

verus! {

/// `String::push` appends one character to the end of the string.
pub assume_specification[ String::push ](s: &mut String, ch: char)
    ensures
        final(s)@ == old(s)@.push(ch),
;

/// `String::pop` removes the last character and returns it, and returns
/// `None` for an empty string, which it leaves as it is.
pub assume_specification[ String::pop ](s: &mut String) -> (last: Option<char>)
    ensures
        old(s)@.len() == 0 ==> last is None && final(s)@ == old(s)@,
        old(s)@.len() > 0 ==> last == Some(old(s)@.last()) && final(s)@ == old(s)@.drop_last(),
;

/// The view of a text that may be absent.
pub open spec fn text_view(text: Option<String>) -> Option<Seq<char>> {
    match text {
        Some(s) => Some(s@),
        None => None,
    }
}

/// What a vector of character vectors holds, each taken by its view.
pub open spec fn rows(v: Seq<Vec<char>>) -> Seq<Seq<char>> {
    Seq::new(v.len(), |i: int| v[i]@)
}

/// The fields of `s` when it is cut at every occurrence of `d`. There is
/// always at least one field, and a field may be empty.
pub open spec fn split_on(s: Seq<char>, d: char) -> Seq<Seq<char>>
    decreases s.len(),
{
    if s.len() == 0 {
        seq![Seq::<char>::empty()]
    } else {
        let before = split_on(s.drop_last(), d);
        if s.last() == d {
            before.push(Seq::<char>::empty())
        } else {
            before.drop_last().push(before.last().push(s.last()))
        }
    }
}

/// A line without the carriage return that may end it.
pub open spec fn strip_cr(line: Seq<char>) -> Seq<char> {
    if line.len() > 0 && line.last() == '\r' {
        line.drop_last()
    } else {
        line
    }
}

/// The lines of a text. A line ends at a line feed; the line feed, and a
/// carriage return directly before it, do not belong to the line. What
/// follows the last line feed is a line of its own unless it is empty.
pub open spec fn lines_of(text: Seq<char>) -> Seq<Seq<char>> {
    let pieces = split_on(text, '\n');
    let ended = Seq::new((pieces.len() - 1) as nat, |i: int| strip_cr(pieces[i]));
    if pieces.last().len() == 0 {
        ended
    } else {
        ended.push(pieces.last())
    }
}

/// The text that holds each of `lines` followed by a line feed.
pub open spec fn join_lines(lines: Seq<Seq<char>>) -> Seq<char>
    decreases lines.len(),
{
    if lines.len() == 0 {
        Seq::<char>::empty()
    } else {
        join_lines(lines.drop_last()) + lines.last() + seq!['\n']
    }
}

/// Whether a line can be written to a text and read back unchanged: it holds
/// no line feed and does not end in a carriage return.
pub open spec fn is_line(line: Seq<char>) -> bool {
    !line.contains('\n') && strip_cr(line) == line
}

/// The lines, each without the carriage return that may end it.
pub open spec fn stripped(lines: Seq<Seq<char>>) -> Seq<Seq<char>> {
    Seq::new(lines.len(), |i: int| strip_cr(lines[i]))
}

/// A split gives at least one field, and no field holds the delimiter.
pub proof fn lemma_split_fields(s: Seq<char>, d: char)
    ensures
        split_on(s, d).len() >= 1,
        forall|i: int| 0 <= i < split_on(s, d).len() ==> !(#[trigger] split_on(s, d)[i]).contains(d),
    decreases s.len(),
{
    if s.len() > 0 {
        lemma_split_fields(s.drop_last(), d);
        let before = split_on(s.drop_last(), d);
        if s.last() != d {
            let grown = before.last().push(s.last());
            assert forall|k: int| 0 <= k < grown.len() implies grown[k] != d by {
                if k < before.last().len() {
                    assert(before.last().contains(grown[k]));
                }
            }
        }
    }
}

/// A character of a field is a character of the text that was split.
pub proof fn lemma_split_chars(s: Seq<char>, d: char, c: char)
    requires
        !s.contains(c),
    ensures
        forall|i: int| 0 <= i < split_on(s, d).len() ==> !(#[trigger] split_on(s, d)[i]).contains(c),
    decreases s.len(),
{
    if s.len() > 0 {
        let init = s.drop_last();
        assert forall|k: int| 0 <= k < init.len() implies init[k] != c by {
            assert(s.contains(s[k]));
        }
        assert(s.contains(s.last()));
        lemma_split_chars(init, d, c);
        lemma_split_fields(init, d);
        let before = split_on(init, d);
        if s.last() != d {
            let grown = before.last().push(s.last());
            assert forall|k: int| 0 <= k < grown.len() implies grown[k] != c by {
                if k < before.last().len() {
                    assert(before.last().contains(grown[k]));
                }
            }
        }
    }
}

/// A character occurs in a concatenation where it occurs in one of the two
/// parts.
pub proof fn lemma_concat_contains(a: Seq<char>, b: Seq<char>, c: char)
    ensures
        (a + b).contains(c) == (a.contains(c) || b.contains(c)),
{
    let ab = a + b;
    if ab.contains(c) {
        let k = choose|k: int| 0 <= k < ab.len() && ab[k] == c;
        if k < a.len() {
            assert(a[k] == c);
        } else {
            assert(b[k - a.len()] == c);
        }
    }
    if a.contains(c) {
        let k = choose|k: int| 0 <= k < a.len() && a[k] == c;
        assert(ab[k] == c);
    }
    if b.contains(c) {
        let k = choose|k: int| 0 <= k < b.len() && b[k] == c;
        assert(ab[k + a.len()] == c);
    }
}

/// Joining two runs of lines joins their texts.
pub proof fn lemma_join_concat(a: Seq<Seq<char>>, b: Seq<Seq<char>>)
    ensures
        join_lines(a + b) == join_lines(a) + join_lines(b),
    decreases b.len(),
{
    if b.len() == 0 {
        assert(a + b =~= a);
        assert(join_lines(a) + join_lines(b) =~= join_lines(a));
    } else {
        lemma_join_concat(a, b.drop_last());
        assert((a + b).drop_last() =~= a + b.drop_last());
        assert((a + b).last() == b.last());
        assert(join_lines(a + b) =~= join_lines(a) + join_lines(b));
    }
}

/// No line of a text holds a line feed.
pub proof fn lemma_lines_hold_no_line_feed(text: Seq<char>)
    ensures
        forall|i: int|
            0 <= i < lines_of(text).len() ==> !(#[trigger] lines_of(text)[i]).contains('\n'),
{
    lemma_split_fields(text, '\n');
    let pieces = split_on(text, '\n');
    let lines = lines_of(text);
    assert forall|i: int| 0 <= i < lines.len() implies !(#[trigger] lines[i]).contains('\n') by {
        let piece = pieces[i];
        assert(!piece.contains('\n'));
        if i < pieces.len() - 1 {
            assert(lines[i] == strip_cr(piece));
            if lines[i].contains('\n') {
                let k = choose|k: int| 0 <= k < lines[i].len() && lines[i][k] == '\n';
                assert(piece[k] == '\n');
            }
        }
    }
}

/// Characters other than the delimiter, added at the end, extend the last
/// field.
pub proof fn lemma_split_extend(a: Seq<char>, f: Seq<char>, d: char)
    requires
        !f.contains(d),
    ensures
        split_on(a, d).len() >= 1,
        split_on(a + f, d) == split_on(a, d).drop_last().push(split_on(a, d).last() + f),
    decreases f.len(),
{
    lemma_split_fields(a, d);
    let base = split_on(a, d);
    if f.len() == 0 {
        assert(a + f =~= a);
        assert(base.last() + f =~= base.last());
        assert(base.drop_last().push(base.last()) =~= base);
    } else {
        let g = f.drop_last();
        assert forall|k: int| 0 <= k < g.len() implies g[k] != d by {
            assert(f.contains(f[k]));
        }
        assert(f.contains(f.last()));
        lemma_split_extend(a, g, d);
        assert((a + f).drop_last() =~= a + g);
        assert((a + f).last() == f.last());
        let before = split_on(a + g, d);
        assert(before.drop_last() =~= base.drop_last());
        assert(before.last().push(f.last()) =~= base.last() + f);
    }
}

/// A delimiter and a field without delimiters, added at the end, add that
/// field.
pub proof fn lemma_split_push_field(a: Seq<char>, f: Seq<char>, d: char)
    requires
        !f.contains(d),
    ensures
        split_on(a + seq![d] + f, d) == split_on(a, d).push(f),
{
    let ad = a + seq![d];
    assert(ad.drop_last() =~= a);
    assert(ad.last() == d);
    assert(split_on(ad, d) == split_on(a, d).push(Seq::<char>::empty()));
    lemma_split_extend(ad, f, d);
    let base = split_on(ad, d);
    assert(base.drop_last() =~= split_on(a, d));
    assert(base.last() + f =~= f);
}

/// The fields of two texts joined by a delimiter are the fields of the first,
/// then those of the second.
pub proof fn lemma_split_concat(a: Seq<char>, b: Seq<char>, d: char)
    ensures
        split_on(a + seq![d] + b, d) == split_on(a, d) + split_on(b, d),
    decreases b.len(),
{
    let e = Seq::<char>::empty();
    let ad = a + seq![d];
    lemma_split_fields(a, d);
    if b.len() == 0 {
        assert(ad + b =~= ad);
        assert(ad.drop_last() =~= a);
        assert(split_on(a, d).push(e) =~= split_on(a, d) + seq![e]);
    } else {
        let c = b.drop_last();
        lemma_split_concat(a, c, d);
        lemma_split_fields(c, d);
        assert((ad + b).drop_last() =~= ad + c);
        assert((ad + b).last() == b.last());
        let left = split_on(a, d);
        let right = split_on(c, d);
        if b.last() == d {
            assert((left + right).push(e) =~= left + right.push(e));
        } else {
            assert((left + right).drop_last() =~= left + right.drop_last());
            assert((left + right).last() == right.last());
            assert((left + right.drop_last()).push(right.last().push(b.last())) =~= left
                + right.drop_last().push(right.last().push(b.last())));
        }
    }
}

/// A text without delimiters is a single field.
pub proof fn lemma_split_single(f: Seq<char>, d: char)
    requires
        !f.contains(d),
    ensures
        split_on(f, d) == seq![f],
{
    let e = Seq::<char>::empty();
    lemma_split_extend(e, f, d);
    assert(e + f =~= f);
    assert(split_on(e, d) == seq![e]);
    assert(seq![e].drop_last().push(e + f) =~= seq![f]);
}

/// Cutting joined lines at the line feeds gives the lines back, and an empty
/// piece after the last line feed.
pub proof fn lemma_split_join(lines: Seq<Seq<char>>)
    requires
        forall|i: int| 0 <= i < lines.len() ==> !(#[trigger] lines[i]).contains('\n'),
    ensures
        split_on(join_lines(lines), '\n') == lines.push(Seq::<char>::empty()),
    decreases lines.len(),
{
    let e = Seq::<char>::empty();
    if lines.len() == 0 {
        assert(lines.push(e) =~= seq![e]);
    } else {
        let init = lines.drop_last();
        let l = lines.last();
        lemma_split_join(init);
        let a = join_lines(init);
        lemma_split_extend(a, l, '\n');
        assert(split_on(a, '\n').drop_last() =~= init);
        assert(e + l =~= l);
        assert(split_on(a + l, '\n') == init.push(l));
        let whole = a + l + seq!['\n'];
        assert(whole.drop_last() =~= a + l);
        assert(whole.last() == '\n');
        assert(init.push(l) =~= lines);
    }
}

/// Lines that are written out are read back as they were, but for a
/// carriage return at the end of a line, which is lost.
pub proof fn lemma_lines_of_join(lines: Seq<Seq<char>>)
    requires
        forall|i: int| 0 <= i < lines.len() ==> !(#[trigger] lines[i]).contains('\n'),
    ensures
        lines_of(join_lines(lines)) == stripped(lines),
{
    lemma_split_join(lines);
    let pieces = split_on(join_lines(lines), '\n');
    let ended = Seq::new((pieces.len() - 1) as nat, |i: int| strip_cr(pieces[i]));
    assert(ended =~= stripped(lines));
}

/// The characters of `s`, in order.
pub fn to_chars(s: &str) -> (out: Vec<char>)
    ensures
        out@ == s@,
{
    let mut out: Vec<char> = Vec::new();
    for c in it: s.chars()
        invariant
            out@ == it.seq().take(it.index()),
            it.seq() == s@,
    {
        out.push(c);
    }
    out
}

/// Appends the characters of `chars` to `out`.
pub fn push_chars(out: &mut String, chars: &Vec<char>)
    ensures
        final(out)@ == old(out)@ + chars@,
{
    let mut i: usize = 0;
    while i < chars.len()
        invariant
            i <= chars.len(),
            out@ == old(out)@ + chars@.take(i as int),
        decreases chars.len() - i,
    {
        out.push(chars[i]);
        i += 1;
        assert(chars@.take(i as int) == chars@.take(i - 1).push(chars@[i - 1]));
    }
    assert(chars@.take(i as int) == chars@);
}

/// The string made of the characters of `chars`.
pub fn to_string(chars: &Vec<char>) -> (out: String)
    ensures
        out@ == chars@,
{
    let mut out = String::new();
    push_chars(&mut out, chars);
    assert(Seq::<char>::empty() + chars@ =~= chars@);
    out
}

/// Whether two character vectors hold the same text.
pub fn same_chars(a: &Vec<char>, b: &Vec<char>) -> (r: bool)
    ensures
        r == (a@ == b@),
{
    if a.len() != b.len() {
        return false;
    }
    let mut i: usize = 0;
    while i < a.len()
        invariant
            i <= a.len(),
            a.len() == b.len(),
            forall|k: int| 0 <= k < i ==> a@[k] == b@[k],
        decreases a.len() - i,
    {
        if a[i] != b[i] {
            return false;
        }
        i += 1;
    }
    assert(a@ =~= b@);
    true
}

/// Whether `s` begins with `prefix`.
pub fn starts_with(s: &Vec<char>, prefix: &Vec<char>) -> (r: bool)
    ensures
        r == (s.len() >= prefix.len() && s@.take(prefix.len() as int) == prefix@),
{
    if s.len() < prefix.len() {
        return false;
    }
    let mut i: usize = 0;
    while i < prefix.len()
        invariant
            i <= prefix.len() <= s.len(),
            forall|k: int| 0 <= k < i ==> s@[k] == prefix@[k],
        decreases prefix.len() - i,
    {
        if s[i] != prefix[i] {
            assert(s@.take(prefix.len() as int)[i as int] != prefix@[i as int]);
            return false;
        }
        i += 1;
    }
    assert(s@.take(prefix.len() as int) =~= prefix@);
    true
}

/// The characters of `s` from position `n` on.
pub fn skip_chars(s: &Vec<char>, n: usize) -> (out: Vec<char>)
    requires
        n <= s.len(),
    ensures
        out@ == s@.skip(n as int),
{
    let mut out: Vec<char> = Vec::new();
    let mut i: usize = n;
    while i < s.len()
        invariant
            n <= i <= s.len(),
            out@ == s@.subrange(n as int, i as int),
        decreases s.len() - i,
    {
        out.push(s[i]);
        i += 1;
        assert(s@.subrange(n as int, i as int) =~= s@.subrange(n as int, i - 1).push(s@[i - 1]));
    }
    assert(s@.subrange(n as int, i as int) =~= s@.skip(n as int));
    out
}

/// Whether `c` occurs in `s`.
pub fn has_char(s: &Vec<char>, c: char) -> (r: bool)
    ensures
        r == s@.contains(c),
{
    let mut i: usize = 0;
    while i < s.len()
        invariant
            i <= s.len(),
            forall|k: int| 0 <= k < i ==> s@[k] != c,
        decreases s.len() - i,
    {
        if s[i] == c {
            return true;
        }
        i += 1;
    }
    false
}

/// Cuts `s` at every occurrence of `d`.
pub fn split_chars(s: &Vec<char>, d: char) -> (fields: Vec<Vec<char>>)
    ensures
        rows(fields@) == split_on(s@, d),
{
    let mut fields: Vec<Vec<char>> = Vec::new();
    let mut current: Vec<char> = Vec::new();
    let mut i: usize = 0;
    assert(s@.take(0) =~= Seq::<char>::empty());
    assert(rows(fields@).push(current@) =~= split_on(s@.take(0), d));
    while i < s.len()
        invariant
            i <= s.len(),
            rows(fields@).push(current@) == split_on(s@.take(i as int), d),
        decreases s.len() - i,
    {
        let c: char = s[i];
        let ghost before = rows(fields@).push(current@);
        proof {
            let t = s@.take(i + 1);
            assert(t.drop_last() =~= s@.take(i as int));
            assert(t.last() == c);
            assert(before.drop_last() =~= rows(fields@));
            assert(before.last() == current@);
        }
        if c == d {
            fields.push(current);
            current = Vec::new();
            assert(rows(fields@) =~= before);
        } else {
            current.push(c);
        }
        i += 1;
        assert(rows(fields@).push(current@) =~= split_on(s@.take(i as int), d));
    }
    assert(s@.take(i as int) == s@);
    let ghost before = rows(fields@).push(current@);
    fields.push(current);
    assert(rows(fields@) =~= before);
    fields
}

/// The lines of `text`, as `lines_of` defines them.
pub fn split_lines(text: &Vec<char>) -> (lines: Vec<Vec<char>>)
    ensures
        rows(lines@) == lines_of(text@),
{
    let mut pieces = split_chars(text, '\n');
    proof {
        lemma_split_fields(text@, '\n');
    }
    let ghost all = rows(pieces@);
    let last = pieces.pop().unwrap();
    let mut lines: Vec<Vec<char>> = Vec::new();
    let mut i: usize = 0;
    let n: usize = pieces.len();
    assert(rows(pieces@) =~= all.drop_last());
    while i < n
        invariant
            i <= n,
            n == pieces.len(),
            lines.len() == i,
            forall|k: int| 0 <= k < i ==> (#[trigger] lines@[k])@ == strip_cr(pieces@[k]@),
        decreases n - i,
    {
        let mut line = pieces[i].clone();
        let m: usize = line.len();
        if m > 0 && line[m - 1] == '\r' {
            line.pop();
        }
        assert(line@ =~= strip_cr(pieces@[i as int]@));
        lines.push(line);
        i += 1;
    }
    let ghost ended = rows(lines@);
    assert(ended =~= Seq::new((all.len() - 1) as nat, |k: int| strip_cr(all[k])));
    if last.len() > 0 {
        lines.push(last);
        assert(rows(lines@) =~= ended.push(last@));
    }
    lines
}

} // verus!
