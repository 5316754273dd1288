//! Splitting and joining of text on a single delimiter character.

use vstd::prelude::*;
use vstd::string::*;

verus! {

/// The pieces of `s` that lie between the occurrences of `sep`, in order.
/// A text without `sep` is one piece; the empty text is one empty piece.
pub open spec fn split(s: Seq<char>, sep: char) -> Seq<Seq<char>>
    decreases s.len(),
{
    if s.len() == 0 {
        seq![Seq::<char>::empty()]
    } else {
        let head = split(s.drop_last(), sep);
        if s.last() == sep {
            head.push(Seq::<char>::empty())
        } else {
            head.drop_last().push(head.last().push(s.last()))
        }
    }
}

/// The pieces written one after another with `sep` between neighbours.
pub open spec fn join(parts: Seq<Seq<char>>, sep: Seq<char>) -> Seq<char>
    decreases parts.len(),
{
    if parts.len() == 0 {
        Seq::<char>::empty()
    } else if parts.len() == 1 {
        parts[0]
    } else {
        join(parts.drop_last(), sep) + sep + parts.last()
    }
}

/// The tokens of a text, delimited by `sep`. The empty text has no token; any
/// other text has the pieces that lie between the occurrences of `sep`.
pub open spec fn tokens_of(text: Seq<char>, sep: char) -> Seq<Seq<char>> {
    if text.len() == 0 {
        Seq::<Seq<char>>::empty()
    } else {
        split(text, sep)
    }
}

/// The space-delimited tokens of a line. The empty line has no token.
pub open spec fn tokens(line: Seq<char>) -> Seq<Seq<char>> {
    tokens_of(line, ' ')
}

/// `c` does not occur in `s`.
pub open spec fn free_of(s: Seq<char>, c: char) -> bool {
    forall|i: int| 0 <= i < s.len() ==> s[i] != c
}

/// `c` occurs in none of the pieces.
pub open spec fn all_free_of(parts: Seq<Seq<char>>, c: char) -> bool {
    forall|i: int| 0 <= i < parts.len() ==> free_of(#[trigger] parts[i], c)
}

/// A split always yields at least one piece.
pub proof fn lemma_split_nonempty(s: Seq<char>, sep: char)
    ensures
        split(s, sep).len() >= 1,
    decreases s.len(),
{
    if s.len() > 0 {
        lemma_split_nonempty(s.drop_last(), sep);
    }
}

/// No piece of a split holds the delimiter.
pub proof fn lemma_split_clean(s: Seq<char>, sep: char)
    ensures
        all_free_of(split(s, sep), sep),
    decreases s.len(),
{
    if s.len() > 0 {
        lemma_split_nonempty(s.drop_last(), sep);
        lemma_split_clean(s.drop_last(), sep);
        let head = split(s.drop_last(), sep);
        if s.last() != sep {
            assert(free_of(head.last(), sep));
            assert(free_of(head.last().push(s.last()), sep));
        }
    }
}

/// Joining the pieces of a split with the delimiter gives the text back.
pub proof fn lemma_join_split(s: Seq<char>, sep: char)
    ensures
        join(split(s, sep), seq![sep]) == s,
    decreases s.len(),
{
    if s.len() == 0 {
        assert(join(split(s, sep), seq![sep]) =~= s);
    } else {
        let init = s.drop_last();
        let head = split(init, sep);
        lemma_split_nonempty(init, sep);
        lemma_join_split(init, sep);
        if s.last() == sep {
            let all = head.push(Seq::<char>::empty());
            assert(all.drop_last() =~= head);
            assert(join(all, seq![sep]) =~= init.push(sep));
            assert(init.push(sep) =~= s);
        } else {
            let grown = head.last().push(s.last());
            let all = head.drop_last().push(grown);
            assert(all.drop_last() =~= head.drop_last());
            if head.len() == 1 {
                assert(join(head, seq![sep]) == head[0]);
                assert(join(all, seq![sep]) =~= init.push(s.last()));
            } else {
                assert(join(head, seq![sep]) == join(head.drop_last(), seq![sep]) + seq![sep]
                    + head.last());
                assert(join(all, seq![sep]) =~= init.push(s.last()));
            }
            assert(init.push(s.last()) =~= s);
        }
    }
}

/// Text without the delimiter, written behind `s`, lengthens the last piece of `s`.
pub proof fn lemma_split_append_clean(s: Seq<char>, t: Seq<char>, sep: char)
    requires
        free_of(t, sep),
    ensures
        split(s + t, sep) == split(s, sep).drop_last().push(split(s, sep).last() + t),
    decreases t.len(),
{
    lemma_split_nonempty(s, sep);
    let base = split(s, sep);
    if t.len() == 0 {
        assert(s + t =~= s);
        assert(base.last() + t =~= base.last());
        assert(base.drop_last().push(base.last()) =~= base);
    } else {
        let t0 = t.drop_last();
        assert(free_of(t0, sep));
        lemma_split_append_clean(s, t0, sep);
        assert((s + t).drop_last() =~= s + t0);
        assert((s + t).last() == t.last());
        let head = split(s + t0, sep);
        assert(head.drop_last() =~= base.drop_last());
        assert(head.last().push(t.last()) =~= base.last() + t);
    }
}

/// A text without the delimiter is its own single piece.
pub proof fn lemma_split_single(t: Seq<char>, sep: char)
    requires
        free_of(t, sep),
    ensures
        split(t, sep) == seq![t],
{
    let e = Seq::<char>::empty();
    lemma_split_append_clean(e, t, sep);
    assert(e + t =~= t);
    assert(split(e, sep) =~= seq![e]);
    assert(split(e, sep).drop_last().push(split(e, sep).last() + t) =~= seq![t]);
}

/// Splitting a joined list of delimiter-free pieces gives the pieces back.
pub proof fn lemma_split_join(parts: Seq<Seq<char>>, sep: char)
    requires
        parts.len() >= 1,
        all_free_of(parts, sep),
    ensures
        split(join(parts, seq![sep]), sep) == parts,
    decreases parts.len(),
{
    if parts.len() == 1 {
        lemma_split_single(parts[0], sep);
        assert(seq![parts[0]] =~= parts);
    } else {
        let init = parts.drop_last();
        assert(all_free_of(init, sep)) by {
            assert forall|i: int| 0 <= i < init.len() implies free_of(#[trigger] init[i], sep) by {
                assert(init[i] == parts[i]);
            }
        }
        lemma_split_join(init, sep);
        let left = join(init, seq![sep]);
        let mid = left.push(sep);
        assert(mid.drop_last() =~= left);
        assert(split(mid, sep) == init.push(Seq::<char>::empty()));
        assert(free_of(parts.last(), sep));
        lemma_split_append_clean(mid, parts.last(), sep);
        assert(left + seq![sep] + parts.last() =~= mid + parts.last());
        assert(Seq::<char>::empty() + parts.last() =~= parts.last());
        assert(init.push(Seq::<char>::empty()).drop_last() =~= init);
        assert(init.push(parts.last()) =~= parts);
    }
}

/// The pieces of a text that holds no `c` hold no `c` either.
pub proof fn lemma_split_keeps_free(s: Seq<char>, sep: char, c: char)
    requires
        free_of(s, c),
    ensures
        all_free_of(split(s, sep), c),
    decreases s.len(),
{
    if s.len() > 0 {
        let init = s.drop_last();
        assert(free_of(init, c));
        lemma_split_nonempty(init, sep);
        lemma_split_keeps_free(init, sep, c);
        let head = split(init, sep);
        if s.last() != sep {
            assert(free_of(head.last(), c));
            assert(free_of(head.last().push(s.last()), c));
        }
    }
}

/// Joining pieces without `c` by a delimiter without `c` gives a text without `c`.
pub proof fn lemma_join_free(parts: Seq<Seq<char>>, sep: Seq<char>, c: char)
    requires
        all_free_of(parts, c),
        free_of(sep, c),
    ensures
        free_of(join(parts, sep), c),
    decreases parts.len(),
{
    if parts.len() >= 2 {
        let init = parts.drop_last();
        assert(all_free_of(init, c)) by {
            assert forall|i: int| 0 <= i < init.len() implies free_of(#[trigger] init[i], c) by {
                assert(init[i] == parts[i]);
            }
        }
        lemma_join_free(init, sep, c);
        assert(free_of(parts.last(), c));
    } else if parts.len() == 1 {
        assert(free_of(parts[0], c));
    }
}

/// No token of a line holds a space.
pub proof fn lemma_tokens_clean(line: Seq<char>)
    ensures
        all_free_of(tokens(line), ' '),
{
    if line.len() > 0 {
        lemma_split_clean(line, ' ');
    }
}

/// The characters of a string slice, in order.
pub fn to_chars(s: &str) -> (r: Vec<char>)
    ensures
        r@ == s@,
{
    let mut out: Vec<char> = Vec::new();
    for c in it: s.chars()
        invariant
            out@ == it.seq().take(it.index() as int),
            it.seq() == s@,
    {
        out.push(c);
    }
    out
}

/// Whether two string slices hold the same characters.
pub fn str_eq(a: &str, b: &str) -> (r: bool)
    ensures
        r == (a@ == b@),
{
    let x = a.as_bytes();
    let y = b.as_bytes();
    proof {
        vstd::utf8::encode_utf8_decode_utf8(a@);
        vstd::utf8::encode_utf8_decode_utf8(b@);
    }
    if x.len() != y.len() {
        return false;
    }
    let mut i: usize = 0;
    while i < x.len()
        invariant
            i <= x.len(),
            x.len() == y.len(),
            x@ == a.spec_bytes(),
            y@ == b.spec_bytes(),
            forall|k: int| 0 <= k < i ==> x@[k] == y@[k],
        decreases x.len() - i,
    {
        if x[i] != y[i] {
            return false;
        }
        i += 1;
    }
    assert(x@ =~= y@);
    true
}

/// Splits `s` on every occurrence of `sep`.
pub fn split_on(s: &str, sep: char) -> (r: Vec<String>)
    ensures
        r.deep_view() == split(s@, sep),
        r.len() >= 1,
{
    let chars = to_chars(s);
    let n: usize = chars.len();
    let mut done: Vec<String> = Vec::new();
    let mut start: usize = 0;
    let mut pos: usize = 0;
    assert(s@.take(0) =~= Seq::<char>::empty());
    assert(done.deep_view().push(s@.subrange(0, 0)) =~= seq![Seq::<char>::empty()]);
    while pos < n
        invariant
            start <= pos <= n,
            n == s@.len(),
            chars@ == s@,
            split(s@.take(pos as int), sep) == done.deep_view().push(
                s@.subrange(start as int, pos as int),
            ),
        decreases n - pos,
    {
        let ghost before = s@.take(pos as int);
        let ghost after = s@.take(pos + 1);
        let ghost cur = s@.subrange(start as int, pos as int);
        let ghost old_done = done.deep_view();
        assert(after.drop_last() =~= before);
        assert(after.last() == s@[pos as int]);
        if chars[pos] == sep {
            let piece = s.substring_char(start, pos);
            done.push(piece.to_owned());
            start = pos + 1;
            assert(done.deep_view() =~= old_done.push(cur));
            assert(s@.subrange(start as int, pos + 1) =~= Seq::<char>::empty());
        } else {
            assert(old_done.push(cur).drop_last() =~= old_done);
            assert(cur.push(s@[pos as int]) =~= s@.subrange(start as int, pos + 1));
        }
        pos += 1;
    }
    assert(s@.take(n as int) =~= s@);
    let ghost old_done = done.deep_view();
    let piece = s.substring_char(start, n);
    done.push(piece.to_owned());
    assert(done.deep_view() =~= old_done.push(s@.subrange(start as int, n as int)));
    done
}

/// The space-delimited tokens of a line; none for the empty line.
pub fn tokenize(line: &str) -> (r: Vec<String>)
    ensures
        r.deep_view() == tokens(line@),
{
    if line.unicode_len() == 0 {
        let out: Vec<String> = Vec::new();
        assert(out.deep_view() =~= Seq::<Seq<char>>::empty());
        out
    } else {
        split_on(line, ' ')
    }
}

/// Writes the parts one after another with `sep` between neighbours.
pub fn join_with(parts: &Vec<String>, sep: &str) -> (r: String)
    ensures
        r@ == join(parts.deep_view(), sep@),
{
    let mut out = String::new();
    let mut i: usize = 0;
    while i < parts.len()
        invariant
            i <= parts.len(),
            out@ == join(parts.deep_view().take(i as int), sep@),
        decreases parts.len() - i,
    {
        let ghost before = parts.deep_view().take(i as int);
        let ghost after = parts.deep_view().take(i + 1);
        assert(after.drop_last() =~= before);
        assert(after.last() == parts[i as int]@);
        if i > 0 {
            out.append(sep);
        }
        out.append(parts[i].as_str());
        proof {
            if i == 0 {
                assert(out@ =~= parts[0]@);
            }
        }
        i += 1;
    }
    assert(parts.deep_view().take(parts.len() as int) =~= parts.deep_view());
    out
}

/// A copy of a list of strings, text for text.
pub fn copy_strings(v: &Vec<String>) -> (r: Vec<String>)
    ensures
        r.deep_view() == v.deep_view(),
{
    let mut out: Vec<String> = Vec::new();
    let mut i: usize = 0;
    while i < v.len()
        invariant
            i <= v.len(),
            out.len() == i,
            forall|k: int| 0 <= k < i ==> out[k]@ == v[k]@,
        decreases v.len() - i,
    {
        out.push(v[i].clone());
        i += 1;
    }
    assert(out.deep_view() =~= v.deep_view());
    out
}

/// The character that writes the digit `d`.
pub open spec fn digit_char(d: int) -> char {
    if d == 0 {
        '0'
    } else if d == 1 {
        '1'
    } else if d == 2 {
        '2'
    } else if d == 3 {
        '3'
    } else if d == 4 {
        '4'
    } else if d == 5 {
        '5'
    } else if d == 6 {
        '6'
    } else if d == 7 {
        '7'
    } else if d == 8 {
        '8'
    } else {
        '9'
    }
}

/// The decimal numeral of `n`, without leading zeros.
pub open spec fn decimal(n: nat) -> Seq<char>
    decreases n,
{
    if n < 10 {
        seq![digit_char(n as int)]
    } else {
        decimal(n / 10).push(digit_char((n % 10) as int))
    }
}

fn digit_text(d: u64) -> (r: &'static str)
    requires
        d < 10,
    ensures
        r@ == seq![digit_char(d as int)],
{
    proof {
        reveal_strlit("0");
        reveal_strlit("1");
        reveal_strlit("2");
        reveal_strlit("3");
        reveal_strlit("4");
        reveal_strlit("5");
        reveal_strlit("6");
        reveal_strlit("7");
        reveal_strlit("8");
        reveal_strlit("9");
    }
    let r = if d == 0 {
        "0"
    } else if d == 1 {
        "1"
    } else if d == 2 {
        "2"
    } else if d == 3 {
        "3"
    } else if d == 4 {
        "4"
    } else if d == 5 {
        "5"
    } else if d == 6 {
        "6"
    } else if d == 7 {
        "7"
    } else if d == 8 {
        "8"
    } else {
        "9"
    };
    assert(r@ =~= seq![digit_char(d as int)]);
    r
}

/// Writes `n` as a decimal numeral.
pub fn render_number(n: u64) -> (r: String)
    ensures
        r@ == decimal(n as nat),
    decreases n,
{
    let last = digit_text(n % 10);
    if n < 10 {
        last.to_owned()
    } else {
        let mut out = render_number(n / 10);
        out.append(last);
        assert(out@ =~= decimal(n as nat));
        out
    }
}

/// Reading of a string slice as tokens with a delimiter character between
/// them. The empty text has no token.
pub trait Tokenizable {
    /// The text that is read.
    spec fn text(&self) -> Seq<char>;

    /// The tokens delimited by `s`, borrowed from the text.
    fn tokenize_str(&self, s: char) -> (r: Vec<&str>)
        ensures
            r.len() == tokens_of(self.text(), s).len(),
            forall|i: int|
                0 <= i < r.len() ==> (#[trigger] r[i])@ == tokens_of(self.text(), s)[i],
    ;

    /// The tokens delimited by `s`, as owned strings.
    fn tokenize_string(&self, s: char) -> (r: Vec<String>)
        ensures
            r.deep_view() == tokens_of(self.text(), s),
    ;
}

impl Tokenizable for &str {
    open spec fn text(&self) -> Seq<char> {
        self@
    }

    fn tokenize_str(&self, s: char) -> (r: Vec<&str>) {
        let chars = to_chars(self);
        let n: usize = chars.len();
        let mut done: Vec<&str> = Vec::new();
        if n == 0 {
            return done;
        }
        let mut start: usize = 0;
        let mut pos: usize = 0;
        let ghost mut pieces: Seq<Seq<char>> = Seq::empty();
        assert(self@.take(0) =~= Seq::<char>::empty());
        assert(pieces.push(self@.subrange(0, 0)) =~= seq![Seq::<char>::empty()]);
        while pos < n
            invariant
                start <= pos <= n,
                n == self@.len(),
                chars@ == self@,
                pieces.len() == done.len(),
                forall|i: int| 0 <= i < done.len() ==> (#[trigger] done[i])@ == pieces[i],
                split(self@.take(pos as int), s) == pieces.push(
                    self@.subrange(start as int, pos as int),
                ),
            decreases n - pos,
        {
            let ghost before = self@.take(pos as int);
            let ghost after = self@.take(pos + 1);
            let ghost cur = self@.subrange(start as int, pos as int);
            assert(after.drop_last() =~= before);
            assert(after.last() == self@[pos as int]);
            if chars[pos] == s {
                let piece = self.substring_char(start, pos);
                done.push(piece);
                start = pos + 1;
                proof {
                    pieces = pieces.push(cur);
                }
                assert(self@.subrange(start as int, pos + 1) =~= Seq::<char>::empty());
            } else {
                assert(pieces.push(cur).drop_last() =~= pieces);
                assert(cur.push(self@[pos as int]) =~= self@.subrange(start as int, pos + 1));
            }
            pos += 1;
        }
        assert(self@.take(n as int) =~= self@);
        let piece = self.substring_char(start, n);
        done.push(piece);
        done
    }

    fn tokenize_string(&self, s: char) -> (r: Vec<String>) {
        if self.unicode_len() == 0 {
            let none: Vec<String> = Vec::new();
            assert(none.deep_view() =~= Seq::<Seq<char>>::empty());
            none
        } else {
            split_on(self, s)
        }
    }
}

} // verus!
