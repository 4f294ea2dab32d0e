use vstd::prelude::*;
use vstd::std_specs::iter::IteratorSpec;

verus! {

/// Whether `c` is white space in the sense of Rust's `char::is_whitespace`
/// (the Unicode `White_Space` property).
pub open spec fn is_white_space(c: char) -> bool {
    let n = c as u32;
    ||| 0x09 <= n <= 0x0d
    ||| n == 0x20
    ||| n == 0x85
    ||| n == 0xa0
    ||| n == 0x1680
    ||| 0x2000 <= n <= 0x200a
    ||| n == 0x2028
    ||| n == 0x2029
    ||| n == 0x202f
    ||| n == 0x205f
    ||| n == 0x3000
}

/// The word that has been gathered so far, as a list of at most one word.
pub open spec fn flush(current: Seq<char>) -> Seq<Seq<char>> {
    if current.len() == 0 {
        seq![]
    } else {
        seq![current]
    }
}

/// The words of `s`, read from the left, when the characters in `current`
/// have already been gathered into the word that `s` continues.
pub open spec fn words_from(s: Seq<char>, current: Seq<char>) -> Seq<Seq<char>>
    decreases s.len(),
{
    if s.len() == 0 {
        flush(current)
    } else if is_white_space(s[0]) {
        flush(current) + words_from(s.drop_first(), seq![])
    } else {
        words_from(s.drop_first(), current.push(s[0]))
    }
}

/// The words of `s`: its maximal runs of characters that are not white
/// space, in order, as `str::split_whitespace` yields them.
pub open spec fn words(s: Seq<char>) -> Seq<Seq<char>> {
    words_from(s, seq![])
}

/// The words of a list joined with a single space between each two,
/// as `[String]::join(" ")` builds them.
pub open spec fn join_words(ws: Seq<Seq<char>>) -> Seq<char>
    decreases ws.len(),
{
    if ws.len() == 0 {
        seq![]
    } else if ws.len() == 1 {
        ws[0]
    } else {
        ws[0] + seq![' '] + join_words(ws.drop_first())
    }
}

/// A word that `words` can give: not empty, and holding no white space.
pub open spec fn is_word(w: Seq<char>) -> bool {
    &&& w.len() > 0
    &&& forall|i: int| 0 <= i < w.len() ==> !is_white_space(#[trigger] w[i])
}

/// The views of a list of strings.
pub open spec fn views(v: Seq<String>) -> Seq<Seq<char>> {
    v.map_values(|s: String| s@)
}

/// Whether `c` is white space; `char::is_whitespace`.
pub fn is_whitespace_char(c: char) -> (b: bool)
    ensures
        b == is_white_space(c),
{
    let n = c as u32;
    (0x09 <= n && n <= 0x0d) || n == 0x20 || n == 0x85 || n == 0xa0 || n == 0x1680 || (0x2000
        <= n && n <= 0x200a) || n == 0x2028 || n == 0x2029 || n == 0x202f || n == 0x205f || n
        == 0x3000
}

/// The characters of `s`, in order.
fn chars_of(s: &str) -> (v: Vec<char>)
    ensures
        v@ == s@,
{
    broadcast use vstd::string::group_string_axioms;

    let mut v: Vec<char> = Vec::new();
    for c in iter: s.chars()
        invariant
            iter.seq() == s@,
            v@ == iter.seq().take(iter.index()),
    {
        v.push(c);
    }
    v
}

/// Splits a phrase into its words, as `str::split_whitespace` does: the
/// maximal runs of characters that are not white space, in order.
pub fn split_phrase(phrase: &str) -> (ws: Vec<String>)
    ensures
        views(ws@) == words(phrase@),
{
    let chars = chars_of(phrase);
    let n = chars.len();
    let mut out: Vec<String> = Vec::new();
    let mut start: usize = 0;
    let mut i: usize = 0;
    assert(chars@.skip(0) =~= chars@);
    assert(chars@.subrange(0, 0) =~= Seq::<char>::empty());
    assert(views(out@) =~= Seq::<Seq<char>>::empty());
    while i < n
        invariant
            n == chars@.len(),
            chars@ == phrase@,
            start <= i <= n,
            views(out@) + words_from(chars@.skip(i as int), chars@.subrange(start as int, i as int))
                == words(chars@),
        decreases n - i,
    {
        let c = chars[i];
        let ghost rest = chars@.skip(i as int);
        let ghost cur = chars@.subrange(start as int, i as int);
        let ghost before = views(out@);
        assert(rest[0] == c);
        assert(rest.drop_first() =~= chars@.skip(i + 1));
        if is_whitespace_char(c) {
            assert(words_from(rest, cur) == flush(cur) + words_from(chars@.skip(i + 1), seq![]));
            if start < i {
                let w = String::from_str(phrase.substring_char(start, i));
                out.push(w);
                assert(views(out@) =~= before.push(cur));
            } else {
                assert(cur =~= Seq::<char>::empty());
            }
            assert(views(out@) =~= before + flush(cur));
            start = i + 1;
            assert(chars@.subrange(start as int, i + 1) =~= Seq::<char>::empty());
            assert(before + (flush(cur) + words_from(chars@.skip(i + 1), seq![])) =~= views(out@)
                + words_from(chars@.skip(i + 1), seq![]));
        } else {
            assert(cur.push(c) =~= chars@.subrange(start as int, i + 1));
        }
        i = i + 1;
    }
    let ghost cur = chars@.subrange(start as int, n as int);
    let ghost before = views(out@);
    assert(chars@.skip(n as int) =~= Seq::<char>::empty());
    if start < n {
        let w = String::from_str(phrase.substring_char(start, n));
        out.push(w);
        assert(views(out@) =~= before.push(cur));
    } else {
        assert(cur =~= Seq::<char>::empty());
    }
    assert(views(out@) =~= before + flush(cur));
    out
}

/// Joining a list with one more word at its end puts one space before it.
proof fn lemma_join_push(ws: Seq<Seq<char>>, w: Seq<char>)
    ensures
        join_words(ws.push(w)) == if ws.len() == 0 {
            w
        } else {
            join_words(ws) + seq![' '] + w
        },
    decreases ws.len(),
{
    let pushed = ws.push(w);
    if ws.len() == 0 {
        assert(pushed =~= seq![w]);
    } else if ws.len() == 1 {
        assert(pushed[0] == ws[0]);
        assert(pushed.drop_first() =~= seq![w]);
        assert(join_words(seq![w]) == w);
        assert(join_words(ws) == ws[0]);
    } else {
        assert(pushed[0] == ws[0]);
        assert(pushed.drop_first() =~= ws.drop_first().push(w));
        lemma_join_push(ws.drop_first(), w);
        assert(ws[0] + seq![' '] + (join_words(ws.drop_first()) + seq![' '] + w) =~= ws[0] + seq![
            ' ',
        ] + join_words(ws.drop_first()) + seq![' '] + w);
    }
}

/// Joins words with a single space between each two, as
/// `[String]::join(" ")` does.
pub fn join_phrase(ws: &Vec<String>) -> (phrase: String)
    ensures
        phrase@ == join_words(views(ws@)),
{
    let mut out = String::new();
    let n = ws.len();
    let mut i: usize = 0;
    assert(views(ws@).take(0) =~= Seq::<Seq<char>>::empty());
    while i < n
        invariant
            n == ws@.len(),
            i <= n,
            out@ == join_words(views(ws@).take(i as int)),
        decreases n - i,
    {
        let ghost prefix = views(ws@).take(i as int);
        if i > 0 {
            let space = " ";
            proof {
                reveal_strlit(" ");
            }
            out.append(space);
        }
        out.append(ws[i].as_str());
        proof {
            lemma_join_push(prefix, ws@[i as int]@);
            assert(views(ws@).take(i + 1) =~= prefix.push(ws@[i as int]@));
        }
        i = i + 1;
    }
    assert(views(ws@).take(n as int) =~= views(ws@));
    out
}

/// Characters that are not white space only lengthen the word being
/// gathered.
proof fn lemma_absorb(w: Seq<char>, t: Seq<char>, current: Seq<char>)
    requires
        forall|i: int| 0 <= i < w.len() ==> !is_white_space(#[trigger] w[i]),
    ensures
        words_from(w + t, current) == words_from(t, current + w),
    decreases w.len(),
{
    if w.len() == 0 {
        assert(w + t =~= t);
        assert(current + w =~= current);
    } else {
        assert((w + t)[0] == w[0]);
        assert((w + t).drop_first() =~= w.drop_first() + t);
        lemma_absorb(w.drop_first(), t, current.push(w[0]));
        assert(current.push(w[0]) + w.drop_first() =~= current + w);
    }
}

/// Reading a joined list of words, after `current` has been gathered,
/// gives the words back, the first one extended by `current`.
proof fn lemma_words_of_join(ws: Seq<Seq<char>>, current: Seq<char>)
    requires
        ws.len() >= 1,
        forall|i: int| 0 <= i < ws.len() ==> is_word(#[trigger] ws[i]),
    ensures
        words_from(join_words(ws), current) == seq![current + ws[0]] + ws.drop_first(),
    decreases ws.len(),
{
    assert(is_word(ws[0]));
    if ws.len() == 1 {
        lemma_absorb(ws[0], seq![], current);
        assert(ws[0] + Seq::<char>::empty() =~= ws[0]);
        assert(ws.drop_first() =~= Seq::<Seq<char>>::empty());
        assert(seq![current + ws[0]] + ws.drop_first() =~= seq![current + ws[0]]);
    } else {
        let rest = ws.drop_first();
        let t = seq![' '] + join_words(rest);
        assert(ws[0] + seq![' '] + join_words(rest) =~= ws[0] + t);
        lemma_absorb(ws[0], t, current);
        assert(t[0] == ' ');
        assert(t.drop_first() =~= join_words(rest));
        assert(forall|i: int| 0 <= i < rest.len() ==> rest[i] == ws[i + 1]);
        lemma_words_of_join(rest, seq![]);
        assert(Seq::<char>::empty() + rest[0] =~= rest[0]);
        assert(seq![rest[0]] + rest.drop_first() =~= rest);
    }
}

/// Every word that `words_from` gives is a word, when the characters
/// gathered so far hold no white space.
proof fn lemma_words_from_are_words(s: Seq<char>, current: Seq<char>)
    requires
        forall|i: int| 0 <= i < current.len() ==> !is_white_space(#[trigger] current[i]),
    ensures
        forall|k: int|
            0 <= k < words_from(s, current).len() ==> is_word(#[trigger] words_from(s, current)[k]),
    decreases s.len(),
{
    if current.len() > 0 {
        assert(is_word(current));
    }
    if s.len() == 0 {
        assert(words_from(s, current) == flush(current));
        assert forall|k: int| 0 <= k < flush(current).len() implies is_word(
            #[trigger] flush(current)[k],
        ) by {
            assert(flush(current)[k] == current);
        }
    } else if is_white_space(s[0]) {
        lemma_words_from_are_words(s.drop_first(), seq![]);
        let head = flush(current);
        let tail = words_from(s.drop_first(), seq![]);
        assert(words_from(s, current) == head + tail);
        assert forall|k: int| 0 <= k < (head + tail).len() implies is_word(#[trigger] (head
            + tail)[k]) by {
            if k < head.len() {
                assert((head + tail)[k] == current);
            } else {
                assert((head + tail)[k] == tail[k - head.len()]);
            }
        }
    } else {
        let next = current.push(s[0]);
        assert forall|i: int| 0 <= i < next.len() implies !is_white_space(#[trigger] next[i]) by {
            if i < current.len() {
                assert(next[i] == current[i]);
            }
        }
        lemma_words_from_are_words(s.drop_first(), next);
        assert(words_from(s, current) == words_from(s.drop_first(), next));
    }
}

/// Each word of a phrase is non-empty and holds no white space.
pub proof fn words_are_words(s: Seq<char>)
    ensures
        forall|k: int| 0 <= k < words(s).len() ==> is_word(#[trigger] words(s)[k]),
{
    lemma_words_from_are_words(s, seq![]);
}

/// Splitting a list of words joined with single spaces gives the same list
/// back, when each of them is non-empty and holds no white space.
pub proof fn split_after_join(ws: Seq<Seq<char>>)
    requires
        forall|i: int| 0 <= i < ws.len() ==> is_word(#[trigger] ws[i]),
    ensures
        words(join_words(ws)) == ws,
{
    if ws.len() > 0 {
        lemma_words_of_join(ws, seq![]);
        assert(Seq::<char>::empty() + ws[0] =~= ws[0]);
        assert(seq![ws[0]] + ws.drop_first() =~= ws);
    }
}

/// Joining the words of a phrase and splitting the result again gives the
/// same words.
pub proof fn split_join_split(s: Seq<char>)
    ensures
        words(join_words(words(s))) == words(s),
{
    words_are_words(s);
    split_after_join(words(s));
}

/// A phrase of words separated by single spaces is rebuilt unchanged by
/// splitting it into words and joining them again.
pub proof fn join_split_join(ws: Seq<Seq<char>>)
    requires
        forall|i: int| 0 <= i < ws.len() ==> is_word(#[trigger] ws[i]),
    ensures
        join_words(words(join_words(ws))) == join_words(ws),
{
    split_after_join(ws);
}

/// Whether, after reading `s` with `current` already gathered, a word is
/// still open at the end (so that a following non-white-space character
/// continues it).
pub open spec fn ends_in_word(s: Seq<char>, current: Seq<char>) -> bool {
    if s.len() == 0 {
        current.len() > 0
    } else {
        !is_white_space(s.last())
    }
}

/// How reading one more character at the end changes the words.
proof fn lemma_words_from_push(s: Seq<char>, current: Seq<char>, c: char)
    ensures
        ends_in_word(s, current) ==> words_from(s, current).len() > 0,
        is_white_space(c) ==> words_from(s.push(c), current) == words_from(s, current),
        !is_white_space(c) ==> words_from(s.push(c), current) == if ends_in_word(s, current) {
            words_from(s, current).drop_last().push(words_from(s, current).last().push(c))
        } else {
            words_from(s, current).push(seq![c])
        },
    decreases s.len(),
{
    let sc = s.push(c);
    if s.len() == 0 {
        assert(sc =~= seq![c]);
        assert(sc.drop_first() =~= Seq::<char>::empty());
        assert(flush(current) + words_from(Seq::<char>::empty(), seq![]) =~= flush(current));
        if !is_white_space(c) {
            assert(words_from(sc, current) == words_from(Seq::<char>::empty(), current.push(c)));
            assert(words_from(Seq::<char>::empty(), current.push(c)) == seq![current.push(c)]);
            if current.len() == 0 {
                assert(current.push(c) =~= seq![c]);
                assert(flush(current) =~= Seq::<Seq<char>>::empty());
                assert(words_from(s, current).push(seq![c]) =~= seq![seq![c]]);
            } else {
                assert(words_from(s, current) == seq![current]);
                assert(seq![current].drop_last().push(current.push(c)) =~= seq![current.push(c)]);
            }
        }
    } else {
        let rest = s.drop_first();
        assert(sc[0] == s[0]);
        assert(sc.drop_first() =~= rest.push(c));
        if is_white_space(s[0]) {
            lemma_words_from_push(rest, seq![], c);
            let w = words_from(rest, seq![]);
            assert(words_from(s, current) == flush(current) + w);
            assert(words_from(sc, current) == flush(current) + words_from(rest.push(c), seq![]));
            if rest.len() == 0 {
                assert(s.last() == s[0]);
            } else {
                assert(s.last() == rest.last());
            }
            assert(ends_in_word(s, current) == ends_in_word(rest, seq![]));
            if !is_white_space(c) {
                if ends_in_word(rest, seq![]) {
                    let x = w.last().push(c);
                    assert((flush(current) + w).last() == w.last());
                    assert((flush(current) + w).drop_last().push(x) =~= flush(current)
                        + w.drop_last().push(x));
                } else {
                    assert((flush(current) + w).push(seq![c]) =~= flush(current) + w.push(
                        seq![c],
                    ));
                }
            }
        } else {
            let next = current.push(s[0]);
            lemma_words_from_push(rest, next, c);
            if rest.len() == 0 {
                assert(s.last() == s[0]);
            } else {
                assert(s.last() == rest.last());
            }
            assert(ends_in_word(s, current) == ends_in_word(rest, next));
        }
    }
}

/// A phrase with no characters has no words.
pub proof fn words_of_empty()
    ensures
        words(Seq::<char>::empty()) == Seq::<Seq<char>>::empty(),
{
}

/// White space at the end of a phrase neither adds nor removes a word:
/// the words of `s` followed by a white-space character are the words of `s`.
pub proof fn words_after_trailing_white_space(s: Seq<char>, c: char)
    requires
        is_white_space(c),
    ensures
        words(s.push(c)) == words(s),
{
    lemma_words_from_push(s, seq![], c);
}

/// A character that is not white space, put at the end of a phrase, either
/// lengthens the last word (when the phrase ends inside a word) or starts a
/// new word of its own (when the phrase is empty or ends in white space).
/// With `words_of_empty` and `words_after_trailing_white_space` this fixes
/// the words of every phrase.
pub proof fn words_after_trailing_letter(s: Seq<char>, c: char)
    requires
        !is_white_space(c),
    ensures
        s.len() > 0 && !is_white_space(s.last()) ==> words(s).len() > 0 && words(s.push(c))
            == words(s).drop_last().push(words(s).last().push(c)),
        s.len() == 0 || is_white_space(s.last()) ==> words(s.push(c)) == words(s).push(seq![c]),
{
    lemma_words_from_push(s, seq![], c);
}

} // verus!
