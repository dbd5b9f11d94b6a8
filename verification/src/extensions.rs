use vstd::prelude::*;

verus! {

broadcast use vstd::string::group_string_axioms;

/// The characters with the Unicode `White_Space` property, the separators of
/// a device's extension list.
pub open spec fn is_white_space(c: char) -> bool {
    let u = c as u32;
    ||| 0x9 <= u <= 0xd
    ||| u == 0x20
    ||| u == 0x85
    ||| u == 0xa0
    ||| u == 0x1680
    ||| 0x2000 <= u <= 0x200a
    ||| u == 0x2028
    ||| u == 0x2029
    ||| u == 0x202f
    ||| u == 0x205f
    ||| u == 0x3000
}

/// The length of the run of non-white-space characters that starts `s`.
pub open spec fn word_len(s: Seq<char>) -> nat
    decreases s.len(),
{
    if s.len() == 0 || is_white_space(s[0]) {
        0
    } else {
        1 + word_len(s.drop_first())
    }
}

/// The words of `s`: its maximal runs of non-white-space characters, in order.
pub open spec fn words(s: Seq<char>) -> Seq<Seq<char>>
    decreases s.len(),
{
    if s.len() == 0 {
        Seq::empty()
    } else if is_white_space(s[0]) {
        words(s.drop_first())
    } else {
        proof {
            lemma_word_len_bounds(s);
        }
        seq![s.take(word_len(s) as int)] + words(s.skip(word_len(s) as int))
    }
}

/// `needle` occurs in `hay` as a contiguous piece (the empty needle always does).
pub open spec fn contains_text(hay: Seq<char>, needle: Seq<char>) -> bool {
    exists|p: int| 0 <= p <= hay.len() - needle.len() && #[trigger] hay.subrange(p, p + needle.len()) == needle
}

/// `hay` is some text, then `needle`, then some text (either may be empty).
pub open spec fn has_piece(hay: Seq<char>, needle: Seq<char>) -> bool {
    exists|a: Seq<char>, b: Seq<char>| hay == #[trigger] (a + needle + b)
}

/// `needle` is found in `hay` exactly when it is a contiguous piece of `hay`:
/// some text before it and some text after it make up `hay`, the piece at the
/// very start or the very end included.
pub proof fn lemma_contains_text_iff_piece(hay: Seq<char>, needle: Seq<char>)
    ensures
        contains_text(hay, needle) <==> has_piece(hay, needle),
{
    let n = needle.len() as int;
    if contains_text(hay, needle) {
        let p = choose|p: int| 0 <= p <= hay.len() - n && #[trigger] hay.subrange(p, p + n) == needle;
        let a = hay.take(p);
        let b = hay.skip(p + n);
        assert(hay =~= a + needle + b);
    }
    if has_piece(hay, needle) {
        let (a, b) = choose|a: Seq<char>, b: Seq<char>| hay == #[trigger] (a + needle + b);
        let p = a.len() as int;
        assert(hay.subrange(p, p + n) =~= needle);
        assert(contains_text(hay, needle));
    }
}

/// A word ending with `w`, or equal to it, contains `w`; so does one starting with it.
pub proof fn lemma_contains_text_at_ends(a: Seq<char>, w: Seq<char>)
    ensures
        contains_text(a + w, w),
        contains_text(w + a, w),
        contains_text(w, w),
{
    lemma_contains_text_iff_piece(a + w, w);
    assert(a + w == a + w + Seq::<char>::empty());
    lemma_contains_text_iff_piece(w + a, w);
    assert(w + a == Seq::<char>::empty() + w + a);
    lemma_contains_text_iff_piece(w, w);
    assert(w == Seq::<char>::empty() + w + Seq::<char>::empty());
}

/// A word that contains both `first` and `second`.
pub open spec fn mentions_both(word: Seq<char>, first: Seq<char>, second: Seq<char>) -> bool {
    contains_text(word, first) && contains_text(word, second)
}

/// Every range in `spans` is ordered and ends within a text of length `len`.
pub open spec fn spans_within(spans: Seq<(usize, usize)>, len: int) -> bool {
    forall|k: int| 0 <= k < spans.len() ==> #[trigger] spans[k].0 <= spans[k].1 && spans[k].1 <= len
}

/// The texts of the given `[start, end)` character ranges of `s`.
pub open spec fn span_texts(s: Seq<char>, spans: Seq<(usize, usize)>) -> Seq<Seq<char>> {
    spans.map_values(|p: (usize, usize)| s.subrange(p.0 as int, p.1 as int))
}

/// The views of a list of strings.
pub open spec fn string_views(v: Seq<String>) -> Seq<Seq<char>> {
    v.map_values(|t: String| t@)
}

/// A word is never longer than the text it starts, and a text that starts
/// with a non-white-space character starts with a word of at least one character.
pub proof fn lemma_word_len_bounds(s: Seq<char>)
    ensures
        word_len(s) <= s.len(),
        s.len() > 0 && !is_white_space(s[0]) ==> word_len(s) >= 1,
    decreases s.len(),
{
    if s.len() > 0 && !is_white_space(s[0]) {
        lemma_word_len_bounds(s.drop_first());
    }
}

proof fn lemma_word_len_exact(s: Seq<char>, k: nat)
    requires
        k <= s.len(),
        forall|m: int| 0 <= m < k ==> !is_white_space(#[trigger] s[m]),
        k == s.len() || is_white_space(s[k as int]),
    ensures
        word_len(s) == k,
    decreases k,
{
    if k > 0 {
        let t = s.drop_first();
        assert forall|m: int| 0 <= m < k - 1 implies !is_white_space(#[trigger] t[m]) by {
            assert(t[m] == s[m + 1]);
        }
        lemma_word_len_exact(t, (k - 1) as nat);
    }
}

/// The run counted by `word_len` holds no white space.
proof fn lemma_word_len_prefix(s: Seq<char>)
    ensures
        forall|m: int| 0 <= m < word_len(s) ==> !is_white_space(#[trigger] s[m]),
    decreases s.len(),
{
    if s.len() > 0 && !is_white_space(s[0]) {
        let t = s.drop_first();
        lemma_word_len_bounds(s);
        lemma_word_len_prefix(t);
        assert forall|m: int| 0 <= m < word_len(s) implies !is_white_space(#[trigger] s[m]) by {
            if m > 0 {
                assert(s[m] == t[m - 1]);
            }
        }
    }
}

/// Every word of a text is non-empty and free of white space, so a name that
/// is empty or holds white space is never found in an extension list.
pub proof fn lemma_words_are_nonempty_and_unbroken(s: Seq<char>)
    ensures
        forall|k: int| 0 <= k < words(s).len() ==> #[trigger] words(s)[k].len() > 0,
        forall|k: int, m: int|
            0 <= k < words(s).len() && 0 <= m < words(s)[k].len() ==> !is_white_space(#[trigger] words(s)[k][m]),
    decreases s.len(),
{
    if s.len() > 0 {
        if is_white_space(s[0]) {
            lemma_words_are_nonempty_and_unbroken(s.drop_first());
            assert(words(s) == words(s.drop_first()));
        } else {
            lemma_word_len_bounds(s);
            lemma_word_len_prefix(s);
            let n = word_len(s);
            let rest = s.skip(n as int);
            lemma_words_are_nonempty_and_unbroken(rest);
            let ws = words(s);
            assert(ws == seq![s.take(n as int)] + words(rest));
            assert forall|k: int| 0 <= k < ws.len() implies #[trigger] ws[k].len() > 0 by {
                if k > 0 {
                    assert(ws[k] == words(rest)[k - 1]);
                }
            }
            assert forall|k: int, m: int| 0 <= k < ws.len() && 0 <= m < ws[k].len() implies !is_white_space(
                #[trigger] ws[k][m],
            ) by {
                if k > 0 {
                    assert(ws[k] == words(rest)[k - 1]);
                } else {
                    assert(ws[0][m] == s[m]);
                }
            }
        }
    }
}

/// Whether `c` is white space in the sense of `char::is_whitespace`.
pub fn is_white_space_char(c: char) -> (b: bool)
    ensures
        b == is_white_space(c),
{
    let u = c as u32;
    (0x9 <= u && u <= 0xd) || u == 0x20 || u == 0x85 || u == 0xa0 || u == 0x1680
        || (0x2000 <= u && u <= 0x200a) || u == 0x2028 || u == 0x2029 || u == 0x202f
        || u == 0x205f || u == 0x3000
}

/// The characters of `s`, in order.
fn chars_of(s: &str) -> (cs: Vec<char>)
    ensures
        cs@ == s@,
{
    let mut cs: Vec<char> = Vec::new();
    for c in it: s.chars()
        invariant
            cs@ == it.seq().take(it.index() as int),
    {
        cs.push(c);
    }
    assert(cs@ =~= s@);
    cs
}

/// The character ranges of the words of `cs`.
fn word_spans(cs: &Vec<char>) -> (spans: Vec<(usize, usize)>)
    ensures
        span_texts(cs@, spans@) == words(cs@),
        spans_within(spans@, cs.len() as int),
{
    let n = cs.len();
    let mut spans: Vec<(usize, usize)> = Vec::new();
    let mut i: usize = 0;
    assert(cs@.skip(0) =~= cs@);
    while i < n
        invariant
            i <= n,
            n == cs.len(),
            words(cs@) == span_texts(cs@, spans@) + words(cs@.skip(i as int)),
            spans_within(spans@, cs.len() as int),
        decreases n - i,
    {
        if is_white_space_char(cs[i]) {
            assert(cs@.skip(i as int).drop_first() =~= cs@.skip(i + 1));
            i = i + 1;
        } else {
            let mut j: usize = i + 1;
            while j < n && !is_white_space_char(cs[j])
                invariant
                    i < j <= n,
                    n == cs.len(),
                    forall|m: int| i <= m < j ==> !is_white_space(#[trigger] cs@[m]),
                decreases n - j,
            {
                j = j + 1;
            }
            let ghost rest = cs@.skip(i as int);
            proof {
                assert forall|m: int| 0 <= m < (j - i) implies !is_white_space(#[trigger] rest[m]) by {
                    assert(rest[m] == cs@[i + m]);
                }
                lemma_word_len_exact(rest, (j - i) as nat);
                assert(rest.take((j - i) as int) =~= cs@.subrange(i as int, j as int));
                assert(rest.skip((j - i) as int) =~= cs@.skip(j as int));
            }
            let ghost before = spans@;
            spans.push((i, j));
            assert(spans_within(spans@, cs.len() as int)) by {
                assert forall|k: int| 0 <= k < spans.len() implies #[trigger] spans@[k].0 <= spans@[k].1
                    && spans@[k].1 <= cs.len() by {
                    if k < before.len() {
                        assert(spans@[k] == before[k]);
                    }
                }
            }
            assert(span_texts(cs@, spans@) =~= span_texts(cs@, before).push(cs@.subrange(i as int, j as int)));
            i = j;
        }
    }
    assert(cs@.skip(n as int) =~= Seq::<char>::empty());
    assert(span_texts(cs@, spans@) + Seq::<Seq<char>>::empty() =~= span_texts(cs@, spans@));
    spans
}

/// The names in a white-space separated extension list, in order.
pub fn extension_names(exts: &str) -> (names: Vec<String>)
    ensures
        string_views(names@) == words(exts@),
{
    let cs = chars_of(exts);
    let spans = word_spans(&cs);
    let mut names: Vec<String> = Vec::new();
    for k in 0..spans.len()
        invariant
            cs@ == exts@,
            span_texts(cs@, spans@) == words(cs@),
            spans_within(spans@, cs.len() as int),
            string_views(names@) == span_texts(cs@, spans@).take(k as int),
    {
        let (start, end) = spans[k];
        let name = exts.substring_char(start, end).to_owned();
        let ghost before = names@;
        names.push(name);
        assert(string_views(names@) =~= string_views(before).push(name@));
        assert(span_texts(cs@, spans@).take(k + 1) =~= span_texts(cs@, spans@).take(k as int).push(
            cs@.subrange(start as int, end as int),
        ));
    }
    assert(span_texts(cs@, spans@).take(spans.len() as int) =~= span_texts(cs@, spans@));
    names
}

/// Whether the characters `cs[start..end]` spell `word`.
fn span_equals(cs: &Vec<char>, start: usize, end: usize, word: &Vec<char>) -> (b: bool)
    requires
        start <= end <= cs.len(),
    ensures
        b == (cs@.subrange(start as int, end as int) == word@),
{
    if end - start != word.len() {
        assert(cs@.subrange(start as int, end as int).len() != word@.len());
        return false;
    }
    let mut m: usize = 0;
    while m < word.len()
        invariant
            start <= end <= cs.len(),
            end - start == word.len(),
            m <= word.len(),
            forall|q: int| 0 <= q < m ==> cs@[start + q] == #[trigger] word@[q],
        decreases word.len() - m,
    {
        if cs[start + m] != word[m] {
            assert(cs@.subrange(start as int, end as int)[m as int] != word@[m as int]);
            return false;
        }
        m = m + 1;
    }
    assert(cs@.subrange(start as int, end as int) =~= word@);
    true
}

/// Whether the characters `cs[start..end]` contain `needle` as a contiguous piece.
fn span_contains(cs: &Vec<char>, start: usize, end: usize, needle: &Vec<char>) -> (b: bool)
    requires
        start <= end <= cs.len(),
    ensures
        b == contains_text(cs@.subrange(start as int, end as int), needle@),
{
    let ghost hay = cs@.subrange(start as int, end as int);
    let len = end - start;
    let nl = needle.len();
    if nl > len {
        return false;
    }
    if nl == 0 {
        assert(hay.subrange(0int, 0int + needle@.len()) =~= needle@);
        assert(contains_text(hay, needle@));
        return true;
    }
    let mut p: usize = 0;
    while p <= len - nl
        invariant
            start <= end <= cs.len(),
            len == end - start,
            nl == needle.len(),
            1 <= nl <= len,
            p <= len - nl + 1,
            hay == cs@.subrange(start as int, end as int),
            forall|q: int| 0 <= q < p ==> #[trigger] hay.subrange(q, q + nl) != needle@,
        decreases len - nl + 1 - p,
    {
        let found = span_equals(cs, start + p, start + p + nl, needle);
        assert(hay.subrange(p as int, p + nl) =~= cs@.subrange(start + p, start + p + nl));
        if found {
            return true;
        }
        p = p + 1;
    }
    false
}

/// Whether the white-space separated extension list `exts` names `name`.
pub fn has_extension(exts: &str, name: &str) -> (b: bool)
    ensures
        b == words(exts@).contains(name@),
{
    let cs = chars_of(exts);
    let wanted = chars_of(name);
    let spans = word_spans(&cs);
    let ghost texts = span_texts(cs@, spans@);
    for k in 0..spans.len()
        invariant
            cs@ == exts@,
            wanted@ == name@,
            texts == span_texts(cs@, spans@),
            texts == words(cs@),
            spans_within(spans@, cs.len() as int),
            forall|m: int| 0 <= m < k ==> #[trigger] texts[m] != wanted@,
    {
        let (start, end) = spans[k];
        if span_equals(&cs, start, end, &wanted) {
            assert(texts[k as int] == wanted@);
            return true;
        }
    }
    false
}

/// The names in the extension list `exts` that contain both `first` and
/// `second`, in list order.
pub fn extensions_mentioning(exts: &str, first: &str, second: &str) -> (names: Vec<String>)
    ensures
        string_views(names@) == words(exts@).filter(|w: Seq<char>| mentions_both(w, first@, second@)),
        string_views(names@) == names_mentioning(exts@, first@, second@),
{
    let cs = chars_of(exts);
    let a = chars_of(first);
    let b = chars_of(second);
    let spans = word_spans(&cs);
    let ghost texts = span_texts(cs@, spans@);
    let ghost pred = |w: Seq<char>| mentions_both(w, first@, second@);
    let mut names: Vec<String> = Vec::new();
    for k in 0..spans.len()
        invariant
            cs@ == exts@,
            a@ == first@,
            b@ == second@,
            texts == span_texts(cs@, spans@),
            texts == words(cs@),
            pred == (|w: Seq<char>| mentions_both(w, first@, second@)),
            spans_within(spans@, cs.len() as int),
            string_views(names@) == texts.take(k as int).filter(pred),
    {
        let (start, end) = spans[k];
        let keep = span_contains(&cs, start, end, &a) && span_contains(&cs, start, end, &b);
        proof {
            reveal_with_fuel(Seq::<_>::filter, 1);
            assert(texts.take(k + 1).drop_last() =~= texts.take(k as int));
            assert(texts.take(k + 1).last() == texts[k as int]);
            assert(texts[k as int] == cs@.subrange(start as int, end as int));
            assert(keep == pred(texts[k as int]));
        }
        if keep {
            let name = exts.substring_char(start, end).to_owned();
            let ghost before = names@;
            names.push(name);
            assert(string_views(names@) =~= string_views(before).push(name@));
        }
    }
    assert(texts.take(spans.len() as int) =~= texts);
    names
}

/// The words of `s` that contain both `first` and `second`, in order: what
/// `extensions_mentioning` returns for the list `s`.
pub open spec fn names_mentioning(s: Seq<char>, first: Seq<char>, second: Seq<char>) -> Seq<Seq<char>> {
    words(s).filter(|w: Seq<char>| mentions_both(w, first, second))
}

/// The names kept by `extensions_mentioning` each hold both words as
/// contiguous pieces (anywhere, the very end included), and every name of the
/// list that holds both words as pieces is kept.
pub proof fn lemma_mentioning_keeps_names_with_both_pieces(s: Seq<char>, first: Seq<char>, second: Seq<char>)
    ensures
        forall|i: int|
            0 <= i < names_mentioning(s, first, second).len() ==> has_piece(
                #[trigger] names_mentioning(s, first, second)[i],
                first,
            ) && has_piece(names_mentioning(s, first, second)[i], second),
        forall|i: int|
            0 <= i < words(s).len() && has_piece(#[trigger] words(s)[i], first) && has_piece(words(s)[i], second)
                ==> names_mentioning(s, first, second).contains(words(s)[i]),
{
    broadcast use vstd::seq_lib::group_filter_ensures;

    let pred = |w: Seq<char>| mentions_both(w, first, second);
    let ws = words(s);
    let kept = ws.filter(pred);
    assert(kept == names_mentioning(s, first, second));
    assert forall|i: int| 0 <= i < kept.len() implies has_piece(#[trigger] kept[i], first) && has_piece(
        kept[i],
        second,
    ) by {
        assert(pred(kept[i]));
        lemma_contains_text_iff_piece(kept[i], first);
        lemma_contains_text_iff_piece(kept[i], second);
    }
    assert forall|i: int| 0 <= i < ws.len() && has_piece(#[trigger] ws[i], first) && has_piece(ws[i], second) implies kept.contains(
        ws[i],
    ) by {
        lemma_contains_text_iff_piece(ws[i], first);
        lemma_contains_text_iff_piece(ws[i], second);
        assert(pred(ws[i]));
    }
}

} // verus!
