//! Character classes and the small string operations the shell is built on:
//! splitting a line into whitespace-separated words, prefix and suffix tests,
//! and prefix stripping.
use vstd::prelude::*;
use vstd::string::StrSliceExecFns;
use vstd::string::StringExecFns;

verus! {

/// The Unicode `White_Space` property, the set that `char::is_whitespace` tests.
pub open spec fn spec_is_white_space(c: char) -> bool {
    let n = c as u32;
    ||| 0x9 <= n <= 0xD
    ||| n == 0x20
    ||| n == 0x85
    ||| n == 0xA0
    ||| n == 0x1680
    ||| 0x2000 <= n <= 0x200A
    ||| n == 0x2028
    ||| n == 0x2029
    ||| n == 0x202F
    ||| n == 0x205F
    ||| n == 0x3000
}

/// The Unicode general category `Cc` (control codes), the set that
/// `char::is_control` tests.
pub open spec fn spec_is_control(c: char) -> bool {
    let n = c as u32;
    n <= 0x1F || (0x7F <= n <= 0x9F)
}

/// Whether `c` is a whitespace character.
pub fn is_white_space(c: char) -> (r: bool)
    ensures
        r == spec_is_white_space(c),
{
    let n: u32 = c as u32;
    (0x9 <= n && n <= 0xD) || n == 0x20 || n == 0x85 || n == 0xA0 || n == 0x1680 || (0x2000 <= n
        && n <= 0x200A) || n == 0x2028 || n == 0x2029 || n == 0x202F || n == 0x205F || n == 0x3000
}

/// Whether `c` is a control character.
pub fn is_control_char(c: char) -> (r: bool)
    ensures
        r == spec_is_control(c),
{
    let n: u32 = c as u32;
    n <= 0x1F || (0x7F <= n && n <= 0x9F)
}

/// The characters of a string slice, in order.
pub fn chars_of(s: &str) -> (v: Vec<char>)
    ensures
        v@ == s@,
{
    let mut v: Vec<char> = Vec::new();
    for c in it: s.chars()
        invariant
            v@ == it.seq().take(it.index() as int),
    {
        v.push(c);
    }
    v
}


/// Whether `prefix` is a prefix of the character sequence `s`.
pub fn seq_starts_with(s: &Vec<char>, prefix: &Vec<char>) -> (r: bool)
    ensures
        r == prefix@.is_prefix_of(s@),
{
    if prefix.len() > s.len() {
        return false;
    }
    let mut i: usize = 0;
    while i < prefix.len()
        invariant
            prefix.len() <= s.len(),
            i <= prefix.len(),
            forall|j: int| 0 <= j < i ==> prefix@[j] == s@[j],
        decreases prefix.len() - i,
    {
        if prefix[i] != s[i] {
            return false;
        }
        i = i + 1;
    }
    assert(prefix@ =~= s@.subrange(0, prefix@.len() as int));
    true
}

/// Whether `suffix` is a suffix of the character sequence `s`.
pub fn seq_ends_with(s: &Vec<char>, suffix: &Vec<char>) -> (r: bool)
    ensures
        r == suffix@.is_suffix_of(s@),
{
    if suffix.len() > s.len() {
        return false;
    }
    let off: usize = s.len() - suffix.len();
    let mut i: usize = 0;
    while i < suffix.len()
        invariant
            suffix.len() <= s.len(),
            off == s.len() - suffix.len(),
            i <= suffix.len(),
            forall|j: int| 0 <= j < i ==> suffix@[j] == s@[off + j],
        decreases suffix.len() - i,
    {
        if suffix[i] != s[off + i] {
            assert(s@.subrange(off as int, s@.len() as int)[i as int] == s@[off + i]);
            return false;
        }
        i = i + 1;
    }
    assert(suffix@ =~= s@.subrange(off as int, s@.len() as int));
    true
}

/// Whether `s` begins with `prefix`.
pub fn starts_with(s: &str, prefix: &str) -> (r: bool)
    ensures
        r == prefix@.is_prefix_of(s@),
{
    seq_starts_with(&chars_of(s), &chars_of(prefix))
}

/// Whether `s` ends with `suffix`.
pub fn ends_with(s: &str, suffix: &str) -> (r: bool)
    ensures
        r == suffix@.is_suffix_of(s@),
{
    seq_ends_with(&chars_of(s), &chars_of(suffix))
}

/// `s` without its leading `prefix`, or `None` when `s` does not begin with it.
pub fn strip_prefix(s: &str, prefix: &str) -> (r: Option<String>)
    ensures
        match r {
            Some(t) => prefix@.is_prefix_of(s@) && t@ == s@.skip(prefix@.len() as int),
            None => !prefix@.is_prefix_of(s@),
        },
{
    if starts_with(s, prefix) {
        let n = prefix.unicode_len();
        let m = s.unicode_len();
        let rest = s.substring_char(n, m);
        assert(rest@ == s@.skip(prefix@.len() as int));
        Some(String::from_str(rest))
    } else {
        None
    }
}

/// The views of a sequence of strings.
pub open spec fn views(v: Seq<String>) -> Seq<Seq<char>> {
    v.map_values(|w: String| w@)
}

/// Reading `s` from left to right: the words completed so far and the word
/// being read (empty between words).
pub open spec fn scan_words(s: Seq<char>) -> (Seq<Seq<char>>, Seq<char>)
    decreases s.len(),
{
    if s.len() == 0 {
        (Seq::empty(), Seq::empty())
    } else {
        let (done, cur) = scan_words(s.drop_last());
        if spec_is_white_space(s.last()) {
            if cur.len() > 0 {
                (done.push(cur), Seq::empty())
            } else {
                (done, Seq::empty())
            }
        } else {
            (done, cur.push(s.last()))
        }
    }
}

/// The words of `s`: its maximal runs of non-whitespace characters, in order.
pub open spec fn words(s: Seq<char>) -> Seq<Seq<char>> {
    let (done, cur) = scan_words(s);
    if cur.len() > 0 {
        done.push(cur)
    } else {
        done
    }
}

/// `String::push`: appends the character `c` to the end of `s`.
#[verifier::external_body]
pub(crate) fn push_char(s: &mut String, c: char)
    ensures
        final(s)@ == old(s)@.push(c),
{
    s.push(c);
}

/// `String::from_utf8`: the text that `bytes` encode in UTF-8, or `None` when
/// they are not valid UTF-8.
#[verifier::external_body]
pub(crate) fn string_from_utf8(bytes: Vec<u8>) -> (r: Option<String>)
    ensures
        r is Some <==> vstd::utf8::valid_utf8(bytes@),
        r matches Some(t) ==> t@ == vstd::utf8::decode_utf8(bytes@),
{
    String::from_utf8(bytes).ok()
}

/// The whitespace-separated words of `s`, as `str::split_whitespace` yields them.
pub fn split_whitespace(s: &str) -> (r: Vec<String>)
    ensures
        views(r@) == words(s@),
{
    let mut done: Vec<String> = Vec::new();
    let mut cur = String::new();
    for c in it: s.chars()
        invariant
            it.seq() == s@,
            views(done@) == scan_words(s@.take(it.index() as int)).0,
            cur@ == scan_words(s@.take(it.index() as int)).1,
    {
        let ghost i = it.index() as int;
        assert(s@.take(i + 1).drop_last() == s@.take(i));
        assert(s@.take(i + 1).last() == c);
        if is_white_space(c) {
            if !cur.as_str().is_empty() {
                let ghost old_done = done@;
                done.push(cur);
                assert(views(done@) == views(old_done).push(cur@));
                cur = String::new();
            } else {
                cur = String::new();
            }
        } else {
            push_char(&mut cur, c);
        }
    }
    assert(s@.take(s@.len() as int) == s@);
    if !cur.as_str().is_empty() {
        let ghost old_done = done@;
        done.push(cur);
        assert(views(done@) == views(old_done).push(cur@));
    }
    done
}

/// The word being read never holds whitespace, and every completed word is
/// non-empty and free of whitespace.
proof fn lemma_scan_words_shape(s: Seq<char>)
    ensures
        forall|j: int|
            0 <= j < scan_words(s).1.len() ==> !spec_is_white_space(#[trigger] scan_words(s).1[j]),
        forall|i: int|
            0 <= i < scan_words(s).0.len() ==> (#[trigger] scan_words(s).0[i]).len() > 0,
        forall|i: int, j: int|
            0 <= i < scan_words(s).0.len() && 0 <= j < scan_words(s).0[i].len()
                ==> !spec_is_white_space(#[trigger] scan_words(s).0[i][j]),
    decreases s.len(),
{
    if s.len() > 0 {
        lemma_scan_words_shape(s.drop_last());
        let (done, cur) = scan_words(s.drop_last());
        if spec_is_white_space(s.last()) {
            if cur.len() > 0 {
                assert forall|i: int| 0 <= i < done.push(cur).len() implies (#[trigger] done.push(
                    cur,
                )[i]).len() > 0 by {
                    if i < done.len() {
                        assert(done.push(cur)[i] == done[i]);
                    }
                }
                assert forall|i: int, j: int|
                    0 <= i < done.push(cur).len() && 0 <= j < done.push(cur)[i].len()
                        implies !spec_is_white_space(#[trigger] done.push(cur)[i][j]) by {
                    if i < done.len() {
                        assert(done.push(cur)[i] == done[i]);
                    } else {
                        assert(done.push(cur)[i] == cur);
                    }
                }
            }
        } else {
            assert forall|j: int| 0 <= j < cur.push(s.last()).len() implies !spec_is_white_space(
                #[trigger] cur.push(s.last())[j],
            ) by {
                if j < cur.len() {
                    assert(cur.push(s.last())[j] == cur[j]);
                }
            }
        }
    }
}

/// Law: every word is non-empty and holds no whitespace.
pub proof fn lemma_words_are_nonempty_and_unbroken(s: Seq<char>)
    ensures
        forall|i: int| 0 <= i < words(s).len() ==> (#[trigger] words(s)[i]).len() > 0,
        forall|i: int, j: int|
            0 <= i < words(s).len() && 0 <= j < words(s)[i].len()
                ==> !spec_is_white_space(#[trigger] words(s)[i][j]),
{
    lemma_scan_words_shape(s);
}

/// The words read so far, followed by the word being read, are the
/// non-whitespace characters of `s`.
proof fn lemma_scan_words_keeps_text(s: Seq<char>)
    ensures
        scan_words(s).0.flatten_alt() + scan_words(s).1 == s.filter(|c: char| !spec_is_white_space(c)),
    decreases s.len(),
{
    if s.len() > 0 {
        lemma_scan_words_keeps_text(s.drop_last());
        let (done, cur) = scan_words(s.drop_last());
        let p = |c: char| !spec_is_white_space(c);
        reveal_with_fuel(Seq::filter, 1);
        assert(s.filter(p) == if p(s.last()) {
            s.drop_last().filter(p).push(s.last())
        } else {
            s.drop_last().filter(p)
        });
        if spec_is_white_space(s.last()) {
            if cur.len() > 0 {
                assert(done.push(cur).drop_last() == done);
                assert(done.push(cur).last() == cur);
                assert(done.push(cur).flatten_alt() == done.flatten_alt() + cur);
            }
            assert(scan_words(s).1 == Seq::<char>::empty());
        } else {
            assert(done.flatten_alt() + cur.push(s.last()) == (done.flatten_alt() + cur).push(
                s.last(),
            ));
        }
    }
}

/// Law: concatenating the words gives back exactly the non-whitespace
/// characters of the line, in order: splitting drops whitespace and nothing else.
pub proof fn lemma_words_keep_all_text(s: Seq<char>)
    ensures
        words(s).flatten() == s.filter(|c: char| !spec_is_white_space(c)),
{
    lemma_scan_words_keeps_text(s);
    let (done, cur) = scan_words(s);
    words(s).lemma_flatten_and_flatten_alt_are_equivalent();
    if cur.len() > 0 {
        assert(done.push(cur).drop_last() == done);
    }
}

/// The words `ws` written one after another with a single space between them.
pub open spec fn join_words(ws: Seq<Seq<char>>) -> Seq<char>
    decreases ws.len(),
{
    if ws.len() == 0 {
        Seq::empty()
    } else if ws.len() == 1 {
        ws[0]
    } else {
        join_words(ws.drop_last()) + seq![' '] + ws.last()
    }
}

/// Each of `ws` is a word: non-empty and free of whitespace.
pub open spec fn are_words(ws: Seq<Seq<char>>) -> bool {
    forall|i: int|
        0 <= i < ws.len() ==> (#[trigger] ws[i]).len() > 0 && forall|j: int|
            0 <= j < ws[i].len() ==> !spec_is_white_space(#[trigger] ws[i][j])
}

/// Reading characters without whitespace only extends the word being read.
proof fn lemma_scan_words_extends(s: Seq<char>, w: Seq<char>)
    requires
        forall|j: int| 0 <= j < w.len() ==> !spec_is_white_space(#[trigger] w[j]),
    ensures
        scan_words(s + w) == (scan_words(s).0, scan_words(s).1 + w),
    decreases w.len(),
{
    if w.len() == 0 {
        assert(s + w =~= s);
        assert(scan_words(s).1 + w =~= scan_words(s).1);
    } else {
        let v = w.drop_last();
        lemma_scan_words_extends(s, v);
        assert((s + w).drop_last() =~= s + v);
        assert((s + w).last() == w.last());
        assert(scan_words(s).1 + v.push(w.last()) =~= (scan_words(s).1 + v).push(w.last()));
        assert(v.push(w.last()) =~= w);
    }
}

/// Reading the words of `ws`, joined by spaces, ends with all but the last
/// completed and the last one being read.
proof fn lemma_scan_joined(ws: Seq<Seq<char>>)
    requires
        ws.len() > 0,
        are_words(ws),
    ensures
        scan_words(join_words(ws)) == (ws.drop_last(), ws.last()),
    decreases ws.len(),
{
    if ws.len() == 1 {
        lemma_scan_words_extends(Seq::empty(), ws[0]);
        assert(Seq::<char>::empty() + ws[0] =~= ws[0]);
        assert(ws.drop_last() =~= Seq::<Seq<char>>::empty());
        assert(Seq::<char>::empty() + ws[0] =~= ws[0]);
    } else {
        let front = ws.drop_last();
        assert(are_words(front)) by {
            assert forall|i: int| 0 <= i < front.len() implies (#[trigger] front[i]).len() > 0
                && forall|j: int|
                0 <= j < front[i].len() ==> !spec_is_white_space(#[trigger] front[i][j]) by {
                assert(front[i] == ws[i]);
            }
        }
        lemma_scan_joined(front);
        let spaced = join_words(front) + seq![' '];
        assert(spaced.drop_last() =~= join_words(front));
        assert(spec_is_white_space(spaced.last()));
        assert(front.drop_last().push(front.last()) =~= front);
        let w = ws.last();
        assert(forall|j: int| 0 <= j < w.len() ==> !spec_is_white_space(#[trigger] w[j])) by {
            assert(w == ws[ws.len() - 1]);
        }
        lemma_scan_words_extends(spaced, w);
        assert(Seq::<char>::empty() + w =~= w);
    }
}

/// Law: splitting words that were joined with single spaces gives back the words.
pub proof fn lemma_split_inverts_join(ws: Seq<Seq<char>>)
    requires
        are_words(ws),
    ensures
        words(join_words(ws)) == ws,
{
    if ws.len() == 0 {
        assert(words(join_words(ws)) =~= ws);
    } else {
        lemma_scan_joined(ws);
        assert(ws.last() == ws[ws.len() - 1]);
        assert(ws.drop_last().push(ws.last()) =~= ws);
    }
}

} // verus!
