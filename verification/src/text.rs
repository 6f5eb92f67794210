//! Text helpers: building strings, decimal numbers, words.

use vstd::prelude::*;
use vstd::string::StringExecFns;
use vstd::string::StrSliceExecFns;

verus! {

/// Appends `c` to `s` (`String::push`). Trusted: std documents that `push` appends the
/// character to the end of the string.
#[verifier::external_body]
pub(crate) fn string_push(s: &mut String, c: char)
    ensures
        final(s)@ == old(s)@.push(c),
{
    s.push(c);
}

/// Removes the last character of `s` (`String::pop`). Trusted: std documents that `pop`
/// removes and returns the last character, or returns `None` for an empty string.
#[verifier::external_body]
pub(crate) fn string_pop(s: &mut String) -> (c: Option<char>)
    ensures
        old(s)@.len() == 0 ==> c is None && final(s)@ == old(s)@,
        old(s)@.len() > 0 ==> c == Some(old(s)@.last()) && final(s)@ == old(s)@.drop_last(),
{
    s.pop()
}

/// A string holding the characters of `s`.
pub fn string_of(s: &str) -> (r: String)
    ensures
        r@ == s@,
{
    String::from_str(s)
}

/// Number of characters of `s`.
pub fn char_len(s: &String) -> (n: usize)
    ensures
        n == s@.len(),
{
    s.as_str().unicode_len()
}

/// The character of decimal digit `d`.
pub open spec fn digit_char(d: int) -> char {
    (48 + d) as char
}

/// The decimal digits of `n`, most significant first, without leading zeros.
pub open spec fn decimal(n: nat) -> Seq<char>
    decreases n,
{
    if n < 10 {
        seq![digit_char(n as int)]
    } else {
        decimal(n / 10).push(digit_char((n % 10) as int))
    }
}

/// `n` in decimal, padded with leading zeros to at least two digits.
pub open spec fn decimal2(n: nat) -> Seq<char> {
    if n < 10 {
        seq!['0', digit_char(n as int)]
    } else {
        decimal(n)
    }
}

/// `n` in decimal with a leading minus sign when negative.
pub open spec fn signed_decimal(n: int) -> Seq<char> {
    if n < 0 {
        seq!['-'] + decimal((-n) as nat)
    } else {
        decimal(n as nat)
    }
}

/// The character of decimal digit `d`.
pub fn digit(d: u64) -> (c: char)
    requires
        d < 10,
    ensures
        c == digit_char(d as int),
{
    let b: u8 = 48 + (d as u8);
    b as char
}

/// Appends the decimal digits of `n` to `s`.
pub fn push_decimal(s: &mut String, n: u64)
    ensures
        final(s)@ == old(s)@ + decimal(n as nat),
    decreases n,
{
    if n >= 10 {
        push_decimal(s, n / 10);
    }
    let c = digit(n % 10);
    string_push(s, c);
    proof {
    }
}

/// Appends `n` in decimal, zero-padded to two digits.
pub fn push_decimal2(s: &mut String, n: u64)
    ensures
        final(s)@ == old(s)@ + decimal2(n as nat),
{
    if n < 10 {
        string_push(s, '0');
    }
    push_decimal(s, n);
    proof {
    }
}

/// Appends `n` in decimal, with a minus sign when negative.
pub fn push_signed_decimal(s: &mut String, n: i32)
    ensures
        final(s)@ == old(s)@ + signed_decimal(n as int),
{
    if n < 0 {
        string_push(s, '-');
        let m: i64 = -(n as i64);
        push_decimal(s, m as u64);
    } else {
        push_decimal(s, n as u64);
    }
}

/// Appends the text of `t` to `s`.
pub fn push_str(s: &mut String, t: &str)
    ensures
        final(s)@ == old(s)@ + t@,
{
    s.append(t);
}

/// Whether `c` is white space: a character with the Unicode `White_Space` property, as
/// `char::is_whitespace` tests.
pub open spec fn white_space(c: char) -> bool {
    let n = c as u32;
    ||| 9 <= n <= 13
    ||| n == 0x20
    ||| n == 0x85
    ||| n == 0xa0
    ||| n == 0x1680
    ||| 0x2000 <= n <= 0x200a
    ||| n == 0x2028
    ||| n == 0x2029
    ||| n == 0x202f
    ||| n == 0x205f
    ||| n == 0x3000
}

/// Whether `c` is white space.
pub fn is_white_space(c: char) -> (b: bool)
    ensures
        b == white_space(c),
{
    let n = c as u32;
    (9 <= n && n <= 13) || n == 0x20 || n == 0x85 || n == 0xa0 || n == 0x1680 || (0x2000 <= n && n
        <= 0x200a) || n == 0x2028 || n == 0x2029 || n == 0x202f || n == 0x205f || n == 0x3000
}

/// One step of cutting text at white space: the words finished so far and the word being
/// read.
pub open spec fn split_step(acc: (Seq<Seq<char>>, Seq<char>), c: char) -> (Seq<Seq<char>>, Seq<char>) {
    if white_space(c) {
        if acc.1.len() > 0 {
            (acc.0.push(acc.1), Seq::empty())
        } else {
            acc
        }
    } else {
        (acc.0, acc.1.push(c))
    }
}

/// The state after reading the first `n` characters of `s`.
pub open spec fn split_prefix(s: Seq<char>, n: nat) -> (Seq<Seq<char>>, Seq<char>)
    decreases n,
{
    if n == 0 {
        (Seq::empty(), Seq::empty())
    } else {
        split_step(split_prefix(s, (n - 1) as nat), s[n - 1])
    }
}

/// The maximal runs of characters of `s` that are not white space, in order.
pub open spec fn words(s: Seq<char>) -> Seq<Seq<char>> {
    let (ws, cur) = split_prefix(s, s.len());
    if cur.len() > 0 {
        ws.push(cur)
    } else {
        ws
    }
}

/// `ws` joined with `sep` between neighbours.
pub open spec fn join(ws: Seq<Seq<char>>, sep: Seq<char>) -> Seq<char>
    decreases ws.len(),
{
    if ws.len() == 0 {
        Seq::empty()
    } else if ws.len() == 1 {
        ws[0]
    } else {
        join(ws.drop_last(), sep) + sep + ws.last()
    }
}

/// The views of a sequence of strings.
pub open spec fn string_views(v: Seq<String>) -> Seq<Seq<char>> {
    Seq::new(v.len(), |i: int| v[i]@)
}

/// The words of `s`: its maximal runs of characters that are not white space.
pub fn split_words(s: &str) -> (ws: Vec<String>)
    ensures
        string_views(ws@) == words(s@),
{
    let n = s.unicode_len();
    let mut ws: Vec<String> = Vec::new();
    let mut cur = String::new();
    let mut i: usize = 0;
    while i < n
        invariant
            n == s@.len(),
            0 <= i <= n,
            (string_views(ws@), cur@) == split_prefix(s@, i as nat),
        decreases n - i,
    {
        let c = s.get_char(i);
        if is_white_space(c) {
            if cur.as_str().unicode_len() > 0 {
                let done = cur;
                ws.push(done);
                cur = String::new();
            }
        } else {
            string_push(&mut cur, c);
        }
        i += 1;
    }
    if cur.as_str().unicode_len() > 0 {
        ws.push(cur);
    }
    ws
}

/// The strings of `ws[from..]` joined with single spaces.
pub fn join_words(ws: &Vec<String>, from: usize) -> (r: String)
    requires
        from <= ws@.len(),
    ensures
        r@ == join(string_views(ws@).subrange(from as int, ws@.len() as int), seq![' ']),
{
    let mut r = String::new();
    let mut i = from;
    while i < ws.len()
        invariant
            from <= i <= ws@.len(),
            r@ == join(string_views(ws@).subrange(from as int, i as int), seq![' ']),
        decreases ws@.len() - i,
    {
        let ghost done = string_views(ws@).subrange(from as int, i as int);
        let ghost next = string_views(ws@).subrange(from as int, i + 1);
        assert(next.drop_last() =~= done);
        if i > from {
            string_push(&mut r, ' ');
        }
        push_str(&mut r, ws[i].as_str());
        i += 1;
    }
    r
}

/// Whether `s` starts with the characters of `prefix`.
pub fn starts_with(s: &str, prefix: &str) -> (b: bool)
    ensures
        b == (prefix@.len() <= s@.len() && s@.subrange(0, prefix@.len() as int) == prefix@),
{
    let n = s.unicode_len();
    let m = prefix.unicode_len();
    if m > n {
        return false;
    }
    let mut i: usize = 0;
    while i < m
        invariant
            n == s@.len(),
            m == prefix@.len(),
            m <= n,
            0 <= i <= m,
            forall|j: int| 0 <= j < i ==> s@[j] == prefix@[j],
        decreases m - i,
    {
        if s.get_char(i) != prefix.get_char(i) {
            return false;
        }
        i += 1;
    }
    assert(s@.subrange(0, m as int) =~= prefix@);
    true
}

/// Ten to the `k`.
pub open spec fn pow10(k: nat) -> nat
    decreases k,
{
    if k == 0 {
        1
    } else {
        10 * pow10((k - 1) as nat)
    }
}

/// A number below `10^k` has at most `k` decimal digits (and always at least one).
pub proof fn lemma_decimal_len(n: nat, k: nat)
    requires
        k >= 1,
        n < pow10(k),
    ensures
        1 <= decimal(n).len() <= k,
    decreases k,
{
    if n >= 10 {
        assert(k >= 2) by {
            if k == 1 {
                assert(pow10(1) == 10) by {
                    reveal_with_fuel(pow10, 2);
                }
            }
        }
        lemma_decimal_len(n / 10, (k - 1) as nat);
    }
}

/// A `u64` has at most 20 decimal digits.
pub proof fn lemma_decimal_len_u64(n: u64)
    ensures
        1 <= decimal(n as nat).len() <= 20,
{
    assert(pow10(20) == 100000000000000000000nat) by {
        reveal_with_fuel(pow10, 21);
    }
    lemma_decimal_len(n as nat, 20);
}

/// The room `ws` takes: each word followed by one separator.
pub open spec fn words_size(ws: Seq<Seq<char>>) -> nat
    decreases ws.len(),
{
    if ws.len() == 0 {
        0
    } else {
        words_size(ws.drop_last()) + ws.last().len() + 1
    }
}

/// The words finished after `n` characters, each with the space that ended it, and the word
/// being read fit in those `n` characters.
pub proof fn lemma_split_prefix_size(s: Seq<char>, n: nat)
    requires
        n <= s.len(),
    ensures
        words_size(split_prefix(s, n).0) + split_prefix(s, n).1.len() <= n,
    decreases n,
{
    if n > 0 {
        lemma_split_prefix_size(s, (n - 1) as nat);
        let prev = split_prefix(s, (n - 1) as nat);
        if s[n - 1] == ' ' && prev.1.len() > 0 {
            assert(prev.0.push(prev.1).drop_last() =~= prev.0);
        }
    }
}

/// Words joined with one space take one less than their room.
pub proof fn lemma_join_len(ws: Seq<Seq<char>>)
    requires
        ws.len() > 0,
    ensures
        join(ws, seq![' ']).len() == words_size(ws) - 1,
    decreases ws.len(),
{
    if ws.len() > 1 {
        lemma_join_len(ws.drop_last());
    } else {
        assert(words_size(ws.drop_last()) == 0);
    }
}

/// Every word of a sequence fits in its room.
pub proof fn lemma_word_in_size(ws: Seq<Seq<char>>, i: int)
    requires
        0 <= i < ws.len(),
    ensures
        ws[i].len() + 1 <= words_size(ws),
    decreases ws.len(),
{
    if i < ws.len() - 1 {
        lemma_word_in_size(ws.drop_last(), i);
    }
}

/// The room of a suffix of words is at most the room of all of them.
pub proof fn lemma_suffix_size(ws: Seq<Seq<char>>, from: int)
    requires
        0 <= from <= ws.len(),
    ensures
        words_size(ws.subrange(from, ws.len() as int)) <= words_size(ws),
    decreases ws.len(),
{
    if from < ws.len() {
        let suf = ws.subrange(from, ws.len() as int);
        lemma_suffix_size(ws.drop_last(), from);
        assert(suf.drop_last() =~= ws.drop_last().subrange(from, ws.drop_last().len() as int));
    } else {
    }
}

/// The words of `s` and any run of them joined with spaces are no longer than `s`.
pub proof fn lemma_words_fit(s: Seq<char>, from: int)
    requires
        0 <= from <= words(s).len(),
    ensures
        words_size(words(s)) <= s.len() + 1,
        forall|i: int| 0 <= i < words(s).len() ==> (#[trigger] words(s)[i]).len() <= s.len(),
        join(words(s).subrange(from, words(s).len() as int), seq![' ']).len() <= s.len(),
{
    lemma_split_prefix_size(s, s.len());
    let (ws, cur) = split_prefix(s, s.len());
    if cur.len() > 0 {
        assert(ws.push(cur).drop_last() =~= ws);
    }
    assert forall|i: int| 0 <= i < words(s).len() implies (#[trigger] words(s)[i]).len() <= s.len() by {
        lemma_word_in_size(words(s), i);
    }
    let suf = words(s).subrange(from, words(s).len() as int);
    if suf.len() > 0 {
        lemma_suffix_size(words(s), from);
        lemma_join_len(suf);
    }
}

} // verus!
