use vstd::prelude::*;

verus! {

/// The views of a sequence of owned strings.
pub open spec fn string_views(v: Seq<String>) -> Seq<Seq<char>> {
    v.map_values(|s: String| s@)
}

/// `n` space characters.
pub open spec fn spaces(n: nat) -> Seq<char> {
    Seq::new(n, |i: int| ' ')
}

/// `s` padded on the right with spaces to at least `width` characters, the way
/// `format!("{:<width$}", s)` lays it out.
pub open spec fn pad_right_spec(s: Seq<char>, width: nat) -> Seq<char> {
    if s.len() >= width {
        s
    } else {
        s + spaces((width - s.len()) as nat)
    }
}

/// `s` written `n` times in a row.
pub open spec fn repeat_spec(s: Seq<char>, n: nat) -> Seq<char>
    decreases n,
{
    if n == 0 {
        seq![]
    } else {
        repeat_spec(s, (n - 1) as nat) + s
    }
}

/// The number of bytes of the UTF-8 encoding of `s` (what `str::len` returns).
pub open spec fn byte_len(s: Seq<char>) -> nat {
    vstd::utf8::encode_utf8(s).len()
}

/// The characters of `s`, in order.
pub fn chars_of(s: &str) -> (v: Vec<char>)
    ensures
        v@ == s@,
{
    let mut v: Vec<char> = Vec::new();
    for c in it: s.chars()
        invariant
            v@ == it.seq().take(it.index()),
            it.seq() == s@,
    {
        v.push(c);
    }
    v
}

/// Whether two strings hold the same characters.
pub fn str_equal(a: &str, b: &str) -> (r: bool)
    ensures
        r == (a@ == b@),
{
    let x = chars_of(a);
    let y = chars_of(b);
    if x.len() != y.len() {
        return false;
    }
    let mut i: usize = 0;
    while i < x.len()
        invariant
            x@ == a@,
            y@ == b@,
            x.len() == y.len(),
            i <= x.len(),
            forall|j: int| 0 <= j < i ==> x@[j] == y@[j],
        decreases x.len() - i,
    {
        if x[i] != y[i] {
            return false;
        }
        i += 1;
    }
    assert(a@ =~= b@);
    true
}

/// A copy of a string slice as an owned string.
pub fn owned(s: &str) -> (r: String)
    ensures
        r@ == s@,
{
    s.to_owned()
}

/// The concatenation of `a` and `b`.
pub fn concat2(a: &str, b: &str) -> (r: String)
    ensures
        r@ == a@ + b@,
{
    let mut r = a.to_owned();
    r.append(b);
    r
}

/// `s` padded on the right with spaces to at least `width` characters.
pub fn pad_right(s: &str, width: usize) -> (r: String)
    ensures
        r@ == pad_right_spec(s@, width as nat),
{
    let n = s.unicode_len();
    let mut r = s.to_owned();
    if n >= width {
        return r;
    }
    let mut k: usize = n;
    proof {
        reveal_strlit(" ");
        assert(s@ + spaces(0) =~= s@);
    }
    while k < width
        invariant
            n == s@.len(),
            n <= k <= width,
            r@ == s@ + spaces((k - n) as nat),
        decreases width - k,
    {
        r.append(" ");
        proof {
            reveal_strlit(" ");
            assert(s@ + spaces((k + 1 - n) as nat) =~= s@ + spaces((k - n) as nat) + " "@);
        }
        k += 1;
    }
    r
}

/// `s` written `n` times in a row.
pub fn repeat(s: &str, n: usize) -> (r: String)
    ensures
        r@ == repeat_spec(s@, n as nat),
{
    let mut r = String::new();
    let mut k: usize = 0;
    while k < n
        invariant
            k <= n,
            r@ == repeat_spec(s@, k as nat),
        decreases n - k,
    {
        r.append(s);
        k += 1;
    }
    r
}

/// Words written on one line, a single space between two of them.
pub open spec fn words_line(words: Seq<Seq<char>>) -> Seq<char>
    decreases words.len(),
{
    if words.len() == 0 {
        seq![]
    } else if words.len() == 1 {
        words[0]
    } else {
        words_line(words.drop_last()) + " "@ + words.last()
    }
}

/// The pieces of `s` between single spaces (`str::split(' ')`), scanning
/// from position `i` inside a piece that began at `start`; empty pieces are
/// kept.
pub open spec fn split_from(s: Seq<char>, start: int, i: int) -> Seq<Seq<char>>
    decreases s.len() - i,
{
    if i >= s.len() {
        seq![s.subrange(start, s.len() as int)]
    } else if s[i] == ' ' {
        seq![s.subrange(start, i)] + split_from(s, i + 1, i + 1)
    } else {
        split_from(s, start, i + 1)
    }
}

/// The pieces of `s` between single spaces (`str::split(' ')`).
pub open spec fn split_spaces(s: Seq<char>) -> Seq<Seq<char>> {
    split_from(s, 0, 0)
}

/// A rest without spaces is one piece.
proof fn lemma_split_tail(s: Seq<char>, start: int, i: int)
    requires
        0 <= start <= i <= s.len(),
        forall|t: int| i <= t < s.len() ==> s[t] != ' ',
    ensures
        split_from(s, start, i) == seq![s.subrange(start, s.len() as int)],
    decreases s.len() - i,
{
    if i < s.len() {
        lemma_split_tail(s, start, i + 1);
    }
}

/// Text, a space and a word without spaces split into the pieces of the
/// text and then the word.
proof fn lemma_split_append(a: Seq<char>, b: Seq<char>, start: int, i: int)
    requires
        0 <= start <= i <= a.len(),
        !b.contains(' '),
    ensures
        split_from(a + seq![' '] + b, start, i) == split_from(a, start, i) + seq![b],
    decreases a.len() - i,
{
    let s = a + seq![' '] + b;
    if i < a.len() {
        assert(s[i] == a[i]);
        if a[i] == ' ' {
            lemma_split_append(a, b, i + 1, i + 1);
            assert(s.subrange(start, i) =~= a.subrange(start, i));
        } else {
            lemma_split_append(a, b, start, i + 1);
        }
    } else {
        assert(s[i] == ' ');
        assert forall|t: int| i + 1 <= t < s.len() implies s[t] != ' ' by {
            assert(s[t] == b[t - i - 1]);
            if b[t - i - 1] == ' ' {
                assert(b.contains(' '));
            }
        }
        lemma_split_tail(s, i + 1, i + 1);
        assert(s.subrange(i + 1, s.len() as int) =~= b);
        assert(s.subrange(start, i) =~= a.subrange(start, a.len() as int));
        assert(split_from(a, start, i) == seq![a.subrange(start, a.len() as int)]);
        assert(split_from(s, start, i) =~= split_from(a, start, i) + seq![b]);
    }
}

/// Words without spaces, written on one line and split at the spaces, come
/// back as they were.
pub proof fn lemma_split_words_line(words: Seq<Seq<char>>)
    requires
        words.len() > 0,
        forall|k: int| 0 <= k < words.len() ==> !(#[trigger] words[k]).contains(' '),
    ensures
        split_spaces(words_line(words)) == words,
    decreases words.len(),
{
    if words.len() == 1 {
        let w = words[0];
        assert forall|t: int| 0 <= t < w.len() implies w[t] != ' ' by {
            if w[t] == ' ' {
                assert(w.contains(' '));
            }
        }
        lemma_split_tail(w, 0, 0);
        assert(w.subrange(0, w.len() as int) =~= w);
        assert(words =~= seq![w]);
    } else {
        let init = words.drop_last();
        assert forall|k: int| 0 <= k < init.len() implies !(#[trigger] init[k]).contains(' ') by {
            assert(init[k] == words[k]);
        }
        lemma_split_words_line(init);
        reveal_strlit(" ");
        assert(" "@ =~= seq![' ']);
        assert(!words.last().contains(' ')) by {
            assert(words[words.len() - 1] == words.last());
        }
        lemma_split_append(words_line(init), words.last(), 0, 0);
        assert(init.push(words.last()) =~= words);
    }
}

} // verus!
