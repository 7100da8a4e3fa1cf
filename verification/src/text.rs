//! Text derivations: whitespace, word counts, cleaning and previews.

use vstd::prelude::*;

verus! {

/// The characters with the Unicode property `White_Space`.
pub open spec fn is_space(c: char) -> bool {
    let n: int = c as int;
    ||| 0x09 <= n <= 0x0D
    ||| n == 0x20
    ||| n == 0x85
    ||| n == 0xA0
    ||| n == 0x1680
    ||| 0x2000 <= n <= 0x200A
    ||| n == 0x2028
    ||| n == 0x2029
    ||| n == 0x202F
    ||| n == 0x205F
    ||| n == 0x3000
}

/// Whether `c` is whitespace.
pub fn is_whitespace(c: char) -> (b: bool)
    ensures
        b == is_space(c),
{
    let n: u32 = c as u32;
    (0x09 <= n && n <= 0x0D) || n == 0x20 || n == 0x85 || n == 0xA0 || n == 0x1680 || (0x2000 <= n
        && n <= 0x200A) || n == 0x2028 || n == 0x2029 || n == 0x202F || n == 0x205F || n == 0x3000
}

/// The characters of `s`, in order.
pub fn chars_of(s: &str) -> (v: Vec<char>)
    ensures
        v@ == s@,
{
    let mut v: Vec<char> = Vec::new();
    for c in it: s.chars()
        invariant
            v@ == it.seq().take(it.index() as int),
            it.seq() == s@,
    {
        v.push(c);
    }
    v
}

/// A token is a maximal run of non-whitespace characters; this holds where
/// one begins.
pub open spec fn starts_token(s: Seq<char>, i: int) -> bool {
    &&& 0 <= i < s.len()
    &&& !is_space(s[i])
    &&& (i == 0 || is_space(s[i - 1]))
}

/// The number of tokens that begin among the first `n` characters of `s`.
pub open spec fn tokens_before(s: Seq<char>, n: int) -> nat
    decreases n,
{
    if n <= 0 {
        0
    } else {
        tokens_before(s, n - 1) + if starts_token(s, n - 1) {
            1nat
        } else {
            0nat
        }
    }
}

/// The number of whitespace-delimited tokens of `s`.
pub open spec fn token_count(s: Seq<char>) -> nat {
    tokens_before(s, s.len() as int)
}

/// The word count that is stored for a text: its token count, reduced into
/// the range of `i32` by keeping the low 32 bits.
pub open spec fn word_count_of(s: Seq<char>) -> i32 {
    vstd::wrapping::i32_specs::signed_crop(token_count(s) as int)
}

/// A prefix holds no more tokens than it has characters.
pub proof fn lemma_tokens_bounded(s: Seq<char>, n: int)
    requires
        0 <= n <= s.len(),
    ensures
        tokens_before(s, n) <= n,
    decreases n,
{
    if n > 0 {
        lemma_tokens_bounded(s, n - 1);
    }
}

/// A text of fewer than 2^31 characters has its token count as word count.
pub proof fn lemma_word_count_exact(s: Seq<char>)
    requires
        s.len() <= i32::MAX,
    ensures
        word_count_of(s) == token_count(s),
{
    lemma_tokens_bounded(s, s.len() as int);
    let n: int = token_count(s) as int;
    assert(n % 0x1_0000_0000 == n) by {
        vstd::arithmetic::div_mod::lemma_small_mod(n as nat, 0x1_0000_0000);
    }
}

proof fn lemma_crop_step(n: int)
    requires
        0 <= n,
    ensures
        vstd::wrapping::i32_specs::signed_crop(n + 1) == vstd::wrapping::i32_specs::wrapping_add(
            vstd::wrapping::i32_specs::signed_crop(n),
            1,
        ),
{
    let r: int = 0x1_0000_0000;
    let m: int = n % r;
    assert(0 <= m < r && (n + 1) % r == if m + 1 == r {
        0
    } else {
        m + 1
    }) by (nonlinear_arith)
        requires
            0 <= n,
            r == 0x1_0000_0000,
            m == n % r,
    ;
}

/// Counts the whitespace-delimited tokens of `chars`.
pub fn count_words(chars: &Vec<char>) -> (count: i32)
    ensures
        count == word_count_of(chars@),
        chars@.len() <= i32::MAX ==> count == token_count(chars@),
{
    let mut count: i32 = 0;
    let mut in_token: bool = false;
    let mut i: usize = 0;
    while i < chars.len()
        invariant
            i <= chars.len(),
            count == vstd::wrapping::i32_specs::signed_crop(tokens_before(chars@, i as int) as int),
            in_token == (i > 0 && !is_space(chars@[i - 1])),
        decreases chars.len() - i,
    {
        let space: bool = is_whitespace(chars[i]);
        if !space && !in_token {
            proof {
                lemma_crop_step(tokens_before(chars@, i as int) as int);
            }
            count = count.wrapping_add(1);
        }
        in_token = !space;
        i = i + 1;
    }
    proof {
        if chars@.len() <= i32::MAX {
            lemma_word_count_exact(chars@);
        }
    }
    count
}

/// A line feed or a carriage return becomes one space; any other character
/// stays.
pub open spec fn clean_char(c: char) -> char {
    if c == '\n' || c == '\r' {
        ' '
    } else {
        c
    }
}

/// `s` with every line break replaced by one space.
pub open spec fn flattened(s: Seq<char>) -> Seq<char> {
    Seq::new(s.len(), |i: int| clean_char(s[i]))
}

/// `s` without its leading whitespace.
pub open spec fn trim_start(s: Seq<char>) -> Seq<char>
    decreases s.len(),
{
    if s.len() > 0 && is_space(s[0]) {
        trim_start(s.drop_first())
    } else {
        s
    }
}

/// `s` without its trailing whitespace.
pub open spec fn trim_end(s: Seq<char>) -> Seq<char>
    decreases s.len(),
{
    if s.len() > 0 && is_space(s.last()) {
        trim_end(s.drop_last())
    } else {
        s
    }
}

/// `s` without leading and trailing whitespace.
pub open spec fn trimmed(s: Seq<char>) -> Seq<char> {
    trim_end(trim_start(s))
}

/// The cleaned form of a text: line breaks turned into spaces, then trimmed.
pub open spec fn cleaned(s: Seq<char>) -> Seq<char> {
    trimmed(flattened(s))
}

/// The marker that ends a preview that was cut short.
pub open spec fn ellipsis() -> Seq<char> {
    seq!['.', '.', '.']
}

/// The preview of `content`: its cleaned form if that has at most `length`
/// characters, else the first `length` of them followed by the ellipsis.
pub open spec fn preview_of(content: Seq<char>, length: nat) -> Seq<char> {
    let c = cleaned(content);
    if c.len() > length {
        c.subrange(0, length as int) + ellipsis()
    } else {
        c
    }
}

/// A preview is the cleaned content itself where that has at most `length`
/// characters, ellipsis and all; a longer one is cut to `length` characters
/// and the three of the ellipsis.
pub proof fn lemma_preview_length(content: Seq<char>, length: nat)
    ensures
        cleaned(content).len() <= length ==> preview_of(content, length) == cleaned(content),
        cleaned(content).len() > length ==> preview_of(content, length).len() == length + 3,
        cleaned(content).len() > length ==> preview_of(content, length).subrange(0, length as int)
            == cleaned(content).subrange(0, length as int),
{
    let c = cleaned(content);
    if c.len() > length {
        let cut = c.subrange(0, length as int);
        assert((cut + ellipsis()).subrange(0, length as int) =~= cut);
    }
}

/// Dropping the `k` leading whitespace characters of `s`, where the next
/// one is none, trims its start.
pub proof fn lemma_trim_start(s: Seq<char>, k: int)
    requires
        0 <= k <= s.len(),
        forall|i: int| 0 <= i < k ==> is_space(#[trigger] s[i]),
        k == s.len() || !is_space(s[k]),
    ensures
        trim_start(s) == s.subrange(k, s.len() as int),
    decreases k,
{
    if k == 0 {
        assert(s.subrange(0, s.len() as int) =~= s);
    } else {
        let t = s.drop_first();
        assert forall|i: int| 0 <= i < k - 1 implies is_space(#[trigger] t[i]) by {
            assert(t[i] == s[i + 1]);
        }
        lemma_trim_start(t, k - 1);
        assert(t.subrange(k - 1, t.len() as int) =~= s.subrange(k, s.len() as int));
    }
}

/// Keeping the first `e` characters of `s`, where all behind them are
/// whitespace and the last one kept is none, trims its end.
pub proof fn lemma_trim_end(s: Seq<char>, e: int)
    requires
        0 <= e <= s.len(),
        forall|i: int| e <= i < s.len() ==> is_space(#[trigger] s[i]),
        e == 0 || !is_space(s[e - 1]),
    ensures
        trim_end(s) == s.subrange(0, e),
    decreases s.len() - e,
{
    if e == s.len() {
        assert(s.subrange(0, e) =~= s);
    } else {
        let t = s.drop_last();
        assert forall|i: int| e <= i < t.len() implies is_space(#[trigger] t[i]) by {
            assert(t[i] == s[i]);
        }
        lemma_trim_end(t, e);
        assert(t.subrange(0, e) =~= s.subrange(0, e));
    }
}

/// Replaces a line feed or a carriage return by a space.
pub fn clean_one(c: char) -> (r: char)
    ensures
        r == clean_char(c),
        is_space(r) == is_space(c),
{
    if c == '\n' || c == '\r' {
        ' '
    } else {
        c
    }
}

/// Builds the preview of the text `chars`, of at most `length` characters
/// before the ellipsis.
pub fn make_preview(chars: &Vec<char>, length: usize) -> (out: Vec<char>)
    ensures
        out@ == preview_of(chars@, length as nat),
{
    let n: usize = chars.len();
    let ghost flat = flattened(chars@);
    let mut start: usize = 0;
    while start < n && is_whitespace(chars[start])
        invariant
            start <= n,
            n == chars@.len(),
            forall|i: int| 0 <= i < start ==> is_space(#[trigger] chars@[i]),
        decreases n - start,
    {
        start = start + 1;
    }
    let mut end: usize = n;
    while end > start && is_whitespace(chars[end - 1])
        invariant
            start <= end <= n,
            n == chars@.len(),
            forall|i: int| end <= i < n ==> is_space(#[trigger] chars@[i]),
        decreases end - start,
    {
        end = end - 1;
    }
    proof {
        assert forall|i: int| 0 <= i < flat.len() implies is_space(#[trigger] flat[i]) == is_space(
            chars@[i],
        ) by {}
        lemma_trim_start(flat, start as int);
        let t = flat.subrange(start as int, n as int);
        assert forall|i: int| end - start <= i < t.len() implies is_space(#[trigger] t[i]) by {
            assert(t[i] == flat[i + start]);
        }
        if end > start {
            assert(t[end - start - 1] == flat[end - 1]);
        }
        lemma_trim_end(t, end - start);
        assert(t.subrange(0, end - start) =~= flat.subrange(start as int, end as int));
        assert(cleaned(chars@) == flat.subrange(start as int, end as int));
    }
    let cut: bool = end - start > length;
    let keep: usize = if cut {
        length
    } else {
        end - start
    };
    let mut out: Vec<char> = Vec::new();
    let mut i: usize = 0;
    while i < keep
        invariant
            i <= keep,
            start + keep <= end <= n,
            n == chars@.len(),
            flat == flattened(chars@),
            out@ == flat.subrange(start as int, start + i),
        decreases keep - i,
    {
        out.push(clean_one(chars[start + i]));
        proof {
            assert(out@ =~= flat.subrange(start as int, start + i + 1));
        }
        i = i + 1;
    }
    if cut {
        proof {
            assert(out@ =~= cleaned(chars@).subrange(0, length as int));
        }
        out.push('.');
        out.push('.');
        out.push('.');
        proof {
            assert(out@ =~= cleaned(chars@).subrange(0, length as int) + ellipsis());
        }
    }
    out
}

/// Makes a string of the characters of `chars`, in order. The call is
/// `String::from_iter`; that the string holds exactly these characters is
/// taken from its documentation, not proved.
#[verifier::external_body]
pub(crate) fn string_from_chars(chars: &Vec<char>) -> (s: String)
    ensures
        s@ == chars@,
{
    String::from_iter(chars)
}

} // verus!
