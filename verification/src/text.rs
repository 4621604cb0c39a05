//! Whitespace and trimming of text.

use vstd::prelude::*;
use vstd::string::*;

verus! {

/// Whether a character counts as whitespace: whether it is one of the
/// characters that Unicode gives the property White_Space. These are tab,
/// line feed, vertical tab, form feed, carriage return, space, next line,
/// no-break space, the ogham space mark, the spaces from en quad to hair
/// space, line separator, paragraph separator, narrow no-break space,
/// medium mathematical space and ideographic space.
pub open spec fn whitespace(c: char) -> bool {
    let n = c as u32;
    ||| 0x09 <= n <= 0x0D
    ||| n == 0x20
    ||| n == 0x85
    ||| n == 0xA0
    ||| n == 0x1680
    ||| 0x2000 <= n <= 0x200A
    ||| n == 0x2028
    ||| n == 0x2029
    ||| n == 0x202F
    ||| n == 0x205F
    ||| n == 0x3000
}

/// Whether a character counts as whitespace, as `char::is_whitespace`
/// says it.
pub fn is_whitespace(c: char) -> (r: bool)
    ensures
        r == whitespace(c),
{
    let n: u32 = c as u32;
    (0x09 <= n && n <= 0x0D) || n == 0x20 || n == 0x85 || n == 0xA0 || n == 0x1680 || (0x2000
        <= n && n <= 0x200A) || n == 0x2028 || n == 0x2029 || n == 0x202F || n == 0x205F || n
        == 0x3000
}

/// Whether two texts are the same.
pub fn same_text(a: &str, b: &str) -> (r: bool)
    ensures
        r == (a@ == b@),
{
    String::from_str(a) == String::from_str(b)
}

/// The text without the whitespace it starts with.
pub open spec fn skip_leading(s: Seq<char>) -> Seq<char>
    decreases s.len(),
{
    if s.len() > 0 && whitespace(s[0]) {
        skip_leading(s.drop_first())
    } else {
        s
    }
}

/// The text without the whitespace it ends with.
pub open spec fn skip_trailing(s: Seq<char>) -> Seq<char>
    decreases s.len(),
{
    if s.len() > 0 && whitespace(s.last()) {
        skip_trailing(s.drop_last())
    } else {
        s
    }
}

/// The text without surrounding whitespace.
pub open spec fn trimmed(s: Seq<char>) -> Seq<char> {
    skip_trailing(skip_leading(s))
}

/// The characters of a text, in order.
pub fn chars_of(s: &str) -> (v: Vec<char>)
    ensures
        v@ == s@,
{
    let mut v: Vec<char> = Vec::new();
    for c in it: s.chars()
        invariant
            it.seq() == s@,
            v@ == s@.take(it.index() as int),
    {
        v.push(c);
    }
    v
}

/// Dropping whitespace from the front of a text leaves a piece of it that
/// reaches to its end; that piece is empty or starts with something else.
proof fn lemma_skip_leading(s: Seq<char>) -> (k: int)
    ensures
        0 <= k <= s.len(),
        skip_leading(s) == s.skip(k),
        forall|i: int| 0 <= i < k ==> whitespace(#[trigger] s[i]),
        k < s.len() ==> !whitespace(s[k]),
    decreases s.len(),
{
    if s.len() > 0 && whitespace(s[0]) {
        let k = lemma_skip_leading(s.drop_first());
        assert(s.drop_first().skip(k) =~= s.skip(k + 1));
        assert forall|i: int| 0 <= i < k + 1 implies whitespace(#[trigger] s[i]) by {
            if i > 0 {
                assert(s[i] == s.drop_first()[i - 1]);
            }
        }
        k + 1
    } else {
        assert(s.skip(0) =~= s);
        0
    }
}

/// Dropping whitespace from the end of a text leaves a piece of it that
/// starts where it starts; that piece is empty or ends with something else.
proof fn lemma_skip_trailing(s: Seq<char>) -> (k: int)
    ensures
        0 <= k <= s.len(),
        skip_trailing(s) == s.take(k),
        forall|i: int| k <= i < s.len() ==> whitespace(#[trigger] s[i]),
        k > 0 ==> !whitespace(s[k - 1]),
    decreases s.len(),
{
    if s.len() > 0 && whitespace(s.last()) {
        let k = lemma_skip_trailing(s.drop_last());
        assert(s.drop_last().take(k) =~= s.take(k));
        assert forall|i: int| k <= i < s.len() implies whitespace(#[trigger] s[i]) by {
            if i < s.len() - 1 {
                assert(s[i] == s.drop_last()[i]);
            }
        }
        assert(k > 0 ==> s[k - 1] == s.drop_last()[k - 1]);
        k
    } else {
        assert(s.take(s.len() as int) =~= s);
        s.len() as int
    }
}

/// A piece of a text that has only whitespace before it and does not start
/// with whitespace is what is left when the leading whitespace is dropped.
pub(crate) proof fn lemma_skip_leading_is(s: Seq<char>, k: int)
    requires
        0 <= k <= s.len(),
        forall|i: int| 0 <= i < k ==> whitespace(#[trigger] s[i]),
        k < s.len() ==> !whitespace(s[k]),
    ensures
        skip_leading(s) == s.skip(k),
    decreases k,
{
    if k == 0 {
        assert(s.skip(0) =~= s);
    } else {
        assert(whitespace(s[0]));
        let t = s.drop_first();
        assert forall|i: int| 0 <= i < k - 1 implies whitespace(#[trigger] t[i]) by {
            assert(t[i] == s[i + 1]);
        }
        lemma_skip_leading_is(t, k - 1);
        assert(t.skip(k - 1) =~= s.skip(k));
    }
}

/// A piece of a text that has only whitespace after it and does not end
/// with whitespace is what is left when the trailing whitespace is dropped.
pub(crate) proof fn lemma_skip_trailing_is(s: Seq<char>, k: int)
    requires
        0 <= k <= s.len(),
        forall|i: int| k <= i < s.len() ==> whitespace(#[trigger] s[i]),
        k > 0 ==> !whitespace(s[k - 1]),
    ensures
        skip_trailing(s) == s.take(k),
    decreases s.len() - k,
{
    if k == s.len() {
        assert(s.take(k) =~= s);
    } else {
        assert(whitespace(s.last()));
        let t = s.drop_last();
        lemma_skip_trailing_is(t, k);
        assert(t.take(k) =~= s.take(k));
    }
}

/// A text without surrounding whitespace is still read from what it
/// becomes when whitespace is added to its end.
pub(crate) proof fn lemma_trimmed_with_ending(s: Seq<char>, ending: Seq<char>)
    requires
        trimmed(s) == s,
        forall|i: int| 0 <= i < ending.len() ==> whitespace(#[trigger] ending[i]),
    ensures
        trimmed(s + ending) == s,
{
    let whole = s + ending;
    let k = lemma_skip_leading(s);
    let j = lemma_skip_trailing(s.skip(k));
    assert(s.skip(k).take(j).len() == s.len());
    assert(k == 0 && j == s.len());
    assert(s.skip(0) =~= s);
    if s.len() == 0 {
        assert(whole =~= ending);
        lemma_skip_leading_is(whole, whole.len() as int);
        assert(whole.skip(whole.len() as int) =~= Seq::<char>::empty());
        assert(skip_trailing(Seq::<char>::empty()) == Seq::<char>::empty());
        assert(s =~= Seq::<char>::empty());
    } else {
        assert(whole[0] == s[0]);
        lemma_skip_leading_is(whole, 0);
        assert(whole.skip(0) =~= whole);
        assert forall|i: int| s.len() <= i < whole.len() implies whitespace(
            #[trigger] whole[i],
        ) by {
            assert(whole[i] == ending[i - s.len()]);
        }
        assert(whole[s.len() - 1] == s[s.len() - 1]);
        lemma_skip_trailing_is(whole, s.len() as int);
        assert(whole.take(s.len() as int) =~= s);
    }
}

/// Where the part of a text without surrounding whitespace starts and
/// ends, given for each character whether it is whitespace: the first
/// position that holds none, and the position after the last that holds
/// none. A text of whitespace alone has both at its end.
pub fn trim_bounds(spaces: &Vec<bool>) -> (r: (usize, usize))
    ensures
        r.0 <= r.1 <= spaces.len(),
        forall|k: int| 0 <= k < r.0 ==> spaces@[k],
        r.0 < spaces.len() ==> !spaces@[r.0 as int],
        forall|k: int| r.1 <= k < spaces.len() ==> spaces@[k],
        r.1 > r.0 ==> !spaces@[r.1 - 1],
{
    let n = spaces.len();
    let mut i: usize = 0;
    while i < n && spaces[i]
        invariant
            i <= n,
            n == spaces.len(),
            forall|k: int| 0 <= k < i ==> spaces@[k],
        decreases n - i,
    {
        i = i + 1;
    }
    let mut j: usize = n;
    while j > i && spaces[j - 1]
        invariant
            i <= j <= n,
            n == spaces.len(),
            forall|k: int| j <= k < n ==> spaces@[k],
        decreases j,
    {
        j = j - 1;
    }
    (i, j)
}

/// The text without surrounding whitespace, as `str::trim` gives it.
pub fn trim(s: &str) -> (r: String)
    ensures
        r@ == trimmed(s@),
{
    let chars = chars_of(s);
    let n = chars.len();
    let mut spaces: Vec<bool> = Vec::new();
    let mut at: usize = 0;
    while at < n
        invariant
            at <= n,
            n == chars.len(),
            spaces.len() == at,
            forall|k: int| 0 <= k < at ==> #[trigger] spaces@[k] == whitespace(chars@[k]),
        decreases n - at,
    {
        spaces.push(is_whitespace(chars[at]));
        at = at + 1;
    }
    let (i, j) = trim_bounds(&spaces);
    proof {
        assert forall|k: int| 0 <= k < n implies spaces@[k] == whitespace(#[trigger] s@[k]) by {
            assert(spaces@[k] == whitespace(chars@[k]));
        }
        lemma_skip_leading_is(s@, i as int);
        let rest = s@.skip(i as int);
        assert forall|k: int| j - i <= k < rest.len() implies whitespace(#[trigger] rest[k]) by {
            assert(rest[k] == s@[k + i]);
            assert(spaces@[k + i]);
        }
        assert(j > i ==> !whitespace(rest[j - i - 1])) by {
            if j > i {
                assert(rest[j - i - 1] == s@[j - 1]);
                assert(!spaces@[j - 1]);
            }
        }
        lemma_skip_trailing_is(rest, j - i);
        assert(rest.take(j - i) =~= s@.subrange(i as int, j as int));
    }
    String::from_str(s.substring_char(i, j))
}

} // verus!
