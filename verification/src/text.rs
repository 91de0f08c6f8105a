use vstd::prelude::*;

verus! {

/// The part of `s` after its last `/`, or all of `s` when it holds none:
/// what `split('/').last()` yields.
pub open spec fn last_segment(s: Seq<char>) -> Seq<char>
    decreases s.len(),
{
    if s.len() == 0 {
        s
    } else if s.last() == '/' {
        Seq::empty()
    } else {
        last_segment(s.drop_last()).push(s.last())
    }
}

/// `last_segment` of `s` starts at any `start` that follows the last `/`.
proof fn lemma_last_segment_from(s: Seq<char>, start: int)
    requires
        0 <= start <= s.len(),
        start == 0 || s[start - 1] == '/',
        forall|j: int| start <= j < s.len() ==> s[j] != '/',
    ensures
        last_segment(s) == s.subrange(start, s.len() as int),
    decreases s.len(),
{
    if s.len() == 0 {
    } else if start == s.len() {
        assert(s.subrange(start, s.len() as int) =~= Seq::<char>::empty());
    } else {
        lemma_last_segment_from(s.drop_last(), start);
        assert(s.subrange(start, s.len() as int) =~= s.drop_last().subrange(
            start,
            s.len() - 1,
        ).push(s.last()));
    }
}

/// A reference ends in the name it points to: the last segment of
/// `<path>/<name>` is `<name>`, when the name holds no `/`.
pub proof fn law_last_segment_of_reference(path: Seq<char>, name: Seq<char>)
    requires
        !name.contains('/'),
    ensures
        last_segment(path.push('/') + name) == name,
{
    let s = path.push('/') + name;
    assert(s[path.len() as int] == '/');
    assert forall|j: int| path.len() + 1 <= j < s.len() implies s[j] != '/' by {
        assert(s[j] == name[j - path.len() - 1]);
    }
    lemma_last_segment_from(s, path.len() + 1int);
    assert(s.subrange(path.len() + 1int, s.len() as int) =~= name);
}

/// A text without `/` is its own last segment.
pub proof fn law_last_segment_without_slash(s: Seq<char>)
    requires
        !s.contains('/'),
    ensures
        last_segment(s) == s,
{
    assert forall|j: int| 0 <= j < s.len() implies s[j] != '/' by {
        if s[j] == '/' {
            assert(s.contains('/'));
        }
    }
    lemma_last_segment_from(s, 0);
    assert(s.subrange(0, s.len() as int) =~= s);
}

/// The text after the last `/` of `s` (all of `s` when it holds no `/`).
pub fn last_path_segment(s: &str) -> (r: String)
    ensures
        r@ == last_segment(s@),
{
    let len = s.unicode_len();
    let mut start = len;
    while start > 0 && s.get_char(start - 1) != '/'
        invariant
            len == s@.len(),
            start <= len,
            forall|j: int| start <= j < len ==> s@[j] != '/',
        decreases start,
    {
        start = start - 1;
    }
    proof {
        lemma_last_segment_from(s@, start as int);
    }
    String::from_str(s.substring_char(start, len))
}

/// Whether `a` and `b` hold the same text.
pub fn text_eq(a: &str, b: &str) -> (r: bool)
    ensures
        r == (a@ == b@),
{
    let n = a.unicode_len();
    if n != b.unicode_len() {
        return false;
    }
    let mut i: usize = 0;
    while i < n
        invariant
            n == a@.len(),
            n == b@.len(),
            i <= n,
            forall|j: int| 0 <= j < i ==> a@[j] == b@[j],
        decreases n - i,
    {
        if a.get_char(i) != b.get_char(i) {
            return false;
        }
        i = i + 1;
    }
    assert(a@ =~= b@);
    true
}

/// The decimal digit `d` as text.
pub open spec fn digit_text(d: nat) -> Seq<char> {
    if d == 0 {
        "0"@
    } else if d == 1 {
        "1"@
    } else if d == 2 {
        "2"@
    } else if d == 3 {
        "3"@
    } else if d == 4 {
        "4"@
    } else if d == 5 {
        "5"@
    } else if d == 6 {
        "6"@
    } else if d == 7 {
        "7"@
    } else if d == 8 {
        "8"@
    } else {
        "9"@
    }
}

/// `n` written in decimal, without leading zeros.
pub open spec fn decimal_text(n: nat) -> Seq<char>
    decreases n,
{
    if n < 10 {
        digit_text(n)
    } else {
        decimal_text(n / 10) + digit_text(n % 10)
    }
}

/// The number that a text of decimal digits stands for.
pub open spec fn decimal_value(s: Seq<char>) -> int
    decreases s.len(),
{
    if s.len() == 0 {
        0
    } else {
        decimal_value(s.drop_last()) * 10 + (s.last() as int - '0' as int)
    }
}

proof fn lemma_digit_text(d: nat)
    requires
        d < 10,
    ensures
        digit_text(d).len() == 1,
        '0' <= digit_text(d)[0] <= '9',
        digit_text(d)[0] as int - '0' as int == d,
        digit_text(d)[0] == '0' ==> d == 0,
{
    reveal_strlit("0");
    reveal_strlit("1");
    reveal_strlit("2");
    reveal_strlit("3");
    reveal_strlit("4");
    reveal_strlit("5");
    reveal_strlit("6");
    reveal_strlit("7");
    reveal_strlit("8");
    reveal_strlit("9");
}

/// `n` in decimal reads back as `n`: it is made of the digits `0` to `9`
/// only, starts with `0` only when it is `0`, and stands for `n`.
pub proof fn law_decimal_text(n: nat)
    ensures
        decimal_value(decimal_text(n)) == n,
        decimal_text(n).len() > 0,
        forall|i: int|
            0 <= i < decimal_text(n).len() ==> '0' <= #[trigger] decimal_text(n)[i] <= '9',
        decimal_text(n)[0] == '0' ==> n == 0,
    decreases n,
{
    if n < 10 {
        lemma_digit_text(n);
        let t = decimal_text(n);
        assert(t.drop_last() =~= Seq::<char>::empty());
        assert(decimal_value(t.drop_last()) == 0);
        assert(t.last() == t[0]);
    } else {
        law_decimal_text(n / 10);
        lemma_digit_text(n % 10);
        let head = decimal_text(n / 10);
        let d = digit_text(n % 10);
        let t = head + d;
        assert(t == decimal_text(n));
        assert(t.drop_last() =~= head);
        assert(t.last() == d[0]);
        assert(decimal_value(t) == decimal_value(head) * 10 + (d[0] as int - '0' as int));
        assert(n == (n / 10) * 10 + n % 10);
        assert(t[0] == head[0]);
        assert forall|i: int| 0 <= i < t.len() implies '0' <= #[trigger] t[i] <= '9' by {
            if i < head.len() {
                assert(t[i] == head[i]);
            } else {
                assert(t[i] == d[0]);
            }
        }
    }
}

fn append_digit(s: &mut String, d: u16)
    requires
        d < 10,
    ensures
        final(s)@ == old(s)@ + digit_text(d as nat),
{
    if d == 0 {
        s.append("0");
    } else if d == 1 {
        s.append("1");
    } else if d == 2 {
        s.append("2");
    } else if d == 3 {
        s.append("3");
    } else if d == 4 {
        s.append("4");
    } else if d == 5 {
        s.append("5");
    } else if d == 6 {
        s.append("6");
    } else if d == 7 {
        s.append("7");
    } else if d == 8 {
        s.append("8");
    } else {
        s.append("9");
    }
}

fn append_decimal(s: &mut String, n: u16)
    ensures
        final(s)@ == old(s)@ + decimal_text(n as nat),
    decreases n,
{
    if n < 10 {
        append_digit(s, n);
    } else {
        append_decimal(s, n / 10);
        append_digit(s, n % 10);
        assert(old(s)@ + decimal_text((n / 10) as nat) + digit_text((n % 10) as nat) =~= old(s)@
            + decimal_text(n as nat));
    }
}

/// `n` written in decimal.
pub fn decimal_string(n: u16) -> (r: String)
    ensures
        r@ == decimal_text(n as nat),
{
    let mut s = String::new();
    append_decimal(&mut s, n);
    assert(s@ =~= decimal_text(n as nat));
    s
}

/// Index of the first `c` in `s`, if any.
pub open spec fn char_position(s: Seq<char>, c: char) -> Option<int>
    decreases s.len(),
{
    if s.len() == 0 {
        None
    } else if s[0] == c {
        Some(0)
    } else {
        match char_position(s.drop_first(), c) {
            Some(i) => Some(i + 1),
            None => None,
        }
    }
}

/// `char_position` finds the first `c`: no `c` comes before it.
pub proof fn lemma_char_position(s: Seq<char>, c: char)
    ensures
        char_position(s, c) matches Some(i) ==> 0 <= i < s.len() && s[i] == c && forall|j: int|
            0 <= j < i ==> s[j] != c,
        char_position(s, c) is None ==> forall|j: int| 0 <= j < s.len() ==> s[j] != c,
    decreases s.len(),
{
    if s.len() > 0 {
        lemma_char_position(s.drop_first(), c);
        assert forall|j: int| 0 < j < s.len() implies #[trigger] s[j] == s.drop_first()[j - 1] by {}
    }
}

/// The first position that holds no `c` before it and `c` there, is where
/// `char_position` finds `c`.
pub proof fn lemma_char_position_unique(s: Seq<char>, c: char, i: int)
    requires
        0 <= i <= s.len(),
        forall|j: int| 0 <= j < i ==> s[j] != c,
        i == s.len() || s[i] == c,
    ensures
        char_position(s, c) == if i == s.len() {
            None
        } else {
            Some(i)
        },
    decreases s.len(),
{
    if s.len() > 0 && i > 0 {
        assert forall|j: int| 0 <= j < i - 1 implies s.drop_first()[j] != c by {
            assert(s.drop_first()[j] == s[j + 1]);
        }
        lemma_char_position_unique(s.drop_first(), c, i - 1);
    }
}

/// Where the first `c` of `s` is, if any.
pub fn find_char(s: &str, c: char) -> (r: Option<usize>)
    ensures
        match r {
            Some(i) => char_position(s@, c) == Some(i as int),
            None => char_position(s@, c) is None,
        },
{
    let n = s.unicode_len();
    let mut i: usize = 0;
    while i < n
        invariant
            n == s@.len(),
            i <= n,
            forall|j: int| 0 <= j < i ==> s@[j] != c,
        decreases n - i,
    {
        if s.get_char(i) == c {
            proof {
                lemma_char_position_unique(s@, c, i as int);
            }
            return Some(i);
        }
        i = i + 1;
    }
    proof {
        lemma_char_position_unique(s@, c, n as int);
    }
    None
}

} // verus!
